use xpbd::components::{
    Ball, BoxCollider, CircleCollider, Mass, Pos, PreSolveVel, PrevPos, Restitution, Velocity,
};
use xpbd::entity::{Collider, ParticleBundle, StaticBody};
use xpbd::fx::{Vec2, SCALE};
use xpbd::resources::{CollisionPairs, Contacts, Gravity, StaticContacts};
use xpbd::{
    clear_contacts, collect_collision_pairs, integrate, solve_pos, solve_pos_static_boxes,
    solve_pos_statics, solve_vel, solve_vel_statics, update_velocity, DELTA_TIME,
};

fn ball_at(x: i64, y: i64, vx: i64, vy: i64) -> ParticleBundle {
    ParticleBundle::new_with_pos_and_vel(Vec2::new(x, y), Vec2::new(vx, vy))
}

#[test]
fn integrate_applies_gravity_then_drift() {
    let mut bodies = vec![ball_at(0, 0, 0, 0)];
    let gravity = Gravity::default();
    integrate(&mut bodies, &gravity, DELTA_TIME);
    // v.y = -9_810_000 * 16_667 / 1_000_000 = -163_503 (truncated)
    assert_eq!(bodies[0].vel.0, Vec2::new(0, -163_503));
    // p.y = -163_503 * 16_667 / 1_000_000 = -2_725 (truncated)
    assert_eq!(bodies[0].pos.0, Vec2::new(0, -2_725));
    assert_eq!(bodies[0].pre_solve_vel.0, bodies[0].vel.0);
    assert_eq!(bodies[0].prev_pos.0, Vec2::new(0, 0));
}

#[test]
fn integrate_leaves_mass_and_collider_alone() {
    let mut bodies = vec![ball_at(5_000_000, 0, 1_000_000, 0)];
    integrate(&mut bodies, &Gravity(Vec2::new(0, 0)), DELTA_TIME);
    // no gravity: velocity unchanged, position advances by v * dt = 16_667
    assert_eq!(bodies[0].vel.0, Vec2::new(1_000_000, 0));
    assert_eq!(bodies[0].pos.0, Vec2::new(5_016_667, 0));
    assert_eq!(bodies[0].mass.0, SCALE);
    assert_eq!(bodies[0].collider.radius, 500_000);
}

#[test]
fn update_velocity_recovers_displacement_per_second() {
    let mut bodies = vec![ParticleBundle {
        ball: Ball,
        pos: Pos(Vec2::new(100_000, 0)),
        prev_pos: PrevPos(Vec2::new(0, 0)),
        mass: Mass(SCALE),
        collider: CircleCollider::default(),
        vel: Velocity(Vec2::new(0, 0)),
        pre_solve_vel: PreSolveVel(Vec2::new(0, 0)),
        restitution: Restitution::default(),
    }];
    update_velocity(&mut bodies, DELTA_TIME);
    // v = 100_000 * 1_000_000 / 16_667 = 5_999_880 (truncated)
    assert_eq!(bodies[0].vel.0, Vec2::new(5_999_880, 0));
}

#[test]
fn broad_phase_keeps_fast_approaching_pairs() {
    // Two half-unit circles two units apart: resting they are no candidates,
    // closing at 30 units per second each they are.
    let resting = vec![ball_at(0, 0, 0, 0), ball_at(2_000_000, 0, 0, 0)];
    let mut pairs = CollisionPairs::default();
    collect_collision_pairs(&resting, DELTA_TIME, &mut pairs);
    assert!(pairs.0.is_empty());

    let fast = vec![
        ball_at(0, 0, 30_000_000, 0),
        ball_at(2_000_000, 0, -30_000_000, 0),
    ];
    collect_collision_pairs(&fast, DELTA_TIME, &mut pairs);
    assert_eq!(pairs.0, vec![(0, 1)]);
}

#[test]
fn broad_phase_replaces_the_previous_list() {
    let overlapping = vec![ball_at(0, 0, 0, 0), ball_at(600_000, 0, 0, 0)];
    let mut pairs = CollisionPairs::default();
    collect_collision_pairs(&overlapping, DELTA_TIME, &mut pairs);
    assert_eq!(pairs.0, vec![(0, 1)]);
    let empty: Vec<ParticleBundle> = Vec::new();
    collect_collision_pairs(&empty, DELTA_TIME, &mut pairs);
    assert!(pairs.0.is_empty());
}

#[test]
fn solve_pos_splits_even_penetration_in_half() {
    // Equal masses, radii 0.5 each, centers 0.8 apart: penetration 0.2.
    let mut bodies = vec![ball_at(0, 0, 0, 0), ball_at(800_000, 0, 0, 0)];
    let pairs = CollisionPairs(vec![(0, 1)]);
    let mut contacts = Contacts::default();
    solve_pos(&mut bodies, &pairs, &mut contacts);
    assert_eq!(bodies[0].pos.0, Vec2::new(-100_000, 0));
    assert_eq!(bodies[1].pos.0, Vec2::new(900_000, 0));
    // exactly one contact, normal from body 0 to body 1 along +X
    assert_eq!(contacts.0, vec![(0, 1, Vec2::new(SCALE, 0))]);
}

#[test]
fn solve_pos_weights_correction_by_mass() {
    // Body 0 twice the mass of body 1: body 1 moves twice as far.
    let heavy = ParticleBundle::new_with_pos_and_vel_and_mass(
        Vec2::new(0, 0),
        Vec2::new(0, 0),
        2_000_000,
    );
    let light = ParticleBundle::new_with_pos_and_vel_and_mass(
        Vec2::new(700_000, 0),
        Vec2::new(0, 0),
        1_000_000,
    );
    let mut bodies = vec![heavy, light];
    let pairs = CollisionPairs(vec![(0, 1)]);
    let mut contacts = Contacts::default();
    solve_pos(&mut bodies, &pairs, &mut contacts);
    // penetration 300_000; heavy gets 1/3 = 100_000, light 2/3 = 200_000
    assert_eq!(bodies[0].pos.0, Vec2::new(-100_000, 0));
    assert_eq!(bodies[1].pos.0, Vec2::new(900_000, 0));
}

#[test]
fn solve_pos_is_idempotent_once_separated() {
    let mut bodies = vec![ball_at(0, 0, 0, 0), ball_at(800_000, 0, 0, 0)];
    let pairs = CollisionPairs(vec![(0, 1)]);
    let mut contacts = Contacts::default();
    solve_pos(&mut bodies, &pairs, &mut contacts);
    let after_first = (bodies[0].pos.0, bodies[1].pos.0);
    solve_pos(&mut bodies, &pairs, &mut contacts);
    assert_eq!((bodies[0].pos.0, bodies[1].pos.0), after_first);
    assert_eq!(contacts.0.len(), 1); // no second contact either
}

#[test]
fn solve_pos_coincident_centers_fall_back_to_x_axis() {
    let mut bodies = vec![ball_at(0, 0, 0, 0), ball_at(0, 0, 0, 0)];
    let pairs = CollisionPairs(vec![(0, 1)]);
    let mut contacts = Contacts::default();
    solve_pos(&mut bodies, &pairs, &mut contacts);
    // full penetration 1.0 split in half along the +X fallback axis
    assert_eq!(bodies[0].pos.0, Vec2::new(-500_000, 0));
    assert_eq!(bodies[1].pos.0, Vec2::new(500_000, 0));
    assert_eq!(contacts.0, vec![(0, 1, Vec2::new(SCALE, 0))]);
}

#[test]
fn static_circle_takes_no_correction() {
    let mut bodies = vec![ball_at(0, 800_000, 0, 0)];
    let statics = vec![StaticBody {
        pos: Pos(Vec2::new(0, 0)),
        collider: Collider::Circle(CircleCollider { radius: 500_000 }),
        restitution: Restitution::default(),
    }];
    let mut contacts = StaticContacts::default();
    solve_pos_statics(&mut bodies, &statics, &mut contacts);
    // whole penetration (0.2) applied to the dynamic body, away from the obstacle
    assert_eq!(bodies[0].pos.0, Vec2::new(0, 1_000_000));
    // normal points from the body toward the obstacle: straight down
    assert_eq!(contacts.0, vec![(0, 0, Vec2::new(0, -SCALE))]);
}

#[test]
fn box_edge_contact_is_axis_aligned() {
    // Circle left of a unit box, overlapping its vertical edge.
    let mut bodies = vec![ball_at(-800_000, 0, 0, 0)];
    let statics = vec![StaticBody {
        pos: Pos(Vec2::new(0, 0)),
        collider: Collider::Box(BoxCollider { half_extents: Vec2::new(500_000, 500_000) }),
        restitution: Restitution::default(),
    }];
    let mut contacts = StaticContacts::default();
    solve_pos_static_boxes(&mut bodies, &statics, &mut contacts);
    // corner_to_center = (300_000, -500_000): vertical-edge region,
    // penetration = 500_000 - 300_000 = 200_000, pushed further left
    assert_eq!(bodies[0].pos.0, Vec2::new(-1_000_000, 0));
    assert_eq!(contacts.0, vec![(0, 0, Vec2::new(SCALE, 0))]);
}

#[test]
fn box_corner_contact_is_diagonal() {
    // Circle near the top-right corner of a unit box.
    let mut bodies = vec![ball_at(800_000, 800_000, 0, 0)];
    let statics = vec![StaticBody {
        pos: Pos(Vec2::new(0, 0)),
        collider: Collider::Box(BoxCollider { half_extents: Vec2::new(500_000, 500_000) }),
        restitution: Restitution::default(),
    }];
    let mut contacts = StaticContacts::default();
    solve_pos_static_boxes(&mut bodies, &statics, &mut contacts);
    // corner_to_center = (300_000, 300_000), corner distance = 424_264,
    // normal = -(300_000 * SCALE / 424_264) on both axes = (-707_106, -707_106)
    assert_eq!(contacts.0.len(), 1);
    let n = contacts.0[0].2;
    assert_eq!(n, Vec2::new(-707_106, -707_106));
    // penetration 75_736 along that diagonal: pushed up-right by 53_553 each axis
    assert_eq!(bodies[0].pos.0, Vec2::new(853_553, 853_553));
}

#[test]
fn box_clear_of_circle_is_skipped() {
    let mut bodies = vec![ball_at(2_000_000, 0, 0, 0)];
    let statics = vec![StaticBody {
        pos: Pos(Vec2::new(0, 0)),
        collider: Collider::Box(BoxCollider { half_extents: Vec2::new(500_000, 500_000) }),
        restitution: Restitution::default(),
    }];
    let mut contacts = StaticContacts::default();
    solve_pos_static_boxes(&mut bodies, &statics, &mut contacts);
    assert_eq!(bodies[0].pos.0, Vec2::new(2_000_000, 0));
    assert!(contacts.0.is_empty());
}

#[test]
fn restitution_one_reverses_normal_velocity_exactly() {
    let mut bodies = vec![ParticleBundle {
        ball: Ball,
        pos: Pos(Vec2::new(0, 0)),
        prev_pos: PrevPos(Vec2::new(0, 0)),
        mass: Mass(SCALE),
        collider: CircleCollider::default(),
        vel: Velocity(Vec2::new(5_000_000, 0)),
        pre_solve_vel: PreSolveVel(Vec2::new(5_000_000, 0)),
        restitution: Restitution(SCALE),
    }];
    let statics = vec![StaticBody {
        pos: Pos(Vec2::new(1_000_000, 0)),
        collider: Collider::Circle(CircleCollider::default()),
        restitution: Restitution(SCALE),
    }];
    // head-on contact, normal from the body toward the obstacle
    let contacts = StaticContacts(vec![(0, 0, Vec2::new(SCALE, 0))]);
    solve_vel_statics(&mut bodies, &statics, &contacts);
    assert_eq!(bodies[0].vel.0, Vec2::new(-5_000_000, 0));
}

#[test]
fn restitution_zero_cancels_normal_velocity() {
    let mut bodies = vec![ParticleBundle {
        ball: Ball,
        pos: Pos(Vec2::new(0, 0)),
        prev_pos: PrevPos(Vec2::new(0, 0)),
        mass: Mass(SCALE),
        collider: CircleCollider::default(),
        vel: Velocity(Vec2::new(5_000_000, 2_000_000)),
        pre_solve_vel: PreSolveVel(Vec2::new(5_000_000, 2_000_000)),
        restitution: Restitution(0),
    }];
    let statics = vec![StaticBody {
        pos: Pos(Vec2::new(1_000_000, 0)),
        collider: Collider::Circle(CircleCollider::default()),
        restitution: Restitution(0),
    }];
    let contacts = StaticContacts(vec![(0, 0, Vec2::new(SCALE, 0))]);
    solve_vel_statics(&mut bodies, &statics, &contacts);
    // the normal (x) component dies, the tangential (y) one survives
    assert_eq!(bodies[0].vel.0, Vec2::new(0, 2_000_000));
}

#[test]
fn dynamic_pair_restitution_reverses_within_one_unit() {
    let mk = |x: i64, vx: i64| ParticleBundle {
        ball: Ball,
        pos: Pos(Vec2::new(x, 0)),
        prev_pos: PrevPos(Vec2::new(x, 0)),
        mass: Mass(SCALE),
        collider: CircleCollider::default(),
        vel: Velocity(Vec2::new(vx, 0)),
        pre_solve_vel: PreSolveVel(Vec2::new(vx, 0)),
        restitution: Restitution(SCALE),
    };
    let mut bodies = vec![mk(0, 3_000_000), mk(900_000, -3_000_000)];
    let contacts = Contacts(vec![(0, 1, Vec2::new(SCALE, 0))]);
    solve_vel(&mut bodies, &contacts);
    // relative normal velocity was +6; afterwards -6, split evenly
    let rel = bodies[0].vel.0.x - bodies[1].vel.0.x;
    assert!((-6_000_000 - 1..=-6_000_000 + 1).contains(&rel), "rel = {rel}");
}

#[test]
fn clear_contacts_empties_both_lists() {
    let mut contacts = Contacts(vec![(0, 1, Vec2::new(SCALE, 0))]);
    let mut static_contacts = StaticContacts(vec![(0, 0, Vec2::new(0, SCALE))]);
    clear_contacts(&mut contacts, &mut static_contacts);
    assert!(contacts.0.is_empty());
    assert!(static_contacts.0.is_empty());
}
