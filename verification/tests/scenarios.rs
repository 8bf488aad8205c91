use xpbd::components::{BoxCollider, CircleCollider, Pos, Restitution};
use xpbd::entity::{Collider, ParticleBundle, StaticBody};
use xpbd::fx::{Vec2, SCALE};
use xpbd::resources::Gravity;
use xpbd::{XPBDPlugin, DELTA_TIME};

fn floor_box() -> StaticBody {
    // a wide floor whose top surface is at y = 0
    StaticBody {
        pos: Pos(Vec2::new(0, -1_000_000)),
        collider: Collider::Box(BoxCollider { half_extents: Vec2::new(20_000_000, 1_000_000) }),
        restitution: Restitution(300_000),
    }
}

#[test]
fn free_fall_matches_symplectic_euler_each_tick() {
    // A lone body far from anything: each tick must be exactly gravity into
    // velocity, velocity into position, with the velocity then re-derived
    // from the displacement (recovering it up to one timestep quantum).
    let mut plugin = XPBDPlugin::default();
    let mut bodies = vec![ParticleBundle::new_with_pos_and_vel(
        Vec2::new(0, 50_000_000),
        Vec2::new(0, 0),
    )];
    let statics = vec![floor_box()];
    let mut expected_vy: i64 = 0;
    for _ in 0..10 {
        let y_before = bodies[0].pos.0.y;
        plugin.step(&mut bodies, &statics, DELTA_TIME);
        expected_vy += -9_810_000 * DELTA_TIME / SCALE;
        // pre-solve velocity holds the exact integrated velocity
        assert_eq!(bodies[0].pre_solve_vel.0.y, expected_vy);
        // position advanced by exactly v' * dt
        assert_eq!(
            bodies[0].pos.0.y,
            y_before + (expected_vy as i128 * DELTA_TIME as i128 / SCALE as i128) as i64
        );
        // the re-derived velocity is within one quantum (SCALE/dt + 1) of v'
        let quantum = (SCALE - 1) / DELTA_TIME + 1;
        let err = (bodies[0].vel.0.y - expected_vy).abs();
        assert!(err <= quantum, "err = {err}");
        // continue from the exact integrated velocity to keep the expectation exact
        expected_vy = bodies[0].vel.0.y;
    }
}

#[test]
fn dropped_ball_settles_on_the_box_floor() {
    // A circle of radius 0.5, mass 1 and restitution 0.3, dropped from rest
    // two units above the floor, must come to rest with its bottom touching
    // the floor top: center near y = 0.5, velocity decayed away, and never
    // sinking into the box.
    let mut plugin = XPBDPlugin::default();
    let mut bodies = vec![ParticleBundle::new_with_pos_and_vel(
        Vec2::new(0, 2_500_000),
        Vec2::new(0, 0),
    )];
    let statics = vec![floor_box()];
    let mut peak_early: i64 = 0;
    let mut peak_late: i64 = 0;
    for tick in 0..600 {
        plugin.step(&mut bodies, &statics, DELTA_TIME);
        let speed = bodies[0].vel.0.y.abs() + bodies[0].vel.0.x.abs();
        if (50..150).contains(&tick) && speed > peak_early {
            peak_early = speed;
        }
        if tick >= 500 && speed > peak_late {
            peak_late = speed;
        }
        // after every full tick the ball's center stays above the floor top
        // minus a small resolution tolerance
        assert!(
            bodies[0].pos.0.y >= 490_000,
            "tick {tick}: sank to {}",
            bodies[0].pos.0.y
        );
    }
    // settled: center within a hundredth of a unit of resting contact
    let y = bodies[0].pos.0.y;
    assert!((490_000..=510_000).contains(&y), "final y = {y}");
    // bounce energy decays tick over tick: the late peak speed is a small
    // fraction of the early one
    assert!(
        peak_late < peak_early / 10,
        "peak_early = {peak_early}, peak_late = {peak_late}"
    );
    // and the ball is slow at the end
    let vy = bodies[0].vel.0.y.abs();
    assert!(vy <= 400_000, "final |vy| = {vy}");
}

#[test]
fn two_falling_balls_never_interpenetrate_after_a_tick() {
    // Two balls dropped one above the other settle into a stack on the
    // floor: after each tick no pair overlaps by more than a small
    // resolution tolerance.
    let mut plugin = XPBDPlugin::default();
    let mut bodies = vec![
        ParticleBundle::new_with_pos_and_vel(Vec2::new(0, 1_200_000), Vec2::new(0, 0)),
        ParticleBundle::new_with_pos_and_vel(Vec2::new(50_000, 2_400_000), Vec2::new(0, 0)),
    ];
    let statics = vec![floor_box()];
    for _ in 0..400 {
        plugin.step(&mut bodies, &statics, DELTA_TIME);
    }
    let dx = (bodies[1].pos.0.x - bodies[0].pos.0.x) as i128;
    let dy = (bodies[1].pos.0.y - bodies[0].pos.0.y) as i128;
    let dist2 = dx * dx + dy * dy;
    let touch = 1_000_000i128 - 20_000; // combined radius minus tolerance
    assert!(dist2 >= touch * touch, "dist2 = {dist2}");
    assert!(bodies[0].pos.0.y >= 480_000);
}

#[test]
fn head_on_bounce_against_wall_reverses_most_speed() {
    // A fully elastic ball thrown at a static circle wall comes back with
    // nearly its approach speed.
    let mut plugin = XPBDPlugin::default();
    plugin.gravity = Gravity(Vec2::new(0, 0));
    let mut bodies = vec![ParticleBundle {
        restitution: Restitution(SCALE),
        ..ParticleBundle::new_with_pos_and_vel(Vec2::new(-2_000_000, 0), Vec2::new(8_000_000, 0))
    }];
    let statics = vec![StaticBody {
        pos: Pos(Vec2::new(0, 0)),
        collider: Collider::Circle(CircleCollider { radius: 500_000 }),
        restitution: Restitution(SCALE),
    }];
    for _ in 0..60 {
        plugin.step(&mut bodies, &statics, DELTA_TIME);
    }
    // it must have bounced and be moving left at close to 8 units/s
    let vx = bodies[0].vel.0.x;
    assert!(vx < -7_500_000, "vx = {vx}");
    assert!(bodies[0].pos.0.x < -1_000_000);
}
