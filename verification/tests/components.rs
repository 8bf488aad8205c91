use xpbd::components::{CircleCollider, Mass, Restitution};
use xpbd::entity::ParticleBundle;
use xpbd::fx::{isqrt_i, sat_i, tdiv_i, Vec2, POS_LIMIT, SCALE};
use xpbd::resources::Gravity;
use xpbd::DELTA_TIME;

#[test]
fn defaults_are_the_documented_values() {
    assert_eq!(Mass::default().0, SCALE); // 1 kg
    assert_eq!(CircleCollider::default().radius, 500_000); // half a unit
    assert_eq!(Restitution::default().0, 300_000); // 0.3
    assert_eq!(Gravity::default().0, Vec2::new(0, -9_810_000)); // 9.81 down
}

#[test]
fn spawned_particle_gets_prev_pos_one_step_back() {
    let b = ParticleBundle::new_with_pos_and_vel(Vec2::new(0, 0), Vec2::new(2_000_000, 0));
    // prev = pos - vel * dt = -(2_000_000 * 16_667 / 1_000_000) = -33_334
    assert_eq!(b.prev_pos.0, Vec2::new(-33_334, 0));
    assert_eq!(b.pos.0, Vec2::new(0, 0));
    assert_eq!(b.vel.0, Vec2::new(2_000_000, 0));
    assert_eq!(b.mass.0, SCALE);
}

#[test]
fn default_particle_drifts_along_x() {
    let b = ParticleBundle::default();
    assert_eq!(b.pos.0, Vec2::new(0, 0));
    assert_eq!(b.vel.0, Vec2::new(2_000_000, 0));
    assert_eq!(b.prev_pos.0, Vec2::new(-33_334, 0));
}

#[test]
fn spawn_with_mass_and_collider_keeps_them() {
    let b = ParticleBundle::new_with_pos_and_vel_and_mass_and_collider(
        Vec2::new(1_000_000, 2_000_000),
        Vec2::new(0, 0),
        3_000_000,
        250_000,
    );
    assert_eq!(b.mass.0, 3_000_000);
    assert_eq!(b.collider.radius, 250_000);
    assert_eq!(b.prev_pos.0, b.pos.0); // at rest, prev equals pos
}

#[test]
fn truncating_division_rounds_toward_zero() {
    assert_eq!(tdiv_i(7, 2), 3);
    assert_eq!(tdiv_i(-7, 2), -3);
    assert_eq!(tdiv_i(1, SCALE as i128), 0);
    assert_eq!(tdiv_i(-1, SCALE as i128), 0);
}

#[test]
fn integer_square_root_is_the_floor_root() {
    assert_eq!(isqrt_i(0), 0);
    assert_eq!(isqrt_i(1), 1);
    assert_eq!(isqrt_i(2), 1);
    assert_eq!(isqrt_i(10), 3);
    assert_eq!(isqrt_i(1_000_000_000_000), 1_000_000);
    assert_eq!(isqrt_i(999_999_999_999), 999_999);
}

#[test]
fn saturation_clamps_to_the_limit() {
    assert_eq!(sat_i(42, POS_LIMIT), 42);
    assert_eq!(sat_i((POS_LIMIT as i128) + 1, POS_LIMIT), POS_LIMIT);
    assert_eq!(sat_i(-(POS_LIMIT as i128) - 1, POS_LIMIT), -POS_LIMIT);
}

#[test]
fn delta_time_is_a_sixtieth_of_a_second() {
    assert_eq!(DELTA_TIME, 16_667);
}
