//! Body bundles: the full component set of a dynamic particle, and the
//! static obstacles it collides with.

use crate::components::{
    Ball, BoxCollider, CircleCollider, Mass, Pos, PreSolveVel, PrevPos, Restitution, Velocity,
};
use crate::fx::{fmul, sat, tdiv_i, sat_i, vec_ok, Vec2, POS_LIMIT, SCALE, VEL_LIMIT};
use crate::DELTA_TIME;
use vstd::prelude::*;

verus! {

/// A dynamic body: a circular particle with mass, integrated and corrected
/// by every solver pass.
#[derive(Clone, Copy, Debug, PartialEq, Eq)]
pub struct ParticleBundle {
    pub ball: Ball,
    pub pos: Pos,
    pub prev_pos: PrevPos,
    pub mass: Mass,
    pub collider: CircleCollider,
    pub vel: Velocity,
    pub pre_solve_vel: PreSolveVel,
    pub restitution: Restitution,
}

/// The shape of a static obstacle.
#[derive(Clone, Copy, Debug, PartialEq, Eq)]
pub enum Collider {
    Circle(CircleCollider),
    Box(BoxCollider),
}

/// An immovable obstacle: solvers read it but never write it.
#[derive(Clone, Copy, Debug, PartialEq, Eq)]
pub struct StaticBody {
    pub pos: Pos,
    pub collider: Collider,
    pub restitution: Restitution,
}

/// All fields of a dynamic body are within representable range, its mass is
/// positive, and its restitution lies in `[0, 1]`.
pub open spec fn body_valid(b: ParticleBundle) -> bool {
    &&& vec_ok(b.pos.0, POS_LIMIT as int)
    &&& vec_ok(b.prev_pos.0, POS_LIMIT as int)
    &&& vec_ok(b.vel.0, VEL_LIMIT as int)
    &&& vec_ok(b.pre_solve_vel.0, VEL_LIMIT as int)
    &&& 1 <= b.mass.0 <= POS_LIMIT
    &&& 0 <= b.collider.radius <= POS_LIMIT
    &&& 0 <= b.restitution.0 <= SCALE
}

/// All fields of a static obstacle are within representable range.
pub open spec fn static_valid(s: StaticBody) -> bool {
    &&& vec_ok(s.pos.0, POS_LIMIT as int)
    &&& match s.collider {
        Collider::Circle(c) => 0 <= c.radius <= POS_LIMIT,
        Collider::Box(b) => 0 <= b.half_extents.x <= POS_LIMIT && 0 <= b.half_extents.y
            <= POS_LIMIT,
    }
    &&& 0 <= s.restitution.0 <= SCALE
}

/// The previous position a freshly spawned body gets, one timestep of its
/// initial velocity behind its position, so that the first integration step
/// reproduces that velocity.
pub open spec fn spawn_prev_pos(pos: Vec2, vel: Vec2) -> Vec2 {
    Vec2 {
        x: sat(pos.x - fmul(vel.x as int, DELTA_TIME as int), POS_LIMIT as int) as i64,
        y: sat(pos.y - fmul(vel.y as int, DELTA_TIME as int), POS_LIMIT as int) as i64,
    }
}

fn compute_spawn_prev(pos: Vec2, vel: Vec2) -> (r: Vec2)
    requires
        vec_ok(pos, POS_LIMIT as int),
        vec_ok(vel, VEL_LIMIT as int),
    ensures
        r == spawn_prev_pos(pos, vel),
        vec_ok(r, POS_LIMIT as int),
{
    proof {
        crate::fx::lemma_mul_abs_bound(vel.x as int, VEL_LIMIT as int, DELTA_TIME as int, DELTA_TIME as int);
        crate::fx::lemma_mul_abs_bound(vel.y as int, VEL_LIMIT as int, DELTA_TIME as int, DELTA_TIME as int);
    }
    let dx = tdiv_i((vel.x as i128) * (DELTA_TIME as i128), SCALE as i128);
    let dy = tdiv_i((vel.y as i128) * (DELTA_TIME as i128), SCALE as i128);
    let x = sat_i(pos.x as i128 - dx, POS_LIMIT);
    let y = sat_i(pos.y as i128 - dy, POS_LIMIT);
    Vec2 { x, y }
}

impl ParticleBundle {
    /// Spawn a body at `pos` moving at `vel`, with default mass, collider
    /// and restitution.
    pub fn new_with_pos_and_vel(pos: Vec2, vel: Vec2) -> (b: ParticleBundle)
        requires
            vec_ok(pos, POS_LIMIT as int),
            vec_ok(vel, VEL_LIMIT as int),
        ensures
            b.pos.0 == pos,
            b.prev_pos.0 == spawn_prev_pos(pos, vel),
            b.vel.0 == vel,
            b.pre_solve_vel.0 == (Vec2 { x: 0, y: 0 }),
            b.mass.0 == SCALE,
            b.collider.radius == SCALE / 2,
            b.restitution.0 == 300_000,
            body_valid(b),
    {
        ParticleBundle {
            ball: Ball,
            pos: Pos(pos),
            prev_pos: PrevPos(compute_spawn_prev(pos, vel)),
            mass: Mass::default(),
            collider: CircleCollider::default(),
            vel: Velocity(vel),
            pre_solve_vel: PreSolveVel::default(),
            restitution: Restitution::default(),
        }
    }

    /// Spawn a body with an explicit mass, in raw units (`SCALE` = 1 kg).
    pub fn new_with_pos_and_vel_and_mass(pos: Vec2, vel: Vec2, mass: i64) -> (b: ParticleBundle)
        requires
            vec_ok(pos, POS_LIMIT as int),
            vec_ok(vel, VEL_LIMIT as int),
            1 <= mass <= POS_LIMIT,
        ensures
            b.pos.0 == pos,
            b.prev_pos.0 == spawn_prev_pos(pos, vel),
            b.vel.0 == vel,
            b.pre_solve_vel.0 == (Vec2 { x: 0, y: 0 }),
            b.mass.0 == mass,
            b.collider.radius == SCALE / 2,
            b.restitution.0 == 300_000,
            body_valid(b),
    {
        ParticleBundle {
            ball: Ball,
            pos: Pos(pos),
            prev_pos: PrevPos(compute_spawn_prev(pos, vel)),
            mass: Mass(mass),
            collider: CircleCollider::default(),
            vel: Velocity(vel),
            pre_solve_vel: PreSolveVel::default(),
            restitution: Restitution::default(),
        }
    }

    /// Spawn a body with an explicit mass and collider radius, in raw units.
    pub fn new_with_pos_and_vel_and_mass_and_collider(
        pos: Vec2,
        vel: Vec2,
        mass: i64,
        collider_radius: i64,
    ) -> (b: ParticleBundle)
        requires
            vec_ok(pos, POS_LIMIT as int),
            vec_ok(vel, VEL_LIMIT as int),
            1 <= mass <= POS_LIMIT,
            0 <= collider_radius <= POS_LIMIT,
        ensures
            b.pos.0 == pos,
            b.prev_pos.0 == spawn_prev_pos(pos, vel),
            b.vel.0 == vel,
            b.pre_solve_vel.0 == (Vec2 { x: 0, y: 0 }),
            b.mass.0 == mass,
            b.collider.radius == collider_radius,
            b.restitution.0 == 300_000,
            body_valid(b),
    {
        ParticleBundle {
            ball: Ball,
            pos: Pos(pos),
            prev_pos: PrevPos(compute_spawn_prev(pos, vel)),
            mass: Mass(mass),
            collider: CircleCollider { radius: collider_radius },
            vel: Velocity(vel),
            pre_solve_vel: PreSolveVel::default(),
            restitution: Restitution::default(),
        }
    }
}

impl Default for ParticleBundle {
    /// A default particle: at the origin, drifting two units per second
    /// along the X axis.
    fn default() -> (b: ParticleBundle)
        ensures
            b.pos.0 == (Vec2 { x: 0, y: 0 }),
            b.vel.0 == (Vec2 { x: 2_000_000, y: 0 }),
            body_valid(b),
    {
        ParticleBundle::new_with_pos_and_vel(Vec2 { x: 0, y: 0 }, Vec2 { x: 2_000_000, y: 0 })
    }
}

} // verus!
