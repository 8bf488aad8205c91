//! Per-body components: position, velocity, mass, collider shape and
//! restitution.  All scalar values are fixed-point, `SCALE` raw units to the
//! world unit.

use crate::fx::{Vec2, SCALE};
use vstd::prelude::*;

verus! {

/// Marker for a simulated particle.
#[derive(Clone, Copy, Debug, PartialEq, Eq)]
pub struct Ball;

/// Current position of a body, in raw units.
#[derive(Clone, Copy, Debug, PartialEq, Eq)]
pub struct Pos(pub Vec2);

/// Position at the start of the current tick, written by the integrator.
#[derive(Clone, Copy, Debug, PartialEq, Eq)]
pub struct PrevPos(pub Vec2);

/// Velocity of a body, in raw units per second.
#[derive(Clone, Copy, Debug, PartialEq, Eq)]
pub struct Velocity(pub Vec2);

/// Mass of a dynamic body, in raw units (`SCALE` = 1 kg).  A body with a
/// `Mass` component is dynamic; static obstacles have none.
#[derive(Clone, Copy, Debug, PartialEq, Eq)]
pub struct Mass(pub i64);

/// A circular collider of the given radius, in raw units.
#[derive(Clone, Copy, Debug, PartialEq, Eq)]
pub struct CircleCollider {
    pub radius: i64,
}

/// An axis-aligned box collider given by its half-extents, in raw units.
#[derive(Clone, Copy, Debug, PartialEq, Eq)]
pub struct BoxCollider {
    pub half_extents: Vec2,
}

/// Velocity snapshot taken right after integration, before any positional
/// correction; the baseline for restitution.
#[derive(Clone, Copy, Debug, PartialEq, Eq)]
pub struct PreSolveVel(pub Vec2);

/// Coefficient of restitution in `[0, SCALE]`: 0 is fully inelastic, `SCALE`
/// (that is, 1) fully elastic.
#[derive(Clone, Copy, Debug, PartialEq, Eq)]
pub struct Restitution(pub i64);

impl Default for Ball {
    fn default() -> (b: Ball) {
        Ball
    }
}

impl Default for Pos {
    fn default() -> (p: Pos)
        ensures
            p.0.x == 0 && p.0.y == 0,
    {
        Pos(Vec2 { x: 0, y: 0 })
    }
}

impl Default for PrevPos {
    fn default() -> (p: PrevPos)
        ensures
            p.0.x == 0 && p.0.y == 0,
    {
        PrevPos(Vec2 { x: 0, y: 0 })
    }
}

impl Default for PreSolveVel {
    fn default() -> (p: PreSolveVel)
        ensures
            p.0.x == 0 && p.0.y == 0,
    {
        PreSolveVel(Vec2 { x: 0, y: 0 })
    }
}

impl Default for Mass {
    /// Defaults to 1 kg.
    fn default() -> (m: Mass)
        ensures
            m.0 == SCALE,
    {
        Mass(SCALE)
    }
}

impl Default for CircleCollider {
    /// Defaults to a radius of half a world unit.
    fn default() -> (c: CircleCollider)
        ensures
            c.radius == SCALE / 2,
    {
        CircleCollider { radius: 500_000 }
    }
}

impl Default for Restitution {
    /// Defaults to a moderately bouncy 0.3.
    fn default() -> (r: Restitution)
        ensures
            r.0 == 300_000,
    {
        Restitution(300_000)
    }
}

} // verus!
