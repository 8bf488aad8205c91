//! A fixed-timestep, position-based particle physics solver (XPBD style).
//!
//! Dynamic circular bodies fall under gravity, collide with each other and
//! with static obstacles (circles and axis-aligned boxes), and bounce with
//! configurable restitution.  Each tick runs a fixed pipeline: broad-phase
//! pair collection, symplectic Euler integration, positional penetration
//! solving, velocity re-derivation from the position delta, and a restitution
//! pass over the contacts recorded by the positional solvers.
//!
//! All quantities are fixed-point integers: one world unit is `SCALE`
//! (1 000 000) raw units, so `1.5` world units is written `1_500_000`.

use vstd::prelude::*;

pub mod components;
pub mod entity;
pub mod fx;
pub mod broad_phase;
pub mod integrator;
pub mod laws;
pub mod positional;
pub mod resources;
pub mod velocity;

pub use broad_phase::collect_collision_pairs;
pub use integrator::{integrate, update_velocity};
pub use positional::{solve_pos, solve_pos_statics, solve_pos_static_boxes};
pub use resources::clear_contacts;
pub use velocity::{solve_vel, solve_vel_statics};

use crate::broad_phase::collected_pairs;
use crate::entity::{body_valid, static_valid, Collider, ParticleBundle, StaticBody};
use crate::fx::{vec_ok, Vec2, POS_LIMIT, SCALE, VEL_LIMIT};
use crate::integrator::{integrated_all, rederived_all};
use crate::positional::{solved_pairs, solved_static_boxes, solved_static_circles};
use crate::resources::{CollisionPairs, Contacts, Gravity, StaticContacts};
use crate::velocity::{solved_vel_statics, solved_vels};
use vstd::prelude::*;

verus! {

/// The fixed simulation timestep, 1/60 of a second in `SCALE` units.
pub const DELTA_TIME: i64 = 16_667;

/// Every dynamic body is within representable range, with positive mass
/// and restitution in `[0, 1]`.
pub open spec fn bodies_valid(bs: Seq<ParticleBundle>) -> bool {
    forall|i: int| 0 <= i < bs.len() ==> body_valid(#[trigger] bs[i])
}

/// Every static obstacle is within representable range.
pub open spec fn statics_valid(ss: Seq<StaticBody>) -> bool {
    forall|i: int| 0 <= i < ss.len() ==> static_valid(#[trigger] ss[i])
}

/// One whole simulation tick: the pipeline of every phase in its fixed
/// order, as a function of the starting state.  Returns the final body set,
/// the candidate pair list, and the two contact lists of the tick.
pub open spec fn step_spec(bs: Seq<ParticleBundle>, ss: Seq<StaticBody>, g: Vec2, dt: int) -> (
    Seq<ParticleBundle>,
    Seq<(usize, usize)>,
    Seq<(usize, usize, Vec2)>,
    Seq<(usize, usize, Vec2)>,
) {
    let pairs = collected_pairs(bs, dt);
    let after_integrate = integrated_all(bs, g, dt);
    let dd = solved_pairs(after_integrate, Seq::empty(), pairs);
    let sc = solved_static_circles(dd.0, Seq::empty(), ss);
    let sb = solved_static_boxes(sc.0, sc.1, ss);
    let after_rederive = rederived_all(sb.0, dt);
    let after_dd_bounce = solved_vels(after_rederive, dd.1);
    let done = solved_vel_statics(after_dd_bounce, ss, sb.1);
    (done, pairs, dd.1, sb.1)
}

/// Is this dynamic body within the representable range, with positive mass
/// and restitution in `[0, 1]`?  The executable form of `body_valid`.
pub fn check_body(b: &ParticleBundle) -> (r: bool)
    ensures
        r == body_valid(*b),
{
    -POS_LIMIT <= b.pos.0.x && b.pos.0.x <= POS_LIMIT && -POS_LIMIT <= b.pos.0.y && b.pos.0.y
        <= POS_LIMIT && -POS_LIMIT <= b.prev_pos.0.x && b.prev_pos.0.x <= POS_LIMIT && -POS_LIMIT
        <= b.prev_pos.0.y && b.prev_pos.0.y <= POS_LIMIT && -VEL_LIMIT <= b.vel.0.x && b.vel.0.x
        <= VEL_LIMIT && -VEL_LIMIT <= b.vel.0.y && b.vel.0.y <= VEL_LIMIT && -VEL_LIMIT
        <= b.pre_solve_vel.0.x && b.pre_solve_vel.0.x <= VEL_LIMIT && -VEL_LIMIT
        <= b.pre_solve_vel.0.y && b.pre_solve_vel.0.y <= VEL_LIMIT && 1 <= b.mass.0 && b.mass.0
        <= POS_LIMIT && 0 <= b.collider.radius && b.collider.radius <= POS_LIMIT && 0
        <= b.restitution.0 && b.restitution.0 <= SCALE
}

/// Is this static obstacle within the representable range?  The executable
/// form of `static_valid`.
pub fn check_static(s: &StaticBody) -> (r: bool)
    ensures
        r == static_valid(*s),
{
    let shape_ok = match s.collider {
        Collider::Circle(c) => 0 <= c.radius && c.radius <= POS_LIMIT,
        Collider::Box(b) => 0 <= b.half_extents.x && b.half_extents.x <= POS_LIMIT && 0
            <= b.half_extents.y && b.half_extents.y <= POS_LIMIT,
    };
    -POS_LIMIT <= s.pos.0.x && s.pos.0.x <= POS_LIMIT && -POS_LIMIT <= s.pos.0.y && s.pos.0.y
        <= POS_LIMIT && shape_ok && 0 <= s.restitution.0 && s.restitution.0 <= SCALE
}

/// Are all bodies and obstacles within range, as `step` requires?  The
/// executable form of `bodies_valid` and `statics_valid` together.
pub fn check_world(bodies: &Vec<ParticleBundle>, statics: &Vec<StaticBody>) -> (r: bool)
    ensures
        r == (bodies_valid(bodies@) && statics_valid(statics@)),
{
    let mut ok = true;
    let mut i: usize = 0;
    while i < bodies.len()
        invariant
            0 <= i <= bodies@.len(),
            ok == forall|k: int| 0 <= k < i ==> body_valid(#[trigger] bodies@[k]),
        decreases bodies@.len() - i,
    {
        ok = ok && check_body(&bodies[i]);
        i = i + 1;
    }
    if !ok {
        return false;
    }
    let mut j: usize = 0;
    while j < statics.len()
        invariant
            0 <= j <= statics@.len(),
            bodies_valid(bodies@),
            ok == forall|k: int| 0 <= k < j ==> static_valid(#[trigger] statics@[k]),
        decreases statics@.len() - j,
    {
        ok = ok && check_static(&statics[j]);
        j = j + 1;
    }
    ok
}

/// The simulation driver: owns gravity and the per-tick pair and contact
/// lists, and runs the phases of each tick in their required order.
#[derive(Debug)]
pub struct XPBDPlugin {
    pub gravity: Gravity,
    pub collision_pairs: CollisionPairs,
    pub contacts: Contacts,
    pub static_contacts: StaticContacts,
}

impl Default for XPBDPlugin {
    /// Default gravity and empty pair and contact lists.
    fn default() -> (p: XPBDPlugin)
        ensures
            p.gravity.0 == (Vec2 { x: 0i64, y: -9_810_000i64 }),
            p.collision_pairs.0@.len() == 0,
            p.contacts.0@.len() == 0,
            p.static_contacts.0@.len() == 0,
    {
        XPBDPlugin {
            gravity: Gravity::default(),
            collision_pairs: CollisionPairs::default(),
            contacts: Contacts::default(),
            static_contacts: StaticContacts::default(),
        }
    }
}

impl XPBDPlugin {
    /// Advance the world by one tick of `dt`: collect candidate pairs,
    /// integrate, clear and rebuild the contacts while solving positions,
    /// re-derive velocities from the corrected positions, then apply
    /// restitution.  Static obstacles are never mutated.
    pub fn step(
        &mut self,
        bodies: &mut Vec<ParticleBundle>,
        statics: &Vec<StaticBody>,
        dt: i64,
    )
        requires
            bodies_valid(old(bodies)@),
            statics_valid(statics@),
            vec_ok(old(self).gravity.0, VEL_LIMIT as int),
            1 <= dt <= SCALE,
        ensures
            final(bodies)@ == step_spec(old(bodies)@, statics@, old(self).gravity.0, dt as int).0,
            final(self).collision_pairs.0@ == step_spec(
                old(bodies)@,
                statics@,
                old(self).gravity.0,
                dt as int,
            ).1,
            final(self).contacts.0@ == step_spec(
                old(bodies)@,
                statics@,
                old(self).gravity.0,
                dt as int,
            ).2,
            final(self).static_contacts.0@ == step_spec(
                old(bodies)@,
                statics@,
                old(self).gravity.0,
                dt as int,
            ).3,
            final(self).gravity == old(self).gravity,
            final(bodies)@.len() == old(bodies)@.len(),
            bodies_valid(final(bodies)@),
    {
        collect_collision_pairs(bodies, dt, &mut self.collision_pairs);
        integrate(bodies, &self.gravity, dt);
        clear_contacts(&mut self.contacts, &mut self.static_contacts);
        proof {
            assert(self.contacts.0@ =~= Seq::<(usize, usize, Vec2)>::empty());
            assert(self.static_contacts.0@ =~= Seq::<(usize, usize, Vec2)>::empty());
        }
        solve_pos(bodies, &self.collision_pairs, &mut self.contacts);
        solve_pos_statics(bodies, statics, &mut self.static_contacts);
        solve_pos_static_boxes(bodies, statics, &mut self.static_contacts);
        update_velocity(bodies, dt);
        solve_vel(bodies, &self.contacts);
        solve_vel_statics(bodies, statics, &self.static_contacts);
    }
}

} // verus!
