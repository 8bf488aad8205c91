//! The restitution pass: for every contact recorded by the positional
//! solvers, cancel the (already position-corrected) closing velocity along
//! the contact normal and add back a bounce proportional to the pre-solve
//! approach speed and the averaged restitution of the two bodies.

use crate::components::Velocity;
use crate::entity::{body_valid, static_valid, ParticleBundle, StaticBody};
use crate::fx::{
    fmul, lemma_mul_abs_bound, lemma_scaled_share, lemma_tdiv_factor, sat, sat_i, tdiv, tdiv_i,
    vec_ok, Vec2, SCALE, VEL_LIMIT,
};
use crate::positional::{contact_wf, static_contact_wf};
use crate::resources::{Contacts, StaticContacts};
use vstd::prelude::*;

verus! {

/// Dot product of `(ax, ay)` and `(bx, by)`.
pub open spec fn dots(ax: int, ay: int, bx: int, by: int) -> int {
    ax * bx + ay * by
}

/// The smaller of two values.
pub open spec fn min_s(a: int, b: int) -> int {
    if a < b {
        a
    } else {
        b
    }
}

/// A body with a new (clamped) velocity.
pub open spec fn with_vel(b: ParticleBundle, x: int, y: int) -> ParticleBundle {
    ParticleBundle {
        vel: Velocity(
            Vec2 {
                x: sat(x, VEL_LIMIT as int) as i64,
                y: sat(y, VEL_LIMIT as int) as i64,
            },
        ),
        ..b
    }
}

/// The restitution contribution for a contact: never positive, so the
/// bounce can only remove approach speed, never invent separation speed.
pub open spec fn restitution_term(e_avg: int, psnv: int) -> int {
    min_s(-tdiv(e_avg * psnv, SCALE as int), 0)
}

/// One dynamic/dynamic restitution solve along the stored normal `n`
/// (pointing from `a` to `b`): cancel the current normal velocity and add
/// the restitution bounce, split between the bodies by inverse mass.
pub open spec fn solve_vel_bodies(a: ParticleBundle, b: ParticleBundle, n: Vec2) -> (
    ParticleBundle,
    ParticleBundle,
) {
    let psnv = tdiv(
        dots(
            a.pre_solve_vel.0.x - b.pre_solve_vel.0.x,
            a.pre_solve_vel.0.y - b.pre_solve_vel.0.y,
            n.x as int,
            n.y as int,
        ),
        SCALE as int,
    );
    let nv = tdiv(
        dots(a.vel.0.x - b.vel.0.x, a.vel.0.y - b.vel.0.y, n.x as int, n.y as int),
        SCALE as int,
    );
    let e_avg = tdiv(a.restitution.0 + b.restitution.0, 2);
    let jv = -nv + restitution_term(e_avg, psnv);
    let msum = a.mass.0 + b.mass.0;
    let fa = tdiv(jv * b.mass.0, msum);
    let fb = tdiv(jv * a.mass.0, msum);
    let a2 = with_vel(a, a.vel.0.x + fmul(n.x as int, fa), a.vel.0.y + fmul(n.y as int, fa));
    let b2 = with_vel(b, b.vel.0.x - fmul(n.x as int, fb), b.vel.0.y - fmul(n.y as int, fb));
    (a2, b2)
}

/// One dynamic/static restitution solve: the static side has no velocity
/// and infinite mass, so the whole impulse lands on the dynamic body.
pub open spec fn solve_vel_static_body(a: ParticleBundle, s: StaticBody, n: Vec2) -> ParticleBundle {
    let psnv = tdiv(
        dots(a.pre_solve_vel.0.x as int, a.pre_solve_vel.0.y as int, n.x as int, n.y as int),
        SCALE as int,
    );
    let nv = tdiv(dots(a.vel.0.x as int, a.vel.0.y as int, n.x as int, n.y as int), SCALE as int);
    let e_avg = tdiv(a.restitution.0 + s.restitution.0, 2);
    let jv = -nv + restitution_term(e_avg, psnv);
    with_vel(a, a.vel.0.x + fmul(n.x as int, jv), a.vel.0.y + fmul(n.y as int, jv))
}

/// One step of the dynamic/dynamic restitution fold.
pub open spec fn vel_step(bs: Seq<ParticleBundle>, c: (usize, usize, Vec2)) -> Seq<ParticleBundle> {
    let i = c.0 as int;
    let j = c.1 as int;
    if 0 <= i && i < bs.len() && 0 <= j && j < bs.len() && i != j {
        let r = solve_vel_bodies(bs[i], bs[j], c.2);
        bs.update(i, r.0).update(j, r.1)
    } else {
        bs
    }
}

/// The dynamic/dynamic restitution fold after the first `k` contacts.
pub open spec fn solve_vel_upto(
    bs: Seq<ParticleBundle>,
    cs: Seq<(usize, usize, Vec2)>,
    k: int,
) -> Seq<ParticleBundle>
    decreases k,
{
    if k <= 0 {
        bs
    } else {
        vel_step(solve_vel_upto(bs, cs, k - 1), cs[k - 1])
    }
}

/// The body set after the whole dynamic/dynamic restitution pass.
pub open spec fn solved_vels(bs: Seq<ParticleBundle>, cs: Seq<(usize, usize, Vec2)>) -> Seq<
    ParticleBundle,
> {
    solve_vel_upto(bs, cs, cs.len() as int)
}

/// One step of the dynamic/static restitution fold.
pub open spec fn vel_static_step(
    bs: Seq<ParticleBundle>,
    ss: Seq<StaticBody>,
    c: (usize, usize, Vec2),
) -> Seq<ParticleBundle> {
    let i = c.0 as int;
    let j = c.1 as int;
    if 0 <= i && i < bs.len() && 0 <= j && j < ss.len() {
        bs.update(i, solve_vel_static_body(bs[i], ss[j], c.2))
    } else {
        bs
    }
}

/// The dynamic/static restitution fold after the first `k` contacts.
pub open spec fn solve_vel_statics_upto(
    bs: Seq<ParticleBundle>,
    ss: Seq<StaticBody>,
    cs: Seq<(usize, usize, Vec2)>,
    k: int,
) -> Seq<ParticleBundle>
    decreases k,
{
    if k <= 0 {
        bs
    } else {
        vel_static_step(solve_vel_statics_upto(bs, ss, cs, k - 1), ss, cs[k - 1])
    }
}

/// The body set after the whole dynamic/static restitution pass.
pub open spec fn solved_vel_statics(
    bs: Seq<ParticleBundle>,
    ss: Seq<StaticBody>,
    cs: Seq<(usize, usize, Vec2)>,
) -> Seq<ParticleBundle> {
    solve_vel_statics_upto(bs, ss, cs, cs.len() as int)
}

/// The common normal-velocity computation: `tdiv(dots(vx, vy, nx, ny), SCALE)`,
/// for unit-scale `(nx, ny)` and velocity-scale `(vx, vy)`.
fn normal_velocity(vx: i128, vy: i128, nx: i64, ny: i64) -> (r: i128)
    requires
        -2 * (VEL_LIMIT as i128) <= vx <= 2 * (VEL_LIMIT as i128),
        -2 * (VEL_LIMIT as i128) <= vy <= 2 * (VEL_LIMIT as i128),
        -SCALE <= nx <= SCALE,
        -SCALE <= ny <= SCALE,
    ensures
        r == tdiv(dots(vx as int, vy as int, nx as int, ny as int), SCALE as int),
        -8_796_093_022_208 <= r <= 8_796_093_022_208,
{
    proof {
        lemma_mul_abs_bound(vx as int, 2_199_023_255_552, nx as int, 1_000_000);
        lemma_mul_abs_bound(vy as int, 2_199_023_255_552, ny as int, 1_000_000);
        lemma_tdiv_factor(
            vx as int * nx as int + vy as int * ny as int,
            SCALE as int,
            8_796_093_022_208,
        );
    }
    tdiv_i(vx * (nx as i128) + vy * (ny as i128), SCALE as i128)
}

/// Executable mirror of `solve_vel_bodies`.
fn solve_vel_exec(a: ParticleBundle, b: ParticleBundle, n: Vec2) -> (r: (
    ParticleBundle,
    ParticleBundle,
))
    requires
        body_valid(a),
        body_valid(b),
        vec_ok(n, SCALE as int),
    ensures
        r == solve_vel_bodies(a, b, n),
        body_valid(r.0),
        body_valid(r.1),
{
    let psnv = normal_velocity(
        a.pre_solve_vel.0.x as i128 - b.pre_solve_vel.0.x as i128,
        a.pre_solve_vel.0.y as i128 - b.pre_solve_vel.0.y as i128,
        n.x,
        n.y,
    );
    let nv = normal_velocity(
        a.vel.0.x as i128 - b.vel.0.x as i128,
        a.vel.0.y as i128 - b.vel.0.y as i128,
        n.x,
        n.y,
    );
    let e_avg = tdiv_i(a.restitution.0 as i128 + b.restitution.0 as i128, 2);
    proof {
        lemma_mul_abs_bound(e_avg as int, 1_000_000, psnv as int, 8_796_093_022_208);
        lemma_tdiv_factor(e_avg as int * psnv as int, SCALE as int, 8_796_093_022_208);
    }
    let t = -tdiv_i(e_avg * psnv, SCALE as i128);
    let rterm = if t < 0 { t } else { 0 };
    let jv = -nv + rterm;
    let msum = (a.mass.0 as i128) + (b.mass.0 as i128);
    proof {
        lemma_mul_abs_bound(jv as int, 17_592_186_044_416, b.mass.0 as int, 281_474_976_710_656);
        lemma_mul_abs_bound(jv as int, 17_592_186_044_416, a.mass.0 as int, 281_474_976_710_656);
        lemma_scaled_share(jv as int, 17_592_186_044_416, b.mass.0 as int, msum as int);
        lemma_scaled_share(jv as int, 17_592_186_044_416, a.mass.0 as int, msum as int);
        lemma_tdiv_factor(jv as int * b.mass.0 as int, msum as int, 17_592_186_044_416);
        lemma_tdiv_factor(jv as int * a.mass.0 as int, msum as int, 17_592_186_044_416);
    }
    let fa = tdiv_i(jv * (b.mass.0 as i128), msum);
    let fb = tdiv_i(jv * (a.mass.0 as i128), msum);
    proof {
        lemma_mul_abs_bound(n.x as int, 1_000_000, fa as int, 17_592_186_044_416);
        lemma_mul_abs_bound(n.y as int, 1_000_000, fa as int, 17_592_186_044_416);
        lemma_mul_abs_bound(n.x as int, 1_000_000, fb as int, 17_592_186_044_416);
        lemma_mul_abs_bound(n.y as int, 1_000_000, fb as int, 17_592_186_044_416);
        lemma_tdiv_factor(n.x as int * fa as int, SCALE as int, 17_592_186_044_416);
        lemma_tdiv_factor(n.y as int * fa as int, SCALE as int, 17_592_186_044_416);
        lemma_tdiv_factor(n.x as int * fb as int, SCALE as int, 17_592_186_044_416);
        lemma_tdiv_factor(n.y as int * fb as int, SCALE as int, 17_592_186_044_416);
    }
    let avx = sat_i(a.vel.0.x as i128 + tdiv_i((n.x as i128) * fa, SCALE as i128), VEL_LIMIT);
    let avy = sat_i(a.vel.0.y as i128 + tdiv_i((n.y as i128) * fa, SCALE as i128), VEL_LIMIT);
    let bvx = sat_i(b.vel.0.x as i128 - tdiv_i((n.x as i128) * fb, SCALE as i128), VEL_LIMIT);
    let bvy = sat_i(b.vel.0.y as i128 - tdiv_i((n.y as i128) * fb, SCALE as i128), VEL_LIMIT);
    let a2 = ParticleBundle { vel: Velocity(Vec2 { x: avx, y: avy }), ..a };
    let b2 = ParticleBundle { vel: Velocity(Vec2 { x: bvx, y: bvy }), ..b };
    proof {
        assert(a2 == solve_vel_bodies(a, b, n).0);
        assert(b2 == solve_vel_bodies(a, b, n).1);
    }
    (a2, b2)
}

/// Executable mirror of `solve_vel_static_body`.
fn solve_vel_static_exec(a: ParticleBundle, s: StaticBody, n: Vec2) -> (r: ParticleBundle)
    requires
        body_valid(a),
        static_valid(s),
        vec_ok(n, SCALE as int),
    ensures
        r == solve_vel_static_body(a, s, n),
        body_valid(r),
{
    let psnv = normal_velocity(a.pre_solve_vel.0.x as i128, a.pre_solve_vel.0.y as i128, n.x, n.y);
    let nv = normal_velocity(a.vel.0.x as i128, a.vel.0.y as i128, n.x, n.y);
    let e_avg = tdiv_i(a.restitution.0 as i128 + s.restitution.0 as i128, 2);
    proof {
        lemma_mul_abs_bound(e_avg as int, 1_000_000, psnv as int, 8_796_093_022_208);
        lemma_tdiv_factor(e_avg as int * psnv as int, SCALE as int, 8_796_093_022_208);
    }
    let t = -tdiv_i(e_avg * psnv, SCALE as i128);
    let rterm = if t < 0 { t } else { 0 };
    let jv = -nv + rterm;
    proof {
        lemma_mul_abs_bound(n.x as int, 1_000_000, jv as int, 17_592_186_044_416);
        lemma_mul_abs_bound(n.y as int, 1_000_000, jv as int, 17_592_186_044_416);
        lemma_tdiv_factor(n.x as int * jv as int, SCALE as int, 17_592_186_044_416);
        lemma_tdiv_factor(n.y as int * jv as int, SCALE as int, 17_592_186_044_416);
    }
    let avx = sat_i(a.vel.0.x as i128 + tdiv_i((n.x as i128) * jv, SCALE as i128), VEL_LIMIT);
    let avy = sat_i(a.vel.0.y as i128 + tdiv_i((n.y as i128) * jv, SCALE as i128), VEL_LIMIT);
    let a2 = ParticleBundle { vel: Velocity(Vec2 { x: avx, y: avy }), ..a };
    proof {
        assert(a2 == solve_vel_static_body(a, s, n));
    }
    a2
}

/// Apply restitution to every dynamic/dynamic contact of this tick.
pub fn solve_vel(bodies: &mut Vec<ParticleBundle>, contacts: &Contacts)
    requires
        forall|i: int| 0 <= i < old(bodies)@.len() ==> body_valid(#[trigger] old(bodies)@[i]),
        forall|k: int| 0 <= k < contacts.0@.len() ==> contact_wf(
            #[trigger] contacts.0@[k],
            old(bodies)@.len() as int,
        ),
    ensures
        final(bodies)@ == solved_vels(old(bodies)@, contacts.0@),
        final(bodies)@.len() == old(bodies)@.len(),
        forall|i: int| 0 <= i < final(bodies)@.len() ==> body_valid(#[trigger] final(bodies)@[i]),
{
    let nc = contacts.0.len();
    let mut k: usize = 0;
    while k < nc
        invariant
            nc == contacts.0@.len(),
            0 <= k <= nc,
            bodies@.len() == old(bodies)@.len(),
            forall|kk: int| 0 <= kk < contacts.0@.len() ==> contact_wf(
                #[trigger] contacts.0@[kk],
                old(bodies)@.len() as int,
            ),
            bodies@ == solve_vel_upto(old(bodies)@, contacts.0@, k as int),
            forall|i: int| 0 <= i < bodies@.len() ==> body_valid(#[trigger] bodies@[i]),
        decreases nc - k,
    {
        let c = contacts.0[k];
        let a = bodies[c.0];
        let b = bodies[c.1];
        let r = solve_vel_exec(a, b, c.2);
        bodies[c.0] = r.0;
        bodies[c.1] = r.1;
        k = k + 1;
    }
}

/// Apply restitution to every dynamic/static contact of this tick.
pub fn solve_vel_statics(
    bodies: &mut Vec<ParticleBundle>,
    statics: &Vec<StaticBody>,
    contacts: &StaticContacts,
)
    requires
        forall|i: int| 0 <= i < old(bodies)@.len() ==> body_valid(#[trigger] old(bodies)@[i]),
        forall|i: int| 0 <= i < statics@.len() ==> static_valid(#[trigger] statics@[i]),
        forall|k: int| 0 <= k < contacts.0@.len() ==> static_contact_wf(
            #[trigger] contacts.0@[k],
            old(bodies)@.len() as int,
            statics@.len() as int,
        ),
    ensures
        final(bodies)@ == solved_vel_statics(old(bodies)@, statics@, contacts.0@),
        final(bodies)@.len() == old(bodies)@.len(),
        forall|i: int| 0 <= i < final(bodies)@.len() ==> body_valid(#[trigger] final(bodies)@[i]),
{
    let nc = contacts.0.len();
    let mut k: usize = 0;
    while k < nc
        invariant
            nc == contacts.0@.len(),
            0 <= k <= nc,
            bodies@.len() == old(bodies)@.len(),
            forall|i: int| 0 <= i < statics@.len() ==> static_valid(#[trigger] statics@[i]),
            forall|kk: int| 0 <= kk < contacts.0@.len() ==> static_contact_wf(
                #[trigger] contacts.0@[kk],
                old(bodies)@.len() as int,
                statics@.len() as int,
            ),
            bodies@ == solve_vel_statics_upto(old(bodies)@, statics@, contacts.0@, k as int),
            forall|i: int| 0 <= i < bodies@.len() ==> body_valid(#[trigger] bodies@[i]),
        decreases nc - k,
    {
        let c = contacts.0[k];
        let a = bodies[c.0];
        let s = statics[c.1];
        let r = solve_vel_static_exec(a, s, c.2);
        bodies[c.0] = r;
        k = k + 1;
    }
}

} // verus!
