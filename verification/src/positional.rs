//! Positional penetration solving: project overlapping bodies apart along
//! the contact normal, weighted by inverse mass, and record a contact for
//! the restitution pass.  Three shape cases: dynamic/dynamic circles,
//! dynamic circle against static circle, and dynamic circle against static
//! axis-aligned box (with corner/edge region analysis).

use crate::components::Pos;
use crate::entity::{body_valid, static_valid, Collider, ParticleBundle, StaticBody};
use crate::fx::{
    fmul, isqrt_i, lemma_mul_abs_bound, lemma_sqrt_component, lemma_sqrt_lt, lemma_sqrt_mono,
    lemma_sqrt_props, lemma_sqrt_square, lemma_square_nonneg, lemma_tdiv_factor, lemma_tdiv_range,
    lemma_unit_scaled, lemma_weight_share, lsq, sat, sat_i, sqrt_f, tdiv, tdiv_i, vec_ok, Vec2,
    POS_LIMIT, SCALE,
};
use crate::resources::{CollisionPairs, Contacts, StaticContacts};
use vstd::arithmetic::mul::{lemma_mul_nonnegative, lemma_mul_strictly_positive};
use vstd::prelude::*;

verus! {

/// The unit contact normal for a center-to-center offset `(dx, dy)`, in
/// `SCALE` units.  Coincident centers fall back to the X axis rather than
/// produce an undefined direction.
pub open spec fn contact_normal(dx: int, dy: int) -> Vec2 {
    let d = sqrt_f(lsq(dx, dy));
    if d == 0 {
        Vec2 { x: SCALE, y: 0 }
    } else {
        Vec2 { x: tdiv(dx * SCALE, d) as i64, y: tdiv(dy * SCALE, d) as i64 }
    }
}

/// A body moved to a new (clamped) position.
pub open spec fn with_pos(b: ParticleBundle, x: int, y: int) -> ParticleBundle {
    ParticleBundle {
        pos: Pos(
            Vec2 {
                x: sat(x, POS_LIMIT as int) as i64,
                y: sat(y, POS_LIMIT as int) as i64,
            },
        ),
        ..b
    }
}

/// Do two circles at `(ax, ay)` and `(bx, by)` with radii `ar`, `br`
/// strictly overlap?
pub open spec fn circles_overlap(ax: int, ay: int, ar: int, bx: int, by: int, br: int) -> bool {
    lsq(bx - ax, by - ay) < (ar + br) * (ar + br)
}

/// One dynamic/dynamic positional solve: on exact overlap, push the two
/// bodies apart along the center line, each by a share of the penetration
/// proportional to the other body's mass, and report the contact normal
/// (pointing from `a` to `b`).
pub open spec fn solve_pair_bodies(a: ParticleBundle, b: ParticleBundle) -> (
    ParticleBundle,
    ParticleBundle,
    Option<Vec2>,
) {
    let dx = b.pos.0.x - a.pos.0.x;
    let dy = b.pos.0.y - a.pos.0.y;
    let rr = a.collider.radius + b.collider.radius;
    if lsq(dx, dy) < rr * rr {
        let d = sqrt_f(lsq(dx, dy));
        let n = contact_normal(dx, dy);
        let pen = rr - d;
        let msum = a.mass.0 + b.mass.0;
        let share_a = tdiv(pen * b.mass.0, msum);
        let share_b = tdiv(pen * a.mass.0, msum);
        let a2 = with_pos(
            a,
            a.pos.0.x - fmul(n.x as int, share_a),
            a.pos.0.y - fmul(n.y as int, share_a),
        );
        let b2 = with_pos(
            b,
            b.pos.0.x + fmul(n.x as int, share_b),
            b.pos.0.y + fmul(n.y as int, share_b),
        );
        (a2, b2, Some(n))
    } else {
        (a, b, None)
    }
}

/// One step of the dynamic/dynamic fold over the candidate pair list.
pub open spec fn solve_pair_step(
    bs: Seq<ParticleBundle>,
    cs: Seq<(usize, usize, Vec2)>,
    p: (usize, usize),
) -> (Seq<ParticleBundle>, Seq<(usize, usize, Vec2)>) {
    let i = p.0 as int;
    let j = p.1 as int;
    if 0 <= i && i < bs.len() && 0 <= j && j < bs.len() && i != j {
        let r = solve_pair_bodies(bs[i], bs[j]);
        match r.2 {
            Some(n) => (bs.update(i, r.0).update(j, r.1), cs.push((p.0, p.1, n))),
            None => (bs, cs),
        }
    } else {
        (bs, cs)
    }
}

/// The dynamic/dynamic fold after the first `k` candidate pairs.
pub open spec fn solve_pairs_upto(
    bs: Seq<ParticleBundle>,
    cs: Seq<(usize, usize, Vec2)>,
    ps: Seq<(usize, usize)>,
    k: int,
) -> (Seq<ParticleBundle>, Seq<(usize, usize, Vec2)>)
    decreases k,
{
    if k <= 0 {
        (bs, cs)
    } else {
        let prev = solve_pairs_upto(bs, cs, ps, k - 1);
        solve_pair_step(prev.0, prev.1, ps[k - 1])
    }
}

/// The body set and contact list after the whole dynamic/dynamic pass.
pub open spec fn solved_pairs(
    bs: Seq<ParticleBundle>,
    cs: Seq<(usize, usize, Vec2)>,
    ps: Seq<(usize, usize)>,
) -> (Seq<ParticleBundle>, Seq<(usize, usize, Vec2)>) {
    solve_pairs_upto(bs, cs, ps, ps.len() as int)
}

/// A recorded dynamic/dynamic contact addresses two distinct live bodies
/// and carries a unit-scale normal.
pub open spec fn contact_wf(c: (usize, usize, Vec2), nbodies: int) -> bool {
    c.0 < nbodies && c.1 < nbodies && c.0 != c.1 && vec_ok(c.2, SCALE as int)
}

/// Compute the distance and unit normal for the offset `(dx, dy)`.
fn normal_and_dist(dx: i128, dy: i128) -> (r: (Vec2, i128))
    requires
        -2 * (POS_LIMIT as i128) <= dx <= 2 * (POS_LIMIT as i128),
        -2 * (POS_LIMIT as i128) <= dy <= 2 * (POS_LIMIT as i128),
    ensures
        r.1 == sqrt_f(lsq(dx as int, dy as int)),
        r.0 == contact_normal(dx as int, dy as int),
        vec_ok(r.0, SCALE as int),
        0 <= r.1,
{
    proof {
        lemma_mul_abs_bound(dx as int, 562_949_953_421_312, dx as int, 562_949_953_421_312);
        lemma_mul_abs_bound(dy as int, 562_949_953_421_312, dy as int, 562_949_953_421_312);
        lemma_square_nonneg(dx as int);
        lemma_square_nonneg(dy as int);
    }
    let l = dx * dx + dy * dy;
    let d = isqrt_i(l);
    if d == 0 {
        (Vec2 { x: SCALE, y: 0 }, 0)
    } else {
        proof {
            lemma_sqrt_component(dx as int, l as int);
            lemma_sqrt_component(dy as int, l as int);
            lemma_mul_abs_bound(dx as int, d as int, SCALE as int, SCALE as int);
            lemma_mul_abs_bound(dy as int, d as int, SCALE as int, SCALE as int);
            lemma_mul_abs_bound(dx as int, 562_949_953_421_312, SCALE as int, 1_000_000);
            lemma_mul_abs_bound(dy as int, 562_949_953_421_312, SCALE as int, 1_000_000);
            lemma_tdiv_factor(dx as int * SCALE as int, d as int, SCALE as int);
            lemma_tdiv_factor(dy as int * SCALE as int, d as int, SCALE as int);
        }
        let nx = tdiv_i(dx * (SCALE as i128), d);
        let ny = tdiv_i(dy * (SCALE as i128), d);
        (Vec2 { x: nx as i64, y: ny as i64 }, d)
    }
}

/// Solve one overlapping dynamic/dynamic pair; the executable mirror of
/// `solve_pair_bodies`.
fn solve_pair_exec(a: ParticleBundle, b: ParticleBundle) -> (r: (
    ParticleBundle,
    ParticleBundle,
    Option<Vec2>,
))
    requires
        body_valid(a),
        body_valid(b),
    ensures
        r == solve_pair_bodies(a, b),
        body_valid(r.0),
        body_valid(r.1),
        r.2 is Some ==> vec_ok(r.2->Some_0, SCALE as int),
{
    let dx = (b.pos.0.x as i128) - (a.pos.0.x as i128);
    let dy = (b.pos.0.y as i128) - (a.pos.0.y as i128);
    let rr = (a.collider.radius as i128) + (b.collider.radius as i128);
    proof {
        lemma_mul_abs_bound(dx as int, 562_949_953_421_312, dx as int, 562_949_953_421_312);
        lemma_mul_abs_bound(dy as int, 562_949_953_421_312, dy as int, 562_949_953_421_312);
        lemma_mul_abs_bound(rr as int, 562_949_953_421_312, rr as int, 562_949_953_421_312);
        lemma_square_nonneg(dx as int);
        lemma_square_nonneg(dy as int);
    }
    if dx * dx + dy * dy < rr * rr {
        let (n, d) = normal_and_dist(dx, dy);
        proof {
            lemma_sqrt_lt((dx * dx + dy * dy) as int, rr as int);
        }
        let pen = rr - d;
        let msum = (a.mass.0 as i128) + (b.mass.0 as i128);
        proof {
            lemma_mul_abs_bound(pen as int, 562_949_953_421_312, b.mass.0 as int, 281_474_976_710_656);
            lemma_mul_abs_bound(pen as int, 562_949_953_421_312, a.mass.0 as int, 281_474_976_710_656);
            lemma_mul_nonnegative(pen as int, b.mass.0 as int);
            lemma_mul_nonnegative(pen as int, a.mass.0 as int);
            lemma_mul_nonnegative(pen as int, msum as int);
            lemma_weight_share(pen as int, b.mass.0 as int, msum as int);
            lemma_weight_share(pen as int, a.mass.0 as int, msum as int);
            lemma_tdiv_factor(pen as int * b.mass.0 as int, msum as int, pen as int);
            lemma_tdiv_factor(pen as int * a.mass.0 as int, msum as int, pen as int);
            lemma_tdiv_range(pen as int * b.mass.0 as int, msum as int);
            lemma_tdiv_range(pen as int * a.mass.0 as int, msum as int);
        }
        let share_a = tdiv_i(pen * b.mass.0 as i128, msum);
        let share_b = tdiv_i(pen * a.mass.0 as i128, msum);
        proof {
            lemma_mul_abs_bound(n.x as int, 1_000_000, share_a as int, 562_949_953_421_312);
            lemma_mul_abs_bound(n.y as int, 1_000_000, share_a as int, 562_949_953_421_312);
            lemma_mul_abs_bound(n.x as int, 1_000_000, share_b as int, 562_949_953_421_312);
            lemma_mul_abs_bound(n.y as int, 1_000_000, share_b as int, 562_949_953_421_312);
            lemma_unit_scaled(n.x as int, SCALE as int, share_a as int);
            lemma_unit_scaled(n.y as int, SCALE as int, share_a as int);
            lemma_unit_scaled(n.x as int, SCALE as int, share_b as int);
            lemma_unit_scaled(n.y as int, SCALE as int, share_b as int);
            lemma_tdiv_factor(n.x as int * share_a as int, SCALE as int, share_a as int);
            lemma_tdiv_factor(n.y as int * share_a as int, SCALE as int, share_a as int);
            lemma_tdiv_factor(n.x as int * share_b as int, SCALE as int, share_b as int);
            lemma_tdiv_factor(n.y as int * share_b as int, SCALE as int, share_b as int);
        }
        let ax = sat_i(a.pos.0.x as i128 - tdiv_i((n.x as i128) * share_a, SCALE as i128), POS_LIMIT);
        let ay = sat_i(a.pos.0.y as i128 - tdiv_i((n.y as i128) * share_a, SCALE as i128), POS_LIMIT);
        let bx = sat_i(b.pos.0.x as i128 + tdiv_i((n.x as i128) * share_b, SCALE as i128), POS_LIMIT);
        let by = sat_i(b.pos.0.y as i128 + tdiv_i((n.y as i128) * share_b, SCALE as i128), POS_LIMIT);
        let a2 = ParticleBundle { pos: Pos(Vec2 { x: ax, y: ay }), ..a };
        let b2 = ParticleBundle { pos: Pos(Vec2 { x: bx, y: by }), ..b };
        proof {
            assert(a2 == solve_pair_bodies(a, b).0);
            assert(b2 == solve_pair_bodies(a, b).1);
        }
        (a2, b2, Some(n))
    } else {
        (a, b, None)
    }
}

/// Consume the broad-phase candidate list: exact-test every pair and
/// project overlapping bodies apart, recording each contact.
pub fn solve_pos(
    bodies: &mut Vec<ParticleBundle>,
    collision_pairs: &CollisionPairs,
    contacts: &mut Contacts,
)
    requires
        forall|i: int| 0 <= i < old(bodies)@.len() ==> body_valid(#[trigger] old(bodies)@[i]),
        forall|k: int| 0 <= k < collision_pairs.0@.len() ==> (#[trigger] collision_pairs.0@[k]).0
            != collision_pairs.0@[k].1,
        forall|k: int| 0 <= k < collision_pairs.0@.len() ==> (#[trigger] collision_pairs.0@[k]).0
            < old(bodies)@.len() && collision_pairs.0@[k].1 < old(bodies)@.len(),
        forall|k: int| 0 <= k < old(contacts).0@.len() ==> contact_wf(
            #[trigger] old(contacts).0@[k],
            old(bodies)@.len() as int,
        ),
    ensures
        final(bodies)@ == solved_pairs(old(bodies)@, old(contacts).0@, collision_pairs.0@).0,
        final(contacts).0@ == solved_pairs(old(bodies)@, old(contacts).0@, collision_pairs.0@).1,
        final(bodies)@.len() == old(bodies)@.len(),
        forall|i: int| 0 <= i < final(bodies)@.len() ==> body_valid(#[trigger] final(bodies)@[i]),
        forall|k: int| 0 <= k < final(contacts).0@.len() ==> contact_wf(
            #[trigger] final(contacts).0@[k],
            old(bodies)@.len() as int,
        ),
{
    let npairs = collision_pairs.0.len();
    let mut k: usize = 0;
    while k < npairs
        invariant
            npairs == collision_pairs.0@.len(),
            0 <= k <= npairs,
            bodies@.len() == old(bodies)@.len(),
            forall|i: int| 0 <= i < old(bodies)@.len() ==> body_valid(#[trigger] old(bodies)@[i]),
            forall|kk: int| 0 <= kk < collision_pairs.0@.len() ==> (
            #[trigger] collision_pairs.0@[kk]).0 != collision_pairs.0@[kk].1,
            forall|kk: int| 0 <= kk < collision_pairs.0@.len() ==> (
            #[trigger] collision_pairs.0@[kk]).0 < old(bodies)@.len()
                && collision_pairs.0@[kk].1 < old(bodies)@.len(),
            forall|kk: int| 0 <= kk < old(contacts).0@.len() ==> contact_wf(
                #[trigger] old(contacts).0@[kk],
                old(bodies)@.len() as int,
            ),
            bodies@ == solve_pairs_upto(
                old(bodies)@,
                old(contacts).0@,
                collision_pairs.0@,
                k as int,
            ).0,
            contacts.0@ == solve_pairs_upto(
                old(bodies)@,
                old(contacts).0@,
                collision_pairs.0@,
                k as int,
            ).1,
            forall|i: int| 0 <= i < bodies@.len() ==> body_valid(#[trigger] bodies@[i]),
            forall|kk: int| 0 <= kk < contacts.0@.len() ==> contact_wf(
                #[trigger] contacts.0@[kk],
                old(bodies)@.len() as int,
            ),
        decreases npairs - k,
    {
        let p = collision_pairs.0[k];
        let a = bodies[p.0];
        let b = bodies[p.1];
        let r = solve_pair_exec(a, b);
        match r.2 {
            Some(n) => {
                bodies[p.0] = r.0;
                bodies[p.1] = r.1;
                contacts.0.push((p.0, p.1, n));
            },
            None => {},
        }
        k = k + 1;
    }
}

/// Sign of `v`: -1, 0 or 1.
pub open spec fn sgn(v: int) -> int {
    if v > 0 {
        1
    } else if v < 0 {
        -1
    } else {
        0
    }
}

/// Absolute value.
pub open spec fn abs_s(v: int) -> int {
    if v < 0 {
        -v
    } else {
        v
    }
}

/// A recorded dynamic/static contact addresses a live body and a live
/// obstacle and carries a unit-scale normal.
pub open spec fn static_contact_wf(c: (usize, usize, Vec2), nbodies: int, nstatics: int) -> bool {
    c.0 < nbodies && c.1 < nstatics && vec_ok(c.2, SCALE as int)
}

/// One dynamic-circle/static-circle positional solve: identical overlap
/// math to the dynamic/dynamic case, but the whole correction lands on the
/// dynamic body.  The normal points from the body toward the obstacle.
/// Obstacles of a different shape are ignored by this pass.
pub open spec fn solve_static_circle_body(a: ParticleBundle, s: StaticBody) -> (
    ParticleBundle,
    Option<Vec2>,
) {
    match s.collider {
        Collider::Circle(c) => {
            let dx = s.pos.0.x - a.pos.0.x;
            let dy = s.pos.0.y - a.pos.0.y;
            let rr = a.collider.radius + c.radius;
            if lsq(dx, dy) < rr * rr {
                let d = sqrt_f(lsq(dx, dy));
                let n = contact_normal(dx, dy);
                let pen = rr - d;
                let a2 = with_pos(
                    a,
                    a.pos.0.x - fmul(n.x as int, pen),
                    a.pos.0.y - fmul(n.y as int, pen),
                );
                (a2, Some(n))
            } else {
                (a, None)
            }
        },
        Collider::Box(_) => (a, None),
    }
}

/// One dynamic-circle/static-box positional solve, by Voronoi region of the
/// box: past a corner the circle is pushed along the corner-to-center line,
/// beside an edge along that edge's axis.  The normal points from the body
/// toward the box.  Obstacles of a different shape are ignored by this pass.
pub open spec fn solve_static_box_body(a: ParticleBundle, s: StaticBody) -> (
    ParticleBundle,
    Option<Vec2>,
) {
    match s.collider {
        Collider::Box(bc) => {
            let ex = a.pos.0.x - s.pos.0.x;
            let ey = a.pos.0.y - s.pos.0.y;
            let cx = abs_s(ex) - bc.half_extents.x;
            let cy = abs_s(ey) - bc.half_extents.y;
            let r = a.collider.radius;
            if cx > r || cy > r {
                (a, None)
            } else if cx > 0 && cy > 0 {
                let csq = lsq(cx, cy);
                if csq > r * r {
                    (a, None)
                } else {
                    let cd = sqrt_f(csq);
                    let pen = r - cd;
                    let n = Vec2 {
                        x: (-sgn(ex) * tdiv(cx * SCALE, cd)) as i64,
                        y: (-sgn(ey) * tdiv(cy * SCALE, cd)) as i64,
                    };
                    let a2 = with_pos(
                        a,
                        a.pos.0.x - fmul(n.x as int, pen),
                        a.pos.0.y - fmul(n.y as int, pen),
                    );
                    (a2, Some(n))
                }
            } else if cx > cy {
                let n = Vec2 { x: (-sgn(ex) * SCALE) as i64, y: 0 };
                let pen = r - cx;
                let a2 = with_pos(
                    a,
                    a.pos.0.x - fmul(n.x as int, pen),
                    a.pos.0.y - fmul(n.y as int, pen),
                );
                (a2, Some(n))
            } else {
                let n = Vec2 { x: 0, y: (-sgn(ey) * SCALE) as i64 };
                let pen = r - cy;
                let a2 = with_pos(
                    a,
                    a.pos.0.x - fmul(n.x as int, pen),
                    a.pos.0.y - fmul(n.y as int, pen),
                );
                (a2, Some(n))
            }
        },
        Collider::Circle(_) => (a, None),
    }
}

/// One step of the dynamic/static-circle pass: body `ai` against obstacle
/// `si`.
pub open spec fn static_circle_step(
    bs: Seq<ParticleBundle>,
    cs: Seq<(usize, usize, Vec2)>,
    ss: Seq<StaticBody>,
    ai: int,
    si: int,
) -> (Seq<ParticleBundle>, Seq<(usize, usize, Vec2)>) {
    if 0 <= ai && ai < bs.len() && 0 <= si && si < ss.len() {
        let r = solve_static_circle_body(bs[ai], ss[si]);
        match r.1 {
            Some(n) => (bs.update(ai, r.0), cs.push((ai as usize, si as usize, n))),
            None => (bs, cs),
        }
    } else {
        (bs, cs)
    }
}

/// Body `ai` solved against the obstacles `si` and up.
pub open spec fn static_circle_row(
    bs: Seq<ParticleBundle>,
    cs: Seq<(usize, usize, Vec2)>,
    ss: Seq<StaticBody>,
    ai: int,
    si: int,
) -> (Seq<ParticleBundle>, Seq<(usize, usize, Vec2)>)
    decreases ss.len() - si,
{
    if si < 0 || si >= ss.len() {
        (bs, cs)
    } else {
        let st = static_circle_step(bs, cs, ss, ai, si);
        static_circle_row(st.0, st.1, ss, ai, si + 1)
    }
}

/// Bodies `ai` up to `n`, each solved against every obstacle in order.
pub open spec fn static_circle_from(
    bs: Seq<ParticleBundle>,
    cs: Seq<(usize, usize, Vec2)>,
    ss: Seq<StaticBody>,
    ai: int,
    n: int,
) -> (Seq<ParticleBundle>, Seq<(usize, usize, Vec2)>)
    decreases n - ai,
{
    if ai < 0 || ai >= n {
        (bs, cs)
    } else {
        let row = static_circle_row(bs, cs, ss, ai, 0);
        static_circle_from(row.0, row.1, ss, ai + 1, n)
    }
}

/// The body set and static contact list after the dynamic/static-circle
/// pass.
pub open spec fn solved_static_circles(
    bs: Seq<ParticleBundle>,
    cs: Seq<(usize, usize, Vec2)>,
    ss: Seq<StaticBody>,
) -> (Seq<ParticleBundle>, Seq<(usize, usize, Vec2)>) {
    static_circle_from(bs, cs, ss, 0, bs.len() as int)
}

/// One step of the dynamic/static-box pass: body `ai` against obstacle
/// `si`.
pub open spec fn static_box_step(
    bs: Seq<ParticleBundle>,
    cs: Seq<(usize, usize, Vec2)>,
    ss: Seq<StaticBody>,
    ai: int,
    si: int,
) -> (Seq<ParticleBundle>, Seq<(usize, usize, Vec2)>) {
    if 0 <= ai && ai < bs.len() && 0 <= si && si < ss.len() {
        let r = solve_static_box_body(bs[ai], ss[si]);
        match r.1 {
            Some(n) => (bs.update(ai, r.0), cs.push((ai as usize, si as usize, n))),
            None => (bs, cs),
        }
    } else {
        (bs, cs)
    }
}

/// Body `ai` solved against the box obstacles `si` and up.
pub open spec fn static_box_row(
    bs: Seq<ParticleBundle>,
    cs: Seq<(usize, usize, Vec2)>,
    ss: Seq<StaticBody>,
    ai: int,
    si: int,
) -> (Seq<ParticleBundle>, Seq<(usize, usize, Vec2)>)
    decreases ss.len() - si,
{
    if si < 0 || si >= ss.len() {
        (bs, cs)
    } else {
        let st = static_box_step(bs, cs, ss, ai, si);
        static_box_row(st.0, st.1, ss, ai, si + 1)
    }
}

/// Bodies `ai` up to `n`, each solved against every box obstacle in order.
pub open spec fn static_box_from(
    bs: Seq<ParticleBundle>,
    cs: Seq<(usize, usize, Vec2)>,
    ss: Seq<StaticBody>,
    ai: int,
    n: int,
) -> (Seq<ParticleBundle>, Seq<(usize, usize, Vec2)>)
    decreases n - ai,
{
    if ai < 0 || ai >= n {
        (bs, cs)
    } else {
        let row = static_box_row(bs, cs, ss, ai, 0);
        static_box_from(row.0, row.1, ss, ai + 1, n)
    }
}

/// The body set and static contact list after the dynamic/static-box pass.
pub open spec fn solved_static_boxes(
    bs: Seq<ParticleBundle>,
    cs: Seq<(usize, usize, Vec2)>,
    ss: Seq<StaticBody>,
) -> (Seq<ParticleBundle>, Seq<(usize, usize, Vec2)>) {
    static_box_from(bs, cs, ss, 0, bs.len() as int)
}

/// Executable mirror of `solve_static_circle_body`.
fn solve_static_circle_exec(a: ParticleBundle, s: StaticBody) -> (r: (ParticleBundle, Option<Vec2>))
    requires
        body_valid(a),
        static_valid(s),
    ensures
        r == solve_static_circle_body(a, s),
        body_valid(r.0),
        r.1 is Some ==> vec_ok(r.1->Some_0, SCALE as int),
{
    match s.collider {
        Collider::Circle(c) => {
            let dx = (s.pos.0.x as i128) - (a.pos.0.x as i128);
            let dy = (s.pos.0.y as i128) - (a.pos.0.y as i128);
            let rr = (a.collider.radius as i128) + (c.radius as i128);
            proof {
                lemma_mul_abs_bound(dx as int, 562_949_953_421_312, dx as int, 562_949_953_421_312);
                lemma_mul_abs_bound(dy as int, 562_949_953_421_312, dy as int, 562_949_953_421_312);
                lemma_mul_abs_bound(rr as int, 562_949_953_421_312, rr as int, 562_949_953_421_312);
                lemma_square_nonneg(dx as int);
                lemma_square_nonneg(dy as int);
            }
            if dx * dx + dy * dy < rr * rr {
                let (n, d) = normal_and_dist(dx, dy);
                proof {
                    lemma_sqrt_lt((dx * dx + dy * dy) as int, rr as int);
                }
                let pen = rr - d;
                proof {
                    lemma_mul_abs_bound(n.x as int, 1_000_000, pen as int, 562_949_953_421_312);
                    lemma_mul_abs_bound(n.y as int, 1_000_000, pen as int, 562_949_953_421_312);
                    lemma_unit_scaled(n.x as int, SCALE as int, pen as int);
                    lemma_unit_scaled(n.y as int, SCALE as int, pen as int);
                    lemma_tdiv_factor(n.x as int * pen as int, SCALE as int, pen as int);
                    lemma_tdiv_factor(n.y as int * pen as int, SCALE as int, pen as int);
                }
                let ax = sat_i(a.pos.0.x as i128 - tdiv_i((n.x as i128) * pen, SCALE as i128), POS_LIMIT);
                let ay = sat_i(a.pos.0.y as i128 - tdiv_i((n.y as i128) * pen, SCALE as i128), POS_LIMIT);
                let a2 = ParticleBundle { pos: Pos(Vec2 { x: ax, y: ay }), ..a };
                proof {
                    assert(a2 == solve_static_circle_body(a, s).0);
                }
                (a2, Some(n))
            } else {
                (a, None)
            }
        },
        Collider::Box(_) => (a, None),
    }
}

/// Executable mirror of `solve_static_box_body`.
fn solve_static_box_exec(a: ParticleBundle, s: StaticBody) -> (r: (ParticleBundle, Option<Vec2>))
    requires
        body_valid(a),
        static_valid(s),
    ensures
        r == solve_static_box_body(a, s),
        body_valid(r.0),
        r.1 is Some ==> vec_ok(r.1->Some_0, SCALE as int),
{
    match s.collider {
        Collider::Box(bc) => {
            let ex = (a.pos.0.x as i128) - (s.pos.0.x as i128);
            let ey = (a.pos.0.y as i128) - (s.pos.0.y as i128);
            let ax = if ex < 0 { -ex } else { ex };
            let ay = if ey < 0 { -ey } else { ey };
            let cx = ax - (bc.half_extents.x as i128);
            let cy = ay - (bc.half_extents.y as i128);
            let r = a.collider.radius as i128;
            let sx: i128 = if ex > 0 { 1 } else if ex < 0 { -1 } else { 0 };
            let sy: i128 = if ey > 0 { 1 } else if ey < 0 { -1 } else { 0 };
            if cx > r || cy > r {
                (a, None)
            } else if cx > 0 && cy > 0 {
                proof {
                    lemma_mul_abs_bound(cx as int, 562_949_953_421_312, cx as int, 562_949_953_421_312);
                    lemma_mul_abs_bound(cy as int, 562_949_953_421_312, cy as int, 562_949_953_421_312);
                    lemma_mul_abs_bound(r as int, 562_949_953_421_312, r as int, 562_949_953_421_312);
                    lemma_square_nonneg(cx as int);
                    lemma_square_nonneg(cy as int);
                }
                let csq = cx * cx + cy * cy;
                if csq > r * r {
                    (a, None)
                } else {
                    let cd = isqrt_i(csq);
                    proof {
                        lemma_sqrt_mono(csq as int, (r * r) as int);
                        lemma_sqrt_square(r as int);
                        lemma_sqrt_component(cx as int, csq as int);
                        lemma_sqrt_component(cy as int, csq as int);
                        lemma_mul_strictly_positive(cx as int, cx as int);
                        lemma_mul_strictly_positive(cy as int, cy as int);
                        lemma_sqrt_props(csq as int);
                        if cd == 0 {
                            assert(csq < 1) by (nonlinear_arith)
                                requires
                                    (csq as int) < ((cd as int) + 1) * ((cd as int) + 1) && cd
                                        as int == 0;
                            assert(false);
                        }
                        lemma_mul_abs_bound(cx as int, cd as int, SCALE as int, SCALE as int);
                        lemma_mul_abs_bound(cy as int, cd as int, SCALE as int, SCALE as int);
                        lemma_mul_abs_bound(cx as int, 562_949_953_421_312, SCALE as int, 1_000_000);
                        lemma_mul_abs_bound(cy as int, 562_949_953_421_312, SCALE as int, 1_000_000);
                        lemma_tdiv_factor(cx as int * SCALE as int, cd as int, SCALE as int);
                        lemma_tdiv_factor(cy as int * SCALE as int, cd as int, SCALE as int);
                    }
                    let pen = r - cd;
                    let tx = tdiv_i(cx * (SCALE as i128), cd);
                    let ty = tdiv_i(cy * (SCALE as i128), cd);
                    proof {
                        lemma_mul_abs_bound((-sx) as int, 1, tx as int, 1_000_000);
                        lemma_mul_abs_bound((-sy) as int, 1, ty as int, 1_000_000);
                    }
                    let nx = -sx * tx;
                    let ny = -sy * ty;
                    let n = Vec2 { x: nx as i64, y: ny as i64 };
                    proof {
                        lemma_mul_abs_bound(n.x as int, 1_000_000, pen as int, 281_474_976_710_656);
                        lemma_mul_abs_bound(n.y as int, 1_000_000, pen as int, 281_474_976_710_656);
                        lemma_unit_scaled(n.x as int, SCALE as int, pen as int);
                        lemma_unit_scaled(n.y as int, SCALE as int, pen as int);
                        lemma_tdiv_factor(n.x as int * pen as int, SCALE as int, pen as int);
                        lemma_tdiv_factor(n.y as int * pen as int, SCALE as int, pen as int);
                    }
                    let px = sat_i(a.pos.0.x as i128 - tdiv_i((n.x as i128) * pen, SCALE as i128), POS_LIMIT);
                    let py = sat_i(a.pos.0.y as i128 - tdiv_i((n.y as i128) * pen, SCALE as i128), POS_LIMIT);
                    let a2 = ParticleBundle { pos: Pos(Vec2 { x: px, y: py }), ..a };
                    proof {
                        assert(a2 == solve_static_box_body(a, s).0);
                    }
                    (a2, Some(n))
                }
            } else if cx > cy {
                proof {
                    lemma_mul_abs_bound((-sx) as int, 1, SCALE as int, 1_000_000);
                }
                let n = Vec2 { x: (-sx * (SCALE as i128)) as i64, y: 0 };
                let pen = r - cx;
                proof {
                    lemma_mul_abs_bound(n.x as int, 1_000_000, pen as int, 562_949_953_421_312);
                    lemma_unit_scaled(n.x as int, SCALE as int, pen as int);
                    lemma_tdiv_factor(n.x as int * pen as int, SCALE as int, pen as int);
                }
                let px = sat_i(a.pos.0.x as i128 - tdiv_i((n.x as i128) * pen, SCALE as i128), POS_LIMIT);
                let py = sat_i(a.pos.0.y as i128, POS_LIMIT);
                let a2 = ParticleBundle { pos: Pos(Vec2 { x: px, y: py }), ..a };
                proof {
                    assert(fmul(0, pen as int) == 0) by {
                        crate::fx::lemma_tdiv_exact(0, SCALE as int);
                    }
                    assert(a2 == solve_static_box_body(a, s).0);
                }
                (a2, Some(n))
            } else {
                proof {
                    lemma_mul_abs_bound((-sy) as int, 1, SCALE as int, 1_000_000);
                }
                let n = Vec2 { x: 0, y: (-sy * (SCALE as i128)) as i64 };
                let pen = r - cy;
                proof {
                    lemma_mul_abs_bound(n.y as int, 1_000_000, pen as int, 562_949_953_421_312);
                    lemma_unit_scaled(n.y as int, SCALE as int, pen as int);
                    lemma_tdiv_factor(n.y as int * pen as int, SCALE as int, pen as int);
                }
                let px = sat_i(a.pos.0.x as i128, POS_LIMIT);
                let py = sat_i(a.pos.0.y as i128 - tdiv_i((n.y as i128) * pen, SCALE as i128), POS_LIMIT);
                let a2 = ParticleBundle { pos: Pos(Vec2 { x: px, y: py }), ..a };
                proof {
                    assert(fmul(0, pen as int) == 0) by {
                        crate::fx::lemma_tdiv_exact(0, SCALE as int);
                    }
                    assert(a2 == solve_static_box_body(a, s).0);
                }
                (a2, Some(n))
            }
        },
        Collider::Circle(_) => (a, None),
    }
}

/// Solve every dynamic body against every static circle, exhaustively (no
/// broad phase), recording a contact per resolved overlap.
pub fn solve_pos_statics(
    bodies: &mut Vec<ParticleBundle>,
    statics: &Vec<StaticBody>,
    contacts: &mut StaticContacts,
)
    requires
        forall|i: int| 0 <= i < old(bodies)@.len() ==> body_valid(#[trigger] old(bodies)@[i]),
        forall|i: int| 0 <= i < statics@.len() ==> static_valid(#[trigger] statics@[i]),
        forall|k: int| 0 <= k < old(contacts).0@.len() ==> static_contact_wf(
            #[trigger] old(contacts).0@[k],
            old(bodies)@.len() as int,
            statics@.len() as int,
        ),
    ensures
        final(bodies)@ == solved_static_circles(old(bodies)@, old(contacts).0@, statics@).0,
        final(contacts).0@ == solved_static_circles(old(bodies)@, old(contacts).0@, statics@).1,
        final(bodies)@.len() == old(bodies)@.len(),
        forall|i: int| 0 <= i < final(bodies)@.len() ==> body_valid(#[trigger] final(bodies)@[i]),
        forall|k: int| 0 <= k < final(contacts).0@.len() ==> static_contact_wf(
            #[trigger] final(contacts).0@[k],
            old(bodies)@.len() as int,
            statics@.len() as int,
        ),
{
    let nb = bodies.len();
    let ns = statics.len();
    let mut ai: usize = 0;
    while ai < nb
        invariant
            nb == bodies@.len() == old(bodies)@.len(),
            ns == statics@.len(),
            0 <= ai <= nb,
            forall|i: int| 0 <= i < statics@.len() ==> static_valid(#[trigger] statics@[i]),
            forall|i: int| 0 <= i < bodies@.len() ==> body_valid(#[trigger] bodies@[i]),
            forall|k: int| 0 <= k < contacts.0@.len() ==> static_contact_wf(
                #[trigger] contacts.0@[k],
                nb as int,
                ns as int,
            ),
            static_circle_from(bodies@, contacts.0@, statics@, ai as int, nb as int)
                == static_circle_from(old(bodies)@, old(contacts).0@, statics@, 0, nb as int),
        decreases nb - ai,
    {
        let ghost row_bs = bodies@;
        let ghost row_cs = contacts.0@;
        let mut si: usize = 0;
        while si < ns
            invariant
                nb == bodies@.len() == old(bodies)@.len(),
                ns == statics@.len(),
                0 <= ai < nb,
                0 <= si <= ns,
                forall|i: int| 0 <= i < statics@.len() ==> static_valid(#[trigger] statics@[i]),
                forall|i: int| 0 <= i < bodies@.len() ==> body_valid(#[trigger] bodies@[i]),
                forall|k: int| 0 <= k < contacts.0@.len() ==> static_contact_wf(
                    #[trigger] contacts.0@[k],
                    nb as int,
                    ns as int,
                ),
                static_circle_row(bodies@, contacts.0@, statics@, ai as int, si as int)
                    == static_circle_row(row_bs, row_cs, statics@, ai as int, 0),
            decreases ns - si,
        {
            let a = bodies[ai];
            let s = statics[si];
            let r = solve_static_circle_exec(a, s);
            proof {
                assert(static_circle_row(bodies@, contacts.0@, statics@, ai as int, si as int)
                    == static_circle_row(
                    static_circle_step(bodies@, contacts.0@, statics@, ai as int, si as int).0,
                    static_circle_step(bodies@, contacts.0@, statics@, ai as int, si as int).1,
                    statics@,
                    ai as int,
                    si as int + 1,
                ));
            }
            match r.1 {
                Some(n) => {
                    bodies[ai] = r.0;
                    contacts.0.push((ai, si, n));
                },
                None => {},
            }
            si = si + 1;
        }
        proof {
            assert(static_circle_from(row_bs, row_cs, statics@, ai as int, nb as int)
                == static_circle_from(bodies@, contacts.0@, statics@, ai as int + 1, nb as int));
        }
        ai = ai + 1;
    }
}

/// Solve every dynamic body against every static box, exhaustively,
/// recording a contact per resolved overlap.
pub fn solve_pos_static_boxes(
    bodies: &mut Vec<ParticleBundle>,
    statics: &Vec<StaticBody>,
    contacts: &mut StaticContacts,
)
    requires
        forall|i: int| 0 <= i < old(bodies)@.len() ==> body_valid(#[trigger] old(bodies)@[i]),
        forall|i: int| 0 <= i < statics@.len() ==> static_valid(#[trigger] statics@[i]),
        forall|k: int| 0 <= k < old(contacts).0@.len() ==> static_contact_wf(
            #[trigger] old(contacts).0@[k],
            old(bodies)@.len() as int,
            statics@.len() as int,
        ),
    ensures
        final(bodies)@ == solved_static_boxes(old(bodies)@, old(contacts).0@, statics@).0,
        final(contacts).0@ == solved_static_boxes(old(bodies)@, old(contacts).0@, statics@).1,
        final(bodies)@.len() == old(bodies)@.len(),
        forall|i: int| 0 <= i < final(bodies)@.len() ==> body_valid(#[trigger] final(bodies)@[i]),
        forall|k: int| 0 <= k < final(contacts).0@.len() ==> static_contact_wf(
            #[trigger] final(contacts).0@[k],
            old(bodies)@.len() as int,
            statics@.len() as int,
        ),
{
    let nb = bodies.len();
    let ns = statics.len();
    let mut ai: usize = 0;
    while ai < nb
        invariant
            nb == bodies@.len() == old(bodies)@.len(),
            ns == statics@.len(),
            0 <= ai <= nb,
            forall|i: int| 0 <= i < statics@.len() ==> static_valid(#[trigger] statics@[i]),
            forall|i: int| 0 <= i < bodies@.len() ==> body_valid(#[trigger] bodies@[i]),
            forall|k: int| 0 <= k < contacts.0@.len() ==> static_contact_wf(
                #[trigger] contacts.0@[k],
                nb as int,
                ns as int,
            ),
            static_box_from(bodies@, contacts.0@, statics@, ai as int, nb as int)
                == static_box_from(old(bodies)@, old(contacts).0@, statics@, 0, nb as int),
        decreases nb - ai,
    {
        let ghost row_bs = bodies@;
        let ghost row_cs = contacts.0@;
        let mut si: usize = 0;
        while si < ns
            invariant
                nb == bodies@.len() == old(bodies)@.len(),
                ns == statics@.len(),
                0 <= ai < nb,
                0 <= si <= ns,
                forall|i: int| 0 <= i < statics@.len() ==> static_valid(#[trigger] statics@[i]),
                forall|i: int| 0 <= i < bodies@.len() ==> body_valid(#[trigger] bodies@[i]),
                forall|k: int| 0 <= k < contacts.0@.len() ==> static_contact_wf(
                    #[trigger] contacts.0@[k],
                    nb as int,
                    ns as int,
                ),
                static_box_row(bodies@, contacts.0@, statics@, ai as int, si as int)
                    == static_box_row(row_bs, row_cs, statics@, ai as int, 0),
            decreases ns - si,
        {
            let a = bodies[ai];
            let s = statics[si];
            let r = solve_static_box_exec(a, s);
            proof {
                assert(static_box_row(bodies@, contacts.0@, statics@, ai as int, si as int)
                    == static_box_row(
                    static_box_step(bodies@, contacts.0@, statics@, ai as int, si as int).0,
                    static_box_step(bodies@, contacts.0@, statics@, ai as int, si as int).1,
                    statics@,
                    ai as int,
                    si as int + 1,
                ));
            }
            match r.1 {
                Some(n) => {
                    bodies[ai] = r.0;
                    contacts.0.push((ai, si, n));
                },
                None => {},
            }
            si = si + 1;
        }
        proof {
            assert(static_box_from(row_bs, row_cs, statics@, ai as int, nb as int)
                == static_box_from(bodies@, contacts.0@, statics@, ai as int + 1, nb as int));
        }
        ai = ai + 1;
    }
}

} // verus!
