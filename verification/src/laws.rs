//! Proved laws of the solver: statements that relate several phases, or
//! all inputs of one phase, beyond the per-function contracts.

use crate::broad_phase::{broad_hit, collect_from, collect_row, collected_pairs, margin_sqr};
use crate::entity::{body_valid, static_valid, Collider, ParticleBundle, StaticBody};
use crate::fx::{
    fmul, lemma_sqrt_component, lemma_sqrt_mono, lemma_sqrt_props, lemma_sqrt_square,
    lemma_square_nonneg, lemma_tdiv_exact, lemma_tdiv_mono, lemma_tdiv_range, lsq, sat, sqrt_f,
    tdiv, Vec2, POS_LIMIT, SCALE, VEL_LIMIT,
};
use crate::integrator::{integrated_all, integrated_body, rederived_all, rederived_body};
use crate::positional::{
    circles_overlap, contact_normal, sgn, abs_s, solve_pair_bodies, solve_pairs_upto,
    solve_static_box_body, solved_pairs, solved_static_boxes, solved_static_circles,
    static_box_from, static_box_row, static_box_step, static_circle_from, static_circle_row,
    static_circle_step,
};
use crate::velocity::{dots, solve_vel_bodies, solve_vel_static_body};
use crate::{bodies_valid, statics_valid, step_spec};
use vstd::arithmetic::div_mod::{
    lemma_fundamental_div_mod, lemma_remainder_lower, lemma_remainder_upper,
};
use vstd::arithmetic::mul::{lemma_mul_inequality, lemma_mul_nonnegative};
use vstd::prelude::*;

verus! {

/// Is the dynamic body `a` strictly clear of the circle obstacle `s` (or is
/// `s` not a circle)?  Exactly the condition under which the static-circle
/// pass leaves `a` alone.
pub open spec fn clear_of_static_circle(a: ParticleBundle, s: StaticBody) -> bool {
    match s.collider {
        Collider::Circle(c) => !circles_overlap(
            a.pos.0.x as int,
            a.pos.0.y as int,
            a.collider.radius as int,
            s.pos.0.x as int,
            s.pos.0.y as int,
            c.radius as int,
        ),
        Collider::Box(_) => true,
    }
}

/// Is the dynamic body `a` strictly clear of the box obstacle `s` (or is
/// `s` not a box)?  Exactly the condition under which the static-box pass
/// leaves `a` alone: some axis gap exceeds the radius, or the corner is
/// farther away than the radius.
pub open spec fn clear_of_static_box(a: ParticleBundle, s: StaticBody) -> bool {
    match s.collider {
        Collider::Box(bc) => {
            let cx = abs_s(a.pos.0.x - s.pos.0.x) - bc.half_extents.x;
            let cy = abs_s(a.pos.0.y - s.pos.0.y) - bc.half_extents.y;
            let r = a.collider.radius as int;
            cx > r || cy > r || (cx > 0 && cy > 0 && lsq(cx, cy) > r * r)
        },
        Collider::Circle(_) => true,
    }
}

/// Idempotence of the dynamic/dynamic positional solver: a pass over pairs
/// that do not overlap moves nothing and records no contact.  In
/// particular, a second pass after a separating pass is a no-op.
pub proof fn law_solve_pos_separated_noop(
    bs: Seq<ParticleBundle>,
    cs: Seq<(usize, usize, Vec2)>,
    ps: Seq<(usize, usize)>,
    k: int,
)
    requires
        0 <= k <= ps.len(),
        forall|m: int| 0 <= m < ps.len() ==> {
            let p = #[trigger] ps[m];
            0 <= p.0 < bs.len() && 0 <= p.1 < bs.len() && p.0 != p.1 ==> !circles_overlap(
                bs[p.0 as int].pos.0.x as int,
                bs[p.0 as int].pos.0.y as int,
                bs[p.0 as int].collider.radius as int,
                bs[p.1 as int].pos.0.x as int,
                bs[p.1 as int].pos.0.y as int,
                bs[p.1 as int].collider.radius as int,
            )
        },
    ensures
        solve_pairs_upto(bs, cs, ps, k) == (bs, cs),
    decreases k,
{
    if k > 0 {
        law_solve_pos_separated_noop(bs, cs, ps, k - 1);
    }
}

/// Idempotence of the static-circle pass over one row: a body clear of
/// every circle obstacle is not moved by it.
proof fn lemma_static_circle_row_noop(
    bs: Seq<ParticleBundle>,
    cs: Seq<(usize, usize, Vec2)>,
    ss: Seq<StaticBody>,
    ai: int,
    si: int,
)
    requires
        0 <= ai < bs.len(),
        forall|m: int| 0 <= m < ss.len() ==> clear_of_static_circle(bs[ai], #[trigger] ss[m]),
    ensures
        static_circle_row(bs, cs, ss, ai, si) == (bs, cs),
    decreases ss.len() - si,
{
    if 0 <= si < ss.len() {
        assert(static_circle_step(bs, cs, ss, ai, si) == (bs, cs));
        lemma_static_circle_row_noop(bs, cs, ss, ai, si + 1);
    }
}

/// Idempotence of the whole static-circle pass.
pub proof fn law_solve_pos_statics_separated_noop(
    bs: Seq<ParticleBundle>,
    cs: Seq<(usize, usize, Vec2)>,
    ss: Seq<StaticBody>,
    ai: int,
)
    requires
        0 <= ai,
        forall|i: int, m: int| 0 <= i < bs.len() && 0 <= m < ss.len() ==> clear_of_static_circle(
            #[trigger] bs[i],
            #[trigger] ss[m],
        ),
    ensures
        static_circle_from(bs, cs, ss, ai, bs.len() as int) == (bs, cs),
    decreases bs.len() - ai,
{
    if ai < bs.len() {
        lemma_static_circle_row_noop(bs, cs, ss, ai, 0);
        law_solve_pos_statics_separated_noop(bs, cs, ss, ai + 1);
    }
}

/// Idempotence of the static-box pass over one row.
proof fn lemma_static_box_row_noop(
    bs: Seq<ParticleBundle>,
    cs: Seq<(usize, usize, Vec2)>,
    ss: Seq<StaticBody>,
    ai: int,
    si: int,
)
    requires
        0 <= ai < bs.len(),
        forall|m: int| 0 <= m < ss.len() ==> clear_of_static_box(bs[ai], #[trigger] ss[m]),
    ensures
        static_box_row(bs, cs, ss, ai, si) == (bs, cs),
    decreases ss.len() - si,
{
    if 0 <= si < ss.len() {
        assert(static_box_step(bs, cs, ss, ai, si) == (bs, cs));
        lemma_static_box_row_noop(bs, cs, ss, ai, si + 1);
    }
}

/// Idempotence of the whole static-box pass.
pub proof fn law_solve_pos_static_boxes_separated_noop(
    bs: Seq<ParticleBundle>,
    cs: Seq<(usize, usize, Vec2)>,
    ss: Seq<StaticBody>,
    ai: int,
)
    requires
        0 <= ai,
        forall|i: int, m: int| 0 <= i < bs.len() && 0 <= m < ss.len() ==> clear_of_static_box(
            #[trigger] bs[i],
            #[trigger] ss[m],
        ),
    ensures
        static_box_from(bs, cs, ss, ai, bs.len() as int) == (bs, cs),
    decreases bs.len() - ai,
{
    if ai < bs.len() {
        lemma_static_box_row_noop(bs, cs, ss, ai, 0);
        law_solve_pos_static_boxes_separated_noop(bs, cs, ss, ai + 1);
    }
}

/// The integrator is symplectic Euler: within representable range, one
/// integration step adds exactly `gravity * dt` to the velocity and then
/// exactly `velocity' * dt` to the position, snapshotting the pre-step
/// position and the post-step velocity.
pub proof fn law_integrator_symplectic(b: ParticleBundle, g: Vec2, dt: int)
    requires
        body_valid(b),
        1 <= dt <= SCALE,
        -VEL_LIMIT <= b.vel.0.x + fmul(g.x as int, dt) <= VEL_LIMIT,
        -VEL_LIMIT <= b.vel.0.y + fmul(g.y as int, dt) <= VEL_LIMIT,
        -POS_LIMIT <= b.pos.0.x + fmul(b.vel.0.x + fmul(g.x as int, dt), dt) <= POS_LIMIT,
        -POS_LIMIT <= b.pos.0.y + fmul(b.vel.0.y + fmul(g.y as int, dt), dt) <= POS_LIMIT,
    ensures
        integrated_body(b, g, dt).vel.0.x as int == b.vel.0.x + fmul(g.x as int, dt),
        integrated_body(b, g, dt).vel.0.y as int == b.vel.0.y + fmul(g.y as int, dt),
        integrated_body(b, g, dt).pos.0.x as int == b.pos.0.x + fmul(
            integrated_body(b, g, dt).vel.0.x as int,
            dt,
        ),
        integrated_body(b, g, dt).pos.0.y as int == b.pos.0.y + fmul(
            integrated_body(b, g, dt).vel.0.y as int,
            dt,
        ),
        integrated_body(b, g, dt).pre_solve_vel.0 == integrated_body(b, g, dt).vel.0,
        integrated_body(b, g, dt).prev_pos.0 == b.pos.0,
{
}

/// Re-deriving velocity from the displacement `tdiv(v * dt, SCALE)` of one
/// collision-free tick recovers `v` to within one timestep quantum,
/// `(SCALE - 1) / dt + 1` raw units.
pub proof fn law_velocity_rederivation_bound(v: int, dt: int)
    requires
        1 <= dt <= SCALE,
    ensures
        ({
            let q = tdiv(v * dt, SCALE as int);
            let v2 = tdiv(q * (SCALE as int), dt);
            let e = (SCALE - 1) as int / dt + 1;
            v - e <= v2 <= v + e
        }),
{
    let s = SCALE as int;
    let q = tdiv(v * dt, s);
    let v2 = tdiv(q * s, dt);
    let e = (s - 1) / dt + 1;
    lemma_tdiv_range(v * dt, s);
    assert(v * dt - (s - 1) <= s * q <= v * dt + (s - 1));
    lemma_fundamental_div_mod(s - 1, dt);
    lemma_remainder_upper(s - 1, dt);
    lemma_remainder_lower(s - 1, dt);
    assert(dt * e == dt * ((s - 1) / dt) + dt) by (nonlinear_arith)
        requires e == (s - 1) / dt + 1;
    assert(dt * e >= s);
    assert(dt * (v - e) == dt * v - dt * e) by (nonlinear_arith);
    assert(dt * (v + e) == dt * v + dt * e) by (nonlinear_arith);
    assert(v * dt == dt * v) by (nonlinear_arith);
    assert(dt * (v - e) <= s * q <= dt * (v + e));
    lemma_tdiv_mono(dt * (v - e), q * s, dt);
    lemma_tdiv_mono(q * s, dt * (v + e), dt);
    assert(q * s == s * q) by (nonlinear_arith);
    lemma_tdiv_exact(v - e, dt);
    lemma_tdiv_exact(v + e, dt);
    assert((v - e) * dt == dt * (v - e)) by (nonlinear_arith);
    assert((v + e) * dt == dt * (v + e)) by (nonlinear_arith);
}

/// A body's velocity after a collision-free tick — the re-derivation of
/// its integrated displacement — is within one timestep quantum of its
/// integrated velocity, given clamping headroom of one world unit per
/// second.
pub proof fn law_free_tick_velocity(b: ParticleBundle, g: Vec2, dt: int)
    requires
        body_valid(b),
        1 <= dt <= SCALE,
        -VEL_LIMIT + SCALE <= b.vel.0.x + fmul(g.x as int, dt) <= VEL_LIMIT - SCALE,
        -VEL_LIMIT + SCALE <= b.vel.0.y + fmul(g.y as int, dt) <= VEL_LIMIT - SCALE,
        -POS_LIMIT <= b.pos.0.x + fmul(b.vel.0.x + fmul(g.x as int, dt), dt) <= POS_LIMIT,
        -POS_LIMIT <= b.pos.0.y + fmul(b.vel.0.y + fmul(g.y as int, dt), dt) <= POS_LIMIT,
    ensures
        ({
            let vel = integrated_body(b, g, dt).vel.0;
            let done = rederived_body(integrated_body(b, g, dt), dt).vel.0;
            let e = (SCALE - 1) as int / dt + 1;
            &&& vel.x - e <= done.x <= vel.x + e
            &&& vel.y - e <= done.y <= vel.y + e
        }),
{
    let ib = integrated_body(b, g, dt);
    let vx = b.vel.0.x + fmul(g.x as int, dt);
    let vy = b.vel.0.y + fmul(g.y as int, dt);
    assert(ib.vel.0.x == vx && ib.vel.0.y == vy);
    assert(ib.pos.0.x == b.pos.0.x + fmul(vx, dt) && ib.pos.0.y == b.pos.0.y + fmul(vy, dt));
    let e = (SCALE - 1) as int / dt + 1;
    vstd::arithmetic::div_mod::lemma_div_nonincreasing(SCALE - 1, dt);
    vstd::arithmetic::div_mod::lemma_div_pos_is_pos(SCALE - 1, dt);
    assert(1 <= e <= SCALE);
    law_velocity_rederivation_bound(vx, dt);
    law_velocity_rederivation_bound(vy, dt);
    assert(rederived_body(ib, dt).vel.0.x as int == sat(
        tdiv(tdiv(vx * dt, SCALE as int) * (SCALE as int), dt),
        VEL_LIMIT as int,
    ));
}

/// A tick in which nothing collides is exactly symplectic Euler followed by
/// velocity re-derivation: no body is corrected, no contact is recorded,
/// and no restitution is applied.
pub proof fn law_tick_without_collisions(
    bs: Seq<ParticleBundle>,
    ss: Seq<StaticBody>,
    g: Vec2,
    dt: int,
)
    requires
        bodies_valid(bs),
        statics_valid(ss),
        1 <= dt <= SCALE,
        ({
            let b1 = integrated_all(bs, g, dt);
            forall|i: int, j: int|
                0 <= i < b1.len() && 0 <= j < b1.len() && i != j ==> !circles_overlap(
                    (#[trigger] b1[i]).pos.0.x as int,
                    b1[i].pos.0.y as int,
                    b1[i].collider.radius as int,
                    (#[trigger] b1[j]).pos.0.x as int,
                    b1[j].pos.0.y as int,
                    b1[j].collider.radius as int,
                )
        }),
        ({
            let b1 = integrated_all(bs, g, dt);
            forall|i: int, m: int|
                0 <= i < b1.len() && 0 <= m < ss.len() ==> clear_of_static_circle(
                    #[trigger] b1[i],
                    #[trigger] ss[m],
                ) && clear_of_static_box(b1[i], ss[m])
        }),
    ensures
        step_spec(bs, ss, g, dt).0 == rederived_all(integrated_all(bs, g, dt), dt),
        step_spec(bs, ss, g, dt).2 =~= Seq::<(usize, usize, Vec2)>::empty(),
        step_spec(bs, ss, g, dt).3 =~= Seq::<(usize, usize, Vec2)>::empty(),
{
    let b1 = integrated_all(bs, g, dt);
    let pairs = collected_pairs(bs, dt);
    let none: Seq<(usize, usize, Vec2)> = Seq::empty();
    assert forall|m: int| 0 <= m < pairs.len() implies {
        let p = #[trigger] pairs[m];
        0 <= p.0 < b1.len() && 0 <= p.1 < b1.len() && p.0 != p.1 ==> !circles_overlap(
            b1[p.0 as int].pos.0.x as int,
            b1[p.0 as int].pos.0.y as int,
            b1[p.0 as int].collider.radius as int,
            b1[p.1 as int].pos.0.x as int,
            b1[p.1 as int].pos.0.y as int,
            b1[p.1 as int].collider.radius as int,
        )
    } by {
        let p = pairs[m];
        if 0 <= p.0 < b1.len() && 0 <= p.1 < b1.len() && p.0 != p.1 {
            assert(!circles_overlap(
                b1[p.0 as int].pos.0.x as int,
                b1[p.0 as int].pos.0.y as int,
                b1[p.0 as int].collider.radius as int,
                b1[p.1 as int].pos.0.x as int,
                b1[p.1 as int].pos.0.y as int,
                b1[p.1 as int].collider.radius as int,
            ));
        }
    }
    law_solve_pos_separated_noop(b1, none, pairs, pairs.len() as int);
    assert(solved_pairs(b1, none, pairs) == (b1, none));
    law_solve_pos_statics_separated_noop(b1, none, ss, 0);
    assert(solved_static_circles(b1, none, ss) == (b1, none));
    law_solve_pos_static_boxes_separated_noop(b1, none, ss, 0);
    assert(solved_static_boxes(b1, none, ss) == (b1, none));
}

/// One positional pass on two equal-mass circles overlapping along the X
/// axis splits the (even) penetration exactly in half: each body moves
/// half the depth away from the other, symmetric about the midpoint, and
/// they end up exactly the sum of their radii apart.
pub proof fn law_equal_mass_separation(a: ParticleBundle, b: ParticleBundle)
    requires
        body_valid(a),
        body_valid(b),
        a.mass.0 == b.mass.0,
        a.pos.0.y == b.pos.0.y,
        a.pos.0.x < b.pos.0.x,
        b.pos.0.x - a.pos.0.x < a.collider.radius + b.collider.radius,
        (a.collider.radius + b.collider.radius - (b.pos.0.x - a.pos.0.x)) % 2 == 0,
        a.collider.radius <= POS_LIMIT / 4,
        b.collider.radius <= POS_LIMIT / 4,
        -POS_LIMIT / 2 <= a.pos.0.x <= POS_LIMIT / 2,
        -POS_LIMIT / 2 <= b.pos.0.x <= POS_LIMIT / 2,
    ensures
        ({
            let r = solve_pair_bodies(a, b);
            let pen = a.collider.radius + b.collider.radius - (b.pos.0.x - a.pos.0.x);
            &&& r.2 == Some(Vec2 { x: SCALE, y: 0i64 })
            &&& r.0.pos.0.y == a.pos.0.y
            &&& r.1.pos.0.y == b.pos.0.y
            &&& a.pos.0.x - r.0.pos.0.x as int == pen / 2
            &&& r.1.pos.0.x as int - b.pos.0.x == pen / 2
            &&& r.1.pos.0.x as int - r.0.pos.0.x as int == a.collider.radius + b.collider.radius
        }),
{
    let dx = b.pos.0.x - a.pos.0.x as int;
    let rr = a.collider.radius + b.collider.radius as int;
    let pen = rr - dx;
    let m = a.mass.0 as int;
    let s = SCALE as int;
    assert(lsq(dx, 0) == dx * dx);
    assert(dx * dx < rr * rr) by (nonlinear_arith)
        requires 0 < dx < rr;
    lemma_sqrt_square(dx);
    assert(sqrt_f(lsq(dx, 0)) == dx);
    lemma_tdiv_exact(s, dx);
    assert(s * dx == dx * s) by (nonlinear_arith);
    assert(tdiv(dx * s, dx) == s);
    lemma_tdiv_exact(0, dx);
    assert(tdiv(0 * s, dx) == 0);
    assert(contact_normal(dx, 0) == (Vec2 { x: SCALE, y: 0i64 }));
    let t = pen / 2;
    lemma_fundamental_div_mod(pen, 2);
    assert(pen == 2 * t);
    lemma_tdiv_exact(t, 2 * m);
    assert(pen * m == t * (2 * m)) by (nonlinear_arith)
        requires pen == 2 * t;
    assert(tdiv(pen * m, 2 * m) == t);
    lemma_tdiv_exact(t, s);
    assert(fmul(s, t) == t) by {
        assert(s * t == t * s) by (nonlinear_arith);
    }
    lemma_tdiv_exact(0, s);
    assert(fmul(0, t) == 0) by {
        assert(0 * t == 0 * s) by (nonlinear_arith);
    }
    assert(sat(a.pos.0.x - t, POS_LIMIT as int) == a.pos.0.x - t);
    assert(sat(b.pos.0.x + t, POS_LIMIT as int) == b.pos.0.x + t);
    assert(sat(a.pos.0.y as int, POS_LIMIT as int) == a.pos.0.y);
    assert(sat(b.pos.0.y as int, POS_LIMIT as int) == b.pos.0.y);
}

/// At a box corner — both components of the corner-to-center offset
/// positive, corner within the radius — the box solver pushes along the
/// normalized corner-to-center direction, not an axis: the contact normal
/// is the scaled corner-to-center vector, and it is diagonal (both
/// components nonzero) whenever each offset component is at least one
/// scale-quantum of the corner distance.
pub proof fn law_corner_contact(a: ParticleBundle, s: StaticBody)
    requires
        body_valid(a),
        static_valid(s),
        s.collider is Box,
        ({
            let bc = s.collider->Box_0;
            let cx = abs_s(a.pos.0.x - s.pos.0.x) - bc.half_extents.x;
            let cy = abs_s(a.pos.0.y - s.pos.0.y) - bc.half_extents.y;
            cx > 0 && cy > 0 && lsq(cx, cy) <= a.collider.radius * a.collider.radius
        }),
    ensures
        ({
            let bc = s.collider->Box_0;
            let ex = a.pos.0.x - s.pos.0.x as int;
            let ey = a.pos.0.y - s.pos.0.y as int;
            let cx = abs_s(ex) - bc.half_extents.x;
            let cy = abs_s(ey) - bc.half_extents.y;
            let cd = sqrt_f(lsq(cx, cy));
            let r = solve_static_box_body(a, s);
            &&& r.1 == Some(
                Vec2 {
                    x: (-sgn(ex) * tdiv(cx * SCALE, cd)) as i64,
                    y: (-sgn(ey) * tdiv(cy * SCALE, cd)) as i64,
                },
            )
            &&& (cx * SCALE >= cd && cy * SCALE >= cd) ==> ((r.1->Some_0).x != 0 && (
            r.1->Some_0).y != 0)
        }),
{
    let bc = s.collider->Box_0;
    let ex = a.pos.0.x - s.pos.0.x as int;
    let ey = a.pos.0.y - s.pos.0.y as int;
    let cx = abs_s(ex) - bc.half_extents.x;
    let cy = abs_s(ey) - bc.half_extents.y;
    let r = a.collider.radius as int;
    let csq = lsq(cx, cy);
    assert(cx <= r && cy <= r) by (nonlinear_arith)
        requires cx > 0 && cy > 0 && 0 <= r && cx * cx + cy * cy <= r * r;
    let cd = sqrt_f(csq);
    lemma_square_nonneg(cx);
    lemma_square_nonneg(cy);
    lemma_sqrt_props(csq);
    if cd == 0 {
        assert(csq < 1) by (nonlinear_arith)
            requires csq < (cd + 1) * (cd + 1) && cd == 0;
        assert(csq >= 2) by (nonlinear_arith)
            requires cx >= 1 && cy >= 1 && csq == cx * cx + cy * cy;
        assert(false);
    }
    lemma_sqrt_component(cx, csq);
    lemma_sqrt_component(cy, csq);
    crate::fx::lemma_unit_scaled(cx, cd, SCALE as int);
    let qx = tdiv(cx * SCALE, cd);
    let qy = tdiv(cy * SCALE, cd);
    lemma_tdiv_range(cx * SCALE, cd);
    lemma_tdiv_range(cy * SCALE, cd);
    lemma_mul_nonnegative(cx, SCALE as int);
    lemma_mul_nonnegative(cy, SCALE as int);
    crate::fx::lemma_tdiv_factor(cx * SCALE, cd, SCALE as int);
    crate::fx::lemma_tdiv_factor(cy * SCALE, cd, SCALE as int);
    assert(ex != 0 && ey != 0);
    assert(sgn(ex) == 1 || sgn(ex) == -1);
    assert(sgn(ey) == 1 || sgn(ey) == -1);
    assert(-SCALE <= -sgn(ex) * qx <= SCALE) by (nonlinear_arith)
        requires -SCALE <= qx <= SCALE && (sgn(ex) == 1 || sgn(ex) == -1);
    assert(-SCALE <= -sgn(ey) * qy <= SCALE) by (nonlinear_arith)
        requires -SCALE <= qy <= SCALE && (sgn(ey) == 1 || sgn(ey) == -1);
    if cx * SCALE >= cd {
        if qx == 0 {
            assert(cd * qx == 0) by (nonlinear_arith)
                requires qx == 0;
            assert(false);
        }
        assert(-sgn(ex) * qx != 0) by (nonlinear_arith)
            requires qx >= 1 && (sgn(ex) == 1 || sgn(ex) == -1);
    }
    if cy * SCALE >= cd {
        if qy == 0 {
            assert(cd * qy == 0) by (nonlinear_arith)
                requires qy == 0;
            assert(false);
        }
        assert(-sgn(ey) * qy != 0) by (nonlinear_arith)
            requires qy >= 1 && (sgn(ey) == 1 || sgn(ey) == -1);
    }
}

/// The normal velocity of `(vx, vy)` against an axis-aligned unit normal
/// `(sg * SCALE, 0)` is exactly `sg * vx`.
proof fn lemma_axis_normal_velocity(vx: int, vy: int, nx: int, sg: int)
    requires
        sg == 1 || sg == -1,
        nx == sg * SCALE,
    ensures
        tdiv(dots(vx, vy, nx, 0), SCALE as int) == sg * vx,
{
    let t = sg * vx;
    assert(vx * nx == t * SCALE && vy * 0 == 0) by (nonlinear_arith)
        requires nx == sg * SCALE && t == sg * vx && (sg == 1 || sg == -1);
    lemma_tdiv_exact(t, SCALE as int);
}

/// Fully elastic restitution (coefficient 1) against a static obstacle,
/// head on (axis-aligned unit normal): the normal component of the velocity
/// is exactly reversed relative to the pre-solve approach speed.
pub proof fn law_restitution_elastic_static(a: ParticleBundle, s: StaticBody, n: Vec2)
    requires
        body_valid(a),
        static_valid(s),
        n.y == 0,
        n.x == SCALE || n.x == -SCALE,
        a.restitution.0 == SCALE,
        s.restitution.0 == SCALE,
        tdiv(
            dots(a.pre_solve_vel.0.x as int, a.pre_solve_vel.0.y as int, n.x as int, n.y as int),
            SCALE as int,
        ) >= 0,
        -VEL_LIMIT / 2 <= a.vel.0.x <= VEL_LIMIT / 2,
        -VEL_LIMIT / 2 <= a.pre_solve_vel.0.x <= VEL_LIMIT / 2,
    ensures
        ({
            let r = solve_vel_static_body(a, s, n);
            let psnv = tdiv(
                dots(
                    a.pre_solve_vel.0.x as int,
                    a.pre_solve_vel.0.y as int,
                    n.x as int,
                    n.y as int,
                ),
                SCALE as int,
            );
            &&& tdiv(dots(r.vel.0.x as int, r.vel.0.y as int, n.x as int, n.y as int), SCALE as int)
                == -psnv
            &&& r.vel.0.y == a.vel.0.y
        }),
{
    let sg: int = if n.x == SCALE { 1 } else { -1 };
    assert(n.x as int == sg * SCALE) by (nonlinear_arith)
        requires (n.x == SCALE && sg == 1) || (n.x == -SCALE && sg == -1);
    let vx = a.vel.0.x as int;
    let px = a.pre_solve_vel.0.x as int;
    lemma_axis_normal_velocity(vx, a.vel.0.y as int, n.x as int, sg);
    lemma_axis_normal_velocity(px, a.pre_solve_vel.0.y as int, n.x as int, sg);
    let nv = sg * vx;
    let psnv = sg * px;
    lemma_tdiv_exact(SCALE as int, 2);
    assert(a.restitution.0 + s.restitution.0 == (SCALE as int) * 2);
    let e = tdiv(a.restitution.0 + s.restitution.0 as int, 2);
    assert(e == SCALE as int);
    assert(e * psnv == psnv * SCALE) by (nonlinear_arith)
        requires e == SCALE as int;
    lemma_tdiv_exact(psnv, SCALE as int);
    let jv = -nv + -psnv;
    assert(n.x as int * jv == (sg * jv) * SCALE) by (nonlinear_arith)
        requires n.x as int == sg * SCALE && (sg == 1 || sg == -1);
    lemma_tdiv_exact(sg * jv, SCALE as int);
    assert(fmul(n.x as int, jv) == sg * jv);
    assert(0 * jv == 0 * SCALE) by (nonlinear_arith);
    lemma_tdiv_exact(0, SCALE as int);
    assert(fmul(n.y as int, jv) == 0);
    assert(vx + sg * jv == -px) by (nonlinear_arith)
        requires jv == -(sg * vx) + -(sg * px) && (sg == 1 || sg == -1);
    let r = solve_vel_static_body(a, s, n);
    assert(r.vel.0.x as int == -px);
    lemma_axis_normal_velocity(r.vel.0.x as int, r.vel.0.y as int, n.x as int, sg);
    assert(sg * (-px) == -psnv) by (nonlinear_arith)
        requires psnv == sg * px && (sg == 1 || sg == -1);
}

/// Fully inelastic restitution (coefficient 0) against a static obstacle,
/// head on: the normal component of the velocity is exactly cancelled — no
/// bounce at all.
pub proof fn law_restitution_inelastic_static(a: ParticleBundle, s: StaticBody, n: Vec2)
    requires
        body_valid(a),
        static_valid(s),
        n.y == 0,
        n.x == SCALE || n.x == -SCALE,
        a.restitution.0 == 0,
        s.restitution.0 == 0,
    ensures
        ({
            let r = solve_vel_static_body(a, s, n);
            &&& tdiv(dots(r.vel.0.x as int, r.vel.0.y as int, n.x as int, n.y as int), SCALE as int)
                == 0
            &&& r.vel.0.y == a.vel.0.y
        }),
{
    let sg: int = if n.x == SCALE { 1 } else { -1 };
    assert(n.x as int == sg * SCALE) by (nonlinear_arith)
        requires (n.x == SCALE && sg == 1) || (n.x == -SCALE && sg == -1);
    let vx = a.vel.0.x as int;
    let px = a.pre_solve_vel.0.x as int;
    lemma_axis_normal_velocity(vx, a.vel.0.y as int, n.x as int, sg);
    lemma_axis_normal_velocity(px, a.pre_solve_vel.0.y as int, n.x as int, sg);
    let nv = sg * vx;
    let psnv = sg * px;
    lemma_tdiv_exact(0, 2);
    assert(tdiv(0int * 2, 2) == 0);
    assert(0 * psnv == 0 * SCALE) by (nonlinear_arith);
    lemma_tdiv_exact(0, SCALE as int);
    let jv = -nv;
    assert(n.x as int * jv == (sg * jv) * SCALE) by (nonlinear_arith)
        requires n.x as int == sg * SCALE && (sg == 1 || sg == -1);
    lemma_tdiv_exact(sg * jv, SCALE as int);
    assert(0 * jv == 0 * SCALE) by (nonlinear_arith);
    assert(fmul(n.y as int, jv) == 0);
    assert(vx + sg * jv == 0) by (nonlinear_arith)
        requires jv == -(sg * vx) && (sg == 1 || sg == -1);
    let r = solve_vel_static_body(a, s, n);
    assert(r.vel.0.x as int == 0);
    lemma_axis_normal_velocity(r.vel.0.x as int, r.vel.0.y as int, n.x as int, sg);
}

/// Fully elastic restitution between two equal-mass dynamic bodies, head
/// on: the relative normal velocity after the pass equals the reversed
/// pre-solve approach speed to within one raw unit of rounding.
pub proof fn law_restitution_elastic_pair(a: ParticleBundle, b: ParticleBundle, n: Vec2)
    requires
        body_valid(a),
        body_valid(b),
        a.mass.0 == b.mass.0,
        n.y == 0,
        n.x == SCALE || n.x == -SCALE,
        a.restitution.0 == SCALE,
        b.restitution.0 == SCALE,
        tdiv(
            dots(
                a.pre_solve_vel.0.x - b.pre_solve_vel.0.x,
                a.pre_solve_vel.0.y - b.pre_solve_vel.0.y,
                n.x as int,
                n.y as int,
            ),
            SCALE as int,
        ) >= 0,
        -VEL_LIMIT / 4 <= a.vel.0.x <= VEL_LIMIT / 4,
        -VEL_LIMIT / 4 <= b.vel.0.x <= VEL_LIMIT / 4,
        -VEL_LIMIT / 4 <= a.pre_solve_vel.0.x <= VEL_LIMIT / 4,
        -VEL_LIMIT / 4 <= b.pre_solve_vel.0.x <= VEL_LIMIT / 4,
    ensures
        ({
            let r = solve_vel_bodies(a, b, n);
            let psnv = tdiv(
                dots(
                    a.pre_solve_vel.0.x - b.pre_solve_vel.0.x,
                    a.pre_solve_vel.0.y - b.pre_solve_vel.0.y,
                    n.x as int,
                    n.y as int,
                ),
                SCALE as int,
            );
            let nv2 = tdiv(
                dots(
                    r.0.vel.0.x - r.1.vel.0.x,
                    r.0.vel.0.y - r.1.vel.0.y,
                    n.x as int,
                    n.y as int,
                ),
                SCALE as int,
            );
            -psnv - 1 <= nv2 <= -psnv + 1
        }),
{
    let sg: int = if n.x == SCALE { 1 } else { -1 };
    assert(n.x as int == sg * SCALE) by (nonlinear_arith)
        requires (n.x == SCALE && sg == 1) || (n.x == -SCALE && sg == -1);
    let m = a.mass.0 as int;
    let dvx = a.vel.0.x - b.vel.0.x as int;
    let dpx = a.pre_solve_vel.0.x - b.pre_solve_vel.0.x as int;
    lemma_axis_normal_velocity(dvx, a.vel.0.y - b.vel.0.y as int, n.x as int, sg);
    lemma_axis_normal_velocity(dpx, a.pre_solve_vel.0.y - b.pre_solve_vel.0.y as int, n.x as int, sg);
    let nv = sg * dvx;
    let psnv = sg * dpx;
    lemma_tdiv_exact(SCALE as int, 2);
    assert(a.restitution.0 + b.restitution.0 == (SCALE as int) * 2);
    let e = tdiv(a.restitution.0 + b.restitution.0 as int, 2);
    assert(e * psnv == psnv * SCALE) by (nonlinear_arith)
        requires e == SCALE as int;
    lemma_tdiv_exact(psnv, SCALE as int);
    let jv = -nv + -psnv;
    let msum = a.mass.0 + b.mass.0 as int;
    let f = tdiv(jv * m, msum);
    assert(-VEL_LIMIT <= jv <= VEL_LIMIT) by (nonlinear_arith)
        requires (sg == 1 || sg == -1) && jv == -(sg * dvx) + -(sg * dpx) && -549_755_813_888
            <= dvx <= 549_755_813_888 && -549_755_813_888 <= dpx <= 549_755_813_888 && VEL_LIMIT
            == 1_099_511_627_776;
    crate::fx::lemma_scaled_share(jv, VEL_LIMIT as int, m, msum);
    crate::fx::lemma_tdiv_factor(jv * m, msum, VEL_LIMIT as int);
    lemma_tdiv_range(jv * m, msum);
    assert(2 * f - 1 <= jv <= 2 * f + 1) by (nonlinear_arith)
        requires
            msum == 2 * m && 1 <= m && ((jv * m >= 0 && msum * f <= jv * m < msum * f + msum) || (
            jv * m <= 0 && msum * f - msum < jv * m <= msum * f)),
    ;
    assert(n.x as int * f == (sg * f) * SCALE) by (nonlinear_arith)
        requires n.x as int == sg * SCALE && (sg == 1 || sg == -1);
    lemma_tdiv_exact(sg * f, SCALE as int);
    assert(fmul(n.x as int, f) == sg * f);
    assert(0 * f == 0 * SCALE) by (nonlinear_arith);
    lemma_tdiv_exact(0, SCALE as int);
    assert(fmul(n.y as int, f) == 0);
    let avx = a.vel.0.x + sg * f;
    let bvx = b.vel.0.x - sg * f;
    assert(-VEL_LIMIT <= avx <= VEL_LIMIT && -VEL_LIMIT <= bvx <= VEL_LIMIT) by (nonlinear_arith)
        requires
            (sg == 1 || sg == -1) && avx == a.vel.0.x + sg * f && bvx == b.vel.0.x - sg * f && 2 * f
                - 1 <= jv <= 2 * f + 1 && -1_099_511_627_776 <= jv <= 1_099_511_627_776
                && -274_877_906_944 <= a.vel.0.x <= 274_877_906_944 && -274_877_906_944 <= b.vel.0.x
                <= 274_877_906_944 && VEL_LIMIT == 1_099_511_627_776,
    ;
    let r = solve_vel_bodies(a, b, n);
    assert(r.0.vel.0.x as int == avx && r.1.vel.0.x as int == bvx);
    assert(r.0.vel.0.y == a.vel.0.y && r.1.vel.0.y == b.vel.0.y);
    lemma_axis_normal_velocity(
        r.0.vel.0.x - r.1.vel.0.x as int,
        r.0.vel.0.y - r.1.vel.0.y as int,
        n.x as int,
        sg,
    );
    assert(sg * (avx - bvx) == nv + 2 * f) by (nonlinear_arith)
        requires
            (sg == 1 || sg == -1) && avx == a.vel.0.x + sg * f && bvx == b.vel.0.x - sg * f && nv
                == sg * (a.vel.0.x - b.vel.0.x),
    ;
}

/// The broad-phase margin grows monotonically with speed: a pair kept at
/// some velocities is still kept when either body moves faster (same
/// positions and radii).
pub proof fn law_broad_margin_monotone(
    a: ParticleBundle,
    b: ParticleBundle,
    a2: ParticleBundle,
    b2: ParticleBundle,
    dt: int,
)
    requires
        body_valid(a),
        body_valid(b),
        1 <= dt,
        a2.pos == a.pos && a2.collider == a.collider,
        b2.pos == b.pos && b2.collider == b.collider,
        lsq(a.vel.0.x as int, a.vel.0.y as int) <= lsq(a2.vel.0.x as int, a2.vel.0.y as int),
        lsq(b.vel.0.x as int, b.vel.0.y as int) <= lsq(b2.vel.0.x as int, b2.vel.0.y as int),
        broad_hit(a, b, dt),
    ensures
        broad_hit(a2, b2, dt),
{
    let s2 = (SCALE as int) * (SCALE as int);
    assert(s2 >= 1) by (nonlinear_arith)
        requires s2 == (SCALE as int) * (SCALE as int) && SCALE == 1_000_000;
    let l1 = lsq(a.vel.0.x as int, a.vel.0.y as int) + lsq(b.vel.0.x as int, b.vel.0.y as int);
    let l2 = lsq(a2.vel.0.x as int, a2.vel.0.y as int) + lsq(b2.vel.0.x as int, b2.vel.0.y as int);
    lemma_square_nonneg(2 * dt);
    lemma_mul_inequality(l1, l2, (2 * dt) * (2 * dt));
    assert((2 * dt) * (2 * dt) * l1 <= (2 * dt) * (2 * dt) * l2) by (nonlinear_arith)
        requires l1 * ((2 * dt) * (2 * dt)) <= l2 * ((2 * dt) * (2 * dt));
    lemma_tdiv_mono((2 * dt) * (2 * dt) * l1, (2 * dt) * (2 * dt) * l2, s2);
    let m1 = margin_sqr(a, b, dt);
    let m2 = margin_sqr(a2, b2, dt);
    lemma_square_nonneg(a.vel.0.x as int);
    lemma_square_nonneg(a.vel.0.y as int);
    lemma_square_nonneg(b.vel.0.x as int);
    lemma_square_nonneg(b.vel.0.y as int);
    lemma_mul_nonnegative((2 * dt) * (2 * dt), l1);
    lemma_tdiv_range((2 * dt) * (2 * dt) * l1, s2);
    assert(0 <= m1 <= m2);
    lemma_sqrt_mono(m1, m2);
    let c1 = a.collider.radius + b.collider.radius + sqrt_f(m1);
    let c2 = a2.collider.radius + b2.collider.radius + sqrt_f(m2);
    lemma_sqrt_props(m1);
    assert(c1 * c1 <= c2 * c2) by (nonlinear_arith)
        requires 0 <= c1 <= c2;
}

/// Every kept pair of a row contains `(i, j)` if body `j` is a broad-phase
/// hit for body `i`.
proof fn lemma_collect_row_contains(bs: Seq<ParticleBundle>, dt: int, i: int, j: int, j0: int)
    requires
        0 <= i < bs.len(),
        0 <= j0 <= j < bs.len(),
        broad_hit(bs[i], bs[j], dt),
    ensures
        collect_row(bs, dt, i, j0).contains((i as usize, j as usize)),
    decreases j - j0,
{
    let p = (i as usize, j as usize);
    let row = collect_row(bs, dt, i, j0);
    if j0 == j {
        assert(row[0] == p);
        assert(row.contains(p));
    } else {
        lemma_collect_row_contains(bs, dt, i, j, j0 + 1);
        let rest = collect_row(bs, dt, i, j0 + 1);
        let k = choose|k: int| 0 <= k < rest.len() && rest[k] == p;
        if broad_hit(bs[i], bs[j0], dt) {
            assert(row[1 + k] == p);
            assert(row.contains(p));
        } else {
            assert(row.contains(p));
        }
    }
}

/// The collected pair list contains `(i, j)` whenever the broad test keeps
/// it.
proof fn lemma_collect_from_contains(bs: Seq<ParticleBundle>, dt: int, i: int, j: int, i0: int)
    requires
        0 <= i0 <= i,
        i < j < bs.len(),
        broad_hit(bs[i], bs[j], dt),
    ensures
        collect_from(bs, dt, i0).contains((i as usize, j as usize)),
    decreases i - i0,
{
    let p = (i as usize, j as usize);
    let whole = collect_from(bs, dt, i0);
    if i0 == i {
        lemma_collect_row_contains(bs, dt, i, j, i + 1);
        let row = collect_row(bs, dt, i, i + 1);
        let k = choose|k: int| 0 <= k < row.len() && row[k] == p;
        assert(whole[k] == p);
        assert(whole.contains(p));
    } else {
        lemma_collect_from_contains(bs, dt, i, j, i0 + 1);
        let rest = collect_from(bs, dt, i0 + 1);
        let k = choose|k: int| 0 <= k < rest.len() && rest[k] == p;
        let row = collect_row(bs, dt, i0, i0 + 1);
        assert(whole[row.len() + k] == p);
        assert(whole.contains(p));
    }
}

/// Bodies fast enough to tunnel are still caught: whenever the squared
/// center distance of two bodies is within the velocity-scaled squared
/// margin alone — as it is for any pair whose relative motion could cover
/// the gap in one tick — the pair appears in the candidate list, whatever
/// the radii.
pub proof fn law_broad_phase_tunneling(bs: Seq<ParticleBundle>, dt: int, i: int, j: int)
    requires
        bodies_valid(bs),
        1 <= dt,
        0 <= i < j < bs.len(),
        bs[i].collider.radius >= 1,
        bs[j].collider.radius >= 1,
        lsq(bs[j].pos.0.x - bs[i].pos.0.x, bs[j].pos.0.y - bs[i].pos.0.y) <= margin_sqr(
            bs[i],
            bs[j],
            dt,
        ),
    ensures
        collected_pairs(bs, dt).contains((i as usize, j as usize)),
{
    let a = bs[i];
    let b = bs[j];
    let msq = margin_sqr(a, b, dt);
    let dab = lsq(b.pos.0.x - a.pos.0.x, b.pos.0.y - a.pos.0.y);
    lemma_square_nonneg(b.pos.0.x - a.pos.0.x);
    lemma_square_nonneg(b.pos.0.y - a.pos.0.y);
    lemma_sqrt_props(msq);
    let m = sqrt_f(msq);
    let c = a.collider.radius + b.collider.radius + m;
    assert(dab < c * c) by (nonlinear_arith)
        requires
            dab <= msq && msq < (m + 1) * (m + 1) && c >= m + 2 && m >= 0,
    ;
    assert(broad_hit(a, b, dt));
    lemma_collect_from_contains(bs, dt, i, j, 0);
}

} // verus!
