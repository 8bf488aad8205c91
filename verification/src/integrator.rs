//! Symplectic Euler integration, and the velocity re-derivation that folds
//! positional corrections back into velocity after the solvers have run.

use crate::entity::{body_valid, ParticleBundle};
use crate::components::{Pos, PreSolveVel, PrevPos, Velocity};
use crate::fx::{
    fmul, lemma_mul_abs_bound, lemma_tdiv_factor, sat, sat_i, tdiv, tdiv_i, vec_ok, Vec2,
    POS_LIMIT, SCALE, VEL_LIMIT,
};
use crate::resources::Gravity;
use vstd::prelude::*;

verus! {

/// One integration step of a single body: gravity accelerates the velocity,
/// the velocity advances the position, and both the pre-step position and
/// the post-step velocity are snapshotted for the later passes.
pub open spec fn integrated_body(b: ParticleBundle, g: Vec2, dt: int) -> ParticleBundle {
    let vx = sat(b.vel.0.x + fmul(g.x as int, dt), VEL_LIMIT as int);
    let vy = sat(b.vel.0.y + fmul(g.y as int, dt), VEL_LIMIT as int);
    let px = sat(b.pos.0.x + fmul(vx, dt), POS_LIMIT as int);
    let py = sat(b.pos.0.y + fmul(vy, dt), POS_LIMIT as int);
    ParticleBundle {
        pos: Pos(Vec2 { x: px as i64, y: py as i64 }),
        prev_pos: PrevPos(b.pos.0),
        vel: Velocity(Vec2 { x: vx as i64, y: vy as i64 }),
        pre_solve_vel: PreSolveVel(Vec2 { x: vx as i64, y: vy as i64 }),
        ..b
    }
}

/// The whole body set after integration.
pub open spec fn integrated_all(bs: Seq<ParticleBundle>, g: Vec2, dt: int) -> Seq<ParticleBundle> {
    bs.map_values(|b: ParticleBundle| integrated_body(b, g, dt))
}

/// `sat`-clamped values stay valid and integration touches nothing else.
pub proof fn lemma_integrated_body_valid(b: ParticleBundle, g: Vec2, dt: int)
    requires
        body_valid(b),
    ensures
        body_valid(integrated_body(b, g, dt)),
{
}

/// Advance every dynamic body by one timestep of gravity and drift.
pub fn integrate(bodies: &mut Vec<ParticleBundle>, gravity: &Gravity, dt: i64)
    requires
        forall|i: int| 0 <= i < old(bodies)@.len() ==> body_valid(#[trigger] old(bodies)@[i]),
        vec_ok(gravity.0, VEL_LIMIT as int),
        1 <= dt <= SCALE,
    ensures
        final(bodies)@ == integrated_all(old(bodies)@, gravity.0, dt as int),
        forall|i: int| 0 <= i < final(bodies)@.len() ==> body_valid(#[trigger] final(bodies)@[i]),
{
    let n = bodies.len();
    let mut k: usize = 0;
    while k < n
        invariant
            n == bodies@.len() == old(bodies)@.len(),
            0 <= k <= n,
            forall|i: int| 0 <= i < old(bodies)@.len() ==> body_valid(#[trigger] old(bodies)@[i]),
            vec_ok(gravity.0, VEL_LIMIT as int),
            1 <= dt <= SCALE,
            forall|j: int| 0 <= j < k ==> bodies@[j] == integrated_body(
                #[trigger] old(bodies)@[j],
                gravity.0,
                dt as int,
            ),
            forall|j: int| k <= j < n ==> bodies@[j] == #[trigger] old(bodies)@[j],
        decreases n - k,
    {
        let b = bodies[k];
        proof {
            assert(b == old(bodies)@[k as int]);
            assert(body_valid(b));
            lemma_mul_abs_bound(gravity.0.x as int, VEL_LIMIT as int, dt as int, SCALE as int);
            lemma_mul_abs_bound(gravity.0.y as int, VEL_LIMIT as int, dt as int, SCALE as int);
            lemma_tdiv_factor(gravity.0.x as int * dt as int, SCALE as int, VEL_LIMIT as int);
            lemma_tdiv_factor(gravity.0.y as int * dt as int, SCALE as int, VEL_LIMIT as int);
        }
        let vx = sat_i(
            b.vel.0.x as i128 + tdiv_i((gravity.0.x as i128) * (dt as i128), SCALE as i128),
            VEL_LIMIT,
        );
        let vy = sat_i(
            b.vel.0.y as i128 + tdiv_i((gravity.0.y as i128) * (dt as i128), SCALE as i128),
            VEL_LIMIT,
        );
        proof {
            lemma_mul_abs_bound(vx as int, VEL_LIMIT as int, dt as int, SCALE as int);
            lemma_mul_abs_bound(vy as int, VEL_LIMIT as int, dt as int, SCALE as int);
            lemma_tdiv_factor(vx as int * dt as int, SCALE as int, VEL_LIMIT as int);
            lemma_tdiv_factor(vy as int * dt as int, SCALE as int, VEL_LIMIT as int);
        }
        let px = sat_i(
            b.pos.0.x as i128 + tdiv_i((vx as i128) * (dt as i128), SCALE as i128),
            POS_LIMIT,
        );
        let py = sat_i(
            b.pos.0.y as i128 + tdiv_i((vy as i128) * (dt as i128), SCALE as i128),
            POS_LIMIT,
        );
        let updated = ParticleBundle {
            pos: Pos(Vec2 { x: px, y: py }),
            prev_pos: PrevPos(b.pos.0),
            vel: Velocity(Vec2 { x: vx, y: vy }),
            pre_solve_vel: PreSolveVel(Vec2 { x: vx, y: vy }),
            ..b
        };
        proof {
            assert(updated == integrated_body(b, gravity.0, dt as int));
        }
        bodies[k] = updated;
        k = k + 1;
    }
    proof {
        assert(bodies@ =~= integrated_all(old(bodies)@, gravity.0, dt as int));
    }
}

/// One velocity re-derivation: the new velocity is the position delta over
/// the tick, divided by the timestep.
pub open spec fn rederived_body(b: ParticleBundle, dt: int) -> ParticleBundle {
    let vx = sat(tdiv((b.pos.0.x - b.prev_pos.0.x) * SCALE, dt), VEL_LIMIT as int);
    let vy = sat(tdiv((b.pos.0.y - b.prev_pos.0.y) * SCALE, dt), VEL_LIMIT as int);
    ParticleBundle { vel: Velocity(Vec2 { x: vx as i64, y: vy as i64 }), ..b }
}

/// The whole body set after velocity re-derivation.
pub open spec fn rederived_all(bs: Seq<ParticleBundle>, dt: int) -> Seq<ParticleBundle> {
    bs.map_values(|b: ParticleBundle| rederived_body(b, dt))
}

/// Derive every dynamic body's velocity from the distance it actually
/// travelled this tick, positional corrections included.
pub fn update_velocity(bodies: &mut Vec<ParticleBundle>, dt: i64)
    requires
        forall|i: int| 0 <= i < old(bodies)@.len() ==> body_valid(#[trigger] old(bodies)@[i]),
        1 <= dt <= SCALE,
    ensures
        final(bodies)@ == rederived_all(old(bodies)@, dt as int),
        forall|i: int| 0 <= i < final(bodies)@.len() ==> body_valid(#[trigger] final(bodies)@[i]),
{
    let n = bodies.len();
    let mut k: usize = 0;
    while k < n
        invariant
            n == bodies@.len() == old(bodies)@.len(),
            0 <= k <= n,
            forall|i: int| 0 <= i < old(bodies)@.len() ==> body_valid(#[trigger] old(bodies)@[i]),
            1 <= dt <= SCALE,
            forall|j: int| 0 <= j < k ==> bodies@[j] == rederived_body(
                #[trigger] old(bodies)@[j],
                dt as int,
            ),
            forall|j: int| k <= j < n ==> bodies@[j] == #[trigger] old(bodies)@[j],
        decreases n - k,
    {
        let b = bodies[k];
        proof {
            assert(b == old(bodies)@[k as int]);
            assert(body_valid(b));
            lemma_mul_abs_bound(
                b.pos.0.x - b.prev_pos.0.x,
                2 * POS_LIMIT as int,
                SCALE as int,
                SCALE as int,
            );
            lemma_mul_abs_bound(
                b.pos.0.y - b.prev_pos.0.y,
                2 * POS_LIMIT as int,
                SCALE as int,
                SCALE as int,
            );
        }
        let vx = sat_i(
            tdiv_i((b.pos.0.x as i128 - b.prev_pos.0.x as i128) * (SCALE as i128), dt as i128),
            VEL_LIMIT,
        );
        let vy = sat_i(
            tdiv_i((b.pos.0.y as i128 - b.prev_pos.0.y as i128) * (SCALE as i128), dt as i128),
            VEL_LIMIT,
        );
        let updated = ParticleBundle { vel: Velocity(Vec2 { x: vx, y: vy }), ..b };
        proof {
            assert(updated == rederived_body(b, dt as int));
        }
        bodies[k] = updated;
        k = k + 1;
    }
    proof {
        assert(bodies@ =~= rederived_all(old(bodies)@, dt as int));
    }
}

} // verus!
