//! Broad-phase collision detection: an all-pairs scan over the dynamic
//! bodies that keeps every pair whose circles, grown by a velocity-scaled
//! safety margin, might touch.  The exact test happens later in the
//! positional solver; this phase only has to be conservative.

use crate::entity::{body_valid, ParticleBundle};
use crate::fx::{
    lemma_mul_abs_bound, lemma_square_nonneg, lemma_tdiv_range, lsq, sqrt_f, tdiv, tdiv_i,
    isqrt_i, POS_LIMIT, SCALE, VEL_LIMIT,
};
use crate::resources::CollisionPairs;
use vstd::arithmetic::mul::lemma_mul_nonnegative;
use vstd::prelude::*;

verus! {

/// The squared safety margin for a pair: `(2 dt)^2 (|v_a|^2 + |v_b|^2)`,
/// rescaled into squared raw units.  Faster pairs get a larger margin, a
/// cheap stand-in for continuous collision detection.
pub open spec fn margin_sqr(a: ParticleBundle, b: ParticleBundle, dt: int) -> int {
    tdiv(
        (2 * dt) * (2 * dt) * (lsq(a.vel.0.x as int, a.vel.0.y as int) + lsq(
            b.vel.0.x as int,
            b.vel.0.y as int,
        )),
        (SCALE as int) * (SCALE as int),
    )
}

/// Does the broad phase keep the pair `(a, b)`?  True when the squared
/// center distance is below the square of the combined radius grown by the
/// margin.
pub open spec fn broad_hit(a: ParticleBundle, b: ParticleBundle, dt: int) -> bool {
    let c = a.collider.radius + b.collider.radius + sqrt_f(margin_sqr(a, b, dt));
    lsq(b.pos.0.x - a.pos.0.x, b.pos.0.y - a.pos.0.y) < c * c
}

/// The kept pairs `(i, j)` of one row `i`, for partners `j` and up.
pub open spec fn collect_row(bs: Seq<ParticleBundle>, dt: int, i: int, j: int) -> Seq<
    (usize, usize),
>
    decreases bs.len() - j,
{
    if j < 0 || j >= bs.len() {
        Seq::empty()
    } else {
        let rest = collect_row(bs, dt, i, j + 1);
        if 0 <= i < bs.len() && broad_hit(bs[i], bs[j], dt) {
            seq![(i as usize, j as usize)] + rest
        } else {
            rest
        }
    }
}

/// All kept pairs from row `i` on, in row-major order.
pub open spec fn collect_from(bs: Seq<ParticleBundle>, dt: int, i: int) -> Seq<(usize, usize)>
    decreases bs.len() - i,
{
    if i < 0 || i >= bs.len() {
        Seq::empty()
    } else {
        collect_row(bs, dt, i, i + 1) + collect_from(bs, dt, i + 1)
    }
}

/// Every candidate pair of the body set, each unordered pair appearing at
/// most once, smaller index first.
pub open spec fn collected_pairs(bs: Seq<ParticleBundle>, dt: int) -> Seq<(usize, usize)> {
    collect_from(bs, dt, 0)
}

/// Replace the pair list with the candidate pairs of the current body set.
pub fn collect_collision_pairs(
    bodies: &Vec<ParticleBundle>,
    dt: i64,
    collision_pairs: &mut CollisionPairs,
)
    requires
        forall|i: int| 0 <= i < bodies@.len() ==> body_valid(#[trigger] bodies@[i]),
        1 <= dt <= SCALE,
    ensures
        final(collision_pairs).0@ == collected_pairs(bodies@, dt as int),
        forall|k: int| 0 <= k < final(collision_pairs).0@.len() ==> (
        #[trigger] final(collision_pairs).0@[k]).0 < final(collision_pairs).0@[k].1
            && final(collision_pairs).0@[k].1 < bodies@.len(),
{
    collision_pairs.0.clear();
    let n = bodies.len();
    let mut i: usize = 0;
    while i < n
        invariant
            n == bodies@.len(),
            0 <= i <= n,
            forall|k: int| 0 <= k < bodies@.len() ==> body_valid(#[trigger] bodies@[k]),
            1 <= dt <= SCALE,
            collision_pairs.0@ + collect_from(bodies@, dt as int, i as int) == collected_pairs(
                bodies@,
                dt as int,
            ),
            forall|k: int| 0 <= k < collision_pairs.0@.len() ==> (
            #[trigger] collision_pairs.0@[k]).0 < collision_pairs.0@[k].1
                && collision_pairs.0@[k].1 < n,
        decreases n - i,
    {
        let ghost row_start = collision_pairs.0@;
        let a = bodies[i];
        let mut j: usize = i + 1;
        while j < n
            invariant
                n == bodies@.len(),
                0 <= i < n,
                i < j <= n,
                a == bodies@[i as int],
                forall|k: int| 0 <= k < bodies@.len() ==> body_valid(#[trigger] bodies@[k]),
                1 <= dt <= SCALE,
                collision_pairs.0@ + collect_row(bodies@, dt as int, i as int, j as int)
                    == row_start + collect_row(bodies@, dt as int, i as int, i as int + 1),
                forall|k: int| 0 <= k < collision_pairs.0@.len() ==> (
                #[trigger] collision_pairs.0@[k]).0 < collision_pairs.0@[k].1
                    && collision_pairs.0@[k].1 < n,
            decreases n - j,
        {
            let b = bodies[j];
            proof {
                assert(body_valid(a));
                assert(body_valid(b));
                lemma_mul_abs_bound(a.vel.0.x as int, VEL_LIMIT as int, a.vel.0.x as int, VEL_LIMIT as int);
                lemma_mul_abs_bound(a.vel.0.y as int, VEL_LIMIT as int, a.vel.0.y as int, VEL_LIMIT as int);
                lemma_mul_abs_bound(b.vel.0.x as int, VEL_LIMIT as int, b.vel.0.x as int, VEL_LIMIT as int);
                lemma_mul_abs_bound(b.vel.0.y as int, VEL_LIMIT as int, b.vel.0.y as int, VEL_LIMIT as int);
            }
            let lv = (a.vel.0.x as i128) * (a.vel.0.x as i128) + (a.vel.0.y as i128) * (a.vel.0.y
                as i128) + (b.vel.0.x as i128) * (b.vel.0.x as i128) + (b.vel.0.y as i128) * (b.vel.0.y
                as i128);
            proof {
                lemma_square_nonneg(a.vel.0.x as int);
                lemma_square_nonneg(a.vel.0.y as int);
                lemma_square_nonneg(b.vel.0.x as int);
                lemma_square_nonneg(b.vel.0.y as int);
            }
            let dt2 = 2 * (dt as i128);
            proof {
                lemma_mul_abs_bound(dt2 as int, 2 * SCALE as int, dt2 as int, 2 * SCALE as int);
                lemma_square_nonneg(dt2 as int);
                lemma_mul_abs_bound(
                    (dt2 * dt2) as int,
                    4 * (SCALE as int) * (SCALE as int),
                    lv as int,
                    4 * (VEL_LIMIT as int) * (VEL_LIMIT as int),
                );
                lemma_mul_nonnegative((dt2 * dt2) as int, lv as int);
                lemma_tdiv_range((dt2 * dt2 * lv) as int, (SCALE as int) * (SCALE as int));
            }
            let msq = tdiv_i(dt2 * dt2 * lv, (SCALE as i128) * (SCALE as i128));
            let m = isqrt_i(msq);
            proof {
                crate::fx::lemma_sqrt_lt(msq as int, 3_000_000_000_000_000);
            }
            let c = (a.collider.radius as i128) + (b.collider.radius as i128) + m;
            let dx = (b.pos.0.x as i128) - (a.pos.0.x as i128);
            let dy = (b.pos.0.y as i128) - (a.pos.0.y as i128);
            proof {
                lemma_mul_abs_bound(dx as int, 2 * POS_LIMIT as int, dx as int, 2 * POS_LIMIT as int);
                lemma_mul_abs_bound(dy as int, 2 * POS_LIMIT as int, dy as int, 2 * POS_LIMIT as int);
                lemma_mul_abs_bound(
                    c as int,
                    2 * POS_LIMIT as int + 3_000_000_000_000_000,
                    c as int,
                    2 * POS_LIMIT as int + 3_000_000_000_000_000,
                );
            }
            let hit = dx * dx + dy * dy < c * c;
            proof {
                assert(msq as int == margin_sqr(a, b, dt as int));
                assert(hit == broad_hit(a, b, dt as int));
                assert(collect_row(bodies@, dt as int, i as int, j as int) == (
                    if broad_hit(bodies@[i as int], bodies@[j as int], dt as int) {
                        seq![(i, j)] + collect_row(bodies@, dt as int, i as int, j as int + 1)
                    } else {
                        collect_row(bodies@, dt as int, i as int, j as int + 1)
                    }
                ));
            }
            let ghost before = collision_pairs.0@;
            if hit {
                collision_pairs.0.push((i, j));
                proof {
                    assert(collision_pairs.0@ + collect_row(bodies@, dt as int, i as int, j as int + 1)
                        =~= before + collect_row(bodies@, dt as int, i as int, j as int));
                }
            }
            proof {
                assert(collision_pairs.0@ + collect_row(bodies@, dt as int, i as int, j as int + 1)
                    == row_start + collect_row(bodies@, dt as int, i as int, i as int + 1));
            }
            j = j + 1;
        }
        proof {
            assert(collect_row(bodies@, dt as int, i as int, n as int) =~= Seq::<
                (usize, usize),
            >::empty());
            assert(collision_pairs.0@ =~= row_start + collect_row(
                bodies@,
                dt as int,
                i as int,
                i as int + 1,
            ));
            assert(collect_from(bodies@, dt as int, i as int) == collect_row(
                bodies@,
                dt as int,
                i as int,
                i as int + 1,
            ) + collect_from(bodies@, dt as int, i as int + 1));
            assert(collision_pairs.0@ + collect_from(bodies@, dt as int, i as int + 1)
                =~= collected_pairs(bodies@, dt as int));
        }
        i = i + 1;
    }
    proof {
        assert(collect_from(bodies@, dt as int, n as int) =~= Seq::<(usize, usize)>::empty());
        assert(collision_pairs.0@ =~= collected_pairs(bodies@, dt as int));
    }
}

} // verus!
