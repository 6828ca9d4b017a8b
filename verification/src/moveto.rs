//! Move animator: each frame an entity with an active move advances
//! toward its target by `direction / |direction| * speed * delta`,
//! and snaps exactly onto the target (shedding the animation) once the
//! remaining distance drops below a fixed threshold of 10 world units.

use vstd::prelude::*;

use vstd::arithmetic::div_mod::{
    lemma_div_denominator, lemma_div_is_ordered, lemma_div_multiples_vanish,
    lemma_div_nonincreasing,
};
use vstd::arithmetic::mul::{lemma_mul_inequality, lemma_mul_nonnegative};

use crate::entity::EntityRec;
use crate::geom::{is_sqrt, isqrt64, lemma_sqrt_at_least, spec_sqrt, Vec3i};

verus! {

/// Coordinate bound within which the move animation's arithmetic is
/// exact; positions, targets, speeds and frame deltas all stay inside
/// it.
pub const MOVE_LIMIT: i64 = 1_000_000_000;

/// Squared distance below which a moving entity snaps onto its target:
/// 10 world units.
pub const SNAP_DISTANCE_SQ: i64 = 100;

/// The squared distance between two points.
pub open spec fn spec_dist_sq(p: Vec3i, t: Vec3i) -> int {
    (t.x - p.x) * (t.x - p.x) + (t.y - p.y) * (t.y - p.y) + (t.z - p.z) * (t.z - p.z)
}

/// One axis of the move step: the axis difference scaled by
/// `speed * delta_ms / 1000` and divided by the current distance,
/// rounded toward zero.
pub open spec fn spec_step(d: int, speed: int, delta_ms: int, dist: int) -> int {
    if d >= 0 {
        d * speed * delta_ms / (1000 * dist)
    } else {
        -((-d) * speed * delta_ms / (1000 * dist))
    }
}

/// The bounds under which one entity's move step is computed exactly.
pub open spec fn move_entity_ok(e: EntityRec) -> bool {
    e.move_to is Some ==> {
        &&& -MOVE_LIMIT <= e.pos.x <= MOVE_LIMIT
        &&& -MOVE_LIMIT <= e.pos.y <= MOVE_LIMIT
        &&& -MOVE_LIMIT <= e.pos.z <= MOVE_LIMIT
        &&& -MOVE_LIMIT <= e.move_to->0.target.x <= MOVE_LIMIT
        &&& -MOVE_LIMIT <= e.move_to->0.target.y <= MOVE_LIMIT
        &&& -MOVE_LIMIT <= e.move_to->0.target.z <= MOVE_LIMIT
        &&& 0 <= e.move_to->0.speed <= MOVE_LIMIT
    }
}

/// An entity with an active move after one frame of `delta_ms`
/// milliseconds: within the snap threshold it lands exactly on the
/// target and the animation is removed; otherwise each coordinate
/// advances by its `spec_step` along the straight line to the target.
pub open spec fn spec_move_entity(e: EntityRec, delta_ms: int) -> EntityRec {
    let m = e.move_to->0;
    let n = spec_dist_sq(e.pos, m.target);
    if n < SNAP_DISTANCE_SQ {
        EntityRec { pos: m.target, move_to: None, ..e }
    } else {
        let dist = spec_sqrt(n as nat) as int;
        EntityRec {
            pos: Vec3i {
                x: (e.pos.x + spec_step(m.target.x - e.pos.x, m.speed as int, delta_ms, dist))
                    as i64,
                y: (e.pos.y + spec_step(m.target.y - e.pos.y, m.speed as int, delta_ms, dist))
                    as i64,
                z: (e.pos.z + spec_step(m.target.z - e.pos.z, m.speed as int, delta_ms, dist))
                    as i64,
            },
            ..e
        }
    }
}

/// One axis of the move step, exactly `spec_step`; `dist` must dominate
/// the axis difference, as the full distance always does.
fn step_axis(d: i64, speed: i64, delta_ms: i64, dist: u64) -> (r: i64)
    requires
        -2 * MOVE_LIMIT <= d <= 2 * MOVE_LIMIT,
        0 <= speed <= MOVE_LIMIT,
        0 <= delta_ms <= MOVE_LIMIT,
        dist >= 1,
        d >= 0 ==> d <= dist,
        d < 0 ==> -d <= dist,
    ensures
        r as int == spec_step(d as int, speed as int, delta_ms as int, dist as int),
        -MOVE_LIMIT * MOVE_LIMIT <= r as int <= MOVE_LIMIT * MOVE_LIMIT,
{
    let du: u128 = if d >= 0 {
        d as u128
    } else {
        (-d) as u128
    };
    proof {
        assert(du as int * (speed as int) <= 2 * MOVE_LIMIT * MOVE_LIMIT && du as int * (
        speed as int) >= 0) by (nonlinear_arith)
            requires
                0 <= du as int <= 2 * MOVE_LIMIT,
                0 <= speed as int <= MOVE_LIMIT,
        ;
    }
    let p1: u128 = du * (speed as u128);
    proof {
        assert(p1 as int * (delta_ms as int) <= 2 * MOVE_LIMIT * MOVE_LIMIT * MOVE_LIMIT && p1
            as int * (delta_ms as int) >= 0) by (nonlinear_arith)
            requires
                0 <= p1 as int <= 2 * MOVE_LIMIT * MOVE_LIMIT,
                0 <= delta_ms as int <= MOVE_LIMIT,
        ;
    }
    let num: u128 = p1 * (delta_ms as u128);
    let den: u128 = 1000u128 * (dist as u128);
    let q: u128 = num / den;
    proof {
        let dui = du as int;
        let si = speed as int;
        let dli = delta_ms as int;
        let disti = dist as int;
        let z = si * dli;
        lemma_mul_nonnegative(si, dli);
        lemma_mul_nonnegative(disti, z);
        lemma_mul_inequality(dui, disti, z);
        assert(num as int == dui * z) by (nonlinear_arith)
            requires
                num as int == (dui * si) * dli,
                z == si * dli,
        ;
        lemma_div_is_ordered(dui * z, disti * z, 1000 * disti);
        lemma_div_denominator(disti * z, disti, 1000);
        lemma_div_multiples_vanish(z, disti);
        assert(disti * 1000 == 1000 * disti);
        assert(q as int <= z / 1000);
        lemma_div_nonincreasing(z, 1000);
        assert(z <= MOVE_LIMIT * MOVE_LIMIT) by (nonlinear_arith)
            requires
                0 <= si <= MOVE_LIMIT,
                0 <= dli <= MOVE_LIMIT,
                z == si * dli,
        ;
        assert(q as int <= MOVE_LIMIT * MOVE_LIMIT);
        assert(dui * si * dli == dui * z) by (nonlinear_arith)
            requires
                z == si * dli,
        ;
        assert(q as int == dui * si * dli / (1000 * disti));
    }
    let q64 = q as i64;
    if d >= 0 {
        q64
    } else {
        -q64
    }
}

/// Move pass: every entity carrying a move animation advances one
/// frame as `spec_move_entity` says; the rest of the arena is
/// untouched.
pub fn handle_move_to(delta_ms: i64, arena: &mut Vec<EntityRec>)
    requires
        0 <= delta_ms <= MOVE_LIMIT,
        forall|i: int| 0 <= i < old(arena)@.len() ==> move_entity_ok(#[trigger] old(arena)@[i]),
    ensures
        final(arena)@.len() == old(arena)@.len(),
        forall|i: int|
            0 <= i < old(arena)@.len() ==> final(arena)@[i] == if (#[trigger] old(
                arena,
            )@[i]).move_to is Some {
                spec_move_entity(old(arena)@[i], delta_ms as int)
            } else {
                old(arena)@[i]
            },
{
    let n = arena.len();
    let mut k: usize = 0;
    while k < n
        invariant
            n == arena@.len(),
            n == old(arena)@.len(),
            k <= n,
            0 <= delta_ms <= MOVE_LIMIT,
            forall|i: int| 0 <= i < n as int ==> move_entity_ok(#[trigger] old(arena)@[i]),
            forall|i: int| k as int <= i < n as int ==> arena@[i] == old(arena)@[i],
            forall|i: int|
                0 <= i < k as int ==> arena@[i] == if (#[trigger] old(arena)@[i]).move_to
                    is Some {
                    spec_move_entity(old(arena)@[i], delta_ms as int)
                } else {
                    old(arena)@[i]
                },
        decreases n - k as int,
    {
        let mut e = arena[k];
        match e.move_to {
            Some(m) => {
                let dx = m.target.x - e.pos.x;
                let dy = m.target.y - e.pos.y;
                let dz = m.target.z - e.pos.z;
                proof {
                    assert(dx as int * dx as int <= 4 * MOVE_LIMIT * MOVE_LIMIT
                        && dx as int * dx as int >= 0) by (nonlinear_arith)
                        requires
                            -2 * MOVE_LIMIT <= dx as int <= 2 * MOVE_LIMIT,
                    ;
                    assert(dy as int * dy as int <= 4 * MOVE_LIMIT * MOVE_LIMIT
                        && dy as int * dy as int >= 0) by (nonlinear_arith)
                        requires
                            -2 * MOVE_LIMIT <= dy as int <= 2 * MOVE_LIMIT,
                    ;
                    assert(dz as int * dz as int <= 4 * MOVE_LIMIT * MOVE_LIMIT
                        && dz as int * dz as int >= 0) by (nonlinear_arith)
                        requires
                            -2 * MOVE_LIMIT <= dz as int <= 2 * MOVE_LIMIT,
                    ;
                }
                let nsq_wide: u128 = ((dx as i128 * dx as i128) + (dy as i128 * dy as i128) + (
                dz as i128 * dz as i128)) as u128;
                let ghost nsq = spec_dist_sq(e.pos, m.target);
                if nsq_wide < SNAP_DISTANCE_SQ as u128 {
                    e.pos = m.target;
                    e.move_to = None;
                    arena[k] = e;
                } else {
                    let dist = isqrt64(nsq_wide as u64);
                    proof {
                        assert(is_sqrt(nsq as nat, dist as nat));
                        lemma_sqrt_at_least(nsq as nat, 1);
                        if dx >= 0 {
                            lemma_sqrt_at_least(nsq as nat, dx as nat);
                        } else {
                            assert((-(dx as int)) * (-(dx as int)) == dx as int * dx as int)
                                by (nonlinear_arith);
                            lemma_sqrt_at_least(nsq as nat, (-(dx as int)) as nat);
                        }
                        if dy >= 0 {
                            lemma_sqrt_at_least(nsq as nat, dy as nat);
                        } else {
                            assert((-(dy as int)) * (-(dy as int)) == dy as int * dy as int)
                                by (nonlinear_arith);
                            lemma_sqrt_at_least(nsq as nat, (-(dy as int)) as nat);
                        }
                        if dz >= 0 {
                            lemma_sqrt_at_least(nsq as nat, dz as nat);
                        } else {
                            assert((-(dz as int)) * (-(dz as int)) == dz as int * dz as int)
                                by (nonlinear_arith);
                            lemma_sqrt_at_least(nsq as nat, (-(dz as int)) as nat);
                        }
                    }
                    let sx = step_axis(dx, m.speed, delta_ms, dist);
                    let sy = step_axis(dy, m.speed, delta_ms, dist);
                    let sz = step_axis(dz, m.speed, delta_ms, dist);
                    e.pos.x = e.pos.x + sx;
                    e.pos.y = e.pos.y + sy;
                    e.pos.z = e.pos.z + sz;
                    arena[k] = e;
                    proof {
                        assert(arena@[k as int] == spec_move_entity(
                            old(arena)@[k as int],
                            delta_ms as int,
                        ));
                    }
                }
            },
            None => {},
        }
        k = k + 1;
    }
}

} // verus!
