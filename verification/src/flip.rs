//! Flip animator: a one-shot rotation about the vertical axis. The
//! angle advances by `speed * delta` each frame; at the half turn the
//! visible face swaps to the card's front exactly once (a latch), the
//! card's face-down bit clears and the horizontal scale flips sign to
//! undo the mirroring; at the full turn the rotation resets, the scale
//! turns positive and the animation detaches.

use vstd::prelude::*;

use crate::card::Card;
use crate::entity::{CardFace, EntityRec, Flipping};
use crate::geom::COORD_LIMIT;

verus! {

/// A quarter turn (pi / 2) in microradians: the face-swap point.
pub const HALF_TURN: i64 = 1_570_796;

/// A half turn (pi) in microradians: the animation's full extent.
pub const FULL_TURN: i64 = 3_141_593;

/// The flip rate a deck draw attaches: three half-turns (3 pi) per
/// second, in microradians per second.
pub const FLIP_SPEED: i64 = 9_424_778;

/// Bound on flip speeds and frame deltas.
pub const FLIP_RATE_LIMIT: i64 = 1_000_000_000;

/// Bound on accumulated flip progress.
pub const FLIP_PROGRESS_LIMIT: i64 = 1_000_000_000_000_000_000;

/// The bounds under which one entity's flip step is computed exactly.
pub open spec fn flip_entity_ok(e: EntityRec) -> bool {
    e.flipping is Some ==> {
        &&& 0 <= e.flipping->0.speed <= FLIP_RATE_LIMIT
        &&& 0 <= e.flipping->0.progress <= FLIP_PROGRESS_LIMIT
        &&& -COORD_LIMIT <= e.scale_x <= COORD_LIMIT
    }
}

/// An entity with an active flip after one frame of `delta_ms`
/// milliseconds.
pub open spec fn spec_flip_entity(e: EntityRec, delta_ms: int) -> EntityRec {
    let f = e.flipping->0;
    let progress = f.progress + f.speed * delta_ms / 1000;
    let swap = !f.flipped && progress >= HALF_TURN;
    let card2 = if swap {
        match e.card {
            Some(c) => Some(Card { rank: c.rank, suit: c.suit, flipped: false }),
            None => None,
        }
    } else {
        e.card
    };
    let face2 = if swap {
        CardFace::Front
    } else {
        e.face
    };
    let latch2 = f.flipped || swap;
    let scale2 = if swap {
        -(e.scale_x as int)
    } else {
        e.scale_x as int
    };
    if progress >= FULL_TURN {
        EntityRec {
            rotation: 0,
            scale_x: (if scale2 < 0 {
                -scale2
            } else {
                scale2
            }) as i64,
            card: card2,
            face: face2,
            flipping: None,
            ..e
        }
    } else {
        EntityRec {
            rotation: progress as i64,
            scale_x: scale2 as i64,
            card: card2,
            face: face2,
            flipping: Some(Flipping { speed: f.speed, flipped: latch2, progress: progress as i64 }),
            ..e
        }
    }
}

/// Once the latch is set, further frames never touch the face or the
/// card again: the swap happens exactly once however many frames sit
/// at or past the half-turn threshold.
pub proof fn lemma_flip_swaps_once(e: EntityRec, delta_ms: int)
    requires
        e.flipping is Some,
        e.flipping->0.flipped,
    ensures
        spec_flip_entity(e, delta_ms).face == e.face,
        spec_flip_entity(e, delta_ms).card == e.card,
{
}

/// Starting unlatched, a frame that reaches the half turn swaps the
/// face to the front, clears the card's face-down bit and mirrors the
/// scale; a following frame, whatever its delta, changes neither face
/// nor card again.
pub proof fn lemma_flip_two_frames(e: EntityRec, d1: int, d2: int)
    requires
        e.flipping is Some,
        !e.flipping->0.flipped,
        e.card is Some,
        e.flipping->0.progress + e.flipping->0.speed * d1 / 1000 >= HALF_TURN,
        e.flipping->0.progress + e.flipping->0.speed * d1 / 1000 < FULL_TURN,
    ensures
        ({
            let e1 = spec_flip_entity(e, d1);
            &&& e1.face == CardFace::Front
            &&& !e1.card->0.flipped
            &&& e1.flipping is Some && e1.flipping->0.flipped
            &&& spec_flip_entity(e1, d2).face == e1.face
            &&& spec_flip_entity(e1, d2).card == e1.card
        }),
{
    let e1 = spec_flip_entity(e, d1);
    lemma_flip_swaps_once(e1, d2);
}

/// A frame that reaches the full turn leaves the entity a plain static
/// card: identity rotation, nonnegative (and, for a nonzero scale,
/// strictly positive) horizontal scale, and no animation attached.
pub proof fn lemma_flip_completes(e: EntityRec, delta_ms: int)
    requires
        e.flipping is Some,
        e.flipping->0.progress + e.flipping->0.speed * delta_ms / 1000 >= FULL_TURN,
        -COORD_LIMIT <= e.scale_x <= COORD_LIMIT,
    ensures
        spec_flip_entity(e, delta_ms).rotation == 0,
        spec_flip_entity(e, delta_ms).flipping is None,
        spec_flip_entity(e, delta_ms).scale_x as int >= 0,
        e.scale_x != 0 ==> spec_flip_entity(e, delta_ms).scale_x as int > 0,
{
}

/// Flip pass: every entity carrying a flip animation advances one
/// frame as `spec_flip_entity` says; the rest of the arena is
/// untouched.
pub fn handle_flip(delta_ms: i64, arena: &mut Vec<EntityRec>)
    requires
        0 <= delta_ms <= FLIP_RATE_LIMIT,
        forall|i: int| 0 <= i < old(arena)@.len() ==> flip_entity_ok(#[trigger] old(arena)@[i]),
    ensures
        final(arena)@.len() == old(arena)@.len(),
        forall|i: int|
            0 <= i < old(arena)@.len() ==> final(arena)@[i] == if (#[trigger] old(
                arena,
            )@[i]).flipping is Some {
                spec_flip_entity(old(arena)@[i], delta_ms as int)
            } else {
                old(arena)@[i]
            },
{
    let n = arena.len();
    let mut k: usize = 0;
    while k < n
        invariant
            n == arena@.len(),
            n == old(arena)@.len(),
            k <= n,
            0 <= delta_ms <= FLIP_RATE_LIMIT,
            forall|i: int| 0 <= i < n as int ==> flip_entity_ok(#[trigger] old(arena)@[i]),
            forall|i: int| k as int <= i < n as int ==> arena@[i] == old(arena)@[i],
            forall|i: int|
                0 <= i < k as int ==> arena@[i] == if (#[trigger] old(arena)@[i]).flipping
                    is Some {
                    spec_flip_entity(old(arena)@[i], delta_ms as int)
                } else {
                    old(arena)@[i]
                },
        decreases n - k as int,
    {
        let e = arena[k];
        match e.flipping {
            Some(f) => {
                let mut e2 = e;
                proof {
                    assert(0 <= f.speed as int * (delta_ms as int) <= FLIP_RATE_LIMIT
                        * FLIP_RATE_LIMIT) by (nonlinear_arith)
                        requires
                            0 <= f.speed as int <= FLIP_RATE_LIMIT,
                            0 <= delta_ms as int <= FLIP_RATE_LIMIT,
                    ;
                }
                let dp = f.speed * delta_ms / 1000;
                let progress = f.progress + dp;
                e2.rotation = progress;
                let mut latch = f.flipped;
                if !f.flipped && progress >= HALF_TURN {
                    match e.card {
                        Some(c) => {
                            e2.card = Some(Card { rank: c.rank, suit: c.suit, flipped: false });
                        },
                        None => {},
                    }
                    e2.face = CardFace::Front;
                    latch = true;
                    e2.scale_x = -e2.scale_x;
                }
                if progress >= FULL_TURN {
                    e2.rotation = 0;
                    e2.scale_x = if e2.scale_x < 0 {
                        -e2.scale_x
                    } else {
                        e2.scale_x
                    };
                    e2.flipping = None;
                } else {
                    e2.flipping = Some(Flipping { speed: f.speed, flipped: latch, progress });
                }
                arena[k] = e2;
                proof {
                    assert(arena@[k as int] == spec_flip_entity(
                        old(arena)@[k as int],
                        delta_ms as int,
                    ));
                }
            },
            None => {},
        }
        k = k + 1;
    }
}

} // verus!
