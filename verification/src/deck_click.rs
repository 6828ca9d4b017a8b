//! Deck-click interaction. On a press edge, either reset the deck
//! (deck empty, waste non-empty): every waste entity relocates to the
//! deck anchor with inverted depth order, turns face-down and loses its
//! draw tags; or draw the top card: the hovered stock entity whose card
//! is the deck's logical top moves and flips to the waste, at most one
//! per click.

use vstd::prelude::*;

use crate::card::Card;
use crate::deck::{spec_draw, Deck};
use crate::entity::{
    arena_dims_ok, deck_card_filter, draw_card_filter, Cursor, EntityRec, Flipping,
    HoverExitEvent, HoverState, MoveTo,
};
use crate::flip::FLIP_SPEED;
use crate::geom::{in_region, size_ok, spec_in_region, vec3_ok, Vec2i, Vec3i, COORD_LIMIT};

verus! {

/// The rate, in world units per second, at which a drawn card travels
/// to the waste slot.
pub const DRAW_MOVE_SPEED: i64 = 400;

/// A waste entity as the deck reset leaves it: back at the deck anchor,
/// its depth inverted against the waste count so the relative order
/// flips, face-down again, a stock card once more (no draw tag, no move
/// animation, not draggable).
pub open spec fn spec_reset_entity(e: EntityRec, deck_position: Vec3i, drawn_len: int)
    -> EntityRec {
    EntityRec {
        pos: Vec3i { x: deck_position.x, y: deck_position.y, z: (drawn_len - e.pos.z) as i64 },
        deck_pos: true,
        draw_pos: false,
        draggable: false,
        move_to: None,
        card: match e.card {
            Some(c) => Some(Card { rank: c.rank, suit: c.suit, flipped: true }),
            None => None,
        },
        face: crate::entity::CardFace::Back,
        ..e
    }
}

/// A stock entity eligible for the draw click: hovered, and showing the
/// deck's logical top card.
pub open spec fn draw_click_candidate(e: EntityRec, top: Card) -> bool {
    deck_card_filter(e) && e.hover.hovering && e.card == Some(top)
}

/// `s` is the first draw-click candidate of the arena.
pub open spec fn is_first_draw_candidate(arena: Seq<EntityRec>, top: Card, s: int) -> bool {
    &&& 0 <= s < arena.len()
    &&& draw_click_candidate(arena[s], top)
    &&& forall|j: int| 0 <= j < s ==> !draw_click_candidate(#[trigger] arena[j], top)
}

/// The drawn entity as the click leaves it: hover cleared, lifted to
/// depth 100, retagged from stock to waste, draggable, with a move
/// toward the waste slot (its depth the new waste count) and a fresh
/// flip attached.
pub open spec fn spec_draw_click_entity(
    e: EntityRec,
    draw_position: Vec3i,
    new_drawn_len: int,
) -> EntityRec {
    EntityRec {
        hover: HoverState { hovering: false },
        pos: Vec3i { x: e.pos.x, y: e.pos.y, z: 100 },
        deck_pos: false,
        draw_pos: true,
        draggable: true,
        move_to: Some(
            MoveTo {
                target: Vec3i {
                    x: draw_position.x,
                    y: draw_position.y,
                    z: new_drawn_len as i64,
                },
                speed: DRAW_MOVE_SPEED,
            },
        ),
        flipping: Some(Flipping { speed: FLIP_SPEED, flipped: false, progress: 0 }),
        ..e
    }
}

/// Deck-click pass; see the module doc. The reset fires only when the
/// cursor, if present and the deck slot has a known extent, lies inside
/// the deck slot's region (a guard against unrelated clicks); the draw
/// consumes the deck's top card only when a hovered stock entity
/// matches it, and processes at most one entity per click.
pub fn handle_deck_click(
    just_pressed: bool,
    deck: &mut Deck,
    deck_slot_position: Vec3i,
    deck_slot_size: Option<Vec2i>,
    draw_slot_position: Vec3i,
    cursor: &Cursor,
    arena: &mut Vec<EntityRec>,
    exit_q: &mut Vec<HoverExitEvent>,
)
    requires
        arena_dims_ok(old(arena)@),
        cursor.position is Some ==> -COORD_LIMIT <= cursor.position->0.x <= COORD_LIMIT
            && -COORD_LIMIT <= cursor.position->0.y <= COORD_LIMIT,
        vec3_ok(deck_slot_position),
        deck_slot_size is Some ==> size_ok(deck_slot_size->0),
        old(deck).drawn@.len() < COORD_LIMIT,
    ensures
        final(arena)@.len() == old(arena)@.len(),
        !just_pressed ==> final(arena)@ == old(arena)@ && final(deck).cards == old(deck).cards
            && final(deck).drawn == old(deck).drawn && final(exit_q)@ == old(exit_q)@,
        just_pressed ==> {
            let reset_eligible = old(deck).cards@.len() == 0 && old(deck).drawn@.len() > 0;
            let blocked = cursor.position is Some && deck_slot_size is Some && !spec_in_region(
                cursor.position->0,
                deck_slot_position.xy(),
                deck_slot_size->0,
            );
            &&& (reset_eligible && blocked) ==> final(arena)@ == old(arena)@ && final(deck).cards
                == old(deck).cards && final(deck).drawn == old(deck).drawn && final(exit_q)@
                == old(exit_q)@
            &&& (reset_eligible && !blocked) ==> {
                &&& forall|i: int|
                    0 <= i < old(arena)@.len() ==> final(arena)@[i] == if draw_card_filter(
                        #[trigger] old(arena)@[i],
                    ) {
                        spec_reset_entity(
                            old(arena)@[i],
                            deck_slot_position,
                            old(deck).drawn@.len() as int,
                        )
                    } else {
                        old(arena)@[i]
                    }
                &&& final(deck).cards@ == old(deck).drawn@.reverse()
                &&& final(deck).drawn@.len() == 0
                &&& final(exit_q)@ == old(exit_q)@
            }
            &&& !reset_eligible ==> {
                &&& old(deck).cards@.len() == 0 ==> final(arena)@ == old(arena)@
                    && final(deck).cards == old(deck).cards
                    && final(deck).drawn == old(deck).drawn
                    && final(exit_q)@ == old(exit_q)@
                &&& old(deck).cards@.len() > 0 ==> {
                    let top = old(deck).cards@.last();
                    &&& ((exists|j: int|
                        0 <= j < old(arena)@.len() && draw_click_candidate(
                            #[trigger] old(arena)@[j],
                            top,
                        )) ==> exists|s: int| is_first_draw_candidate(old(arena)@, top, s))
                    &&& forall|s: int| #[trigger]
                        is_first_draw_candidate(old(arena)@, top, s) ==> {
                            &&& forall|i: int|
                                0 <= i < old(arena)@.len() ==> final(arena)@[i] == if i == s {
                                    spec_draw_click_entity(
                                        old(arena)@[s],
                                        draw_slot_position,
                                        old(deck).drawn@.len() + 1int,
                                    )
                                } else {
                                    #[trigger] old(arena)@[i]
                                }
                            &&& (final(deck).cards@, final(deck).drawn@) == spec_draw(
                                old(deck).cards@,
                                old(deck).drawn@,
                            )
                            &&& final(exit_q)@ == old(exit_q)@.push(HoverExitEvent(s as usize))
                        }
                    &&& (!(exists|j: int|
                        0 <= j < old(arena)@.len() && draw_click_candidate(
                            #[trigger] old(arena)@[j],
                            top,
                        ))) ==> final(arena)@ == old(arena)@ && final(deck).cards == old(
                        deck,
                    ).cards && final(deck).drawn == old(deck).drawn && final(exit_q)@ == old(
                        exit_q,
                    )@
                }
            }
        },
{
    if !just_pressed {
        return ;
    }
    let n = arena.len();
    let reset_deck = deck.is_empty() && deck.get_drawn_cards().len() > 0;
    if reset_deck {
        match (cursor.position, deck_slot_size) {
            (Some(c), Some(size)) => {
                if !in_region(
                    c,
                    Vec2i { x: deck_slot_position.x, y: deck_slot_position.y },
                    size,
                ) {
                    return ;
                }
            },
            _ => {},
        }
        let drawn_len = deck.get_drawn_cards().len() as i64;
        let mut k: usize = 0;
        while k < n
            invariant
                n == arena@.len(),
                n == old(arena)@.len(),
                k <= n,
                arena_dims_ok(old(arena)@),
                deck.cards == old(deck).cards,
                deck.drawn == old(deck).drawn,
                drawn_len == old(deck).drawn@.len() as int,
                0 <= drawn_len < COORD_LIMIT,
                forall|i: int| k as int <= i < n as int ==> arena@[i] == old(arena)@[i],
                forall|i: int|
                    0 <= i < k as int ==> arena@[i] == if draw_card_filter(
                        #[trigger] old(arena)@[i],
                    ) {
                        spec_reset_entity(old(arena)@[i], deck_slot_position, drawn_len as int)
                    } else {
                        old(arena)@[i]
                    },
            decreases n - k as int,
        {
            let mut e = arena[k];
            if e.hoverable && e.card.is_some() && !e.is_slot && e.draw_pos && !e.deck_pos {
                let current_z = e.pos.z;
                e.pos = Vec3i {
                    x: deck_slot_position.x,
                    y: deck_slot_position.y,
                    z: drawn_len - current_z,
                };
                e.deck_pos = true;
                e.draw_pos = false;
                e.draggable = false;
                e.move_to = None;
                match e.card {
                    Some(c) => {
                        e.card = Some(Card { rank: c.rank, suit: c.suit, flipped: true });
                    },
                    None => {},
                }
                e.face = crate::entity::CardFace::Back;
                arena[k] = e;
                proof {
                    assert(arena@[k as int] == spec_reset_entity(
                        old(arena)@[k as int],
                        deck_slot_position,
                        drawn_len as int,
                    ));
                }
            }
            k = k + 1;
        }
        deck.reset();
    } else {
        let n_cards = deck.get_cards().len();
        if n_cards == 0 {
            return ;
        }
        let top = deck.get_cards()[n_cards - 1];
        let mut found: Option<usize> = None;
        let mut k: usize = 0;
        while k < n
            invariant
                n == arena@.len(),
                k <= n,
                match found {
                    None => forall|j: int|
                        0 <= j < k as int ==> !draw_click_candidate(#[trigger] arena@[j], top),
                    Some(s) => is_first_draw_candidate(arena@, top, s as int),
                },
            decreases n - k as int,
        {
            if found.is_none() {
                let e = arena[k];
                if e.hoverable && e.card.is_some() && !e.is_slot && e.deck_pos && !e.draw_pos
                    && e.hover.hovering {
                    let matches_top = match e.card {
                        Some(c) => c == top,
                        None => false,
                    };
                    if matches_top {
                        found = Some(k);
                    }
                }
            }
            k = k + 1;
        }
        match found {
            None => {},
            Some(s) => {
                let drawn = deck.draw();
                proof {
                    assert(drawn == Some(top));
                }
                let new_drawn_len = deck.get_drawn_cards().len() as i64;
                let mut e = arena[s];
                e.hover.hovering = false;
                e.pos.z = 100;
                e.deck_pos = false;
                e.draw_pos = true;
                e.draggable = true;
                e.move_to = Some(
                    MoveTo {
                        target: Vec3i {
                            x: draw_slot_position.x,
                            y: draw_slot_position.y,
                            z: new_drawn_len,
                        },
                        speed: DRAW_MOVE_SPEED,
                    },
                );
                e.flipping = Some(Flipping { speed: FLIP_SPEED, flipped: false, progress: 0 });
                arena[s] = e;
                exit_q.push(HoverExitEvent(s));
                proof {
                    assert(arena@[s as int] == spec_draw_click_entity(
                        old(arena)@[s as int],
                        draw_slot_position,
                        old(deck).drawn@.len() + 1int,
                    ));
                }
            },
        }
    }
}

} // verus!
