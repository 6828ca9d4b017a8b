//! Initial deal: round `i` deals one card off the top of the deck to
//! each tableau column `j >= i`, face-up when `j == i` (each column's
//! last-dealt card) and face-down otherwise, so column `j` ends with
//! `j + 1` cards; the remaining deck then becomes the face-down stock
//! pile, one entity per card, stacked by depth.

use vstd::prelude::*;

use vstd::pervasive::unreached;

use crate::board::BoardState;
use crate::card::Card;
use crate::deck::Deck;
use crate::entity::{CardFace, EntityRec, HoverState, SCALE_ONE};
use crate::geom::{size_ok, vec3_ok, Vec2i, Vec3i, COORD_LIMIT};

verus! {

/// How many cards the rounds before round `i` dealt: round `r` deals
/// `7 - r` cards.
pub open spec fn dealt_before(i: int) -> int
    decreases i,
{
    if i <= 0 {
        0
    } else {
        dealt_before(i - 1) + 8 - i
    }
}

/// The running totals of the seven deal rounds, 28 cards in all.
pub proof fn lemma_dealt_before_values()
    ensures
        dealt_before(0) == 0,
        dealt_before(1) == 7,
        dealt_before(2) == 13,
        dealt_before(3) == 18,
        dealt_before(4) == 22,
        dealt_before(5) == 25,
        dealt_before(6) == 27,
        dealt_before(7) == 28,
{
    assert(dealt_before(0) == 0);
    assert(dealt_before(1) == 7);
    assert(dealt_before(2) == 13);
    assert(dealt_before(3) == 18);
    assert(dealt_before(4) == 22);
    assert(dealt_before(5) == 25);
    assert(dealt_before(6) == 27);
    assert(dealt_before(7) == 28);
}

/// The card round `i` deals to column `j`, out of a deck that held
/// `cards` before the deal: the `dealt_before(i) + (j - i)`-th pop off
/// the deck's top, turned face-up when `j == i`.
pub open spec fn dealt_card(cards: Seq<Card>, i: int, j: int) -> Card {
    let orig = cards[cards.len() - 1 - (dealt_before(i) + j - i)];
    if i == j {
        Card { rank: orig.rank, suit: orig.suit, flipped: false }
    } else {
        orig
    }
}

/// The entity spawned for the card round `i` deals to column `j`: at
/// the column's anchor, lowered 40 units per round, at depth `i`,
/// hoverable and draggable, showing its back while face-down.
pub open spec fn dealt_entity(card: Card, target: Vec3i, card_size: Vec2i, i: int, j: int)
    -> EntityRec {
    EntityRec {
        pos: Vec3i { x: target.x, y: (target.y - 40 * i) as i64, z: i as i64 },
        scale_x: SCALE_ONE,
        scale_y: SCALE_ONE,
        rotation: 0,
        size: Some(card_size),
        face: if card.flipped {
            CardFace::Back
        } else {
            CardFace::Front
        },
        card: Some(card),
        hoverable: true,
        hover: HoverState { hovering: false },
        is_slot: false,
        deck_pos: false,
        draw_pos: false,
        home: None,
        col: Some(j as u32),
        draggable: true,
        dragging: None,
        move_to: None,
        flipping: None,
    }
}

/// The entity spawned for the `t`-th remaining stock card: at the deck
/// anchor, stacked by depth `t`, hoverable but not draggable, showing
/// its back while face-down.
pub open spec fn deck_card_entity(card: Card, deck_position: Vec3i, card_size: Vec2i, t: int)
    -> EntityRec {
    EntityRec {
        pos: Vec3i { x: deck_position.x, y: deck_position.y, z: t as i64 },
        scale_x: SCALE_ONE,
        scale_y: SCALE_ONE,
        rotation: 0,
        size: Some(card_size),
        face: if card.flipped {
            CardFace::Back
        } else {
            CardFace::Front
        },
        card: Some(card),
        hoverable: true,
        hover: HoverState { hovering: false },
        is_slot: false,
        deck_pos: true,
        draw_pos: false,
        home: None,
        col: None,
        draggable: false,
        dragging: None,
        move_to: None,
        flipping: None,
    }
}

/// Deal the standard tableau: exactly 28 cards off the deck's top into
/// the seven columns, column `j` receiving `j + 1` cards, the last one
/// face-up and the rest face-down as they came; one entity per dealt
/// card, appended in deal order.
pub fn setup_cards(
    deck: &mut Deck,
    board_state: &mut BoardState,
    target_positions: &Vec<Vec3i>,
    card_size: Vec2i,
    arena: &mut Vec<EntityRec>,
)
    requires
        old(deck).cards@.len() >= 28,
        old(board_state).play_piles@.len() == 7,
        forall|j: int| 0 <= j < 7 ==> (#[trigger] old(board_state).play_piles@[j])@.len() == 0,
        target_positions@.len() == 7,
        forall|j: int| 0 <= j < 7 ==> vec3_ok(#[trigger] target_positions@[j]),
        size_ok(card_size),
    ensures
        final(deck).cards@ == old(deck).cards@.take(old(deck).cards@.len() - 28),
        final(deck).drawn == old(deck).drawn,
        final(board_state).home_piles == old(board_state).home_piles,
        final(board_state).play_piles@.len() == 7,
        forall|j: int|
            0 <= j < 7 ==> (#[trigger] final(board_state).play_piles@[j])@.len() == j + 1,
        forall|j: int, i: int|
            #![trigger dealt_card(old(deck).cards@, i, j)]
            0 <= i <= j < 7 ==> final(board_state).play_piles@[j]@[i] == dealt_card(
                old(deck).cards@,
                i,
                j,
            ),
        forall|j: int| 0 <= j < 7 ==> !(#[trigger] final(board_state).play_piles@[j])@[j].flipped,
        final(arena)@.len() == old(arena)@.len() + 28,
        forall|t: int| 0 <= t < old(arena)@.len() ==> final(arena)@[t] == old(arena)@[t],
        forall|i: int, j: int|
            #![trigger dealt_card(old(deck).cards@, i, j)]
            0 <= i <= j < 7 ==> final(arena)@[old(arena)@.len() + dealt_before(i) + (j - i)] == (
            dealt_entity(
                dealt_card(old(deck).cards@, i, j),
                target_positions@[j],
                card_size,
                i,
                j,
            )),
{
    let ghost cards0 = old(deck).cards@;
    let ghost base = old(arena)@.len();
    proof {
        lemma_dealt_before_values();
    }
    let mut i: usize = 0;
    while i < 7
        invariant
            i <= 7,
            cards0.len() >= 28,
            cards0 == old(deck).cards@,
            base == old(arena)@.len(),
            0 <= dealt_before(i as int) <= 28,
            deck.cards@ == cards0.take(cards0.len() - dealt_before(i as int)),
            deck.drawn == old(deck).drawn,
            board_state.home_piles == old(board_state).home_piles,
            board_state.play_piles@.len() == 7,
            target_positions@.len() == 7,
            forall|j: int| 0 <= j < 7 ==> vec3_ok(#[trigger] target_positions@[j]),
            forall|j: int|
                0 <= j < i as int ==> (#[trigger] board_state.play_piles@[j])@.len() == j + 1,
            forall|j: int|
                i as int <= j < 7 ==> (#[trigger] board_state.play_piles@[j])@.len() == i as int,
            forall|j: int, t: int|
                #![trigger dealt_card(cards0, t, j)]
                0 <= j < 7 && 0 <= t < board_state.play_piles@[j]@.len()
                    ==> board_state.play_piles@[j]@[t] == dealt_card(cards0, t, j),
            arena@.len() == base + dealt_before(i as int),
            forall|t: int| 0 <= t < base ==> arena@[t] == old(arena)@[t],
            forall|t: int, j: int|
                #![trigger dealt_card(cards0, t, j)]
                0 <= t < i as int && t <= j < 7 ==> arena@[base + dealt_before(t) + (j - t)] == (
                dealt_entity(dealt_card(cards0, t, j), target_positions@[j], card_size, t, j)),
        decreases 7 - i as int,
    {
        let y_offset: i64 = (i as i64) * 40;
        let mut j: usize = i;
        proof {
            lemma_dealt_before_values();
            assert(dealt_before(i as int + 1) == dealt_before(i as int) + 7 - i as int);
        }
        while j < 7
            invariant
                i < 7,
                i as usize <= j <= 7,
                y_offset == i as int * 40,
                cards0.len() >= 28,
                cards0 == old(deck).cards@,
                base == old(arena)@.len(),
                0 <= dealt_before(i as int),
                dealt_before(i as int) + (j - i) as int <= dealt_before(i as int + 1) <= 28,
                deck.cards@ == cards0.take(
                    cards0.len() - (dealt_before(i as int) + (j - i) as int),
                ),
                deck.drawn == old(deck).drawn,
                board_state.home_piles == old(board_state).home_piles,
                board_state.play_piles@.len() == 7,
                target_positions@.len() == 7,
                forall|jj: int| 0 <= jj < 7 ==> vec3_ok(#[trigger] target_positions@[jj]),
                forall|jj: int|
                    0 <= jj < i as int ==> (#[trigger] board_state.play_piles@[jj])@.len() == jj
                        + 1,
                forall|jj: int|
                    i as int <= jj < j as int ==> (#[trigger] board_state.play_piles@[jj])@.len()
                        == i as int + 1,
                forall|jj: int|
                    j as int <= jj < 7 ==> (#[trigger] board_state.play_piles@[jj])@.len()
                        == i as int,
                forall|jj: int, t: int|
                    #![trigger dealt_card(cards0, t, jj)]
                    0 <= jj < 7 && 0 <= t < board_state.play_piles@[jj]@.len()
                        ==> board_state.play_piles@[jj]@[t] == dealt_card(cards0, t, jj),
                arena@.len() == base + dealt_before(i as int) + (j - i) as int,
                forall|t: int| 0 <= t < base ==> arena@[t] == old(arena)@[t],
                forall|t: int, jj: int|
                    #![trigger dealt_card(cards0, t, jj)]
                    (0 <= t < i as int && t <= jj < 7) || (t == i as int && i as int <= jj
                        < j as int) ==> arena@[base + dealt_before(t) + (jj - t)] == (dealt_entity(
                        dealt_card(cards0, t, jj),
                        target_positions@[jj],
                        card_size,
                        t,
                        jj,
                    )),
            decreases 7 - j as int,
        {
            proof {
                lemma_dealt_before_values();
            }
            let card_opt = deck.play();
            let mut drawn_card = match card_opt {
                Some(c) => c,
                None => unreached(),
            };
            if j == i {
                drawn_card = Card { rank: drawn_card.rank, suit: drawn_card.suit, flipped: false };
            }
            proof {
                assert(drawn_card == dealt_card(cards0, i as int, j as int));
                assert(deck.cards@ =~= cards0.take(
                    cards0.len() - (dealt_before(i as int) + (j + 1 - i as int)),
                ));
            }
            let target = target_positions[j];
            let entity = EntityRec {
                pos: Vec3i { x: target.x, y: target.y - y_offset, z: i as i64 },
                scale_x: SCALE_ONE,
                scale_y: SCALE_ONE,
                rotation: 0,
                size: Some(card_size),
                face: if drawn_card.flipped {
                    CardFace::Back
                } else {
                    CardFace::Front
                },
                card: Some(drawn_card),
                hoverable: true,
                hover: HoverState { hovering: false },
                is_slot: false,
                deck_pos: false,
                draw_pos: false,
                home: None,
                col: Some(j as u32),
                draggable: true,
                dragging: None,
                move_to: None,
                flipping: None,
            };
            arena.push(entity);
            board_state.play_piles[j].push(drawn_card);
            proof {
                assert(arena@[base + dealt_before(i as int) + (j - i as int)] == (dealt_entity(
                    dealt_card(cards0, i as int, j as int),
                    target_positions@[j as int],
                    card_size,
                    i as int,
                    j as int,
                )));
                assert(board_state.play_piles@[j as int]@[i as int] == dealt_card(
                    cards0,
                    i as int,
                    j as int,
                ));
            }
            j = j + 1;
        }
        i = i + 1;
    }
    proof {
        lemma_dealt_before_values();
        assert forall|j: int| 0 <= j < 7 implies !(#[trigger] board_state.play_piles@[j])@[j].flipped by {
            assert(board_state.play_piles@[j]@[j] == dealt_card(cards0, j, j));
        }
    }
}

/// Spawn one stock entity per remaining deck card, at the deck anchor,
/// stacked by index as depth.
pub fn setup_deck_cards(
    deck: &Deck,
    deck_position: Vec3i,
    card_size: Vec2i,
    arena: &mut Vec<EntityRec>,
)
    requires
        deck.cards@.len() <= COORD_LIMIT,
    ensures
        final(arena)@.len() == old(arena)@.len() + deck.cards@.len(),
        forall|t: int| 0 <= t < old(arena)@.len() ==> final(arena)@[t] == old(arena)@[t],
        forall|t: int|
            0 <= t < deck.cards@.len() ==> final(arena)@[old(arena)@.len() + t] == (
            deck_card_entity(deck.cards@[t], deck_position, card_size, t)),
{
    let ghost base = old(arena)@.len();
    let cards = deck.get_cards();
    let n = cards.len();
    let mut t: usize = 0;
    while t < n
        invariant
            t <= n,
            n == deck.cards@.len() <= COORD_LIMIT,
            cards@ == deck.cards@,
            base == old(arena)@.len(),
            arena@.len() == base + t as int,
            forall|s: int| 0 <= s < base ==> arena@[s] == old(arena)@[s],
            forall|s: int|
                0 <= s < t as int ==> arena@[base + s] == (deck_card_entity(
                    deck.cards@[s],
                    deck_position,
                    card_size,
                    s,
                )),
        decreases n - t as int,
    {
        let card = cards[t];
        let entity = EntityRec {
            pos: Vec3i { x: deck_position.x, y: deck_position.y, z: t as i64 },
            scale_x: SCALE_ONE,
            scale_y: SCALE_ONE,
            rotation: 0,
            size: Some(card_size),
            face: if card.flipped {
                CardFace::Back
            } else {
                CardFace::Front
            },
            card: Some(card),
            hoverable: true,
            hover: HoverState { hovering: false },
            is_slot: false,
            deck_pos: true,
            draw_pos: false,
            home: None,
            col: None,
            draggable: false,
            dragging: None,
            move_to: None,
            flipping: None,
        };
        arena.push(entity);
        t = t + 1;
    }
}

} // verus!
