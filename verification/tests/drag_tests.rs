use solitaire::board::BoardState;
use solitaire::card::{Card, Rank, Suit};
use solitaire::drag::{drag_system, start_drag_system, stop_drag_system};
use solitaire::entity::{Cursor, EntityRec};
use solitaire::geom::{Vec2i, Vec3i};

fn card(rank: Rank, suit: Suit) -> Card {
    Card {
        rank,
        suit,
        flipped: false,
    }
}

fn card_entity(c: Card, x: i64, y: i64, z: i64) -> EntityRec {
    let mut e = EntityRec::plain(Vec3i { x, y, z });
    e.hoverable = true;
    e.draggable = true;
    e.card = Some(c);
    e.size = Some(Vec2i { x: 70, y: 102 });
    e
}

fn cursor_at(x: i64, y: i64) -> Cursor {
    Cursor {
        position: Some(Vec2i { x, y }),
    }
}

fn pile_of_four() -> (BoardState, Vec<EntityRec>, Vec<Card>) {
    let mut board = BoardState::new();
    let cards = vec![
        card(Rank::Ace, Suit::Clubs),
        card(Rank::Two, Suit::Clubs),
        card(Rank::Three, Suit::Clubs),
        card(Rank::Four, Suit::Clubs),
    ];
    board.play_piles[0] = cards.clone();
    let mut arena = Vec::new();
    for (i, c) in cards.iter().enumerate() {
        arena.push(card_entity(*c, 100, -(40 * i as i64), i as i64));
    }
    (board, arena, cards)
}

#[test]
fn dragging_at_index_one_takes_the_three_cards_above() {
    let (board, mut arena, _) = pile_of_four();
    arena[1].hover.hovering = true;
    start_drag_system(true, &board, &cursor_at(100, -40), &mut arena);
    assert!(arena[0].dragging.is_none());
    for k in 1..4 {
        let d = arena[k].dragging.expect("stacked card should drag");
        assert_eq!(
            d.original_position,
            Vec3i {
                x: 100,
                y: -(40 * k as i64),
                z: k as i64
            }
        );
        assert_eq!(
            d.offset,
            Vec2i {
                x: 0,
                y: -(40 * k as i64) + 40
            }
        );
        assert_eq!(arena[k].pos.z, k as i64 + 100);
    }
    let dragged = arena.iter().filter(|e| e.dragging.is_some()).count();
    assert_eq!(dragged, 3);
}

#[test]
fn dragging_the_top_card_takes_only_it() {
    let (board, mut arena, _) = pile_of_four();
    arena[3].hover.hovering = true;
    start_drag_system(true, &board, &cursor_at(100, -120), &mut arena);
    let dragged = arena.iter().filter(|e| e.dragging.is_some()).count();
    assert_eq!(dragged, 1);
    assert!(arena[3].dragging.is_some());
}

#[test]
fn card_outside_every_pile_drags_alone() {
    let board = BoardState::new();
    let mut arena = vec![card_entity(card(Rank::King, Suit::Hearts), 0, 0, 5)];
    arena[0].hover.hovering = true;
    start_drag_system(true, &board, &cursor_at(3, 4), &mut arena);
    let d = arena[0].dragging.expect("hovered card should drag alone");
    assert_eq!(d.original_position, Vec3i { x: 0, y: 0, z: 5 });
    assert_eq!(d.offset, Vec2i { x: -3, y: -4 });
    assert_eq!(arena[0].pos.z, 105);
}

#[test]
fn held_button_moves_dragged_entities_with_the_cursor() {
    let board = BoardState::new();
    let mut arena = vec![card_entity(card(Rank::King, Suit::Hearts), 10, 20, 5)];
    arena[0].hover.hovering = true;
    start_drag_system(true, &board, &cursor_at(12, 22), &mut arena);
    drag_system(true, &cursor_at(50, 60), &mut arena);
    // offset was (10-12, 20-22) = (-2, -2); depth is unaffected.
    assert_eq!(arena[0].pos, Vec3i { x: 48, y: 58, z: 105 });
    drag_system(true, &cursor_at(-7, 9), &mut arena);
    assert_eq!(arena[0].pos, Vec3i { x: -9, y: 7, z: 105 });
}

#[test]
fn release_restores_every_dragged_entity_exactly() {
    let (board, mut arena, _) = pile_of_four();
    arena[1].hover.hovering = true;
    let before = arena.clone();
    start_drag_system(true, &board, &cursor_at(100, -40), &mut arena);
    drag_system(true, &cursor_at(500, 500), &mut arena);
    drag_system(true, &cursor_at(-300, 200), &mut arena);
    stop_drag_system(true, &mut arena);
    for k in 0..4 {
        assert_eq!(arena[k].pos, before[k].pos);
        assert!(arena[k].dragging.is_none());
    }
}

#[test]
fn no_press_and_absent_cursor_are_no_ops() {
    let (board, mut arena, _) = pile_of_four();
    arena[1].hover.hovering = true;
    start_drag_system(false, &board, &cursor_at(100, -40), &mut arena);
    assert!(arena.iter().all(|e| e.dragging.is_none()));
    let absent = Cursor { position: None };
    start_drag_system(true, &board, &absent, &mut arena);
    assert!(arena.iter().all(|e| e.dragging.is_none()));
}

#[test]
fn press_while_already_dragging_is_ignored() {
    let board = BoardState::new();
    let mut arena = vec![
        card_entity(card(Rank::King, Suit::Hearts), 0, 0, 5),
        card_entity(card(Rank::Queen, Suit::Hearts), 0, 0, 6),
    ];
    arena[0].hover.hovering = true;
    start_drag_system(true, &board, &cursor_at(0, 0), &mut arena);
    assert!(arena[0].dragging.is_some());
    arena[1].hover.hovering = true;
    let snapshot_z = arena[1].pos.z;
    start_drag_system(true, &board, &cursor_at(0, 0), &mut arena);
    assert!(arena[1].dragging.is_none());
    assert_eq!(arena[1].pos.z, snapshot_z);
}

#[test]
fn drag_set_search_matches_on_flip_state_too() {
    // The pile holds the face-down twin; the hovered face-up card is not
    // found there, so it drags alone.
    let mut board = BoardState::new();
    let mut down = card(Rank::Ace, Suit::Clubs);
    down.flipped = true;
    board.play_piles[0] = vec![down];
    let up = card(Rank::Ace, Suit::Clubs);
    let mut arena = vec![card_entity(up, 0, 0, 0)];
    arena[0].hover.hovering = true;
    start_drag_system(true, &board, &cursor_at(0, 0), &mut arena);
    let dragged = arena.iter().filter(|e| e.dragging.is_some()).count();
    assert_eq!(dragged, 1);
}
