use solitaire::card::{Card, Rank, Suit};
use solitaire::entity::{
    Cursor, EntityRec, HoverEnterEvent, HoverExitEvent, HOVER_SCALE, SCALE_ONE,
};
use solitaire::geom::{Vec2i, Vec3i};
use solitaire::hover::{
    handle_hover_enter, handle_hover_exit, hover_card_system, hover_deck_system,
    hover_play_slot_system, reset_hover_flags, slot_region,
};

fn a_card(rank: Rank) -> Card {
    Card {
        rank,
        suit: Suit::Clubs,
        flipped: false,
    }
}

fn card_entity(x: i64, y: i64, z: i64, w: i64, h: i64, rank: Rank) -> EntityRec {
    let mut e = EntityRec::plain(Vec3i { x, y, z });
    e.hoverable = true;
    e.card = Some(a_card(rank));
    e.size = Some(Vec2i { x: w, y: h });
    e
}

fn cursor_at(x: i64, y: i64) -> Cursor {
    Cursor {
        position: Some(Vec2i { x, y }),
    }
}

#[test]
fn topmost_of_two_overlapping_entities_wins() {
    let mut arena = vec![
        card_entity(0, 0, 1, 20, 20, Rank::Ace),
        card_entity(0, 0, 2, 20, 20, Rank::Two),
    ];
    let mut enters: Vec<HoverEnterEvent> = Vec::new();
    let mut exits: Vec<HoverExitEvent> = Vec::new();
    hover_card_system(&cursor_at(0, 0), &mut arena, &mut enters, &mut exits);
    assert!(!arena[0].hover.hovering);
    assert!(arena[1].hover.hovering);
    assert_eq!(enters.len(), 1);
    assert_eq!(enters[0].0, 1);
    assert_eq!(exits.len(), 0);
}

#[test]
fn moving_off_both_regions_emits_one_exit_per_entity() {
    let mut arena = vec![
        card_entity(0, 0, 1, 20, 20, Rank::Ace),
        card_entity(0, 0, 2, 20, 20, Rank::Two),
    ];
    arena[0].hover.hovering = true;
    arena[1].hover.hovering = true;
    let mut enters: Vec<HoverEnterEvent> = Vec::new();
    let mut exits: Vec<HoverExitEvent> = Vec::new();
    hover_card_system(&cursor_at(1000, 1000), &mut arena, &mut enters, &mut exits);
    assert!(!arena[0].hover.hovering);
    assert!(!arena[1].hover.hovering);
    assert_eq!(enters.len(), 0);
    assert_eq!(exits.len(), 2);
    assert_eq!(exits[0].0, 0);
    assert_eq!(exits[1].0, 1);
}

#[test]
fn equal_depth_tie_picks_exactly_one() {
    let mut arena = vec![
        card_entity(0, 0, 5, 20, 20, Rank::Ace),
        card_entity(0, 0, 5, 20, 20, Rank::Two),
    ];
    let mut enters: Vec<HoverEnterEvent> = Vec::new();
    let mut exits: Vec<HoverExitEvent> = Vec::new();
    hover_card_system(&cursor_at(0, 0), &mut arena, &mut enters, &mut exits);
    let hovering = arena.iter().filter(|e| e.hover.hovering).count();
    assert_eq!(hovering, 1);
    assert!(arena[0].hover.hovering);
}

#[test]
fn entity_without_size_gets_a_unit_region() {
    let mut e = EntityRec::plain(Vec3i { x: 10, y: 10, z: 0 });
    e.hoverable = true;
    e.card = Some(a_card(Rank::Ace));
    let mut arena = vec![e];
    let mut enters: Vec<HoverEnterEvent> = Vec::new();
    let mut exits: Vec<HoverExitEvent> = Vec::new();
    hover_card_system(&cursor_at(10, 10), &mut arena, &mut enters, &mut exits);
    assert!(arena[0].hover.hovering);
    hover_card_system(&cursor_at(11, 10), &mut arena, &mut enters, &mut exits);
    assert!(!arena[0].hover.hovering);
}

#[test]
fn absent_cursor_is_handled_by_reset_hover_flags() {
    let mut arena = vec![card_entity(0, 0, 1, 20, 20, Rank::Ace)];
    arena[0].hover.hovering = true;
    let mut enters: Vec<HoverEnterEvent> = Vec::new();
    let mut exits: Vec<HoverExitEvent> = Vec::new();
    let absent = Cursor { position: None };
    hover_card_system(&absent, &mut arena, &mut enters, &mut exits);
    assert!(arena[0].hover.hovering);
    assert_eq!(exits.len(), 0);
    reset_hover_flags(&absent, &mut arena, &mut exits);
    assert!(!arena[0].hover.hovering);
    assert_eq!(exits.len(), 1);
    assert_eq!(exits[0].0, 0);
}

#[test]
fn hovering_again_emits_no_second_enter() {
    let mut arena = vec![card_entity(0, 0, 1, 20, 20, Rank::Ace)];
    let mut enters: Vec<HoverEnterEvent> = Vec::new();
    let mut exits: Vec<HoverExitEvent> = Vec::new();
    hover_card_system(&cursor_at(0, 0), &mut arena, &mut enters, &mut exits);
    hover_card_system(&cursor_at(1, 1), &mut arena, &mut enters, &mut exits);
    assert!(arena[0].hover.hovering);
    assert_eq!(enters.len(), 1);
}

#[test]
fn deck_slot_hover_sets_flag_without_events() {
    let mut slot = EntityRec::plain(Vec3i { x: 0, y: 0, z: -1 });
    slot.hoverable = true;
    slot.is_slot = true;
    slot.deck_pos = true;
    slot.size = Some(Vec2i { x: 70, y: 102 });
    let mut arena = vec![slot];
    hover_deck_system(&cursor_at(0, 0), &mut arena);
    assert!(arena[0].hover.hovering);
    hover_deck_system(&cursor_at(500, 0), &mut arena);
    assert!(!arena[0].hover.hovering);
}

#[test]
fn column_slot_hit_region_extends_downward() {
    let mut slot = EntityRec::plain(Vec3i { x: 0, y: 0, z: -1 });
    slot.hoverable = true;
    slot.is_slot = true;
    slot.col = Some(3);
    slot.size = Some(Vec2i { x: 70, y: 100 });
    let (pos, size) = slot_region(&slot);
    assert_eq!(pos, Vec2i { x: 0, y: -200 });
    assert_eq!(size, Vec2i { x: 91, y: 500 });

    let mut arena = vec![slot];
    let mut enters: Vec<HoverEnterEvent> = Vec::new();
    let mut exits: Vec<HoverExitEvent> = Vec::new();
    // Well below the slot's own box, but inside the inflated region.
    hover_play_slot_system(&cursor_at(0, -400), &mut arena, &mut enters, &mut exits);
    assert!(arena[0].hover.hovering);
    assert_eq!(enters.len(), 1);
    assert_eq!(enters[0].0, 0);
    hover_play_slot_system(&cursor_at(0, -500), &mut arena, &mut enters, &mut exits);
    assert!(!arena[0].hover.hovering);
    assert_eq!(exits.len(), 1);
    assert_eq!(exits[0].0, 0);
}

#[test]
fn home_slot_hit_region_is_inflated() {
    let mut slot = EntityRec::plain(Vec3i { x: 0, y: 0, z: -1 });
    slot.hoverable = true;
    slot.is_slot = true;
    slot.home = Some(3);
    slot.size = Some(Vec2i { x: 100, y: 100 });
    let (pos, size) = slot_region(&slot);
    assert_eq!(pos, Vec2i { x: 0, y: 0 });
    assert_eq!(size, Vec2i { x: 130, y: 130 });
}

#[test]
fn enter_event_enlarges_the_card() {
    let mut arena = vec![card_entity(0, 0, 1, 20, 20, Rank::Ace)];
    handle_hover_enter(&vec![HoverEnterEvent(0)], &mut arena);
    assert_eq!(arena[0].scale_x, HOVER_SCALE);
    assert_eq!(arena[0].scale_y, HOVER_SCALE);
    handle_hover_exit(&vec![HoverExitEvent(0)], &mut arena);
    assert_eq!(arena[0].scale_x, SCALE_ONE);
    assert_eq!(arena[0].scale_y, SCALE_ONE);
}

#[test]
fn scale_events_ignore_slots_and_bad_indices() {
    let mut slot = EntityRec::plain(Vec3i { x: 0, y: 0, z: -1 });
    slot.hoverable = true;
    slot.is_slot = true;
    slot.card = Some(a_card(Rank::Ace));
    let mut arena = vec![slot];
    handle_hover_enter(&vec![HoverEnterEvent(0), HoverEnterEvent(7)], &mut arena);
    assert_eq!(arena[0].scale_x, SCALE_ONE);
}
