//! Hover engine: each frame, decide which single topmost card entity
//! the pointer occupies (depth wins, first index breaks ties), set its
//! hover flag, clear every other, and emit enter/exit transition
//! events; slot hovering uses inflated hit regions and, for the deck
//! slot, sets its flag without events.

use vstd::prelude::*;

use crate::entity::{
    arena_dims_ok, card_filter, entity_dims_ok, spec_effective_size, Cursor, EntityRec,
    HoverEnterEvent, HoverExitEvent, HoverState, HOVER_SCALE, SCALE_ONE,
};
use crate::geom::{in_region, spec_in_region, Vec2i, COORD_LIMIT};

verus! {

/// Whether the card hover pass considers `e` and the cursor point `c`
/// falls inside its hit region.
pub open spec fn contains_cursor(e: EntityRec, c: Vec2i) -> bool {
    card_filter(e) && spec_in_region(c, e.pos.xy(), spec_effective_size(e))
}

/// Some card entity of the arena contains the cursor point.
pub open spec fn some_hit(arena: Seq<EntityRec>, c: Vec2i) -> bool {
    exists|j: int| 0 <= j < arena.len() && contains_cursor(#[trigger] arena[j], c)
}

/// `sel` is the entity the card hover pass picks: it contains the
/// cursor, no containing entity is deeper, and it is the first index
/// among containing entities of that depth.
pub open spec fn is_top_hit(arena: Seq<EntityRec>, c: Vec2i, sel: int) -> bool {
    &&& 0 <= sel < arena.len()
    &&& contains_cursor(arena[sel], c)
    &&& forall|j: int|
        0 <= j < arena.len() && contains_cursor(#[trigger] arena[j], c) ==> arena[j].pos.z
            <= arena[sel].pos.z
    &&& forall|j: int|
        0 <= j < sel && contains_cursor(#[trigger] arena[j], c) ==> arena[j].pos.z
            < arena[sel].pos.z
}

/// `e` with its hover flag set to `h` and nothing else changed.
pub open spec fn with_hover(e: EntityRec, h: bool) -> EntityRec {
    EntityRec { hover: HoverState { hovering: h }, ..e }
}

/// The exit events the card pass emits over the first `k` entities:
/// one, in index order, for every card entity that was hovering and is
/// not the selected one (`sel` is the selected index, if any).
pub open spec fn spec_card_exits(arena: Seq<EntityRec>, sel: Option<int>, k: nat) -> Seq<
    HoverExitEvent,
>
    decreases k,
{
    if k == 0 {
        Seq::empty()
    } else {
        let prev = spec_card_exits(arena, sel, (k - 1) as nat);
        let i = k - 1;
        if card_filter(arena[i]) && arena[i].hover.hovering && sel != Some(i) {
            prev.push(HoverExitEvent(i as usize))
        } else {
            prev
        }
    }
}

/// How many of the events in `evs` carry the index `i`.
pub open spec fn count_exits(evs: Seq<HoverExitEvent>, i: int) -> int
    decreases evs.len(),
{
    if evs.len() == 0 {
        0
    } else {
        count_exits(evs.drop_last(), i) + if evs.last().0 as int == i {
            1int
        } else {
            0int
        }
    }
}

/// Appending one event adds one to the count of its index and leaves
/// every other count unchanged.
pub proof fn lemma_count_exits_push(evs: Seq<HoverExitEvent>, ev: HoverExitEvent, i: int)
    ensures
        count_exits(evs.push(ev), i) == count_exits(evs, i) + if ev.0 as int == i {
            1int
        } else {
            0int
        },
{
    assert(evs.push(ev).drop_last() =~= evs);
    assert(evs.push(ev).last() == ev);
}

/// Each frame's card pass emits exactly one exit event for every card
/// entity that was hovering and was not selected, and none for any
/// other entity.
pub proof fn lemma_card_exits_exactly_once(arena: Seq<EntityRec>, sel: Option<int>, k: nat)
    requires
        k <= arena.len(),
        k <= usize::MAX,
    ensures
        forall|i: int|
            0 <= i < k ==> count_exits(spec_card_exits(arena, sel, k), i) == if card_filter(
                arena[i],
            ) && arena[i].hover.hovering && sel != Some(i) {
                1int
            } else {
                0int
            },
        forall|i: int|
            !(0 <= i < k) ==> count_exits(spec_card_exits(arena, sel, k), i) == 0,
    decreases k,
{
    if k == 0 {
    } else {
        lemma_card_exits_exactly_once(arena, sel, (k - 1) as nat);
        let prev = spec_card_exits(arena, sel, (k - 1) as nat);
        let cur = spec_card_exits(arena, sel, k);
        let j = k - 1;
        assert forall|i: int| 0 <= i < k implies count_exits(cur, i) == if card_filter(arena[i])
            && arena[i].hover.hovering && sel != Some(i) {
            1int
        } else {
            0int
        } by {
            if card_filter(arena[j]) && arena[j].hover.hovering && sel != Some(j) {
                assert(cur == prev.push(HoverExitEvent(j as usize)));
                lemma_count_exits_push(prev, HoverExitEvent(j as usize), i);
            } else {
                assert(cur == prev);
            }
        }
        assert forall|i: int| !(0 <= i < k) implies count_exits(cur, i) == 0 by {
            if card_filter(arena[j]) && arena[j].hover.hovering && sel != Some(j) {
                assert(cur == prev.push(HoverExitEvent(j as usize)));
                lemma_count_exits_push(prev, HoverExitEvent(j as usize), i);
            }
        }
    }
}

/// Card hover pass. With the cursor present, pick the single topmost
/// card entity containing it (if any): that entity's flag becomes true
/// (an enter event if it was false), every other card entity's flag
/// becomes false (an exit event for each that was true); with no
/// containing entity every flag is cleared the same way. An absent
/// cursor leaves everything to `reset_hover_flags`.
pub fn hover_card_system(
    cursor: &Cursor,
    arena: &mut Vec<EntityRec>,
    enter_q: &mut Vec<HoverEnterEvent>,
    exit_q: &mut Vec<HoverExitEvent>,
)
    requires
        arena_dims_ok(old(arena)@),
        cursor.position is Some ==> -COORD_LIMIT <= cursor.position->0.x <= COORD_LIMIT
            && -COORD_LIMIT <= cursor.position->0.y <= COORD_LIMIT,
    ensures
        final(arena)@.len() == old(arena)@.len(),
        cursor.position is None ==> final(arena)@ == old(arena)@ && final(enter_q)@ == old(
            enter_q,
        )@ && final(exit_q)@ == old(exit_q)@,
        cursor.position is Some ==> {
            let c = cursor.position->0;
            &&& (some_hit(old(arena)@, c) ==> exists|sel: int|
                is_top_hit(old(arena)@, c, sel))
            &&& forall|sel: int| #[trigger]
                is_top_hit(old(arena)@, c, sel) ==> {
                    &&& forall|i: int|
                        0 <= i < old(arena)@.len() ==> final(arena)@[i] == if card_filter(
                            #[trigger] old(arena)@[i],
                        ) {
                            with_hover(old(arena)@[i], i == sel)
                        } else {
                            old(arena)@[i]
                        }
                    &&& final(enter_q)@ == if !old(arena)@[sel].hover.hovering {
                        old(enter_q)@.push(HoverEnterEvent(sel as usize))
                    } else {
                        old(enter_q)@
                    }
                    &&& final(exit_q)@ == old(exit_q)@ + spec_card_exits(
                        old(arena)@,
                        Some(sel),
                        old(arena)@.len(),
                    )
                }
            &&& !some_hit(old(arena)@, c) ==> {
                &&& forall|i: int|
                    0 <= i < old(arena)@.len() ==> final(arena)@[i] == if card_filter(
                        #[trigger] old(arena)@[i],
                    ) {
                        with_hover(old(arena)@[i], false)
                    } else {
                        old(arena)@[i]
                    }
                &&& final(enter_q)@ == old(enter_q)@
                &&& final(exit_q)@ == old(exit_q)@ + spec_card_exits(
                    old(arena)@,
                    None,
                    old(arena)@.len(),
                )
            }
        },
{
    let c = match cursor.position {
        None => {
            return ;
        },
        Some(c) => c,
    };
    let n = arena.len();

    let mut best: Option<usize> = None;
    let mut k: usize = 0;
    while k < n
        invariant
            n == arena@.len(),
            k <= n,
            arena_dims_ok(arena@),
            -COORD_LIMIT <= c.x <= COORD_LIMIT,
            -COORD_LIMIT <= c.y <= COORD_LIMIT,
            match best {
                None => forall|j: int| 0 <= j < k as int ==> !contains_cursor(
                    #[trigger] arena@[j],
                    c,
                ),
                Some(b) => {
                    &&& 0 <= b < k
                    &&& contains_cursor(arena@[b as int], c)
                    &&& forall|j: int|
                        0 <= j < k as int && contains_cursor(#[trigger] arena@[j], c)
                            ==> arena@[j].pos.z <= arena@[b as int].pos.z
                    &&& forall|j: int|
                        0 <= j < b as int && contains_cursor(#[trigger] arena@[j], c)
                            ==> arena@[j].pos.z < arena@[b as int].pos.z
                },
            },
        decreases n - k as int,
    {
        let e = arena[k];
        if e.hoverable && e.card.is_some() && !e.is_slot {
            let size = match e.size {
                Some(s) => s,
                None => Vec2i { x: 1, y: 1 },
            };
            if in_region(c, Vec2i { x: e.pos.x, y: e.pos.y }, size) {
                match best {
                    None => {
                        best = Some(k);
                    },
                    Some(b) => {
                        if arena[b].pos.z < e.pos.z {
                            best = Some(k);
                        }
                    },
                }
            }
        }
        k = k + 1;
    }

    let ghost sel: Option<int> = match best {
        None => None,
        Some(b) => Some(b as int),
    };
    proof {
        if best is Some {
            assert(is_top_hit(arena@, c, best->0 as int));
        }
        if some_hit(arena@, c) {
            assert(best is Some);
        }
    }

    let mut k: usize = 0;
    while k < n
        invariant
            n == arena@.len(),
            k <= n,
            forall|i: int| k as int <= i < n as int ==> arena@[i] == old(arena)@[i],
            forall|i: int|
                0 <= i < k as int ==> arena@[i] == if card_filter(#[trigger] old(arena)@[i]) {
                    with_hover(old(arena)@[i], sel == Some(i))
                } else {
                    old(arena)@[i]
                },
            match best {
                None => sel is None,
                Some(b) => sel == Some(b as int) && b < n,
            },
            enter_q@ == if sel is Some && sel->0 < k as int && !old(arena)@[sel->0].hover.hovering
                && card_filter(old(arena)@[sel->0]) {
                old(enter_q)@.push(HoverEnterEvent(sel->0 as usize))
            } else {
                old(enter_q)@
            },
            exit_q@ == old(exit_q)@ + spec_card_exits(old(arena)@, sel, k as nat),
        decreases n - k as int,
    {
        let mut e = arena[k];
        if e.hoverable && e.card.is_some() && !e.is_slot {
            let selected = match best {
                None => false,
                Some(b) => b == k,
            };
            if selected {
                if !e.hover.hovering {
                    enter_q.push(HoverEnterEvent(k));
                }
                e.hover.hovering = true;
                arena[k] = e;
            } else {
                if e.hover.hovering {
                    exit_q.push(HoverExitEvent(k));
                    e.hover.hovering = false;
                    arena[k] = e;
                }
            }
        }
        proof {
            if !(card_filter(old(arena)@[k as int])) {
                assert(arena@[k as int] == old(arena)@[k as int]);
            } else {
                assert(arena@[k as int] == with_hover(old(arena)@[k as int], sel == Some(
                    k as int,
                )));
            }
        }
        k = k + 1;
    }
    proof {
        if best is Some {
            let b = best->0 as int;
            assert(card_filter(old(arena)@[b]));
        }
    }
}

/// `e` with both scale axes set to `s` and nothing else changed.
pub open spec fn with_scale(e: EntityRec, s: i64) -> EntityRec {
    EntityRec { scale_x: s, scale_y: s, ..e }
}

/// The arena after reacting to one enter event: the named card entity,
/// if the index is one, grows to the hover scale.
pub open spec fn spec_apply_enter(arena: Seq<EntityRec>, ev: HoverEnterEvent) -> Seq<EntityRec> {
    let i = ev.0 as int;
    if 0 <= i < arena.len() && card_filter(arena[i]) {
        arena.update(i, with_scale(arena[i], HOVER_SCALE))
    } else {
        arena
    }
}

/// The arena after reacting to the first `k` enter events in order.
pub open spec fn spec_apply_enters(
    arena: Seq<EntityRec>,
    evs: Seq<HoverEnterEvent>,
    k: nat,
) -> Seq<EntityRec>
    decreases k,
{
    if k == 0 {
        arena
    } else {
        spec_apply_enter(spec_apply_enters(arena, evs, (k - 1) as nat), evs[k - 1])
    }
}

/// The arena after reacting to one exit event: the named card entity,
/// if the index is one, returns to its natural scale.
pub open spec fn spec_apply_exit(arena: Seq<EntityRec>, ev: HoverExitEvent) -> Seq<EntityRec> {
    let i = ev.0 as int;
    if 0 <= i < arena.len() && card_filter(arena[i]) {
        arena.update(i, with_scale(arena[i], SCALE_ONE))
    } else {
        arena
    }
}

/// The arena after reacting to the first `k` exit events in order.
pub open spec fn spec_apply_exits(
    arena: Seq<EntityRec>,
    evs: Seq<HoverExitEvent>,
    k: nat,
) -> Seq<EntityRec>
    decreases k,
{
    if k == 0 {
        arena
    } else {
        spec_apply_exit(spec_apply_exits(arena, evs, (k - 1) as nat), evs[k - 1])
    }
}

/// React to this frame's enter events: each named card entity is drawn
/// slightly enlarged while hovered.
pub fn handle_hover_enter(events: &Vec<HoverEnterEvent>, arena: &mut Vec<EntityRec>)
    ensures
        final(arena)@ == spec_apply_enters(old(arena)@, events@, events@.len()),
{
    let m = events.len();
    let mut k: usize = 0;
    while k < m
        invariant
            m == events@.len(),
            k <= m,
            arena@ == spec_apply_enters(old(arena)@, events@, k as nat),
        decreases m - k as int,
    {
        let ev = events[k];
        let i = ev.0;
        if i < arena.len() {
            let e = arena[i];
            if e.hoverable && e.card.is_some() && !e.is_slot {
                let mut e2 = e;
                e2.scale_x = HOVER_SCALE;
                e2.scale_y = HOVER_SCALE;
                arena[i] = e2;
            }
        }
        k = k + 1;
    }
}

/// React to this frame's exit events: each named card entity returns to
/// its natural scale.
pub fn handle_hover_exit(events: &Vec<HoverExitEvent>, arena: &mut Vec<EntityRec>)
    ensures
        final(arena)@ == spec_apply_exits(old(arena)@, events@, events@.len()),
{
    let m = events.len();
    let mut k: usize = 0;
    while k < m
        invariant
            m == events@.len(),
            k <= m,
            arena@ == spec_apply_exits(old(arena)@, events@, k as nat),
        decreases m - k as int,
    {
        let ev = events[k];
        let i = ev.0;
        if i < arena.len() {
            let e = arena[i];
            if e.hoverable && e.card.is_some() && !e.is_slot {
                let mut e2 = e;
                e2.scale_x = SCALE_ONE;
                e2.scale_y = SCALE_ONE;
                arena[i] = e2;
            }
        }
        k = k + 1;
    }
}

/// Entities the deck-slot hover pass looks at.
pub open spec fn deck_slot_filter(e: EntityRec) -> bool {
    e.deck_pos && e.hoverable && e.is_slot
}

/// Entities the play/home-slot hover pass looks at.
pub open spec fn play_slot_filter(e: EntityRec) -> bool {
    e.hoverable && e.is_slot && (e.col is Some || e.home is Some)
}

/// The inflated hit region (center, extent) of a slot entity: a column
/// slot's region is pulled two extents downward, widened by 3/10 and
/// stretched to five extents so a card can be dropped anywhere in the
/// visible stack; a home slot's region is inflated by 3/10 on both
/// axes.
pub open spec fn spec_slot_region(e: EntityRec) -> (Vec2i, Vec2i) {
    let p = e.pos.xy();
    let s = spec_effective_size(e);
    let p1 = if e.col is Some {
        Vec2i { x: p.x, y: (p.y - s.y * 2) as i64 }
    } else {
        p
    };
    let s1 = if e.col is Some {
        Vec2i { x: (s.x * 13 / 10) as i64, y: (s.y * 5) as i64 }
    } else {
        s
    };
    let s2 = if e.home is Some {
        Vec2i { x: (s1.x * 13 / 10) as i64, y: (s1.y * 13 / 10) as i64 }
    } else {
        s1
    };
    (p1, s2)
}

/// The inflated hit region of a slot entity; feeds both the slot hover
/// pass and the debug overlay.
pub fn slot_region(e: &EntityRec) -> (r: (Vec2i, Vec2i))
    requires
        entity_dims_ok(*e),
    ensures
        r == spec_slot_region(*e),
{
    let p = Vec2i { x: e.pos.x, y: e.pos.y };
    let s = match e.size {
        Some(s) => s,
        None => Vec2i { x: 1, y: 1 },
    };
    let p1 = if e.col.is_some() {
        Vec2i { x: p.x, y: p.y - s.y * 2 }
    } else {
        p
    };
    let s1 = if e.col.is_some() {
        Vec2i { x: s.x * 13 / 10, y: s.y * 5 }
    } else {
        s
    };
    let s2 = if e.home.is_some() {
        Vec2i { x: s1.x * 13 / 10, y: s1.y * 13 / 10 }
    } else {
        s1
    };
    (p1, s2)
}

/// Whether the cursor point falls in a slot entity's inflated region.
pub open spec fn slot_hit(e: EntityRec, c: Vec2i) -> bool {
    spec_in_region(c, spec_slot_region(e).0, spec_slot_region(e).1)
}

/// Deck-slot hover pass: set each deck slot's flag to whether the
/// cursor occupies its (uninflated) region; no transition events — the
/// flag only feeds the deck-click and pointer-icon logic. An absent
/// cursor changes nothing.
pub fn hover_deck_system(cursor: &Cursor, arena: &mut Vec<EntityRec>)
    requires
        arena_dims_ok(old(arena)@),
        cursor.position is Some ==> -COORD_LIMIT <= cursor.position->0.x <= COORD_LIMIT
            && -COORD_LIMIT <= cursor.position->0.y <= COORD_LIMIT,
    ensures
        final(arena)@.len() == old(arena)@.len(),
        cursor.position is None ==> final(arena)@ == old(arena)@,
        cursor.position is Some ==> forall|i: int|
            0 <= i < old(arena)@.len() ==> final(arena)@[i] == if deck_slot_filter(
                #[trigger] old(arena)@[i],
            ) {
                with_hover(
                    old(arena)@[i],
                    spec_in_region(
                        cursor.position->0,
                        old(arena)@[i].pos.xy(),
                        spec_effective_size(old(arena)@[i]),
                    ),
                )
            } else {
                old(arena)@[i]
            },
{
    let c = match cursor.position {
        None => {
            return ;
        },
        Some(c) => c,
    };
    let n = arena.len();
    let mut k: usize = 0;
    while k < n
        invariant
            n == arena@.len(),
            n == old(arena)@.len(),
            k <= n,
            arena_dims_ok(old(arena)@),
            -COORD_LIMIT <= c.x <= COORD_LIMIT,
            -COORD_LIMIT <= c.y <= COORD_LIMIT,
            forall|i: int| k as int <= i < n as int ==> arena@[i] == old(arena)@[i],
            forall|i: int|
                0 <= i < k as int ==> arena@[i] == if deck_slot_filter(#[trigger] old(arena)@[i]) {
                    with_hover(
                        old(arena)@[i],
                        spec_in_region(
                            c,
                            old(arena)@[i].pos.xy(),
                            spec_effective_size(old(arena)@[i]),
                        ),
                    )
                } else {
                    old(arena)@[i]
                },
        decreases n - k as int,
    {
        let mut e = arena[k];
        if e.deck_pos && e.hoverable && e.is_slot {
            let size = match e.size {
                Some(s) => s,
                None => Vec2i { x: 1, y: 1 },
            };
            let is_hovering = in_region(c, Vec2i { x: e.pos.x, y: e.pos.y }, size);
            e.hover.hovering = is_hovering;
            arena[k] = e;
        }
        k = k + 1;
    }
}

/// The enter events the play/home-slot pass emits over the first `k`
/// entities, in index order.
pub open spec fn spec_slot_enters(arena: Seq<EntityRec>, c: Vec2i, k: nat) -> Seq<HoverEnterEvent>
    decreases k,
{
    if k == 0 {
        Seq::empty()
    } else {
        let prev = spec_slot_enters(arena, c, (k - 1) as nat);
        let i = k - 1;
        if play_slot_filter(arena[i]) && slot_hit(arena[i], c) && !arena[i].hover.hovering {
            prev.push(HoverEnterEvent(i as usize))
        } else {
            prev
        }
    }
}

/// The exit events the play/home-slot pass emits over the first `k`
/// entities, in index order.
pub open spec fn spec_slot_exits(arena: Seq<EntityRec>, c: Vec2i, k: nat) -> Seq<HoverExitEvent>
    decreases k,
{
    if k == 0 {
        Seq::empty()
    } else {
        let prev = spec_slot_exits(arena, c, (k - 1) as nat);
        let i = k - 1;
        if play_slot_filter(arena[i]) && !slot_hit(arena[i], c) && arena[i].hover.hovering {
            prev.push(HoverExitEvent(i as usize))
        } else {
            prev
        }
    }
}

/// Play/home-slot hover pass: set each such slot's flag to whether the
/// cursor occupies its inflated region, emitting an enter or exit
/// event on each transition; every slot is judged independently (no
/// topmost tie-break between slots). An absent cursor changes nothing.
pub fn hover_play_slot_system(
    cursor: &Cursor,
    arena: &mut Vec<EntityRec>,
    enter_q: &mut Vec<HoverEnterEvent>,
    exit_q: &mut Vec<HoverExitEvent>,
)
    requires
        arena_dims_ok(old(arena)@),
        cursor.position is Some ==> -COORD_LIMIT <= cursor.position->0.x <= COORD_LIMIT
            && -COORD_LIMIT <= cursor.position->0.y <= COORD_LIMIT,
    ensures
        final(arena)@.len() == old(arena)@.len(),
        cursor.position is None ==> final(arena)@ == old(arena)@ && final(enter_q)@ == old(
            enter_q,
        )@ && final(exit_q)@ == old(exit_q)@,
        cursor.position is Some ==> {
            let c = cursor.position->0;
            &&& forall|i: int|
                0 <= i < old(arena)@.len() ==> final(arena)@[i] == if play_slot_filter(
                    #[trigger] old(arena)@[i],
                ) {
                    with_hover(old(arena)@[i], slot_hit(old(arena)@[i], c))
                } else {
                    old(arena)@[i]
                }
            &&& final(enter_q)@ == old(enter_q)@ + spec_slot_enters(
                old(arena)@,
                c,
                old(arena)@.len(),
            )
            &&& final(exit_q)@ == old(exit_q)@ + spec_slot_exits(
                old(arena)@,
                c,
                old(arena)@.len(),
            )
        },
{
    let c = match cursor.position {
        None => {
            return ;
        },
        Some(c) => c,
    };
    let n = arena.len();
    let mut k: usize = 0;
    while k < n
        invariant
            n == arena@.len(),
            n == old(arena)@.len(),
            k <= n,
            arena_dims_ok(old(arena)@),
            -COORD_LIMIT <= c.x <= COORD_LIMIT,
            -COORD_LIMIT <= c.y <= COORD_LIMIT,
            forall|i: int| k as int <= i < n as int ==> arena@[i] == old(arena)@[i],
            forall|i: int|
                0 <= i < k as int ==> arena@[i] == if play_slot_filter(#[trigger] old(arena)@[i]) {
                    with_hover(old(arena)@[i], slot_hit(old(arena)@[i], c))
                } else {
                    old(arena)@[i]
                },
            enter_q@ == old(enter_q)@ + spec_slot_enters(old(arena)@, c, k as nat),
            exit_q@ == old(exit_q)@ + spec_slot_exits(old(arena)@, c, k as nat),
        decreases n - k as int,
    {
        let mut e = arena[k];
        if e.hoverable && e.is_slot && (e.col.is_some() || e.home.is_some()) {
            proof {
                assert(entity_dims_ok(old(arena)@[k as int]));
            }
            let (region_pos, region_size) = slot_region(&e);
            let is_hovering = in_region(c, region_pos, region_size);
            if is_hovering && !e.hover.hovering {
                e.hover.hovering = true;
                arena[k] = e;
                enter_q.push(HoverEnterEvent(k));
            } else if !is_hovering && e.hover.hovering {
                e.hover.hovering = false;
                arena[k] = e;
                exit_q.push(HoverExitEvent(k));
            }
            proof {
                assert(arena@[k as int] == with_hover(
                    old(arena)@[k as int],
                    slot_hit(old(arena)@[k as int], c),
                ));
            }
        }
        k = k + 1;
    }
}

/// Clear every card entity's hover flag, with an exit event for each
/// that was set, when the cursor has left the window; a present cursor
/// leaves everything unchanged.
pub fn reset_hover_flags(
    cursor: &Cursor,
    arena: &mut Vec<EntityRec>,
    exit_q: &mut Vec<HoverExitEvent>,
)
    ensures
        final(arena)@.len() == old(arena)@.len(),
        cursor.position is Some ==> final(arena)@ == old(arena)@ && final(exit_q)@ == old(
            exit_q,
        )@,
        cursor.position is None ==> {
            &&& forall|i: int|
                0 <= i < old(arena)@.len() ==> final(arena)@[i] == if card_filter(
                    #[trigger] old(arena)@[i],
                ) {
                    with_hover(old(arena)@[i], false)
                } else {
                    old(arena)@[i]
                }
            &&& final(exit_q)@ == old(exit_q)@ + spec_card_exits(
                old(arena)@,
                None,
                old(arena)@.len(),
            )
        },
{
    if cursor.position.is_some() {
        return ;
    }
    let n = arena.len();
    let mut k: usize = 0;
    while k < n
        invariant
            n == arena@.len(),
            k <= n,
            forall|i: int| k as int <= i < n as int ==> arena@[i] == old(arena)@[i],
            forall|i: int|
                0 <= i < k as int ==> arena@[i] == if card_filter(#[trigger] old(arena)@[i]) {
                    with_hover(old(arena)@[i], false)
                } else {
                    old(arena)@[i]
                },
            exit_q@ == old(exit_q)@ + spec_card_exits(old(arena)@, None, k as nat),
        decreases n - k as int,
    {
        let mut e = arena[k];
        if e.hoverable && e.card.is_some() && !e.is_slot {
            if e.hover.hovering {
                exit_q.push(HoverExitEvent(k));
                e.hover.hovering = false;
                arena[k] = e;
            }
        }
        proof {
            if card_filter(old(arena)@[k as int]) {
                assert(arena@[k as int] == with_hover(old(arena)@[k as int], false));
            }
        }
        k = k + 1;
    }
}

} // verus!
