//! Drag controller: a press on a hovered card starts dragging that
//! card together with every card stacked after it in its pile, holding
//! the button moves the dragged entities with the cursor at a fixed
//! grab offset, and releasing snaps every dragged entity back to its
//! exact pre-drag position.

use vstd::prelude::*;

use crate::board::BoardState;
use crate::card::Card;
use crate::entity::{arena_dims_ok, Cursor, Dragging, EntityRec};
use crate::geom::{Vec2i, Vec3i, COORD_LIMIT};

verus! {

/// Index of the first occurrence of `card` in `pile`, or -1.
pub open spec fn first_index_of(pile: Seq<Card>, card: Card) -> int
    decreases pile.len(),
{
    if pile.len() == 0 {
        -1
    } else if pile[0] == card {
        0
    } else {
        let r = first_index_of(pile.drop_first(), card);
        if r < 0 {
            -1
        } else {
            r + 1
        }
    }
}

/// The cards from the first occurrence of `card` to the top of `pile`
/// (the card itself and everything stacked after it); empty when the
/// card is not in the pile.
pub open spec fn pile_suffix_from(pile: Seq<Card>, card: Card) -> Seq<Card> {
    let k = first_index_of(pile, card);
    if k < 0 {
        Seq::empty()
    } else {
        pile.subrange(k, pile.len() as int)
    }
}

/// Search the piles in order; the first pile holding `card` supplies
/// the suffix from it, and no later pile is consulted.
pub open spec fn find_in_piles(piles: Seq<Seq<Card>>, card: Card) -> Seq<Card>
    decreases piles.len(),
{
    if piles.len() == 0 {
        Seq::empty()
    } else if first_index_of(piles[0], card) >= 0 {
        pile_suffix_from(piles[0], card)
    } else {
        find_in_piles(piles.drop_first(), card)
    }
}

/// The drag set of a card: the partial stack above it in the first play
/// pile holding it, else in the first home pile holding it; empty when
/// it sits in no pile.
pub open spec fn spec_drag_set(play: Seq<Seq<Card>>, home: Seq<Seq<Card>>, card: Card) -> Seq<
    Card,
> {
    let from_play = find_in_piles(play, card);
    if from_play.len() > 0 {
        from_play
    } else {
        find_in_piles(home, card)
    }
}

/// The sequences held by a vector of piles.
pub open spec fn piles_view(piles: Seq<Vec<Card>>) -> Seq<Seq<Card>> {
    Seq::new(piles.len(), |i: int| piles[i]@)
}

/// What `first_index_of` returns is the first occurrence: the card is
/// there and nowhere earlier; -1 means the card is absent.
pub proof fn lemma_first_index_of(pile: Seq<Card>, card: Card)
    ensures
        ({
            let k = first_index_of(pile, card);
            &&& k >= 0 ==> 0 <= k < pile.len() && pile[k] == card && forall|j: int|
                0 <= j < k ==> pile[j] != card
            &&& k < 0 ==> forall|j: int| 0 <= j < pile.len() ==> pile[j] != card
        }),
    decreases pile.len(),
{
    if pile.len() == 0 {
    } else if pile[0] == card {
    } else {
        lemma_first_index_of(pile.drop_first(), card);
        let rest = pile.drop_first();
        let k = first_index_of(pile, card);
        if k >= 0 {
            assert(pile[k] == rest[k - 1]);
            assert forall|j: int| 0 <= j < k implies pile[j] != card by {
                if j > 0 {
                    assert(pile[j] == rest[j - 1]);
                }
            }
        } else {
            assert forall|j: int| 0 <= j < pile.len() implies pile[j] != card by {
                if j > 0 {
                    assert(pile[j] == rest[j - 1]);
                }
            }
        }
    }
}

/// Dragging a card found at index `k` of a pile of length `n` drags
/// exactly the `n - k` cards from index `k` to `n - 1` inclusive.
pub proof fn lemma_drag_set_is_stack_above(pile: Seq<Card>, card: Card, k: int)
    requires
        0 <= k < pile.len(),
        pile[k] == card,
        forall|j: int| 0 <= j < k ==> pile[j] != card,
    ensures
        pile_suffix_from(pile, card) == pile.subrange(k, pile.len() as int),
        pile_suffix_from(pile, card).len() == pile.len() - k,
{
    lemma_first_index_of(pile, card);
    let fi = first_index_of(pile, card);
    assert(fi >= 0);
    assert(fi == k);
}

/// An entity as a drag starting on cursor point `c` leaves it: the drag
/// state records its current position and grab offset, and its depth is
/// raised by 100 so it renders above all static content.
pub open spec fn spec_start_entity(e: EntityRec, c: Vec2i) -> EntityRec {
    EntityRec {
        pos: Vec3i { x: e.pos.x, y: e.pos.y, z: (e.pos.z + 100) as i64 },
        dragging: Some(
            Dragging {
                original_position: e.pos,
                offset: Vec2i { x: (e.pos.x - c.x) as i64, y: (e.pos.y - c.y) as i64 },
            },
        ),
        ..e
    }
}

/// An entity as one held-button frame leaves it: repositioned to the
/// cursor plus its grab offset; depth and everything else unchanged.
pub open spec fn spec_drag_entity(e: EntityRec, c: Vec2i) -> EntityRec {
    let d = e.dragging->0;
    EntityRec {
        pos: Vec3i {
            x: (c.x + d.offset.x) as i64,
            y: (c.y + d.offset.y) as i64,
            z: e.pos.z,
        },
        ..e
    }
}

/// An entity as the button release leaves it: snapped back to its
/// pre-drag position, the drag state removed.
pub open spec fn spec_stop_entity(e: EntityRec) -> EntityRec {
    EntityRec { pos: e.dragging->0.original_position, dragging: None, ..e }
}

/// A dragged entity after any number of held-button frames, one cursor
/// point per frame.
pub open spec fn spec_drag_many(e: EntityRec, cs: Seq<Vec2i>) -> EntityRec
    decreases cs.len(),
{
    if cs.len() == 0 {
        e
    } else {
        spec_drag_many(spec_drag_entity(e, cs[0]), cs.drop_first())
    }
}

/// Held-button frames never touch the recorded drag state.
pub proof fn lemma_drag_many_keeps_dragging(e: EntityRec, cs: Seq<Vec2i>)
    requires
        e.dragging is Some,
    ensures
        spec_drag_many(e, cs).dragging == e.dragging,
    decreases cs.len(),
{
    if cs.len() > 0 {
        lemma_drag_many_keeps_dragging(spec_drag_entity(e, cs[0]), cs.drop_first());
    }
}

/// Releasing the button always returns a dragged entity to its exact
/// pre-drag position, however many frames it was dragged through and
/// wherever the cursor went: no partial commit.
pub proof fn lemma_drag_round_trip(e: EntityRec, c0: Vec2i, cs: Seq<Vec2i>)
    ensures
        ({
            let dropped = spec_stop_entity(spec_drag_many(spec_start_entity(e, c0), cs));
            &&& dropped.pos == e.pos
            &&& dropped.dragging is None
        }),
{
    lemma_drag_many_keeps_dragging(spec_start_entity(e, c0), cs);
}

/// Whether the drag-start pass takes `e` along: its card is in the drag
/// set, or there is no drag set and it is the hovered entity itself.
pub open spec fn should_drag(e: EntityRec, targets: Seq<Card>) -> bool {
    e.draggable && e.card is Some && (targets.contains(e.card->0) || (targets.len() == 0
        && e.hover.hovering))
}

/// A hovered draggable card entity whose card sits in some pile: the
/// entity a press turns into a stack drag.
pub open spec fn drag_candidate(e: EntityRec, play: Seq<Seq<Card>>, home: Seq<Seq<Card>>) -> bool {
    e.draggable && e.card is Some && e.hover.hovering && spec_drag_set(play, home, e.card->0).len()
        > 0
}

/// `t` is the first drag candidate of the arena.
pub open spec fn is_first_candidate(
    arena: Seq<EntityRec>,
    play: Seq<Seq<Card>>,
    home: Seq<Seq<Card>>,
    t: int,
) -> bool {
    &&& 0 <= t < arena.len()
    &&& drag_candidate(arena[t], play, home)
    &&& forall|j: int| 0 <= j < t ==> !drag_candidate(#[trigger] arena[j], play, home)
}

/// Index of the first occurrence of `card` in `pile`, if any.
fn find_first_index(pile: &Vec<Card>, card: Card) -> (r: Option<usize>)
    ensures
        match r {
            Some(i) => i as int == first_index_of(pile@, card),
            None => first_index_of(pile@, card) < 0,
        },
{
    let n = pile.len();
    let mut k: usize = 0;
    while k < n
        invariant
            n == pile@.len(),
            k <= n,
            forall|j: int| 0 <= j < k as int ==> pile@[j] != card,
        decreases n - k as int,
    {
        if pile[k] == card {
            proof {
                lemma_first_index_of(pile@, card);
            }
            return Some(k);
        }
        k = k + 1;
    }
    proof {
        lemma_first_index_of(pile@, card);
    }
    None
}

/// The suffix of the first pile of `piles` holding `card`, from that
/// card to the pile's top; empty when no pile holds it.
fn find_in_piles_exec(piles: &Vec<Vec<Card>>, card: Card) -> (r: Vec<Card>)
    ensures
        r@ == find_in_piles(piles_view(piles@), card),
{
    let n = piles.len();
    let ghost full = piles_view(piles@);
    proof {
        assert(full.skip(0) =~= full);
    }
    let mut k: usize = 0;
    while k < n
        invariant
            n == piles@.len(),
            k <= n,
            full == piles_view(piles@),
            find_in_piles(full, card) == find_in_piles(full.skip(k as int), card),
        decreases n - k as int,
    {
        let pile = &piles[k];
        proof {
            assert(full.skip(k as int)[0] == pile@);
        }
        match find_first_index(pile, card) {
            Some(idx) => {
                proof {
                    lemma_first_index_of(pile@, card);
                }
                let len = pile.len();
                let mut suffix: Vec<Card> = Vec::new();
                proof {
                    assert(suffix@ =~= pile@.subrange(idx as int, idx as int));
                }
                let mut j: usize = idx;
                while j < len
                    invariant
                        idx <= j <= len,
                        len == pile@.len(),
                        suffix@ == pile@.subrange(idx as int, j as int),
                    decreases len - j as int,
                {
                    suffix.push(pile[j]);
                    proof {
                        assert(pile@.subrange(idx as int, j + 1) =~= pile@.subrange(
                            idx as int,
                            j as int,
                        ).push(pile@[j as int]));
                    }
                    j = j + 1;
                }
                proof {
                    assert(find_in_piles(full.skip(k as int), card) == pile_suffix_from(
                        pile@,
                        card,
                    ));
                }
                return suffix;
            },
            None => {
                proof {
                    assert(full.skip(k as int).drop_first() =~= full.skip(k as int + 1));
                }
            },
        }
        k = k + 1;
    }
    proof {
        assert(full.skip(n as int).len() == 0);
    }
    Vec::new()
}

/// The full drag set of `card` on the current board: play piles are
/// searched before home piles.
fn find_drag_set(board_state: &BoardState, card: Card) -> (r: Vec<Card>)
    ensures
        r@ == spec_drag_set(
            piles_view(board_state.play_piles@),
            piles_view(board_state.home_piles@),
            card,
        ),
{
    let from_play = find_in_piles_exec(&board_state.play_piles, card);
    if from_play.len() > 0 {
        from_play
    } else {
        find_in_piles_exec(&board_state.home_piles, card)
    }
}

/// Whether `v` holds `card`.
fn contains_card(v: &Vec<Card>, card: Card) -> (r: bool)
    ensures
        r == v@.contains(card),
{
    let n = v.len();
    let mut k: usize = 0;
    while k < n
        invariant
            n == v@.len(),
            k <= n,
            forall|j: int| 0 <= j < k as int ==> v@[j] != card,
        decreases n - k as int,
    {
        if v[k] == card {
            return true;
        }
        k = k + 1;
    }
    false
}

/// Drag start. On the press edge, with the cursor present and nothing
/// already dragging: find the first hovered draggable card entity whose
/// card sits in a pile; every entity whose card is in that pile's
/// suffix from it joins the drag. With no such pile membership, the
/// hovered entities themselves are dragged alone. Each drag member
/// records its position and grab offset and is raised by 100 in depth.
/// A press while something is already dragging is ignored.
pub fn start_drag_system(
    just_pressed: bool,
    board_state: &BoardState,
    cursor: &Cursor,
    arena: &mut Vec<EntityRec>,
)
    requires
        arena_dims_ok(old(arena)@),
        cursor.position is Some ==> -COORD_LIMIT <= cursor.position->0.x <= COORD_LIMIT
            && -COORD_LIMIT <= cursor.position->0.y <= COORD_LIMIT,
    ensures
        final(arena)@.len() == old(arena)@.len(),
        !just_pressed ==> final(arena)@ == old(arena)@,
        just_pressed && cursor.position is None ==> final(arena)@ == old(arena)@,
        just_pressed && (exists|i: int|
            0 <= i < old(arena)@.len() && (#[trigger] old(arena)@[i]).dragging is Some)
            ==> final(arena)@ == old(arena)@,
        (just_pressed && cursor.position is Some && !(exists|i: int|
            0 <= i < old(arena)@.len() && (#[trigger] old(arena)@[i]).dragging is Some)) ==> {
            let c = cursor.position->0;
            let play = piles_view(board_state.play_piles@);
            let home = piles_view(board_state.home_piles@);
            &&& ((exists|j: int|
                0 <= j < old(arena)@.len() && drag_candidate(
                    #[trigger] old(arena)@[j],
                    play,
                    home,
                )) ==> exists|t: int| is_first_candidate(old(arena)@, play, home, t))
            &&& forall|t: int| #[trigger]
                is_first_candidate(old(arena)@, play, home, t) ==> {
                    let targets = spec_drag_set(play, home, old(arena)@[t].card->0);
                    forall|i: int|
                        0 <= i < old(arena)@.len() ==> final(arena)@[i] == if should_drag(
                            #[trigger] old(arena)@[i],
                            targets,
                        ) {
                            spec_start_entity(old(arena)@[i], c)
                        } else {
                            old(arena)@[i]
                        }
                }
            &&& (!(exists|j: int|
                0 <= j < old(arena)@.len() && drag_candidate(
                    #[trigger] old(arena)@[j],
                    play,
                    home,
                ))) ==> forall|i: int|
                0 <= i < old(arena)@.len() ==> final(arena)@[i] == if should_drag(
                    #[trigger] old(arena)@[i],
                    Seq::<Card>::empty(),
                ) {
                    spec_start_entity(old(arena)@[i], c)
                } else {
                    old(arena)@[i]
                }
        },
{
    if !just_pressed {
        return ;
    }
    let c = match cursor.position {
        None => {
            return ;
        },
        Some(c) => c,
    };
    let n = arena.len();

    let mut k: usize = 0;
    while k < n
        invariant
            n == arena@.len(),
            k <= n,
            forall|i: int| 0 <= i < k as int ==> (#[trigger] arena@[i]).dragging is None,
        decreases n - k as int,
    {
        if arena[k].dragging.is_some() {
            return ;
        }
        k = k + 1;
    }

    let ghost play = piles_view(board_state.play_piles@);
    let ghost home = piles_view(board_state.home_piles@);

    let mut targets: Vec<Card> = Vec::new();
    let mut found: Option<usize> = None;
    let mut k: usize = 0;
    while k < n
        invariant
            n == arena@.len(),
            k <= n,
            play == piles_view(board_state.play_piles@),
            home == piles_view(board_state.home_piles@),
            match found {
                None => targets@.len() == 0 && forall|j: int|
                    0 <= j < k as int ==> !drag_candidate(#[trigger] arena@[j], play, home),
                Some(t) => is_first_candidate(arena@, play, home, t as int) && targets@
                    == spec_drag_set(play, home, arena@[t as int].card->0),
            },
        decreases n - k as int,
    {
        if found.is_none() {
            let e = arena[k];
            if e.draggable && e.card.is_some() && e.hover.hovering {
                let card = match e.card {
                    Some(card) => card,
                    None => {
                        proof {
                            assert(false);
                        }
                        return ;
                    },
                };
                let set = find_drag_set(board_state, card);
                if set.len() > 0 {
                    targets = set;
                    found = Some(k);
                }
            }
        }
        k = k + 1;
    }

    let ghost targets_v = targets@;
    let mut k: usize = 0;
    while k < n
        invariant
            n == arena@.len(),
            n == old(arena)@.len(),
            k <= n,
            targets@ == targets_v,
            forall|i: int| k as int <= i < n as int ==> arena@[i] == old(arena)@[i],
            forall|i: int|
                0 <= i < k as int ==> arena@[i] == if should_drag(
                    #[trigger] old(arena)@[i],
                    targets_v,
                ) {
                    spec_start_entity(old(arena)@[i], c)
                } else {
                    old(arena)@[i]
                },
            arena_dims_ok(old(arena)@),
            -COORD_LIMIT <= c.x <= COORD_LIMIT,
            -COORD_LIMIT <= c.y <= COORD_LIMIT,
        decreases n - k as int,
    {
        let e = arena[k];
        if e.draggable && e.card.is_some() {
            let card = match e.card {
                Some(card) => card,
                None => {
                    proof {
                        assert(false);
                    }
                    return ;
                },
            };
            let in_targets = contains_card(&targets, card);
            if in_targets || (targets.len() == 0 && e.hover.hovering) {
                let mut e2 = e;
                e2.dragging = Some(
                    Dragging {
                        original_position: e.pos,
                        offset: Vec2i { x: e.pos.x - c.x, y: e.pos.y - c.y },
                    },
                );
                e2.pos.z = e.pos.z + 100;
                arena[k] = e2;
                proof {
                    assert(arena@[k as int] == spec_start_entity(old(arena)@[k as int], c));
                }
            }
        }
        k = k + 1;
    }
}

/// Drag continue. While the button is held and the cursor present,
/// every dragging entity follows the cursor at its grab offset; depth
/// is unaffected. An absent cursor moves nothing.
pub fn drag_system(pressed: bool, cursor: &Cursor, arena: &mut Vec<EntityRec>)
    requires
        arena_dims_ok(old(arena)@),
        cursor.position is Some ==> -COORD_LIMIT <= cursor.position->0.x <= COORD_LIMIT
            && -COORD_LIMIT <= cursor.position->0.y <= COORD_LIMIT,
    ensures
        final(arena)@.len() == old(arena)@.len(),
        !pressed ==> final(arena)@ == old(arena)@,
        pressed && cursor.position is None ==> final(arena)@ == old(arena)@,
        pressed && cursor.position is Some ==> forall|i: int|
            0 <= i < old(arena)@.len() ==> final(arena)@[i] == if (#[trigger] old(arena)@[i]).dragging is Some {
                spec_drag_entity(old(arena)@[i], cursor.position->0)
            } else {
                old(arena)@[i]
            },
{
    if !pressed {
        return ;
    }
    let c = match cursor.position {
        None => {
            return ;
        },
        Some(c) => c,
    };
    let n = arena.len();
    let mut k: usize = 0;
    while k < n
        invariant
            n == arena@.len(),
            n == old(arena)@.len(),
            k <= n,
            forall|i: int| k as int <= i < n as int ==> arena@[i] == old(arena)@[i],
            forall|i: int|
                0 <= i < k as int ==> arena@[i] == if (#[trigger] old(arena)@[i]).dragging
                    is Some {
                    spec_drag_entity(old(arena)@[i], c)
                } else {
                    old(arena)@[i]
                },
            arena_dims_ok(old(arena)@),
            -COORD_LIMIT <= c.x <= COORD_LIMIT,
            -COORD_LIMIT <= c.y <= COORD_LIMIT,
        decreases n - k as int,
    {
        let mut e = arena[k];
        match e.dragging {
            Some(d) => {
                e.pos.x = c.x + d.offset.x;
                e.pos.y = c.y + d.offset.y;
                arena[k] = e;
                proof {
                    assert(arena@[k as int] == spec_drag_entity(old(arena)@[k as int], c));
                }
            },
            None => {},
        }
        k = k + 1;
    }
}

/// Drag stop. On the release edge, every dragging entity snaps back to
/// its recorded pre-drag position and sheds its drag state,
/// unconditionally: no drop-target validation is performed here.
pub fn stop_drag_system(just_released: bool, arena: &mut Vec<EntityRec>)
    ensures
        final(arena)@.len() == old(arena)@.len(),
        !just_released ==> final(arena)@ == old(arena)@,
        just_released ==> forall|i: int|
            0 <= i < old(arena)@.len() ==> final(arena)@[i] == if (#[trigger] old(arena)@[i]).dragging is Some {
                spec_stop_entity(old(arena)@[i])
            } else {
                old(arena)@[i]
            },
{
    if !just_released {
        return ;
    }
    let n = arena.len();
    let mut k: usize = 0;
    while k < n
        invariant
            n == arena@.len(),
            n == old(arena)@.len(),
            k <= n,
            forall|i: int| k as int <= i < n as int ==> arena@[i] == old(arena)@[i],
            forall|i: int|
                0 <= i < k as int ==> arena@[i] == if (#[trigger] old(arena)@[i]).dragging
                    is Some {
                    spec_stop_entity(old(arena)@[i])
                } else {
                    old(arena)@[i]
                },
        decreases n - k as int,
    {
        let mut e = arena[k];
        match e.dragging {
            Some(d) => {
                e.pos = d.original_position;
                e.dragging = None;
                arena[k] = e;
                proof {
                    assert(arena@[k as int] == spec_stop_entity(old(arena)@[k as int]));
                }
            },
            None => {},
        }
        k = k + 1;
    }
}

} // verus!
