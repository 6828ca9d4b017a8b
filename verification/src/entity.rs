//! The interactive-entity arena: each record owns a position, an
//! optional hit-test size, hover state, and the optional drag, move and
//! flip sub-states a system may attach; systems address records by
//! their stable index in the arena.

use vstd::prelude::*;

use crate::card::Card;
use crate::geom::{size_ok, vec2_ok, vec3_ok, Vec2i, Vec3i, COORD_LIMIT};

verus! {

/// Scale factor corresponding to a card drawn at its natural size.
pub const SCALE_ONE: i64 = 1000;

/// Scale factor of a card enlarged while hovered.
pub const HOVER_SCALE: i64 = 1100;

/// Whether the pointer currently occupies an entity's hit region.
#[derive(Clone, Copy, PartialEq, Eq, Structural, Debug)]
pub struct HoverState {
    pub hovering: bool,
}

impl Default for HoverState {
    /// Not hovering.
    fn default() -> (r: HoverState)
        ensures
            !r.hovering,
    {
        HoverState { hovering: false }
    }
}

/// The pointer's world position this frame, or `None` while the
/// pointer is outside the window.
#[derive(Clone, Copy, PartialEq, Eq, Structural, Debug)]
pub struct Cursor {
    pub position: Option<Vec2i>,
}

impl Default for Cursor {
    /// No pointer position known yet.
    fn default() -> (r: Cursor)
        ensures
            r.position is None,
    {
        Cursor { position: None }
    }
}

/// An active move animation: head toward `target` at `speed` world
/// units per second.
#[derive(Clone, Copy, PartialEq, Eq, Structural, Debug)]
pub struct MoveTo {
    pub target: Vec3i,
    pub speed: i64,
}

/// An active flip animation: `progress` is the rotation angle so far in
/// microradians, advanced by `speed` microradians per second; `flipped`
/// latches once the visible face has been swapped at the half turn.
#[derive(Clone, Copy, PartialEq, Eq, Structural, Debug)]
pub struct Flipping {
    pub speed: i64,
    pub flipped: bool,
    pub progress: i64,
}

/// An active drag: where the entity stood when the drag began, and the
/// fixed offset from the cursor that preserves the grab point.
#[derive(Clone, Copy, PartialEq, Eq, Structural, Debug)]
pub struct Dragging {
    pub original_position: Vec3i,
    pub offset: Vec2i,
}

/// Which image of a card entity the renderer should draw.
#[derive(Clone, Copy, PartialEq, Eq, Structural, Debug)]
pub enum CardFace {
    Front,
    Back,
}

/// The pointer entered an entity's hit region; carries the arena index.
#[derive(Clone, Copy, PartialEq, Eq, Structural, Debug)]
pub struct HoverEnterEvent(pub usize);

/// The pointer left an entity's hit region; carries the arena index.
#[derive(Clone, Copy, PartialEq, Eq, Structural, Debug)]
pub struct HoverExitEvent(pub usize);

/// One interactive entity: a bundle of optional capabilities over a
/// world position. Cards carry their `Card` identity; slots carry the
/// board anchor they mark.
#[derive(Clone, Copy, Debug)]
pub struct EntityRec {
    /// World position; `z` is the render depth (higher draws on top and
    /// wins hover tie-breaks).
    pub pos: Vec3i,
    /// Horizontal scale, in thousandths; negative while a flip mirrors.
    pub scale_x: i64,
    /// Vertical scale, in thousandths.
    pub scale_y: i64,
    /// Rotation angle about the vertical axis, in microradians.
    pub rotation: i64,
    /// Hit-test extent; entities without one get a unit region.
    pub size: Option<Vec2i>,
    /// Which image of a card to draw.
    pub face: CardFace,
    /// The card this entity renders, if it is a card.
    pub card: Option<Card>,
    pub hoverable: bool,
    pub hover: HoverState,
    /// Board-anchor marker (deck slot, draw slot, home or column slot).
    pub is_slot: bool,
    /// At the deck (stock) position.
    pub deck_pos: bool,
    /// At the draw (waste) position.
    pub draw_pos: bool,
    /// Home (foundation) index this entity is anchored to.
    pub home: Option<u32>,
    /// Tableau column this entity is anchored to.
    pub col: Option<u32>,
    pub draggable: bool,
    pub dragging: Option<Dragging>,
    pub move_to: Option<MoveTo>,
    pub flipping: Option<Flipping>,
}

impl EntityRec {
    /// A plain static entity at `pos`: unscaled, unrotated, no
    /// capabilities attached.
    pub fn plain(pos: Vec3i) -> (e: EntityRec)
        ensures
            e == (EntityRec {
                pos,
                scale_x: SCALE_ONE,
                scale_y: SCALE_ONE,
                rotation: 0,
                size: None,
                face: CardFace::Back,
                card: None,
                hoverable: false,
                hover: HoverState { hovering: false },
                is_slot: false,
                deck_pos: false,
                draw_pos: false,
                home: None,
                col: None,
                draggable: false,
                dragging: None,
                move_to: None,
                flipping: None,
            }),
    {
        EntityRec {
            pos,
            scale_x: SCALE_ONE,
            scale_y: SCALE_ONE,
            rotation: 0,
            size: None,
            face: CardFace::Back,
            card: None,
            hoverable: false,
            hover: HoverState { hovering: false },
            is_slot: false,
            deck_pos: false,
            draw_pos: false,
            home: None,
            col: None,
            draggable: false,
            dragging: None,
            move_to: None,
            flipping: None,
        }
    }
}

/// The card hover pass looks at hoverable card entities that are not
/// slots.
pub open spec fn card_filter(e: EntityRec) -> bool {
    e.hoverable && e.card is Some && !e.is_slot
}

/// Card entities resting at the deck (stock) position.
pub open spec fn deck_card_filter(e: EntityRec) -> bool {
    card_filter(e) && e.deck_pos && !e.draw_pos
}

/// Card entities resting at the draw (waste) position.
pub open spec fn draw_card_filter(e: EntityRec) -> bool {
    card_filter(e) && e.draw_pos && !e.deck_pos
}

/// The hit-test extent of an entity; a unit region when none is set.
pub open spec fn spec_effective_size(e: EntityRec) -> Vec2i {
    match e.size {
        Some(s) => s,
        None => Vec2i { x: 1, y: 1 },
    }
}

/// The coordinate bounds every per-frame system expects of a record.
pub open spec fn entity_dims_ok(e: EntityRec) -> bool {
    &&& vec3_ok(e.pos)
    &&& (e.size is Some ==> size_ok(e.size->0))
    &&& (e.dragging is Some ==> {
        &&& vec3_ok(e.dragging->0.original_position)
        &&& -2 * COORD_LIMIT <= e.dragging->0.offset.x <= 2 * COORD_LIMIT
        &&& -2 * COORD_LIMIT <= e.dragging->0.offset.y <= 2 * COORD_LIMIT
    })
}

/// The coordinate bounds hold across the whole arena.
pub open spec fn arena_dims_ok(arena: Seq<EntityRec>) -> bool {
    forall|i: int| 0 <= i < arena.len() ==> entity_dims_ok(#[trigger] arena[i])
}

/// Whether some card or deck-position entity is hovered; decides the
/// pointer icon the window should show.
pub fn any_hovering(arena: &Vec<EntityRec>) -> (r: bool)
    ensures
        r == exists|i: int|
            0 <= i < arena@.len() && (#[trigger] arena@[i].card is Some || arena@[i].deck_pos)
                && arena@[i].hover.hovering,
{
    let mut k: usize = 0;
    while k < arena.len()
        invariant
            k <= arena@.len(),
            forall|i: int|
                0 <= i < k as int ==> !((#[trigger] arena@[i].card is Some || arena@[i].deck_pos)
                    && arena@[i].hover.hovering),
        decreases arena@.len() - k as int,
    {
        let e = &arena[k];
        if (e.card.is_some() || e.deck_pos) && e.hover.hovering {
            return true;
        }
        k = k + 1;
    }
    false
}

} // verus!
