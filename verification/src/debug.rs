//! Debug overlay state: a toggle flag and the outline-box corners a
//! renderer draws around slot hit-regions while the overlay is on.

use vstd::prelude::*;

use crate::geom::{size_ok, vec2_ok, Vec2i};

verus! {

/// Whether the debug overlay (slot hit-region outlines) is shown.
#[derive(Clone, Copy, PartialEq, Eq, Structural, Debug)]
pub struct DebugMode {
    pub enabled: bool,
}

impl Default for DebugMode {
    /// Overlay off.
    fn default() -> (r: DebugMode)
        ensures
            !r.enabled,
    {
        DebugMode { enabled: false }
    }
}

/// Flip the overlay flag on the toggle key's just-pressed edge.
pub fn toggle_debug_mode(debug_mode: &mut DebugMode, just_pressed: bool)
    ensures
        final(debug_mode).enabled == if just_pressed {
            !old(debug_mode).enabled
        } else {
            old(debug_mode).enabled
        },
{
    if just_pressed {
        debug_mode.enabled = !debug_mode.enabled;
    }
}

/// The four corners of the outline box around the region centered at
/// `position` with extent `size`, in the order they are joined by
/// lines: top-left, top-right, bottom-right, bottom-left.
pub fn debug_box_corners(position: Vec2i, size: Vec2i) -> (r: (Vec2i, Vec2i, Vec2i, Vec2i))
    requires
        vec2_ok(position),
        size_ok(size),
    ensures
        r.0.x == position.x - size.x as int / 2 && r.0.y == position.y + size.y as int / 2,
        r.1.x == position.x + size.x as int / 2 && r.1.y == position.y + size.y as int / 2,
        r.2.x == position.x + size.x as int / 2 && r.2.y == position.y - size.y as int / 2,
        r.3.x == position.x - size.x as int / 2 && r.3.y == position.y - size.y as int / 2,
{
    let half_x = size.x / 2;
    let half_y = size.y / 2;
    (
        Vec2i { x: position.x - half_x, y: position.y + half_y },
        Vec2i { x: position.x + half_x, y: position.y + half_y },
        Vec2i { x: position.x + half_x, y: position.y - half_y },
        Vec2i { x: position.x - half_x, y: position.y - half_y },
    )
}

} // verus!
