//! Core of a Klondike solitaire board: deck and board state, pointer
//! hit-testing with topmost-wins hover, a drag state machine, and the
//! move and flip animations, all over an arena of entity records with
//! integer world coordinates.

pub mod board;
pub mod card;
pub mod deal;
pub mod debug;
pub mod deck;
pub mod deck_click;
pub mod drag;
pub mod entity;
pub mod flip;
pub mod geom;
pub mod hover;
pub mod moveto;

pub use geom::{in_region, Vec2i, Vec3i};
