//! A terminal dog-walk animation, as a verified library.
//!
//! The library computes every byte that the animation writes to the
//! terminal: sprite rows trimmed to the visible part of the screen, cursor
//! control sequences, whole frames, and the walk's step-by-step state. A
//! thin binary around it owns the terminal and the clock: it queries the
//! screen size, writes the computed frames, and sleeps between them.

use vstd::prelude::*;

pub mod render;
pub mod sprite;
pub mod term;
pub mod text;
pub mod walk;

verus! {

/// Width of the dog sprite in character columns.
pub const DOG_WIDTH: usize = 12;

/// Height of the dog sprite in rows, not counting its leading blank row.
pub const DOG_HEIGHT: u16 = 4;

} // verus!
