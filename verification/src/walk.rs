//! The walk, one step at a time.
//!
//! The dog enters at column 1 on a randomly chosen row, advances one
//! column per frame, alternates its two walking poses every four columns,
//! sits once just past the middle of the screen, and is done as soon as
//! its column exceeds the terminal width. The caller drives the loop: it
//! renders a frame for the current state, writes it, sleeps, and advances.

use vstd::prelude::*;

use crate::DOG_HEIGHT;

verus! {

/// The column past which the dog pauses to sit: half the terminal width,
/// rounded up.
pub open spec fn sit_column(width: u16) -> int {
    (width + 1) / 2
}

/// The state of one walk across the screen.
pub struct WalkState {
    /// Current column of the sprite's left edge; the walk starts at 1.
    pub x: i32,
    /// Row of the sprite's top; fixed for the whole walk.
    pub y: i32,
    /// Which of the two walking poses is drawn, `0` or `1`.
    pub frame: usize,
    /// Whether the sit-and-droppings pause has already happened.
    pub has_pooped: bool,
    /// The position drawn by the previous frame, cleared before the next
    /// frame is drawn; `None` before the first frame.
    pub prev: Option<(i32, i32)>,
}

impl WalkState {
    /// A fresh walk entering at column 1, row `start_y`.
    pub fn new(start_y: u16) -> (s: WalkState)
        requires
            1 <= start_y,
        ensures
            s.x == 1,
            s.y == start_y,
            s.frame == 0,
            !s.has_pooped,
            s.prev is None,
    {
        WalkState { x: 1, y: start_y as i32, frame: 0, has_pooped: false, prev: None }
    }

    /// The walk is over exactly when the column has passed the right edge
    /// of the terminal.
    pub fn done(&self, width: u16) -> (r: bool)
        ensures
            r == (self.x > width),
    {
        self.x > width as i32
    }

    /// One step of the walk: the column advances by exactly 1, the row is
    /// unchanged, the pose toggles on every fourth column, and the old
    /// position is remembered so the next frame can clear it.
    pub fn advance(&mut self)
        requires
            old(self).x < i32::MAX,
            old(self).frame < 2,
        ensures
            final(self).x == old(self).x + 1,
            final(self).y == old(self).y,
            final(self).prev == Some((old(self).x, old(self).y)),
            final(self).has_pooped == old(self).has_pooped,
            final(self).frame == if (old(self).x + 1) % 4 == 0 {
                ((old(self).frame + 1) % 2) as int
            } else {
                old(self).frame as int
            },
    {
        self.prev = Some((self.x, self.y));
        self.x = self.x + 1;
        if self.x % 4 == 0 {
            self.frame = (self.frame + 1) % 2;
        }
    }

    /// The dog sits exactly once, at the first frame whose column lies past
    /// the middle of the screen.
    pub fn sit_due(&self, width: u16) -> (r: bool)
        ensures
            r == (self.x > sit_column(width) && !self.has_pooped),
    {
        self.x > (width / 2 + width % 2) as i32 && !self.has_pooped
    }

    /// Record that the sit-and-droppings pause has happened; nothing else
    /// changes.
    pub fn mark_pooped(&mut self)
        ensures
            final(self).x == old(self).x,
            final(self).y == old(self).y,
            final(self).frame == old(self).frame,
            final(self).prev == old(self).prev,
            final(self).has_pooped,
    {
        self.has_pooped = true;
    }
}

/// A walk at column `start` on a terminal `width` columns wide ends after
/// exactly `width + 1 - start` steps of one column each: after `m` steps
/// the column is `start + m`, still on screen for every `m` before that
/// bound and past the right edge the moment the bound is reached.
pub proof fn lemma_walk_terminates(start: int, width: int, m: int)
    requires
        1 <= start <= width,
        0 <= m,
    ensures
        m < width + 1 - start ==> start + m <= width,
        m >= width + 1 - start ==> start + m > width,
{
}

/// Relies on `rand::random_range` over an inclusive integer range: for a
/// nonempty range it returns a uniformly sampled value within the range
/// (and panics only on an empty range, which the precondition rules out).
#[verifier::external_body]
fn random_in(lo: u16, hi: u16) -> (r: u16)
    requires
        lo <= hi,
    ensures
        lo <= r <= hi,
{
    rand::random_range(lo..=hi)
}

/// A random starting row for a walk, leaving room for the sprite and a
/// ground line below it: at least 1, at most `height - DOG_HEIGHT - 2`.
pub fn pick_start_row(height: u16) -> (r: u16)
    requires
        height >= DOG_HEIGHT + 3,
    ensures
        1 <= r <= height - DOG_HEIGHT - 2,
{
    random_in(1, height - DOG_HEIGHT - 2)
}

} // verus!
