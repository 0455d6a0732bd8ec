//! The dog sprites.
//!
//! Two walking poses, one sitting pose, and the droppings glyph. Each pose
//! is a fixed sequence of five rows; the first row is blank, so drawing a
//! pose at row `y` leaves row `y` itself untouched.

use vstd::prelude::*;

verus! {

/// The rows of the walking pose with index `frame` (`0` or `1`); the two
/// poses differ only in the legs.
pub open spec fn dog_frame_rows_of(frame: int) -> Seq<Seq<char>> {
    if frame == 0 {
        seq![
            ""@,
            " _      __ "@,
            " \\\\____{(''o "@,
            "  (     \\_` "@,
            " /_)-/_)_) "@,
        ]
    } else {
        seq![
            ""@,
            " _      __ "@,
            " \\\\____{(''o "@,
            "  (     \\_` "@,
            "  \\_)\\_)\\_) "@,
        ]
    }
}

/// The rows of the sitting pose.
pub open spec fn dog_sitting_rows_of() -> Seq<Seq<char>> {
    seq![
        ""@,
        "     ___"@,
        " _  / {(''o "@,
        " \\\\/   \\_` "@,
        "  /_)\u{203e}\\_)\\_)"@,
    ]
}

/// The droppings glyph.
pub open spec fn droppings_of() -> Seq<char> {
    "\u{1f4a9}"@
}

/// The rows of the walking pose with index `frame`.
pub fn dog_frame_rows(frame: usize) -> (r: Vec<String>)
    requires
        frame < 2,
    ensures
        r@.map_values(|t: String| t@) == dog_frame_rows_of(frame as int),
{
    let mut rows: Vec<String> = Vec::new();
    rows.push("".to_owned());
    rows.push(" _      __ ".to_owned());
    rows.push(" \\\\____{(''o ".to_owned());
    rows.push("  (     \\_` ".to_owned());
    if frame == 0 {
        rows.push(" /_)-/_)_) ".to_owned());
    } else {
        rows.push("  \\_)\\_)\\_) ".to_owned());
    }
    proof {
        assert(rows@.map_values(|t: String| t@) =~= dog_frame_rows_of(frame as int));
    }
    rows
}

/// The rows of the sitting pose.
pub fn dog_sitting_rows() -> (r: Vec<String>)
    ensures
        r@.map_values(|t: String| t@) == dog_sitting_rows_of(),
{
    let mut rows: Vec<String> = Vec::new();
    rows.push("".to_owned());
    rows.push("     ___".to_owned());
    rows.push(" _  / {(''o ".to_owned());
    rows.push(" \\\\/   \\_` ".to_owned());
    rows.push("  /_)\u{203e}\\_)\\_)".to_owned());
    proof {
        assert(rows@.map_values(|t: String| t@) =~= dog_sitting_rows_of());
    }
    rows
}

/// The droppings glyph.
pub fn droppings() -> (r: &'static str)
    ensures
        r@ == droppings_of(),
{
    "\u{1f4a9}"
}

} // verus!
