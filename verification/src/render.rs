//! Frame composition.
//!
//! Each frame of the animation is one string of cursor-control sequences
//! and sprite text, flushed to the terminal in a single write. The
//! contracts here state every character of that string: the save/hide
//! prologue, the blanks that clear the previously drawn region, each
//! sprite row addressed to its screen row and clipped to the terminal
//! width, and the restore/show epilogue.

use vstd::prelude::*;

use crate::DOG_HEIGHT;
use crate::DOG_WIDTH;
use crate::sprite::dog_frame_rows;
use crate::sprite::dog_frame_rows_of;
use crate::sprite::dog_sitting_rows;
use crate::sprite::dog_sitting_rows_of;
use crate::sprite::droppings;
use crate::sprite::droppings_of;
use crate::term::goto_of;
use crate::term::goto_seq;
use crate::term::hide_of;
use crate::term::hide_seq;
use crate::term::restore_of;
use crate::term::restore_seq;
use crate::term::save_of;
use crate::term::save_seq;
use crate::term::show_of;
use crate::term::show_seq;
use crate::text::trim_line_end;
use crate::text::trim_line_end_exec;
use crate::text::trim_line_start;
use crate::text::trim_line_start_exec;
use crate::walk::WalkState;

verus! {

/// The text that draws `lines` with its top-left corner at column `x`,
/// row `y`: each line is preceded by the sequence that moves the cursor
/// to its row.
pub open spec fn multi_line_of(x: u16, y: u16, lines: Seq<Seq<char>>) -> Seq<char>
    decreases lines.len(),
{
    if lines.len() == 0 {
        Seq::empty()
    } else {
        multi_line_of(x, y, lines.drop_last()).add(
            goto_of(x, (y as int + lines.len() - 1) as u16),
        ).add(lines.last())
    }
}

/// The text that blanks one row of `w` cells starting at column `x`,
/// row `y`: each cell is addressed, then overwritten with a space.
pub open spec fn clear_row_of(x: u16, y: u16, w: int) -> Seq<char>
    decreases w,
{
    if w <= 0 {
        Seq::empty()
    } else {
        clear_row_of(x, y, w - 1).add(goto_of((x as int + w - 1) as u16, y)).add(seq![' '])
    }
}

/// The text that blanks a `w` by `h` rectangle of cells with its top-left
/// corner at column `x`, row `y`.
pub open spec fn clear_area_of(x: u16, y: u16, w: int, h: int) -> Seq<char>
    decreases h,
{
    if h <= 0 {
        Seq::empty()
    } else {
        clear_area_of(x, y, w, h - 1).add(clear_row_of(x, (y as int + h - 1) as u16, w))
    }
}

/// The sprite rows as they fit on a screen `width` columns wide when the
/// sprite's left edge is at column `pos_x`: untouched while the whole
/// sprite width fits, trimmed from the end of each row at the right edge,
/// and trimmed from the start of each row when the left edge is off
/// screen.
pub open spec fn clipped_dog_lines(lines: Seq<Seq<char>>, pos_x: int, width: int) -> Seq<
    Seq<char>,
> {
    if width - pos_x > DOG_WIDTH {
        lines
    } else if pos_x < 0 {
        lines.map_values(|l: Seq<char>| trim_line_start(l, width + pos_x))
    } else {
        lines.map_values(|l: Seq<char>| trim_line_end(l, width - pos_x))
    }
}

/// The prologue written before each frame: save the cursor position, then
/// hide the cursor.
pub fn start_write() -> (r: String)
    ensures
        r@ == save_of().add(hide_of()),
{
    let mut out = save_seq();
    out.append(hide_seq().as_str());
    out
}

/// The epilogue written after each frame: restore the cursor position,
/// then show the cursor again.
pub fn end_write() -> (r: String)
    ensures
        r@ == restore_of().add(show_of()),
{
    let mut out = restore_seq();
    out.append(show_seq().as_str());
    out
}

/// The text that draws the rows of `msg` with the first row at column
/// `x`, row `y`, and each following row one screen row further down.
pub fn write_multi_line_message_from_position(x: u16, y: u16, msg: &Vec<String>) -> (r: String)
    requires
        1 <= x,
        1 <= y,
        y as int + msg@.len() <= 65536,
    ensures
        r@ == multi_line_of(x, y, msg@.map_values(|t: String| t@)),
{
    let ghost ls = msg@.map_values(|t: String| t@);
    let mut out = String::new();
    let mut i: usize = 0;
    proof {
        assert(out@ =~= multi_line_of(x, y, ls.take(0)));
    }
    while i < msg.len()
        invariant
            1 <= x,
            1 <= y,
            y as int + msg@.len() <= 65536,
            ls == msg@.map_values(|t: String| t@),
            i <= msg@.len(),
            out@ == multi_line_of(x, y, ls.take(i as int)),
        decreases msg@.len() - i,
    {
        let row: u16 = y + (i as u16);
        let g = goto_seq(x, row);
        out.append(g.as_str());
        out.append(msg[i].as_str());
        i += 1;
        proof {
            assert(ls.take(i as int).drop_last() =~= ls.take(i as int - 1));
            assert(ls.take(i as int).last() == ls[i as int - 1]);
        }
    }
    proof {
        assert(ls.take(msg@.len() as int) =~= ls);
    }
    out
}

/// The text that blanks a `width` by `height` rectangle of cells with its
/// top-left corner at column `x`, row `y`.
pub fn clear_area(x: u16, y: u16, width: u16, height: u16) -> (r: String)
    requires
        1 <= x,
        1 <= y,
        x as int + width as int <= 65536,
        y as int + height as int <= 65536,
    ensures
        r@ == clear_area_of(x, y, width as int, height as int),
{
    let mut out = String::new();
    let mut i: u16 = 0;
    proof {
        assert(out@ =~= clear_area_of(x, y, width as int, 0));
    }
    while i < height
        invariant
            1 <= x,
            1 <= y,
            x as int + width as int <= 65536,
            y as int + height as int <= 65536,
            i <= height,
            out@ == clear_area_of(x, y, width as int, i as int),
        decreases height - i,
    {
        let row: u16 = y + i;
        let mut j: u16 = 0;
        proof {
            assert(clear_row_of(x, row, 0) =~= Seq::<char>::empty());
            assert(out@ =~= clear_area_of(x, y, width as int, i as int).add(
                clear_row_of(x, row, 0),
            ));
        }
        while j < width
            invariant
                1 <= x,
                1 <= y,
                x as int + width as int <= 65536,
                y as int + height as int <= 65536,
                i < height,
                row == y + i,
                j <= width,
                out@ == clear_area_of(x, y, width as int, i as int).add(
                    clear_row_of(x, row, j as int),
                ),
            decreases width - j,
        {
            let g = goto_seq(x + j, row);
            out.append(g.as_str());
            out.append(" ");
            j += 1;
            proof {
                reveal_strlit(" ");
                assert(" "@ =~= seq![' ']);
            }
        }
        i += 1;
    }
    out
}

/// The sprite rows clipped against the screen edges for a sprite whose
/// left edge is at column `pos_x` on a screen `width` columns wide.
pub fn clip_sprite_rows(rows: &Vec<String>, pos_x: i32, width: u16) -> (r: Vec<String>)
    requires
        pos_x <= width,
    ensures
        r@.map_values(|t: String| t@) == clipped_dog_lines(
            rows@.map_values(|t: String| t@),
            pos_x as int,
            width as int,
        ),
{
    let ghost ls = rows@.map_values(|t: String| t@);
    let whole: bool = (width as i64) - (pos_x as i64) > DOG_WIDTH as i64;
    let keep: usize = if whole {
        0
    } else if pos_x < 0 {
        if (width as i64) + (pos_x as i64) >= 0 {
            ((width as i64) + (pos_x as i64)) as usize
        } else {
            0
        }
    } else {
        (width - (pos_x as u16)) as usize
    };
    let mut out: Vec<String> = Vec::new();
    let mut i: usize = 0;
    while i < rows.len()
        invariant
            pos_x <= width,
            ls == rows@.map_values(|t: String| t@),
            i <= rows@.len(),
            out@.len() == i,
            whole == (width - pos_x > DOG_WIDTH),
            !whole && pos_x < 0 ==> keep as int == if width + pos_x >= 0 {
                width + pos_x
            } else {
                0
            },
            !whole && pos_x >= 0 ==> keep as int == width - pos_x,
            forall|k: int|
                0 <= k < i ==> #[trigger] out@[k]@ == clipped_dog_lines(
                    ls,
                    pos_x as int,
                    width as int,
                )[k],
        decreases rows@.len() - i,
    {
        if whole {
            out.push(rows[i].as_str().to_owned());
        } else if pos_x < 0 {
            out.push(trim_line_start_exec(rows[i].as_str(), keep));
            proof {
                if width + pos_x < 0 {
                    assert(trim_line_start(ls[i as int], width + pos_x) =~= trim_line_start(
                        ls[i as int],
                        keep as int,
                    ));
                }
            }
        } else {
            out.push(trim_line_end_exec(rows[i].as_str(), keep));
        }
        i += 1;
    }
    proof {
        assert(out@.map_values(|t: String| t@) =~= clipped_dog_lines(
            ls,
            pos_x as int,
            width as int,
        ));
    }
    out
}

/// One walking frame: the prologue, the blanks over the previously drawn
/// region (one row below its top, keeping the ground line), the clipped
/// walking pose at the current position, and the epilogue.
pub open spec fn walk_frame_of(state: WalkState, width: u16) -> Seq<char> {
    let cleared = match state.prev {
        Option::None => Seq::<char>::empty(),
        Option::Some(p) => clear_area_of(
            p.0 as u16,
            (p.1 + 1) as u16,
            DOG_WIDTH as int,
            DOG_HEIGHT - 1,
        ),
    };
    save_of().add(hide_of()).add(cleared).add(
        multi_line_of(
            state.x as u16,
            state.y as u16,
            clipped_dog_lines(dog_frame_rows_of(state.frame as int), state.x as int, width as int),
        ),
    ).add(restore_of()).add(show_of())
}

/// The text written for one walking frame.
pub fn render_walk_frame(state: &WalkState, width: u16) -> (r: String)
    requires
        state.frame < 2,
        1 <= state.x <= width,
        1 <= state.y,
        state.y as int + 5 <= 65536,
        width as int + DOG_WIDTH as int <= 65536,
        match state.prev {
            Option::None => true,
            Option::Some(p) => 1 <= p.0 <= width && 1 <= p.1 && p.1 as int + DOG_HEIGHT as int
                <= 65536,
        },
    ensures
        r@ == walk_frame_of(*state, width),
{
    let mut out = start_write();
    match state.prev {
        Option::None => {},
        Option::Some(p) => {
            let c = clear_area(
                p.0 as u16,
                (p.1 + 1) as u16,
                DOG_WIDTH as u16,
                DOG_HEIGHT - 1,
            );
            out.append(c.as_str());
        },
    }
    let rows = dog_frame_rows(state.frame);
    let clipped = clip_sprite_rows(&rows, state.x, width);
    proof {
        assert(dog_frame_rows_of(state.frame as int).len() == 5);
        assert(clipped_dog_lines(
            dog_frame_rows_of(state.frame as int),
            state.x as int,
            width as int,
        ).len() == 5);
        assert(clipped@.map_values(|t: String| t@).len() == clipped@.len());
    }
    let body = write_multi_line_message_from_position(state.x as u16, state.y as u16, &clipped);
    out.append(body.as_str());
    let tail = end_write();
    out.append(tail.as_str());
    proof {
        assert(out@ =~= walk_frame_of(*state, width));
    }
    out
}

/// One sitting frame: the prologue, the sitting pose at column `x`,
/// row `y`, and the epilogue.
pub open spec fn sit_frame_of(x: u16, y: u16) -> Seq<char> {
    save_of().add(hide_of()).add(multi_line_of(x, y, dog_sitting_rows_of())).add(
        restore_of(),
    ).add(show_of())
}

/// The text written for the sitting pause.
pub fn render_sit_frame(x: u16, y: u16) -> (r: String)
    requires
        1 <= x,
        1 <= y,
        y as int + 5 <= 65536,
    ensures
        r@ == sit_frame_of(x, y),
{
    let mut out = start_write();
    let rows = dog_sitting_rows();
    let body = write_multi_line_message_from_position(x, y, &rows);
    out.append(body.as_str());
    let tail = end_write();
    out.append(tail.as_str());
    proof {
        assert(out@ =~= sit_frame_of(x, y));
    }
    out
}

/// The droppings left behind by a dog sitting at column `x`, row `y`:
/// the glyph lands two columns to the right of the sprite's left edge,
/// one row below its bottom row, followed by the epilogue.
pub open spec fn droppings_frame_of(x: u16, y: u16) -> Seq<char> {
    goto_of((x + 2) as u16, (y as int + DOG_HEIGHT + 1) as u16).add(droppings_of()).add(
        restore_of(),
    ).add(show_of())
}

/// The text written for the droppings glyph.
pub fn render_droppings_frame(x: u16, y: u16) -> (r: String)
    requires
        1 <= x,
        1 <= y,
        x as int + 2 <= 65535,
        y as int + DOG_HEIGHT as int + 1 <= 65535,
    ensures
        r@ == droppings_frame_of(x, y),
{
    let mut out = goto_seq(x + 2, y + DOG_HEIGHT + 1);
    out.append(droppings());
    let tail = end_write();
    out.append(tail.as_str());
    proof {
        assert(out@ =~= droppings_frame_of(x, y));
    }
    out
}

} // verus!
