//! Cursor-control sequences.
//!
//! Every byte the animation sends to the terminal is an ANSI control
//! sequence or sprite text. The sequences themselves come from termion;
//! each is obtained through one trusted wrapper whose contract states the
//! exact characters produced, so that the frame-composition contracts can
//! pin down whole frames character by character.

use vstd::prelude::*;

verus! {

/// The decimal digit character for `d`, for `0 <= d <= 9`.
pub open spec fn decimal_digit(d: int) -> char {
    if d == 0 {
        '0'
    } else if d == 1 {
        '1'
    } else if d == 2 {
        '2'
    } else if d == 3 {
        '3'
    } else if d == 4 {
        '4'
    } else if d == 5 {
        '5'
    } else if d == 6 {
        '6'
    } else if d == 7 {
        '7'
    } else if d == 8 {
        '8'
    } else {
        '9'
    }
}

/// The decimal digits of `n`, most significant first, without padding.
pub open spec fn decimal_of(n: int) -> Seq<char>
    decreases n,
{
    if n < 10 {
        seq![decimal_digit(n)]
    } else {
        decimal_of(n / 10).push(decimal_digit(n % 10))
    }
}

/// The control sequence that moves the cursor to column `x`, row `y`
/// (both one-based): `ESC [ <y> ; <x> H`.
pub open spec fn goto_of(x: u16, y: u16) -> Seq<char> {
    seq!['\u{1b}', '['].add(decimal_of(y as int)).add(seq![';']).add(decimal_of(x as int)).add(
        seq!['H'],
    )
}

/// The control sequence that hides the cursor: `ESC [ ? 2 5 l`.
pub open spec fn hide_of() -> Seq<char> {
    seq!['\u{1b}', '[', '?', '2', '5', 'l']
}

/// The control sequence that shows the cursor: `ESC [ ? 2 5 h`.
pub open spec fn show_of() -> Seq<char> {
    seq!['\u{1b}', '[', '?', '2', '5', 'h']
}

/// The control sequence that saves the cursor position: `ESC [ s`.
pub open spec fn save_of() -> Seq<char> {
    seq!['\u{1b}', '[', 's']
}

/// The control sequence that restores the saved cursor position: `ESC [ u`.
pub open spec fn restore_of() -> Seq<char> {
    seq!['\u{1b}', '[', 'u']
}

/// Relies on the `Display` impl of `termion::cursor::Goto`, which writes
/// `"\x1B[{};{}H"` with the row first and the column second, both in
/// decimal. `Goto` is one-based, so both coordinates must be positive.
#[verifier::external_body]
pub(crate) fn goto_seq(x: u16, y: u16) -> (r: String)
    requires
        1 <= x,
        1 <= y,
    ensures
        r@ == goto_of(x, y),
{
    format!("{}", termion::cursor::Goto(x, y))
}

/// Relies on the `Display` impl of `termion::cursor::Hide`, which writes
/// the fixed sequence `"\x1B[?25l"`.
#[verifier::external_body]
pub(crate) fn hide_seq() -> (r: String)
    ensures
        r@ == hide_of(),
{
    format!("{}", termion::cursor::Hide)
}

/// Relies on the `Display` impl of `termion::cursor::Show`, which writes
/// the fixed sequence `"\x1B[?25h"`.
#[verifier::external_body]
pub(crate) fn show_seq() -> (r: String)
    ensures
        r@ == show_of(),
{
    format!("{}", termion::cursor::Show)
}

/// Relies on the `Display` impl of `termion::cursor::Save`, which writes
/// the fixed sequence `"\x1B[s"`.
#[verifier::external_body]
pub(crate) fn save_seq() -> (r: String)
    ensures
        r@ == save_of(),
{
    format!("{}", termion::cursor::Save)
}

/// Relies on the `Display` impl of `termion::cursor::Restore`, which
/// writes the fixed sequence `"\x1B[u"`.
#[verifier::external_body]
pub(crate) fn restore_seq() -> (r: String)
    ensures
        r@ == restore_of(),
{
    format!("{}", termion::cursor::Restore)
}

} // verus!
