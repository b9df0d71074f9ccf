//! The plain palette: a colour drawn at its own weight.

use vstd::prelude::*;
use crate::style::{sgr, sgr_text};

verus! {

/// The colours of the plain palette.
#[derive(Clone, Copy, Debug, PartialEq, Eq)]
pub enum Color {
    BrightBlue,
    Blue,
    BrightRed,
    Red,
    BrightWhite,
    White,
    Purple,
    BrightPurple,
    Black,
    Pink,
    BrightPink,
    Green,
    BrightGreen,
}

/// The weight a colour is drawn at: 1 for bold, 0 for regular.
pub open spec fn weight(color: Color) -> nat {
    match color {
        Color::BrightRed | Color::BrightPurple | Color::BrightPink => 1,
        _ => 0,
    }
}

/// The SGR colour parameter. `BrightPink` shares that of `BrightPurple`.
pub open spec fn code(color: Color) -> nat {
    match color {
        Color::BrightBlue => 94,
        Color::Blue => 34,
        Color::BrightRed => 91,
        Color::Red => 31,
        Color::BrightWhite => 97,
        Color::White => 37,
        Color::Purple => 35,
        Color::BrightPurple => 95,
        Color::Black => 30,
        Color::Pink => 95,
        Color::BrightPink => 95,
        Color::Green => 32,
        Color::BrightGreen => 92,
    }
}

/// What `colorize` returns.
pub open spec fn colorized(text: Seq<char>, color: Color) -> Seq<char> {
    sgr(weight(color), code(color), text)
}

/// Renders `text` in the given colour.
pub fn colorize(text: &str, color: Color) -> (out: String)
    ensures
        out@ == colorized(text@, color),
{
    let ansi_weight: u8 = match color {
        Color::BrightRed | Color::BrightPurple | Color::BrightPink => 1,
        _ => 0,
    };
    let ansi_color: u8 = match color {
        Color::BrightBlue => 94,
        Color::Blue => 34,
        Color::BrightRed => 91,
        Color::Red => 31,
        Color::BrightWhite => 97,
        Color::White => 37,
        Color::Purple => 35,
        Color::BrightPurple => 95,
        Color::Black => 30,
        Color::Pink => 95,
        Color::BrightPink => 95,
        Color::Green => 32,
        Color::BrightGreen => 92,
    };
    sgr_text(ansi_weight, ansi_color, text)
}

} // verus!
