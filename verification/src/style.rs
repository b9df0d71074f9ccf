//! Terminal styling: a colour and a format, rendered as one SGR escape
//! sequence in front of the text and a reset behind it.

use vstd::prelude::*;
use crate::text::{decimal, push_decimal};

verus! {

/// The two blink speeds.
#[derive(Clone, Copy, Debug, PartialEq, Eq)]
pub enum Pisking {
    Slow,
    Fast,
}

/// How the text is drawn.
#[derive(Clone, Copy, Debug, PartialEq, Eq)]
pub enum Format {
    Default,
    Bold,
    Darker,
    Italic,
    Invert,
    Hidden,
    Sublinhed,
    Pisking(Pisking),
    Risk,
}

/// The colours a label can take.
#[derive(Clone, Copy, Debug, PartialEq, Eq)]
pub enum Color {
    BrightBlue,
    Blue,
    BrightRed,
    Red,
    BrightWhite,
    White,
    Purple,
    BrightPurple,
    Black,
    Green,
    BrightGreen,
}

/// The SGR parameter of a format.
pub open spec fn format_code(format: Format) -> nat {
    match format {
        Format::Default => 0,
        Format::Bold => 1,
        Format::Darker => 2,
        Format::Italic => 3,
        Format::Sublinhed => 4,
        Format::Pisking(Pisking::Slow) => 5,
        Format::Pisking(Pisking::Fast) => 6,
        Format::Invert => 7,
        Format::Hidden => 8,
        Format::Risk => 9,
    }
}

/// The SGR parameter of a colour. `White` is drawn as `BrightWhite`.
pub open spec fn color_code(color: Color) -> nat {
    match color {
        Color::BrightBlue => 94,
        Color::Blue => 34,
        Color::BrightRed => 91,
        Color::Red => 31,
        Color::BrightWhite => 97,
        Color::White => 97,
        Color::Purple => 35,
        Color::BrightPurple => 95,
        Color::Black => 30,
        Color::Green => 32,
        Color::BrightGreen => 92,
    }
}

/// The escape character that opens a control sequence.
pub open spec fn escape() -> char {
    '\x1b'
}

/// The sequence that switches every attribute off: `ESC [ 0 m`.
pub open spec fn reset() -> Seq<char> {
    seq![escape(), '[', '0', 'm']
}

/// `text` between `ESC [ first ; second m` and the reset sequence.
pub open spec fn sgr(first: nat, second: nat, text: Seq<char>) -> Seq<char> {
    seq![escape(), '['] + decimal(first) + seq![';'] + decimal(second) + seq!['m'] + text
        + reset()
}

/// What `format` returns.
pub open spec fn styled(text: Seq<char>, color: Color, format: Format) -> Seq<char> {
    sgr(format_code(format), color_code(color), text)
}

/// The number of characters that styling adds to a text.
pub open spec fn styling_width() -> nat {
    11
}

/// Wraps `text` in the escape sequence with the two parameters.
pub fn sgr_text(first: u8, second: u8, text: &str) -> (out: String)
    ensures
        out@ == sgr(first as nat, second as nat, text@),
{
    proof {
        reveal_strlit("\x1b[");
        reveal_strlit(";");
        reveal_strlit("m");
        reveal_strlit("\x1b[0m");
    }
    let mut out = String::from_str("\x1b[");
    push_decimal(&mut out, first as u64);
    out.append(";");
    push_decimal(&mut out, second as u64);
    out.append("m");
    out.append(text);
    out.append("\x1b[0m");
    assert(out@ =~= sgr(first as nat, second as nat, text@));
    out
}

/// Renders `text` in the given colour and format.
pub fn format(text: &str, color: Color, form: Format) -> (out: String)
    ensures
        out@ == styled(text@, color, form),
{
    let ansi_format: u8 = match form {
        Format::Default => 0,
        Format::Bold => 1,
        Format::Darker => 2,
        Format::Italic => 3,
        Format::Sublinhed => 4,
        Format::Pisking(Pisking::Slow) => 5,
        Format::Pisking(Pisking::Fast) => 6,
        Format::Invert => 7,
        Format::Hidden => 8,
        Format::Risk => 9,
    };
    let ansi_color: u8 = match color {
        Color::BrightBlue => 94,
        Color::Blue => 34,
        Color::BrightRed => 91,
        Color::Red => 31,
        Color::BrightWhite => 97,
        Color::White => 97,
        Color::Purple => 35,
        Color::BrightPurple => 95,
        Color::Black => 30,
        Color::Green => 32,
        Color::BrightGreen => 92,
    };
    sgr_text(ansi_format, ansi_color, text)
}

/// Styling adds eleven characters, whatever the colour and the format.
pub proof fn styled_len(text: Seq<char>, color: Color, format: Format)
    ensures
        styled(text, color, format).len() == text.len() + styling_width(),
        styled(text, color, format).subrange(7, 7 + text.len() as int) == text,
{
    let f = format_code(format);
    let c = color_code(color);
    assert(f < 10);
    assert(10 <= c < 100);
    assert(decimal(f).len() == 1);
    assert(decimal(c) =~= decimal(c / 10).push(crate::text::digit_char((c % 10) as int)));
    assert(decimal(c / 10).len() == 1);
    assert(decimal(c).len() == 2);
    assert(styled(text, color, format).subrange(7, 7 + text.len() as int) =~= text);
}

} // verus!
