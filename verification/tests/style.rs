use lis::color::{colorize, Color as Plain};
use lis::style::{Color, Format, Pisking};

#[test]
fn bold_blue_text_is_wrapped_in_its_escape_sequence() {
    assert_eq!(lis::style::format("src", Color::Blue, Format::Bold), "\x1b[1;34msrc\x1b[0m");
}

#[test]
fn white_is_drawn_as_bright_white() {
    assert_eq!(lis::style::format("a", Color::White, Format::Default), "\x1b[0;97ma\x1b[0m");
    assert_eq!(lis::style::format("a", Color::BrightWhite, Format::Default), "\x1b[0;97ma\x1b[0m");
}

#[test]
fn every_format_has_its_own_parameter() {
    let formats = [
        (Format::Default, "0"),
        (Format::Bold, "1"),
        (Format::Darker, "2"),
        (Format::Italic, "3"),
        (Format::Sublinhed, "4"),
        (Format::Pisking(Pisking::Slow), "5"),
        (Format::Pisking(Pisking::Fast), "6"),
        (Format::Invert, "7"),
        (Format::Hidden, "8"),
        (Format::Risk, "9"),
    ];
    for (form, digit) in formats {
        assert_eq!(lis::style::format("x", Color::Red, form), format!("\x1b[{};31mx\x1b[0m", digit));
    }
}

#[test]
fn every_style_colour_has_its_parameter() {
    let colours = [
        (Color::BrightBlue, "94"),
        (Color::Blue, "34"),
        (Color::BrightRed, "91"),
        (Color::Red, "31"),
        (Color::BrightWhite, "97"),
        (Color::White, "97"),
        (Color::Purple, "35"),
        (Color::BrightPurple, "95"),
        (Color::Black, "30"),
        (Color::Green, "32"),
        (Color::BrightGreen, "92"),
    ];
    for (colour, code) in colours {
        assert_eq!(lis::style::format("x", colour, Format::Italic), format!("\x1b[3;{}mx\x1b[0m", code));
    }
}

#[test]
fn styling_an_empty_text_leaves_the_two_sequences() {
    assert_eq!(lis::style::format("", Color::White, Format::Darker), "\x1b[2;97m\x1b[0m");
    assert_eq!(lis::style::format("", Color::White, Format::Darker).chars().count(), 11);
}

#[test]
fn colorize_uses_the_plain_palette() {
    let palette = [
        (Plain::BrightBlue, "\x1b[0;94m"),
        (Plain::Blue, "\x1b[0;34m"),
        (Plain::BrightRed, "\x1b[1;91m"),
        (Plain::Red, "\x1b[0;31m"),
        (Plain::BrightWhite, "\x1b[0;97m"),
        (Plain::White, "\x1b[0;37m"),
        (Plain::Purple, "\x1b[0;35m"),
        (Plain::BrightPurple, "\x1b[1;95m"),
        (Plain::Black, "\x1b[0;30m"),
        (Plain::Pink, "\x1b[0;95m"),
        (Plain::BrightPink, "\x1b[1;95m"),
        (Plain::Green, "\x1b[0;32m"),
        (Plain::BrightGreen, "\x1b[0;92m"),
    ];
    for (colour, prefix) in palette {
        assert_eq!(colorize("name", colour), format!("{}name\x1b[0m", prefix));
    }
}
