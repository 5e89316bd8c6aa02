use termbuffer::sequences::emit;
use termbuffer::{Char, Color};

fn fg(color: Color) -> Vec<u8> {
    let mut out = Vec::new();
    color.write_fg(&mut out);
    out
}

fn bg(color: Color) -> Vec<u8> {
    let mut out = Vec::new();
    color.write_bg(&mut out);
    out
}

#[test]
fn default_color_is_the_terminal_default() {
    assert_eq!(Color::default(), Color::Default);
}

#[test]
fn default_color_resets_foreground_and_background() {
    assert_eq!(fg(Color::Default), b"\x1b[39m".to_vec());
    assert_eq!(bg(Color::Default), b"\x1b[49m".to_vec());
}

#[test]
fn dark_named_colors_select_palette_entries_zero_to_seven() {
    assert_eq!(fg(Color::Black), b"\x1b[38;5;0m".to_vec());
    assert_eq!(fg(Color::Red), b"\x1b[38;5;1m".to_vec());
    assert_eq!(fg(Color::Green), b"\x1b[38;5;2m".to_vec());
    assert_eq!(fg(Color::Yellow), b"\x1b[38;5;3m".to_vec());
    assert_eq!(fg(Color::Blue), b"\x1b[38;5;4m".to_vec());
    assert_eq!(fg(Color::Magenta), b"\x1b[38;5;5m".to_vec());
    assert_eq!(fg(Color::Cyan), b"\x1b[38;5;6m".to_vec());
    assert_eq!(fg(Color::White), b"\x1b[38;5;7m".to_vec());
    assert_eq!(bg(Color::Black), b"\x1b[48;5;0m".to_vec());
    assert_eq!(bg(Color::Red), b"\x1b[48;5;1m".to_vec());
    assert_eq!(bg(Color::Green), b"\x1b[48;5;2m".to_vec());
    assert_eq!(bg(Color::Yellow), b"\x1b[48;5;3m".to_vec());
    assert_eq!(bg(Color::Blue), b"\x1b[48;5;4m".to_vec());
    assert_eq!(bg(Color::Magenta), b"\x1b[48;5;5m".to_vec());
    assert_eq!(bg(Color::Cyan), b"\x1b[48;5;6m".to_vec());
    assert_eq!(bg(Color::White), b"\x1b[48;5;7m".to_vec());
}

#[test]
fn light_named_colors_select_palette_entries_eight_to_fifteen() {
    assert_eq!(fg(Color::LightBlack), b"\x1b[38;5;8m".to_vec());
    assert_eq!(fg(Color::LightRed), b"\x1b[38;5;9m".to_vec());
    assert_eq!(fg(Color::LightGreen), b"\x1b[38;5;10m".to_vec());
    assert_eq!(fg(Color::LightYellow), b"\x1b[38;5;11m".to_vec());
    assert_eq!(fg(Color::LightBlue), b"\x1b[38;5;12m".to_vec());
    assert_eq!(fg(Color::LightMagenta), b"\x1b[38;5;13m".to_vec());
    assert_eq!(fg(Color::LightCyan), b"\x1b[38;5;14m".to_vec());
    assert_eq!(fg(Color::LightWhite), b"\x1b[38;5;15m".to_vec());
    assert_eq!(bg(Color::LightBlack), b"\x1b[48;5;8m".to_vec());
    assert_eq!(bg(Color::LightRed), b"\x1b[48;5;9m".to_vec());
    assert_eq!(bg(Color::LightGreen), b"\x1b[48;5;10m".to_vec());
    assert_eq!(bg(Color::LightYellow), b"\x1b[48;5;11m".to_vec());
    assert_eq!(bg(Color::LightBlue), b"\x1b[48;5;12m".to_vec());
    assert_eq!(bg(Color::LightMagenta), b"\x1b[48;5;13m".to_vec());
    assert_eq!(bg(Color::LightCyan), b"\x1b[48;5;14m".to_vec());
    assert_eq!(bg(Color::LightWhite), b"\x1b[48;5;15m".to_vec());
}

#[test]
fn true_color_embeds_its_three_channels() {
    assert_eq!(fg(Color::Rgb(10, 20, 30)), b"\x1b[38;2;10;20;30m".to_vec());
    assert_eq!(bg(Color::Rgb(10, 20, 30)), b"\x1b[48;2;10;20;30m".to_vec());
}

#[test]
fn true_color_channels_are_not_clamped_or_padded() {
    assert_eq!(fg(Color::Rgb(0, 0, 0)), b"\x1b[38;2;0;0;0m".to_vec());
    assert_eq!(fg(Color::Rgb(255, 100, 9)), b"\x1b[38;2;255;100;9m".to_vec());
    assert_eq!(bg(Color::Rgb(1, 99, 200)), b"\x1b[48;2;1;99;200m".to_vec());
}

#[test]
fn colors_compare_by_tag_and_channels() {
    assert_eq!(Color::Red, Color::Red);
    assert_ne!(Color::Red, Color::LightRed);
    assert_eq!(Color::Rgb(1, 2, 3), Color::Rgb(1, 2, 3));
    assert_ne!(Color::Rgb(1, 2, 3), Color::Rgb(1, 2, 4));
    assert_ne!(Color::Rgb(0, 0, 0), Color::Black);
}

#[test]
fn writing_a_color_appends_to_what_is_there() {
    let mut out = b"abc".to_vec();
    Color::Blue.write_fg(&mut out);
    Color::Default.write_bg(&mut out);
    assert_eq!(out, b"abc\x1b[38;5;4m\x1b[49m".to_vec());
}

#[test]
fn emit_appends_text_as_utf8() {
    let mut out = vec![0x41u8];
    emit(&mut out, "b\u{e9}\u{20ac}");
    assert_eq!(out, vec![0x41, 0x62, 0xc3, 0xa9, 0xe2, 0x82, 0xac]);
}

#[test]
fn blank_cell_is_a_space_in_default_colors() {
    let blank = Char::default();
    assert_eq!(blank.glyph, ' ');
    assert_eq!(blank.color_fg, Color::Default);
    assert_eq!(blank.color_bg, Color::Default);
}

#[test]
fn cell_builders_default_the_colors_left_out() {
    assert_eq!(
        Char::new('q'),
        Char { glyph: 'q', color_fg: Color::Default, color_bg: Color::Default }
    );
    assert_eq!(
        Char::with_fg('q', Color::Cyan),
        Char { glyph: 'q', color_fg: Color::Cyan, color_bg: Color::Default }
    );
    assert_eq!(
        Char::with_colors('q', Color::Cyan, Color::Rgb(7, 8, 9)),
        Char { glyph: 'q', color_fg: Color::Cyan, color_bg: Color::Rgb(7, 8, 9) }
    );
}

#[test]
fn cells_compare_by_glyph_and_both_colors() {
    let a = Char::with_colors('a', Color::Red, Color::Blue);
    assert_eq!(a, Char::with_colors('a', Color::Red, Color::Blue));
    assert_ne!(a, Char::with_colors('b', Color::Red, Color::Blue));
    assert_ne!(a, Char::with_colors('a', Color::Green, Color::Blue));
    assert_ne!(a, Char::with_colors('a', Color::Red, Color::Default));
}

#[test]
fn cell_writes_its_own_foreground_and_background() {
    let cell = Char::with_colors('z', Color::Yellow, Color::Rgb(1, 2, 3));
    let mut out = Vec::new();
    cell.write_fg(&mut out);
    assert_eq!(out, b"\x1b[38;5;3m".to_vec());
    let mut out = Vec::new();
    cell.write_bg(&mut out);
    assert_eq!(out, b"\x1b[48;2;1;2;3m".to_vec());
}
