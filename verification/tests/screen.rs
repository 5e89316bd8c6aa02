use termbuffer::{Char, Color, Screen};

fn rendered(screen: &Screen) -> Vec<u8> {
    let mut out = Vec::new();
    screen.render(&mut out);
    out
}

/// Counts of what a run of output bytes holds: cursor moves, colour
/// changes, erasures, and bytes outside any control sequence.
fn tally(bytes: &[u8]) -> (usize, usize, usize, usize) {
    let (mut gotos, mut colors, mut clears, mut plain) = (0, 0, 0, 0);
    let mut i = 0;
    while i < bytes.len() {
        if bytes[i] == 0x1b && i + 1 < bytes.len() && bytes[i + 1] == b'[' {
            i += 2;
            while !bytes[i].is_ascii_alphabetic() {
                i += 1;
            }
            match bytes[i] {
                b'H' => gotos += 1,
                b'm' => colors += 1,
                b'J' => clears += 1,
                other => panic!("unknown sequence ending in {}", other),
            }
        } else {
            plain += 1;
        }
        i += 1;
    }
    (gotos, colors, clears, plain)
}

#[test]
fn fresh_screen_renders_only_the_two_resets() {
    assert_eq!(rendered(&Screen::new(4, 3)), b"\x1b[39m\x1b[49m".to_vec());
    assert_eq!(rendered(&Screen::new(1, 1)), b"\x1b[39m\x1b[49m".to_vec());
    assert_eq!(rendered(&Screen::new(0, 0)), b"\x1b[39m\x1b[49m".to_vec());
    assert_eq!(tally(&rendered(&Screen::new(4, 3))), (0, 2, 0, 0));
}

#[test]
fn fresh_screen_holds_two_blank_frames() {
    let screen = Screen::new(2, 3);
    assert_eq!(screen.previous.dims(), (2, 3));
    assert_eq!(screen.next.dims(), (2, 3));
    for row in 0..2 {
        for col in 0..3 {
            assert_eq!(screen.previous.get(row, col), Char::default());
            assert_eq!(screen.next.get(row, col), Char::default());
        }
    }
    assert!(screen.previous == screen.next);
}

#[test]
fn identical_frames_render_only_the_two_resets() {
    let mut screen = Screen::new(2, 2);
    let cell = Char::with_colors('w', Color::Red, Color::Blue);
    screen.previous.set(1, 0, cell);
    screen.next.set(1, 0, cell);
    assert_eq!(rendered(&screen), b"\x1b[39m\x1b[49m".to_vec());
}

#[test]
fn diff_redraw_draws_exactly_the_changed_cells() {
    let mut screen = Screen::new(3, 3);
    screen.next.set(0, 1, Char::new('a'));
    screen.next.set(1, 1, Char::with_fg('b', Color::Red));
    screen.next.set(2, 0, Char::with_colors('c', Color::Red, Color::Blue));
    let out = rendered(&screen);
    assert_eq!(
        out,
        b"\x1b[39m\x1b[49m\x1b[1;2Ha\x1b[2;2H\x1b[38;5;1mb\x1b[3;1H\x1b[48;5;4mc".to_vec()
    );
    assert_eq!(tally(&out), (3, 2 + 2, 0, 3));
}

#[test]
fn diff_redraw_counts_follow_the_number_of_changed_cells() {
    for k in 0..=6usize {
        let mut screen = Screen::new(2, 3);
        for i in 0..k {
            let fg = if i % 2 == 0 { Color::Cyan } else { Color::Rgb(i as u8, 0, 0) };
            let bg = if i % 3 == 0 { Color::Default } else { Color::White };
            screen.next.set(i / 3, i % 3, Char::with_colors('x', fg, bg));
        }
        let (gotos, colors, clears, plain) = tally(&rendered(&screen));
        assert_eq!(gotos, k);
        assert_eq!(plain, k);
        assert!(colors >= 2 && colors - 2 <= 2 * k);
        assert_eq!(clears, 0);
    }
}

#[test]
fn diff_redraw_skips_unchanged_cells_between_changed_ones() {
    let mut screen = Screen::new(1, 4);
    let kept = Char::with_fg('k', Color::Green);
    screen.previous.set(0, 1, kept);
    screen.next.set(0, 1, kept);
    screen.next.set(0, 0, Char::new('l'));
    screen.next.set(0, 3, Char::new('r'));
    assert_eq!(rendered(&screen), b"\x1b[39m\x1b[49m\x1b[1;1Hl\x1b[1;4Hr".to_vec());
}

#[test]
fn diff_redraw_draws_a_cell_that_became_blank() {
    let mut screen = Screen::new(1, 2);
    screen.previous.set(0, 1, Char::with_fg('o', Color::Yellow));
    assert_eq!(rendered(&screen), b"\x1b[39m\x1b[49m\x1b[1;2H ".to_vec());
}

#[test]
fn diff_redraw_changes_a_color_only_when_it_differs_from_the_last_one_set() {
    let mut screen = Screen::new(1, 4);
    screen.next.set(0, 0, Char::with_fg('a', Color::Red));
    screen.next.set(0, 1, Char::with_fg('b', Color::Red));
    screen.next.set(0, 2, Char::with_colors('c', Color::Red, Color::Black));
    screen.next.set(0, 3, Char::with_colors('d', Color::Default, Color::Black));
    assert_eq!(
        rendered(&screen),
        b"\x1b[39m\x1b[49m\x1b[1;1H\x1b[38;5;1ma\x1b[1;2Hb\x1b[1;3H\x1b[48;5;0mc\x1b[1;4H\x1b[39md"
            .to_vec()
    );
}

#[test]
fn diff_redraw_carries_the_colors_over_to_the_next_row() {
    let mut screen = Screen::new(2, 2);
    screen.next.set(0, 1, Char::with_colors('a', Color::Blue, Color::White));
    screen.next.set(1, 0, Char::with_colors('b', Color::Blue, Color::White));
    assert_eq!(
        rendered(&screen),
        b"\x1b[39m\x1b[49m\x1b[1;2H\x1b[38;5;4m\x1b[48;5;7ma\x1b[2;1Hb".to_vec()
    );
}

#[test]
fn redraw_diff_is_what_render_does_for_frames_of_one_size() {
    let mut screen = Screen::new(2, 2);
    screen.next.set(1, 1, Char::with_fg('z', Color::LightGreen));
    let mut direct = Vec::new();
    screen.redraw_diff(&mut direct);
    assert_eq!(direct, b"\x1b[39m\x1b[49m\x1b[2;2H\x1b[38;5;10mz".to_vec());
    assert_eq!(direct, rendered(&screen));
}

#[test]
fn full_redraw_of_a_blank_frame_positions_every_cell() {
    let screen = Screen::new(2, 3);
    let mut out = Vec::new();
    screen.redraw(&mut out);
    assert_eq!(
        out,
        b"\x1b[2J\x1b[1;1H\x1b[39m\x1b[49m \x1b[1;2H \x1b[1;3H \x1b[2;1H \x1b[2;2H \x1b[2;3H "
            .to_vec()
    );
    assert_eq!(tally(&out), (6, 2, 1, 6));
}

#[test]
fn full_redraw_compares_colors_with_the_cell_stored_before() {
    let mut screen = Screen::new(2, 2);
    screen.next.set(0, 0, Char::with_fg('a', Color::Red));
    screen.next.set(0, 1, Char::with_colors('b', Color::Red, Color::Blue));
    screen.next.set(1, 0, Char::with_colors('c', Color::Green, Color::Blue));
    screen.next.set(1, 1, Char::with_colors('d', Color::Green, Color::Blue));
    let mut out = Vec::new();
    screen.redraw(&mut out);
    assert_eq!(
        out,
        b"\x1b[2J\x1b[1;1H\x1b[38;5;1m\x1b[49ma\x1b[1;2H\x1b[48;5;4mb\x1b[2;1H\x1b[38;5;2mc\x1b[2;2Hd"
            .to_vec()
    );
}

#[test]
fn full_redraw_of_a_frame_without_cells_only_clears() {
    let mut out = Vec::new();
    Screen::new(0, 0).redraw(&mut out);
    assert_eq!(out, b"\x1b[2J".to_vec());
    let mut out = Vec::new();
    Screen::new(0, 7).redraw(&mut out);
    assert_eq!(out, b"\x1b[2J".to_vec());
    let mut out = Vec::new();
    Screen::new(7, 0).redraw(&mut out);
    assert_eq!(out, b"\x1b[2J".to_vec());
}

#[test]
fn first_column_compares_with_the_last_cell_of_the_row_above() {
    let mut screen = Screen::new(2, 3);
    screen.next.set(0, 2, Char::with_fg('e', Color::Magenta));
    screen.next.set(1, 0, Char::with_fg('f', Color::Magenta));
    let mut out = Vec::new();
    screen.redraw(&mut out);
    assert_eq!(
        out,
        b"\x1b[2J\x1b[1;1H\x1b[39m\x1b[49m \x1b[1;2H \x1b[1;3H\x1b[38;5;5me\x1b[2;1Hf\x1b[2;2H\x1b[39m \x1b[2;3H "
            .to_vec()
    );
}

#[test]
fn true_color_cell_at_the_origin_of_a_full_redraw() {
    let mut screen = Screen::new(1, 1);
    screen.next.set(0, 0, Char::with_colors('x', Color::Rgb(10, 20, 30), Color::Default));
    let mut out = Vec::new();
    screen.redraw(&mut out);
    assert_eq!(out, b"\x1b[2J\x1b[1;1H\x1b[38;2;10;20;30m\x1b[49mx".to_vec());
}

#[test]
fn origin_of_a_full_redraw_always_gets_both_colors() {
    let mut screen = Screen::new(4, 3);
    screen.next.set(0, 0, Char::with_colors('x', Color::Rgb(10, 20, 30), Color::Default));
    let mut out = Vec::new();
    screen.redraw(&mut out);
    let head = b"\x1b[2J\x1b[1;1H\x1b[38;2;10;20;30m\x1b[49mx\x1b[1;2H\x1b[39m ".to_vec();
    assert_eq!(out[..head.len()].to_vec(), head);
    assert_eq!(tally(&out), (12, 3, 1, 12));
}

#[test]
fn glyph_change_with_colors_kept_is_one_move_and_the_glyph_after_the_cell_colors() {
    let mut screen = Screen::new(1, 1);
    screen.prepare_next_frame(4, 3);
    screen.next.set(0, 0, Char::with_colors('A', Color::Red, Color::Default));
    let first = rendered(&screen);
    assert_eq!(first[..4].to_vec(), b"\x1b[2J".to_vec());
    assert_eq!(tally(&first), (12, 3, 1, 12));

    screen.prepare_next_frame(4, 3);
    screen.next.set(0, 0, Char::with_colors('B', Color::Red, Color::Default));
    let second = rendered(&screen);
    assert_eq!(second, b"\x1b[39m\x1b[49m\x1b[1;1H\x1b[38;5;1mB".to_vec());
    assert_eq!(tally(&second), (1, 2 + 1, 0, 1));
}

#[test]
fn glyph_change_in_default_colors_is_one_move_and_the_glyph() {
    let mut screen = Screen::new(1, 1);
    screen.prepare_next_frame(4, 3);
    screen.next.set(0, 0, Char::new('A'));
    rendered(&screen);
    screen.prepare_next_frame(4, 3);
    screen.next.set(0, 0, Char::new('B'));
    let second = rendered(&screen);
    assert_eq!(second, b"\x1b[39m\x1b[49m\x1b[1;1HB".to_vec());
    assert_eq!(tally(&second), (1, 2, 0, 1));
}

#[test]
fn next_frame_of_another_size_is_drawn_in_full() {
    let mut screen = Screen::new(2, 2);
    screen.prepare_next_frame(2, 3);
    let out = rendered(&screen);
    assert_eq!(out[..4].to_vec(), b"\x1b[2J".to_vec());
    assert_eq!(tally(&out), (6, 2, 1, 6));

    let mut screen = Screen::new(2, 2);
    screen.prepare_next_frame(3, 2);
    assert_eq!(rendered(&screen)[..4].to_vec(), b"\x1b[2J".to_vec());

    let mut screen = Screen::new(2, 3);
    screen.prepare_next_frame(3, 2);
    assert_eq!(rendered(&screen)[..4].to_vec(), b"\x1b[2J".to_vec());
}

#[test]
fn next_frame_of_the_same_size_is_drawn_as_a_diff() {
    let mut screen = Screen::new(2, 2);
    screen.prepare_next_frame(2, 2);
    screen.next.set(1, 1, Char::new('n'));
    let out = rendered(&screen);
    assert_eq!(out, b"\x1b[39m\x1b[49m\x1b[2;2Hn".to_vec());
    assert_eq!(tally(&out).2, 0);
}

#[test]
fn prepare_next_frame_keeps_what_was_drawn_as_the_baseline() {
    let mut screen = Screen::new(2, 2);
    let cell = Char::with_fg('p', Color::LightBlue);
    screen.next.set(0, 1, cell);
    screen.prepare_next_frame(3, 4);
    assert_eq!(screen.previous.dims(), (2, 2));
    assert_eq!(screen.previous.get(0, 1), cell);
    assert_eq!(screen.previous.get(0, 0), Char::default());
    assert_eq!(screen.next.dims(), (3, 4));
    for row in 0..3 {
        for col in 0..4 {
            assert_eq!(screen.next.get(row, col), Char::default());
        }
    }
}

#[test]
fn a_cell_drawn_again_unchanged_in_the_next_frame_costs_nothing() {
    let mut screen = Screen::new(2, 2);
    let cell = Char::with_fg('s', Color::LightRed);
    screen.next.set(1, 0, cell);
    rendered(&screen);
    screen.prepare_next_frame(2, 2);
    screen.next.set(1, 0, cell);
    assert_eq!(rendered(&screen), b"\x1b[39m\x1b[49m".to_vec());
}

#[test]
fn glyphs_are_written_as_utf8() {
    let mut screen = Screen::new(1, 3);
    screen.next.set(0, 0, Char::new('\u{e9}'));
    screen.next.set(0, 1, Char::new('\u{20ac}'));
    screen.next.set(0, 2, Char::new('\u{1f600}'));
    let mut expected = b"\x1b[39m\x1b[49m\x1b[1;1H".to_vec();
    expected.extend_from_slice(&[0xc3, 0xa9]);
    expected.extend_from_slice(b"\x1b[1;2H");
    expected.extend_from_slice(&[0xe2, 0x82, 0xac]);
    expected.extend_from_slice(b"\x1b[1;3H");
    expected.extend_from_slice(&[0xf0, 0x9f, 0x98, 0x80]);
    assert_eq!(rendered(&screen), expected);
}

#[test]
fn cursor_moves_count_from_one_and_name_the_row_first() {
    let mut screen = Screen::new(12, 300);
    screen.next.set(0, 0, Char::new('a'));
    screen.next.set(9, 0, Char::new('b'));
    screen.next.set(10, 99, Char::new('c'));
    screen.next.set(11, 299, Char::new('d'));
    assert_eq!(
        rendered(&screen),
        b"\x1b[39m\x1b[49m\x1b[1;1Ha\x1b[10;1Hb\x1b[11;100Hc\x1b[12;300Hd".to_vec()
    );
}

#[test]
fn rendering_appends_to_what_the_sink_holds() {
    let mut screen = Screen::new(1, 1);
    screen.next.set(0, 0, Char::new('t'));
    let mut out = b"kept".to_vec();
    screen.render(&mut out);
    assert_eq!(out, b"kept\x1b[39m\x1b[49m\x1b[1;1Ht".to_vec());
    screen.redraw(&mut out);
    assert_eq!(
        out,
        b"kept\x1b[39m\x1b[49m\x1b[1;1Ht\x1b[2J\x1b[1;1H\x1b[39m\x1b[49mt".to_vec()
    );
}

#[test]
fn largest_addressable_row_and_column_are_written_in_full() {
    let mut screen = Screen::new(65535, 1);
    screen.next.set(65534, 0, Char::new('v'));
    assert_eq!(rendered(&screen), b"\x1b[39m\x1b[49m\x1b[65535;1Hv".to_vec());
    let mut screen = Screen::new(1, 65535);
    screen.next.set(0, 65534, Char::new('h'));
    assert_eq!(rendered(&screen), b"\x1b[39m\x1b[49m\x1b[1;65535Hh".to_vec());
}

#[test]
fn full_redraw_names_the_row_of_a_cell_before_its_column() {
    let mut screen = Screen::new(2, 2);
    screen.prepare_next_frame(1, 2);
    screen.next.set(0, 0, Char::with_colors('a', Color::Red, Color::Default));
    screen.next.set(0, 1, Char::with_colors('b', Color::Red, Color::Blue));
    let mut out = Vec::new();
    screen.redraw(&mut out);
    assert_eq!(
        out,
        b"\x1b[2J\x1b[1;1H\x1b[38;5;1m\x1b[49ma\x1b[1;2H\x1b[48;5;4mb".to_vec()
    );
    assert_eq!(out, rendered(&screen));
}

#[test]
fn diff_redraw_names_the_row_of_a_cell_before_its_column() {
    let mut screen = Screen::new(3, 5);
    screen.next.set(2, 4, Char::new('q'));
    assert_eq!(rendered(&screen), b"\x1b[39m\x1b[49m\x1b[3;5Hq".to_vec());
    let mut screen = Screen::new(5, 3);
    screen.next.set(4, 0, Char::new('q'));
    assert_eq!(rendered(&screen), b"\x1b[39m\x1b[49m\x1b[5;1Hq".to_vec());
}

#[test]
fn fresh_screen_of_any_width_renders_only_the_two_resets() {
    assert_eq!(rendered(&Screen::new(1, 70000)), b"\x1b[39m\x1b[49m".to_vec());
    assert_eq!(rendered(&Screen::new(0, 100000)), b"\x1b[39m\x1b[49m".to_vec());
    assert_eq!(rendered(&Screen::new(65535, 2)), b"\x1b[39m\x1b[49m".to_vec());
}

#[test]
fn wide_frame_is_drawn_where_its_changes_lie_in_the_first_columns() {
    let mut screen = Screen::new(1, 70000);
    screen.next.set(0, 65534, Char::new('w'));
    assert_eq!(rendered(&screen), b"\x1b[39m\x1b[49m\x1b[1;65535Hw".to_vec());
}

#[test]
fn full_redraw_of_a_wide_frame_without_rows_only_clears() {
    let mut screen = Screen::new(1, 1);
    screen.prepare_next_frame(0, 70000);
    assert_eq!(rendered(&screen), b"\x1b[2J".to_vec());
}
