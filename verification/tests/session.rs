use termbuffer::session;

#[test]
fn setup_clears_the_screen_and_hides_the_cursor() {
    let mut out = Vec::new();
    session::setup(&mut out);
    assert_eq!(out, b"\x1b[2J\x1b[?25l".to_vec());
}

#[test]
fn restore_resets_colors_clears_homes_and_shows_the_cursor() {
    let mut out = Vec::new();
    session::restore(&mut out);
    assert_eq!(out, b"\x1b[39m\x1b[49m\x1b[2J\x1b[1;1H\x1b[?25h".to_vec());
}

#[test]
fn session_text_is_appended_to_what_is_there() {
    let mut out = b"x".to_vec();
    session::setup(&mut out);
    session::restore(&mut out);
    assert_eq!(out, b"x\x1b[2J\x1b[?25l\x1b[39m\x1b[49m\x1b[2J\x1b[1;1H\x1b[?25h".to_vec());
}
