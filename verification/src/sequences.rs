//! The control text that the terminal understands, stated as character
//! sequences, and the calls into `termion` that produce it.
//!
//! Every function below whose body is not verified formats one value of
//! `termion` (or one `char`) with `Display`; its contract states the text
//! that comes back.

use vstd::prelude::*;
use vstd::utf8::encode_utf8;

verus! {

/// The control sequence introducer, `ESC [`.
pub open spec fn csi() -> Seq<char> {
    seq!['\x1b', '[']
}

/// The character for the decimal digit `d`, for `d < 10`.
pub open spec fn digit(d: nat) -> char {
    (48 + d) as char
}

/// `n` written in base ten without leading zeros.
pub open spec fn decimal(n: nat) -> Seq<char>
    decreases n,
{
    if n < 10 {
        seq![digit(n)]
    } else {
        decimal(n / 10).push(digit(n % 10))
    }
}

/// Text that erases the whole screen: `ESC [ 2 J`.
pub open spec fn clear_all_text() -> Seq<char> {
    csi() + seq!['2', 'J']
}

/// Text that hides the cursor: `ESC [ ? 2 5 l`.
pub open spec fn hide_cursor_text() -> Seq<char> {
    csi() + seq!['?', '2', '5', 'l']
}

/// Text that shows the cursor: `ESC [ ? 2 5 h`.
pub open spec fn show_cursor_text() -> Seq<char> {
    csi() + seq!['?', '2', '5', 'h']
}

/// Text that moves the cursor to column `x` of row `y`, both counted from
/// one: `ESC [ y ; x H`, the row first.
pub open spec fn goto_text(x: nat, y: nat) -> Seq<char> {
    csi() + decimal(y) + seq![';'] + decimal(x) + seq!['H']
}

/// Text that restores the terminal's own foreground colour: `ESC [ 3 9 m`.
pub open spec fn reset_fg_text() -> Seq<char> {
    csi() + seq!['3', '9', 'm']
}

/// Text that restores the terminal's own background colour: `ESC [ 4 9 m`.
pub open spec fn reset_bg_text() -> Seq<char> {
    csi() + seq!['4', '9', 'm']
}

/// Text that selects entry `n` of the 256-colour palette as the foreground:
/// `ESC [ 3 8 ; 5 ; n m`.
pub open spec fn indexed_fg_text(n: nat) -> Seq<char> {
    csi() + seq!['3', '8', ';', '5', ';'] + decimal(n) + seq!['m']
}

/// Text that selects entry `n` of the 256-colour palette as the background:
/// `ESC [ 4 8 ; 5 ; n m`.
pub open spec fn indexed_bg_text(n: nat) -> Seq<char> {
    csi() + seq!['4', '8', ';', '5', ';'] + decimal(n) + seq!['m']
}

/// Text that selects a 24-bit foreground colour: `ESC [ 3 8 ; 2 ; r ; g ; b m`.
pub open spec fn rgb_fg_text(r: u8, g: u8, b: u8) -> Seq<char> {
    csi() + seq!['3', '8', ';', '2', ';'] + decimal(r as nat) + seq![';'] + decimal(g as nat)
        + seq![';'] + decimal(b as nat) + seq!['m']
}

/// Text that selects a 24-bit background colour: `ESC [ 4 8 ; 2 ; r ; g ; b m`.
pub open spec fn rgb_bg_text(r: u8, g: u8, b: u8) -> Seq<char> {
    csi() + seq!['4', '8', ';', '2', ';'] + decimal(r as nat) + seq![';'] + decimal(g as nat)
        + seq![';'] + decimal(b as nat) + seq!['m']
}

/// Appends the UTF-8 bytes of `text` to `out`.
pub fn emit(out: &mut Vec<u8>, text: &str)
    ensures
        final(out)@ == old(out)@ + encode_utf8(text@),
{
    out.extend_from_slice(text.as_bytes());
}

/// `termion::clear::All` formatted with `Display`: the introducer followed
/// by `2J`.
#[verifier::external_body]
pub(crate) fn clear_all() -> (s: String)
    ensures
        s@ == clear_all_text(),
{
    format!("{}", termion::clear::All)
}

/// `termion::cursor::Hide` formatted with `Display`: the introducer followed
/// by `?25l`.
#[verifier::external_body]
pub(crate) fn hide_cursor() -> (s: String)
    ensures
        s@ == hide_cursor_text(),
{
    format!("{}", termion::cursor::Hide)
}

/// `termion::cursor::Show` formatted with `Display`: the introducer followed
/// by `?25h`.
#[verifier::external_body]
pub(crate) fn show_cursor() -> (s: String)
    ensures
        s@ == show_cursor_text(),
{
    format!("{}", termion::cursor::Show)
}

/// `termion::cursor::Goto(x, y)` formatted with `Display`: the introducer,
/// `y` in decimal, a semicolon, `x` in decimal and `H`. In debug builds
/// `termion` asserts that the pair is not `(0, 0)`.
#[verifier::external_body]
pub(crate) fn goto(x: u16, y: u16) -> (s: String)
    requires
        x != 0 || y != 0,
    ensures
        s@ == goto_text(x as nat, y as nat),
{
    format!("{}", termion::cursor::Goto(x, y))
}

/// A `char` formatted with `Display`, as `std` implements it: the text of
/// that one character.
#[verifier::external_body]
pub(crate) fn glyph(c: char) -> (s: String)
    ensures
        s@ == seq![c],
{
    format!("{}", c)
}

/// `termion::color::Fg(termion::color::Reset)` formatted with `Display`:
/// the introducer followed by `39m`.
#[verifier::external_body]
pub(crate) fn fg_reset() -> (s: String)
    ensures
        s@ == reset_fg_text(),
{
    format!("{}", termion::color::Fg(termion::color::Reset))
}

/// `termion::color::Bg(termion::color::Reset)` formatted with `Display`:
/// the introducer followed by `49m`.
#[verifier::external_body]
pub(crate) fn bg_reset() -> (s: String)
    ensures
        s@ == reset_bg_text(),
{
    format!("{}", termion::color::Bg(termion::color::Reset))
}

/// `termion::color::Fg(termion::color::Rgb(r, g, b))` formatted with
/// `Display`: the introducer, `38;2;`, the three channels in decimal
/// separated by semicolons, and `m`.
#[verifier::external_body]
pub(crate) fn fg_rgb(r: u8, g: u8, b: u8) -> (s: String)
    ensures
        s@ == rgb_fg_text(r, g, b),
{
    format!("{}", termion::color::Fg(termion::color::Rgb(r, g, b)))
}

/// `termion::color::Bg(termion::color::Rgb(r, g, b))` formatted with
/// `Display`: the introducer, `48;2;`, the three channels in decimal
/// separated by semicolons, and `m`.
#[verifier::external_body]
pub(crate) fn bg_rgb(r: u8, g: u8, b: u8) -> (s: String)
    ensures
        s@ == rgb_bg_text(r, g, b),
{
    format!("{}", termion::color::Bg(termion::color::Rgb(r, g, b)))
}

/// `termion::color::Fg(termion::color::Black)` formatted with `Display`:
/// the introducer followed by `38;5;0m`.
#[verifier::external_body]
pub(crate) fn fg_black() -> (s: String)
    ensures
        s@ == indexed_fg_text(0),
{
    format!("{}", termion::color::Fg(termion::color::Black))
}

/// `termion::color::Fg(termion::color::Red)` formatted with `Display`:
/// the introducer followed by `38;5;1m`.
#[verifier::external_body]
pub(crate) fn fg_red() -> (s: String)
    ensures
        s@ == indexed_fg_text(1),
{
    format!("{}", termion::color::Fg(termion::color::Red))
}

/// `termion::color::Fg(termion::color::Green)` formatted with `Display`:
/// the introducer followed by `38;5;2m`.
#[verifier::external_body]
pub(crate) fn fg_green() -> (s: String)
    ensures
        s@ == indexed_fg_text(2),
{
    format!("{}", termion::color::Fg(termion::color::Green))
}

/// `termion::color::Fg(termion::color::Yellow)` formatted with `Display`:
/// the introducer followed by `38;5;3m`.
#[verifier::external_body]
pub(crate) fn fg_yellow() -> (s: String)
    ensures
        s@ == indexed_fg_text(3),
{
    format!("{}", termion::color::Fg(termion::color::Yellow))
}

/// `termion::color::Fg(termion::color::Blue)` formatted with `Display`:
/// the introducer followed by `38;5;4m`.
#[verifier::external_body]
pub(crate) fn fg_blue() -> (s: String)
    ensures
        s@ == indexed_fg_text(4),
{
    format!("{}", termion::color::Fg(termion::color::Blue))
}

/// `termion::color::Fg(termion::color::Magenta)` formatted with `Display`:
/// the introducer followed by `38;5;5m`.
#[verifier::external_body]
pub(crate) fn fg_magenta() -> (s: String)
    ensures
        s@ == indexed_fg_text(5),
{
    format!("{}", termion::color::Fg(termion::color::Magenta))
}

/// `termion::color::Fg(termion::color::Cyan)` formatted with `Display`:
/// the introducer followed by `38;5;6m`.
#[verifier::external_body]
pub(crate) fn fg_cyan() -> (s: String)
    ensures
        s@ == indexed_fg_text(6),
{
    format!("{}", termion::color::Fg(termion::color::Cyan))
}

/// `termion::color::Fg(termion::color::White)` formatted with `Display`:
/// the introducer followed by `38;5;7m`.
#[verifier::external_body]
pub(crate) fn fg_white() -> (s: String)
    ensures
        s@ == indexed_fg_text(7),
{
    format!("{}", termion::color::Fg(termion::color::White))
}

/// `termion::color::Fg(termion::color::LightBlack)` formatted with `Display`:
/// the introducer followed by `38;5;8m`.
#[verifier::external_body]
pub(crate) fn fg_light_black() -> (s: String)
    ensures
        s@ == indexed_fg_text(8),
{
    format!("{}", termion::color::Fg(termion::color::LightBlack))
}

/// `termion::color::Fg(termion::color::LightRed)` formatted with `Display`:
/// the introducer followed by `38;5;9m`.
#[verifier::external_body]
pub(crate) fn fg_light_red() -> (s: String)
    ensures
        s@ == indexed_fg_text(9),
{
    format!("{}", termion::color::Fg(termion::color::LightRed))
}

/// `termion::color::Fg(termion::color::LightGreen)` formatted with `Display`:
/// the introducer followed by `38;5;10m`.
#[verifier::external_body]
pub(crate) fn fg_light_green() -> (s: String)
    ensures
        s@ == indexed_fg_text(10),
{
    format!("{}", termion::color::Fg(termion::color::LightGreen))
}

/// `termion::color::Fg(termion::color::LightYellow)` formatted with `Display`:
/// the introducer followed by `38;5;11m`.
#[verifier::external_body]
pub(crate) fn fg_light_yellow() -> (s: String)
    ensures
        s@ == indexed_fg_text(11),
{
    format!("{}", termion::color::Fg(termion::color::LightYellow))
}

/// `termion::color::Fg(termion::color::LightBlue)` formatted with `Display`:
/// the introducer followed by `38;5;12m`.
#[verifier::external_body]
pub(crate) fn fg_light_blue() -> (s: String)
    ensures
        s@ == indexed_fg_text(12),
{
    format!("{}", termion::color::Fg(termion::color::LightBlue))
}

/// `termion::color::Fg(termion::color::LightMagenta)` formatted with `Display`:
/// the introducer followed by `38;5;13m`.
#[verifier::external_body]
pub(crate) fn fg_light_magenta() -> (s: String)
    ensures
        s@ == indexed_fg_text(13),
{
    format!("{}", termion::color::Fg(termion::color::LightMagenta))
}

/// `termion::color::Fg(termion::color::LightCyan)` formatted with `Display`:
/// the introducer followed by `38;5;14m`.
#[verifier::external_body]
pub(crate) fn fg_light_cyan() -> (s: String)
    ensures
        s@ == indexed_fg_text(14),
{
    format!("{}", termion::color::Fg(termion::color::LightCyan))
}

/// `termion::color::Fg(termion::color::LightWhite)` formatted with `Display`:
/// the introducer followed by `38;5;15m`.
#[verifier::external_body]
pub(crate) fn fg_light_white() -> (s: String)
    ensures
        s@ == indexed_fg_text(15),
{
    format!("{}", termion::color::Fg(termion::color::LightWhite))
}

/// `termion::color::Bg(termion::color::Black)` formatted with `Display`:
/// the introducer followed by `48;5;0m`.
#[verifier::external_body]
pub(crate) fn bg_black() -> (s: String)
    ensures
        s@ == indexed_bg_text(0),
{
    format!("{}", termion::color::Bg(termion::color::Black))
}

/// `termion::color::Bg(termion::color::Red)` formatted with `Display`:
/// the introducer followed by `48;5;1m`.
#[verifier::external_body]
pub(crate) fn bg_red() -> (s: String)
    ensures
        s@ == indexed_bg_text(1),
{
    format!("{}", termion::color::Bg(termion::color::Red))
}

/// `termion::color::Bg(termion::color::Green)` formatted with `Display`:
/// the introducer followed by `48;5;2m`.
#[verifier::external_body]
pub(crate) fn bg_green() -> (s: String)
    ensures
        s@ == indexed_bg_text(2),
{
    format!("{}", termion::color::Bg(termion::color::Green))
}

/// `termion::color::Bg(termion::color::Yellow)` formatted with `Display`:
/// the introducer followed by `48;5;3m`.
#[verifier::external_body]
pub(crate) fn bg_yellow() -> (s: String)
    ensures
        s@ == indexed_bg_text(3),
{
    format!("{}", termion::color::Bg(termion::color::Yellow))
}

/// `termion::color::Bg(termion::color::Blue)` formatted with `Display`:
/// the introducer followed by `48;5;4m`.
#[verifier::external_body]
pub(crate) fn bg_blue() -> (s: String)
    ensures
        s@ == indexed_bg_text(4),
{
    format!("{}", termion::color::Bg(termion::color::Blue))
}

/// `termion::color::Bg(termion::color::Magenta)` formatted with `Display`:
/// the introducer followed by `48;5;5m`.
#[verifier::external_body]
pub(crate) fn bg_magenta() -> (s: String)
    ensures
        s@ == indexed_bg_text(5),
{
    format!("{}", termion::color::Bg(termion::color::Magenta))
}

/// `termion::color::Bg(termion::color::Cyan)` formatted with `Display`:
/// the introducer followed by `48;5;6m`.
#[verifier::external_body]
pub(crate) fn bg_cyan() -> (s: String)
    ensures
        s@ == indexed_bg_text(6),
{
    format!("{}", termion::color::Bg(termion::color::Cyan))
}

/// `termion::color::Bg(termion::color::White)` formatted with `Display`:
/// the introducer followed by `48;5;7m`.
#[verifier::external_body]
pub(crate) fn bg_white() -> (s: String)
    ensures
        s@ == indexed_bg_text(7),
{
    format!("{}", termion::color::Bg(termion::color::White))
}

/// `termion::color::Bg(termion::color::LightBlack)` formatted with `Display`:
/// the introducer followed by `48;5;8m`.
#[verifier::external_body]
pub(crate) fn bg_light_black() -> (s: String)
    ensures
        s@ == indexed_bg_text(8),
{
    format!("{}", termion::color::Bg(termion::color::LightBlack))
}

/// `termion::color::Bg(termion::color::LightRed)` formatted with `Display`:
/// the introducer followed by `48;5;9m`.
#[verifier::external_body]
pub(crate) fn bg_light_red() -> (s: String)
    ensures
        s@ == indexed_bg_text(9),
{
    format!("{}", termion::color::Bg(termion::color::LightRed))
}

/// `termion::color::Bg(termion::color::LightGreen)` formatted with `Display`:
/// the introducer followed by `48;5;10m`.
#[verifier::external_body]
pub(crate) fn bg_light_green() -> (s: String)
    ensures
        s@ == indexed_bg_text(10),
{
    format!("{}", termion::color::Bg(termion::color::LightGreen))
}

/// `termion::color::Bg(termion::color::LightYellow)` formatted with `Display`:
/// the introducer followed by `48;5;11m`.
#[verifier::external_body]
pub(crate) fn bg_light_yellow() -> (s: String)
    ensures
        s@ == indexed_bg_text(11),
{
    format!("{}", termion::color::Bg(termion::color::LightYellow))
}

/// `termion::color::Bg(termion::color::LightBlue)` formatted with `Display`:
/// the introducer followed by `48;5;12m`.
#[verifier::external_body]
pub(crate) fn bg_light_blue() -> (s: String)
    ensures
        s@ == indexed_bg_text(12),
{
    format!("{}", termion::color::Bg(termion::color::LightBlue))
}

/// `termion::color::Bg(termion::color::LightMagenta)` formatted with `Display`:
/// the introducer followed by `48;5;13m`.
#[verifier::external_body]
pub(crate) fn bg_light_magenta() -> (s: String)
    ensures
        s@ == indexed_bg_text(13),
{
    format!("{}", termion::color::Bg(termion::color::LightMagenta))
}

/// `termion::color::Bg(termion::color::LightCyan)` formatted with `Display`:
/// the introducer followed by `48;5;14m`.
#[verifier::external_body]
pub(crate) fn bg_light_cyan() -> (s: String)
    ensures
        s@ == indexed_bg_text(14),
{
    format!("{}", termion::color::Bg(termion::color::LightCyan))
}

/// `termion::color::Bg(termion::color::LightWhite)` formatted with `Display`:
/// the introducer followed by `48;5;15m`.
#[verifier::external_body]
pub(crate) fn bg_light_white() -> (s: String)
    ensures
        s@ == indexed_bg_text(15),
{
    format!("{}", termion::color::Bg(termion::color::LightWhite))
}

} // verus!
