//! One character position of the screen: a glyph and its two colours.

use vstd::prelude::*;
use vstd::utf8::encode_utf8;
use crate::color::Color;

verus! {

/// A glyph together with its foreground and background colour.
#[derive(Debug, Copy, Clone, Eq, PartialEq, Structural, Ord, PartialOrd, Hash)]
pub struct Char {
    pub glyph: char,
    pub color_fg: Color,
    pub color_bg: Color,
}

impl Char {
    /// The blank cell: a space in the terminal's own colours.
    pub open spec fn blank() -> Char {
        Char { glyph: ' ', color_fg: Color::Default, color_bg: Color::Default }
    }

    /// A cell showing `glyph` in the terminal's own colours.
    pub fn new(glyph: char) -> (ch: Char)
        ensures
            ch == (Char { glyph, color_fg: Color::Default, color_bg: Color::Default }),
    {
        Char { glyph, color_fg: Color::Default, color_bg: Color::Default }
    }

    /// A cell showing `glyph` in the foreground colour `fg` on the terminal's
    /// own background.
    pub fn with_fg(glyph: char, fg: Color) -> (ch: Char)
        ensures
            ch == (Char { glyph, color_fg: fg, color_bg: Color::Default }),
    {
        Char { glyph, color_fg: fg, color_bg: Color::Default }
    }

    /// A cell showing `glyph` in the foreground colour `fg` on the background
    /// colour `bg`.
    pub fn with_colors(glyph: char, fg: Color, bg: Color) -> (ch: Char)
        ensures
            ch == (Char { glyph, color_fg: fg, color_bg: bg }),
    {
        Char { glyph, color_fg: fg, color_bg: bg }
    }

    /// Appends to `out` the bytes that select this cell's foreground colour.
    pub fn write_fg(&self, out: &mut Vec<u8>)
        ensures
            final(out)@ == old(out)@ + encode_utf8(self.color_fg.fg_text()),
    {
        self.color_fg.write_fg(out)
    }

    /// Appends to `out` the bytes that select this cell's background colour.
    pub fn write_bg(&self, out: &mut Vec<u8>)
        ensures
            final(out)@ == old(out)@ + encode_utf8(self.color_bg.bg_text()),
    {
        self.color_bg.write_bg(out)
    }
}

impl Default for Char {
    /// The blank cell.
    fn default() -> (ch: Char)
        ensures
            ch == Char::blank(),
    {
        Char { glyph: ' ', color_fg: Color::Default, color_bg: Color::Default }
    }
}

} // verus!
