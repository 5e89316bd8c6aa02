//! Colours of a cell and the control text that selects them.

use vstd::prelude::*;
use vstd::utf8::encode_utf8;
use crate::sequences;

verus! {

/// A colour of the terminal: its own default, one of the sixteen named
/// palette colours, or a 24-bit colour given by its three channels.
#[derive(Debug, Copy, Clone, Eq, PartialEq, Structural, Ord, PartialOrd, Hash)]
pub enum Color {
    Default,
    Black,
    Blue,
    Cyan,
    Green,
    LightBlack,
    LightBlue,
    LightCyan,
    LightGreen,
    LightMagenta,
    LightRed,
    LightWhite,
    LightYellow,
    Magenta,
    Red,
    Rgb(u8, u8, u8),
    White,
    Yellow,
}

impl Color {
    /// The palette entry of a named colour; `None` for the default and for a
    /// 24-bit colour.
    pub open spec fn palette_index(self) -> Option<nat> {
        match self {
            Color::Default => None,
            Color::Rgb(_, _, _) => None,
            Color::Black => Some(0nat),
            Color::Blue => Some(4nat),
            Color::Cyan => Some(6nat),
            Color::Green => Some(2nat),
            Color::LightBlack => Some(8nat),
            Color::LightBlue => Some(12nat),
            Color::LightCyan => Some(14nat),
            Color::LightGreen => Some(10nat),
            Color::LightMagenta => Some(13nat),
            Color::LightRed => Some(9nat),
            Color::LightWhite => Some(15nat),
            Color::LightYellow => Some(11nat),
            Color::Magenta => Some(5nat),
            Color::Red => Some(1nat),
            Color::White => Some(7nat),
            Color::Yellow => Some(3nat),
        }
    }

    /// The text that makes this colour the foreground colour.
    pub open spec fn fg_text(self) -> Seq<char> {
        match self {
            Color::Default => sequences::reset_fg_text(),
            Color::Rgb(r, g, b) => sequences::rgb_fg_text(r, g, b),
            _ => sequences::indexed_fg_text(self.palette_index().unwrap()),
        }
    }

    /// The text that makes this colour the background colour.
    pub open spec fn bg_text(self) -> Seq<char> {
        match self {
            Color::Default => sequences::reset_bg_text(),
            Color::Rgb(r, g, b) => sequences::rgb_bg_text(r, g, b),
            _ => sequences::indexed_bg_text(self.palette_index().unwrap()),
        }
    }

    /// Appends to `out` the bytes that select this colour as the foreground.
    pub fn write_fg(&self, out: &mut Vec<u8>)
        ensures
            final(out)@ == old(out)@ + encode_utf8(self.fg_text()),
    {
        let text = match self {
            Color::Default => sequences::fg_reset(),
            Color::Rgb(r, g, b) => sequences::fg_rgb(*r, *g, *b),
            Color::Black => sequences::fg_black(),
            Color::Blue => sequences::fg_blue(),
            Color::Cyan => sequences::fg_cyan(),
            Color::Green => sequences::fg_green(),
            Color::LightBlack => sequences::fg_light_black(),
            Color::LightBlue => sequences::fg_light_blue(),
            Color::LightCyan => sequences::fg_light_cyan(),
            Color::LightGreen => sequences::fg_light_green(),
            Color::LightMagenta => sequences::fg_light_magenta(),
            Color::LightRed => sequences::fg_light_red(),
            Color::LightWhite => sequences::fg_light_white(),
            Color::LightYellow => sequences::fg_light_yellow(),
            Color::Magenta => sequences::fg_magenta(),
            Color::Red => sequences::fg_red(),
            Color::White => sequences::fg_white(),
            Color::Yellow => sequences::fg_yellow(),
        };
        sequences::emit(out, text.as_str());
    }

    /// Appends to `out` the bytes that select this colour as the background.
    pub fn write_bg(&self, out: &mut Vec<u8>)
        ensures
            final(out)@ == old(out)@ + encode_utf8(self.bg_text()),
    {
        let text = match self {
            Color::Default => sequences::bg_reset(),
            Color::Rgb(r, g, b) => sequences::bg_rgb(*r, *g, *b),
            Color::Black => sequences::bg_black(),
            Color::Blue => sequences::bg_blue(),
            Color::Cyan => sequences::bg_cyan(),
            Color::Green => sequences::bg_green(),
            Color::LightBlack => sequences::bg_light_black(),
            Color::LightBlue => sequences::bg_light_blue(),
            Color::LightCyan => sequences::bg_light_cyan(),
            Color::LightGreen => sequences::bg_light_green(),
            Color::LightMagenta => sequences::bg_light_magenta(),
            Color::LightRed => sequences::bg_light_red(),
            Color::LightWhite => sequences::bg_light_white(),
            Color::LightYellow => sequences::bg_light_yellow(),
            Color::Magenta => sequences::bg_magenta(),
            Color::Red => sequences::bg_red(),
            Color::White => sequences::bg_white(),
            Color::Yellow => sequences::bg_yellow(),
        };
        sequences::emit(out, text.as_str());
    }
}

impl Default for Color {
    /// The terminal's own colour.
    fn default() -> (c: Color)
        ensures
            c == Color::Default,
    {
        Color::Default
    }
}

} // verus!
