//! A frame buffer for text terminals that repaints as little as it can.
//!
//! A caller draws a whole screen of coloured cells into a [`Frame`]; a
//! [`Screen`] holds that frame beside the one rendered last and appends to a
//! byte buffer the control text that brings the terminal from the one to
//! the other: every cell where the size changed, only the cells that differ
//! where it did not.
//!
//! - `color`, `cell`, `frame`: the values drawn, and the grid that holds
//!   them.
//! - `commands`, `render`: what a renderer tells the terminal, as runs of
//!   commands, with what can be said of their number.
//! - `screen`: the two frames and the rendering itself.
//! - `session`: what is sent once at the start and once at the end.
//! - `sequences`: the control text of each command, as `termion` writes it.
//! - `terminal`: a model of the terminal, and the proof that rendering
//!   leaves it showing the frame drawn.

pub mod cell;
pub mod color;
pub mod commands;
pub mod frame;
pub mod render;
pub mod screen;
pub mod sequences;
pub mod session;
pub mod terminal;

pub use crate::cell::Char;
pub use crate::color::Color;
pub use crate::frame::Frame;
pub use crate::screen::Screen;
