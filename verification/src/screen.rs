//! The pair of frames, the one on the terminal and the one being drawn, and
//! the rendering of the second against the first.

use vstd::prelude::*;
use vstd::utf8::encode_utf8;
use crate::color::Color;
use crate::commands::{bytes_of, count_clears, lemma_bytes_of_push, text_of, Command};
use crate::frame::{Frame, Grid};
use crate::render::{
    changed, diff_addressable, diff_redraw, diff_row, diff_rows, full_addressable, full_redraw,
    full_row, full_rows, goto_cell, lemma_diff_redraw_unchanged, lemma_render_path,
    pen_after_row, pen_after_rows, render_addressable, render_commands, Pen,
};
use crate::sequences;

verus! {

/// What a screen holds: the grid last rendered and the grid being drawn.
pub struct ScreenView {
    pub previous: Grid,
    pub next: Grid,
}

impl ScreenView {
    /// Two blank grids of the given size.
    pub open spec fn fresh(rows: nat, cols: nat) -> ScreenView {
        ScreenView { previous: Grid::blank(rows, cols), next: Grid::blank(rows, cols) }
    }

    /// The screen at the start of the next frame: what was drawn is now
    /// what was rendered, and the grid to draw is blank, of the given size.
    pub open spec fn prepared(self, rows: nat, cols: nat) -> ScreenView {
        ScreenView { previous: self.next, next: Grid::blank(rows, cols) }
    }

    /// What rendering emits for this screen.
    pub open spec fn commands(self) -> Seq<Command> {
        render_commands(self.previous, self.next)
    }

    /// Rendering moves the cursor only to rows and columns whose number,
    /// counted from one, fits in sixteen bits. This holds of every screen
    /// whose grid being drawn has at most 65535 rows and 65535 columns.
    pub open spec fn addressable(self) -> bool {
        render_addressable(self.previous, self.next)
    }
}

/// The frame last rendered and the frame being drawn.
#[derive(Debug)]
pub struct Screen {
    pub previous: Frame,
    pub next: Frame,
}

impl View for Screen {
    type V = ScreenView;

    open spec fn view(&self) -> ScreenView {
        ScreenView { previous: self.previous@, next: self.next@ }
    }
}

/// Rendering a screen that was just made emits the two colour resets and
/// nothing else: no cursor move, no glyph, no erasure. Such a screen can be
/// rendered whenever it has at most 65535 rows, however many columns it
/// has.
pub proof fn lemma_fresh_screen_renders_resets(rows: nat, cols: nat)
    ensures
        rows <= u16::MAX ==> ScreenView::fresh(rows, cols).addressable(),
        ScreenView::fresh(rows, cols).commands() == seq![
            Command::Foreground(Color::Default),
            Command::Background(Color::Default),
        ],
        text_of(ScreenView::fresh(rows, cols).commands()) == sequences::reset_fg_text()
            + sequences::reset_bg_text(),
{
    let blank = Grid::blank(rows, cols);
    let resets = seq![Command::Foreground(Color::Default), Command::Background(Color::Default)];
    lemma_diff_redraw_unchanged(blank, blank);
    assert(resets.drop_last().drop_last() =~= Seq::<Command>::empty());
    assert(text_of(Seq::<Command>::empty()) =~= Seq::<char>::empty());
    assert(text_of(resets.drop_last()) =~= sequences::reset_fg_text());
}

/// Rendering the frame that follows a frame of another size erases the
/// screen, as its first command; rendering the frame that follows a frame
/// of the same size does not erase the screen at all. Both can be rendered
/// whenever the new size is at most 65535 rows by 65535 columns.
pub proof fn lemma_next_frame_path(screen: ScreenView, rows: nat, cols: nat)
    ensures
        rows <= u16::MAX && cols <= u16::MAX ==> screen.prepared(rows, cols).addressable(),
        screen.next.dims() != (rows, cols) ==> {
            &&& screen.prepared(rows, cols).commands() == full_redraw(Grid::blank(rows, cols))
            &&& screen.prepared(rows, cols).commands()[0] == Command::ClearAll
            &&& count_clears(screen.prepared(rows, cols).commands()) == 1
        },
        screen.next.dims() == (rows, cols) ==> {
            &&& screen.prepared(rows, cols).commands() == diff_redraw(
                screen.next,
                Grid::blank(rows, cols),
            )
            &&& screen.prepared(rows, cols).commands()[0] != Command::ClearAll
            &&& count_clears(screen.prepared(rows, cols).commands()) == 0
        },
{
    lemma_render_path(screen.next, Grid::blank(rows, cols));
}

/// Appends the cursor move to the cell `(row, col)`.
fn write_goto(out: &mut Vec<u8>, row: usize, col: usize)
    requires
        row < u16::MAX,
        col < u16::MAX,
    ensures
        final(out)@ == old(out)@ + encode_utf8(goto_cell(row as int, col as int).text()),
{
    let text = sequences::goto((col as u16) + 1, (row as u16) + 1);
    sequences::emit(out, text.as_str());
}

/// Appends the glyph.
fn write_glyph(out: &mut Vec<u8>, glyph: char)
    ensures
        final(out)@ == old(out)@ + encode_utf8(Command::Glyph(glyph).text()),
{
    let text = sequences::glyph(glyph);
    sequences::emit(out, text.as_str());
}

/// Appends the command that erases the screen.
fn write_clear(out: &mut Vec<u8>)
    ensures
        final(out)@ == old(out)@ + encode_utf8(Command::ClearAll.text()),
{
    let text = sequences::clear_all();
    sequences::emit(out, text.as_str());
}

impl Screen {
    /// A screen of two blank frames of `rows` by `cols` cells.
    pub fn new(rows: usize, cols: usize) -> (screen: Screen)
        requires
            rows * cols <= usize::MAX,
        ensures
            screen@ == ScreenView::fresh(rows as nat, cols as nat),
    {
        Screen { previous: Frame::new(rows, cols), next: Frame::new(rows, cols) }
    }

    /// Starts the next frame: the frame that was drawn becomes the frame
    /// last rendered, and the other one, blank and `rows` by `cols` cells, is
    /// the frame to draw.
    pub fn prepare_next_frame(&mut self, rows: usize, cols: usize)
        requires
            rows * cols <= usize::MAX,
        ensures
            final(self)@ == old(self)@.prepared(rows as nat, cols as nat),
    {
        std::mem::swap(&mut self.next, &mut self.previous);
        self.next.reset(rows, cols);
    }

    /// Appends to `out` what brings the terminal from the frame last
    /// rendered to the frame drawn: a full redraw where their sizes differ,
    /// a diff redraw where they agree.
    pub fn render(&self, out: &mut Vec<u8>)
        requires
            self@.addressable(),
        ensures
            final(out)@ == old(out)@ + bytes_of(self@.commands()),
    {
        let next = self.next.dims();
        let previous = self.previous.dims();
        if next.0 != previous.0 || next.1 != previous.1 {
            self.redraw(out)
        } else {
            self.redraw_diff(out)
        }
    }

    /// Appends to `out` a full redraw of the frame drawn.
    pub fn redraw(&self, out: &mut Vec<u8>)
        requires
            full_addressable(self@.next),
        ensures
            final(out)@ == old(out)@ + bytes_of(full_redraw(self@.next)),
    {
        let ghost base = out@;
        let ghost grid = self.next@;
        let ghost mut cmds: Seq<Command> = Seq::empty();
        let rows = self.next.rows();
        let cols = self.next.columns();
        write_clear(out);
        proof {
            lemma_bytes_of_push(base, cmds, Command::ClearAll, out@);
            cmds = cmds.push(Command::ClearAll);
        }
        let mut row: usize = 0;
        while row < rows
            invariant
                row <= rows,
                rows == grid.rows,
                cols == grid.cols,
                grid == self.next@,
                full_addressable(grid),
                out@ == base + bytes_of(cmds),
                cmds == seq![Command::ClearAll] + full_rows(grid, row as int),
            decreases rows - row,
        {
            let mut col: usize = 0;
            let ghost row_start = cmds;
            while col < cols
                invariant
                    row < rows,
                    col <= cols,
                    rows == grid.rows,
                    cols == grid.cols,
                    grid == self.next@,
                    full_addressable(grid),
                    out@ == base + bytes_of(cmds),
                    cmds == row_start + full_row(grid, row as int, col as int),
                decreases cols - col,
            {
                write_goto(out, row, col);
                proof {
                    lemma_bytes_of_push(base, cmds, goto_cell(row as int, col as int), out@);
                    cmds = cmds.push(goto_cell(row as int, col as int));
                }
                let current = self.next.get(row, col);
                match self.next.prev_row_col(row, col) {
                    Some((prev_row, prev_col)) => {
                        let prev = self.next.get(prev_row, prev_col);
                        if prev.color_fg != current.color_fg {
                            current.write_fg(out);
                            proof {
                                lemma_bytes_of_push(
                                    base,
                                    cmds,
                                    Command::Foreground(current.color_fg),
                                    out@,
                                );
                                cmds = cmds.push(Command::Foreground(current.color_fg));
                            }
                        }
                        if prev.color_bg != current.color_bg {
                            current.write_bg(out);
                            proof {
                                lemma_bytes_of_push(
                                    base,
                                    cmds,
                                    Command::Background(current.color_bg),
                                    out@,
                                );
                                cmds = cmds.push(Command::Background(current.color_bg));
                            }
                        }
                    },
                    None => {
                        current.write_fg(out);
                        proof {
                            lemma_bytes_of_push(
                                base,
                                cmds,
                                Command::Foreground(current.color_fg),
                                out@,
                            );
                            cmds = cmds.push(Command::Foreground(current.color_fg));
                        }
                        current.write_bg(out);
                        proof {
                            lemma_bytes_of_push(
                                base,
                                cmds,
                                Command::Background(current.color_bg),
                                out@,
                            );
                            cmds = cmds.push(Command::Background(current.color_bg));
                        }
                    },
                }
                write_glyph(out, current.glyph);
                proof {
                    lemma_bytes_of_push(base, cmds, Command::Glyph(current.glyph), out@);
                    cmds = cmds.push(Command::Glyph(current.glyph));
                }
                col += 1;
            }
            row += 1;
        }
    }

    /// Appends to `out` a diff redraw of the frame drawn against the frame
    /// last rendered, which has the same size.
    pub fn redraw_diff(&self, out: &mut Vec<u8>)
        requires
            self@.next.dims() == self@.previous.dims(),
            diff_addressable(self@.previous, self@.next),
        ensures
            final(out)@ == old(out)@ + bytes_of(diff_redraw(self@.previous, self@.next)),
    {
        let ghost base = out@;
        let ghost before = self.previous@;
        let ghost after = self.next@;
        let ghost mut cmds: Seq<Command> = Seq::empty();
        let ghost resets = seq![
            Command::Foreground(Color::Default),
            Command::Background(Color::Default),
        ];
        let rows = self.next.rows();
        let cols = self.next.columns();
        let mut prev_fg = Color::default();
        let mut prev_bg = Color::default();
        prev_fg.write_fg(out);
        proof {
            lemma_bytes_of_push(base, cmds, Command::Foreground(Color::Default), out@);
            cmds = cmds.push(Command::Foreground(Color::Default));
        }
        prev_bg.write_bg(out);
        proof {
            lemma_bytes_of_push(base, cmds, Command::Background(Color::Default), out@);
            cmds = cmds.push(Command::Background(Color::Default));
        }
        let mut row: usize = 0;
        while row < rows
            invariant
                row <= rows,
                rows == after.rows,
                cols == after.cols,
                after == self.next@,
                before == self.previous@,
                after.dims() == before.dims(),
                diff_addressable(before, after),
                out@ == base + bytes_of(cmds),
                cmds == resets + diff_rows(before, after, row as int),
                (Pen { fg: prev_fg, bg: prev_bg }) == pen_after_rows(before, after, row as int),
            decreases rows - row,
        {
            let mut col: usize = 0;
            let ghost row_start = cmds;
            let ghost row_pen = Pen { fg: prev_fg, bg: prev_bg };
            while col < cols
                invariant
                    row < rows,
                    col <= cols,
                    rows == after.rows,
                    cols == after.cols,
                    after == self.next@,
                    before == self.previous@,
                    after.dims() == before.dims(),
                    diff_addressable(before, after),
                    out@ == base + bytes_of(cmds),
                    cmds == row_start + diff_row(before, after, row_pen, row as int, col as int),
                    (Pen { fg: prev_fg, bg: prev_bg }) == pen_after_row(
                        before,
                        after,
                        row_pen,
                        row as int,
                        col as int,
                    ),
                decreases cols - col,
            {
                let next = self.next.get(row, col);
                let prev = self.previous.get(row, col);
                if next != prev {
                    assert(changed(before, after, row as int, col as int));
                    write_goto(out, row, col);
                    proof {
                        lemma_bytes_of_push(base, cmds, goto_cell(row as int, col as int), out@);
                        cmds = cmds.push(goto_cell(row as int, col as int));
                    }
                    if next.color_fg != prev_fg {
                        next.write_fg(out);
                        proof {
                            lemma_bytes_of_push(
                                base,
                                cmds,
                                Command::Foreground(next.color_fg),
                                out@,
                            );
                            cmds = cmds.push(Command::Foreground(next.color_fg));
                        }
                        prev_fg = next.color_fg;
                    }
                    if next.color_bg != prev_bg {
                        next.write_bg(out);
                        proof {
                            lemma_bytes_of_push(
                                base,
                                cmds,
                                Command::Background(next.color_bg),
                                out@,
                            );
                            cmds = cmds.push(Command::Background(next.color_bg));
                        }
                        prev_bg = next.color_bg;
                    }
                    write_glyph(out, next.glyph);
                    proof {
                        lemma_bytes_of_push(base, cmds, Command::Glyph(next.glyph), out@);
                        cmds = cmds.push(Command::Glyph(next.glyph));
                    }
                }
                col += 1;
            }
            row += 1;
        }
    }
}

} // verus!
