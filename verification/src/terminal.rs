//! A terminal as the renderers rely on it, and the proof that both
//! renderers leave it showing the frame that was drawn.
//!
//! The model assumes little. Erasing the screen leaves nothing known of any
//! position, and a glyph leaves nothing known of where the cursor went. A
//! glyph printed while the cursor or one of the two colours is unknown
//! destroys what was known. A cursor move to row `r` and column `c`, whose
//! text names `r` first, puts the cursor on the cell `(r - 1, c - 1)`.
//!
//! The proofs are about runs of commands. What ties them to the bytes that
//! a renderer appends is that renderer's contract, which gives the bytes as
//! the text of such a run.

use vstd::prelude::*;
use crate::cell::Char;
use crate::color::Color;
use crate::commands::Command;
use crate::frame::Grid;
use crate::render::{
    changed, color_changes, diff_cell, diff_redraw, diff_row, diff_rows, full_cell, full_redraw,
    full_row, full_rows, goto_cell, pen_after_cell, pen_after_row, pen_after_rows,
    render_commands, Pen,
};

verus! {

/// What is known of a terminal.
pub struct Terminal {
    /// The cells that positions are known to show. A position is the pair
    /// of a row and a column, both counted from zero.
    pub cells: Map<(int, int), Char>,
    /// The position of the cursor, where it is known.
    pub cursor: Option<(int, int)>,
    /// The foreground colour, where it is known.
    pub fg: Option<Color>,
    /// The background colour, where it is known.
    pub bg: Option<Color>,
}

impl Terminal {
    /// The terminal after one command.
    pub open spec fn step(self, cmd: Command) -> Terminal {
        match cmd {
            Command::ClearAll => Terminal { cells: Map::empty(), ..self },
            Command::Goto { row, col } => Terminal { cursor: Some((row - 1, col - 1)), ..self },
            Command::Foreground(c) => Terminal { fg: Some(c), ..self },
            Command::Background(c) => Terminal { bg: Some(c), ..self },
            Command::Glyph(glyph) => match (self.cursor, self.fg, self.bg) {
                (Some(at), Some(fg), Some(bg)) => Terminal {
                    cells: self.cells.insert(at, Char { glyph, color_fg: fg, color_bg: bg }),
                    cursor: None,
                    ..self
                },
                _ => Terminal { cells: Map::empty(), cursor: None, ..self },
            },
            Command::HideCursor => self,
            Command::ShowCursor => self,
        }
    }

    /// The terminal after a run of commands.
    pub open spec fn run(self, cmds: Seq<Command>) -> Terminal
        decreases cmds.len(),
    {
        if cmds.len() == 0 {
            self
        } else {
            self.run(cmds.drop_last()).step(cmds.last())
        }
    }

    /// The position `(row, col)` is known to show `cell`.
    pub open spec fn shows_at(self, row: int, col: int, cell: Char) -> bool {
        self.cells.dom().contains((row, col)) && self.cells[(row, col)] == cell
    }

    /// Every position of the grid is known to show the cell that the grid
    /// holds there.
    pub open spec fn shows(self, grid: Grid) -> bool {
        forall|row: int, col: int|
            grid.contains(row, col) ==> #[trigger] self.shows_at(row, col, grid.at(row, col))
    }

    /// The two colours are known to be those of `pen`.
    pub open spec fn has_pen(self, pen: Pen) -> bool {
        self.fg == Some(pen.fg) && self.bg == Some(pen.bg)
    }

    /// Both terminals know the same of every position but `(row, col)`.
    pub open spec fn same_elsewhere(self, other: Terminal, row: int, col: int) -> bool {
        forall|p: (int, int)|
            p != (row, col) ==> (self.cells.dom().contains(p) <==> other.cells.dom().contains(p))
                && self.cells[p] == other.cells[p]
    }
}

/// Running two runs of commands joined is running the first and then the
/// second.
pub proof fn lemma_run_concat(t: Terminal, a: Seq<Command>, b: Seq<Command>)
    ensures
        t.run(a + b) == t.run(a).run(b),
    decreases b.len(),
{
    if b.len() > 0 {
        assert((a + b).drop_last() =~= a + b.drop_last());
        lemma_run_concat(t, a, b.drop_last());
    }
}

/// Running a run of one command is taking one step.
proof fn lemma_run_one(t: Terminal, cmd: Command)
    ensures
        t.run(seq![cmd]) == t.step(cmd),
{
    assert(seq![cmd].drop_last() =~= Seq::<Command>::empty());
    assert(t.run(Seq::<Command>::empty()) == t);
}

/// Colour changes away from the terminal's colours leave the terminal with
/// the colours of the cell, and touch nothing else.
proof fn lemma_run_color_changes(t: Terminal, pen: Pen, cell: Char)
    requires
        t.has_pen(pen),
    ensures
        t.run(color_changes(pen, cell)) == (Terminal {
            fg: Some(cell.color_fg),
            bg: Some(cell.color_bg),
            ..t
        }),
{
    let fg = if cell.color_fg != pen.fg {
        seq![Command::Foreground(cell.color_fg)]
    } else {
        Seq::<Command>::empty()
    };
    let bg = if cell.color_bg != pen.bg {
        seq![Command::Background(cell.color_bg)]
    } else {
        Seq::<Command>::empty()
    };
    lemma_run_concat(t, fg, bg);
    lemma_run_one(t, Command::Foreground(cell.color_fg));
    lemma_run_one(t.run(fg), Command::Background(cell.color_bg));
}

/// A cursor move to a cell, colour commands that leave the terminal with
/// the cell's colours, and the cell's glyph make the terminal show the
/// cell there, and touch no other position.
proof fn lemma_run_cell(t: Terminal, colors: Seq<Command>, row: int, col: int, cell: Char)
    requires
        0 <= row,
        0 <= col,
        forall|s: Terminal|
            s.fg == t.fg && s.bg == t.bg ==> #[trigger] s.run(colors) == (Terminal {
                fg: Some(cell.color_fg),
                bg: Some(cell.color_bg),
                ..s
            }),
    ensures
        ({
            let cmds = seq![goto_cell(row, col)] + colors + seq![Command::Glyph(cell.glyph)];
            &&& t.run(cmds).shows_at(row, col, cell)
            &&& t.run(cmds).same_elsewhere(t, row, col)
            &&& t.run(cmds).has_pen(Pen::of(cell))
        }),
{
    let head = seq![goto_cell(row, col)];
    let tail = seq![Command::Glyph(cell.glyph)];
    lemma_run_concat(t, head + colors, tail);
    lemma_run_concat(t, head, colors);
    lemma_run_one(t, goto_cell(row, col));
    let moved = t.run(head);
    let inked = moved.run(colors);
    lemma_run_one(inked, Command::Glyph(cell.glyph));
}

/// What a full redraw emits for one cell makes the terminal show the cell
/// there and touches no other position, provided the terminal has the
/// colours of the cell stored before, where there is one.
proof fn lemma_run_full_cell(t: Terminal, grid: Grid, row: int, col: int)
    requires
        grid.contains(row, col),
        grid.predecessor(row, col) matches Some(p) ==> t.has_pen(Pen::of(grid.at(p.0, p.1))),
    ensures
        t.run(full_cell(grid, row, col)).shows_at(row, col, grid.at(row, col)),
        t.run(full_cell(grid, row, col)).same_elsewhere(t, row, col),
        t.run(full_cell(grid, row, col)).has_pen(Pen::of(grid.at(row, col))),
{
    let cell = grid.at(row, col);
    let colors = match grid.predecessor(row, col) {
        Some((r, c)) => color_changes(Pen::of(grid.at(r, c)), cell),
        None => seq![Command::Foreground(cell.color_fg), Command::Background(cell.color_bg)],
    };
    assert forall|s: Terminal| s.fg == t.fg && s.bg == t.bg implies #[trigger] s.run(colors)
        == (Terminal { fg: Some(cell.color_fg), bg: Some(cell.color_bg), ..s }) by {
        match grid.predecessor(row, col) {
            Some((r, c)) => {
                lemma_run_color_changes(s, Pen::of(grid.at(r, c)), cell);
            },
            None => {
                let fg = seq![Command::Foreground(cell.color_fg)];
                let bg = seq![Command::Background(cell.color_bg)];
                assert(colors =~= fg + bg);
                lemma_run_concat(s, fg, bg);
                lemma_run_one(s, Command::Foreground(cell.color_fg));
                lemma_run_one(s.run(fg), Command::Background(cell.color_bg));
            },
        }
    }
    lemma_run_cell(t, colors, row, col, cell);
}

/// The terminal shows the cells of `grid` that come before `(row, col)` in
/// reading order.
pub open spec fn shows_before(t: Terminal, grid: Grid, row: int, col: int) -> bool {
    forall|r: int, c: int|
        grid.contains(r, c) && (r < row || (r == row && c < col)) ==> #[trigger] t.shows_at(
            r,
            c,
            grid.at(r, c),
        )
}

/// After the first cells of a row, a full redraw has made the terminal show
/// them, kept what it showed of the rows above, and left the colours of
/// the last cell drawn.
proof fn lemma_run_full_row(t: Terminal, grid: Grid, row: int, upto: int)
    requires
        0 <= row < grid.rows,
        0 <= upto <= grid.cols,
        shows_before(t, grid, row, 0),
        row > 0 && grid.cols > 0 ==> t.has_pen(Pen::of(grid.at(row - 1, grid.cols - 1))),
    ensures
        shows_before(t.run(full_row(grid, row, upto)), grid, row, upto),
        upto > 0 ==> t.run(full_row(grid, row, upto)).has_pen(Pen::of(grid.at(row, upto - 1))),
        upto == 0 ==> t.run(full_row(grid, row, upto)) == t,
    decreases upto,
{
    if upto > 0 {
        let col = upto - 1;
        let before = t.run(full_row(grid, row, col));
        lemma_run_full_row(t, grid, row, col);
        lemma_run_concat(t, full_row(grid, row, col), full_cell(grid, row, col));
        lemma_run_full_cell(before, grid, row, col);
        let after = before.run(full_cell(grid, row, col));
        assert forall|r: int, c: int|
            grid.contains(r, c) && (r < row || (r == row && c < upto))
            implies #[trigger] after.shows_at(r, c, grid.at(r, c)) by {
            if r != row || c != col {
                assert(before.shows_at(r, c, grid.at(r, c)));
            }
        }
    }
}

/// After the first rows, a full redraw has made the terminal show them and
/// left the colours of the last cell drawn.
proof fn lemma_run_full_rows(t: Terminal, grid: Grid, upto: int)
    requires
        0 <= upto <= grid.rows,
    ensures
        shows_before(t.run(full_rows(grid, upto)), grid, upto, 0),
        upto > 0 && grid.cols > 0 ==> t.run(full_rows(grid, upto)).has_pen(
            Pen::of(grid.at(upto - 1, grid.cols - 1)),
        ),
    decreases upto,
{
    if upto > 0 {
        let row = upto - 1;
        let before = t.run(full_rows(grid, row));
        lemma_run_full_rows(t, grid, row);
        lemma_run_concat(t, full_rows(grid, row), full_row(grid, row, grid.cols as int));
        lemma_run_full_row(before, grid, row, grid.cols as int);
    }
}

/// Whatever the terminal showed, after a full redraw it shows the grid.
pub proof fn lemma_full_redraw_shows(t: Terminal, grid: Grid)
    ensures
        t.run(full_redraw(grid)).shows(grid),
{
    let head = seq![Command::ClearAll];
    lemma_run_concat(t, head, full_rows(grid, grid.rows as int));
    lemma_run_full_rows(t.run(head), grid, grid.rows as int);
}

/// What the position `(r, c)` shows while a diff redraw stands before the
/// cell `(row, col)`: the cell of `next` if it has passed the position, the
/// cell of `prev` if not.
pub open spec fn mixed_at(prev: Grid, next: Grid, row: int, col: int, r: int, c: int) -> Char {
    if r < row || (r == row && c < col) {
        next.at(r, c)
    } else {
        prev.at(r, c)
    }
}

/// The terminal shows `next` at the cells that come before `(row, col)` in
/// reading order, and `prev` at the others.
pub open spec fn shows_mixed(t: Terminal, prev: Grid, next: Grid, row: int, col: int) -> bool {
    forall|r: int, c: int|
        next.contains(r, c) ==> #[trigger] t.shows_at(r, c, mixed_at(prev, next, row, col, r, c))
}

/// What a diff redraw emits for one cell makes the terminal show the cell
/// of `next` there, touches no other position, and leaves the colours that
/// the renderer tracks.
proof fn lemma_run_diff_cell(t: Terminal, prev: Grid, next: Grid, pen: Pen, row: int, col: int)
    requires
        next.contains(row, col),
        t.has_pen(pen),
        t.shows_at(row, col, prev.at(row, col)),
    ensures
        t.run(diff_cell(prev, next, pen, row, col)).shows_at(row, col, next.at(row, col)),
        t.run(diff_cell(prev, next, pen, row, col)).same_elsewhere(t, row, col),
        t.run(diff_cell(prev, next, pen, row, col)).has_pen(
            pen_after_cell(prev, next, pen, row, col),
        ),
{
    if changed(prev, next, row, col) {
        let cell = next.at(row, col);
        let colors = color_changes(pen, cell);
        assert forall|s: Terminal| s.fg == t.fg && s.bg == t.bg implies #[trigger] s.run(colors)
            == (Terminal { fg: Some(cell.color_fg), bg: Some(cell.color_bg), ..s }) by {
            lemma_run_color_changes(s, pen, cell);
        }
        lemma_run_cell(t, colors, row, col, cell);
    }
}

/// After the first cells of a row, a diff redraw has made the terminal show
/// `next` there and left the colours that the renderer tracks.
proof fn lemma_run_diff_row(t: Terminal, prev: Grid, next: Grid, pen: Pen, row: int, upto: int)
    requires
        0 <= row < next.rows,
        0 <= upto <= next.cols,
        t.has_pen(pen),
        shows_mixed(t, prev, next, row, 0),
    ensures
        shows_mixed(t.run(diff_row(prev, next, pen, row, upto)), prev, next, row, upto),
        t.run(diff_row(prev, next, pen, row, upto)).has_pen(
            pen_after_row(prev, next, pen, row, upto),
        ),
    decreases upto,
{
    if upto > 0 {
        let col = upto - 1;
        let at_cell = pen_after_row(prev, next, pen, row, col);
        let before = t.run(diff_row(prev, next, pen, row, col));
        lemma_run_diff_row(t, prev, next, pen, row, col);
        lemma_run_concat(
            t,
            diff_row(prev, next, pen, row, col),
            diff_cell(prev, next, at_cell, row, col),
        );
        assert(before.shows_at(row, col, mixed_at(prev, next, row, col, row, col)));
        lemma_run_diff_cell(before, prev, next, at_cell, row, col);
        let after = before.run(diff_cell(prev, next, at_cell, row, col));
        assert forall|r: int, c: int| next.contains(r, c) implies #[trigger] after.shows_at(
            r,
            c,
            mixed_at(prev, next, row, upto, r, c),
        ) by {
            if r != row || c != col {
                assert(before.shows_at(
                    r,
                    c,
                    mixed_at(prev, next, row, col, r, c),
                ));
            }
        }
    }
}

/// After the first rows, a diff redraw has made the terminal show `next`
/// there and left the colours that the renderer tracks.
proof fn lemma_run_diff_rows(t: Terminal, prev: Grid, next: Grid, upto: int)
    requires
        0 <= upto <= next.rows,
        t.has_pen(Pen::reset()),
        shows_mixed(t, prev, next, 0, 0),
    ensures
        shows_mixed(t.run(diff_rows(prev, next, upto)), prev, next, upto, 0),
        t.run(diff_rows(prev, next, upto)).has_pen(pen_after_rows(prev, next, upto)),
    decreases upto,
{
    if upto > 0 {
        let row = upto - 1;
        let pen = pen_after_rows(prev, next, row);
        let before = t.run(diff_rows(prev, next, row));
        lemma_run_diff_rows(t, prev, next, row);
        lemma_run_concat(
            t,
            diff_rows(prev, next, row),
            diff_row(prev, next, pen, row, next.cols as int),
        );
        lemma_run_diff_row(before, prev, next, pen, row, next.cols as int);
        let after = before.run(diff_row(prev, next, pen, row, next.cols as int));
        assert forall|r: int, c: int| next.contains(r, c) implies #[trigger] after.shows_at(
            r,
            c,
            mixed_at(prev, next, upto, 0, r, c),
        ) by {
            assert(after.shows_at(
                r,
                c,
                mixed_at(prev, next, row, next.cols as int, r, c),
            ));
        }
    }
}

/// A terminal that shows a grid, after a diff redraw against that grid,
/// shows the grid that was drawn.
pub proof fn lemma_diff_redraw_shows(t: Terminal, prev: Grid, next: Grid)
    requires
        prev.dims() == next.dims(),
        t.shows(prev),
    ensures
        t.run(diff_redraw(prev, next)).shows(next),
{
    let fg = seq![Command::Foreground(Color::Default)];
    let bg = seq![Command::Background(Color::Default)];
    let resets = seq![Command::Foreground(Color::Default), Command::Background(Color::Default)];
    assert(resets =~= fg + bg);
    lemma_run_concat(t, fg, bg);
    lemma_run_one(t, Command::Foreground(Color::Default));
    lemma_run_one(t.run(fg), Command::Background(Color::Default));
    let start = t.run(resets);
    assert forall|r: int, c: int| next.contains(r, c) implies #[trigger] start.shows_at(
        r,
        c,
        mixed_at(prev, next, 0, 0, r, c),
    ) by {
        assert(t.shows_at(r, c, prev.at(r, c)));
    }
    lemma_run_concat(t, resets, diff_rows(prev, next, next.rows as int));
    lemma_run_diff_rows(start, prev, next, next.rows as int);
    let after = t.run(diff_redraw(prev, next));
    assert forall|row: int, col: int| next.contains(row, col) implies #[trigger] after.shows_at(
        row,
        col,
        next.at(row, col),
    ) by {
        assert(after.shows_at(
            row,
            col,
            mixed_at(prev, next, next.rows as int, 0, row, col),
        ));
    }
}

/// A terminal that shows the frame last rendered, after rendering, shows
/// the frame that was drawn. Where the two frames differ in size, it does
/// so whatever it showed before.
pub proof fn lemma_render_shows(t: Terminal, prev: Grid, next: Grid)
    requires
        prev.dims() == next.dims() ==> t.shows(prev),
    ensures
        t.run(render_commands(prev, next)).shows(next),
{
    if next.dims() != prev.dims() {
        lemma_full_redraw_shows(t, next);
    } else {
        lemma_diff_redraw_shows(t, prev, next);
    }
}

} // verus!
