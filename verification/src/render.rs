//! The two ways of bringing the terminal up to date, as runs of commands:
//! drawing every cell anew, and drawing only the cells that changed.

use vstd::prelude::*;
use crate::cell::Char;
use crate::color::Color;
use crate::commands::{
    count_clears, count_colors, count_glyphs, count_gotos, lemma_counts_concat, Command,
};
use crate::frame::Grid;

verus! {

/// The colours that are active on the terminal.
pub struct Pen {
    pub fg: Color,
    pub bg: Color,
}

impl Pen {
    /// The terminal's own colours.
    pub open spec fn reset() -> Pen {
        Pen { fg: Color::Default, bg: Color::Default }
    }

    /// The colours of a cell.
    pub open spec fn of(cell: Char) -> Pen {
        Pen { fg: cell.color_fg, bg: cell.color_bg }
    }
}

/// The cursor move to the cell `(row, col)`: its coordinates counted from
/// one.
pub open spec fn goto_cell(row: int, col: int) -> Command {
    Command::Goto { row: (row + 1) as nat, col: (col + 1) as nat }
}

/// The colour changes that take the terminal from `pen` to the colours of
/// `cell`: the foreground if it differs, then the background if it differs.
pub open spec fn color_changes(pen: Pen, cell: Char) -> Seq<Command> {
    let fg = if cell.color_fg != pen.fg {
        seq![Command::Foreground(cell.color_fg)]
    } else {
        Seq::<Command>::empty()
    };
    let bg = if cell.color_bg != pen.bg {
        seq![Command::Background(cell.color_bg)]
    } else {
        Seq::<Command>::empty()
    };
    fg + bg
}

/// What a full redraw emits for the cell `(row, col)`: a cursor move, the
/// colours that differ from those of the cell stored just before it (both
/// colours where there is no such cell), and the glyph.
pub open spec fn full_cell(grid: Grid, row: int, col: int) -> Seq<Command> {
    let cell = grid.at(row, col);
    let colors = match grid.predecessor(row, col) {
        Some((r, c)) => color_changes(Pen::of(grid.at(r, c)), cell),
        None => seq![Command::Foreground(cell.color_fg), Command::Background(cell.color_bg)],
    };
    seq![goto_cell(row, col)] + colors + seq![Command::Glyph(cell.glyph)]
}

/// What a full redraw emits for the first `upto` cells of a row.
pub open spec fn full_row(grid: Grid, row: int, upto: int) -> Seq<Command>
    decreases upto,
{
    if upto <= 0 {
        Seq::empty()
    } else {
        full_row(grid, row, upto - 1) + full_cell(grid, row, upto - 1)
    }
}

/// What a full redraw emits for the first `upto` rows.
pub open spec fn full_rows(grid: Grid, upto: int) -> Seq<Command>
    decreases upto,
{
    if upto <= 0 {
        Seq::empty()
    } else {
        full_rows(grid, upto - 1) + full_row(grid, upto - 1, grid.cols as int)
    }
}

/// A full redraw: erase the screen, then draw every cell, the rows from the
/// top and each row from the left.
pub open spec fn full_redraw(grid: Grid) -> Seq<Command> {
    seq![Command::ClearAll] + full_rows(grid, grid.rows as int)
}

/// The cell `(row, col)` differs between the two grids.
pub open spec fn changed(prev: Grid, next: Grid, row: int, col: int) -> bool {
    next.at(row, col) != prev.at(row, col)
}

/// What a diff redraw emits for the cell `(row, col)` when the terminal's
/// colours are `pen`: nothing if the cell did not change, else a cursor
/// move, the colours that differ from `pen`, and the glyph.
pub open spec fn diff_cell(prev: Grid, next: Grid, pen: Pen, row: int, col: int) -> Seq<Command> {
    if changed(prev, next, row, col) {
        let cell = next.at(row, col);
        seq![goto_cell(row, col)] + color_changes(pen, cell) + seq![Command::Glyph(cell.glyph)]
    } else {
        Seq::empty()
    }
}

/// The terminal's colours after a diff redraw has passed the cell
/// `(row, col)`: those of the cell if it changed, else `pen`.
pub open spec fn pen_after_cell(prev: Grid, next: Grid, pen: Pen, row: int, col: int) -> Pen {
    if changed(prev, next, row, col) {
        Pen::of(next.at(row, col))
    } else {
        pen
    }
}

/// The terminal's colours after a diff redraw that entered a row with
/// `pen` has passed its first `upto` cells.
pub open spec fn pen_after_row(prev: Grid, next: Grid, pen: Pen, row: int, upto: int) -> Pen
    decreases upto,
{
    if upto <= 0 {
        pen
    } else {
        pen_after_cell(prev, next, pen_after_row(prev, next, pen, row, upto - 1), row, upto - 1)
    }
}

/// What a diff redraw that entered a row with `pen` emits for its first
/// `upto` cells.
pub open spec fn diff_row(prev: Grid, next: Grid, pen: Pen, row: int, upto: int) -> Seq<Command>
    decreases upto,
{
    if upto <= 0 {
        Seq::empty()
    } else {
        diff_row(prev, next, pen, row, upto - 1) + diff_cell(
            prev,
            next,
            pen_after_row(prev, next, pen, row, upto - 1),
            row,
            upto - 1,
        )
    }
}

/// The terminal's colours after a diff redraw has passed the first `upto`
/// rows.
pub open spec fn pen_after_rows(prev: Grid, next: Grid, upto: int) -> Pen
    decreases upto,
{
    if upto <= 0 {
        Pen::reset()
    } else {
        pen_after_row(prev, next, pen_after_rows(prev, next, upto - 1), upto - 1, next.cols as int)
    }
}

/// What a diff redraw emits for the first `upto` rows.
pub open spec fn diff_rows(prev: Grid, next: Grid, upto: int) -> Seq<Command>
    decreases upto,
{
    if upto <= 0 {
        Seq::empty()
    } else {
        diff_rows(prev, next, upto - 1) + diff_row(
            prev,
            next,
            pen_after_rows(prev, next, upto - 1),
            upto - 1,
            next.cols as int,
        )
    }
}

/// A diff redraw: restore the terminal's own two colours, then draw the
/// cells of `next` that differ from `prev`, the rows from the top and each
/// row from the left.
pub open spec fn diff_redraw(prev: Grid, next: Grid) -> Seq<Command> {
    seq![Command::Foreground(Color::Default), Command::Background(Color::Default)] + diff_rows(
        prev,
        next,
        next.rows as int,
    )
}

/// A full redraw of the grid moves the cursor only to rows and columns
/// whose number, counted from one, fits in sixteen bits: the grid has at
/// most 65535 rows and, where it has a row at all, at most 65535 columns.
pub open spec fn full_addressable(grid: Grid) -> bool {
    grid.rows <= u16::MAX && (grid.rows == 0 || grid.cols <= u16::MAX)
}

/// A diff redraw of `next` against `prev` moves the cursor only to rows
/// and columns whose number, counted from one, fits in sixteen bits: the
/// grid has at most 65535 rows, and every cell that differs lies in one of
/// the first 65535 columns.
pub open spec fn diff_addressable(prev: Grid, next: Grid) -> bool {
    &&& next.rows <= u16::MAX
    &&& forall|row: int, col: int|
        next.contains(row, col) && #[trigger] changed(prev, next, row, col) ==> col < u16::MAX
}

/// Rendering moves the cursor only to rows and columns whose number,
/// counted from one, fits in sixteen bits.
pub open spec fn render_addressable(prev: Grid, next: Grid) -> bool {
    if next.dims() != prev.dims() {
        full_addressable(next)
    } else {
        diff_addressable(prev, next)
    }
}

/// Grids of at most 65535 rows and 65535 columns can always be rendered.
pub proof fn lemma_small_grids_addressable(prev: Grid, next: Grid)
    requires
        next.rows <= u16::MAX,
        next.cols <= u16::MAX,
    ensures
        full_addressable(next),
        diff_addressable(prev, next),
        render_addressable(prev, next),
{
}

/// What rendering emits: a full redraw where the two grids differ in size,
/// a diff redraw where they agree.
pub open spec fn render_commands(prev: Grid, next: Grid) -> Seq<Command> {
    if next.dims() != prev.dims() {
        full_redraw(next)
    } else {
        diff_redraw(prev, next)
    }
}

/// The cells of `next` that differ from the cell of `prev` at the same
/// place.
pub open spec fn changed_cells(prev: Grid, next: Grid) -> Set<(int, int)> {
    Set::new(|p: (int, int)| next.contains(p.0, p.1) && changed(prev, next, p.0, p.1))
}

/// The changed cells that come before `(row, col)` in reading order.
pub open spec fn changed_before(prev: Grid, next: Grid, row: int, col: int) -> Set<(int, int)> {
    Set::new(
        |p: (int, int)|
            next.contains(p.0, p.1) && changed(prev, next, p.0, p.1) && (p.0 < row || (p.0 == row
                && p.1 < col)),
    )
}

/// The empty run of commands counts nothing.
proof fn lemma_counts_none()
    ensures
        count_gotos(Seq::<Command>::empty()) == 0,
        count_colors(Seq::<Command>::empty()) == 0,
        count_glyphs(Seq::<Command>::empty()) == 0,
        count_clears(Seq::<Command>::empty()) == 0,
{
}

/// The counts of a run of one command.
proof fn lemma_counts_one(cmd: Command)
    ensures
        count_gotos(seq![cmd]) == if cmd is Goto { 1nat } else { 0nat },
        count_colors(seq![cmd]) == if cmd.is_color() { 1nat } else { 0nat },
        count_glyphs(seq![cmd]) == if cmd is Glyph { 1nat } else { 0nat },
        count_clears(seq![cmd]) == if cmd is ClearAll { 1nat } else { 0nat },
{
    lemma_counts_none();
    assert(seq![cmd].drop_last() =~= Seq::<Command>::empty());
}

/// Colour changes are at most two commands, all of them colour changes.
proof fn lemma_counts_color_changes(pen: Pen, cell: Char)
    ensures
        count_gotos(color_changes(pen, cell)) == 0,
        count_colors(color_changes(pen, cell)) <= 2,
        count_glyphs(color_changes(pen, cell)) == 0,
        count_clears(color_changes(pen, cell)) == 0,
{
    let fg = if cell.color_fg != pen.fg {
        seq![Command::Foreground(cell.color_fg)]
    } else {
        Seq::<Command>::empty()
    };
    let bg = if cell.color_bg != pen.bg {
        seq![Command::Background(cell.color_bg)]
    } else {
        Seq::<Command>::empty()
    };
    lemma_counts_none();
    lemma_counts_one(Command::Foreground(cell.color_fg));
    lemma_counts_one(Command::Background(cell.color_bg));
    lemma_counts_concat(fg, bg);
}

/// A changed cell costs a diff redraw one cursor move, one glyph and at
/// most two colour changes; an unchanged cell costs it nothing.
proof fn lemma_counts_diff_cell(prev: Grid, next: Grid, pen: Pen, row: int, col: int)
    ensures
        count_gotos(diff_cell(prev, next, pen, row, col)) == if changed(prev, next, row, col) {
            1nat
        } else {
            0nat
        },
        count_glyphs(diff_cell(prev, next, pen, row, col)) == if changed(prev, next, row, col) {
            1nat
        } else {
            0nat
        },
        count_colors(diff_cell(prev, next, pen, row, col)) <= if changed(prev, next, row, col) {
            2nat
        } else {
            0nat
        },
        count_clears(diff_cell(prev, next, pen, row, col)) == 0,
{
    lemma_counts_none();
    if changed(prev, next, row, col) {
        let cell = next.at(row, col);
        let head = seq![goto_cell(row, col)];
        let colors = color_changes(pen, cell);
        let tail = seq![Command::Glyph(cell.glyph)];
        lemma_counts_one(goto_cell(row, col));
        lemma_counts_one(Command::Glyph(cell.glyph));
        lemma_counts_color_changes(pen, cell);
        lemma_counts_concat(head, colors);
        lemma_counts_concat(head + colors, tail);
    }
}

/// Within one row, the cursor moves and the glyphs of a diff redraw are as
/// many as the changed cells passed, and the colour changes at most twice
/// as many.
proof fn lemma_counts_diff_row(prev: Grid, next: Grid, pen: Pen, row: int, upto: int)
    requires
        0 <= row < next.rows,
        0 <= upto <= next.cols,
    ensures
        changed_before(prev, next, row, 0).finite() ==> changed_before(
            prev,
            next,
            row,
            upto,
        ).finite(),
        changed_before(prev, next, row, 0).finite() ==> {
            let passed = changed_before(prev, next, row, upto).len() - changed_before(
                prev,
                next,
                row,
                0,
            ).len();
            &&& count_gotos(diff_row(prev, next, pen, row, upto)) == passed
            &&& count_glyphs(diff_row(prev, next, pen, row, upto)) == passed
            &&& count_colors(diff_row(prev, next, pen, row, upto)) <= 2 * passed
            &&& count_clears(diff_row(prev, next, pen, row, upto)) == 0
        },
    decreases upto,
{
    lemma_counts_none();
    if upto > 0 && changed_before(prev, next, row, 0).finite() {
        let col = upto - 1;
        lemma_counts_diff_row(prev, next, pen, row, col);
        let before = changed_before(prev, next, row, col);
        let after = changed_before(prev, next, row, upto);
        let at_cell = pen_after_row(prev, next, pen, row, col);
        lemma_counts_diff_cell(prev, next, at_cell, row, col);
        lemma_counts_concat(
            diff_row(prev, next, pen, row, col),
            diff_cell(prev, next, at_cell, row, col),
        );
        if changed(prev, next, row, col) {
            assert(after =~= before.insert((row, col)));
        } else {
            assert(after =~= before);
        }
    }
}

/// Over whole rows, the cursor moves and the glyphs of a diff redraw are as
/// many as the changed cells passed, and the colour changes at most twice
/// as many.
proof fn lemma_counts_diff_rows(prev: Grid, next: Grid, upto: int)
    requires
        0 <= upto <= next.rows,
    ensures
        changed_before(prev, next, upto, 0).finite(),
        count_gotos(diff_rows(prev, next, upto)) == changed_before(prev, next, upto, 0).len(),
        count_glyphs(diff_rows(prev, next, upto)) == changed_before(prev, next, upto, 0).len(),
        count_colors(diff_rows(prev, next, upto)) <= 2 * changed_before(prev, next, upto, 0).len(),
        count_clears(diff_rows(prev, next, upto)) == 0,
    decreases upto,
{
    lemma_counts_none();
    if upto <= 0 {
        assert(changed_before(prev, next, upto, 0) =~= Set::<(int, int)>::empty());
    } else {
        let row = upto - 1;
        let pen = pen_after_rows(prev, next, row);
        lemma_counts_diff_rows(prev, next, row);
        lemma_counts_diff_row(prev, next, pen, row, next.cols as int);
        lemma_counts_concat(
            diff_rows(prev, next, row),
            diff_row(prev, next, pen, row, next.cols as int),
        );
        assert(changed_before(prev, next, row, next.cols as int) =~= changed_before(
            prev,
            next,
            upto,
            0,
        ));
    }
}

/// A diff redraw of a grid against another of the same size opens with the
/// two colour resets. After them it moves the cursor exactly once and
/// prints exactly one glyph for each cell that differs, changes a colour at
/// most twice for each such cell, and never erases the screen.
pub proof fn lemma_diff_redraw_counts(prev: Grid, next: Grid)
    requires
        prev.dims() == next.dims(),
    ensures
        changed_cells(prev, next).finite(),
        diff_redraw(prev, next).len() >= 2,
        diff_redraw(prev, next)[0] == Command::Foreground(Color::Default),
        diff_redraw(prev, next)[1] == Command::Background(Color::Default),
        count_gotos(diff_redraw(prev, next)) == changed_cells(prev, next).len(),
        count_glyphs(diff_redraw(prev, next)) == changed_cells(prev, next).len(),
        count_colors(diff_redraw(prev, next).skip(2)) <= 2 * changed_cells(prev, next).len(),
        count_colors(diff_redraw(prev, next)) <= 2 + 2 * changed_cells(prev, next).len(),
        count_clears(diff_redraw(prev, next)) == 0,
{
    let resets = seq![Command::Foreground(Color::Default), Command::Background(Color::Default)];
    let body = diff_rows(prev, next, next.rows as int);
    lemma_counts_diff_rows(prev, next, next.rows as int);
    assert(changed_before(prev, next, next.rows as int, 0) =~= changed_cells(prev, next));
    assert(resets =~= seq![Command::Foreground(Color::Default)] + seq![
        Command::Background(Color::Default),
    ]);
    lemma_counts_one(Command::Foreground(Color::Default));
    lemma_counts_one(Command::Background(Color::Default));
    lemma_counts_concat(
        seq![Command::Foreground(Color::Default)],
        seq![Command::Background(Color::Default)],
    );
    lemma_counts_concat(resets, body);
    assert((resets + body).skip(2) =~= body);
}

/// Where no cell differs, a diff redraw is the two colour resets and
/// nothing else.
pub proof fn lemma_diff_redraw_unchanged(prev: Grid, next: Grid)
    requires
        prev.dims() == next.dims(),
        forall|row: int, col: int| next.contains(row, col) ==> !changed(prev, next, row, col),
    ensures
        diff_redraw(prev, next) == seq![
            Command::Foreground(Color::Default),
            Command::Background(Color::Default),
        ],
{
    lemma_diff_rows_unchanged(prev, next, next.rows as int);
}

/// A row without a changed cell adds nothing to a diff redraw and leaves
/// the terminal's colours alone.
proof fn lemma_diff_row_unchanged(prev: Grid, next: Grid, pen: Pen, row: int, upto: int)
    requires
        0 <= row < next.rows,
        0 <= upto <= next.cols,
        forall|r: int, c: int| next.contains(r, c) ==> !changed(prev, next, r, c),
    ensures
        diff_row(prev, next, pen, row, upto) == Seq::<Command>::empty(),
        pen_after_row(prev, next, pen, row, upto) == pen,
    decreases upto,
{
    if upto > 0 {
        lemma_diff_row_unchanged(prev, next, pen, row, upto - 1);
        assert(next.contains(row, upto - 1));
    }
}

/// Rows without a changed cell add nothing to a diff redraw and leave the
/// terminal's colours alone.
proof fn lemma_diff_rows_unchanged(prev: Grid, next: Grid, upto: int)
    requires
        0 <= upto <= next.rows,
        forall|r: int, c: int| next.contains(r, c) ==> !changed(prev, next, r, c),
    ensures
        diff_rows(prev, next, upto) == Seq::<Command>::empty(),
        pen_after_rows(prev, next, upto) == Pen::reset(),
    decreases upto,
{
    if upto > 0 {
        lemma_diff_rows_unchanged(prev, next, upto - 1);
        lemma_diff_row_unchanged(prev, next, Pen::reset(), upto - 1, next.cols as int);
    }
}

/// A full redraw erases the screen once, as its first command, and then
/// moves the cursor to every cell and prints its glyph.
pub proof fn lemma_full_redraw_counts(grid: Grid)
    ensures
        full_redraw(grid).len() >= 1,
        full_redraw(grid)[0] == Command::ClearAll,
        count_clears(full_redraw(grid)) == 1,
        count_gotos(full_redraw(grid)) == grid.rows * grid.cols,
        count_glyphs(full_redraw(grid)) == grid.rows * grid.cols,
{
    let head = seq![Command::ClearAll];
    lemma_counts_one(Command::ClearAll);
    lemma_counts_full_rows(grid, grid.rows as int);
    lemma_counts_concat(head, full_rows(grid, grid.rows as int));
}

/// What a full redraw emits for one cell: one cursor move, one glyph and no
/// erasure.
proof fn lemma_counts_full_cell(grid: Grid, row: int, col: int)
    ensures
        count_gotos(full_cell(grid, row, col)) == 1,
        count_glyphs(full_cell(grid, row, col)) == 1,
        count_clears(full_cell(grid, row, col)) == 0,
{
    let cell = grid.at(row, col);
    let head = seq![goto_cell(row, col)];
    let tail = seq![Command::Glyph(cell.glyph)];
    let both = seq![Command::Foreground(cell.color_fg), Command::Background(cell.color_bg)];
    let colors = match grid.predecessor(row, col) {
        Some((r, c)) => color_changes(Pen::of(grid.at(r, c)), cell),
        None => both,
    };
    lemma_counts_one(goto_cell(row, col));
    lemma_counts_one(Command::Glyph(cell.glyph));
    lemma_counts_one(Command::Foreground(cell.color_fg));
    lemma_counts_one(Command::Background(cell.color_bg));
    assert(both =~= seq![Command::Foreground(cell.color_fg)] + seq![
        Command::Background(cell.color_bg),
    ]);
    lemma_counts_concat(
        seq![Command::Foreground(cell.color_fg)],
        seq![Command::Background(cell.color_bg)],
    );
    match grid.predecessor(row, col) {
        Some((r, c)) => {
            lemma_counts_color_changes(Pen::of(grid.at(r, c)), cell);
        },
        None => {},
    }
    lemma_counts_concat(head, colors);
    lemma_counts_concat(head + colors, tail);
}

/// What a full redraw emits for the first cells of a row: one cursor move
/// and one glyph each, and no erasure.
proof fn lemma_counts_full_row(grid: Grid, row: int, upto: int)
    requires
        0 <= upto,
    ensures
        count_gotos(full_row(grid, row, upto)) == upto,
        count_glyphs(full_row(grid, row, upto)) == upto,
        count_clears(full_row(grid, row, upto)) == 0,
    decreases upto,
{
    lemma_counts_none();
    if upto > 0 {
        lemma_counts_full_row(grid, row, upto - 1);
        lemma_counts_full_cell(grid, row, upto - 1);
        lemma_counts_concat(full_row(grid, row, upto - 1), full_cell(grid, row, upto - 1));
    }
}

/// What a full redraw emits for the first rows: one cursor move and one
/// glyph for each of their cells, and no erasure.
proof fn lemma_counts_full_rows(grid: Grid, upto: int)
    requires
        0 <= upto,
    ensures
        count_gotos(full_rows(grid, upto)) == upto * grid.cols,
        count_glyphs(full_rows(grid, upto)) == upto * grid.cols,
        count_clears(full_rows(grid, upto)) == 0,
    decreases upto,
{
    lemma_counts_none();
    if upto > 0 {
        lemma_counts_full_rows(grid, upto - 1);
        lemma_counts_full_row(grid, upto - 1, grid.cols as int);
        lemma_counts_concat(
            full_rows(grid, upto - 1),
            full_row(grid, upto - 1, grid.cols as int),
        );
        assert(upto * grid.cols == (upto - 1) * grid.cols + grid.cols) by (nonlinear_arith);
    } else {
        assert(upto * grid.cols == 0) by (nonlinear_arith)
            requires
                upto == 0,
        ;
    }
}

/// Rendering erases the screen, and does so first, exactly where the two
/// grids differ in size; where they agree it is a diff redraw, which never
/// erases the screen.
pub proof fn lemma_render_path(prev: Grid, next: Grid)
    ensures
        next.dims() != prev.dims() ==> render_commands(prev, next) == full_redraw(next)
            && render_commands(prev, next)[0] == Command::ClearAll && count_clears(
            render_commands(prev, next),
        ) == 1,
        next.dims() == prev.dims() ==> render_commands(prev, next) == diff_redraw(prev, next)
            && render_commands(prev, next)[0] != Command::ClearAll && count_clears(
            render_commands(prev, next),
        ) == 0,
{
    lemma_full_redraw_counts(next);
    if next.dims() == prev.dims() {
        lemma_diff_redraw_counts(prev, next);
    }
}

} // verus!
