//! A fixed-size grid of cells with checked access.

use vstd::prelude::*;
use vstd::arithmetic::div_mod::{lemma_fundamental_div_mod, lemma_multiply_divide_lt};
use vstd::std_specs::cmp::PartialEqSpecImpl;
use crate::cell::Char;

verus! {

/// What a frame holds, apart from how it is stored: its two dimensions and
/// its cells, row by row.
#[verifier::ext_equal]
pub struct Grid {
    pub rows: nat,
    pub cols: nat,
    pub cells: Seq<Seq<Char>>,
}

impl Grid {
    /// There are `rows` rows of `cols` cells each.
    pub open spec fn wf(self) -> bool {
        &&& self.cells.len() == self.rows
        &&& forall|r: int| 0 <= r < self.rows ==> (#[trigger] self.cells[r]).len() == self.cols
    }

    /// `(row, col)` names a cell of the grid.
    pub open spec fn contains(self, row: int, col: int) -> bool {
        0 <= row < self.rows && 0 <= col < self.cols
    }

    /// The cell at `(row, col)`.
    pub open spec fn at(self, row: int, col: int) -> Char
        recommends
            self.contains(row, col),
    {
        self.cells[row][col]
    }

    /// The pair of dimensions, rows first.
    pub open spec fn dims(self) -> (nat, nat) {
        (self.rows, self.cols)
    }

    /// The grid of the given size in which every cell is blank.
    pub open spec fn blank(rows: nat, cols: nat) -> Grid {
        Grid {
            rows,
            cols,
            cells: Seq::new(rows, |r: int| Seq::new(cols, |c: int| Char::blank())),
        }
    }

    /// This grid with the cell at `(row, col)` replaced by `ch`.
    pub open spec fn set(self, row: int, col: int, ch: Char) -> Grid
        recommends
            self.contains(row, col),
    {
        Grid {
            rows: self.rows,
            cols: self.cols,
            cells: self.cells.update(row, self.cells[row].update(col, ch)),
        }
    }

    /// The position stored just before `(row, col)`: none for the origin,
    /// the cell to the left where there is one, else the last cell of the
    /// row above.
    pub open spec fn predecessor(self, row: int, col: int) -> Option<(int, int)> {
        if row == 0 && col == 0 {
            None
        } else if col == 0 {
            Some((row - 1, self.cols - 1))
        } else {
            Some((row, col - 1))
        }
    }
}

/// Writing a cell of a grid leaves a grid of the same size in which that
/// cell holds what was written and every other cell holds what it held.
pub proof fn lemma_set_changes_one_cell(grid: Grid, row: int, col: int, ch: Char)
    requires
        grid.wf(),
        grid.contains(row, col),
    ensures
        grid.set(row, col, ch).wf(),
        grid.set(row, col, ch).dims() == grid.dims(),
        grid.set(row, col, ch).at(row, col) == ch,
        forall|r: int, c: int|
            grid.contains(r, c) && (r != row || c != col) ==> #[trigger] grid.set(row, col, ch).at(
                r,
                c,
            ) == grid.at(r, c),
{
}

/// The origin has no predecessor; a cell in the first column of a later
/// row has the last cell of the row above; every other cell has the cell
/// to its left. The predecessor of a cell of the grid is a cell of the grid.
pub proof fn lemma_predecessor(grid: Grid, row: int, col: int)
    requires
        0 <= row,
        0 <= col,
    ensures
        row == 0 && col == 0 ==> grid.predecessor(row, col) is None,
        row > 0 && col == 0 ==> grid.predecessor(row, col) == Some((row - 1, grid.cols - 1)),
        col > 0 ==> grid.predecessor(row, col) == Some((row, col - 1)),
        grid.contains(row, col) ==> (grid.predecessor(row, col) matches Some(p) ==> grid.contains(
            p.0,
            p.1,
        )),
{
}

/// Why a position is not a cell of a frame.
#[derive(Debug, Copy, Clone, Eq, PartialEq, Structural)]
pub enum OutOfBounds {
    /// The row is not below the number of rows.
    Row { row: usize, rows: usize },
    /// The row is fine, and the column is not below the number of columns.
    Column { col: usize, cols: usize },
}

impl Grid {
    /// What is wrong with `(row, col)` as a position of the grid: nothing
    /// for a cell, else the row if it is too large, else the column.
    pub open spec fn fault(self, row: usize, col: usize) -> Option<OutOfBounds> {
        if row >= self.rows {
            Some(OutOfBounds::Row { row, rows: self.rows as usize })
        } else if col >= self.cols {
            Some(OutOfBounds::Column { col, cols: self.cols as usize })
        } else {
            None
        }
    }
}

/// A position is at fault exactly when its row or its column is not below
/// the respective dimension, which is exactly when it is no cell of the
/// grid.
pub proof fn lemma_fault_iff_out_of_range(grid: Grid, row: usize, col: usize)
    ensures
        grid.fault(row, col) is Some <==> row >= grid.rows || col >= grid.cols,
        grid.fault(row, col) is Some <==> !grid.contains(row as int, col as int),
        row >= grid.rows ==> grid.fault(row, col) is Some && grid.fault(row, col)->0 is Row,
        row < grid.rows && col >= grid.cols ==> grid.fault(row, col) is Some && grid.fault(
            row,
            col,
        )->0 is Column,
{
}

/// A grid of cells of fixed size. The cell at `(row, col)` is stored at
/// index `col * rows + row`.
#[derive(Debug, Hash)]
pub struct Frame {
    rows: usize,
    cols: usize,
    buffer: Vec<Char>,
}

/// Appends blank cells to `buffer` until it holds `len` of them.
fn fill_blank(buffer: &mut Vec<Char>, len: usize)
    requires
        old(buffer)@.len() == 0,
    ensures
        final(buffer)@ == Seq::new(len as nat, |i: int| Char::blank()),
{
    let mut i: usize = 0;
    while i < len
        invariant
            i <= len,
            buffer@ == Seq::new(i as nat, |k: int| Char::blank()),
        decreases len - i,
    {
        buffer.push(Char::default());
        i += 1;
    }
}

/// The index at which a frame of `rows` rows stores the cell `(row, col)`.
pub open spec fn storage_index(rows: int, row: int, col: int) -> int {
    col * rows + row
}

/// Every cell has a place within the storage, and no two cells share one.
proof fn lemma_storage_index(rows: int, cols: int, row: int, col: int)
    requires
        0 <= row < rows,
        0 <= col < cols,
    ensures
        0 <= storage_index(rows, row, col) < rows * cols,
        forall|r: int, c: int|
            0 <= r < rows && 0 <= c < cols && #[trigger] storage_index(rows, r, c)
                == storage_index(rows, row, col) ==> r == row && c == col,
        forall|r: int, c: int|
            0 <= r < rows && 0 <= c < cols ==> 0 <= #[trigger] storage_index(rows, r, c) < rows
                * cols,
{
    assert forall|r: int, c: int| 0 <= r < rows && 0 <= c < cols implies 0
        <= #[trigger] storage_index(rows, r, c) < rows * cols by {
        assert(0 <= c * rows + r < rows * cols) by (nonlinear_arith)
            requires
                0 <= r < rows,
                0 <= c < cols,
        ;
    }
    assert(0 <= col * rows + row < rows * cols) by (nonlinear_arith)
        requires
            0 <= row < rows,
            0 <= col < cols,
    ;
    assert forall|r: int, c: int|
        0 <= r < rows && 0 <= c < cols && #[trigger] storage_index(rows, r, c) == storage_index(
            rows,
            row,
            col,
        ) implies r == row && c == col by {
        assert(r == row && c == col) by (nonlinear_arith)
            requires
                0 <= r < rows,
                0 <= row < rows,
                c * rows + r == col * rows + row,
        ;
    }
}

impl View for Frame {
    type V = Grid;

    closed spec fn view(&self) -> Grid {
        Grid {
            rows: self.rows as nat,
            cols: self.cols as nat,
            cells: Seq::new(
                self.rows as nat,
                |r: int|
                    Seq::new(
                        self.cols as nat,
                        |c: int| self.buffer@[storage_index(self.rows as int, r, c)],
                    ),
            ),
        }
    }
}

impl Frame {
    #[verifier::type_invariant]
    spec fn inv(self) -> bool {
        self.buffer@.len() == self.rows * self.cols <= usize::MAX
    }

    /// The view of a frame is a grid of its dimensions.
    pub proof fn lemma_view_wf(&self)
        ensures
            self@.wf(),
    {
    }

    /// A blank frame of `rows` by `cols` cells.
    pub fn new(rows: usize, cols: usize) -> (frame: Frame)
        requires
            rows * cols <= usize::MAX,
        ensures
            frame@ == Grid::blank(rows as nat, cols as nat),
    {
        let mut buffer: Vec<Char> = Vec::new();
        fill_blank(&mut buffer, rows * cols);
        let frame = Frame { rows, cols, buffer };
        proof {
            lemma_blank_view(frame);
        }
        frame
    }

    /// Makes the frame `rows` by `cols` cells, all of them blank. The
    /// storage is kept.
    pub fn reset(&mut self, rows: usize, cols: usize)
        requires
            rows * cols <= usize::MAX,
        ensures
            final(self)@ == Grid::blank(rows as nat, cols as nat),
    {
        let mut spare = Frame { rows: 0, cols: 0, buffer: Vec::new() };
        std::mem::swap(self, &mut spare);
        let mut buffer = spare.buffer;
        buffer.clear();
        fill_blank(&mut buffer, rows * cols);
        *self = Frame { rows, cols, buffer };
        proof {
            lemma_blank_view(*self);
        }
    }

    /// The number of rows.
    pub fn rows(&self) -> (n: usize)
        ensures
            n == self@.rows,
    {
        self.rows
    }

    /// The number of columns.
    pub fn columns(&self) -> (n: usize)
        ensures
            n == self@.cols,
    {
        self.cols
    }

    /// Rows and columns as a pair.
    pub fn dims(&self) -> (d: (usize, usize))
        ensures
            d.0 == self@.rows,
            d.1 == self@.cols,
    {
        (self.rows, self.cols)
    }

    /// Tells whether `(row, col)` is a cell of the frame, and if not, which
    /// coordinate is at fault, the row first.
    pub fn check_dims(&self, row: usize, col: usize) -> (res: Result<(), OutOfBounds>)
        ensures
            res == match self@.fault(row, col) {
                Some(fault) => Err::<(), OutOfBounds>(fault),
                None => Ok::<(), OutOfBounds>(()),
            },
    {
        if row >= self.rows {
            Err(OutOfBounds::Row { row, rows: self.rows })
        } else if col >= self.cols {
            Err(OutOfBounds::Column { col, cols: self.cols })
        } else {
            Ok(())
        }
    }

    /// Replaces the cell at `(row, col)` by `ch`.
    pub fn set(&mut self, row: usize, col: usize, ch: Char)
        requires
            old(self)@.contains(row as int, col as int),
        ensures
            final(self)@ == old(self)@.set(row as int, col as int, ch),
    {
        proof {
            use_type_invariant(&*self);
            lemma_storage_index(self.rows as int, self.cols as int, row as int, col as int);
        }
        self.buffer[col * self.rows + row] = ch;
        assert(self@ =~~= old(self)@.set(row as int, col as int, ch));
    }

    /// The cell at `(row, col)`.
    pub fn get(&self, row: usize, col: usize) -> (ch: Char)
        requires
            self@.contains(row as int, col as int),
        ensures
            ch == self@.at(row as int, col as int),
    {
        proof {
            use_type_invariant(self);
            lemma_storage_index(self.rows as int, self.cols as int, row as int, col as int);
        }
        self.buffer[col * self.rows + row]
    }

    /// Replaces the cell at `(row, col)` by `ch` where that is a cell of
    /// the frame. For any other position it reports the fault and leaves
    /// the frame as it is.
    pub fn try_set(&mut self, row: usize, col: usize, ch: Char) -> (res: Result<(), OutOfBounds>)
        ensures
            res == match old(self)@.fault(row, col) {
                Some(fault) => Err::<(), OutOfBounds>(fault),
                None => Ok::<(), OutOfBounds>(()),
            },
            final(self)@ == if old(self)@.contains(row as int, col as int) {
                old(self)@.set(row as int, col as int, ch)
            } else {
                old(self)@
            },
    {
        match self.check_dims(row, col) {
            Ok(()) => {
                self.set(row, col, ch);
                Ok(())
            },
            Err(fault) => Err(fault),
        }
    }

    /// The cell at `(row, col)` where that is a cell of the frame. For any
    /// other position it reports the fault.
    pub fn try_get(&self, row: usize, col: usize) -> (res: Result<Char, OutOfBounds>)
        ensures
            res == match self@.fault(row, col) {
                Some(fault) => Err::<Char, OutOfBounds>(fault),
                None => Ok::<Char, OutOfBounds>(self@.at(row as int, col as int)),
            },
    {
        match self.check_dims(row, col) {
            Ok(()) => Ok(self.get(row, col)),
            Err(fault) => Err(fault),
        }
    }

    /// The position stored just before `(row, col)`, if there is one.
    pub fn prev_row_col(&self, row: usize, col: usize) -> (prev: Option<(usize, usize)>)
        requires
            row == 0 || col > 0 || self@.cols > 0,
        ensures
            prev is None <==> self@.predecessor(row as int, col as int) is None,
            prev matches Some(p) ==> self@.predecessor(row as int, col as int) == Some(
                (p.0 as int, p.1 as int),
            ),
    {
        if row == 0 && col == 0 {
            None
        } else if col == 0 {
            Some((row - 1, self.cols - 1))
        } else {
            Some((row, col - 1))
        }
    }
}

/// Every place of the storage belongs to a cell of the grid.
proof fn lemma_storage_cell(rows: int, cols: int, index: int)
    requires
        0 <= rows,
        0 <= cols,
        0 <= index < rows * cols,
    ensures
        0 <= index % rows < rows,
        0 <= index / rows < cols,
        storage_index(rows, index % rows, index / rows) == index,
{
    assert(rows > 0 && cols > 0) by (nonlinear_arith)
        requires
            0 <= index < rows * cols,
            0 <= rows,
            0 <= cols,
    ;
    lemma_fundamental_div_mod(index, rows);
    lemma_multiply_divide_lt(index, rows, cols);
    assert(0 <= index / rows) by (nonlinear_arith)
        requires
            0 <= index,
            rows > 0,
    ;
    assert((index / rows) * rows == rows * (index / rows)) by (nonlinear_arith);
}

impl Clone for Frame {
    /// A frame of its own that shows the same grid.
    fn clone(&self) -> (copy: Frame)
        ensures
            copy@ == self@,
    {
        proof {
            use_type_invariant(self);
        }
        let len = self.buffer.len();
        let mut buffer: Vec<Char> = Vec::new();
        let mut i: usize = 0;
        while i < len
            invariant
                i <= len,
                len == self.buffer@.len(),
                buffer@ == self.buffer@.take(i as int),
            decreases len - i,
        {
            buffer.push(self.buffer[i]);
            i += 1;
        }
        assert(buffer@ =~= self.buffer@);
        Frame { rows: self.rows, cols: self.cols, buffer }
    }
}

impl PartialEq for Frame {
    /// Two frames are equal when they have the same size and the same cells.
    fn eq(&self, other: &Frame) -> (res: bool) {
        proof {
            use_type_invariant(self);
            use_type_invariant(other);
        }
        if self.rows != other.rows || self.cols != other.cols {
            return false;
        }
        let len = self.buffer.len();
        let mut i: usize = 0;
        while i < len
            invariant
                i <= len,
                len == self.buffer@.len(),
                len == other.buffer@.len(),
                self.rows == other.rows,
                self.cols == other.cols,
                len == self.rows * self.cols,
                self.buffer@.take(i as int) == other.buffer@.take(i as int),
            decreases len - i,
        {
            if self.buffer[i] != other.buffer[i] {
                proof {
                    let rows = self.rows as int;
                    lemma_storage_cell(rows, self.cols as int, i as int);
                    let r = i as int % rows;
                    let c = i as int / rows;
                    assert(self@.cells[r][c] == self.buffer@[i as int]);
                    assert(other@.cells[r][c] == other.buffer@[i as int]);
                }
                return false;
            }
            i += 1;
        }
        proof {
            assert(self.buffer@ =~= self.buffer@.take(len as int));
            assert(other.buffer@ =~= other.buffer@.take(len as int));
        }
        true
    }
}

impl PartialEqSpecImpl for Frame {
    open spec fn obeys_eq_spec() -> bool {
        true
    }

    open spec fn eq_spec(&self, other: &Frame) -> bool {
        self@ == other@
    }
}

impl Eq for Frame {

}

/// A frame whose storage holds only blank cells shows the blank grid.
proof fn lemma_blank_view(frame: Frame)
    requires
        frame.buffer@ == Seq::new((frame.rows * frame.cols) as nat, |i: int| Char::blank()),
    ensures
        frame@ == Grid::blank(frame.rows as nat, frame.cols as nat),
{
    assert forall|r: int, c: int| 0 <= r < frame.rows && 0 <= c < frame.cols implies frame.buffer@[
        #[trigger] storage_index(frame.rows as int, r, c)] == Char::blank() by {
        lemma_storage_index(frame.rows as int, frame.cols as int, r, c);
    }
    assert(frame@ =~~= Grid::blank(frame.rows as nat, frame.cols as nat));
}

} // verus!
