//! Cells and the fixed-shape character grid they live in.

use vstd::pervasive::VecAdditionalExecFns;
use vstd::prelude::*;

verus! {

/// An RGB color. A plain value type; the zero value is black.
#[derive(Clone, Copy, Debug, PartialEq, Eq, Structural)]
pub struct Color {
    pub r: u8,
    pub g: u8,
    pub b: u8,
}

impl Color {
    /// The zero-valued color carried by freshly constructed cells.
    pub open spec fn zero() -> Color {
        Color { r: 0, g: 0, b: 0 }
    }
}

impl Default for Color {
    fn default() -> (c: Color)
        ensures
            c == Color::zero(),
    {
        Color { r: 0, g: 0, b: 0 }
    }
}

/// One addressable unit of visual content: an optional glyph with foreground
/// and background colors and a depth. A `None` character renders as unset.
/// Lower depth means nearer the viewer.
#[derive(Clone, Copy, Debug, PartialEq, Eq)]
pub struct Cell {
    pub character: Option<char>,
    pub fg: Color,
    pub bg: Color,
    pub depth: i64,
}

impl Cell {
    /// The default cell: no character, zero colors, depth zero.
    pub open spec fn unset() -> Cell {
        Cell { character: None, fg: Color::zero(), bg: Color::zero(), depth: 0 }
    }

    pub fn new(character: Option<char>, fg: Color, bg: Color, depth: i64) -> (c: Cell)
        ensures
            c == (Cell { character, fg, bg, depth }),
    {
        Cell { character, fg, bg, depth }
    }
}

impl Default for Cell {
    fn default() -> (c: Cell)
        ensures
            c == Cell::unset(),
    {
        Cell { character: None, fg: Color { r: 0, g: 0, b: 0 }, bg: Color { r: 0, g: 0, b: 0 }, depth: 0 }
    }
}

/// A rectangular two-dimensional array of cells with a fixed shape,
/// addressed by zero-based (row, column). Cells are stored row-major.
/// Out-of-range reads return `None` and out-of-range writes are absorbed;
/// that absorption is the compositor's clipping mechanism.
#[derive(Clone, Debug, PartialEq, Eq)]
pub struct Grid {
    nrows: usize,
    ncols: usize,
    cells: Vec<Cell>,
}

impl Grid {
    pub closed spec fn spec_rows(self) -> int {
        self.nrows as int
    }

    pub closed spec fn spec_cols(self) -> int {
        self.ncols as int
    }

    /// The row-major backing storage.
    pub closed spec fn cells_seq(self) -> Seq<Cell> {
        self.cells@
    }

    /// Shape invariant: the storage holds exactly rows × columns cells.
    /// Constructors establish it and every method preserves it.
    pub closed spec fn wf(self) -> bool {
        self.cells.len() == self.nrows * self.ncols
    }

    pub open spec fn in_bounds(self, r: int, c: int) -> bool {
        0 <= r < self.spec_rows() && 0 <= c < self.spec_cols()
    }

    /// Where cell (r, c) sits in the row-major storage.
    pub open spec fn flat_index(self, r: int, c: int) -> int {
        r * self.spec_cols() + c
    }

    pub open spec fn cell_at(self, r: int, c: int) -> Cell {
        self.cells_seq()[self.flat_index(r, c)]
    }

    /// The shape is held in machine words and the shape product equals the
    /// storage length, so all three fit a machine word.
    pub proof fn lemma_shape_bounded(self)
        requires
            self.wf(),
        ensures
            self.cells_seq().len() == self.spec_rows() * self.spec_cols(),
            self.spec_rows() * self.spec_cols() <= usize::MAX,
            0 <= self.spec_rows() <= usize::MAX,
            0 <= self.spec_cols() <= usize::MAX,
    {
        assert(self.cells.len() <= usize::MAX);
    }

    /// An in-bounds coordinate pair indexes into the storage, and no earlier
    /// than the start of its row.
    pub proof fn lemma_flat_index_in_range(self, r: int, c: int)
        requires
            self.wf(),
            self.in_bounds(r, c),
        ensures
            0 <= self.flat_index(r, c) < self.cells_seq().len(),
            r * self.spec_cols() <= self.flat_index(r, c),
    {
        let rows = self.spec_rows();
        let cols = self.spec_cols();
        assert(0 <= r * cols) by (nonlinear_arith)
            requires 0 <= r && 0 <= cols
        {}
        assert(r * cols + c < rows * cols) by (nonlinear_arith)
            requires 0 <= r < rows && 0 <= c < cols
        {}
    }

    /// Distinct in-bounds coordinates occupy distinct storage positions.
    pub proof fn lemma_flat_index_injective(self, r1: int, c1: int, r2: int, c2: int)
        requires
            self.in_bounds(r1, c1),
            self.in_bounds(r2, c2),
            self.flat_index(r1, c1) == self.flat_index(r2, c2),
        ensures
            r1 == r2,
            c1 == c2,
    {
        let cols = self.spec_cols();
        assert(r1 == r2 && c1 == c2) by (nonlinear_arith)
            requires
                r1 * cols + c1 == r2 * cols + c2,
                0 <= c1 < cols,
                0 <= c2 < cols,
                0 <= r1,
                0 <= r2,
        {}
    }

    /// Every storage position is the flat index of exactly the in-bounds
    /// coordinate pair recovered by division and remainder.
    pub proof fn lemma_unflatten(self, i: int)
        requires
            self.wf(),
            0 <= i < self.cells_seq().len(),
        ensures
            self.in_bounds(i / self.spec_cols(), i % self.spec_cols()),
            self.flat_index(i / self.spec_cols(), i % self.spec_cols()) == i,
    {
        let rows = self.spec_rows();
        let cols = self.spec_cols();
        assert(self.cells_seq().len() == rows * cols);
        assert(cols != 0) by {
            if cols == 0 {
                assert(rows * cols == 0) by (nonlinear_arith)
                    requires cols == 0
                {}
            }
        }
        vstd::arithmetic::div_mod::lemma_fundamental_div_mod(i, cols);
        vstd::arithmetic::div_mod::lemma_mod_bound(i, cols);
        vstd::arithmetic::div_mod::lemma_div_pos_is_pos(i, cols);
        assert(rows * cols == cols * rows) by (nonlinear_arith) {}
        vstd::arithmetic::div_mod::lemma_multiply_divide_lt(i, cols, rows);
        assert((i / cols) * cols == cols * (i / cols)) by (nonlinear_arith) {}
    }

    /// Creates a rows × columns grid filled with default cells.
    pub fn new(rows: usize, cols: usize) -> (g: Grid)
        requires
            rows * cols <= usize::MAX,
        ensures
            g.wf(),
            g.spec_rows() == rows,
            g.spec_cols() == cols,
            forall|r: int, c: int| g.in_bounds(r, c) ==> #[trigger] g.cell_at(r, c) == Cell::unset(),
    {
        let n: usize = rows * cols;
        let mut cells: Vec<Cell> = Vec::new();
        while cells.len() < n
            invariant
                cells.len() <= n,
                forall|i: int| 0 <= i < cells@.len() ==> cells@[i] == Cell::unset(),
            decreases n - cells@.len(),
        {
            cells.push(Cell::default());
        }
        let g = Grid { nrows: rows, ncols: cols, cells };
        proof {
            assert forall|r: int, c: int| g.in_bounds(r, c) implies #[trigger] g.cell_at(r, c) == Cell::unset() by {
                g.lemma_flat_index_in_range(r, c);
            }
        }
        g
    }

    pub fn rows(&self) -> (r: usize)
        ensures
            r == self.spec_rows(),
    {
        self.nrows
    }

    pub fn cols(&self) -> (c: usize)
        ensures
            c == self.spec_cols(),
    {
        self.ncols
    }

    /// Bounds-checked read: `None` for out-of-range coordinates instead of
    /// a failure.
    pub fn get(&self, r: usize, c: usize) -> (res: Option<&Cell>)
        requires
            self.wf(),
        ensures
            (match res {
                Some(cell) => self.in_bounds(r as int, c as int) && *cell == self.cell_at(r as int, c as int),
                None => !self.in_bounds(r as int, c as int),
            }),
    {
        if r < self.nrows && c < self.ncols {
            proof {
                self.lemma_flat_index_in_range(r as int, c as int);
            }
            Some(&self.cells[r * self.ncols + c])
        } else {
            None
        }
    }

    /// Unconditional read of an in-bounds cell.
    pub fn cell(&self, r: usize, c: usize) -> (cell: Cell)
        requires
            self.wf(),
            self.in_bounds(r as int, c as int),
        ensures
            cell == self.cell_at(r as int, c as int),
    {
        proof {
            self.lemma_flat_index_in_range(r as int, c as int);
        }
        self.cells[r * self.ncols + c]
    }

    /// Bounds-checked write: an out-of-range write is absorbed as a no-op.
    /// The shape never changes.
    pub fn set(&mut self, r: usize, c: usize, cell: Cell)
        requires
            old(self).wf(),
        ensures
            final(self).wf(),
            final(self).spec_rows() == old(self).spec_rows(),
            final(self).spec_cols() == old(self).spec_cols(),
            old(self).in_bounds(r as int, c as int) ==> final(self).cell_at(r as int, c as int) == cell,
            forall|rr: int, cc: int|
                old(self).in_bounds(rr, cc) && !(rr == r as int && cc == c as int)
                    ==> #[trigger] final(self).cell_at(rr, cc) == old(self).cell_at(rr, cc),
            !old(self).in_bounds(r as int, c as int) ==> *final(self) == *old(self),
    {
        if r < self.nrows && c < self.ncols {
            proof {
                self.lemma_flat_index_in_range(r as int, c as int);
            }
            let idx: usize = r * self.ncols + c;
            self.cells.set(idx, cell);
            proof {
                assert forall|rr: int, cc: int|
                    old(self).in_bounds(rr, cc) && !(rr == r as int && cc == c as int)
                        implies #[trigger] self.cell_at(rr, cc) == old(self).cell_at(rr, cc) by {
                    old(self).lemma_flat_index_in_range(rr, cc);
                    if old(self).flat_index(rr, cc) == old(self).flat_index(r as int, c as int) {
                        old(self).lemma_flat_index_injective(rr, cc, r as int, c as int);
                    }
                }
            }
        }
    }
}

} // verus!
