//! The mathematical model of a board: its dimensions and its cells in
//! row-major order, with the neighbourhood on the torus, the step to the next
//! generation and the picture of the board as functions of that model.

use crate::cell::{Cell, ALIVE_GLYPH, DEAD_GLYPH};
use vstd::arithmetic::div_mod::{
    lemma_fundamental_div_mod, lemma_fundamental_div_mod_converse, lemma_mod_add_multiples_vanish,
    lemma_mod_bound, lemma_mod_self_0, lemma_small_mod,
};
use vstd::prelude::*;

verus! {

/// A board as a mathematical value.
pub struct Grid {
    pub height: nat,
    pub width: nat,
    pub cells: Seq<Cell>,
}

impl Grid {
    /// A grid is well formed when it has at least two rows and two columns and
    /// holds exactly one cell for each position.
    pub open spec fn wf(self) -> bool {
        &&& self.height >= 2
        &&& self.width >= 2
        &&& self.cells.len() == self.height * self.width
    }

    /// Whether `(row, col)` names a position of the grid.
    pub open spec fn holds(self, row: int, col: int) -> bool {
        0 <= row < self.height && 0 <= col < self.width
    }

    /// The place of `(row, col)` in the row-major sequence of cells.
    pub open spec fn index(self, row: int, col: int) -> int {
        row * self.width + col
    }

    /// The cell at `(row, col)`.
    pub open spec fn cell(self, row: int, col: int) -> Cell {
        self.cells[self.index(row, col)]
    }

    /// The cell found at `(row, col)` once both coordinates are wrapped
    /// around the torus; `row` and `col` may lie outside the grid.
    pub open spec fn wrapped(self, row: int, col: int) -> Cell {
        self.cell(row % (self.height as int), col % (self.width as int))
    }

    /// The number of living cells among the eight positions around
    /// `(row, col)` on the torus.
    pub open spec fn living_neighbors(self, row: int, col: int) -> int {
        self.wrapped(row - 1, col - 1).population()
            + self.wrapped(row - 1, col).population()
            + self.wrapped(row - 1, col + 1).population()
            + self.wrapped(row, col - 1).population()
            + self.wrapped(row, col + 1).population()
            + self.wrapped(row + 1, col - 1).population()
            + self.wrapped(row + 1, col).population()
            + self.wrapped(row + 1, col + 1).population()
    }

    /// The state of `(row, col)` in the next generation.
    pub open spec fn next_cell(self, row: int, col: int) -> Cell {
        self.cell(row, col).successor(self.living_neighbors(row, col))
    }

    /// The next generation: every cell replaced at once by its successor, all
    /// successors computed from the present grid.
    pub open spec fn step(self) -> Grid {
        Grid {
            height: self.height,
            width: self.width,
            cells: Seq::new(
                self.cells.len(),
                |i: int| self.next_cell(i / (self.width as int), i % (self.width as int)),
            ),
        }
    }

    /// The grid after the given number of generations.
    pub open spec fn after(self, generations: nat) -> Grid
        decreases generations,
    {
        if generations == 0 {
            self
        } else {
            self.after((generations - 1) as nat).step()
        }
    }

    /// The length of one line of the picture: a glyph for each column and the
    /// line break.
    pub open spec fn line_len(self) -> int {
        self.width as int + 1
    }

    /// The picture of the grid: row after row, each row as one glyph per cell
    /// followed by a line break.
    pub open spec fn render(self) -> Seq<char> {
        Seq::new(
            (self.height * self.line_len()) as nat,
            |k: int|
                if k % self.line_len() == self.width {
                    '\n'
                } else {
                    self.cell(k / self.line_len(), k % self.line_len()).glyph()
                },
        )
    }

    /// A position of the grid has its index inside the sequence of cells.
    pub proof fn lemma_index_in_range(self, row: int, col: int)
        requires
            self.wf(),
            self.holds(row, col),
        ensures
            0 <= self.index(row, col) < self.height * self.width,
            self.index(row, col) < self.cells.len(),
    {
        let h = self.height as int;
        let w = self.width as int;
        assert(0 <= row * w + col < h * w) by (nonlinear_arith)
            requires
                0 <= row < h,
                0 <= col < w,
        ;
    }

    /// Row and column are recovered from an index by division and remainder.
    pub proof fn lemma_index_inverse(self, row: int, col: int)
        requires
            self.wf(),
            self.holds(row, col),
        ensures
            self.index(row, col) / (self.width as int) == row,
            self.index(row, col) % (self.width as int) == col,
    {
        let w = self.width as int;
        lemma_fundamental_div_mod_converse(self.index(row, col), w, row, col);
    }

    /// No two positions of the grid share an index.
    pub proof fn lemma_index_unique(self, row1: int, col1: int, row2: int, col2: int)
        requires
            self.wf(),
            self.holds(row1, col1),
            self.holds(row2, col2),
            self.index(row1, col1) == self.index(row2, col2),
        ensures
            row1 == row2,
            col1 == col2,
    {
        self.lemma_index_inverse(row1, col1);
        self.lemma_index_inverse(row2, col2);
    }

    /// Every index of the sequence of cells belongs to exactly the position
    /// that division and remainder by the width give.
    pub proof fn lemma_position_of_index(self, i: int)
        requires
            self.wf(),
            0 <= i < self.cells.len(),
        ensures
            self.holds(i / (self.width as int), i % (self.width as int)),
            self.index(i / (self.width as int), i % (self.width as int)) == i,
    {
        let h = self.height as int;
        let w = self.width as int;
        lemma_fundamental_div_mod(i, w);
        lemma_mod_bound(i, w);
        let q = i / w;
        assert(0 <= q < h) by (nonlinear_arith)
            requires
                0 <= i < h * w,
                i == q * w + i % w,
                0 <= i % w < w,
        ;
    }

    /// A neighbour count never exceeds eight.
    pub proof fn lemma_living_neighbors_range(self, row: int, col: int)
        ensures
            0 <= self.living_neighbors(row, col) <= 8,
    {
    }

    /// The next generation is a grid of the same shape, and each of its cells
    /// is the successor of the cell that stood at the same position.
    pub proof fn lemma_step(self)
        requires
            self.wf(),
        ensures
            self.step().wf(),
            self.step().height == self.height,
            self.step().width == self.width,
            forall|row: int, col: int|
                self.holds(row, col) ==> #[trigger] self.step().cell(row, col)
                    == self.next_cell(row, col),
    {
        assert forall|row: int, col: int| self.holds(row, col) implies
            #[trigger] self.step().cell(row, col) == self.next_cell(row, col) by {
            self.lemma_index_in_range(row, col);
            self.lemma_index_inverse(row, col);
        }
    }

    /// Two well-formed grids of one shape are the same grid when they agree
    /// at every position.
    pub proof fn lemma_equal_by_cells(self, other: Grid)
        requires
            self.wf(),
            other.wf(),
            self.height == other.height,
            self.width == other.width,
            forall|row: int, col: int|
                self.holds(row, col) ==> #[trigger] self.cell(row, col) == other.cell(row, col),
        ensures
            self == other,
    {
        assert forall|i: int| 0 <= i < self.cells.len() implies self.cells[i] == other.cells[i] by {
            self.lemma_position_of_index(i);
            let row = i / (self.width as int);
            let col = i % (self.width as int);
            assert(self.cell(row, col) == other.cell(row, col));
        }
        assert(self.cells =~= other.cells);
    }

    /// The picture of a grid has one line for each row. A line is as many
    /// glyphs as the row has cells, each the glyph of its cell and so one of
    /// the two glyphs, and then a line break; nothing else is in the picture.
    /// The two glyphs differ, and neither is the line break.
    pub proof fn lemma_render_shape(self)
        requires
            self.wf(),
        ensures
            ALIVE_GLYPH != DEAD_GLYPH,
            ALIVE_GLYPH != '\n',
            DEAD_GLYPH != '\n',
            self.render().len() == self.height * self.line_len(),
            forall|row: int, col: int|
                self.holds(row, col) ==> #[trigger] self.render()[row * self.line_len() + col]
                    == self.cell(row, col).glyph(),
            forall|row: int|
                0 <= row < self.height
                    ==> #[trigger] self.render()[row * self.line_len() + self.width] == '\n',
            forall|k: int|
                0 <= k < self.render().len() ==> {
                    let c = #[trigger] self.render()[k];
                    if k % self.line_len() == self.width {
                        c == '\n'
                    } else {
                        c == ALIVE_GLYPH || c == DEAD_GLYPH
                    }
                },
    {
        let line = self.line_len();
        let height = self.height as int;
        assert forall|row: int, col: int| 0 <= row < height && 0 <= col < line implies {
            let k = #[trigger] (row * line + col);
            0 <= k < height * line && k / line == row && k % line == col
        } by {
            lemma_fundamental_div_mod_converse(row * line + col, line, row, col);
            assert(0 <= row * line + col < height * line) by (nonlinear_arith)
                requires
                    0 <= row < height,
                    0 <= col < line,
            ;
        }
    }
}

/// Going around a ring of `n` places from place `x`: the place stays what it
/// is, the one before the first is the last, and the one after the last is the
/// first.
pub proof fn lemma_wrap(x: int, n: int)
    requires
        0 <= x < n,
    ensures
        x % n == x,
        (x - 1) % n == if x == 0 {
            n - 1
        } else {
            x - 1
        },
        (x + 1) % n == if x == n - 1 {
            0
        } else {
            x + 1
        },
{
    lemma_small_mod(x as nat, n as nat);
    if x == 0 {
        lemma_mod_add_multiples_vanish(-1, n);
        lemma_small_mod((n - 1) as nat, n as nat);
    } else {
        lemma_small_mod((x - 1) as nat, n as nat);
    }
    if x == n - 1 {
        lemma_mod_self_0(n);
    } else {
        lemma_small_mod((x + 1) as nat, n as nat);
    }
}

} // verus!
