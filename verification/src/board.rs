//! The board itself: the cells in memory, the neighbour count on the torus and
//! the step from one generation to the next.

use crate::cell::{Cell, DRAW_BOUND};
use crate::grid::Grid;
use crate::random::gen_range;
use vstd::arithmetic::div_mod::{
    lemma_fundamental_div_mod_converse, lemma_mod_add_multiples_vanish,
};
use vstd::prelude::*;
use vstd::string::StringExecFns;

verus! {

/// A board of cells whose edges wrap around. It has at least two rows and two
/// columns, and its size never changes.
pub struct Board {
    height: u32,
    width: u32,
    cells: Vec<Cell>,
}

/// Why a board was not made: a board needs at least two rows and two
/// columns. The error carries the dimensions that were asked for.
#[derive(Clone, Copy, Debug, PartialEq, Eq, Structural)]
pub struct ConstructionError {
    pub height: u32,
    pub width: u32,
}

impl View for Board {
    type V = Grid;

    closed spec fn view(&self) -> Grid {
        Grid { height: self.height as nat, width: self.width as nat, cells: self.cells@ }
    }
}

impl Grid {
    /// What the `k`-th position of the three by three window around
    /// `(row, col)` adds to the neighbour count; the window is numbered row by
    /// row, and its centre adds nothing.
    spec fn window_term(self, row: int, col: int, k: int) -> int {
        if k == 4 {
            0
        } else {
            self.wrapped(row + k / 3 - 1, col + k % 3 - 1).population()
        }
    }

    /// The living neighbours among the first `k` positions of the window.
    spec fn window_sum(self, row: int, col: int, k: int) -> int
        decreases k,
    {
        if k <= 0 {
            0
        } else {
            self.window_sum(row, col, k - 1) + self.window_term(row, col, k - 1)
        }
    }

    /// The whole window holds exactly the living neighbours.
    proof fn lemma_window_sum_full(self, row: int, col: int)
        ensures
            self.window_sum(row, col, 9) == self.living_neighbors(row, col),
    {
        reveal_with_fuel(Grid::window_sum, 10);
    }
}

impl Board {
    /// Every board is a well-formed grid.
    #[verifier::type_invariant]
    pub open spec fn inv(&self) -> bool {
        self@.wf()
    }

    /// Makes a board of `h` rows and `w` columns and populates it at random:
    /// each cell gets a draw of its own and is alive for two draws in ten.
    /// Boards with fewer than two rows or two columns are refused; of the
    /// cells of a board that is made, nothing is known but their number.
    pub fn create_board(h: u32, w: u32) -> (made: Result<Board, ConstructionError>)
        ensures
            made is Err <==> h < 2 || w < 2,
            made matches Err(e) ==> e == (ConstructionError { height: h, width: w }),
            made matches Ok(board) ==> board@.wf() && board@.height == h && board@.width == w,
    {
        if h < 2 || w < 2 {
            return Err(ConstructionError { height: h, width: w });
        }
        assert(h * w <= 0xffff_ffff * 0xffff_ffff) by (nonlinear_arith)
            requires
                h <= 0xffff_ffff,
                w <= 0xffff_ffff,
        ;
        let total: u64 = h as u64 * w as u64;
        let mut rng = rand::thread_rng();
        let mut cells: Vec<Cell> = Vec::new();
        let mut drawn: u64 = 0;
        while drawn < total
            invariant
                drawn <= total,
                cells.len() == drawn,
            decreases total - drawn,
        {
            let draw = gen_range(&mut rng, 0, DRAW_BOUND);
            cells.push(Cell::from_draw(draw));
            drawn += 1;
        }
        Ok(Board { height: h, width: w, cells })
    }

    /// Makes a board of the given dimensions from its cells in row-major
    /// order. There is no board unless both dimensions are at least two and
    /// `cells` holds exactly one cell for each position.
    pub fn from_cells(height: u32, width: u32, cells: Vec<Cell>) -> (made: Option<Board>)
        ensures
            made is Some <==> height >= 2 && width >= 2 && cells.len() == height * width,
            made matches Some(board) ==> board@ == (Grid {
                height: height as nat,
                width: width as nat,
                cells: cells@,
            }),
    {
        assert(height * width <= 0xffff_ffff * 0xffff_ffff) by (nonlinear_arith)
            requires
                height <= 0xffff_ffff,
                width <= 0xffff_ffff,
        ;
        if height < 2 || width < 2 || cells.len() as u64 != height as u64 * width as u64 {
            return None;
        }
        Some(Board { height, width, cells })
    }

    /// The number of rows.
    pub fn height(&self) -> (height: u32)
        ensures
            height == self@.height,
    {
        self.height
    }

    /// The number of columns.
    pub fn width(&self) -> (width: u32)
        ensures
            width == self@.width,
    {
        self.width
    }

    /// The cells in row-major order: the first row from left to right, then
    /// the second, and so on.
    pub fn cells(&self) -> (cells: &Vec<Cell>)
        ensures
            cells@ == self@.cells,
    {
        &self.cells
    }

    /// The cell at `(row, col)`.
    pub fn cell(&self, row: u32, col: u32) -> (cell: Cell)
        requires
            self@.holds(row as int, col as int),
        ensures
            cell == self@.cell(row as int, col as int),
    {
        self.cells[self.get_index(row, col)]
    }

    /// The position of `(row, col)` in the row-major storage of the cells.
    pub fn get_index(&self, row: u32, col: u32) -> (position: usize)
        requires
            self@.holds(row as int, col as int),
        ensures
            position == self@.index(row as int, col as int),
            position < self@.cells.len(),
    {
        proof {
            use_type_invariant(self);
            self@.lemma_index_in_range(row as int, col as int);
        }
        let width = self.width as usize;
        assert(0 <= row * width <= row * width + col < self.cells.len()) by (nonlinear_arith)
            requires
                0 <= row,
                0 <= width,
                0 <= col,
                row * width + col < self.cells.len(),
        ;
        row as usize * width + col as usize
    }

    /// Counts the living cells among the eight neighbours of `(row, col)`.
    /// The neighbourhood wraps around the edges of the board, and so do `row`
    /// and `col` themselves where they lie outside it.
    pub fn count_living_neighbors(&self, row: u32, col: u32) -> (count: u8)
        ensures
            count == self@.living_neighbors(row as int, col as int),
            count <= 8,
    {
        proof {
            use_type_invariant(self);
        }
        let height = self.height;
        let width = self.width;
        // Adding one less than the size and reducing is a step backwards
        // around the torus.
        let row_deltas: [u32; 3] = [height - 1, 0, 1];
        let col_deltas: [u32; 3] = [width - 1, 0, 1];
        let mut count: u8 = 0;
        for i in 0..3usize
            invariant
                self@.wf(),
                height == self@.height,
                width == self@.width,
                row_deltas@ =~= seq![(height - 1) as u32, 0u32, 1u32],
                col_deltas@ =~= seq![(width - 1) as u32, 0u32, 1u32],
                count == self@.window_sum(row as int, col as int, 3 * i),
                count <= 3 * i,
        {
            for j in 0..3usize
                invariant
                    i < 3,
                    self@.wf(),
                    height == self@.height,
                    width == self@.width,
                    row_deltas@ =~= seq![(height - 1) as u32, 0u32, 1u32],
                    col_deltas@ =~= seq![(width - 1) as u32, 0u32, 1u32],
                    count == self@.window_sum(row as int, col as int, 3 * i + j),
                    count <= 3 * i + j,
            {
                let delta_row = row_deltas[i];
                let delta_col = col_deltas[j];
                // the cell itself is no neighbour
                if !(delta_row == 0 && delta_col == 0) {
                    let neighbor_row = ((delta_row as u64 + row as u64) % (height as u64)) as u32;
                    let neighbor_col = ((delta_col as u64 + col as u64) % (width as u64)) as u32;
                    proof {
                        lemma_mod_add_multiples_vanish(row - 1, height as int);
                        lemma_mod_add_multiples_vanish(col - 1, width as int);
                    }
                    count += self.cells[self.get_index(neighbor_row, neighbor_col)].value();
                }
            }
        }
        proof {
            self@.lemma_window_sum_full(row as int, col as int);
        }
        count
    }

    /// Advances the board by one generation. Every cell of the new
    /// generation is computed from the old one: the new cells are collected
    /// apart and take the place of the old ones only when all are known.
    pub fn generation(&mut self)
        ensures
            final(self)@ == old(self)@.step(),
            final(self)@.wf(),
    {
        proof {
            use_type_invariant(&*self);
        }
        let height = self.height;
        let width = self.width;
        let ghost before = self@;
        let mut next = self.cells.clone();
        for row in 0..height
            invariant
                self@ == before,
                before.wf(),
                height == before.height,
                width == before.width,
                next.len() == before.cells.len(),
                forall|i: int|
                    0 <= i < row * width ==> next[i] == #[trigger] before.step().cells[i],
        {
            for col in 0..width
                invariant
                    row < height,
                    self@ == before,
                    before.wf(),
                    height == before.height,
                    width == before.width,
                    next.len() == before.cells.len(),
                    forall|i: int|
                        0 <= i < row * width + col ==> next[i] == #[trigger] before.step().cells[i],
            {
                let position = self.get_index(row, col);
                let cell = self.cells[position];
                let living_neighbors = self.count_living_neighbors(row, col);
                let next_cell = cell.next_state(living_neighbors);
                proof {
                    before.lemma_index_inverse(row as int, col as int);
                }
                next.set(position, next_cell);
            }
            assert(row * width + width == (row + 1) * width) by (nonlinear_arith);
        }
        assert(next@ =~= before.step().cells);
        self.cells = next;
    }

    /// The picture of the board: one line for each row, from the top, made of
    /// one glyph for each cell of the row and closed by a line break.
    pub fn output(&self) -> (text: String)
        ensures
            text@ == self@.render(),
    {
        proof {
            use_type_invariant(self);
        }
        let height = self.height;
        let width = self.width;
        let ghost line = width as int + 1;
        let ghost picture = self@.render();
        let mut text = String::new();
        for row in 0..height
            invariant
                picture.len() == height * line,
                self@.wf(),
                height == self@.height,
                width == self@.width,
                line == width + 1,
                picture == self@.render(),
                text@.len() == row * line,
                forall|k: int| 0 <= k < row * line ==> #[trigger] text@[k] == picture[k],
        {
            for col in 0..width
                invariant
                    row < height,
                    self@.wf(),
                    height == self@.height,
                    width == self@.width,
                    line == width + 1,
                    picture.len() == height * line,
                    picture == self@.render(),
                    text@.len() == row * line + col,
                    forall|k: int| 0 <= k < row * line + col ==> #[trigger] text@[k] == picture[k],
            {
                let cell = self.cells[self.get_index(row, col)];
                proof {
                    lemma_fundamental_div_mod_converse(row * line + col, line, row as int, col as int);
                    assert(row * line + col < height * line) by (nonlinear_arith)
                        requires
                            0 <= row < height,
                            0 <= col < line,
                    ;
                }
                text.append(cell.symbol());
            }
            proof {
                lemma_fundamental_div_mod_converse(row * line + width, line, row as int, width as int);
                assert(row * line + width < height * line) by (nonlinear_arith)
                    requires
                        0 <= row < height,
                        0 <= width < line,
                ;
                assert(row * line + width + 1 == (row + 1) * line) by (nonlinear_arith)
                    requires
                        line == width + 1,
                ;
                reveal_strlit("\n");
            }
            text.append("\n");
        }
        assert(text@ =~= picture);
        text
    }
}

} // verus!
