//! Two classic patterns and what the rule does to them: the block, which
//! stays as it is, and the blinker, which turns between lying and standing.

use crate::cell::Cell;
use crate::grid::{lemma_wrap, Grid};
use vstd::prelude::*;

verus! {

/// The grid holds a block and nothing else: the living cells are exactly the
/// two by two square whose upper left corner is `(top, left)`.
pub open spec fn is_block(grid: Grid, top: int, left: int) -> bool {
    forall|row: int, col: int|
        grid.holds(row, col) ==> (#[trigger] grid.cell(row, col) == Cell::Alive
            <==> top <= row <= top + 1 && left <= col <= left + 1)
}

/// The grid holds a lying blinker and nothing else: the living cells are
/// exactly `(row, col)` and its neighbours to the left and to the right.
pub open spec fn is_row_blinker(grid: Grid, row: int, col: int) -> bool {
    forall|r: int, c: int|
        grid.holds(r, c) ==> (#[trigger] grid.cell(r, c) == Cell::Alive
            <==> r == row && col - 1 <= c <= col + 1)
}

/// The grid holds a standing blinker and nothing else: the living cells are
/// exactly `(row, col)` and its neighbours above and below.
pub open spec fn is_column_blinker(grid: Grid, row: int, col: int) -> bool {
    forall|r: int, c: int|
        grid.holds(r, c) ==> (#[trigger] grid.cell(r, c) == Cell::Alive
            <==> c == col && row - 1 <= r <= row + 1)
}

/// The coordinates of the eight neighbours of a position of the grid, each
/// wrapped around the torus, are positions of the grid one step away.
proof fn lemma_neighborhood(grid: Grid, row: int, col: int)
    requires
        grid.wf(),
        grid.holds(row, col),
    ensures
        (row - 1) % (grid.height as int) == if row == 0 {
            grid.height - 1
        } else {
            row - 1
        },
        (row + 1) % (grid.height as int) == if row == grid.height - 1 {
            0
        } else {
            row + 1
        },
        row % (grid.height as int) == row,
        (col - 1) % (grid.width as int) == if col == 0 {
            grid.width - 1
        } else {
            col - 1
        },
        (col + 1) % (grid.width as int) == if col == grid.width - 1 {
            0
        } else {
            col + 1
        },
        col % (grid.width as int) == col,
{
    lemma_wrap(row, grid.height as int);
    lemma_wrap(col, grid.width as int);
}

/// A block is a still life: on a board of at least six rows and six columns,
/// a block that lies within the board, not across its edges, is left
/// unchanged by a step.
pub proof fn lemma_block_is_still(grid: Grid, top: int, left: int)
    requires
        grid.wf(),
        grid.height >= 6,
        grid.width >= 6,
        0 <= top,
        top + 1 < grid.height,
        0 <= left,
        left + 1 < grid.width,
        is_block(grid, top, left),
    ensures
        grid.step() == grid,
{
    grid.lemma_step();
    assert forall|row: int, col: int| grid.holds(row, col) implies
        #[trigger] grid.step().cell(row, col) == grid.cell(row, col) by {
        lemma_neighborhood(grid, row, col);
    }
    grid.step().lemma_equal_by_cells(grid);
}

/// A block stays for good: under the same conditions the grid is the same
/// after any number of generations.
pub proof fn lemma_block_stays(grid: Grid, top: int, left: int, generations: nat)
    requires
        grid.wf(),
        grid.height >= 6,
        grid.width >= 6,
        0 <= top,
        top + 1 < grid.height,
        0 <= left,
        left + 1 < grid.width,
        is_block(grid, top, left),
    ensures
        grid.after(generations) == grid,
    decreases generations,
{
    if generations > 0 {
        lemma_block_stays(grid, top, left, (generations - 1) as nat);
        lemma_block_is_still(grid, top, left);
    }
}

/// A lying blinker stands up: on a board of at least six rows and six
/// columns, a step takes a lying blinker whose three by three surroundings
/// lie within the board to the standing blinker with the same centre.
pub proof fn lemma_row_blinker_stands_up(grid: Grid, row: int, col: int)
    requires
        grid.wf(),
        grid.height >= 6,
        grid.width >= 6,
        1 <= row,
        row + 1 < grid.height,
        1 <= col,
        col + 1 < grid.width,
        is_row_blinker(grid, row, col),
    ensures
        grid.step().wf(),
        grid.step().height == grid.height,
        grid.step().width == grid.width,
        is_column_blinker(grid.step(), row, col),
{
    grid.lemma_step();
    assert forall|r: int, c: int| grid.holds(r, c) implies (#[trigger] grid.step().cell(r, c)
        == Cell::Alive <==> c == col && row - 1 <= r <= row + 1) by {
        lemma_neighborhood(grid, r, c);
    }
}

/// A standing blinker lies down: on a board of at least six rows and six
/// columns, a step takes a standing blinker whose three by three surroundings
/// lie within the board to the lying blinker with the same centre.
pub proof fn lemma_column_blinker_lies_down(grid: Grid, row: int, col: int)
    requires
        grid.wf(),
        grid.height >= 6,
        grid.width >= 6,
        1 <= row,
        row + 1 < grid.height,
        1 <= col,
        col + 1 < grid.width,
        is_column_blinker(grid, row, col),
    ensures
        grid.step().wf(),
        grid.step().height == grid.height,
        grid.step().width == grid.width,
        is_row_blinker(grid.step(), row, col),
{
    grid.lemma_step();
    assert forall|r: int, c: int| grid.holds(r, c) implies (#[trigger] grid.step().cell(r, c)
        == Cell::Alive <==> r == row && col - 1 <= c <= col + 1) by {
        lemma_neighborhood(grid, r, c);
    }
}

/// A blinker has period two: after two steps a lying blinker is the grid it
/// was, and so is a standing one.
pub proof fn lemma_blinker_period_two(grid: Grid, row: int, col: int)
    requires
        grid.wf(),
        grid.height >= 6,
        grid.width >= 6,
        1 <= row,
        row + 1 < grid.height,
        1 <= col,
        col + 1 < grid.width,
        is_row_blinker(grid, row, col) || is_column_blinker(grid, row, col),
    ensures
        grid.step() != grid,
        grid.step().step() == grid,
{
    let once = grid.step();
    let twice = once.step();
    if is_row_blinker(grid, row, col) {
        lemma_row_blinker_stands_up(grid, row, col);
        lemma_column_blinker_lies_down(once, row, col);
        assert(is_row_blinker(twice, row, col));
        // the cell above the centre has come to life
        assert(grid.holds(row - 1, col));
        assert(once.cell(row - 1, col) != grid.cell(row - 1, col));
    } else {
        lemma_column_blinker_lies_down(grid, row, col);
        lemma_row_blinker_stands_up(once, row, col);
        assert(is_column_blinker(twice, row, col));
        // the cell left of the centre has come to life
        assert(grid.holds(row, col - 1));
        assert(once.cell(row, col - 1) != grid.cell(row, col - 1));
    }
    assert forall|r: int, c: int| grid.holds(r, c) implies #[trigger] twice.cell(r, c)
        == grid.cell(r, c) by {
        assert(twice.cell(r, c) == Cell::Alive <==> grid.cell(r, c) == Cell::Alive);
    }
    twice.lemma_equal_by_cells(grid);
}

/// A blinker alternates for good: after an even number of generations the
/// grid is what it was, after an odd number it is what one step made of it,
/// the blinker of the other orientation.
pub proof fn lemma_blinker_alternates(grid: Grid, row: int, col: int, generations: nat)
    requires
        grid.wf(),
        grid.height >= 6,
        grid.width >= 6,
        1 <= row,
        row + 1 < grid.height,
        1 <= col,
        col + 1 < grid.width,
        is_row_blinker(grid, row, col) || is_column_blinker(grid, row, col),
    ensures
        generations % 2 == 0 ==> grid.after(generations) == grid,
        generations % 2 == 1 ==> grid.after(generations) == grid.step(),
        generations % 2 == 1 && is_row_blinker(grid, row, col)
            ==> is_column_blinker(grid.after(generations), row, col),
        generations % 2 == 1 && is_column_blinker(grid, row, col)
            ==> is_row_blinker(grid.after(generations), row, col),
    decreases generations,
{
    if generations > 0 {
        lemma_blinker_alternates(grid, row, col, (generations - 1) as nat);
        lemma_blinker_period_two(grid, row, col);
        if is_row_blinker(grid, row, col) {
            lemma_row_blinker_stands_up(grid, row, col);
        }
        if is_column_blinker(grid, row, col) {
            lemma_column_blinker_lies_down(grid, row, col);
        }
    }
}

} // verus!
