//! A single cell: its two states, the birth and survival rule, the glyph it is
//! drawn with and the way a random draw decides its first state.

use vstd::prelude::*;

verus! {

/// The state of one cell.
#[derive(Clone, Copy, Debug, PartialEq, Eq, Structural)]
pub enum Cell {
    Alive,
    Dead,
}

/// A population draw is a number below this bound, each equally likely.
pub const DRAW_BOUND: u32 = 10;

/// Draws from this value upwards bring a cell to life: two draws in ten.
pub const ALIVE_FROM: u32 = 8;

/// The glyph of a living cell, a black medium square.
pub const ALIVE_GLYPH: char = '\u{25FC}';

/// The glyph of a dead cell, a white medium square.
pub const DEAD_GLYPH: char = '\u{25FB}';

impl Cell {
    /// What the cell adds to a count of living cells: one if alive, else nothing.
    pub open spec fn population(self) -> int {
        if self == Cell::Alive {
            1
        } else {
            0
        }
    }

    /// The state that follows `self` when `neighbors` of the eight surrounding
    /// cells are alive: a living cell survives with two or three living
    /// neighbours, a dead cell comes to life with exactly three.
    pub open spec fn successor(self, neighbors: int) -> Cell {
        match self {
            Cell::Alive => if neighbors == 2 || neighbors == 3 {
                Cell::Alive
            } else {
                Cell::Dead
            },
            Cell::Dead => if neighbors == 3 {
                Cell::Alive
            } else {
                Cell::Dead
            },
        }
    }

    /// The character that stands for the cell in a picture of the board.
    pub open spec fn glyph(self) -> char {
        match self {
            Cell::Alive => ALIVE_GLYPH,
            Cell::Dead => DEAD_GLYPH,
        }
    }

    /// The first state of a cell whose population draw is `draw`.
    pub open spec fn of_draw(draw: u32) -> Cell {
        if draw >= ALIVE_FROM {
            Cell::Alive
        } else {
            Cell::Dead
        }
    }

    /// The rule, row by row: a living cell dies with fewer than two living
    /// neighbours, lives on with two or three and dies with four or more; a
    /// dead cell comes to life with exactly three and stays dead otherwise.
    pub proof fn lemma_rule_table(neighbors: int)
        ensures
            neighbors <= 1 ==> Cell::Alive.successor(neighbors) == Cell::Dead,
            neighbors == 2 || neighbors == 3 ==> Cell::Alive.successor(neighbors) == Cell::Alive,
            neighbors >= 4 ==> Cell::Alive.successor(neighbors) == Cell::Dead,
            neighbors == 3 ==> Cell::Dead.successor(neighbors) == Cell::Alive,
            neighbors != 3 ==> Cell::Dead.successor(neighbors) == Cell::Dead,
    {
    }

    /// Of the ten draws below the bound, exactly the two highest give life:
    /// one draw in five.
    pub proof fn lemma_living_draws()
        ensures
            Set::new(|draw: u32| draw < DRAW_BOUND && Cell::of_draw(draw) == Cell::Alive)
                == set![8u32, 9u32],
            set![8u32, 9u32].len() == 2,
            Set::new(|draw: u32| draw < DRAW_BOUND).len() == 10,
    {
        assert(Set::new(|draw: u32| draw < DRAW_BOUND && Cell::of_draw(draw) == Cell::Alive)
            =~= set![8u32, 9u32]);
        assert(Set::new(|draw: u32| draw < DRAW_BOUND)
            =~= set![0u32, 1u32, 2u32, 3u32, 4u32, 5u32, 6u32, 7u32, 8u32, 9u32]);
    }

    /// One for a living cell, zero for a dead one.
    pub fn value(self) -> (v: u8)
        ensures
            v == self.population(),
    {
        match self {
            Cell::Alive => 1,
            Cell::Dead => 0,
        }
    }

    /// Applies the rule of the automaton to one cell, given the number of its
    /// living neighbours.
    pub fn next_state(self, living_neighbors: u8) -> (next: Cell)
        ensures
            next == self.successor(living_neighbors as int),
    {
        match (self, living_neighbors) {
            // fewer than two living neighbours: dies of underpopulation
            (Cell::Alive, 0) | (Cell::Alive, 1) => Cell::Dead,
            // two or three: lives on
            (Cell::Alive, 2) | (Cell::Alive, 3) => Cell::Alive,
            // more than three: dies of overpopulation
            (Cell::Alive, _) => Cell::Dead,
            // exactly three around a dead cell: reproduction
            (Cell::Dead, 3) => Cell::Alive,
            (Cell::Dead, _) => Cell::Dead,
        }
    }

    /// The glyph the cell is drawn with, as a string of that one character.
    pub fn symbol(self) -> (glyph: &'static str)
        ensures
            glyph@ == seq![self.glyph()],
    {
        match self {
            Cell::Alive => {
                proof {
                    reveal_strlit("\u{25FC}");
                }
                assert("\u{25FC}"@ =~= seq![ALIVE_GLYPH]);
                "\u{25FC}"
            },
            Cell::Dead => {
                proof {
                    reveal_strlit("\u{25FB}");
                }
                assert("\u{25FB}"@ =~= seq![DEAD_GLYPH]);
                "\u{25FB}"
            },
        }
    }

    /// Decides the first state of a cell from its population draw.
    pub fn from_draw(draw: u32) -> (cell: Cell)
        ensures
            cell == Cell::of_draw(draw),
    {
        if draw >= ALIVE_FROM {
            Cell::Alive
        } else {
            Cell::Dead
        }
    }
}

} // verus!
