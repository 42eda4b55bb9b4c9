//! The state of a single grid position and the rule that advances it.

use vstd::prelude::*;

verus! {

/// The state of one grid position.
#[derive(Clone, Copy, Debug, PartialEq, Eq, Structural)]
pub enum Cell {
    Dead,
    Alive,
}

/// Glyph that stands for a dead cell in rendered text.
pub const DEAD_GLYPH: char = '\u{25FB}';

/// Glyph that stands for a live cell in rendered text.
pub const ALIVE_GLYPH: char = '\u{25FC}';

impl Cell {
    /// What this cell adds to the neighbour count of the cells around it:
    /// one if it is alive, nothing if it is dead.
    pub open spec fn population(self) -> nat {
        match self {
            Cell::Dead => 0,
            Cell::Alive => 1,
        }
    }

    /// The state of a cell in the next generation, given its current state and
    /// the number of live cells among its eight neighbours.
    ///
    /// The cases are tried from top to bottom; they are mutually exclusive.
    pub open spec fn successor(self, live_neighbours: nat) -> Cell {
        if self is Alive && live_neighbours < 2 {
            // underpopulation
            Cell::Dead
        } else if self is Alive && (live_neighbours == 2 || live_neighbours == 3) {
            // survival
            Cell::Alive
        } else if self is Alive && live_neighbours > 3 {
            // overpopulation
            Cell::Dead
        } else if self is Dead && live_neighbours == 3 {
            // reproduction
            Cell::Alive
        } else {
            self
        }
    }

    /// The character that stands for this cell in rendered text.
    pub open spec fn glyph_spec(self) -> char {
        match self {
            Cell::Dead => DEAD_GLYPH,
            Cell::Alive => ALIVE_GLYPH,
        }
    }

    /// One for a live cell, zero for a dead one.
    pub fn live_count(self) -> (count: u8)
        ensures
            count == self.population(),
    {
        match self {
            Cell::Dead => 0,
            Cell::Alive => 1,
        }
    }

    /// Applies the transition rule: the state of this cell in the next
    /// generation when `live_neighbours` of its neighbours are alive.
    pub fn next(self, live_neighbours: u8) -> (next: Cell)
        ensures
            next == self.successor(live_neighbours as nat),
    {
        match (self, live_neighbours) {
            (Cell::Alive, x) if x < 2 => Cell::Dead,
            (Cell::Alive, 2) | (Cell::Alive, 3) => Cell::Alive,
            (Cell::Alive, x) if x > 3 => Cell::Dead,
            (Cell::Dead, 3) => Cell::Alive,
            (otherwise, _) => otherwise,
        }
    }

    /// The glyph of this cell as a piece of text.
    pub fn glyph_text(self) -> (text: &'static str)
        ensures
            text@ == seq![self.glyph()],
    {
        proof {
            reveal_strlit("\u{25FB}");
            reveal_strlit("\u{25FC}");
        }
        match self {
            Cell::Dead => "\u{25FB}",
            Cell::Alive => "\u{25FC}",
        }
    }

    /// The character that stands for this cell in rendered text.
    #[verifier::when_used_as_spec(glyph_spec)]
    pub fn glyph(self) -> (symbol: char)
        ensures
            symbol == self.glyph_spec(),
    {
        match self {
            Cell::Dead => DEAD_GLYPH,
            Cell::Alive => ALIVE_GLYPH,
        }
    }
}

} // verus!
