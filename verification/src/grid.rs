//! The mathematical model of a universe: a rectangle of cells on a torus.

use vstd::prelude::*;
use vstd::arithmetic::div_mod::lemma_fundamental_div_mod_converse;
use crate::cell::Cell;
use crate::torus::{
    after, before, lemma_wrap_identity, lemma_wrap_in_range, lemma_wrap_predecessor,
    lemma_wrap_successor, wrap,
};

verus! {

/// A grid of `width` columns and `height` rows whose cells are listed row by
/// row, so that the cell in row `r` and column `c` is `cells[r * width + c]`.
pub struct Grid {
    pub width: nat,
    pub height: nat,
    pub cells: Seq<Cell>,
}

impl Grid {
    /// A grid is well formed when it has at least one row and one column and
    /// holds exactly one cell for each position.
    pub open spec fn wf(self) -> bool {
        &&& self.width > 0
        &&& self.height > 0
        &&& self.cells.len() == self.width * self.height
    }

    /// Whether `(row, column)` is a position of the grid.
    pub open spec fn contains(self, row: int, column: int) -> bool {
        0 <= row < self.height && 0 <= column < self.width
    }

    /// The place of position `(row, column)` in `cells`.
    pub open spec fn index_of(self, row: int, column: int) -> int {
        row * self.width + column
    }

    /// The cell at a position of the grid.
    pub open spec fn at(self, row: int, column: int) -> Cell
        recommends
            self.contains(row, column),
    {
        self.cells[self.index_of(row, column)]
    }

    /// The cell that the coordinates `(row, column)` reach on the torus. The
    /// coordinates may lie outside the grid: row `-1` is the last row, row
    /// `height` is the first one, and the same holds of columns.
    pub open spec fn on_torus(self, row: int, column: int) -> Cell {
        self.at(wrap(row, self.height), wrap(column, self.width))
    }

    /// The number of live cells among the eight neighbours of `(row, column)`
    /// on the torus. On a grid with fewer than three rows or columns some of
    /// the eight positions coincide, with each other or with the cell itself;
    /// each is counted nonetheless.
    pub open spec fn live_neighbour_count(self, row: int, column: int) -> nat {
        self.on_torus(row - 1, column - 1).population()
            + self.on_torus(row - 1, column).population()
            + self.on_torus(row - 1, column + 1).population()
            + self.on_torus(row, column - 1).population()
            + self.on_torus(row, column + 1).population()
            + self.on_torus(row + 1, column - 1).population()
            + self.on_torus(row + 1, column).population()
            + self.on_torus(row + 1, column + 1).population()
    }

    /// The state of the cell at `(row, column)` in the next generation.
    pub open spec fn successor_at(self, row: int, column: int) -> Cell {
        self.at(row, column).successor(self.live_neighbour_count(row, column))
    }

    /// The next generation: every cell is replaced by its successor, which
    /// depends on the current generation alone.
    pub open spec fn step(self) -> Grid {
        Grid {
            width: self.width,
            height: self.height,
            cells: Seq::new(
                self.cells.len(),
                |i: int| self.successor_at(i / (self.width as int), i % (self.width as int)),
            ),
        }
    }

    /// The grid after `n` generations.
    pub open spec fn generation(self, n: nat) -> Grid
        decreases n,
    {
        if n == 0 {
            self
        } else {
            self.generation((n - 1) as nat).step()
        }
    }

    /// The number of characters that one row takes in the rendered text: one
    /// glyph for each cell, then a line break.
    pub open spec fn line_length(self) -> nat {
        self.width + 1
    }

    /// The character at `position` of the rendered text.
    pub open spec fn text_at(self, position: int) -> char {
        let row = position / (self.line_length() as int);
        let column = position % (self.line_length() as int);
        if column == self.width {
            '\n'
        } else {
            self.at(row, column).glyph()
        }
    }

    /// The rendered text: the rows from first to last, each followed by a line
    /// break.
    pub open spec fn render(self) -> Seq<char> {
        Seq::new(
            self.height * self.line_length(),
            |position: int| self.text_at(position),
        )
    }

    /// Every position of a well-formed grid has a place in `cells`.
    pub proof fn lemma_index_in_bounds(self, row: int, column: int)
        requires
            self.wf(),
            self.contains(row, column),
        ensures
            0 <= self.index_of(row, column) < self.cells.len(),
    {
        assert(0 <= row * self.width + column < self.width * self.height) by (nonlinear_arith)
            requires
                0 <= row < self.height,
                0 <= column < self.width,
        ;
    }

    /// Row and column can be read back from a place in `cells`.
    pub proof fn lemma_index_roundtrip(self, row: int, column: int)
        requires
            self.wf(),
            self.contains(row, column),
        ensures
            self.index_of(row, column) / (self.width as int) == row,
            self.index_of(row, column) % (self.width as int) == column,
    {
        lemma_fundamental_div_mod_converse(
            self.index_of(row, column),
            self.width as int,
            row,
            column,
        );
    }

    /// Every place in `cells` belongs to exactly one position of the grid.
    pub proof fn lemma_position_of_index(self, i: int)
        requires
            self.wf(),
            0 <= i < self.cells.len(),
        ensures
            self.contains(i / (self.width as int), i % (self.width as int)),
            self.index_of(i / (self.width as int), i % (self.width as int)) == i,
    {
        let w = self.width as int;
        let h = self.height as int;
        assert(0 <= i / w < h && 0 <= i % w < w && (i / w) * w + i % w == i)
            by (nonlinear_arith)
            requires
                0 <= i < w * h,
                w > 0,
        ;
    }

    /// The coordinates of a torus lookup always reach a cell of the grid.
    pub proof fn lemma_on_torus_in_bounds(self, row: int, column: int)
        requires
            self.wf(),
        ensures
            self.contains(wrap(row, self.height), wrap(column, self.width)),
            0 <= self.index_of(wrap(row, self.height), wrap(column, self.width))
                < self.cells.len(),
    {
        lemma_wrap_in_range(row, self.height);
        lemma_wrap_in_range(column, self.width);
        self.lemma_index_in_bounds(wrap(row, self.height), wrap(column, self.width));
    }

    /// The eight neighbours of a position, each named by its own row and
    /// column: on the torus the row before the first is the last, the row
    /// after the last is the first, and the same holds of columns.
    pub proof fn lemma_neighbours(self, row: int, column: int)
        requires
            self.wf(),
            self.contains(row, column),
        ensures
            self.contains(before(row, self.height), before(column, self.width)),
            self.contains(after(row, self.height), after(column, self.width)),
            self.live_neighbour_count(row, column) == self.at(
                before(row, self.height),
                before(column, self.width),
            ).population() + self.at(before(row, self.height), column).population() + self.at(
                before(row, self.height),
                after(column, self.width),
            ).population() + self.at(row, before(column, self.width)).population() + self.at(
                row,
                after(column, self.width),
            ).population() + self.at(
                after(row, self.height),
                before(column, self.width),
            ).population() + self.at(after(row, self.height), column).population() + self.at(
                after(row, self.height),
                after(column, self.width),
            ).population(),
    {
        lemma_wrap_identity(row, self.height);
        lemma_wrap_identity(column, self.width);
        lemma_wrap_predecessor(row, self.height);
        lemma_wrap_predecessor(column, self.width);
        lemma_wrap_successor(row, self.height);
        lemma_wrap_successor(column, self.width);
    }

    /// The next generation holds, at each position, the successor of the cell
    /// that the current generation holds there.
    pub proof fn lemma_step_at(self, row: int, column: int)
        requires
            self.wf(),
            self.contains(row, column),
        ensures
            self.step().at(row, column) == self.successor_at(row, column),
    {
        self.lemma_index_in_bounds(row, column);
        self.lemma_index_roundtrip(row, column);
    }
}

} // verus!
