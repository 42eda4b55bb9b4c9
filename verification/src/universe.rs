//! The universe: a grid of cells on a torus that advances by generations.

use vstd::prelude::*;
use vstd::arithmetic::div_mod::lemma_fundamental_div_mod_converse;
use vstd::arithmetic::mul::{lemma_mul_is_commutative, lemma_mul_is_distributive_add_other_way};
use vstd::string::StringExecFns;
use crate::cell::Cell;
use crate::grid::Grid;
use crate::torus::{lemma_wrap_backward_by_forward, step_forward, wrap};

verus! {

/// A Game of Life universe of fixed, positive dimensions.
pub struct Universe {
    width: u32,
    height: u32,
    cells: Vec<Cell>,
}

impl View for Universe {
    type V = Grid;

    closed spec fn view(&self) -> Grid {
        Grid { width: self.width as nat, height: self.height as nat, cells: self.cells@ }
    }
}

/// Why a universe could not be made.
#[derive(Clone, Copy, Debug, PartialEq, Eq, Structural)]
pub enum UniverseError {
    /// The width or the height was zero.
    InvalidDimensions,
}

/// The width and the height of the universe that [`Universe::new`] makes.
pub const DEFAULT_SIZE: u32 = 64;

/// The cell that the default pattern puts at place `index` of the cell
/// buffer: a live one where `index` is divisible by two or by seven.
pub open spec fn default_cell(index: int) -> Cell {
    if index % 2 == 0 || index % 7 == 0 {
        Cell::Alive
    } else {
        Cell::Dead
    }
}

/// Computes the cell of the default pattern at place `index`.
pub fn default_seed(index: usize) -> (cell: Cell)
    ensures
        cell == default_cell(index as int),
{
    if index % 2 == 0 || index % 7 == 0 {
        Cell::Alive
    } else {
        Cell::Dead
    }
}

/// The place after the last cell of a row is the first place of the next row.
proof fn lemma_row_end(row: int, width: int)
    ensures
        row * width + width == (row + 1) * width,
{
    lemma_mul_is_distributive_add_other_way(width, row, 1);
}

/// The row offset, `-1`, `0` or `1`, of the `k`-th position in a
/// three-by-three window that is walked row by row.
spec fn window_row(k: int) -> int {
    k / 3 - 1
}

/// The column offset, `-1`, `0` or `1`, of the `k`-th position in that window.
spec fn window_column(k: int) -> int {
    k % 3 - 1
}

impl Universe {
    #[verifier::type_invariant]
    spec fn inv(&self) -> bool {
        self@.wf()
    }

    /// What the `k`-th position of the window around `(row, column)` adds to
    /// the neighbour count. The centre of the window, the cell itself, adds
    /// nothing.
    spec fn window_population(&self, row: int, column: int, k: int) -> nat {
        if k == 4 {
            0
        } else {
            self@.on_torus(row + window_row(k), column + window_column(k)).population()
        }
    }

    /// The live cells among the first `k` positions of the window.
    spec fn window_prefix(&self, row: int, column: int, k: nat) -> nat
        decreases k,
    {
        if k == 0 {
            0
        } else {
            self.window_prefix(row, column, (k - 1) as nat) + self.window_population(
                row,
                column,
                k - 1,
            )
        }
    }

    /// The window, its centre left out, holds the eight neighbours.
    proof fn lemma_window_covers_neighbours(&self, row: int, column: int)
        ensures
            self.window_prefix(row, column, 9) == self@.live_neighbour_count(row, column),
    {
        reveal_with_fuel(Universe::window_prefix, 10);
    }

    /// Each position of the window adds at most one to the count.
    proof fn lemma_window_prefix_bound(&self, row: int, column: int, k: nat)
        ensures
            self.window_prefix(row, column, k) <= k,
        decreases k,
    {
        if k > 0 {
            self.lemma_window_prefix_bound(row, column, (k - 1) as nat);
        }
    }

    /// Makes the universe of [`DEFAULT_SIZE`] rows and columns that holds the
    /// default pattern.
    pub fn new() -> (universe: Universe)
        ensures
            universe@.wf(),
            universe@.width == DEFAULT_SIZE,
            universe@.height == DEFAULT_SIZE,
            forall|i: int|
                0 <= i < DEFAULT_SIZE * DEFAULT_SIZE ==> #[trigger] universe@.cells[i]
                    == default_cell(i),
    {
        Universe::seeded(DEFAULT_SIZE, DEFAULT_SIZE, default_seed)
    }

    /// Makes a universe of `width` columns and `height` rows in which the cell
    /// at each place `i` of the cell buffer is `seed(i)`.
    ///
    /// A universe has at least one row and one column: a zero `width` or
    /// `height` is refused, and `seed` is then never called.
    pub fn with_seed<F: Fn(usize) -> Cell>(width: u32, height: u32, seed: F) -> (result: Result<
        Universe,
        UniverseError,
    >)
        requires
            width * height <= usize::MAX,
            forall|i: usize| i < width * height ==> call_requires(seed, (i,)),
        ensures
            match result {
                Ok(universe) => {
                    &&& width > 0
                    &&& height > 0
                    &&& universe@.wf()
                    &&& universe@.width == width
                    &&& universe@.height == height
                    &&& forall|i: int|
                        0 <= i < width * height ==> call_ensures(
                            seed,
                            (i as usize,),
                            #[trigger] universe@.cells[i],
                        )
                },
                Err(error) => error == UniverseError::InvalidDimensions && (width == 0 || height
                    == 0),
            },
    {
        if width == 0 || height == 0 {
            Err(UniverseError::InvalidDimensions)
        } else {
            Ok(Universe::seeded(width, height, seed))
        }
    }

    /// Fills a buffer of `width * height` cells from `seed`, in the order of
    /// their places.
    fn seeded<F: Fn(usize) -> Cell>(width: u32, height: u32, seed: F) -> (universe: Universe)
        requires
            width > 0,
            height > 0,
            width * height <= usize::MAX,
            forall|i: usize| i < width * height ==> call_requires(seed, (i,)),
        ensures
            universe@.wf(),
            universe@.width == width,
            universe@.height == height,
            forall|i: int|
                0 <= i < width * height ==> call_ensures(
                    seed,
                    (i as usize,),
                    #[trigger] universe@.cells[i],
                ),
    {
        let total: usize = width as usize * height as usize;
        let mut cells: Vec<Cell> = Vec::new();
        let mut i: usize = 0;
        while i < total
            invariant
                total == width * height,
                i <= total,
                cells@.len() == i,
                forall|k: usize| k < total ==> call_requires(seed, (k,)),
                forall|k: int|
                    0 <= k < i ==> call_ensures(seed, (k as usize,), #[trigger] cells@[k]),
            decreases total - i,
        {
            cells.push(seed(i));
            i += 1;
        }
        Universe { width, height, cells }
    }

    /// The number of columns.
    pub fn width(&self) -> (width: u32)
        ensures
            width == self@.width,
            width > 0,
    {
        proof {
            use_type_invariant(self);
        }
        self.width
    }

    /// The number of rows.
    pub fn height(&self) -> (height: u32)
        ensures
            height == self@.height,
            height > 0,
    {
        proof {
            use_type_invariant(self);
        }
        self.height
    }

    /// The cells, row by row: `width * height` of them.
    pub fn cells(&self) -> (cells: &[Cell])
        ensures
            cells@ == self@.cells,
            self@.wf(),
    {
        proof {
            use_type_invariant(self);
        }
        self.cells.as_slice()
    }

    /// The place in the cell buffer of the cell at `(row, column)`.
    pub fn get_index(&self, row: u32, column: u32) -> (index: usize)
        requires
            self@.contains(row as int, column as int),
        ensures
            index == self@.index_of(row as int, column as int),
            index < self@.cells.len(),
    {
        proof {
            use_type_invariant(self);
            self@.lemma_index_in_bounds(row as int, column as int);
            assert(self.cells.len() == self.cells@.len());
            assert(self@.index_of(row as int, column as int) == (row as int) * (self.width as int)
                + column as int);
            assert(0 <= (row as int) * (self.width as int)) by (nonlinear_arith);
        }
        row as usize * self.width as usize + column as usize
    }

    /// Counts the live cells among the eight neighbours of `(row, column)` on
    /// the torus. Coordinates beyond the last row or column are taken round
    /// the torus like any others.
    pub fn live_neighbour_count(&self, row: u32, column: u32) -> (count: u8)
        ensures
            count == self@.live_neighbour_count(row as int, column as int),
            count <= 8,
    {
        proof {
            use_type_invariant(self);
        }
        // Stepping `size - 1` positions forward stands for one step backward,
        // which unsigned coordinates could not take from position zero.
        let row_deltas: [u32; 3] = [self.height - 1, 0, 1];
        let column_deltas: [u32; 3] = [self.width - 1, 0, 1];
        let mut count: u8 = 0;
        let mut i: usize = 0;
        while i < 3
            invariant
                self@.wf(),
                row_deltas@ == seq![(self.height - 1) as u32, 0u32, 1u32],
                column_deltas@ == seq![(self.width - 1) as u32, 0u32, 1u32],
                i <= 3,
                count == self.window_prefix(row as int, column as int, (3 * i) as nat),
            decreases 3 - i,
        {
            let mut j: usize = 0;
            while j < 3
                invariant
                    self@.wf(),
                    row_deltas@ == seq![(self.height - 1) as u32, 0u32, 1u32],
                    column_deltas@ == seq![(self.width - 1) as u32, 0u32, 1u32],
                    i < 3,
                    j <= 3,
                    count == self.window_prefix(row as int, column as int, (3 * i + j) as nat),
                decreases 3 - j,
            {
                if !(i == 1 && j == 1) {
                    let neighbour_row = step_forward(row, row_deltas[i], self.height);
                    let neighbour_column = step_forward(column, column_deltas[j], self.width);
                    let index = self.get_index(neighbour_row, neighbour_column);
                    proof {
                        let k = (3 * i + j) as int;
                        lemma_wrap_backward_by_forward(row as int, self@.height);
                        lemma_wrap_backward_by_forward(column as int, self@.width);
                        assert(neighbour_row == wrap(row + window_row(k), self@.height));
                        assert(neighbour_column == wrap(column + window_column(k), self@.width));
                        self.lemma_window_prefix_bound(row as int, column as int, k as nat);
                    }
                    count += self.cells[index].live_count();
                }
                j += 1;
            }
            i += 1;
        }
        proof {
            self.lemma_window_covers_neighbours(row as int, column as int);
            self.lemma_window_prefix_bound(row as int, column as int, 9);
        }
        count
    }

    /// Advances the universe by one generation.
    ///
    /// The next generation is built in a buffer of its own, so that every
    /// cell's successor is computed from the current generation alone; the
    /// buffer then takes the place of the current one.
    pub fn tick(&mut self)
        ensures
            final(self)@ == old(self)@.step(),
            final(self)@.wf(),
    {
        proof {
            use_type_invariant(&*self);
        }
        let ghost current = self@;
        let mut next = self.cells.clone();

        let mut row: u32 = 0;
        while row < self.height
            invariant
                self@ == current,
                current.wf(),
                row <= current.height,
                next@.len() == current.cells.len(),
                forall|k: int|
                    0 <= k < current.index_of(row as int, 0) ==> next@[k]
                        == #[trigger] current.step().cells[k],
            decreases current.height - row,
        {
            let mut column: u32 = 0;
            while column < self.width
                invariant
                    self@ == current,
                    current.wf(),
                    row < current.height,
                    column <= current.width,
                    next@.len() == current.cells.len(),
                    forall|k: int|
                        0 <= k < current.index_of(row as int, column as int) ==> next@[k]
                            == #[trigger] current.step().cells[k],
                decreases current.width - column,
            {
                let index = self.get_index(row, column);
                let cell = self.cells[index];
                let live_neighbours = self.live_neighbour_count(row, column);
                let next_cell = cell.next(live_neighbours);
                proof {
                    current.lemma_index_roundtrip(row as int, column as int);
                }
                next.set(index, next_cell);
                column += 1;
            }
            proof {
                lemma_row_end(row as int, current.width as int);
            }
            row += 1;
        }

        proof {
            lemma_mul_is_commutative(current.height as int, current.width as int);
            assert(next@ =~= current.step().cells);
        }
        self.cells = next;
    }

    /// Renders the universe as text: one line for each row, from first to
    /// last, holding one glyph for each cell of the row and ending in a line
    /// break.
    pub fn render(&self) -> (text: String)
        ensures
            text@ == self@.render(),
    {
        proof {
            use_type_invariant(self);
        }
        let ghost grid = self@;
        let ghost line = grid.line_length() as int;
        let mut text = String::new();

        let mut row: u32 = 0;
        while row < self.height
            invariant
                self@ == grid,
                grid.wf(),
                line == grid.width + 1,
                row <= grid.height,
                text@.len() == row * line,
                forall|p: int| 0 <= p < text@.len() ==> text@[p] == #[trigger] grid.text_at(p),
            decreases grid.height - row,
        {
            let mut column: u32 = 0;
            while column < self.width
                invariant
                    self@ == grid,
                    grid.wf(),
                    line == grid.width + 1,
                    row < grid.height,
                    column <= grid.width,
                    text@.len() == row * line + column,
                    forall|p: int|
                        0 <= p < text@.len() ==> text@[p] == #[trigger] grid.text_at(p),
                decreases grid.width - column,
            {
                let index = self.get_index(row, column);
                proof {
                    lemma_fundamental_div_mod_converse(
                        row * line + column,
                        line,
                        row as int,
                        column as int,
                    );
                }
                text.append(self.cells[index].glyph_text());
                column += 1;
            }
            proof {
                reveal_strlit("\n");
                lemma_fundamental_div_mod_converse(
                    row * line + column,
                    line,
                    row as int,
                    column as int,
                );
                lemma_row_end(row as int, line);
            }
            text.append("\n");
            row += 1;
        }

        proof {
            lemma_mul_is_commutative(grid.height as int, line);
            assert(text@ =~= grid.render());
        }
        text
    }
}

} // verus!
