//! Theorems that hold of every grid.

use vstd::prelude::*;
use vstd::arithmetic::div_mod::lemma_fundamental_div_mod_converse;
use vstd::arithmetic::mul::lemma_mul_is_commutative;
use crate::cell::Cell;
use crate::grid::Grid;
use crate::torus::{lemma_wrap_backward_by_forward, lemma_wrap_identity, wrap};

verus! {

/// A generation has the dimensions of the one before it, and again one cell
/// for each position.
pub proof fn lemma_step_keeps_shape(grid: Grid)
    requires
        grid.wf(),
    ensures
        grid.step().wf(),
        grid.step().width == grid.width,
        grid.step().height == grid.height,
        grid.step().cells.len() == grid.width * grid.height,
{
}

/// However many generations pass, the grid keeps its dimensions and holds
/// exactly `width * height` cells.
pub proof fn lemma_generation_keeps_shape(grid: Grid, n: nat)
    requires
        grid.wf(),
    ensures
        grid.generation(n).wf(),
        grid.generation(n).width == grid.width,
        grid.generation(n).height == grid.height,
        grid.generation(n).cells.len() == grid.width * grid.height,
    decreases n,
{
    if n > 0 {
        lemma_generation_keeps_shape(grid, (n - 1) as nat);
        lemma_step_keeps_shape(grid.generation((n - 1) as nat));
    }
}

/// Generations add up: `m` generations after the `n`-th comes the
/// `n + m`-th.
pub proof fn lemma_generation_adds(grid: Grid, n: nat, m: nat)
    ensures
        grid.generation(n).generation(m) == grid.generation(n + m),
    decreases m,
{
    if m > 0 {
        lemma_generation_adds(grid, n, (m - 1) as nat);
    }
}

/// No position has more than eight live neighbours, on a grid of any size.
pub proof fn lemma_neighbour_count_bound(grid: Grid, row: int, column: int)
    ensures
        grid.live_neighbour_count(row, column) <= 8,
{
}

/// The neighbour count of a position is taken over the eight positions that
/// are reached by going `height - 1`, `0` or `1` rows and `width - 1`, `0` or
/// `1` columns forward on the torus, the position itself left out. Each of
/// them is a position of the grid.
pub proof fn lemma_neighbours_by_forward_steps(grid: Grid, row: int, column: int)
    requires
        grid.wf(),
        grid.contains(row, column),
    ensures
        ({
            let h = grid.height;
            let w = grid.width;
            let up = wrap(row + (h - 1), h);
            let down = wrap(row + 1, h);
            let left = wrap(column + (w - 1), w);
            let right = wrap(column + 1, w);
            &&& grid.contains(up, left)
            &&& grid.contains(down, right)
            &&& grid.live_neighbour_count(row, column) == grid.at(up, left).population()
                + grid.at(up, column).population() + grid.at(up, right).population() + grid.at(
                row,
                left,
            ).population() + grid.at(row, right).population() + grid.at(down, left).population()
                + grid.at(down, column).population() + grid.at(down, right).population()
        }),
{
    lemma_wrap_identity(row, grid.height);
    lemma_wrap_identity(column, grid.width);
    lemma_wrap_backward_by_forward(row, grid.height);
    lemma_wrap_backward_by_forward(column, grid.width);
}

/// The neighbours of the first cell of the grid lie across its edges: they
/// are the cells in the last, first and second row of the last, first and
/// second column, the first cell itself left out. Where the grid has a single
/// row or column, its second one is its first again.
pub proof fn lemma_neighbours_of_origin(grid: Grid)
    requires
        grid.wf(),
    ensures
        ({
            let last_row = grid.height - 1;
            let last_column = grid.width - 1;
            let second_row = wrap(1, grid.height);
            let second_column = wrap(1, grid.width);
            &&& grid.contains(last_row, last_column)
            &&& grid.contains(second_row, second_column)
            &&& grid.live_neighbour_count(0, 0) == grid.at(last_row, last_column).population()
                + grid.at(last_row, 0).population() + grid.at(last_row, second_column).population()
                + grid.at(0, last_column).population() + grid.at(0, second_column).population()
                + grid.at(second_row, last_column).population() + grid.at(
                second_row,
                0,
            ).population() + grid.at(second_row, second_column).population()
        }),
{
    lemma_neighbours_by_forward_steps(grid, 0, 0);
    lemma_wrap_identity(grid.height - 1, grid.height);
    lemma_wrap_identity(grid.width - 1, grid.width);
}

/// On a grid with at least two rows and two columns the second row and the
/// second column are those numbered one.
pub proof fn lemma_neighbours_of_origin_unwrapped(grid: Grid)
    requires
        grid.wf(),
        grid.height >= 2,
        grid.width >= 2,
    ensures
        ({
            let h = grid.height;
            let w = grid.width;
            grid.live_neighbour_count(0, 0) == grid.at(h - 1, w - 1).population() + grid.at(
                h - 1,
                0,
            ).population() + grid.at(h - 1, 1).population() + grid.at(0, w - 1).population()
                + grid.at(0, 1).population() + grid.at(1, w - 1).population() + grid.at(
                1,
                0,
            ).population() + grid.at(1, 1).population()
        }),
{
    lemma_neighbours_of_origin(grid);
    lemma_wrap_identity(1, grid.height);
    lemma_wrap_identity(1, grid.width);
}

/// The transition rule in one line: a cell is alive in the next generation
/// exactly when it has three live neighbours, or is alive and has two.
pub proof fn lemma_rule_in_brief(cell: Cell, live_neighbours: nat)
    ensures
        cell.successor(live_neighbours) is Alive <==> live_neighbours == 3 || (cell is Alive
            && live_neighbours == 2),
{
}

/// The transition rule case by case. The cases leave nothing out: the last
/// one, in which a cell keeps its state, is met by dead cells only.
pub proof fn lemma_rule_table(cell: Cell, live_neighbours: nat)
    ensures
        cell is Alive && live_neighbours < 2 ==> cell.successor(live_neighbours) is Dead,
        cell is Alive && (live_neighbours == 2 || live_neighbours == 3) ==> cell.successor(
            live_neighbours,
        ) is Alive,
        cell is Alive && live_neighbours > 3 ==> cell.successor(live_neighbours) is Dead,
        cell is Dead && live_neighbours == 3 ==> cell.successor(live_neighbours) is Alive,
        cell is Dead && live_neighbours != 3 ==> cell.successor(live_neighbours) is Dead,
{
}

/// The two states have different glyphs, and neither glyph is a line break:
/// the rendered text tells rows and cells apart.
pub proof fn lemma_glyphs_are_distinct(a: Cell, b: Cell)
    ensures
        a.glyph() == b.glyph() ==> a == b,
        a.glyph() != '\n',
{
}

/// The place in the rendered text of the glyph of the cell at
/// `(row, column)`; with `column == width`, the place of the line break that
/// ends the row.
pub open spec fn text_position(grid: Grid, row: int, column: int) -> int {
    row * grid.line_length() + column
}

/// The layout of the rendered text: `height` lines of `width` glyphs, each
/// line ended by a line break. The glyph in line `row` at column `column` is
/// that of the cell at `(row, column)`, and no glyph is a line break.
pub proof fn lemma_render_layout(grid: Grid)
    requires
        grid.wf(),
    ensures
        grid.render().len() == grid.height * (grid.width + 1),
        forall|row: int, column: int|
            grid.contains(row, column) ==> {
                &&& 0 <= #[trigger] text_position(grid, row, column) < grid.render().len()
                &&& grid.render()[text_position(grid, row, column)] == grid.at(
                    row,
                    column,
                ).glyph()
            },
        forall|row: int|
            0 <= row < grid.height ==> {
                &&& 0 <= #[trigger] text_position(grid, row, grid.width as int)
                    < grid.render().len()
                &&& grid.render()[text_position(grid, row, grid.width as int)] == '\n'
            },
        forall|position: int|
            0 <= position < grid.render().len() ==> (#[trigger] grid.render()[position] == '\n'
                <==> position % (grid.line_length() as int) == grid.width),
{
    let line = grid.line_length() as int;
    let h = grid.height as int;
    assert forall|row: int, column: int| 0 <= row < h && 0 <= column < line implies {
        &&& 0 <= #[trigger] text_position(grid, row, column) < grid.render().len()
        &&& text_position(grid, row, column) / line == row
        &&& text_position(grid, row, column) % line == column
    } by {
        lemma_fundamental_div_mod_converse(row * line + column, line, row, column);
        assert(0 <= row * line + column < h * line) by (nonlinear_arith)
            requires
                0 <= row < h,
                0 <= column < line,
        ;
    }
}

} // verus!
