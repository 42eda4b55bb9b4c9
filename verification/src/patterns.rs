//! Two classic patterns and what becomes of them: the block, which never
//! changes, and the blinker, which turns by a quarter with every generation.

use vstd::prelude::*;
use crate::grid::Grid;
use crate::torus::{after, before};

verus! {

/// Whether `x` is `start` or the position after it on a ring of `size`
/// positions.
pub open spec fn in_pair(x: int, start: int, size: nat) -> bool {
    x == start || x == after(start, size)
}

/// Whether `x` is `centre` or one of the two positions next to it on a ring
/// of `size` positions.
pub open spec fn in_triple(x: int, centre: int, size: nat) -> bool {
    x == before(centre, size) || x == centre || x == after(centre, size)
}

/// A grid whose live cells are exactly the four cells of the two-by-two block
/// with its upper left corner at `(top, left)`. The block may lie across an
/// edge of the grid.
pub open spec fn is_block(grid: Grid, top: int, left: int) -> bool {
    &&& grid.wf()
    &&& grid.contains(top, left)
    &&& forall|row: int, column: int|
        grid.contains(row, column) ==> (#[trigger] grid.at(row, column) is Alive <==> in_pair(
            row,
            top,
            grid.height,
        ) && in_pair(column, left, grid.width))
}

/// Round a block every live cell has exactly three live neighbours, and no
/// dead cell has three. Where the grid has at least four rows and four
/// columns, so that the block does not meet itself round the torus, a dead
/// cell has at most two.
pub proof fn lemma_block_neighbour_counts(grid: Grid, top: int, left: int, row: int, column: int)
    requires
        is_block(grid, top, left),
        grid.height >= 3,
        grid.width >= 3,
        grid.contains(row, column),
    ensures
        grid.at(row, column) is Alive ==> grid.live_neighbour_count(row, column) == 3,
        grid.at(row, column) is Dead ==> grid.live_neighbour_count(row, column) != 3,
        grid.at(row, column) is Dead && grid.height >= 4 && grid.width >= 4
            ==> grid.live_neighbour_count(row, column) <= 2,
{
    grid.lemma_neighbours(row, column);
}

/// A block on a grid of at least three rows and three columns is a still
/// life: the next generation is the same grid.
pub proof fn lemma_block_is_still(grid: Grid, top: int, left: int)
    requires
        is_block(grid, top, left),
        grid.height >= 3,
        grid.width >= 3,
    ensures
        grid.step() == grid,
{
    assert forall|i: int| 0 <= i < grid.cells.len() implies grid.step().cells[i]
        == grid.cells[i] by {
        let row = i / (grid.width as int);
        let column = i % (grid.width as int);
        grid.lemma_position_of_index(i);
        grid.lemma_neighbours(row, column);
        assert(grid.cells[i] == grid.at(row, column));
    }
    assert(grid.step().cells =~= grid.cells);
}

/// A block stays as it is however many generations pass.
pub proof fn lemma_block_is_still_forever(grid: Grid, top: int, left: int, n: nat)
    requires
        is_block(grid, top, left),
        grid.height >= 3,
        grid.width >= 3,
    ensures
        grid.generation(n) == grid,
    decreases n,
{
    if n > 0 {
        lemma_block_is_still_forever(grid, top, left, (n - 1) as nat);
        lemma_block_is_still(grid, top, left);
    }
}

/// A grid whose live cells are exactly the three cells of row `row` in the
/// columns before, at and after `column`: a blinker that lies flat.
pub open spec fn is_row_blinker(grid: Grid, row: int, column: int) -> bool {
    &&& grid.wf()
    &&& grid.contains(row, column)
    &&& forall|r: int, c: int|
        grid.contains(r, c) ==> (#[trigger] grid.at(r, c) is Alive <==> r == row && in_triple(
            c,
            column,
            grid.width,
        ))
}

/// A grid whose live cells are exactly the three cells of column `column` in
/// the rows before, at and after `row`: a blinker that stands upright.
pub open spec fn is_column_blinker(grid: Grid, row: int, column: int) -> bool {
    &&& grid.wf()
    &&& grid.contains(row, column)
    &&& forall|r: int, c: int|
        grid.contains(r, c) ==> (#[trigger] grid.at(r, c) is Alive <==> in_triple(
            r,
            row,
            grid.height,
        ) && c == column)
}

/// A grid leaves a blinker clear of itself when it has at least four rows and
/// four columns: the ends of the blinker then do not meet round the torus.
pub open spec fn has_clearance(grid: Grid) -> bool {
    grid.height >= 4 && grid.width >= 4
}

/// A flat blinker stands upright in the next generation, on the same centre.
pub proof fn lemma_row_blinker_turns(grid: Grid, row: int, column: int)
    requires
        is_row_blinker(grid, row, column),
        has_clearance(grid),
    ensures
        is_column_blinker(grid.step(), row, column),
{
    let next = grid.step();
    assert forall|r: int, c: int| next.contains(r, c) implies (#[trigger] next.at(r, c) is Alive
        <==> in_triple(r, row, grid.height) && c == column) by {
        grid.lemma_step_at(r, c);
        grid.lemma_neighbours(r, c);
    }
}

/// An upright blinker lies flat in the next generation, on the same centre.
pub proof fn lemma_column_blinker_turns(grid: Grid, row: int, column: int)
    requires
        is_column_blinker(grid, row, column),
        has_clearance(grid),
    ensures
        is_row_blinker(grid.step(), row, column),
{
    let next = grid.step();
    assert forall|r: int, c: int| next.contains(r, c) implies (#[trigger] next.at(r, c) is Alive
        <==> r == row && in_triple(c, column, grid.width)) by {
        grid.lemma_step_at(r, c);
        grid.lemma_neighbours(r, c);
    }
}

/// Two grids of the same shape that agree on which cells are alive are the
/// same grid.
pub proof fn lemma_same_live_cells(a: Grid, b: Grid)
    requires
        a.wf(),
        b.wf(),
        a.width == b.width,
        a.height == b.height,
        forall|r: int, c: int|
            a.contains(r, c) ==> (#[trigger] a.at(r, c) is Alive <==> b.at(r, c) is Alive),
    ensures
        a == b,
{
    assert forall|i: int| 0 <= i < a.cells.len() implies a.cells[i] == b.cells[i] by {
        a.lemma_position_of_index(i);
        let r = i / (a.width as int);
        let c = i % (a.width as int);
        assert(a.cells[i] == a.at(r, c));
        assert(b.cells[i] == b.at(r, c));
    }
    assert(a.cells =~= b.cells);
}

/// A blinker has period two: the next generation is another grid, and the
/// one after that is the first grid again. This holds of a blinker that lies
/// flat and of one that stands upright.
pub proof fn lemma_blinker_has_period_two(grid: Grid, row: int, column: int)
    requires
        is_row_blinker(grid, row, column) || is_column_blinker(grid, row, column),
        has_clearance(grid),
    ensures
        grid.step() != grid,
        grid.step().step() == grid,
        grid.generation(2) == grid,
{
    let next = grid.step();
    let last = next.step();
    if is_row_blinker(grid, row, column) {
        lemma_row_blinker_turns(grid, row, column);
        lemma_column_blinker_turns(next, row, column);
        // The cell above the centre is dead in the first grid and alive in
        // the second.
        let above = before(row, grid.height);
        assert(next.at(above, column) is Alive);
        assert(grid.at(above, column) is Dead);
    } else {
        lemma_column_blinker_turns(grid, row, column);
        lemma_row_blinker_turns(next, row, column);
        let left = before(column, grid.width);
        assert(next.at(row, left) is Alive);
        assert(grid.at(row, left) is Dead);
    }
    lemma_same_live_cells(last, grid);
    assert(grid.generation(2) == grid) by {
        reveal_with_fuel(Grid::generation, 3);
    }
}

/// Without clearance the blinker is no oscillator. On a grid of three rows
/// and three columns an upright blinker fills its column, every dead cell
/// sees all three of its cells round the torus, and the next generation is
/// alive throughout; the one after that is dead throughout.
pub proof fn lemma_blinker_without_clearance(grid: Grid, row: int, column: int)
    requires
        is_column_blinker(grid, row, column),
        grid.height == 3,
        grid.width == 3,
    ensures
        forall|r: int, c: int| grid.contains(r, c) ==> #[trigger] grid.step().at(r, c) is Alive,
        forall|r: int, c: int|
            grid.contains(r, c) ==> #[trigger] grid.step().step().at(r, c) is Dead,
{
    let next = grid.step();
    assert forall|r: int, c: int| grid.contains(r, c) implies #[trigger] next.at(
        r,
        c,
    ) is Alive by {
        grid.lemma_step_at(r, c);
        grid.lemma_neighbours(r, c);
    }
    assert forall|r: int, c: int| grid.contains(r, c) implies #[trigger] next.step().at(
        r,
        c,
    ) is Dead by {
        next.lemma_step_at(r, c);
        next.lemma_neighbours(r, c);
    }
}

} // verus!
