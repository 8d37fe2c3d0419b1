use vstd::prelude::*;
use vstd::arithmetic::div_mod::lemma_fundamental_div_mod_converse;
use crate::cell::Cell;

verus! {

/// The mathematical model of a universe: its dimensions and its cells in
/// row-major order, on a torus (the last row is followed by the first, and
/// likewise for columns).
pub struct Grid {
    pub width: nat,
    pub height: nat,
    pub cells: Seq<Cell>,
}

/// The coordinate that follows `pos` on an axis of `dim` positions that wraps
/// around: the last position is followed by the first.
pub open spec fn after(pos: int, dim: int) -> int {
    if pos + 1 == dim {
        0
    } else {
        pos + 1
    }
}

/// The coordinate that precedes `pos` on an axis of `dim` positions that wraps
/// around: the first position is preceded by the last.
pub open spec fn before(pos: int, dim: int) -> int {
    if pos == 0 {
        dim - 1
    } else {
        pos - 1
    }
}

/// The coordinate that lies `steps` positions after `pos` on an axis of `dim`
/// positions that wraps around, for `steps` between 0 and `dim`.
pub open spec fn ahead(pos: int, steps: int, dim: int) -> int {
    if pos + steps >= dim {
        pos + steps - dim
    } else {
        pos + steps
    }
}

/// One for a live cell, zero for a dead one.
pub open spec fn one_if(alive: bool) -> int {
    if alive {
        1
    } else {
        0
    }
}

/// The state of a cell in the next generation, given its current state and the
/// number of its live neighbors: a live cell survives with two or three live
/// neighbors, a dead cell comes alive with exactly three.
pub open spec fn next_state(current: Cell, live_neighbors: int) -> Cell {
    match current {
        Cell::Alive => if live_neighbors == 2 || live_neighbors == 3 {
            Cell::Alive
        } else {
            Cell::Dead
        },
        Cell::Dead => if live_neighbors == 3 {
            Cell::Alive
        } else {
            Cell::Dead
        },
    }
}

impl Grid {
    /// Both dimensions are positive and the buffer holds one cell per position.
    pub open spec fn wf(self) -> bool {
        &&& self.width > 0
        &&& self.height > 0
        &&& self.cells.len() == self.width * self.height
    }

    /// `(row, col)` names a position of the grid.
    pub open spec fn in_bounds(self, row: int, col: int) -> bool {
        0 <= row < self.height && 0 <= col < self.width
    }

    /// The offset of `(row, col)` in the row-major buffer.
    pub open spec fn index(self, row: int, col: int) -> int {
        row * self.width + col
    }

    /// The row of the position whose offset is `offset`.
    pub open spec fn row_of(self, offset: int) -> int {
        offset / (self.width as int)
    }

    /// The column of the position whose offset is `offset`.
    pub open spec fn col_of(self, offset: int) -> int {
        offset % (self.width as int)
    }

    /// The cell at `(row, col)`.
    pub open spec fn at(self, row: int, col: int) -> Cell {
        self.cells[self.index(row, col)]
    }

    /// Whether the cell at `(row, col)` is alive.
    pub open spec fn alive(self, row: int, col: int) -> bool {
        self.at(row, col) == Cell::Alive
    }

    /// What the cell that lies `delta_row` rows below and `delta_col` columns
    /// to the right of `(row, col)`, wrapping around on both axes, adds to the
    /// neighbor count of `(row, col)`: one if it is alive, and nothing if it is
    /// dead or if both deltas are zero.
    pub open spec fn counted(self, row: int, col: int, delta_row: int, delta_col: int) -> int {
        if delta_row == 0 && delta_col == 0 {
            0
        } else if self.alive(
            (row + delta_row) % (self.height as int),
            (col + delta_col) % (self.width as int),
        ) {
            1
        } else {
            0
        }
    }

    /// What the three cells of the row `delta_row` rows below `(row, col)` add
    /// to its neighbor count. The column to the left is reached by going
    /// `width - 1` columns to the right.
    pub open spec fn counted_in_row(self, row: int, col: int, delta_row: int) -> int {
        self.counted(row, col, delta_row, self.width - 1) + self.counted(row, col, delta_row, 0)
            + self.counted(row, col, delta_row, 1)
    }

    /// The number of live neighbors of `(row, col)`. The row above is reached
    /// by going `height - 1` rows down.
    ///
    /// On a grid with at least three rows and three columns these are the
    /// eight distinct cells around `(row, col)`. On a narrower grid a delta of
    /// `width - 1` or `height - 1` may coincide with 0 or 1: a pair of deltas
    /// that are both zero is then left out each time it occurs, and a cell
    /// that is reached by several of the remaining pairs is counted once for
    /// each of them.
    pub open spec fn live_neighbors(self, row: int, col: int) -> int {
        self.counted_in_row(row, col, self.height - 1) + self.counted_in_row(row, col, 0)
            + self.counted_in_row(row, col, 1)
    }

    /// The next generation: every cell takes the state that `next_state` gives
    /// for its state and its number of live neighbors in `self`.
    pub open spec fn next_generation(self) -> Grid {
        Grid {
            width: self.width,
            height: self.height,
            cells: Seq::new(
                self.cells.len(),
                |i: int|
                    next_state(self.cells[i], self.live_neighbors(self.row_of(i), self.col_of(i))),
            ),
        }
    }
}

/// Row-major offsets stay inside the buffer.
pub proof fn lemma_index_in_range(g: Grid, row: int, col: int)
    requires
        g.wf(),
        g.in_bounds(row, col),
    ensures
        0 <= g.index(row, col) < g.cells.len(),
{
    let w = g.width as int;
    let h = g.height as int;
    assert(0 <= row * w && row * w + w <= h * w) by (nonlinear_arith)
        requires
            0 <= row < h,
            0 < w,
    ;
    assert(h * w == g.width * g.height) by (nonlinear_arith)
        requires
            w == g.width,
            h == g.height,
    ;
}

/// The row and the column of a position are recovered from its offset by
/// division and remainder.
pub proof fn lemma_index_inverse(g: Grid, row: int, col: int)
    requires
        g.wf(),
        g.in_bounds(row, col),
    ensures
        g.row_of(g.index(row, col)) == row,
        g.col_of(g.index(row, col)) == col,
{
    lemma_fundamental_div_mod_converse(g.index(row, col), g.width as int, row, col);
}

/// Every offset of the buffer is the offset of a position of the grid, namely
/// of its quotient and remainder by the width.
pub proof fn lemma_offset_position(g: Grid, i: int)
    requires
        g.wf(),
        0 <= i < g.cells.len(),
    ensures
        g.in_bounds(g.row_of(i), g.col_of(i)),
        g.index(g.row_of(i), g.col_of(i)) == i,
{
    let w = g.width as int;
    let h = g.height as int;
    assert(i == (i / w) * w + i % w && 0 <= i % w < w) by (nonlinear_arith)
        requires
            0 < w,
    ;
    assert(0 <= i / w < h) by (nonlinear_arith)
        requires
            0 < w,
            0 <= i < w * h,
            g.cells.len() == w * h,
    ;
}

/// A coordinate that is moved forward by any delta and reduced modulo the
/// length of its axis is a coordinate of that axis again.
pub proof fn lemma_wrapped_in_bounds(pos: int, delta: int, dim: int)
    requires
        0 <= pos < dim,
        0 <= delta,
    ensures
        0 <= (pos + delta) % dim < dim,
{
    assert(0 <= (pos + delta) % dim < dim) by (nonlinear_arith)
        requires
            0 < dim,
    ;
}

/// Moving a coordinate by `dim - 1`, by 0 or by 1 and reducing it modulo `dim`
/// gives the coordinate before it, the coordinate itself, or the coordinate
/// after it on the wrapping axis.
pub proof fn lemma_wrapped_steps(pos: int, dim: int)
    requires
        0 <= pos < dim,
    ensures
        (pos + (dim - 1)) % dim == before(pos, dim),
        (pos + 0) % dim == pos,
        (pos + 1) % dim == after(pos, dim),
{
    lemma_fundamental_div_mod_converse(pos, dim, 0, pos);
    if pos + 1 == dim {
        lemma_fundamental_div_mod_converse(pos + 1, dim, 1, 0);
    } else {
        lemma_fundamental_div_mod_converse(pos + 1, dim, 0, pos + 1);
    }
    if pos == 0 {
        lemma_fundamental_div_mod_converse(pos + (dim - 1), dim, 0, dim - 1);
    } else {
        lemma_fundamental_div_mod_converse(pos + (dim - 1), dim, 1, pos - 1);
    }
}

/// On a grid with at least two rows and two columns, the number of live
/// neighbors of a cell is the number of live cells among the cell before and
/// the cell after it in its own row, and those two and the one between them
/// in the row before and in the row after, all on the torus.
pub proof fn lemma_live_neighbors_on_torus(g: Grid, row: int, col: int)
    requires
        g.wf(),
        g.width >= 2,
        g.height >= 2,
        g.in_bounds(row, col),
    ensures
        g.live_neighbors(row, col) == {
            let h = g.height as int;
            let w = g.width as int;
            one_if(g.alive(before(row, h), before(col, w))) + one_if(g.alive(before(row, h), col))
                + one_if(g.alive(before(row, h), after(col, w))) + one_if(
                g.alive(row, before(col, w)),
            ) + one_if(g.alive(row, after(col, w))) + one_if(g.alive(after(row, h), before(col, w)))
                + one_if(g.alive(after(row, h), col)) + one_if(
                g.alive(after(row, h), after(col, w)),
            )
        },
{
    lemma_wrapped_steps(row, g.height as int);
    lemma_wrapped_steps(col, g.width as int);
}

/// A cell has at most eight live neighbors.
pub proof fn lemma_live_neighbors_bounds(g: Grid, row: int, col: int)
    ensures
        0 <= g.live_neighbors(row, col) <= 8,
{
}

/// The next generation of a cell, by its position: the rule applied to the
/// cell and its live neighbors, which is to say that the cell is alive in the
/// next generation if it has three live neighbors, or if it is alive and has
/// two.
pub proof fn lemma_next_generation_at(g: Grid, row: int, col: int)
    requires
        g.wf(),
        g.in_bounds(row, col),
    ensures
        g.next_generation().at(row, col) == next_state(g.at(row, col), g.live_neighbors(row, col)),
        g.next_generation().alive(row, col) <==> g.live_neighbors(row, col) == 3 || (g.alive(
            row,
            col,
        ) && g.live_neighbors(row, col) == 2),
{
    lemma_index_in_range(g, row, col);
    lemma_index_inverse(g, row, col);
}

/// Row-major indexing is a bijection between the positions of the grid and
/// the offsets of its buffer: every position has an offset in the buffer, from
/// which `row_of` and `col_of` give the position back; two positions with the
/// same offset are the same position; and every offset of the buffer is the
/// offset of the position that `row_of` and `col_of` give for it.
pub proof fn lemma_index_bijection(g: Grid)
    requires
        g.wf(),
    ensures
        forall|row: int, col: int|
            g.in_bounds(row, col) ==> {
                &&& 0 <= #[trigger] g.index(row, col) < g.cells.len()
                &&& g.row_of(g.index(row, col)) == row
                &&& g.col_of(g.index(row, col)) == col
            },
        forall|r1: int, c1: int, r2: int, c2: int|
            g.in_bounds(r1, c1) && g.in_bounds(r2, c2) && #[trigger] g.index(r1, c1)
                == #[trigger] g.index(r2, c2) ==> r1 == r2 && c1 == c2,
        forall|i: int|
            0 <= i < g.cells.len() ==> {
                &&& g.in_bounds(#[trigger] g.row_of(i), g.col_of(i))
                &&& g.index(g.row_of(i), g.col_of(i)) == i
            },
{
    assert forall|r1: int, c1: int, r2: int, c2: int|
        g.in_bounds(r1, c1) && g.in_bounds(r2, c2) && #[trigger] g.index(r1, c1)
            == #[trigger] g.index(r2, c2) implies r1 == r2 && c1 == c2 by {
        lemma_index_inverse(g, r1, c1);
        lemma_index_inverse(g, r2, c2);
    }
    assert forall|row: int, col: int| g.in_bounds(row, col) implies {
        &&& 0 <= #[trigger] g.index(row, col) < g.cells.len()
        &&& g.row_of(g.index(row, col)) == row
        &&& g.col_of(g.index(row, col)) == col
    } by {
        lemma_index_in_range(g, row, col);
        lemma_index_inverse(g, row, col);
    }
    assert forall|i: int| 0 <= i < g.cells.len() implies {
        &&& g.in_bounds(#[trigger] g.row_of(i), g.col_of(i))
        &&& g.index(g.row_of(i), g.col_of(i)) == i
    } by {
        lemma_offset_position(g, i);
    }
}

} // verus!
