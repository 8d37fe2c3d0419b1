use vstd::prelude::*;
use crate::cell::Cell;
use crate::grid::Grid;
use crate::grid::after;
use crate::grid::ahead;
use crate::grid::before;
use crate::grid::lemma_index_in_range;
use crate::grid::lemma_live_neighbors_on_torus;
use crate::grid::lemma_next_generation_at;
use crate::grid::lemma_offset_position;
use crate::grid::lemma_wrapped_in_bounds;

verus! {

/// The live cells of `g` are exactly the positions of which `shape` holds.
pub open spec fn lives_exactly(g: Grid, shape: spec_fn(int, int) -> bool) -> bool {
    forall|row: int, col: int|
        #![trigger g.alive(row, col)]
        g.in_bounds(row, col) ==> (g.alive(row, col) <==> shape(row, col))
}

/// Two grids of the same dimensions with the same live cells are the same
/// grid.
pub proof fn lemma_same_live_cells(a: Grid, b: Grid, shape: spec_fn(int, int) -> bool)
    requires
        a.wf(),
        b.wf(),
        a.width == b.width,
        a.height == b.height,
        lives_exactly(a, shape),
        lives_exactly(b, shape),
    ensures
        a == b,
{
    assert forall|i: int| 0 <= i < a.cells.len() implies a.cells[i] == b.cells[i] by {
        lemma_offset_position(a, i);
        let row = a.row_of(i);
        let col = a.col_of(i);
        assert(a.alive(row, col) <==> shape(row, col));
        assert(b.alive(row, col) <==> shape(row, col));
        assert(a.at(row, col) == b.at(row, col));
    }
    assert(a.cells =~= b.cells);
}

/// A grid without a live cell stays without one: its next generation is the
/// grid itself.
pub proof fn lemma_dead_grid_is_fixed(g: Grid)
    requires
        g.wf(),
        forall|i: int| 0 <= i < g.cells.len() ==> g.cells[i] == Cell::Dead,
    ensures
        g.next_generation() == g,
{
    assert forall|i: int| 0 <= i < g.cells.len() implies g.next_generation().cells[i]
        == g.cells[i] by {
        lemma_offset_position(g, i);
        let row = g.row_of(i);
        let col = g.col_of(i);
        assert forall|delta_row: int, delta_col: int|
            0 <= delta_row && 0 <= delta_col implies #[trigger] g.counted(
            row,
            col,
            delta_row,
            delta_col,
        ) == 0 by {
            lemma_wrapped_in_bounds(row, delta_row, g.height as int);
            lemma_wrapped_in_bounds(col, delta_col, g.width as int);
            lemma_index_in_range(
                g,
                (row + delta_row) % (g.height as int),
                (col + delta_col) % (g.width as int),
            );
        }
        assert(g.live_neighbors(row, col) == 0);
    }
    assert(g.next_generation().cells =~= g.cells);
}

/// The four positions of the block whose upper left corner is `(top, left)`,
/// on a torus of `height` rows and `width` columns.
pub open spec fn block(height: int, width: int, top: int, left: int) -> spec_fn(int, int) -> bool {
    |row: int, col: int|
        (row == top || row == after(top, height)) && (col == left || col == after(left, width))
}

/// The block is a still life: a grid of at least three rows and three columns
/// whose live cells are exactly the four cells of a block is its own next
/// generation.
pub proof fn lemma_block_is_still_life(g: Grid, top: int, left: int)
    requires
        g.wf(),
        g.width >= 3,
        g.height >= 3,
        g.in_bounds(top, left),
        lives_exactly(g, block(g.height as int, g.width as int, top, left)),
    ensures
        g.next_generation() == g,
{
    let shape = block(g.height as int, g.width as int, top, left);
    let next = g.next_generation();
    assert forall|row: int, col: int| g.in_bounds(row, col) implies (#[trigger] next.alive(row, col)
        <==> shape(row, col)) by {
        lemma_next_generation_at(g, row, col);
        lemma_live_neighbors_on_torus(g, row, col);
    }
    lemma_same_live_cells(next, g, shape);
}

/// The three positions of the horizontal blinker whose middle cell is
/// `(row, col)`, on a torus of `width` columns.
pub open spec fn horizontal_blinker(width: int, middle_row: int, middle_col: int) -> spec_fn(
    int,
    int,
) -> bool {
    |row: int, col: int|
        row == middle_row && (col == before(middle_col, width) || col == middle_col || col
            == after(middle_col, width))
}

/// The three positions of the vertical blinker whose middle cell is
/// `(row, col)`, on a torus of `height` rows.
pub open spec fn vertical_blinker(height: int, middle_row: int, middle_col: int) -> spec_fn(
    int,
    int,
) -> bool {
    |row: int, col: int|
        col == middle_col && (row == before(middle_row, height) || row == middle_row || row
            == after(middle_row, height))
}

/// On a grid of at least three rows and four columns, the next generation of
/// a horizontal blinker is the vertical blinker with the same middle cell.
pub proof fn lemma_blinker_turns_vertical(g: Grid, row: int, col: int)
    requires
        g.wf(),
        g.width >= 4,
        g.height >= 3,
        g.in_bounds(row, col),
        lives_exactly(g, horizontal_blinker(g.width as int, row, col)),
    ensures
        g.next_generation().wf(),
        lives_exactly(g.next_generation(), vertical_blinker(g.height as int, row, col)),
{
    let to = vertical_blinker(g.height as int, row, col);
    let next = g.next_generation();
    assert forall|r: int, c: int| g.in_bounds(r, c) implies (#[trigger] next.alive(r, c) <==> to(
        r,
        c,
    )) by {
        lemma_next_generation_at(g, r, c);
        lemma_live_neighbors_on_torus(g, r, c);
    }
}

/// On a grid of at least four rows and three columns, the next generation of
/// a vertical blinker is the horizontal blinker with the same middle cell.
pub proof fn lemma_blinker_turns_horizontal(g: Grid, row: int, col: int)
    requires
        g.wf(),
        g.width >= 3,
        g.height >= 4,
        g.in_bounds(row, col),
        lives_exactly(g, vertical_blinker(g.height as int, row, col)),
    ensures
        g.next_generation().wf(),
        lives_exactly(g.next_generation(), horizontal_blinker(g.width as int, row, col)),
{
    let to = horizontal_blinker(g.width as int, row, col);
    let next = g.next_generation();
    assert forall|r: int, c: int| g.in_bounds(r, c) implies (#[trigger] next.alive(r, c) <==> to(
        r,
        c,
    )) by {
        lemma_next_generation_at(g, r, c);
        lemma_live_neighbors_on_torus(g, r, c);
    }
}

/// The blinker is an oscillator of period two: on a grid of at least four
/// rows and four columns, a horizontal blinker is not its own next generation,
/// and it is the next generation of its next generation.
pub proof fn lemma_blinker_has_period_two(g: Grid, row: int, col: int)
    requires
        g.wf(),
        g.width >= 4,
        g.height >= 4,
        g.in_bounds(row, col),
        lives_exactly(g, horizontal_blinker(g.width as int, row, col)),
    ensures
        g.next_generation() != g,
        g.next_generation().next_generation() == g,
{
    let next = g.next_generation();
    lemma_blinker_turns_vertical(g, row, col);
    lemma_blinker_turns_horizontal(next, row, col);
    lemma_same_live_cells(
        next.next_generation(),
        g,
        horizontal_blinker(g.width as int, row, col),
    );
    let above = before(row, g.height as int);
    assert(next.alive(above, col));
    assert(!g.alive(above, col));
}

/// Whether `(row, col)` lies `down` rows below and `right` columns to the
/// right of `(top, left)`, on a torus of `height` rows and `width` columns.
pub open spec fn lies_at(
    height: int,
    width: int,
    top: int,
    left: int,
    down: int,
    right: int,
    row: int,
    col: int,
) -> bool {
    row == ahead(top, down, height) && col == ahead(left, right, width)
}

/// The five positions of the glider that heads down and to the right, in the
/// three rows from `top` and the three columns from `left`: the middle of the
/// first row, the right end of the second, and all of the third.
pub open spec fn glider(height: int, width: int, top: int, left: int) -> spec_fn(int, int) -> bool {
    |row: int, col: int|
        {
            ||| lies_at(height, width, top, left, 0, 1, row, col)
            ||| lies_at(height, width, top, left, 1, 2, row, col)
            ||| lies_at(height, width, top, left, 2, 0, row, col)
            ||| lies_at(height, width, top, left, 2, 1, row, col)
            ||| lies_at(height, width, top, left, 2, 2, row, col)
        }
}

/// The live cells one generation after `glider`, in rows and columns counted
/// from the same `(top, left)`.
spec fn glider_after_one(height: int, width: int, top: int, left: int) -> spec_fn(int, int) -> bool {
    |row: int, col: int|
        {
            ||| lies_at(height, width, top, left, 1, 0, row, col)
            ||| lies_at(height, width, top, left, 1, 2, row, col)
            ||| lies_at(height, width, top, left, 2, 1, row, col)
            ||| lies_at(height, width, top, left, 2, 2, row, col)
            ||| lies_at(height, width, top, left, 3, 1, row, col)
        }
}

/// The live cells two generations after `glider`.
spec fn glider_after_two(height: int, width: int, top: int, left: int) -> spec_fn(int, int) -> bool {
    |row: int, col: int|
        {
            ||| lies_at(height, width, top, left, 1, 2, row, col)
            ||| lies_at(height, width, top, left, 2, 0, row, col)
            ||| lies_at(height, width, top, left, 2, 2, row, col)
            ||| lies_at(height, width, top, left, 3, 1, row, col)
            ||| lies_at(height, width, top, left, 3, 2, row, col)
        }
}

/// The live cells three generations after `glider`.
spec fn glider_after_three(height: int, width: int, top: int, left: int) -> spec_fn(int, int) -> bool {
    |row: int, col: int|
        {
            ||| lies_at(height, width, top, left, 1, 1, row, col)
            ||| lies_at(height, width, top, left, 2, 2, row, col)
            ||| lies_at(height, width, top, left, 2, 3, row, col)
            ||| lies_at(height, width, top, left, 3, 1, row, col)
            ||| lies_at(height, width, top, left, 3, 2, row, col)
        }
}

/// The live cells four generations after `glider`.
spec fn glider_after_four(height: int, width: int, top: int, left: int) -> spec_fn(int, int) -> bool {
    |row: int, col: int|
        {
            ||| lies_at(height, width, top, left, 1, 2, row, col)
            ||| lies_at(height, width, top, left, 2, 3, row, col)
            ||| lies_at(height, width, top, left, 3, 1, row, col)
            ||| lies_at(height, width, top, left, 3, 2, row, col)
            ||| lies_at(height, width, top, left, 3, 3, row, col)
        }
}

/// The next generation of a glider.
proof fn lemma_glider_first_step(g: Grid, top: int, left: int)
    requires
        g.wf(),
        g.width >= 5,
        g.height >= 5,
        g.in_bounds(top, left),
        lives_exactly(g, glider(g.height as int, g.width as int, top, left)),
    ensures
        lives_exactly(g.next_generation(), glider_after_one(g.height as int, g.width as int, top, left)),
{
    let to = glider_after_one(g.height as int, g.width as int, top, left);
    let next = g.next_generation();
    assert forall|row: int, col: int| g.in_bounds(row, col) implies (#[trigger] next.alive(
        row,
        col,
    ) <==> to(row, col)) by {
        lemma_next_generation_at(g, row, col);
        lemma_live_neighbors_on_torus(g, row, col);
    }
}

/// The next generation of a glider that is one generation old.
proof fn lemma_glider_second_step(g: Grid, top: int, left: int)
    requires
        g.wf(),
        g.width >= 5,
        g.height >= 5,
        g.in_bounds(top, left),
        lives_exactly(g, glider_after_one(g.height as int, g.width as int, top, left)),
    ensures
        lives_exactly(g.next_generation(), glider_after_two(g.height as int, g.width as int, top, left)),
{
    let to = glider_after_two(g.height as int, g.width as int, top, left);
    let next = g.next_generation();
    assert forall|row: int, col: int| g.in_bounds(row, col) implies (#[trigger] next.alive(
        row,
        col,
    ) <==> to(row, col)) by {
        lemma_next_generation_at(g, row, col);
        lemma_live_neighbors_on_torus(g, row, col);
    }
}

/// The next generation of a glider that is two generations old.
proof fn lemma_glider_third_step(g: Grid, top: int, left: int)
    requires
        g.wf(),
        g.width >= 5,
        g.height >= 5,
        g.in_bounds(top, left),
        lives_exactly(g, glider_after_two(g.height as int, g.width as int, top, left)),
    ensures
        lives_exactly(g.next_generation(), glider_after_three(g.height as int, g.width as int, top, left)),
{
    let to = glider_after_three(g.height as int, g.width as int, top, left);
    let next = g.next_generation();
    assert forall|row: int, col: int| g.in_bounds(row, col) implies (#[trigger] next.alive(
        row,
        col,
    ) <==> to(row, col)) by {
        lemma_next_generation_at(g, row, col);
        lemma_live_neighbors_on_torus(g, row, col);
    }
}

/// The next generation of a glider that is three generations old.
proof fn lemma_glider_fourth_step(g: Grid, top: int, left: int)
    requires
        g.wf(),
        g.width >= 5,
        g.height >= 5,
        g.in_bounds(top, left),
        lives_exactly(g, glider_after_three(g.height as int, g.width as int, top, left)),
    ensures
        lives_exactly(g.next_generation(), glider_after_four(g.height as int, g.width as int, top, left)),
{
    let to = glider_after_four(g.height as int, g.width as int, top, left);
    let next = g.next_generation();
    assert forall|row: int, col: int| g.in_bounds(row, col) implies (#[trigger] next.alive(
        row,
        col,
    ) <==> to(row, col)) by {
        lemma_next_generation_at(g, row, col);
        lemma_live_neighbors_on_torus(g, row, col);
    }
}

/// The live cells four generations after a glider are those of the glider one
/// row lower and one column further to the right.
proof fn lemma_glider_has_moved(
    height: int,
    width: int,
    top: int,
    left: int,
    row: int,
    col: int,
)
    requires
        height >= 5,
        width >= 5,
        0 <= top < height,
        0 <= left < width,
    ensures
        glider_after_four(height, width, top, left)(row, col) == glider(
            height,
            width,
            after(top, height),
            after(left, width),
        )(row, col),
{
}

/// The glider travels diagonally: on a grid of at least five rows and five
/// columns whose live cells are exactly those of a glider, the live cells four
/// generations later are exactly those of the glider one row lower and one
/// column further to the right, wrapping around the edges.
pub proof fn lemma_glider_travels(g: Grid, top: int, left: int)
    requires
        g.wf(),
        g.width >= 5,
        g.height >= 5,
        g.in_bounds(top, left),
        lives_exactly(g, glider(g.height as int, g.width as int, top, left)),
    ensures
        lives_exactly(
            g.next_generation().next_generation().next_generation().next_generation(),
            glider(
                g.height as int,
                g.width as int,
                after(top, g.height as int),
                after(left, g.width as int),
            ),
        ),
{
    let one = g.next_generation();
    let two = one.next_generation();
    let three = two.next_generation();
    let four = three.next_generation();
    lemma_glider_first_step(g, top, left);
    lemma_glider_second_step(one, top, left);
    lemma_glider_third_step(two, top, left);
    lemma_glider_fourth_step(three, top, left);
    let moved = glider(
        g.height as int,
        g.width as int,
        after(top, g.height as int),
        after(left, g.width as int),
    );
    assert forall|row: int, col: int| four.in_bounds(row, col) implies (#[trigger] four.alive(
        row,
        col,
    ) <==> moved(row, col)) by {
        lemma_glider_has_moved(g.height as int, g.width as int, top, left, row, col);
    }
}

} // verus!
