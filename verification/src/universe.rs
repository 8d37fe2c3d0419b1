use vstd::prelude::*;
use crate::cell::Cell;
use crate::grid::Grid;
use crate::grid::lemma_index_in_range;
use crate::grid::lemma_index_inverse;
use crate::grid::lemma_wrapped_in_bounds;

verus! {

/// The dimensions of the universe and its cells, in row-major order.
pub struct Universe {
    pub width: u32,
    pub height: u32,
    pub cells: Vec<Cell>,
}

impl View for Universe {
    type V = Grid;

    open spec fn view(&self) -> Grid {
        Grid { width: self.width as nat, height: self.height as nat, cells: self.cells@ }
    }
}

impl Universe {
    /// Both dimensions are positive and `cells` holds `width * height` cells.
    pub open spec fn wf(&self) -> bool {
        self@.wf()
    }

    /// Creates a universe of the given dimensions in which every cell is dead.
    pub fn new(width: u32, height: u32) -> (universe: Universe)
        requires
            width > 0,
            height > 0,
            width * height <= usize::MAX,
        ensures
            universe.wf(),
            universe.width == width,
            universe.height == height,
            universe.cells@.len() == width * height,
            forall|i: int| 0 <= i < universe.cells@.len() ==> universe.cells@[i] == Cell::Dead,
    {
        let cells = vec![Cell::Dead; (width as usize) * (height as usize)];
        Universe { width, height, cells }
    }

    /// The offset in `cells` of the cell at `(row, column)`.
    pub fn get_index(&self, row: u32, column: u32) -> (index: usize)
        requires
            self.wf(),
            row < self.height,
            column < self.width,
        ensures
            index == self@.index(row as int, column as int),
            index < self.cells@.len(),
    {
        proof {
            lemma_index_in_range(self@, row as int, column as int);
            assert(self.cells@.len() == self.cells.len());
            assert(0 <= row * self.width) by (nonlinear_arith);
        }
        (row as usize) * (self.width as usize) + (column as usize)
    }

    /// Counts the live neighbors of the cell at `(row, column)`, wrapping
    /// around the edges of the universe.
    pub fn live_neighbor_count(&self, row: u32, column: u32) -> (count: u8)
        requires
            self.wf(),
            row < self.height,
            column < self.width,
        ensures
            count == self@.live_neighbors(row as int, column as int),
            count <= 8,
    {
        let row_deltas: [u32; 3] = [self.height - 1, 0, 1];
        let col_deltas: [u32; 3] = [self.width - 1, 0, 1];
        let mut count: u8 = 0;
        for i in 0..3usize
            invariant
                self.wf(),
                row < self.height,
                column < self.width,
                row_deltas@ == seq![(self.height - 1) as u32, 0u32, 1u32],
                col_deltas@ == seq![(self.width - 1) as u32, 0u32, 1u32],
                count <= 3 * i,
                count == (if i > 0 {
                    self@.counted_in_row(row as int, column as int, self.height - 1)
                } else {
                    0
                }) + (if i > 1 {
                    self@.counted_in_row(row as int, column as int, 0)
                } else {
                    0
                }) + (if i > 2 {
                    self@.counted_in_row(row as int, column as int, 1)
                } else {
                    0
                }),
        {
            let delta_row = row_deltas[i];
            let ghost above = count;
            for j in 0..3usize
                invariant
                    self.wf(),
                    row < self.height,
                    column < self.width,
                    i < 3,
                    delta_row == row_deltas@[i as int],
                    row_deltas@ == seq![(self.height - 1) as u32, 0u32, 1u32],
                    col_deltas@ == seq![(self.width - 1) as u32, 0u32, 1u32],
                    above <= 3 * i,
                    count <= above + j,
                    count == above + (if j > 0 {
                        self@.counted(row as int, column as int, delta_row as int, self.width - 1)
                    } else {
                        0
                    }) + (if j > 1 {
                        self@.counted(row as int, column as int, delta_row as int, 0)
                    } else {
                        0
                    }) + (if j > 2 {
                        self@.counted(row as int, column as int, delta_row as int, 1)
                    } else {
                        0
                    }),
            {
                let delta_col = col_deltas[j];
                if !(delta_col == 0 && delta_row == 0) {
                    proof {
                        lemma_wrapped_in_bounds(row as int, delta_row as int, self.height as int);
                        lemma_wrapped_in_bounds(column as int, delta_col as int, self.width as int);
                    }
                    let neighbor_row = ((row as u64 + delta_row as u64) % (self.height as u64)) as u32;
                    let neighbor_col = ((column as u64 + delta_col as u64) % (self.width as u64)) as u32;
                    let idx = self.get_index(neighbor_row, neighbor_col);
                    if self.cells[idx] == Cell::Alive {
                        count += 1;
                    }
                }
            }
        }
        count
    }

    /// Advances the universe by one generation. Every cell of the new
    /// generation is computed from the old generation alone.
    pub fn tick(&mut self)
        requires
            old(self).wf(),
        ensures
            final(self).wf(),
            final(self)@ == old(self)@.next_generation(),
    {
        let mut next = self.cells.clone();
        for row in 0..self.height
            invariant
                *self == *old(self),
                self.wf(),
                next@.len() == self.cells@.len(),
                forall|i: int|
                    0 <= i < row * self.width ==> next@[i] == self@.next_generation().cells[i],
        {
            for col in 0..self.width
                invariant
                    *self == *old(self),
                    self.wf(),
                    row < self.height,
                    next@.len() == self.cells@.len(),
                    forall|i: int|
                        0 <= i < row * self.width + col ==> next@[i]
                            == self@.next_generation().cells[i],
            {
                let idx = self.get_index(row, col);
                let cell = self.cells[idx];
                let live_neighbors = self.live_neighbor_count(row, col);
                proof {
                    lemma_index_inverse(self@, row as int, col as int);
                }
                next[idx] = match (cell, live_neighbors) {
                    (Cell::Alive, 2) | (Cell::Alive, 3) => Cell::Alive,
                    (Cell::Alive, _) => Cell::Dead,
                    (Cell::Dead, 3) => Cell::Alive,
                    (Cell::Dead, _) => Cell::Dead,
                };
            }
            assert(row * self.width + self.width == (row + 1) * self.width) by (nonlinear_arith);
        }
        assert(next@ =~= self@.next_generation().cells) by {
            assert(self.height * self.width == self.width * self.height) by (nonlinear_arith);
        }
        self.cells = next;
    }
}

} // verus!
