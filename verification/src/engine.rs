//! The grid engine: the `Universe` type that owns the cell array, its
//! read accessors, neighbor and neighborhood sampling, and the `tick`
//! state transition, each proved against the model in `model`.

use vstd::prelude::*;

use crate::cell::Cell;
use crate::model::{
    area_at, block_pattern, index_of, lemma_index_in_range, lemma_index_of_coords, live_neighbors,
    next_gen, oscillator_pattern, rule, scan_prefix, scan_step, wrap_dec, wrap_inc,
};

verus! {

/// The grid: fixed positive dimensions and a row-major cell array whose
/// length is exactly `width * height`. The topology is a torus: every
/// coordinate lookup wraps modulo the dimensions.
pub struct Universe {
    width: u32,
    height: u32,
    cells: Vec<Cell>,
}

/// One step up or left on the torus, never underflowing at coordinate 0.
fn wrap_back(x: u32, dim: u32) -> (r: u32)
    requires
        x < dim,
    ensures
        r == wrap_dec(x as int, dim as int),
        r < dim,
{
    if x == 0 {
        dim - 1
    } else {
        x - 1
    }
}

/// One step down or right on the torus, wrapping at the far edge.
fn wrap_forward(x: u32, dim: u32) -> (r: u32)
    requires
        x < dim,
    ensures
        r == wrap_inc(x as int, dim as int),
        r < dim,
{
    if x + 1 == dim {
        0
    } else {
        x + 1
    }
}

/// The classical rule outcome for one cell with the given live-neighbor
/// count, evaluated exactly as the model's `rule`.
pub fn next_cell_state(cell: Cell, neighbors: u8) -> (r: Cell)
    ensures
        r == rule(cell, neighbors as nat),
{
    match cell {
        Cell::Alive => if neighbors < 2 {
            Cell::Dead
        } else if neighbors <= 3 {
            Cell::Alive
        } else {
            Cell::Dead
        },
        Cell::Dead => if neighbors == 3 {
            Cell::Alive
        } else {
            Cell::Dead
        },
    }
}

/// True exactly when a 3x3 sample equals the block pattern.
fn is_block(area: &Vec<Cell>) -> (b: bool)
    requires
        area@.len() == 9,
    ensures
        b == (area@ == block_pattern()),
{
    let b = area[0] == Cell::Alive && area[1] == Cell::Alive && area[2] == Cell::Dead && area[3]
        == Cell::Alive && area[4] == Cell::Alive && area[5] == Cell::Dead && area[6] == Cell::Dead
        && area[7] == Cell::Dead && area[8] == Cell::Dead;
    proof {
        if b {
            assert(area@ =~= block_pattern());
        }
    }
    b
}

/// True exactly when a 3x3 sample equals the oscillator pattern.
fn is_oscillator(area: &Vec<Cell>) -> (b: bool)
    requires
        area@.len() == 9,
    ensures
        b == (area@ == oscillator_pattern()),
{
    let b = area[0] == Cell::Dead && area[1] == Cell::Alive && area[2] == Cell::Dead && area[3]
        == Cell::Dead && area[4] == Cell::Alive && area[5] == Cell::Dead && area[6] == Cell::Dead
        && area[7] == Cell::Alive && area[8] == Cell::Dead;
    proof {
        if b {
            assert(area@ =~= oscillator_pattern());
        }
    }
    b
}

impl Universe {
    /// The dimensions are positive and the cell array covers the grid
    /// exactly: this holds of every `Universe` at all times.
    #[verifier::type_invariant]
    spec fn wf(self) -> bool {
        &&& self.width >= 1
        &&& self.height >= 1
        &&& self.cells@.len() == self.width * self.height
    }

    /// The grid's width, as the contracts see it.
    pub closed spec fn spec_width(self) -> u32 {
        self.width
    }

    /// The grid's height, as the contracts see it.
    pub closed spec fn spec_height(self) -> u32 {
        self.height
    }

    /// The current generation, as the contracts see it: a row-major
    /// sequence of cells.
    pub closed spec fn spec_cells(self) -> Seq<Cell> {
        self.cells@
    }

    /// The grid's width in cells.
    pub fn width(&self) -> (w: u32)
        ensures
            w == self.spec_width(),
            w >= 1,
    {
        proof {
            use_type_invariant(&*self);
        }
        self.width
    }

    /// The grid's height in cells.
    pub fn height(&self) -> (h: u32)
        ensures
            h == self.spec_height(),
            h >= 1,
    {
        proof {
            use_type_invariant(&*self);
        }
        self.height
    }

    /// A read-only view of the current generation, row-major: the cell at
    /// `(row, col)` sits at index `row * width + col`.
    pub fn cells(&self) -> (cells: &Vec<Cell>)
        ensures
            cells@ == self.spec_cells(),
            cells@.len() == self.spec_width() * self.spec_height(),
    {
        proof {
            use_type_invariant(&*self);
        }
        &self.cells
    }

    /// Builds a grid from explicit contents whose length matches the
    /// dimensions.
    pub fn from_cells(width: u32, height: u32, cells: Vec<Cell>) -> (u: Universe)
        requires
            width >= 1,
            height >= 1,
            cells@.len() == width * height,
        ensures
            u.spec_width() == width,
            u.spec_height() == height,
            u.spec_cells() == cells@,
    {
        Universe { width, height, cells }
    }

    /// Builds the fixed 64x64 grid; `live[i]` decides whether the cell at
    /// row-major index `i` starts alive. The caller supplies the seeding
    /// decisions, one independent draw per cell.
    pub fn new(live: Vec<bool>) -> (u: Universe)
        requires
            live@.len() == 4096,
        ensures
            u.spec_width() == 64,
            u.spec_height() == 64,
            u.spec_cells().len() == 4096,
            forall|i: int|
                0 <= i < 4096 ==> u.spec_cells()[i] == (if live@[i] {
                    Cell::Alive
                } else {
                    Cell::Dead
                }),
    {
        let mut cells: Vec<Cell> = Vec::new();
        let mut k: usize = 0;
        while k < 4096
            invariant
                live@.len() == 4096,
                k <= 4096,
                cells@.len() == k,
                forall|i: int|
                    0 <= i < k ==> cells@[i] == (if live@[i] {
                        Cell::Alive
                    } else {
                        Cell::Dead
                    }),
            decreases 4096 - k,
        {
            if live[k] {
                cells.push(Cell::Alive);
            } else {
                cells.push(Cell::Dead);
            }
            k += 1;
        }
        Universe { width: 64, height: 64, cells }
    }

    /// Linear index of the cell at `(row, column)`.
    fn get_index(&self, row: u32, column: u32) -> (i: usize)
        requires
            row < self.spec_height(),
            column < self.spec_width(),
        ensures
            i == index_of(self.spec_width() as int, row as int, column as int),
            i < self.spec_cells().len(),
    {
        proof {
            use_type_invariant(&*self);
            assert(row * self.width + column < self.width * self.height) by (nonlinear_arith)
                requires
                    row < self.height,
                    column < self.width,
            ;
        }
        // the array length bounds the index, so the arithmetic fits in usize
        let n: usize = self.cells.len();
        let i: usize = (row as usize) * (self.width as usize) + (column as usize);
        proof {
            assert(i < n);
        }
        i
    }

    /// Counts the live cells among the eight toroidal neighbors of
    /// `(row, column)`, the cell itself excluded.
    pub fn live_neighbor_count(&self, row: u32, column: u32) -> (count: u8)
        requires
            row < self.spec_height(),
            column < self.spec_width(),
        ensures
            count == live_neighbors(
                self.spec_cells(),
                self.spec_width() as int,
                self.spec_height() as int,
                row as int,
                column as int,
            ),
            count <= 8,
    {
        proof {
            use_type_invariant(&*self);
        }
        let up = wrap_back(row, self.height);
        let down = wrap_forward(row, self.height);
        let left = wrap_back(column, self.width);
        let right = wrap_forward(column, self.width);
        let mut count: u8 = 0;
        count += self.cells[self.get_index(up, left)].live_value();
        count += self.cells[self.get_index(up, column)].live_value();
        count += self.cells[self.get_index(up, right)].live_value();
        count += self.cells[self.get_index(row, left)].live_value();
        count += self.cells[self.get_index(row, right)].live_value();
        count += self.cells[self.get_index(down, left)].live_value();
        count += self.cells[self.get_index(down, column)].live_value();
        count += self.cells[self.get_index(down, right)].live_value();
        count
    }

    /// Advances the whole grid by one generation. Every cell is judged
    /// against a stable snapshot of the current generation: the rule and
    /// the overrides write only into a freshly allocated buffer, which
    /// replaces the cell array at the end.
    pub fn tick(&mut self)
        ensures
            final(self).spec_width() == old(self).spec_width(),
            final(self).spec_height() == old(self).spec_height(),
            final(self).spec_cells() == next_gen(
                old(self).spec_cells(),
                old(self).spec_width() as int,
                old(self).spec_height() as int,
            ),
            final(self).spec_cells().len() == old(self).spec_cells().len(),
    {
        proof {
            use_type_invariant(&*self);
        }
        let ghost cur: Seq<Cell> = self.cells@;
        let w = self.width;
        let h = self.height;

        // The next generation starts as a copy of the current one.
        let n = self.cells.len();
        let mut next: Vec<Cell> = Vec::new();
        let mut k: usize = 0;
        while k < n
            invariant
                n == cur.len(),
                k <= n,
                self.spec_cells() == cur,
                next@ == cur.subrange(0, k as int),
            decreases n - k,
        {
            next.push(self.cells[k]);
            proof {
                assert(next@ =~= cur.subrange(0, k as int + 1));
            }
            k += 1;
        }
        proof {
            assert(next@ =~= cur);
            assert(next@ == scan_prefix(cur, w as int, h as int, 0));
        }

        let mut row: u32 = 0;
        while row < h
            invariant
                w == self.spec_width(),
                h == self.spec_height(),
                self.spec_cells() == cur,
                cur.len() == w * h,
                row <= h,
                next@.len() == cur.len(),
                next@ == scan_prefix(cur, w as int, h as int, (row * w) as nat),
            decreases h - row,
        {
            let mut column: u32 = 0;
            while column < w
                invariant
                    w == self.spec_width(),
                    h == self.spec_height(),
                    self.spec_cells() == cur,
                    cur.len() == w * h,
                    row < h,
                    column <= w,
                    next@.len() == cur.len(),
                    next@ == scan_prefix(cur, w as int, h as int, (row * w + column) as nat),
                decreases w - column,
            {
                let ghost prev: Seq<Cell> = next@;
                let ghost i: int = index_of(w as int, row as int, column as int);
                proof {
                    lemma_index_in_range(w as int, h as int, row as int, column as int);
                    lemma_index_of_coords(w as int, h as int, row as int, column as int);
                }
                let id = self.get_index(row, column);
                let cell = self.cells[id];
                let neighbors = self.live_neighbor_count(row, column);
                let new_cell = next_cell_state(cell, neighbors);
                let area = self.get_area(row, column);
                if is_block(&area) {
                    let up = wrap_back(row, h);
                    let up2 = wrap_back(up, h);
                    let left = wrap_back(column, w);
                    next.set(id, Cell::Dead);
                    let id_up = self.get_index(up, column);
                    next.set(id_up, Cell::Dead);
                    let id_up2 = self.get_index(up2, left);
                    next.set(id_up2, Cell::Alive);
                } else if is_oscillator(&area) {
                    let up = wrap_back(row, h);
                    let id_up = self.get_index(up, column);
                    next.set(id_up, Cell::Alive);
                }
                next.set(id, new_cell);
                proof {
                    assert(next@ =~= scan_step(cur, prev, w as int, h as int, i));
                    assert(next@ == scan_prefix(cur, w as int, h as int, (i + 1) as nat));
                }
                column += 1;
            }
            proof {
                assert(row * w + w == (row + 1) * w) by (nonlinear_arith);
            }
            row += 1;
        }
        proof {
            assert(h as int * (w as int) == w as int * (h as int)) by (nonlinear_arith);
            assert(next@ == next_gen(cur, w as int, h as int));
        }
        self.cells = next;
    }

    /// Returns the nine cells of the 3x3 neighborhood centered on
    /// `(row, column)`, in row-major order, the center cell included, so
    /// that the sample can be compared against the pattern constants.
    pub fn get_area(&self, row: u32, column: u32) -> (area: Vec<Cell>)
        requires
            row < self.spec_height(),
            column < self.spec_width(),
        ensures
            area@ == area_at(
                self.spec_cells(),
                self.spec_width() as int,
                self.spec_height() as int,
                row as int,
                column as int,
            ),
            area@.len() == 9,
    {
        proof {
            use_type_invariant(&*self);
        }
        let up = wrap_back(row, self.height);
        let down = wrap_forward(row, self.height);
        let left = wrap_back(column, self.width);
        let right = wrap_forward(column, self.width);
        let mut area: Vec<Cell> = Vec::new();
        area.push(self.cells[self.get_index(up, left)]);
        area.push(self.cells[self.get_index(up, column)]);
        area.push(self.cells[self.get_index(up, right)]);
        area.push(self.cells[self.get_index(row, left)]);
        area.push(self.cells[self.get_index(row, column)]);
        area.push(self.cells[self.get_index(row, right)]);
        area.push(self.cells[self.get_index(down, left)]);
        area.push(self.cells[self.get_index(down, column)]);
        area.push(self.cells[self.get_index(down, right)]);
        proof {
            assert(area@ =~= area_at(
                self.spec_cells(),
                self.spec_width() as int,
                self.spec_height() as int,
                row as int,
                column as int,
            ));
        }
        area
    }
}

} // verus!
