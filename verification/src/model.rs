//! The mathematical model of the grid: a row-major `Seq<Cell>` together with
//! its dimensions, the toroidal coordinate arithmetic, the 3x3 neighborhood
//! sample, the transition rule, the two pattern overrides, and the
//! next-generation function that the executable `tick` refines.

use vstd::prelude::*;

use crate::cell::{cell_value, Cell};

verus! {

/// Row-major linear index of `(row, col)` on a grid `width` cells wide.
pub open spec fn index_of(width: int, row: int, col: int) -> int {
    row * width + col
}

/// One step up (or left), wrapped on the torus: the value of
/// `(x + dim - 1) % dim` for `0 <= x < dim`.
pub open spec fn wrap_dec(x: int, dim: int) -> int {
    if x == 0 {
        dim - 1
    } else {
        x - 1
    }
}

/// One step down (or right), wrapped on the torus: the value of
/// `(x + 1) % dim` for `0 <= x < dim`.
pub open spec fn wrap_inc(x: int, dim: int) -> int {
    if x == dim - 1 {
        0
    } else {
        x + 1
    }
}

/// The nine cells of the 3x3 neighborhood centered on `(row, col)`, in
/// row-major order (top-left first), the center cell included at position 4.
pub open spec fn area_at(cells: Seq<Cell>, width: int, height: int, row: int, col: int) -> Seq<
    Cell,
> {
    let up = wrap_dec(row, height);
    let down = wrap_inc(row, height);
    let left = wrap_dec(col, width);
    let right = wrap_inc(col, width);
    seq![
        cells[index_of(width, up, left)],
        cells[index_of(width, up, col)],
        cells[index_of(width, up, right)],
        cells[index_of(width, row, left)],
        cells[index_of(width, row, col)],
        cells[index_of(width, row, right)],
        cells[index_of(width, down, left)],
        cells[index_of(width, down, col)],
        cells[index_of(width, down, right)],
    ]
}

/// The number of live cells among the eight toroidal neighbors of
/// `(row, col)`, the cell itself excluded. Positions that coincide on a
/// small torus are counted once per offset, as the scan visits them.
pub open spec fn live_neighbors(
    cells: Seq<Cell>,
    width: int,
    height: int,
    row: int,
    col: int,
) -> nat {
    let a = area_at(cells, width, height, row, col);
    cell_value(a[0]) + cell_value(a[1]) + cell_value(a[2]) + cell_value(a[3]) + cell_value(a[5])
        + cell_value(a[6]) + cell_value(a[7]) + cell_value(a[8])
}

/// The 3x3 sample that marks the sampled cell as the bottom-right corner of
/// a 2x2 live block: the top-left four positions alive, all others dead.
pub open spec fn block_pattern() -> Seq<Cell> {
    seq![
        Cell::Alive,
        Cell::Alive,
        Cell::Dead,
        Cell::Alive,
        Cell::Alive,
        Cell::Dead,
        Cell::Dead,
        Cell::Dead,
        Cell::Dead,
    ]
}

/// The 3x3 sample that marks the sampled cell as the center of a vertical
/// 3-cell live line: the middle column alive, all others dead.
pub open spec fn oscillator_pattern() -> Seq<Cell> {
    seq![
        Cell::Dead,
        Cell::Alive,
        Cell::Dead,
        Cell::Dead,
        Cell::Alive,
        Cell::Dead,
        Cell::Dead,
        Cell::Alive,
        Cell::Dead,
    ]
}

/// The classical transition rule for one cell with `n` live neighbors:
/// a live cell survives exactly with 2 or 3 live neighbors, a dead cell is
/// born exactly with 3, and every other cell is dead next generation.
pub open spec fn rule(c: Cell, n: nat) -> Cell {
    match c {
        Cell::Alive => if n < 2 {
            Cell::Dead
        } else if n <= 3 {
            Cell::Alive
        } else {
            Cell::Dead
        },
        Cell::Dead => if n == 3 {
            Cell::Alive
        } else {
            Cell::Dead
        },
    }
}

/// The override writes that the 3x3 sample of the current generation at
/// `(row, col)` triggers on the next-generation buffer: a matched block
/// kills the sampled cell and the cell above it and revives the cell two
/// rows up and one column left; a matched vertical line revives the cell
/// directly above the sampled one. All targets are absolute, wrapped grid
/// coordinates.
pub open spec fn apply_overrides(
    cur: Seq<Cell>,
    next: Seq<Cell>,
    width: int,
    height: int,
    row: int,
    col: int,
) -> Seq<Cell> {
    let a = area_at(cur, width, height, row, col);
    if a == block_pattern() {
        let up = wrap_dec(row, height);
        let up2 = wrap_dec(up, height);
        let left = wrap_dec(col, width);
        next.update(index_of(width, row, col), Cell::Dead).update(
            index_of(width, up, col),
            Cell::Dead,
        ).update(index_of(width, up2, left), Cell::Alive)
    } else if a == oscillator_pattern() {
        next.update(index_of(width, wrap_dec(row, height), col), Cell::Alive)
    } else {
        next
    }
}

/// One step of the scan at linear index `i`: first the override writes that
/// the sample at `i` triggers, then the rule outcome for `i` itself, so the
/// rule always wins at the scanned cell's own coordinate.
pub open spec fn scan_step(
    cur: Seq<Cell>,
    next: Seq<Cell>,
    width: int,
    height: int,
    i: int,
) -> Seq<Cell> {
    let row = i / width;
    let col = i % width;
    apply_overrides(cur, next, width, height, row, col).update(
        i,
        rule(cur[i], live_neighbors(cur, width, height, row, col)),
    )
}

/// The next-generation buffer after the row-major scan has processed the
/// first `k` cells, starting from a copy of the current generation. Every
/// cell is judged against the unchanged current generation `cur`; only the
/// buffer accumulates writes.
pub open spec fn scan_prefix(cur: Seq<Cell>, width: int, height: int, k: nat) -> Seq<Cell>
    decreases k,
{
    if k == 0 {
        cur
    } else {
        scan_step(cur, scan_prefix(cur, width, height, (k - 1) as nat), width, height, k - 1)
    }
}

/// The whole next generation: every cell of the grid processed in row-major
/// order.
pub open spec fn next_gen(cur: Seq<Cell>, width: int, height: int) -> Seq<Cell> {
    scan_prefix(cur, width, height, (width * height) as nat)
}

/// The rule outcome for the cell at linear index `i`, judged on the
/// current generation.
pub open spec fn rule_at(cells: Seq<Cell>, width: int, height: int, i: int) -> Cell {
    rule(cells[i], live_neighbors(cells, width, height, i / width, i % width))
}

/// Every cell of the grid is dead.
pub open spec fn all_dead(cells: Seq<Cell>) -> bool {
    forall|i: int| 0 <= i < cells.len() ==> cells[i] == Cell::Dead
}

/// No 3x3 sample anywhere on the grid matches either override pattern.
pub open spec fn no_override_fires(cells: Seq<Cell>, width: int, height: int) -> bool {
    forall|r: int, c: int|
        0 <= r < height && 0 <= c < width ==> #[trigger] area_at(cells, width, height, r, c)
            != block_pattern() && area_at(cells, width, height, r, c) != oscillator_pattern()
}

/// A row-major index built from in-range coordinates lies in the grid.
pub proof fn lemma_index_in_range(width: int, height: int, row: int, col: int)
    requires
        width >= 1,
        height >= 1,
        0 <= row < height,
        0 <= col < width,
    ensures
        0 <= index_of(width, row, col) < width * height,
{
    assert(0 <= row * width + col < width * height) by (nonlinear_arith)
        requires
            width >= 1,
            height >= 1,
            0 <= row < height,
            0 <= col < width,
    ;
}

/// Decomposing a linear index into row and column inverts `index_of`.
pub proof fn lemma_coords_of_index(width: int, height: int, i: int)
    requires
        width >= 1,
        height >= 1,
        0 <= i < width * height,
    ensures
        0 <= i / width < height,
        0 <= i % width < width,
        index_of(width, i / width, i % width) == i,
{
    assert(0 <= i / width < height && 0 <= i % width < width && (i / width) * width + i % width
        == i) by (nonlinear_arith)
        requires
            width >= 1,
            height >= 1,
            0 <= i < width * height,
    ;
}

/// In-range coordinates are recovered from their own linear index.
pub proof fn lemma_index_of_coords(width: int, height: int, row: int, col: int)
    requires
        width >= 1,
        height >= 1,
        0 <= row < height,
        0 <= col < width,
    ensures
        index_of(width, row, col) / width == row,
        index_of(width, row, col) % width == col,
{
    assert((row * width + col) / width == row && (row * width + col) % width == col)
        by (nonlinear_arith)
        requires
            width >= 1,
            0 <= row,
            0 <= col < width,
    ;
}

/// Scanning preserves the length of the next-generation buffer.
pub proof fn lemma_scan_prefix_len(cur: Seq<Cell>, width: int, height: int, k: nat)
    requires
        width >= 1,
        height >= 1,
        cur.len() == width * height,
        k <= width * height,
    ensures
        scan_prefix(cur, width, height, k).len() == cur.len(),
    decreases k,
{
    if k > 0 {
        lemma_scan_prefix_len(cur, width, height, (k - 1) as nat);
        let i = k - 1;
        lemma_coords_of_index(width, height, i);
        let row = i / width;
        let col = i % width;
        lemma_index_in_range(width, height, row, col);
        lemma_index_in_range(width, height, wrap_dec(row, height), col);
        lemma_index_in_range(
            width,
            height,
            wrap_dec(wrap_dec(row, height), height),
            wrap_dec(col, width),
        );
    }
}

} // verus!
