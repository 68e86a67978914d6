//! Grid-wide facts proved of the model: length preservation and toroidal
//! neighbor counting, with the behavior of whole generations following in
//! further lemmas.

use vstd::prelude::*;

use crate::cell::Cell;
use crate::model::{
    all_dead, area_at, block_pattern, index_of, lemma_coords_of_index, lemma_index_in_range,
    lemma_index_of_coords, lemma_scan_prefix_len, live_neighbors, next_gen, no_override_fires,
    oscillator_pattern, rule, rule_at, scan_prefix, wrap_dec, wrap_inc,
};

verus! {

/// A generation step never changes the size of the grid: the next
/// generation has exactly `width * height` cells, as the current one does.
pub proof fn lemma_next_gen_len(cells: Seq<Cell>, width: int, height: int)
    requires
        width >= 1,
        height >= 1,
        cells.len() == width * height,
    ensures
        next_gen(cells, width, height).len() == cells.len(),
{
    lemma_scan_prefix_len(cells, width, height, (width * height) as nat);
}

/// Neighbor counting is toroidal: the cell at `(0, 0)` counts the cells at
/// `(height - 1, 0)` and `(0, width - 1)` among its neighbors, so when both
/// are alive its count is at least 2.
pub proof fn lemma_toroidal_neighbors(cells: Seq<Cell>, width: int, height: int)
    requires
        width >= 2,
        height >= 2,
        cells.len() == width * height,
        cells[index_of(width, height - 1, 0)] == Cell::Alive,
        cells[index_of(width, 0, width - 1)] == Cell::Alive,
    ensures
        live_neighbors(cells, width, height, 0, 0) >= 2,
{
    let a = area_at(cells, width, height, 0, 0);
    assert(a[1] == cells[index_of(width, height - 1, 0)]);
    assert(a[3] == cells[index_of(width, 0, width - 1)]);
}

/// While no override fires, the scan writes exactly the rule outcome at
/// each processed cell and leaves the rest of the buffer untouched.
proof fn lemma_scan_prefix_no_override(cells: Seq<Cell>, width: int, height: int, k: nat)
    requires
        width >= 1,
        height >= 1,
        cells.len() == width * height,
        k <= width * height,
        no_override_fires(cells, width, height),
    ensures
        scan_prefix(cells, width, height, k).len() == cells.len(),
        forall|j: int|
            0 <= j < k ==> scan_prefix(cells, width, height, k)[j] == rule(
                cells[j],
                live_neighbors(cells, width, height, j / width, j % width),
            ),
        forall|j: int|
            k <= j < cells.len() ==> scan_prefix(cells, width, height, k)[j] == cells[j],
    decreases k,
{
    if k > 0 {
        lemma_scan_prefix_no_override(cells, width, height, (k - 1) as nat);
        let i = k - 1;
        lemma_coords_of_index(width, height, i);
        let row = i / width;
        let col = i % width;
        assert(area_at(cells, width, height, row, col) != block_pattern() && area_at(
            cells,
            width,
            height,
            row,
            col,
        ) != oscillator_pattern());
    }
}

/// Standard rule, with no pattern override active anywhere on the grid:
/// every cell of the next generation is exactly the classical rule outcome
/// for its current state and live-neighbor count.
pub proof fn lemma_standard_rule(cells: Seq<Cell>, width: int, height: int)
    requires
        width >= 1,
        height >= 1,
        cells.len() == width * height,
        no_override_fires(cells, width, height),
    ensures
        next_gen(cells, width, height).len() == cells.len(),
        forall|j: int|
            0 <= j < cells.len() ==> next_gen(cells, width, height)[j] == rule(
                cells[j],
                live_neighbors(cells, width, height, j / width, j % width),
            ),
{
    lemma_scan_prefix_no_override(cells, width, height, (width * height) as nat);
}

/// On an all-dead grid every 3x3 sample is dead at its center, so neither
/// override pattern (both centered on a live cell) can match.
proof fn lemma_dead_grid_no_override(cells: Seq<Cell>, width: int, height: int)
    requires
        width >= 1,
        height >= 1,
        cells.len() == width * height,
        all_dead(cells),
    ensures
        no_override_fires(cells, width, height),
{
    assert forall|r: int, c: int| 0 <= r < height && 0 <= c < width implies #[trigger] area_at(
        cells,
        width,
        height,
        r,
        c,
    ) != block_pattern() && area_at(cells, width, height, r, c) != oscillator_pattern() by {
        lemma_index_in_range(width, height, r, c);
        assert(area_at(cells, width, height, r, c)[4] == cells[index_of(width, r, c)]);
        assert(block_pattern()[4] == Cell::Alive);
        assert(oscillator_pattern()[4] == Cell::Alive);
    }
}

/// On an all-dead grid every cell has zero live neighbors.
proof fn lemma_dead_grid_no_neighbors(cells: Seq<Cell>, width: int, height: int, r: int, c: int)
    requires
        width >= 1,
        height >= 1,
        cells.len() == width * height,
        all_dead(cells),
        0 <= r < height,
        0 <= c < width,
    ensures
        live_neighbors(cells, width, height, r, c) == 0,
{
    let up = wrap_dec(r, height);
    let down = wrap_inc(r, height);
    let left = wrap_dec(c, width);
    let right = wrap_inc(c, width);
    lemma_index_in_range(width, height, up, left);
    lemma_index_in_range(width, height, up, c);
    lemma_index_in_range(width, height, up, right);
    lemma_index_in_range(width, height, r, left);
    lemma_index_in_range(width, height, r, right);
    lemma_index_in_range(width, height, down, left);
    lemma_index_in_range(width, height, down, c);
    lemma_index_in_range(width, height, down, right);
}

/// Idempotence under no-op: a grid with no live cell at all stays all-dead
/// after a generation step, and so after any number of them.
pub proof fn lemma_dead_grid_stays_dead(cells: Seq<Cell>, width: int, height: int)
    requires
        width >= 1,
        height >= 1,
        cells.len() == width * height,
        all_dead(cells),
    ensures
        next_gen(cells, width, height).len() == cells.len(),
        all_dead(next_gen(cells, width, height)),
{
    lemma_dead_grid_no_override(cells, width, height);
    lemma_standard_rule(cells, width, height);
    let g = next_gen(cells, width, height);
    assert forall|j: int| 0 <= j < g.len() implies g[j] == Cell::Dead by {
        lemma_coords_of_index(width, height, j);
        lemma_dead_grid_no_neighbors(cells, width, height, j / width, j % width);
        assert(g[j] == rule(cells[j], 0));
    }
}

/// While exactly one sample — the block whose bottom-right corner sits at
/// `(br, bc)` — fires during the scan, and both of its foreign targets
/// precede the firing cell in scan order, the buffer holds the rule
/// outcome at every processed cell except the two targets, which the
/// override owns once the scan has passed `(br, bc)`.
proof fn lemma_scan_single_block(
    cells: Seq<Cell>,
    width: int,
    height: int,
    br: int,
    bc: int,
    i0: int,
    t1: int,
    t2: int,
    k: nat,
)
    requires
        width >= 1,
        height >= 1,
        cells.len() == width * height,
        0 <= br < height,
        0 <= bc < width,
        area_at(cells, width, height, br, bc) == block_pattern(),
        forall|r: int, c: int|
            0 <= r < height && 0 <= c < width && !(r == br && c == bc) ==> #[trigger] area_at(
                cells,
                width,
                height,
                r,
                c,
            ) != block_pattern() && area_at(cells, width, height, r, c) != oscillator_pattern(),
        i0 == index_of(width, br, bc),
        t1 == index_of(width, wrap_dec(br, height), bc),
        t2 == index_of(width, wrap_dec(wrap_dec(br, height), height), wrap_dec(bc, width)),
        0 <= t1 < i0,
        0 <= t2 < i0,
        t1 != t2,
        k <= width * height,
    ensures
        scan_prefix(cells, width, height, k).len() == cells.len(),
        forall|j: int|
            0 <= j < cells.len() && j != t1 && j != t2 ==> scan_prefix(cells, width, height, k)[j]
                == (if j < k {
                rule_at(cells, width, height, j)
            } else {
                cells[j]
            }),
        scan_prefix(cells, width, height, k)[t1] == (if k > i0 {
            Cell::Dead
        } else if k > t1 {
            rule_at(cells, width, height, t1)
        } else {
            cells[t1]
        }),
        scan_prefix(cells, width, height, k)[t2] == (if k > i0 {
            Cell::Alive
        } else if k > t2 {
            rule_at(cells, width, height, t2)
        } else {
            cells[t2]
        }),
    decreases k,
{
    lemma_index_in_range(width, height, br, bc);
    if k > 0 {
        lemma_scan_single_block(cells, width, height, br, bc, i0, t1, t2, (k - 1) as nat);
        let i = k - 1;
        lemma_coords_of_index(width, height, i);
        let row = i / width;
        let col = i % width;
        lemma_index_in_range(width, height, row, col);
        lemma_index_of_coords(width, height, br, bc);
        let p = scan_prefix(cells, width, height, (k - 1) as nat);
        if i == i0 {
            assert(row == br && col == bc);
            lemma_index_in_range(width, height, wrap_dec(br, height), bc);
            lemma_index_in_range(
                width,
                height,
                wrap_dec(wrap_dec(br, height), height),
                wrap_dec(bc, width),
            );
            assert(scan_prefix(cells, width, height, k) == p.update(i0, Cell::Dead).update(
                t1,
                Cell::Dead,
            ).update(t2, Cell::Alive).update(i0, rule_at(cells, width, height, i0)));
        } else {
            assert(!(row == br && col == bc));
            assert(area_at(cells, width, height, row, col) != block_pattern() && area_at(
                cells,
                width,
                height,
                row,
                col,
            ) != oscillator_pattern());
            assert(scan_prefix(cells, width, height, k) == p.update(
                i,
                rule_at(cells, width, height, i),
            ));
        }
    }
}

/// The state of each cell on a grid whose only live cells form the 2x2
/// block with bottom-right corner `(br, bc)`: alive exactly on the four
/// block coordinates.
proof fn lemma_block_cell_state(
    cells: Seq<Cell>,
    width: int,
    height: int,
    br: int,
    bc: int,
    r: int,
    c: int,
)
    requires
        width >= 2,
        height >= 2,
        cells.len() == width * height,
        1 <= br < height,
        0 <= bc < width,
        forall|i: int|
            0 <= i < cells.len() ==> ((#[trigger] cells[i]) == Cell::Alive <==> (i == index_of(
                width,
                br - 1,
                wrap_dec(bc, width),
            ) || i == index_of(width, br - 1, bc) || i == index_of(width, br, wrap_dec(bc, width))
                || i == index_of(width, br, bc))),
        0 <= r < height,
        0 <= c < width,
    ensures
        cells[index_of(width, r, c)] == (if (r == br - 1 || r == br) && (c == wrap_dec(bc, width)
            || c == bc) {
            Cell::Alive
        } else {
            Cell::Dead
        }),
{
    let left = wrap_dec(bc, width);
    lemma_index_in_range(width, height, r, c);
    lemma_index_of_coords(width, height, r, c);
    lemma_index_of_coords(width, height, br - 1, left);
    lemma_index_of_coords(width, height, br - 1, bc);
    lemma_index_of_coords(width, height, br, left);
    lemma_index_of_coords(width, height, br, bc);
}

/// Block override: on a grid whose only live cells form a 2x2 block whose
/// bottom-right corner `(br, bc)` sits at least two rows below the top
/// edge, one tick kills the cell above the bottom-right corner and revives
/// the cell two rows above and one column left of the corner; every other
/// cell — the corner itself included, where the rule outcome takes
/// precedence over the override's write — follows the classical rule.
pub proof fn lemma_block_override(cells: Seq<Cell>, width: int, height: int, br: int, bc: int)
    requires
        width >= 5,
        height >= 5,
        cells.len() == width * height,
        2 <= br < height,
        0 <= bc < width,
        forall|i: int|
            0 <= i < cells.len() ==> ((#[trigger] cells[i]) == Cell::Alive <==> (i == index_of(
                width,
                br - 1,
                wrap_dec(bc, width),
            ) || i == index_of(width, br - 1, bc) || i == index_of(width, br, wrap_dec(bc, width))
                || i == index_of(width, br, bc))),
    ensures
        next_gen(cells, width, height).len() == cells.len(),
        next_gen(cells, width, height)[index_of(width, br - 1, bc)] == Cell::Dead,
        next_gen(cells, width, height)[index_of(width, br - 2, wrap_dec(bc, width))]
            == Cell::Alive,
        forall|j: int|
            0 <= j < cells.len() && j != index_of(width, br - 1, bc) && j != index_of(
                width,
                br - 2,
                wrap_dec(bc, width),
            ) ==> next_gen(cells, width, height)[j] == rule_at(cells, width, height, j),
{
    let len = width * height;
    let left = wrap_dec(bc, width);
    let i0 = index_of(width, br, bc);
    let t1 = index_of(width, br - 1, bc);
    let t2 = index_of(width, br - 2, left);
    assert(wrap_dec(br, height) == br - 1);
    assert(wrap_dec(br - 1, height) == br - 2);
    lemma_index_in_range(width, height, br, bc);
    lemma_index_in_range(width, height, br - 1, bc);
    lemma_index_in_range(width, height, br - 2, left);
    lemma_index_of_coords(width, height, br, bc);
    lemma_index_of_coords(width, height, br - 1, bc);
    lemma_index_of_coords(width, height, br - 2, left);
    assert(t1 < i0 && t2 < i0) by (nonlinear_arith)
        requires
            width >= 1,
            0 <= bc < width,
            0 <= left < width,
            2 <= br,
            i0 == br * width + bc,
            t1 == (br - 1) * width + bc,
            t2 == (br - 2) * width + left,
    ;

    // the sample at the bottom-right corner is exactly the block pattern
    let down = wrap_inc(br, height);
    let right = wrap_inc(bc, width);
    lemma_block_cell_state(cells, width, height, br, bc, br - 1, left);
    lemma_block_cell_state(cells, width, height, br, bc, br - 1, bc);
    lemma_block_cell_state(cells, width, height, br, bc, br - 1, right);
    lemma_block_cell_state(cells, width, height, br, bc, br, left);
    lemma_block_cell_state(cells, width, height, br, bc, br, bc);
    lemma_block_cell_state(cells, width, height, br, bc, br, right);
    lemma_block_cell_state(cells, width, height, br, bc, down, left);
    lemma_block_cell_state(cells, width, height, br, bc, down, bc);
    lemma_block_cell_state(cells, width, height, br, bc, down, right);
    assert(area_at(cells, width, height, br, bc) =~= block_pattern());

    // no other sample matches either pattern
    assert forall|r: int, c: int|
        0 <= r < height && 0 <= c < width && !(r == br && c == bc) implies #[trigger] area_at(
        cells,
        width,
        height,
        r,
        c,
    ) != block_pattern() && area_at(cells, width, height, r, c) != oscillator_pattern() by {
        let a = area_at(cells, width, height, r, c);
        let up = wrap_dec(r, height);
        let dn = wrap_inc(r, height);
        let lf = wrap_dec(c, width);
        lemma_block_cell_state(cells, width, height, br, bc, r, c);
        assert(a[4] == cells[index_of(width, r, c)]);
        if cells[index_of(width, r, c)] == Cell::Dead {
            assert(block_pattern()[4] == Cell::Alive);
            assert(oscillator_pattern()[4] == Cell::Alive);
        } else if r == br - 1 {
            // top row of the block: the cell straight above lies outside it
            lemma_block_cell_state(cells, width, height, br, bc, up, c);
            assert(a[1] == cells[index_of(width, up, c)]);
            assert(block_pattern()[1] == Cell::Alive);
            assert(oscillator_pattern()[1] == Cell::Alive);
        } else {
            // the bottom-left corner: above-left and below are both dead
            lemma_block_cell_state(cells, width, height, br, bc, up, lf);
            assert(a[0] == cells[index_of(width, up, lf)]);
            assert(block_pattern()[0] == Cell::Alive);
            lemma_block_cell_state(cells, width, height, br, bc, dn, c);
            assert(a[7] == cells[index_of(width, dn, c)]);
            assert(oscillator_pattern()[7] == Cell::Alive);
        }
    }

    lemma_scan_single_block(cells, width, height, br, bc, i0, t1, t2, len as nat);
}

/// While exactly one sample — the vertical line centered at `(lr, lc)` —
/// fires during the scan, and its single foreign target precedes the
/// firing cell in scan order, the buffer holds the rule outcome at every
/// processed cell except the target, which the override owns once the scan
/// has passed `(lr, lc)`.
proof fn lemma_scan_single_oscillator(
    cells: Seq<Cell>,
    width: int,
    height: int,
    lr: int,
    lc: int,
    i0: int,
    t: int,
    k: nat,
)
    requires
        width >= 1,
        height >= 1,
        cells.len() == width * height,
        0 <= lr < height,
        0 <= lc < width,
        area_at(cells, width, height, lr, lc) == oscillator_pattern(),
        forall|r: int, c: int|
            0 <= r < height && 0 <= c < width && !(r == lr && c == lc) ==> #[trigger] area_at(
                cells,
                width,
                height,
                r,
                c,
            ) != block_pattern() && area_at(cells, width, height, r, c) != oscillator_pattern(),
        i0 == index_of(width, lr, lc),
        t == index_of(width, wrap_dec(lr, height), lc),
        0 <= t < i0,
        k <= width * height,
    ensures
        scan_prefix(cells, width, height, k).len() == cells.len(),
        forall|j: int|
            0 <= j < cells.len() && j != t ==> scan_prefix(cells, width, height, k)[j] == (if j
                < k {
                rule_at(cells, width, height, j)
            } else {
                cells[j]
            }),
        scan_prefix(cells, width, height, k)[t] == (if k > i0 {
            Cell::Alive
        } else if k > t {
            rule_at(cells, width, height, t)
        } else {
            cells[t]
        }),
    decreases k,
{
    lemma_index_in_range(width, height, lr, lc);
    if k > 0 {
        lemma_scan_single_oscillator(cells, width, height, lr, lc, i0, t, (k - 1) as nat);
        let i = k - 1;
        lemma_coords_of_index(width, height, i);
        let row = i / width;
        let col = i % width;
        lemma_index_in_range(width, height, row, col);
        lemma_index_of_coords(width, height, lr, lc);
        let p = scan_prefix(cells, width, height, (k - 1) as nat);
        if i == i0 {
            assert(row == lr && col == lc);
            // the two patterns differ, so the block branch is not taken
            assert(block_pattern()[0] == Cell::Alive);
            assert(oscillator_pattern()[0] == Cell::Dead);
            lemma_index_in_range(width, height, wrap_dec(lr, height), lc);
            assert(scan_prefix(cells, width, height, k) == p.update(t, Cell::Alive).update(
                i0,
                rule_at(cells, width, height, i0),
            ));
        } else {
            assert(!(row == lr && col == lc));
            assert(area_at(cells, width, height, row, col) != block_pattern() && area_at(
                cells,
                width,
                height,
                row,
                col,
            ) != oscillator_pattern());
            assert(scan_prefix(cells, width, height, k) == p.update(
                i,
                rule_at(cells, width, height, i),
            ));
        }
    }
}

/// The state of each cell on a grid whose only live cells form the
/// vertical 3-cell line centered at `(lr, lc)`: alive exactly on the three
/// line coordinates.
proof fn lemma_line_cell_state(
    cells: Seq<Cell>,
    width: int,
    height: int,
    lr: int,
    lc: int,
    r: int,
    c: int,
)
    requires
        width >= 1,
        height >= 3,
        cells.len() == width * height,
        1 <= lr,
        lr + 1 < height,
        0 <= lc < width,
        forall|i: int|
            0 <= i < cells.len() ==> ((#[trigger] cells[i]) == Cell::Alive <==> (i == index_of(
                width,
                lr - 1,
                lc,
            ) || i == index_of(width, lr, lc) || i == index_of(width, lr + 1, lc))),
        0 <= r < height,
        0 <= c < width,
    ensures
        cells[index_of(width, r, c)] == (if c == lc && (r == lr - 1 || r == lr || r == lr + 1) {
            Cell::Alive
        } else {
            Cell::Dead
        }),
{
    lemma_index_in_range(width, height, r, c);
    lemma_index_of_coords(width, height, r, c);
    lemma_index_of_coords(width, height, lr - 1, lc);
    lemma_index_of_coords(width, height, lr, lc);
    lemma_index_of_coords(width, height, lr + 1, lc);
}

/// Oscillator override: on a grid whose only live cells form a vertical
/// 3-cell line centered at `(lr, lc)`, clear of the top and bottom edges,
/// one tick revives the cell directly above the line's center — the line's
/// top cell, which the classical rule alone would kill — and every other
/// cell follows the classical rule.
pub proof fn lemma_oscillator_override(cells: Seq<Cell>, width: int, height: int, lr: int, lc: int)
    requires
        width >= 5,
        height >= 5,
        cells.len() == width * height,
        1 <= lr,
        lr + 1 < height,
        0 <= lc < width,
        forall|i: int|
            0 <= i < cells.len() ==> ((#[trigger] cells[i]) == Cell::Alive <==> (i == index_of(
                width,
                lr - 1,
                lc,
            ) || i == index_of(width, lr, lc) || i == index_of(width, lr + 1, lc))),
    ensures
        next_gen(cells, width, height).len() == cells.len(),
        next_gen(cells, width, height)[index_of(width, lr - 1, lc)] == Cell::Alive,
        forall|j: int|
            0 <= j < cells.len() && j != index_of(width, lr - 1, lc) ==> next_gen(
                cells,
                width,
                height,
            )[j] == rule_at(cells, width, height, j),
{
    let len = width * height;
    let i0 = index_of(width, lr, lc);
    let t = index_of(width, lr - 1, lc);
    assert(wrap_dec(lr, height) == lr - 1);
    lemma_index_in_range(width, height, lr, lc);
    lemma_index_in_range(width, height, lr - 1, lc);
    lemma_index_of_coords(width, height, lr, lc);
    lemma_index_of_coords(width, height, lr - 1, lc);
    assert(t < i0) by (nonlinear_arith)
        requires
            width >= 1,
            0 <= lc < width,
            1 <= lr,
            i0 == lr * width + lc,
            t == (lr - 1) * width + lc,
    ;

    // the sample at the line's center is exactly the oscillator pattern
    let up = lr - 1;
    let down = wrap_inc(lr, height);
    let left = wrap_dec(lc, width);
    let right = wrap_inc(lc, width);
    assert(down == lr + 1);
    lemma_line_cell_state(cells, width, height, lr, lc, up, left);
    lemma_line_cell_state(cells, width, height, lr, lc, up, lc);
    lemma_line_cell_state(cells, width, height, lr, lc, up, right);
    lemma_line_cell_state(cells, width, height, lr, lc, lr, left);
    lemma_line_cell_state(cells, width, height, lr, lc, lr, lc);
    lemma_line_cell_state(cells, width, height, lr, lc, lr, right);
    lemma_line_cell_state(cells, width, height, lr, lc, down, left);
    lemma_line_cell_state(cells, width, height, lr, lc, down, lc);
    lemma_line_cell_state(cells, width, height, lr, lc, down, right);
    assert(area_at(cells, width, height, lr, lc) =~= oscillator_pattern());

    // no other sample matches either pattern
    assert forall|r: int, c: int|
        0 <= r < height && 0 <= c < width && !(r == lr && c == lc) implies #[trigger] area_at(
        cells,
        width,
        height,
        r,
        c,
    ) != block_pattern() && area_at(cells, width, height, r, c) != oscillator_pattern() by {
        let a = area_at(cells, width, height, r, c);
        let u = wrap_dec(r, height);
        let d = wrap_inc(r, height);
        let lf = wrap_dec(c, width);
        lemma_line_cell_state(cells, width, height, lr, lc, r, c);
        assert(a[4] == cells[index_of(width, r, c)]);
        if cells[index_of(width, r, c)] == Cell::Dead {
            assert(block_pattern()[4] == Cell::Alive);
            assert(oscillator_pattern()[4] == Cell::Alive);
        } else if r == lr - 1 {
            // the line's top cell: the cell straight above lies off the line
            lemma_line_cell_state(cells, width, height, lr, lc, u, c);
            assert(a[1] == cells[index_of(width, u, c)]);
            assert(block_pattern()[1] == Cell::Alive);
            assert(oscillator_pattern()[1] == Cell::Alive);
        } else {
            // the line's bottom cell: above-left and below are both dead
            lemma_line_cell_state(cells, width, height, lr, lc, u, lf);
            assert(a[0] == cells[index_of(width, u, lf)]);
            assert(block_pattern()[0] == Cell::Alive);
            lemma_line_cell_state(cells, width, height, lr, lc, d, c);
            assert(a[7] == cells[index_of(width, d, c)]);
            assert(oscillator_pattern()[7] == Cell::Alive);
        }
    }

    lemma_scan_single_oscillator(cells, width, height, lr, lc, i0, t, len as nat);
}

} // verus!
