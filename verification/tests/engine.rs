use simulator::next_cell_state;
use simulator::{Cell, Universe};

/// Builds a grid of the given dimensions whose live cells are exactly the
/// listed (row, column) coordinates.
fn grid(width: u32, height: u32, live: &[(u32, u32)]) -> Universe {
    let mut cells = vec![Cell::Dead; (width * height) as usize];
    for &(r, c) in live {
        cells[(r * width + c) as usize] = Cell::Alive;
    }
    Universe::from_cells(width, height, cells)
}

fn cell_at(u: &Universe, r: u32, c: u32) -> Cell {
    u.cells()[(r * u.width() + c) as usize]
}

/// Asserts that the live cells of `u` are exactly `expected`.
fn assert_live_exactly(u: &Universe, expected: &[(u32, u32)]) {
    for r in 0..u.height() {
        for c in 0..u.width() {
            let want = expected.iter().any(|&(er, ec)| er == r && ec == c);
            let got = cell_at(u, r, c) == Cell::Alive;
            assert_eq!(got, want, "cell ({r}, {c}): live={got}, expected live={want}");
        }
    }
}

#[test]
fn dimensions_are_fixed_and_cells_cover_the_grid() {
    let mut u = grid(7, 5, &[(0, 0), (4, 6)]);
    assert_eq!(u.width(), 7);
    assert_eq!(u.height(), 5);
    assert_eq!(u.cells().len(), 35);
    u.tick();
    assert_eq!(u.width(), 7);
    assert_eq!(u.height(), 5);
    assert_eq!(u.cells().len(), 35);
}

#[test]
fn construction_maps_seed_decisions_onto_the_64x64_grid() {
    let live: Vec<bool> = (0..4096).map(|i| i % 3 == 0).collect();
    let u = Universe::new(live);
    assert_eq!(u.width(), 64);
    assert_eq!(u.height(), 64);
    assert_eq!(u.cells().len(), 4096);
    for i in 0..4096usize {
        let want = if i % 3 == 0 { Cell::Alive } else { Cell::Dead };
        assert_eq!(u.cells()[i], want);
    }
}

#[test]
fn cell_values_sum_as_zero_and_one() {
    assert_eq!(Cell::Alive.live_value(), 1);
    assert_eq!(Cell::Dead.live_value(), 0);
}

#[test]
fn neighbor_count_is_toroidal_at_the_origin() {
    // a live cell at (0,0) counts (height-1, 0) and (0, width-1) as neighbors
    let u = grid(4, 4, &[(0, 0), (3, 0), (0, 3)]);
    assert_eq!(u.live_neighbor_count(0, 0), 2);
}

#[test]
fn neighbor_count_in_the_interior() {
    let u = grid(5, 5, &[(1, 1), (1, 2)]);
    assert_eq!(u.live_neighbor_count(2, 2), 2);
    assert_eq!(u.live_neighbor_count(1, 1), 1);
    assert_eq!(u.live_neighbor_count(3, 3), 0);
}

#[test]
fn neighbor_count_reaches_eight_and_wraps_on_a_tiny_torus() {
    let full3 = grid(
        3,
        3,
        &[
            (0, 0),
            (0, 1),
            (0, 2),
            (1, 0),
            (1, 1),
            (1, 2),
            (2, 0),
            (2, 1),
            (2, 2),
        ],
    );
    assert_eq!(full3.live_neighbor_count(1, 1), 8);
    // on a 2x2 torus every offset wraps onto a live cell
    let full2 = grid(2, 2, &[(0, 0), (0, 1), (1, 0), (1, 1)]);
    assert_eq!(full2.live_neighbor_count(0, 0), 8);
}

#[test]
fn area_is_sampled_in_row_major_order_with_wrapping() {
    let u = grid(4, 4, &[(0, 0), (0, 1), (1, 0), (1, 1)]);
    // at (1,1) the 2x2 block fills the top-left of the window
    let a = u.get_area(1, 1);
    let d = Cell::Dead;
    let l = Cell::Alive;
    assert_eq!(a, vec![l, l, d, l, l, d, d, d, d]);
    // at (0,0) the window wraps over the top and left edges
    let b = u.get_area(0, 0);
    assert_eq!(b, vec![d, d, d, d, l, l, d, l, l]);
}

#[test]
fn rule_table_is_exact() {
    for n in 0..=8u8 {
        let from_alive = next_cell_state(Cell::Alive, n);
        let from_dead = next_cell_state(Cell::Dead, n);
        if n == 2 || n == 3 {
            assert_eq!(from_alive, Cell::Alive);
        } else {
            assert_eq!(from_alive, Cell::Dead);
        }
        if n == 3 {
            assert_eq!(from_dead, Cell::Alive);
        } else {
            assert_eq!(from_dead, Cell::Dead);
        }
    }
}

#[test]
fn lone_cell_dies_of_underpopulation() {
    let mut u = grid(5, 5, &[(2, 2)]);
    u.tick();
    assert_live_exactly(&u, &[]);
}

#[test]
fn horizontal_blinker_follows_the_standard_rule() {
    // a horizontal line matches neither override pattern, so one tick
    // rotates it to a vertical line: survival at the center, birth above
    // and below, death at the ends
    let mut u = grid(5, 5, &[(2, 1), (2, 2), (2, 3)]);
    u.tick();
    assert_live_exactly(&u, &[(1, 2), (2, 2), (3, 2)]);
}

#[test]
fn overpopulated_center_of_a_plus_dies() {
    let mut u = grid(
        7,
        7,
        &[(2, 3), (3, 2), (3, 3), (3, 4), (4, 3)],
    );
    u.tick();
    // the center dies of overpopulation, the arms survive, the four
    // diagonal corners are born
    assert_live_exactly(
        &u,
        &[
            (2, 2),
            (2, 3),
            (2, 4),
            (3, 2),
            (3, 4),
            (4, 2),
            (4, 3),
            (4, 4),
        ],
    );
}

#[test]
fn block_override_turns_a_still_block_into_a_column_seed() {
    // isolated 2x2 block, bottom-right corner at (4,4)
    let mut u = grid(8, 8, &[(3, 3), (3, 4), (4, 3), (4, 4)]);
    u.tick();
    // the cell above the corner is killed, the cell two rows above and one
    // column left is revived; the corner itself keeps its rule outcome
    // (alive, three neighbors), as do the other two block cells
    assert_eq!(cell_at(&u, 3, 4), Cell::Dead);
    assert_eq!(cell_at(&u, 2, 3), Cell::Alive);
    assert_live_exactly(&u, &[(2, 3), (3, 3), (4, 3), (4, 4)]);
}

#[test]
fn block_override_wraps_across_the_left_edge() {
    // block occupying columns 7 and 0, bottom-right corner at (4,0)
    let mut u = grid(8, 8, &[(3, 7), (3, 0), (4, 7), (4, 0)]);
    u.tick();
    assert_live_exactly(&u, &[(2, 7), (3, 7), (4, 7), (4, 0)]);
}

#[test]
fn block_override_at_the_top_edge_loses_its_wrapped_revival() {
    // the corner sits at (1,4): the revived target (7,3) wraps below the
    // scan position, so the later rule write for (7,3) overrides it again
    let mut u = grid(8, 8, &[(0, 3), (0, 4), (1, 3), (1, 4)]);
    u.tick();
    assert_live_exactly(&u, &[(0, 3), (1, 3), (1, 4)]);
}

#[test]
fn oscillator_override_keeps_the_top_of_a_vertical_line_alive() {
    // isolated vertical 3-cell line centered at (3,3)
    let mut u = grid(8, 8, &[(2, 3), (3, 3), (4, 3)]);
    u.tick();
    // the standard rule alone would leave the horizontal line
    // (3,2)-(3,3)-(3,4); the override also revives (2,3), the cell
    // directly above the center
    assert_eq!(cell_at(&u, 2, 3), Cell::Alive);
    // the cell above the line's top cell is not touched
    assert_eq!(cell_at(&u, 1, 3), Cell::Dead);
    assert_live_exactly(&u, &[(2, 3), (3, 2), (3, 3), (3, 4)]);
}

#[test]
fn oscillator_override_then_standard_rule_fills_in() {
    let mut u = grid(8, 8, &[(2, 3), (3, 3), (4, 3)]);
    u.tick();
    u.tick();
    // the T-shaped result of the first tick fills in to a 2x3 block, with
    // one more birth below the old center
    assert_live_exactly(
        &u,
        &[(2, 2), (2, 3), (2, 4), (3, 2), (3, 3), (3, 4), (4, 3)],
    );
}

#[test]
fn all_dead_grid_stays_all_dead() {
    let mut u = grid(6, 6, &[]);
    for _ in 0..5 {
        u.tick();
        assert_live_exactly(&u, &[]);
    }
}
