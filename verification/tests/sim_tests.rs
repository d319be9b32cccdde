use cgol::cell::Cell;
use cgol::grid::Grid;
use cgol::sim::{apply_rule, step, tick};

fn grids_equal(a: &Grid, b: &Grid) -> bool {
    if a.size() != b.size() {
        return false;
    }
    let (w, h) = a.size();
    for y in 0..h {
        for x in 0..w {
            if a.get(x, y) != b.get(x, y) {
                return false;
            }
        }
    }
    true
}

#[test]
fn rule_on_alive_cells() {
    assert_eq!(apply_rule(Cell::Alive, 0), Cell::Dead);
    assert_eq!(apply_rule(Cell::Alive, 1), Cell::Dead);
    assert_eq!(apply_rule(Cell::Alive, 2), Cell::Alive);
    assert_eq!(apply_rule(Cell::Alive, 3), Cell::Alive);
    assert_eq!(apply_rule(Cell::Alive, 4), Cell::Dead);
    assert_eq!(apply_rule(Cell::Alive, 8), Cell::Dead);
}

#[test]
fn rule_on_dead_cells() {
    for n in 0..9 {
        let expected = if n == 3 { Cell::Alive } else { Cell::Dead };
        assert_eq!(apply_rule(Cell::Dead, n), expected);
    }
}

#[test]
fn empty_grid_stays_empty() {
    let g = Grid::new(6, 5);
    let next = step(&g);
    assert_eq!(next.size(), (6, 5));
    for y in 0..5 {
        for x in 0..6 {
            assert_eq!(next.get(x, y), Some(Cell::Dead));
        }
    }
}

#[test]
fn lone_cell_dies() {
    let mut g = Grid::new(3, 3);
    g.set(1, 1, Cell::Alive);
    let next = step(&g);
    for y in 0..3 {
        for x in 0..3 {
            assert_eq!(next.get(x, y), Some(Cell::Dead));
        }
    }
}

#[test]
fn three_neighbors_give_birth() {
    let mut g = Grid::new(3, 3);
    g.set(0, 0, Cell::Alive);
    g.set(1, 0, Cell::Alive);
    g.set(0, 1, Cell::Alive);
    let next = step(&g);
    // The dead cell diagonal to the corner sees exactly 3 alive cells.
    assert_eq!(next.get(1, 1), Some(Cell::Alive));
}

#[test]
fn block_is_still_life() {
    let mut g = Grid::new(5, 4);
    g.set(1, 1, Cell::Alive);
    g.set(2, 1, Cell::Alive);
    g.set(1, 2, Cell::Alive);
    g.set(2, 2, Cell::Alive);
    let next = step(&g);
    assert!(grids_equal(&g, &next));
}

#[test]
fn blinker_oscillates_with_period_two() {
    let mut g = Grid::new(5, 5);
    g.set(1, 2, Cell::Alive);
    g.set(2, 2, Cell::Alive);
    g.set(3, 2, Cell::Alive);

    let once = step(&g);
    for y in 0..5 {
        for x in 0..5 {
            let expected = if x == 2 && (1..=3).contains(&y) {
                Cell::Alive
            } else {
                Cell::Dead
            };
            assert_eq!(once.get(x, y), Some(expected));
        }
    }

    let twice = step(&once);
    assert!(grids_equal(&g, &twice));
}

#[test]
fn step_is_deterministic() {
    // Two grids built to hold the same pattern step to the same result,
    // and stepping the same grid twice gives the same result both times.
    let mut a = Grid::new(4, 4);
    let mut b = Grid::new(4, 4);
    for (x, y) in [(0, 0), (1, 0), (2, 1), (1, 2), (3, 3)] {
        a.set(x, y, Cell::Alive);
    }
    for (x, y) in [(1, 2), (3, 3), (2, 1), (1, 0), (0, 0)] {
        b.set(x, y, Cell::Alive);
    }
    assert!(grids_equal(&a, &b));
    let next_a = step(&a);
    let next_b = step(&b);
    let next_a_again = step(&a);
    assert!(grids_equal(&next_a, &next_b));
    assert!(grids_equal(&next_a, &next_a_again));
}

#[test]
fn step_reads_a_consistent_snapshot() {
    // A row of three alive cells: the middle one keeps 2 neighbors only if
    // the ends are still alive when it is evaluated, whatever the order.
    let mut g = Grid::new(5, 3);
    g.set(1, 1, Cell::Alive);
    g.set(2, 1, Cell::Alive);
    g.set(3, 1, Cell::Alive);
    let next = step(&g);
    assert_eq!(next.get(2, 1), Some(Cell::Alive));
    assert_eq!(next.get(1, 1), Some(Cell::Dead));
    assert_eq!(next.get(3, 1), Some(Cell::Dead));
}

#[test]
fn tick_advances_in_place() {
    let mut g = Grid::new(5, 5);
    g.set(1, 2, Cell::Alive);
    g.set(2, 2, Cell::Alive);
    g.set(3, 2, Cell::Alive);
    let expected = step(&g);
    tick(&mut g);
    assert!(grids_equal(&g, &expected));
}

#[test]
fn glider_translates_every_four_generations() {
    let mut g = Grid::new(8, 8);
    let glider = [(2, 1), (3, 2), (1, 3), (2, 3), (3, 3)];
    for (x, y) in glider {
        g.set(x, y, Cell::Alive);
    }
    for _ in 0..4 {
        g = step(&g);
    }
    let mut expected = Grid::new(8, 8);
    for (x, y) in glider {
        expected.set(x + 1, y + 1, Cell::Alive);
    }
    assert!(grids_equal(&g, &expected));
}
