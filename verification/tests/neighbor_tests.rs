use cgol::cell::Cell;
use cgol::grid::Grid;

fn fill(g: &mut Grid) {
    let (w, h) = g.size();
    for y in 0..h {
        for x in 0..w {
            g.set(x, y, Cell::Alive);
        }
    }
}

#[test]
fn center_of_full_grid_has_eight_neighbors() {
    let mut g = Grid::new(3, 3);
    fill(&mut g);
    assert_eq!(g.alive_neighbors(1, 1), 8);
}

#[test]
fn count_never_exceeds_eight() {
    let mut g = Grid::new(5, 5);
    fill(&mut g);
    for y in 0..5 {
        for x in 0..5 {
            assert!(g.alive_neighbors(x, y) <= 8);
        }
    }
}

#[test]
fn corner_counts_only_inside_positions() {
    // On a full grid the corner has 8 neighbor positions but only 3 lie
    // inside the grid; the 5 outside positions contribute nothing.
    let mut g = Grid::new(4, 4);
    fill(&mut g);
    assert_eq!(g.alive_neighbors(0, 0), 3);
    assert_eq!(g.alive_neighbors(3, 0), 3);
    assert_eq!(g.alive_neighbors(0, 3), 3);
    assert_eq!(g.alive_neighbors(3, 3), 3);
}

#[test]
fn edge_counts_only_inside_positions() {
    let mut g = Grid::new(4, 4);
    fill(&mut g);
    assert_eq!(g.alive_neighbors(1, 0), 5);
    assert_eq!(g.alive_neighbors(0, 2), 5);
    assert_eq!(g.alive_neighbors(3, 1), 5);
    assert_eq!(g.alive_neighbors(2, 3), 5);
}

#[test]
fn empty_grid_counts_zero_everywhere() {
    let g = Grid::new(6, 4);
    for y in 0..4 {
        for x in 0..6 {
            assert_eq!(g.alive_neighbors(x, y), 0);
        }
    }
}

#[test]
fn single_neighbor_is_counted_once() {
    let mut g = Grid::new(3, 3);
    g.set(2, 2, Cell::Alive);
    assert_eq!(g.alive_neighbors(1, 1), 1);
    assert_eq!(g.alive_neighbors(2, 1), 1);
    assert_eq!(g.alive_neighbors(2, 2), 0);
    assert_eq!(g.alive_neighbors(0, 0), 0);
}

#[test]
fn count_at_position_outside_grid_sees_border_cells() {
    // Asking for neighbors of a position just outside the grid is defined:
    // only the in-grid positions count.
    let mut g = Grid::new(2, 2);
    fill(&mut g);
    assert_eq!(g.alive_neighbors(2, 0), 2);
    assert_eq!(g.alive_neighbors(2, 2), 1);
    assert_eq!(g.alive_neighbors(5, 5), 0);
}
