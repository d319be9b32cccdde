use cgol::cell::Cell;
use cgol::grid::Grid;

#[test]
fn new_grid_is_all_dead() {
    let g = Grid::new(4, 3);
    for y in 0..3 {
        for x in 0..4 {
            assert_eq!(g.get(x, y), Some(Cell::Dead));
        }
    }
}

#[test]
fn size_reports_dimensions() {
    let g = Grid::new(7, 5);
    assert_eq!(g.size(), (7, 5));
}

#[test]
fn get_out_of_range_returns_none() {
    let g = Grid::new(4, 3);
    assert_eq!(g.get(4, 0), None);
    assert_eq!(g.get(0, 3), None);
    assert_eq!(g.get(4, 3), None);
    // A position "one step left of zero" computed with wrapping arithmetic
    // lands on usize::MAX and must read as absent, not wrap into the grid.
    assert_eq!(g.get(usize::MAX, 0), None);
    assert_eq!(g.get(0, usize::MAX), None);
    assert_eq!(g.get(usize::MAX, usize::MAX), None);
}

#[test]
fn set_then_get() {
    let mut g = Grid::new(4, 3);
    g.set(2, 1, Cell::Alive);
    assert_eq!(g.get(2, 1), Some(Cell::Alive));
    assert_eq!(g.get(1, 2), Some(Cell::Dead));
    g.set(2, 1, Cell::Dead);
    assert_eq!(g.get(2, 1), Some(Cell::Dead));
}

#[test]
fn flip_toggles_in_place() {
    let mut g = Grid::new(2, 2);
    g.flip(0, 1);
    assert_eq!(g.get(0, 1), Some(Cell::Alive));
    g.flip(0, 1);
    assert_eq!(g.get(0, 1), Some(Cell::Dead));
    assert_eq!(g.get(0, 0), Some(Cell::Dead));
}

#[test]
fn clear_kills_every_cell() {
    let mut g = Grid::new(3, 3);
    g.set(0, 0, Cell::Alive);
    g.set(2, 2, Cell::Alive);
    g.set(1, 2, Cell::Alive);
    g.clear();
    for y in 0..3 {
        for x in 0..3 {
            assert_eq!(g.get(x, y), Some(Cell::Dead));
        }
    }
    assert_eq!(g.size(), (3, 3));
}

#[test]
fn grid_accessor_exposes_rows() {
    let mut g = Grid::new(3, 2);
    g.set(2, 0, Cell::Alive);
    let rows = g.grid();
    assert_eq!(rows.len(), 2);
    assert_eq!(rows[0].len(), 3);
    assert_eq!(rows[0][2], Cell::Alive);
    assert_eq!(rows[1][2], Cell::Dead);
}

#[test]
fn is_alive_inside_and_outside() {
    let mut g = Grid::new(3, 3);
    g.set(1, 1, Cell::Alive);
    assert!(g.is_alive(1, 1));
    assert!(!g.is_alive(0, 0));
    assert!(!g.is_alive(3, 1));
    assert!(!g.is_alive(usize::MAX, usize::MAX));
}
