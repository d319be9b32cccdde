use cgol::cell::Cell;
use cgol::index::Index;

#[test]
fn not_toggles_dead_to_alive() {
    assert_eq!(Cell::Dead.not(), Cell::Alive);
}

#[test]
fn not_toggles_alive_to_dead() {
    assert_eq!(Cell::Alive.not(), Cell::Dead);
}

#[test]
fn double_toggle_is_identity() {
    assert_eq!(Cell::Dead.not().not(), Cell::Dead);
    assert_eq!(Cell::Alive.not().not(), Cell::Alive);
}

#[test]
fn index_keeps_its_coordinates() {
    let ix = Index::new(5, 9);
    assert_eq!(ix.0, 5);
    assert_eq!(ix.1, 9);
}
