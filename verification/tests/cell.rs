use conways_game_of_life::cell::Cell;

#[test]
fn cells_compare_by_state() {
    assert_eq!(Cell::Dead, Cell::Dead);
    assert_eq!(Cell::Alive, Cell::Alive);
    assert_ne!(Cell::Dead, Cell::Alive);
}

#[test]
fn cells_are_copied_freely() {
    let cell = Cell::Alive;
    let copy = cell;
    let clone = cell.clone();
    assert_eq!(cell, copy);
    assert_eq!(cell, clone);
}

#[test]
fn cells_print_their_state() {
    assert_eq!(format!("{:?}", Cell::Dead), "Dead");
    assert_eq!(format!("{:?}", Cell::Alive), "Alive");
}
