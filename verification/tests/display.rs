use conways_game_of_life::cell::Cell;
use conways_game_of_life::display::Display;
use conways_game_of_life::universe::Universe;

#[test]
fn render_draws_each_row_on_a_line_of_its_own() {
    let mut universe = Universe::new(3, 2);
    let first = universe.get_index(0, 1);
    universe.cells[first] = Cell::Alive;
    let second = universe.get_index(1, 2);
    universe.cells[second] = Cell::Alive;
    assert_eq!(Display::new(&universe).render(), ".\u{25FC}.\n..\u{25FC}\n");
}

#[test]
fn render_of_a_dead_universe_is_all_full_stops() {
    let universe = Universe::new(4, 3);
    assert_eq!(Display::new(&universe).render(), "....\n....\n....\n");
}

#[test]
fn render_of_a_single_live_cell() {
    let mut universe = Universe::new(1, 1);
    universe.cells[0] = Cell::Alive;
    assert_eq!(Display::new(&universe).render(), "\u{25FC}\n");
}

#[test]
fn render_has_one_character_per_cell_and_one_break_per_row() {
    let universe = Universe::new(30, 30);
    let text = Display::new(&universe).render();
    assert_eq!(text.chars().count(), 30 * 31);
    assert_eq!(text.lines().count(), 30);
    assert!(text.lines().all(|line| line.chars().count() == 30));
}

#[test]
fn render_leaves_the_universe_unchanged() {
    let mut universe = Universe::new(3, 3);
    universe.cells[4] = Cell::Alive;
    let before = universe.cells.clone();
    let display = Display::new(&universe);
    let first = display.render();
    let second = display.render();
    assert_eq!(first, second);
    assert_eq!(universe.cells, before);
}

#[test]
fn render_follows_the_universe_through_a_tick() {
    let mut universe = Universe::new(5, 5);
    for col in 1..4 {
        let idx = universe.get_index(2, col);
        universe.cells[idx] = Cell::Alive;
    }
    assert_eq!(
        Display::new(&universe).render(),
        ".....\n.....\n.\u{25FC}\u{25FC}\u{25FC}.\n.....\n.....\n"
    );
    universe.tick();
    assert_eq!(
        Display::new(&universe).render(),
        ".....\n..\u{25FC}..\n..\u{25FC}..\n..\u{25FC}..\n.....\n"
    );
}

#[test]
fn display_holds_the_universe_it_was_made_for() {
    let universe = Universe::new(2, 3);
    let display = Display::new(&universe);
    assert_eq!(display.universe.width, 2);
    assert_eq!(display.universe.height, 3);
    assert!(std::ptr::eq(display.universe, &universe));
}
