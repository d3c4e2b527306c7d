use game_of_life::rules::Cell;
use game_of_life::universe::Universe;

/// Sets every cell of the grid to Dead.
fn clear(u: &mut Universe) {
    let w = u.width();
    let h = u.height();
    for r in 0..h {
        for c in 0..w {
            u.set_cell(r, c, Cell::Dead);
        }
    }
}

fn cell_at(u: &Universe, row: u32, col: u32) -> Cell {
    u.cells()[(row * u.width() + col) as usize]
}

#[test]
fn seeded_universe_dimensions() {
    let u = Universe::new();
    assert_eq!(u.width(), 64);
    assert_eq!(u.height(), 64);
    assert_eq!(u.cells().len(), 64 * 64);
}

#[test]
fn seed_pattern_follows_formula() {
    let u = Universe::with_dimensions(7, 3);
    assert_eq!(u.width(), 7);
    assert_eq!(u.height(), 3);
    let cells = u.cells();
    assert_eq!(cells.len(), 21);
    for i in 0..cells.len() {
        let expected = if i % 2 == 0 || i % 7 == 0 { Cell::Alive } else { Cell::Dead };
        assert_eq!(cells[i], expected);
    }
}

#[test]
fn neighbor_count_stays_in_range() {
    let u = Universe::new();
    for r in 0..u.height() {
        for c in 0..u.width() {
            assert!(u.live_neighbor_count(r, c) <= 8);
        }
    }
}

#[test]
fn neighbor_count_ignores_the_cell_itself() {
    let mut u = Universe::with_dimensions(5, 5);
    clear(&mut u);
    assert_eq!(u.live_neighbor_count(2, 2), 0);
    u.set_cell(2, 2, Cell::Alive);
    assert_eq!(u.live_neighbor_count(2, 2), 0);
}

#[test]
fn neighbor_count_wraps_around_the_corner() {
    let mut u = Universe::with_dimensions(4, 4);
    clear(&mut u);
    u.set_cell(3, 3, Cell::Alive);
    u.set_cell(3, 0, Cell::Alive);
    u.set_cell(0, 3, Cell::Alive);
    assert_eq!(u.live_neighbor_count(0, 0), 3);
}

#[test]
fn neighbor_count_sees_all_eight() {
    let mut u = Universe::with_dimensions(5, 5);
    clear(&mut u);
    for r in 1..4 {
        for c in 1..4 {
            u.set_cell(r, c, Cell::Alive);
        }
    }
    assert_eq!(u.live_neighbor_count(2, 2), 8);
}

#[test]
fn tick_depends_only_on_the_snapshot() {
    let mut a = Universe::with_dimensions(9, 6);
    let mut b = Universe::with_dimensions(9, 6);
    assert_eq!(a.cells(), b.cells());
    a.tick();
    b.tick();
    assert_eq!(a.cells(), b.cells());
    a.tick();
    b.tick();
    assert_eq!(a.cells(), b.cells());
}

#[test]
fn blinker_oscillates() {
    let mut u = Universe::with_dimensions(5, 5);
    clear(&mut u);
    u.set_cell(2, 1, Cell::Alive);
    u.set_cell(2, 2, Cell::Alive);
    u.set_cell(2, 3, Cell::Alive);
    let horizontal: Vec<Cell> = u.cells().clone();
    u.tick();
    for r in 0..5 {
        for c in 0..5 {
            let expected = if c == 2 && (1..=3).contains(&r) { Cell::Alive } else { Cell::Dead };
            assert_eq!(cell_at(&u, r, c), expected, "after one tick at ({r}, {c})");
        }
    }
    u.tick();
    assert_eq!(u.cells(), &horizontal);
}

#[test]
fn isolated_cell_dies() {
    let mut u = Universe::with_dimensions(5, 5);
    clear(&mut u);
    u.set_cell(2, 2, Cell::Alive);
    u.tick();
    for &cell in u.cells().iter() {
        assert_eq!(cell, Cell::Dead);
    }
}

#[test]
fn overcrowded_grid_dies_out() {
    let mut u = Universe::with_dimensions(3, 3);
    for r in 0..3 {
        for c in 0..3 {
            u.set_cell(r, c, Cell::Alive);
        }
    }
    for r in 0..3 {
        for c in 0..3 {
            assert_eq!(u.live_neighbor_count(r, c), 8);
        }
    }
    u.tick();
    for &cell in u.cells().iter() {
        assert_eq!(cell, Cell::Dead);
    }
}

#[test]
fn block_is_a_still_life() {
    let mut u = Universe::with_dimensions(8, 8);
    clear(&mut u);
    u.set_cell(2, 2, Cell::Alive);
    u.set_cell(2, 3, Cell::Alive);
    u.set_cell(3, 2, Cell::Alive);
    u.set_cell(3, 3, Cell::Alive);
    let block: Vec<Cell> = u.cells().clone();
    for _ in 0..5 {
        u.tick();
        assert_eq!(u.cells(), &block);
    }
}
