use game_of_life::rules::Cell;
use game_of_life::universe::Universe;

const DEAD_GLYPH: char = '\u{25fb}';
const ALIVE_GLYPH: char = '\u{25fc}';

#[test]
fn render_has_height_lines_of_width_glyphs() {
    let u = Universe::with_dimensions(3, 2);
    let text = u.render();
    assert!(text.ends_with('\n'));
    let lines: Vec<&str> = text.lines().collect();
    assert_eq!(lines.len(), 2);
    for line in lines {
        assert_eq!(line.chars().count(), 3);
        for glyph in line.chars() {
            assert!(glyph == DEAD_GLYPH || glyph == ALIVE_GLYPH);
        }
    }
}

#[test]
fn render_matches_the_seed_exactly() {
    // Flat indices 0 and 2 are divisible by 2, index 1 by neither 2 nor 7,
    // index 3 by neither: alive, dead, alive, dead.
    let u = Universe::with_dimensions(2, 2);
    let expected = format!("{}{}\n{}{}\n", ALIVE_GLYPH, DEAD_GLYPH, ALIVE_GLYPH, DEAD_GLYPH);
    assert_eq!(u.render(), expected);
}

#[test]
fn render_uses_one_glyph_per_state() {
    let mut u = Universe::with_dimensions(2, 1);
    u.set_cell(0, 0, Cell::Alive);
    u.set_cell(0, 1, Cell::Dead);
    let expected = format!("{}{}\n", ALIVE_GLYPH, DEAD_GLYPH);
    assert_eq!(u.render(), expected);
}

#[test]
fn render_of_the_seeded_universe_is_shaped() {
    let u = Universe::new();
    let text = u.render();
    assert_eq!(text.chars().count(), 64 * 65);
    assert_eq!(text.lines().count(), 64);
}
