use game_of_life::cell::{Cell, ALIVE_FROM, ALIVE_GLYPH, DEAD_GLYPH, DRAW_BOUND};

#[test]
fn value_is_one_for_alive_and_zero_for_dead() {
    assert_eq!(Cell::Alive.value(), 1);
    assert_eq!(Cell::Dead.value(), 0);
}

#[test]
fn living_cell_with_fewer_than_two_neighbors_dies() {
    assert_eq!(Cell::Alive.next_state(0), Cell::Dead);
    assert_eq!(Cell::Alive.next_state(1), Cell::Dead);
}

#[test]
fn living_cell_with_two_or_three_neighbors_lives_on() {
    assert_eq!(Cell::Alive.next_state(2), Cell::Alive);
    assert_eq!(Cell::Alive.next_state(3), Cell::Alive);
}

#[test]
fn living_cell_with_four_or_more_neighbors_dies() {
    for n in 4..=8u8 {
        assert_eq!(Cell::Alive.next_state(n), Cell::Dead, "n = {}", n);
    }
    assert_eq!(Cell::Alive.next_state(255), Cell::Dead);
}

#[test]
fn dead_cell_with_three_neighbors_is_born() {
    assert_eq!(Cell::Dead.next_state(3), Cell::Alive);
}

#[test]
fn dead_cell_with_any_other_count_stays_dead() {
    for n in [0u8, 1, 2, 4, 5, 6, 7, 8, 255] {
        assert_eq!(Cell::Dead.next_state(n), Cell::Dead, "n = {}", n);
    }
}

#[test]
fn glyphs_are_the_two_medium_squares() {
    assert_eq!(ALIVE_GLYPH, '◼');
    assert_eq!(DEAD_GLYPH, '◻');
    assert_ne!(ALIVE_GLYPH, DEAD_GLYPH);
}

#[test]
fn symbol_is_the_glyph_alone() {
    assert_eq!(Cell::Alive.symbol(), "◼");
    assert_eq!(Cell::Dead.symbol(), "◻");
    assert_eq!(Cell::Alive.symbol().chars().count(), 1);
    assert_eq!(Cell::Dead.symbol().chars().count(), 1);
    assert_eq!(Cell::Alive.symbol().chars().next(), Some(ALIVE_GLYPH));
    assert_eq!(Cell::Dead.symbol().chars().next(), Some(DEAD_GLYPH));
}

#[test]
fn draws_below_the_threshold_give_dead_cells() {
    for draw in 0..ALIVE_FROM {
        assert_eq!(Cell::from_draw(draw), Cell::Dead, "draw = {}", draw);
    }
}

#[test]
fn draws_from_the_threshold_on_give_living_cells() {
    for draw in ALIVE_FROM..DRAW_BOUND {
        assert_eq!(Cell::from_draw(draw), Cell::Alive, "draw = {}", draw);
    }
    assert_eq!(Cell::from_draw(u32::MAX), Cell::Alive);
}

#[test]
fn two_draws_in_ten_give_life() {
    assert_eq!(DRAW_BOUND, 10);
    assert_eq!(ALIVE_FROM, 8);
    let alive = (0..DRAW_BOUND)
        .filter(|&draw| Cell::from_draw(draw) == Cell::Alive)
        .count();
    assert_eq!(alive, 2);
}
