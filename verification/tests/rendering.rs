use game_of_life::board::Board;
use game_of_life::cell::{Cell, ALIVE_GLYPH, DEAD_GLYPH};

#[test]
fn output_draws_each_row_on_a_line_of_its_own() {
    let cells = vec![
        Cell::Alive, Cell::Dead, Cell::Dead,
        Cell::Dead, Cell::Alive, Cell::Alive,
    ];
    let board = Board::from_cells(2, 3, cells).expect("a board");
    assert_eq!(board.output(), "◼◻◻\n◻◼◼\n");
}

#[test]
fn output_of_an_empty_board() {
    let board = Board::from_cells(3, 2, vec![Cell::Dead; 6]).expect("a board");
    assert_eq!(board.output(), "◻◻\n◻◻\n◻◻\n");
}

#[test]
fn output_of_a_full_board() {
    let board = Board::from_cells(2, 2, vec![Cell::Alive; 4]).expect("a board");
    assert_eq!(board.output(), "◼◼\n◼◼\n");
}

#[test]
fn output_has_the_shape_of_the_board() {
    let board = Board::create_board(7, 12).ok().expect("a board");
    let text = board.output();
    assert!(text.ends_with('\n'));
    assert_eq!(text.chars().count(), 7 * 13);
    assert_eq!(text.chars().filter(|&c| c == '\n').count(), 7);
    let lines: Vec<&str> = text.split_terminator('\n').collect();
    assert_eq!(lines.len(), 7);
    for (row, line) in lines.iter().enumerate() {
        let glyphs: Vec<char> = line.chars().collect();
        assert_eq!(glyphs.len(), 12);
        for (col, &glyph) in glyphs.iter().enumerate() {
            assert!(glyph == ALIVE_GLYPH || glyph == DEAD_GLYPH);
            let cell = board.cell(row as u32, col as u32);
            assert_eq!(glyph == ALIVE_GLYPH, cell == Cell::Alive);
        }
    }
}

#[test]
fn output_does_not_change_the_board() {
    let board = Board::create_board(5, 6).ok().expect("a board");
    let before = board.cells().clone();
    let first = board.output();
    let second = board.output();
    assert_eq!(first, second);
    assert_eq!(board.cells(), &before);
}

#[test]
fn output_follows_the_generations() {
    let mut cells = vec![Cell::Dead; 36];
    for col in 1..4 {
        cells[2 * 6 + col] = Cell::Alive;
    }
    let mut board = Board::from_cells(6, 6, cells).expect("a board");
    assert_eq!(board.output(), "◻◻◻◻◻◻\n◻◻◻◻◻◻\n◻◼◼◼◻◻\n◻◻◻◻◻◻\n◻◻◻◻◻◻\n◻◻◻◻◻◻\n");
    board.generation();
    assert_eq!(board.output(), "◻◻◻◻◻◻\n◻◻◼◻◻◻\n◻◻◼◻◻◻\n◻◻◼◻◻◻\n◻◻◻◻◻◻\n◻◻◻◻◻◻\n");
}
