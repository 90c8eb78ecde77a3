use game_of_life::board::Board;
use game_of_life::cell::Cell;

fn living_share(board: &Board) -> f64 {
    let alive = board.cells().iter().filter(|&&cell| cell == Cell::Alive).count();
    alive as f64 / board.cells().len() as f64
}

#[test]
fn about_a_fifth_of_a_new_board_is_alive() {
    for trial in 0..20 {
        let board = Board::create_board(100, 100).ok().expect("a board");
        let share = living_share(&board);
        assert!(
            (share - 0.20).abs() <= 0.03,
            "trial {}: {} of the cells are alive",
            trial,
            share
        );
    }
}

#[test]
fn about_a_fifth_over_many_boards() {
    let mut alive = 0usize;
    let mut total = 0usize;
    for _ in 0..50 {
        let board = Board::create_board(40, 50).ok().expect("a board");
        alive += board.cells().iter().filter(|&&cell| cell == Cell::Alive).count();
        total += board.cells().len();
    }
    let share = alive as f64 / total as f64;
    assert!((share - 0.20).abs() <= 0.01, "{} of the cells are alive", share);
}

#[test]
fn new_boards_differ() {
    let first = Board::create_board(30, 30).ok().expect("a board");
    let second = Board::create_board(30, 30).ok().expect("a board");
    assert_ne!(first.cells(), second.cells());
}

#[test]
fn a_new_board_holds_both_living_and_dead_cells() {
    let board = Board::create_board(50, 50).ok().expect("a board");
    assert!(board.cells().iter().any(|&cell| cell == Cell::Alive));
    assert!(board.cells().iter().any(|&cell| cell == Cell::Dead));
}
