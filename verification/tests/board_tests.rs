use gomoku_tiles::BOARD_SIZE;
use gomoku_tiles::board::Board;
use gomoku_tiles::board::Cell;

#[test]
fn fresh_board_all_cells_empty() {
    let board = Board::new();
    let mut count: usize = 0;
    for r in 0..BOARD_SIZE {
        for c in 0..BOARD_SIZE {
            assert_eq!(board.get(r, c), Cell::Empty);
            count += 1;
        }
    }
    assert_eq!(count, 169);
}

#[test]
fn fresh_board_shape() {
    let board = Board::new();
    assert_eq!(board.array.len(), 13);
    for row in &board.array {
        assert_eq!(row.len(), 13);
    }
}

#[test]
fn board_cells_mutable_by_game_logic() {
    let mut board = Board::new();
    board.array[7][3] = Cell::Black;
    board.array[7][4] = Cell::White;
    assert_eq!(board.get(7, 3), Cell::Black);
    assert_eq!(board.get(7, 4), Cell::White);
    assert_eq!(board.get(7, 5), Cell::Empty);
}
