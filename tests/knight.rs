use chess::board::{empty_board, new_board};
use chess::pieces::knight::possible_moves;
use chess::pieces::{ChessError, Color, PieceType};
use chess::Position;

#[test]
fn test_knight_invalid_move() {
    let mut board = empty_board();
    let mut knight = PieceType::Knight(Color::White, Position::new('d', 4));
    board.set_piece(&Position::new('d', 4), Some(knight));
    let result = knight.move_to(Position::new('c', 1), &mut board);
    assert_eq!(
        result.err().unwrap(),
        ChessError::InvalidMove,
        "d4 Knight should not be able to move to c1"
    );

    let result = knight.move_to(Position::new('h', 6), &mut board);
    assert_eq!(
        result.err().unwrap(),
        ChessError::InvalidMove,
        "d4 Knight should not be able to move to h6"
    );
}

#[test]
fn test_knight_valid_move() {
    let mut board = empty_board();
    let targets = [
        (('e', 6), "d4 Knight should be able to move to e6"),
        (('f', 5), "d4 Knight should be able to move to f5"),
        (('f', 3), "d4 Knight should be able to move to f3"),
        (('e', 2), "d4 Knight should be able to move to e2"),
        (('c', 2), "d4 Knight should be able to move to c2"),
        (('b', 3), "d4 Knight should be able to move to b3"),
        (('b', 5), "d4 Knight should be able to move to b5"),
    ];
    for ((x, y), message) in targets {
        let mut knight = PieceType::Knight(Color::White, Position::new('d', 4));
        board.set_piece(&Position::new('d', 4), Some(knight));
        let result = knight.move_to(Position::new(x, y), &mut board);
        assert_eq!(result.is_ok(), true, "{}", message);
        let _ = result.unwrap();
        board.set_piece(&Position::new(x, y), None);
    }
}

#[test]
fn test_kingh_invalid_capture() {
    let mut board = new_board();
    board.set_piece(&Position::from_index(1), None);
    let mut knight = PieceType::Knight(Color::White, Position::new('d', 4));
    board.set_piece(&Position::new('d', 4), Some(knight));
    let result = knight.move_to(Position::new('e', 2), &mut board);
    assert_eq!(
        result.err().unwrap(),
        ChessError::InvalidCapture,
        "d4 Knight should not be able to capture white pawn at e2"
    );
}

#[test]
fn test_knight_valid_capture() {
    let mut board = empty_board();
    board.set_piece(&Position::from_index(1), None);
    board.set_piece(&Position::new('e', 2), None);
    let mut knight = PieceType::Knight(Color::White, Position::new('d', 5));
    board.set_piece(&Position::new('d', 5), Some(knight));
    let result = knight.move_to(Position::new('e', 7), &mut board);
    assert_eq!(
        result.is_ok(),
        true,
        "d4 Knight should be able to capture black pawn at e7"
    );
}

#[test]
fn knight_in_the_corner_has_two_moves() {
    let board = empty_board();
    let moves = possible_moves(&Position::new('a', 1), &Color::White, &board);
    assert_eq!(moves, vec![Position::new('c', 2), Position::new('b', 3)]);
}

#[test]
fn knights_on_the_opening_board() {
    let board = new_board();
    let moves = possible_moves(&Position::new('b', 1), &Color::White, &board);
    assert_eq!(moves, vec![Position::new('a', 3), Position::new('c', 3)]);
}
