use chess::board::{empty_board, new_board};
use chess::pieces::queen::{can_move_to, possible_moves};
use chess::pieces::{ChessError, Color, PieceType};
use chess::Position;

#[test]
fn test_queen_invalid_move() {
    let mut board = empty_board();
    let mut queen = PieceType::Queen(Color::White, Position::new('d', 4));
    board.set_piece(&Position::new('d', 4), Some(queen));

    let result = queen.move_to(Position::new('c', 2), &mut board);
    assert_eq!(
        result.err().unwrap(),
        ChessError::InvalidMove,
        "d4 White Queen should not be able to move to c2"
    );
    let result = queen.move_to(Position::new('e', 7), &mut board);
    assert_eq!(
        result.err().unwrap(),
        ChessError::InvalidMove,
        "d4 White Queen should not be able to move to e7"
    );
    let result = queen.move_to(Position::new('a', 8), &mut board);
    assert_eq!(
        result.err().unwrap(),
        ChessError::InvalidMove,
        "d4 White Queen should not be able to move to a8"
    );
    let result = queen.move_to(Position::new('h', 1), &mut board);
    assert_eq!(
        result.err().unwrap(),
        ChessError::InvalidMove,
        "d4 White Queen should not be able to move to h1"
    );
}

#[test]
fn test_queen_valid_move() {
    let mut board = empty_board();
    let queen = PieceType::Queen(Color::White, Position::new('d', 4));
    board.set_piece(&Position::new('d', 4), Some(queen));

    let cases = [
        (('d', 2), "d4 White Queen should be able to move to d2"),
        (('d', 3), "d4 White Queen should be able to move to d7"),
        (('d', 5), "d4 White Queen should be able to move to d5"),
        (('d', 6), "d4 White Queen should be able to move to d6"),
        (('e', 5), "d4 White Queen should be able to move to e5"),
        (('e', 4), "d4 White Queen should be able to move to e4"),
        (('e', 3), "d4 White Queen should be able to move to e3"),
        (('c', 3), "d4 White Queen should be able to move to c3"),
        (('c', 4), "d4 White Queen should be able to move to c4"),
        (('c', 5), "d4 White Queen should be able to move to c5"),
    ];
    for ((x, y), message) in cases {
        let result = can_move_to(
            &Position::new('d', 4),
            &Color::White,
            Position::new(x, y),
            &board,
        );
        assert!(result.is_ok(), "{}", message);
    }
}

#[test]
fn test_queen_blocked_move() {
    let mut board = new_board();
    let mut queen = PieceType::Queen(Color::White, Position::new('d', 4));
    board.set_piece(&Position::new('d', 4), Some(queen));
    board.set_piece(&Position::new('d', 1), None);

    let result = queen.move_to(Position::new('d', 8), &mut board);
    assert_eq!(
        result.err().unwrap(),
        ChessError::BlockedMove,
        "d4 White Queen should not be able to move to d8"
    );
    let result = queen.move_to(Position::new('d', 1), &mut board);
    assert_eq!(
        result.err().unwrap(),
        ChessError::BlockedMove,
        "d4 White Queen should not be able to move to d1"
    );
    let result = queen.move_to(Position::new('a', 1), &mut board);
    assert_eq!(
        result.err().unwrap(),
        ChessError::BlockedMove,
        "d4 White Queen should not be able to move to a1"
    );
    let result = queen.move_to(Position::new('h', 8), &mut board);
    assert_eq!(
        result.err().unwrap(),
        ChessError::BlockedMove,
        "d4 White Queen should not be able to move to h8"
    );
}

#[test]
fn test_white_queen_invalid_capture() {
    let mut board = new_board();
    let mut queen = PieceType::Queen(Color::White, Position::new('d', 4));
    board.set_piece(&Position::new('d', 4), Some(queen));
    board.set_piece(&Position::new('d', 1), None);

    let result = queen.move_to(Position::new('d', 2), &mut board);
    assert_eq!(
        result.err().unwrap(),
        ChessError::InvalidCapture,
        "d4 White Queen should not be able to capture d2 white pawn"
    );
}

#[test]
fn test_black_queen_invalid_capture() {
    let mut board = new_board();
    let mut queen = PieceType::Queen(Color::Black, Position::new('d', 4));
    board.set_piece(&Position::new('d', 4), Some(queen));
    board.set_piece(&Position::new('d', 8), None);

    let result = queen.move_to(Position::new('d', 7), &mut board);
    assert_eq!(
        result.err().unwrap(),
        ChessError::InvalidCapture,
        "d4 Black Queen should not be able to capture d7 black pawn"
    );
}

#[test]
fn test_white_queen_valid_capture() {
    let mut board = new_board();
    let mut queen = PieceType::Queen(Color::White, Position::new('d', 4));
    board.set_piece(&Position::new('d', 4), Some(queen));
    board.set_piece(&Position::new('d', 1), None);

    let result = queen.move_to(Position::new('d', 7), &mut board);
    assert!(
        result.is_ok(),
        "d4 White Queen should be able to move to capture d7 black pawn"
    );
}

#[test]
fn test_black_queen_valid_capture() {
    let mut board = new_board();
    let mut queen = PieceType::Queen(Color::Black, Position::new('d', 4));
    board.set_piece(&Position::new('d', 4), Some(queen));
    board.set_piece(&Position::new('d', 8), None);

    let result = queen.move_to(Position::new('d', 2), &mut board);
    assert!(
        result.is_ok(),
        "d4 Black Queen should not be able to capture d2 white pawn"
    );
}

// Eight diagonal squares (as for the bishop) and eleven along the rank and
// file: d5, d6, d7 up to the capture, d3, then the whole fourth rank.
#[test]
fn test_possible_moves() {
    let board = new_board();
    let positions = possible_moves(&Position::new('d', 4), &Color::White, &board);
    assert_eq!(positions.len(), 19);
}
