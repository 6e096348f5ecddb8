use chess::board::{empty_board, new_board};
use chess::pieces::rook::possible_moves;
use chess::pieces::{ChessError, Color, PieceType};
use chess::Position;

#[test]
fn test_white_rook_invalid_move() {
    let mut board = empty_board();
    let mut rook = PieceType::Rook(Color::White, Position::new('d', 4));
    board.set_piece(&Position::new('d', 4), Some(rook));

    let new_board = rook.move_to(Position::new('e', 5), &mut board);
    assert_eq!(
        new_board.err().unwrap(),
        ChessError::InvalidMove,
        "White left Rook can't move to e5"
    );

    let new_board = rook.move_to(Position::new('e', 3), &mut board);
    assert_eq!(
        new_board.err().unwrap(),
        ChessError::InvalidMove,
        "White left Rook can't move to e3"
    );

    let new_board = rook.move_to(Position::new('c', 5), &mut board);
    assert_eq!(
        new_board.err().unwrap(),
        ChessError::InvalidMove,
        "White right Rook can't move to c4"
    );

    let new_board = rook.move_to(Position::new('c', 3), &mut board);
    assert_eq!(
        new_board.err().unwrap(),
        ChessError::InvalidMove,
        "White right Rook can't move to c3"
    );
}

#[test]
fn test_black_rook_invalid_initial_move() {
    let mut board = new_board();
    let mut left_rook = PieceType::Rook(Color::Black, Position::new('a', 8));
    board.set_piece(&Position::new('a', 8), Some(left_rook));

    let new_board = left_rook.move_to(Position::new('a', 7), &mut board);
    assert_eq!(
        new_board.err().unwrap(),
        ChessError::InvalidCapture,
        "Black left rook can't move to a7"
    );

    let new_board = left_rook.move_to(Position::new('b', 7), &mut board);
    assert_eq!(
        new_board.err().unwrap(),
        ChessError::InvalidMove,
        "Black left Rook can't move to b7"
    );

    let mut right_rook = PieceType::Rook(Color::Black, Position::new('h', 8));
    board.set_piece(&Position::new('h', 8), Some(right_rook));

    let new_board = right_rook.move_to(Position::new('h', 7), &mut board);
    assert_eq!(
        new_board.err().unwrap(),
        ChessError::InvalidCapture,
        "Black right Rook can't move to h7"
    );

    let new_board = right_rook.move_to(Position::new('g', 8), &mut board);
    assert_eq!(
        new_board.err().unwrap(),
        ChessError::InvalidCapture,
        "Black right Rook can't move to g8"
    );

    let new_board = right_rook.move_to(Position::new('g', 7), &mut board);
    assert_eq!(
        new_board.err().unwrap(),
        ChessError::InvalidMove,
        "Black right Rook can't move to g7"
    );
}

#[test]
fn test_rook_blocked_move() {
    let mut board = new_board();
    board.set_piece(&Position::new('a', 2), None);
    let mut index = 2;
    while index < 7 {
        index += 1;
        board.set_piece(&Position::from_index(index), None);
    }
    let mut left_rook = PieceType::Rook(Color::White, Position::new('a', 1));
    board.set_piece(&Position::new('a', 1), Some(left_rook));

    let new_board = left_rook.move_to(Position::new('a', 8), &mut board);
    assert_eq!(
        new_board.err().unwrap(),
        ChessError::BlockedMove,
        "White left rook can't move to a8, blocked by black pawn"
    );

    let new_board = left_rook.move_to(Position::new('g', 1), &mut board);
    assert_eq!(
        new_board.err().unwrap(),
        ChessError::BlockedMove,
        "White left Rook can't move to g1, blocked by white knight"
    );
}

#[test]
fn test_rook_capture() {
    let mut board = new_board();
    board.set_piece(&Position::new('a', 2), None);
    let mut index = 2;
    while index < 7 {
        index += 1;
        board.set_piece(&Position::from_index(index), None);
    }
    let mut left_rook = PieceType::Rook(Color::White, Position::new('a', 1));
    board.set_piece(&Position::new('a', 1), Some(left_rook));

    let new_piece = left_rook.move_to(Position::new('a', 7), &mut board);
    assert!(
        new_piece.is_ok(),
        "White left rook should be able to capture black pawn in a7"
    );

    let _ = new_piece.unwrap();
    let left_rook = board.get_piece(Position::new('a', 7)).unwrap();
    assert_eq!(left_rook.color(), Color::White, "White left rook is in a7");

    let mut left_rook = PieceType::Rook(Color::White, Position::new('a', 7));
    board.set_piece(&Position::new('a', 7), Some(left_rook));
    let new_piece = left_rook.move_to(Position::new('b', 7), &mut board);

    assert!(
        new_piece.is_ok(),
        "White left rook should be able to capture black pawn in b7"
    );
    assert!(
        board.get_piece(Position::new('b', 7)).is_some(),
        "White left rook should be in b7"
    );
}

#[test]
fn rook_in_the_corner_of_an_empty_board_reaches_its_rank_and_file() {
    let mut board = empty_board();
    let rook = PieceType::Rook(Color::White, Position::new('a', 1));
    board.set_piece(&Position::new('a', 1), Some(rook));
    let moves = possible_moves(&Position::new('a', 1), &Color::White, &board);
    let mut expected = Vec::new();
    for rank in 2..=8 {
        expected.push(Position::new('a', rank));
    }
    for file in ['b', 'c', 'd', 'e', 'f', 'g', 'h'] {
        expected.push(Position::new(file, 1));
    }
    assert_eq!(moves, expected);
}

#[test]
fn rook_ray_stops_at_first_piece() {
    let mut board = empty_board();
    board.set_piece(
        &Position::new('a', 1),
        Some(PieceType::Rook(Color::White, Position::new('a', 1))),
    );
    board.set_piece(
        &Position::new('a', 4),
        Some(PieceType::Knight(Color::Black, Position::new('a', 4))),
    );
    board.set_piece(
        &Position::new('c', 1),
        Some(PieceType::Knight(Color::White, Position::new('c', 1))),
    );
    let moves = possible_moves(&Position::new('a', 1), &Color::White, &board);
    assert_eq!(
        moves,
        vec![
            Position::new('a', 2),
            Position::new('a', 3),
            Position::new('a', 4),
            Position::new('b', 1)
        ]
    );
}

#[test]
fn rook_in_the_corner_of_the_opening_board_cannot_move() {
    let board = new_board();
    let moves = possible_moves(&Position::new('a', 1), &Color::White, &board);
    assert!(moves.is_empty());
    let moves = possible_moves(&Position::new('h', 8), &Color::Black, &board);
    assert!(moves.is_empty());
}

#[test]
fn rook_does_not_slide_across_the_rank_boundary() {
    let mut board = empty_board();
    let rook = PieceType::Rook(Color::White, Position::new('h', 1));
    board.set_piece(&Position::new('h', 1), Some(rook));
    assert_eq!(
        rook.can_move_to(Position::new('a', 2), &board),
        Err(ChessError::InvalidMove)
    );
    assert_eq!(rook.possible_moves(&board).len(), 14);
}
