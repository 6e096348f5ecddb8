use chess::board::{empty_board, new_board};
use chess::pieces::pawn::possible_moves;
use chess::pieces::{ChessError, Color, PieceType};
use chess::Position;

#[test]
fn test_pawn_first_two_moves() {
    let mut board = new_board();
    let mut pawn = PieceType::Pawn(Color::White, Position::new('a', 2), true);

    board.set_piece(&Position::new('a', 2), Some(pawn));
    let new_board = pawn.move_to(Position::new('a', 4), &mut board);
    assert!(new_board.is_ok());

    let mut pawn = PieceType::Pawn(Color::Black, Position::new('a', 4), false);
    board.set_piece(&Position::new('a', 4), Some(pawn));
    let new_board = pawn.move_to(Position::new('a', 6), &mut board).err().unwrap();
    assert_eq!(new_board, ChessError::InvalidMove);
}

#[test]
fn test_pawn_first_one_move() {
    let mut board = new_board();
    let mut pawn = PieceType::Pawn(Color::White, Position::new('a', 2), true);
    board.set_piece(&Position::new('a', 2), Some(pawn));

    let new_board = pawn.move_to(Position::new('a', 3), &mut board);
    assert!(new_board.is_ok());
}

#[test]
fn test_white_pawn_invalid_moves() {
    let mut board = new_board();
    let mut pawn = PieceType::Pawn(Color::White, Position::new('b', 2), true);
    board.set_piece(&Position::new('b', 2), Some(pawn));

    let _ = pawn.move_to(Position::new('b', 4), &mut board).unwrap();
    let mut black_pawn = PieceType::Pawn(Color::Black, Position::new('b', 7), true);
    board.set_piece(&Position::new('b', 7), Some(black_pawn));

    let _ = black_pawn.move_to(Position::new('b', 5), &mut board).unwrap();
    let mut pawn = PieceType::Pawn(Color::White, Position::new('b', 4), true);
    board.set_piece(&Position::new('b', 4), Some(pawn));

    let same_position = pawn.move_to(Position::new('b', 4), &mut board).err().unwrap();
    assert_eq!(same_position, ChessError::InvalidMove);

    let wrong_right_side_move = pawn.move_to(Position::new('c', 4), &mut board).err().unwrap();
    assert_eq!(wrong_right_side_move, ChessError::InvalidMove);

    let wrong_left_side_move = pawn.move_to(Position::new('a', 4), &mut board).err().unwrap();
    assert_eq!(wrong_left_side_move, ChessError::InvalidMove);

    let wrong_back_move = pawn.move_to(Position::new('b', 3), &mut board).err().unwrap();
    assert_eq!(wrong_back_move, ChessError::InvalidMove);

    let wrong_move_two_squares = pawn.move_to(Position::new('b', 5), &mut board).err().unwrap();
    assert_eq!(
        wrong_move_two_squares,
        ChessError::InvalidMove,
        "Pawn can't move to a already occupied square"
    );
}

#[test]
fn test_black_pawn_invalid_moves() {
    let mut board = new_board();
    let mut pawn = PieceType::Pawn(Color::Black, Position::new('c', 5), false);
    board.set_piece(&Position::new('c', 7), None);
    board.set_piece(&Position::new('c', 5), Some(pawn));

    let same_position = pawn.move_to(Position::new('c', 5), &mut board).err().unwrap();
    assert_eq!(same_position, ChessError::InvalidMove);

    let wrong_right_side_move = pawn.move_to(Position::new('d', 5), &mut board).err().unwrap();
    assert_eq!(wrong_right_side_move, ChessError::InvalidMove);

    let wrong_left_side_move = pawn.move_to(Position::new('b', 5), &mut board).err().unwrap();
    assert_eq!(wrong_left_side_move, ChessError::InvalidMove);

    let wrong_back_move = pawn.move_to(Position::new('c', 6), &mut board).err().unwrap();
    assert_eq!(wrong_back_move, ChessError::InvalidMove);
}

#[test]
fn test_white_pawn_no_to_piece_capture() {
    let mut board = new_board();
    let mut white_pawn = PieceType::Pawn(Color::White, Position::new('b', 2), true);
    board.set_piece(&Position::new('b', 2), Some(white_pawn));

    let piece_type = white_pawn.move_to(Position::new('c', 3), &mut board);
    assert_eq!(
        piece_type.err().unwrap(),
        ChessError::InvalidMove,
        "No piece to capture on right side of the white pawn"
    );

    let piece_type = white_pawn.move_to(Position::new('a', 3), &mut board);
    assert_eq!(
        piece_type.err().unwrap(),
        ChessError::InvalidMove,
        "No piece to capture on left side of the white pawn"
    );
}

#[test]
fn test_black_pawn_no_to_piece_capture() {
    let mut board = new_board();
    let mut black_pawn = PieceType::Pawn(Color::Black, Position::new('b', 7), true);
    board.set_piece(&Position::new('b', 7), Some(black_pawn));

    let piece_type = black_pawn.move_to(Position::new('c', 6), &mut board);
    assert_eq!(
        piece_type.err().unwrap(),
        ChessError::InvalidMove,
        "No piece to capture on right side of the black pawn"
    );

    let piece_type = black_pawn.move_to(Position::new('a', 6), &mut board);
    assert_eq!(
        piece_type.err().unwrap(),
        ChessError::InvalidMove,
        "No piece to capture on left side of the black pawn"
    );
}

#[test]
fn test_white_pawn_invalid_capture() {
    let mut board = new_board();
    let mut white_pawn = PieceType::Pawn(Color::White, Position::new('b', 2), true);
    board.set_piece(&Position::new('b', 2), Some(white_pawn));

    let mut other_white_pawn = PieceType::Pawn(Color::White, Position::new('c', 2), true);
    board.set_piece(&Position::new('c', 2), Some(other_white_pawn));

    let _ = other_white_pawn.move_to(Position::new('c', 3), &mut board).unwrap();

    let failed_board = white_pawn.move_to(Position::new('c', 3), &mut board);
    assert_eq!(
        failed_board.err().unwrap(),
        ChessError::InvalidMove,
        "Capturing same color piece"
    );
}

#[test]
fn test_black_pawn_invalid_capture() {
    let mut board = new_board();
    let mut black_pawn = PieceType::Pawn(Color::Black, Position::new('b', 7), true);
    board.set_piece(&Position::new('b', 7), Some(black_pawn));

    let mut other_black_pawn = PieceType::Pawn(Color::Black, Position::new('c', 7), true);
    board.set_piece(&Position::new('c', 7), Some(other_black_pawn));

    let _ = other_black_pawn.move_to(Position::new('c', 6), &mut board).unwrap();

    let failed_board = black_pawn.move_to(Position::new('c', 6), &mut board);
    assert_eq!(
        failed_board.err().unwrap(),
        ChessError::InvalidMove,
        "Capturing same color piece"
    );
}

#[test]
fn test_white_pawn_capture() {
    let mut board = new_board();
    let black_pawn = PieceType::Pawn(Color::Black, Position::new('c', 5), false);
    board.set_piece(&Position::new('c', 7), None);
    board.set_piece(&Position::new('c', 5), Some(black_pawn));

    let mut white_pawn = PieceType::Pawn(Color::White, Position::new('b', 4), false);
    board.set_piece(&Position::new('b', 2), None);
    board.set_piece(&Position::new('b', 4), Some(white_pawn));

    let new_piece = white_pawn.move_to(Position::new('c', 5), &mut board);
    assert!(&new_piece.is_ok(), "White pawn should capture black pawn");

    let white_pawn = board.get_piece(Position::new('c', 5));
    assert_eq!(
        white_pawn.unwrap().color(),
        Color::White,
        "White pawn should be in c5"
    );
}

#[test]
fn test_black_pawn_capture() {
    let mut board = new_board();
    let mut black_pawn = PieceType::Pawn(Color::Black, Position::new('c', 5), false);
    board.set_piece(&Position::new('c', 7), None);
    board.set_piece(&Position::new('c', 5), Some(black_pawn));

    let white_pawn = PieceType::Pawn(Color::White, Position::new('b', 4), false);
    board.set_piece(&Position::new('b', 2), None);
    board.set_piece(&Position::new('b', 4), Some(white_pawn));

    let new_piece = black_pawn.move_to(Position::new('b', 4), &mut board);
    assert!(&new_piece.is_ok(), "Black pawn should capture black pawn");

    let _ = new_piece.unwrap();
    let white_pawn = &board.get_piece(Position::new('b', 4));
    assert_eq!(
        white_pawn.unwrap().color(),
        Color::Black,
        "Black pawn should be in b4"
    );
}

#[test]
fn test_possible_first_white_moves() {
    let board = new_board();
    let possible_moves = possible_moves(&Position::new('d', 2), &Color::White, true, &board);
    assert_eq!(possible_moves.len(), 2);
}

#[test]
fn test_possible_second_white_moves() {
    let board = new_board();
    let possible_moves = possible_moves(&Position::new('d', 2), &Color::White, false, &board);
    assert_eq!(possible_moves.len(), 1);
}

#[test]
fn test_possible_first_black_moves() {
    let board = new_board();
    let possible_moves = possible_moves(&Position::new('d', 7), &Color::Black, true, &board);
    assert_eq!(possible_moves.len(), 2);
}

#[test]
fn test_possible_second_black_moves() {
    let board = new_board();
    let possible_moves = possible_moves(&Position::new('d', 7), &Color::Black, false, &board);
    assert_eq!(possible_moves.len(), 1);
}

#[test]
fn moved_pawn_loses_its_double_step() {
    let mut board = new_board();
    let mut pawn = board.get_piece(Position::new('e', 2)).unwrap();
    assert_eq!(pawn.possible_moves(&board).len(), 2);
    assert_eq!(pawn.move_to(Position::new('e', 3), &mut board), Ok(None));
    let moved = board.get_piece(Position::new('e', 3)).unwrap();
    assert_eq!(moved, PieceType::Pawn(Color::White, Position::new('e', 3), false));
    assert_eq!(moved.possible_moves(&board), vec![Position::new('e', 4)]);
}

#[test]
fn pawn_on_the_edge_does_not_capture_across_it() {
    let mut board = empty_board();
    let pawn = PieceType::Pawn(Color::White, Position::new('h', 2), false);
    board.set_piece(&Position::new('h', 2), Some(pawn));
    board.set_piece(
        &Position::new('a', 4),
        Some(PieceType::Rook(Color::Black, Position::new('a', 4))),
    );
    board.set_piece(
        &Position::new('g', 3),
        Some(PieceType::Rook(Color::Black, Position::new('g', 3))),
    );
    assert_eq!(
        pawn.possible_moves(&board),
        vec![Position::new('h', 3), Position::new('g', 3)]
    );
    assert_eq!(
        pawn.can_move_to(Position::new('a', 4), &board),
        Err(ChessError::InvalidMove)
    );
}
