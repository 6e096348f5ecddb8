use chess::ai::generate_move;
use chess::board::{empty_board, new_board};
use chess::pieces::{Color, PieceType};
use chess::Position;

// No opening move changes the material balance, and only a strict gain over
// the zero starting score is ever chosen.
#[test]
fn test_generate_move() {
    let mut board = new_board();
    let best_move = generate_move(Color::White, &mut board);
    assert_eq!(best_move.is_some(), false);
}

#[test]
fn generate_move_takes_the_most_valuable_capture() {
    let mut board = empty_board();
    let rook = PieceType::Rook(Color::White, Position::new('a', 1));
    board.set_piece(&Position::new('a', 1), Some(rook));
    board.set_piece(
        &Position::new('a', 5),
        Some(PieceType::Knight(Color::Black, Position::new('a', 5))),
    );
    board.set_piece(
        &Position::new('e', 1),
        Some(PieceType::Queen(Color::Black, Position::new('e', 1))),
    );
    assert_eq!(
        generate_move(Color::White, &board),
        Some((rook, Position::new('e', 1)))
    );
}

#[test]
fn generate_move_keeps_the_first_of_equal_gains() {
    let mut board = empty_board();
    let rook = PieceType::Rook(Color::White, Position::new('a', 1));
    board.set_piece(&Position::new('a', 1), Some(rook));
    board.set_piece(
        &Position::new('a', 5),
        Some(PieceType::Knight(Color::Black, Position::new('a', 5))),
    );
    board.set_piece(
        &Position::new('e', 1),
        Some(PieceType::Bishop(Color::Black, Position::new('e', 1))),
    );
    assert_eq!(
        generate_move(Color::White, &board),
        Some((rook, Position::new('a', 5)))
    );
}

#[test]
fn generate_move_with_no_pieces_is_none() {
    let board = empty_board();
    assert_eq!(generate_move(Color::Black, &board), None);
}
