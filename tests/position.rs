use chess::board::{empty_board, new_board};
use chess::pieces::{Color, PieceType};
use chess::Position;

#[test]
fn test_position_to_index() {
    let position = Position::new('a', 1);
    assert_eq!(position.to_index(), 0);
    let position = Position::new('h', 8);
    assert_eq!(position.to_index(), 63);
    let position = Position::new('e', 4);
    assert_eq!(position.to_index(), 28);
    let position = Position::new('c', 6);
    assert_eq!(position.to_index(), 42);
}

#[test]
fn test_black_king_check() {
    let mut board = empty_board();
    let black_king = PieceType::King(Color::Black, Position::new('e', 8));
    let white_queen = PieceType::Queen(Color::White, Position::new('f', 7));
    board.set_piece(&Position::new('e', 8), Some(black_king));
    board.set_piece(&Position::new('f', 7), Some(white_queen));

    let is_check = board.is_king_check(&Color::Black);
    assert_eq!(is_check, true);
}

#[test]
fn lib_test_king_not_check() {
    let mut board = empty_board();
    let king = PieceType::King(Color::White, Position::new('e', 6));
    let black_queen = PieceType::Queen(Color::Black, Position::new('f', 8));
    board.set_piece(&Position::new('e', 6), Some(king));
    board.set_piece(&Position::new('f', 8), Some(black_queen));

    let is_check = board.is_king_check(&Color::White);
    assert_eq!(is_check, false);
}

#[test]
fn test_from_index() {
    let position = Position::from_index(0);
    assert_eq!(position.x, 'a');
    assert_eq!(position.y, 1);

    let position = Position::from_index(63);
    assert_eq!(position.x, 'h');
    assert_eq!(position.y, 8);

    let position = Position::from_index(28);
    assert_eq!(position.x, 'e');
    assert_eq!(position.y, 4);

    let position = Position::from_index(42);
    assert_eq!(position.x, 'c');
    assert_eq!(position.y, 6);

    let position = Position::from_index(3);
    assert_eq!(position.x, 'd');
    assert_eq!(position.y, 1);
}

#[test]
fn index_round_trip_on_every_square() {
    for file in ['a', 'b', 'c', 'd', 'e', 'f', 'g', 'h'] {
        for rank in 1..=8i8 {
            let p = Position::new(file, rank);
            assert_eq!(Position::from_index(p.to_index()), p);
        }
    }
    for i in 0..64 {
        assert_eq!(Position::from_index(i).to_index(), i);
    }
}

#[test]
fn parse_reads_file_and_rank() {
    assert_eq!(Position::parse('e', '2'), Some(Position::new('e', 2)));
    assert_eq!(Position::parse('h', '8'), Some(Position::new('h', 8)));
    assert_eq!(Position::parse('i', '2'), None);
    assert_eq!(Position::parse('a', '9'), None);
    assert_eq!(Position::parse('a', '0'), None);
}

#[test]
fn new_board_has_opening_layout() {
    let board = new_board();
    assert_eq!(
        board.get_piece(Position::new('e', 1)),
        Some(PieceType::King(Color::White, Position::new('e', 1)))
    );
    assert_eq!(
        board.get_piece(Position::new('d', 8)),
        Some(PieceType::Queen(Color::Black, Position::new('d', 8)))
    );
    assert_eq!(
        board.get_piece(Position::new('c', 7)),
        Some(PieceType::Pawn(Color::Black, Position::new('c', 7), true))
    );
    assert_eq!(board.get_piece(Position::new('e', 4)), None);
    assert_eq!(board.get_all_white_pieces().len(), 16);
    assert_eq!(board.get_all_black_pieces().len(), 16);
    assert_eq!(
        board.get_all_white_pieces()[0],
        PieceType::Rook(Color::White, Position::new('a', 1))
    );
}
