use vstd::prelude::*;

use crate::board::Board;
use crate::pieces::bishop::{bishop_move, bishop_moves, lemma_bishop_moves_exact};
use crate::pieces::rook::{lemma_rook_moves_exact, rook_move, rook_moves};
use crate::pieces::lemma_concat_contains;
use crate::pieces::{
    attempt, diagonal, holds, is_diagonal, is_straight, move_effect, slide_rule, straight, Cells,
    ChessError, Color, PieceType,
};
use crate::Position;

verus! {

/// A queen moves like a rook or like a bishop.
pub open spec fn queen_rule(s: Cells, from: Position, color: Color, to: Position) -> Result<
    (),
    ChessError,
> {
    slide_rule(s, from, color, to, straight(from, to) || diagonal(from, to))
}

/// The queen's squares: the bishop's rays, then the rook's.
pub open spec fn queen_moves(s: Cells, from: Position, color: Color) -> Seq<Position> {
    bishop_moves(s, from, color) + rook_moves(s, from, color)
}

/// Moves `queen` to `position` when the queen rule allows it.
pub fn move_to(queen: &PieceType, position: Position, board: &mut Board) -> (r: Result<
    Option<PieceType>,
    ChessError,
>)
    requires
        old(board).wf(),
        queen.spec_position().wf(),
        position.wf(),
    ensures
        final(board).wf(),
        match *queen {
            PieceType::Queen(c, from) => move_effect(
                old(board)@,
                final(board)@,
                *queen,
                from,
                position,
                queen_rule(old(board)@, from, c, position),
                r,
            ),
            _ => r == Err::<Option<PieceType>, ChessError>(ChessError::InvalidPiece)
                && final(board)@ == old(board)@,
        },
{
    match queen {
        PieceType::Queen(_, current_position) => attempt(board, queen, current_position, position),
        _ => Err(ChessError::InvalidPiece),
    }
}

/// The queen rule for a queen of `color` on `current_position`.
pub fn can_move_to(
    current_position: &Position,
    color: &Color,
    position: Position,
    board: &Board,
) -> (r: Result<(), ChessError>)
    requires
        board.wf(),
        current_position.wf(),
        position.wf(),
    ensures
        r == queen_rule(board@, *current_position, *color, position),
{
    let old_index = current_position.to_index();
    let new_index = position.to_index();
    proof {
        crate::lemma_index_round_trip(*current_position);
        crate::lemma_index_round_trip(position);
    }
    if is_straight(current_position, &position) {
        if let Err(e) = rook_move(board, old_index, new_index, new_index - old_index) {
            return Err(e);
        }
    } else if is_diagonal(current_position, &position) {
        if let Err(e) = bishop_move(board, old_index, new_index, new_index - old_index) {
            return Err(e);
        }
    } else {
        return Err(ChessError::InvalidMove);
    }
    if holds(board, &position, color) {
        return Err(ChessError::InvalidCapture);
    }
    Ok(())
}

/// Every square the queen on `current_position` can move to.
pub fn possible_moves(current_position: &Position, color: &Color, board: &Board) -> (r: Vec<
    Position,
>)
    requires
        board.wf(),
        current_position.wf(),
    ensures
        r@ == queen_moves(board@, *current_position, *color),
{
    let mut positions = crate::pieces::bishop::possible_moves(current_position, color, board);
    let mut rook_positions = crate::pieces::rook::possible_moves(current_position, color, board);
    positions.append(&mut rook_positions);
    positions
}

/// The queen's move list holds exactly the squares the queen rule accepts.
pub proof fn lemma_queen_moves_exact(s: Cells, from: Position, color: Color, q: Position)
    requires
        s.len() == 64,
        from.wf(),
        q.wf(),
    ensures
        queen_moves(s, from, color).contains(q) <==> queen_rule(s, from, color, q) is Ok,
{
    lemma_bishop_moves_exact(s, from, color, q);
    lemma_rook_moves_exact(s, from, color, q);
    lemma_concat_contains(bishop_moves(s, from, color), rook_moves(s, from, color), q);
}

} // verus!
