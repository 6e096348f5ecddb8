use vstd::prelude::*;

use crate::board::Board;
use crate::pieces::{
    attempt, clear_path, diagonal, holds, is_diagonal, lemma_concat_contains, lemma_ray_contains,
    move_effect, path_clear, ray_moves, slide_rule, walk_ray, Cells, ChessError, Color, PieceType,
};
use crate::Position;

verus! {

/// A bishop moves any distance along a diagonal through empty squares,
/// and may end on an enemy piece.
pub open spec fn bishop_rule(s: Cells, from: Position, color: Color, to: Position) -> Result<
    (),
    ChessError,
> {
    slide_rule(s, from, color, to, diagonal(from, to))
}

/// The bishop's squares: up-left, up-right, down-right, then down-left.
pub open spec fn bishop_moves(s: Cells, from: Position, color: Color) -> Seq<Position> {
    let f = from.file();
    let r = from.rank();
    ray_moves(s, color, f, r, -1, 1) + ray_moves(s, color, f, r, 1, 1) + ray_moves(
        s,
        color,
        f,
        r,
        1,
        -1,
    ) + ray_moves(s, color, f, r, -1, -1)
}

/// Moves `bishop` to `position` when the bishop rule allows it.
pub fn move_to(bishop: &PieceType, position: Position, board: &mut Board) -> (r: Result<
    Option<PieceType>,
    ChessError,
>)
    requires
        old(board).wf(),
        bishop.spec_position().wf(),
        position.wf(),
    ensures
        final(board).wf(),
        match *bishop {
            PieceType::Bishop(c, from) => move_effect(
                old(board)@,
                final(board)@,
                *bishop,
                from,
                position,
                bishop_rule(old(board)@, from, c, position),
                r,
            ),
            _ => r == Err::<Option<PieceType>, ChessError>(ChessError::InvalidPiece)
                && final(board)@ == old(board)@,
        },
{
    match bishop {
        PieceType::Bishop(_, current_position) => attempt(board, bishop, current_position, position),
        _ => Err(ChessError::InvalidPiece),
    }
}

/// The bishop rule for a bishop of `color` on `current_position`.
pub fn can_move_to(
    current_position: &Position,
    color: &Color,
    position: Position,
    board: &Board,
) -> (r: Result<(), ChessError>)
    requires
        board.wf(),
        current_position.wf(),
        position.wf(),
    ensures
        r == bishop_rule(board@, *current_position, *color, position),
{
    if !is_diagonal(current_position, &position) {
        return Err(ChessError::InvalidMove);
    }
    let old_index = current_position.to_index();
    let new_index = position.to_index();
    proof {
        crate::lemma_index_round_trip(*current_position);
        crate::lemma_index_round_trip(position);
    }
    if let Err(e) = bishop_move(board, old_index, new_index, new_index - old_index) {
        return Err(e);
    }
    if holds(board, &position, color) {
        return Err(ChessError::InvalidCapture);
    }
    Ok(())
}

/// Checks that the squares strictly between two cells on one diagonal are empty.
pub fn bishop_move(board: &Board, old_index: i32, new_index: i32, jump: i32) -> (r: Result<
    (),
    ChessError,
>)
    requires
        board.wf(),
        0 <= old_index < 64,
        0 <= new_index < 64,
        jump == new_index - old_index,
        diagonal(Position::at_index(old_index as int), Position::at_index(new_index as int)),
    ensures
        r == if path_clear(
            board@,
            Position::at_index(old_index as int),
            Position::at_index(new_index as int),
        ) {
            Ok::<(), ChessError>(())
        } else {
            Err(ChessError::BlockedMove)
        },
{
    let from = Position::from_index(old_index);
    let to = Position::from_index(new_index);
    if clear_path(board, from, to) {
        Ok(())
    } else {
        Err(ChessError::BlockedMove)
    }
}

/// Every square the bishop on `current_position` can move to, ray by ray.
pub fn possible_moves(current_position: &Position, color: &Color, board: &Board) -> (r: Vec<
    Position,
>)
    requires
        board.wf(),
        current_position.wf(),
    ensures
        r@ == bishop_moves(board@, *current_position, *color),
{
    let mut positions: Vec<Position> = Vec::new();
    walk_ray(board, *color, *current_position, -1, 1, &mut positions);
    walk_ray(board, *color, *current_position, 1, 1, &mut positions);
    walk_ray(board, *color, *current_position, 1, -1, &mut positions);
    walk_ray(board, *color, *current_position, -1, -1, &mut positions);
    assert(positions@ =~= bishop_moves(board@, *current_position, *color));
    positions
}

/// The bishop's move list holds exactly the squares the bishop rule accepts.
pub proof fn lemma_bishop_moves_exact(s: Cells, from: Position, color: Color, q: Position)
    requires
        s.len() == 64,
        from.wf(),
        q.wf(),
    ensures
        bishop_moves(s, from, color).contains(q) <==> bishop_rule(s, from, color, q) is Ok,
{
    let f = from.file();
    let r = from.rank();
    let a = ray_moves(s, color, f, r, -1, 1);
    let b = ray_moves(s, color, f, r, 1, 1);
    let c = ray_moves(s, color, f, r, 1, -1);
    let d = ray_moves(s, color, f, r, -1, -1);
    lemma_ray_contains(s, color, from, -1, 1, q);
    lemma_ray_contains(s, color, from, 1, 1, q);
    lemma_ray_contains(s, color, from, 1, -1, q);
    lemma_ray_contains(s, color, from, -1, -1, q);
    lemma_concat_contains(a, b, q);
    lemma_concat_contains(a + b, c, q);
    lemma_concat_contains(a + b + c, d, q);
}

} // verus!
