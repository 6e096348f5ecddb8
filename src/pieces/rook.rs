use vstd::prelude::*;

use crate::board::Board;
use crate::pieces::{
    attempt, clear_path, holds, is_straight, lemma_concat_contains, lemma_ray_contains, move_effect,
    path_clear, ray_moves, slide_rule, straight, walk_ray, Cells, ChessError, Color, PieceType,
};
use crate::Position;

verus! {

/// A rook moves any distance along its rank or file through empty squares,
/// and may end on an enemy piece.
pub open spec fn rook_rule(s: Cells, from: Position, color: Color, to: Position) -> Result<
    (),
    ChessError,
> {
    slide_rule(s, from, color, to, straight(from, to))
}

/// The rook's squares: up the file, right along the rank, down, then left.
pub open spec fn rook_moves(s: Cells, from: Position, color: Color) -> Seq<Position> {
    let f = from.file();
    let r = from.rank();
    ray_moves(s, color, f, r, 0, 1) + ray_moves(s, color, f, r, 1, 0) + ray_moves(
        s,
        color,
        f,
        r,
        0,
        -1,
    ) + ray_moves(s, color, f, r, -1, 0)
}

/// Moves `rook` to `position` when the rook rule allows it.
pub fn move_to(rook: &PieceType, position: Position, board: &mut Board) -> (r: Result<
    Option<PieceType>,
    ChessError,
>)
    requires
        old(board).wf(),
        rook.spec_position().wf(),
        position.wf(),
    ensures
        final(board).wf(),
        match *rook {
            PieceType::Rook(c, from) => move_effect(
                old(board)@,
                final(board)@,
                *rook,
                from,
                position,
                rook_rule(old(board)@, from, c, position),
                r,
            ),
            _ => r == Err::<Option<PieceType>, ChessError>(ChessError::InvalidPiece)
                && final(board)@ == old(board)@,
        },
{
    match rook {
        PieceType::Rook(_, current_position) => attempt(board, rook, current_position, position),
        _ => Err(ChessError::InvalidPiece),
    }
}

/// The rook rule for a rook of `color` on `current_position`.
pub fn can_move_to(
    current_position: &Position,
    color: &Color,
    position: Position,
    board: &Board,
) -> (r: Result<(), ChessError>)
    requires
        board.wf(),
        current_position.wf(),
        position.wf(),
    ensures
        r == rook_rule(board@, *current_position, *color, position),
{
    if !is_straight(current_position, &position) {
        return Err(ChessError::InvalidMove);
    }
    let old_index = current_position.to_index();
    let new_index = position.to_index();
    proof {
        crate::lemma_index_round_trip(*current_position);
        crate::lemma_index_round_trip(position);
    }
    if let Err(e) = rook_move(board, old_index, new_index, new_index - old_index) {
        return Err(e);
    }
    if holds(board, &position, color) {
        return Err(ChessError::InvalidCapture);
    }
    Ok(())
}

/// Checks that the squares strictly between two cells on one rank or file are empty.
pub fn rook_move(board: &Board, old_index: i32, new_index: i32, jump: i32) -> (r: Result<
    (),
    ChessError,
>)
    requires
        board.wf(),
        0 <= old_index < 64,
        0 <= new_index < 64,
        jump == new_index - old_index,
        straight(Position::at_index(old_index as int), Position::at_index(new_index as int)),
    ensures
        r == if path_clear(
            board@,
            Position::at_index(old_index as int),
            Position::at_index(new_index as int),
        ) {
            Ok::<(), ChessError>(())
        } else {
            Err(ChessError::BlockedMove)
        },
{
    let from = Position::from_index(old_index);
    let to = Position::from_index(new_index);
    if clear_path(board, from, to) {
        Ok(())
    } else {
        Err(ChessError::BlockedMove)
    }
}

/// Every square the rook on `current_position` can move to, ray by ray.
pub fn possible_moves(current_position: &Position, color: &Color, board: &Board) -> (r: Vec<
    Position,
>)
    requires
        board.wf(),
        current_position.wf(),
    ensures
        r@ == rook_moves(board@, *current_position, *color),
{
    let mut positions: Vec<Position> = Vec::new();
    walk_ray(board, *color, *current_position, 0, 1, &mut positions);
    walk_ray(board, *color, *current_position, 1, 0, &mut positions);
    walk_ray(board, *color, *current_position, 0, -1, &mut positions);
    walk_ray(board, *color, *current_position, -1, 0, &mut positions);
    assert(positions@ =~= rook_moves(board@, *current_position, *color));
    positions
}

/// The rook's move list holds exactly the squares the rook rule accepts.
pub proof fn lemma_rook_moves_exact(s: Cells, from: Position, color: Color, q: Position)
    requires
        s.len() == 64,
        from.wf(),
        q.wf(),
    ensures
        rook_moves(s, from, color).contains(q) <==> rook_rule(s, from, color, q) is Ok,
{
    let f = from.file();
    let r = from.rank();
    let up = ray_moves(s, color, f, r, 0, 1);
    let right = ray_moves(s, color, f, r, 1, 0);
    let down = ray_moves(s, color, f, r, 0, -1);
    let left = ray_moves(s, color, f, r, -1, 0);
    lemma_ray_contains(s, color, from, 0, 1, q);
    lemma_ray_contains(s, color, from, 1, 0, q);
    lemma_ray_contains(s, color, from, 0, -1, q);
    lemma_ray_contains(s, color, from, -1, 0, q);
    lemma_concat_contains(up, right, q);
    lemma_concat_contains(up + right, down, q);
    lemma_concat_contains(up + right + down, left, q);
}

} // verus!
