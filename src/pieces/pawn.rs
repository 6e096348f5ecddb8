use vstd::prelude::*;

use crate::board::Board;
use crate::pieces::{
    abs, attempt, file_delta, holds_enemy, lemma_step_moves_contains, move_effect, rank_delta,
    square_at, step_moves, Cells, ChessError, Color, PieceType,
};
use crate::Position;

verus! {

/// A pawn steps one square forward onto an empty square, or two on its first
/// move, and captures one square diagonally forward. Forward is up the board
/// for White and down for Black. There is no promotion and no en passant.
pub open spec fn pawn_rule(s: Cells, from: Position, color: Color, first: bool, to: Position) -> Result<
    (),
    ChessError,
> {
    let a = file_delta(from, to);
    let b = rank_delta(from, to);
    let d = color.forward();
    let empty = s[to.index()] is None;
    if (a == 0 && b == d && empty) || (a == 0 && b == 2 * d && first && empty) || (abs(a) == 1 && b
        == d && holds_enemy(s, to, color)) {
        Ok(())
    } else {
        Err(ChessError::InvalidMove)
    }
}

/// The pawn's candidate offsets, in the order they are tried: one step, two
/// steps, then the two captures.
pub open spec fn pawn_delta(color: Color, k: int) -> (int, int) {
    match color {
        Color::White => if k == 0 {
            (0, 1)
        } else if k == 1 {
            (0, 2)
        } else if k == 2 {
            (-1, 1)
        } else {
            (1, 1)
        },
        Color::Black => if k == 0 {
            (0, -1)
        } else if k == 1 {
            (0, -2)
        } else if k == 2 {
            (1, -1)
        } else {
            (-1, -1)
        },
    }
}

/// The pawn's squares: each candidate in turn that lies on the board and is legal.
pub open spec fn pawn_moves(s: Cells, from: Position, color: Color, first: bool) -> Seq<Position> {
    step_moves(
        from,
        |k: int| pawn_delta(color, k),
        |q: Position| pawn_rule(s, from, color, first, q) is Ok,
        4,
    )
}

fn pawn_offset(color: &Color, k: usize) -> (r: (i32, i32))
    requires
        k < 4,
    ensures
        r.0 == pawn_delta(*color, k as int).0,
        r.1 == pawn_delta(*color, k as int).1,
{
    match color {
        Color::White => if k == 0 {
            (0, 1)
        } else if k == 1 {
            (0, 2)
        } else if k == 2 {
            (-1, 1)
        } else {
            (1, 1)
        },
        Color::Black => if k == 0 {
            (0, -1)
        } else if k == 1 {
            (0, -2)
        } else if k == 2 {
            (1, -1)
        } else {
            (-1, -1)
        },
    }
}

/// Moves `pawn` to `position` when the pawn rule allows it; the moved pawn
/// has used its first move.
pub fn pawn_move_to(pawn: &PieceType, position: Position, board: &mut Board) -> (r: Result<
    Option<PieceType>,
    ChessError,
>)
    requires
        old(board).wf(),
        pawn.spec_position().wf(),
        position.wf(),
    ensures
        final(board).wf(),
        match *pawn {
            PieceType::Pawn(c, from, first) => move_effect(
                old(board)@,
                final(board)@,
                *pawn,
                from,
                position,
                pawn_rule(old(board)@, from, c, first, position),
                r,
            ),
            _ => r == Err::<Option<PieceType>, ChessError>(ChessError::InvalidPiece)
                && final(board)@ == old(board)@,
        },
{
    match pawn {
        PieceType::Pawn(_, current_position, _) => attempt(board, pawn, current_position, position),
        _ => Err(ChessError::InvalidPiece),
    }
}

/// The pawn rule for a pawn of `color` on `current_position`.
pub fn can_move_to(
    current_position: &Position,
    color: &Color,
    is_first_move: bool,
    position: Position,
    board: &Board,
) -> (r: Result<(), ChessError>)
    requires
        board.wf(),
        current_position.wf(),
        position.wf(),
    ensures
        r == pawn_rule(board@, *current_position, *color, is_first_move, position),
{
    let a = position.file_i32() - current_position.file_i32();
    let b = position.rank_i32() - current_position.rank_i32();
    let d: i32 = match color {
        Color::White => 1,
        Color::Black => -1,
    };
    let occupant = board.piece_at_index(position.to_index() as usize);
    let empty = occupant.is_none();
    let enemy = match occupant {
        Some(p) => p.color() != *color,
        None => false,
    };
    if (a == 0 && b == d && empty) || (a == 0 && b == 2 * d && is_first_move && empty) || ((a == 1
        || a == -1) && b == d && enemy) {
        Ok(())
    } else {
        Err(ChessError::InvalidMove)
    }
}

/// Every square the pawn on `current_position` can move to.
pub fn possible_moves(
    current_position: &Position,
    color: &Color,
    is_first_move: bool,
    board: &Board,
) -> (r: Vec<Position>)
    requires
        board.wf(),
        current_position.wf(),
    ensures
        r@ == pawn_moves(board@, *current_position, *color, is_first_move),
{
    let mut positions: Vec<Position> = Vec::new();
    let f0 = current_position.file_i32();
    let r0 = current_position.rank_i32();
    let mut k: usize = 0;
    while k < 4
        invariant
            board.wf(),
            current_position.wf(),
            f0 == current_position.file(),
            r0 == current_position.rank(),
            k <= 4,
            positions@ == step_moves(
                *current_position,
                |k: int| pawn_delta(*color, k),
                |q: Position| pawn_rule(board@, *current_position, *color, is_first_move, q) is Ok,
                k as int,
            ),
        decreases 4 - k,
    {
        let (df, dr) = pawn_offset(color, k);
        let f = f0 + df;
        let r = r0 + dr;
        if 0 <= f && f < 8 && 0 <= r && r < 8 {
            let q = square_at(f, r);
            if can_move_to(current_position, color, is_first_move, q, board).is_ok() {
                positions.push(q);
            }
        }
        k += 1;
    }
    positions
}

/// The pawn's move list holds exactly the squares the pawn rule accepts.
pub proof fn lemma_pawn_moves_exact(
    s: Cells,
    from: Position,
    color: Color,
    first: bool,
    q: Position,
)
    requires
        from.wf(),
        q.wf(),
    ensures
        pawn_moves(s, from, color, first).contains(q) <==> pawn_rule(s, from, color, first, q) is Ok,
{
    let delta = |k: int| pawn_delta(color, k);
    let ok = |p: Position| pawn_rule(s, from, color, first, p) is Ok;
    lemma_step_moves_contains(from, delta, ok, 4, q);
    if pawn_rule(s, from, color, first, q) is Ok {
        let a = file_delta(from, q);
        let b = rank_delta(from, q);
        let d = color.forward();
        let i = if a == 0 && b == d {
            0
        } else if a == 0 {
            1
        } else if a == -d {
            2
        } else {
            3
        };
        assert(delta(i) == (q.file() - from.file(), q.rank() - from.rank()) && ok(q));
    }
}

} // verus!
