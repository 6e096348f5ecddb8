use vstd::prelude::*;

use crate::board::Board;
use crate::pieces::{
    attempt, file_delta, holds, holds_color, knight_jump, lemma_step_moves_contains, move_effect,
    rank_delta, square_at, step_moves, Cells, ChessError, Color, PieceType,
};
use crate::Position;

verus! {

/// A knight jumps two squares one way and one the other, and may land on an enemy piece.
pub open spec fn knight_rule(s: Cells, from: Position, color: Color, to: Position) -> Result<
    (),
    ChessError,
> {
    if !knight_jump(from, to) {
        Err(ChessError::InvalidMove)
    } else if holds_color(s, to, color) {
        Err(ChessError::InvalidCapture)
    } else {
        Ok(())
    }
}

/// The knight's eight jumps as (file, rank) offsets, in the order they are tried.
pub open spec fn knight_delta(k: int) -> (int, int) {
    if k == 0 {
        (-2, 1)
    } else if k == 1 {
        (2, 1)
    } else if k == 2 {
        (-1, 2)
    } else if k == 3 {
        (1, 2)
    } else if k == 4 {
        (2, -1)
    } else if k == 5 {
        (-2, -1)
    } else if k == 6 {
        (1, -2)
    } else {
        (-1, -2)
    }
}

/// The knight's squares: each jump in turn that lands on the board and is legal.
pub open spec fn knight_moves(s: Cells, from: Position, color: Color) -> Seq<Position> {
    step_moves(
        from,
        |k: int| knight_delta(k),
        |q: Position| knight_rule(s, from, color, q) is Ok,
        8,
    )
}

fn knight_offset(k: usize) -> (r: (i32, i32))
    requires
        k < 8,
    ensures
        r.0 == knight_delta(k as int).0,
        r.1 == knight_delta(k as int).1,
{
    if k == 0 {
        (-2, 1)
    } else if k == 1 {
        (2, 1)
    } else if k == 2 {
        (-1, 2)
    } else if k == 3 {
        (1, 2)
    } else if k == 4 {
        (2, -1)
    } else if k == 5 {
        (-2, -1)
    } else if k == 6 {
        (1, -2)
    } else {
        (-1, -2)
    }
}

/// Moves `knight` to `position` when the knight rule allows it.
pub fn move_to(knight: &PieceType, position: Position, board: &mut Board) -> (r: Result<
    Option<PieceType>,
    ChessError,
>)
    requires
        old(board).wf(),
        knight.spec_position().wf(),
        position.wf(),
    ensures
        final(board).wf(),
        match *knight {
            PieceType::Knight(c, from) => move_effect(
                old(board)@,
                final(board)@,
                *knight,
                from,
                position,
                knight_rule(old(board)@, from, c, position),
                r,
            ),
            _ => r == Err::<Option<PieceType>, ChessError>(ChessError::InvalidPiece)
                && final(board)@ == old(board)@,
        },
{
    match knight {
        PieceType::Knight(_, current_position) => attempt(
            board,
            knight,
            current_position,
            position,
        ),
        _ => Err(ChessError::InvalidPiece),
    }
}

/// The knight rule for a knight of `color` on `current_position`.
pub fn can_move_to(
    current_position: &Position,
    color: &Color,
    position: Position,
    board: &Board,
) -> (r: Result<(), ChessError>)
    requires
        board.wf(),
        current_position.wf(),
        position.wf(),
    ensures
        r == knight_rule(board@, *current_position, *color, position),
{
    let a = position.file_i32() - current_position.file_i32();
    let b = position.rank_i32() - current_position.rank_i32();
    let a = if a < 0 {
        -a
    } else {
        a
    };
    let b = if b < 0 {
        -b
    } else {
        b
    };
    if !((a == 1 && b == 2) || (a == 2 && b == 1)) {
        return Err(ChessError::InvalidMove);
    }
    if holds(board, &position, color) {
        return Err(ChessError::InvalidCapture);
    }
    Ok(())
}

/// Every square the knight on `current_position` can jump to.
pub fn possible_moves(current_position: &Position, color: &Color, board: &Board) -> (r: Vec<
    Position,
>)
    requires
        board.wf(),
        current_position.wf(),
    ensures
        r@ == knight_moves(board@, *current_position, *color),
{
    let mut positions: Vec<Position> = Vec::new();
    let f0 = current_position.file_i32();
    let r0 = current_position.rank_i32();
    let mut k: usize = 0;
    while k < 8
        invariant
            board.wf(),
            current_position.wf(),
            f0 == current_position.file(),
            r0 == current_position.rank(),
            k <= 8,
            positions@ == step_moves(
                *current_position,
                |k: int| knight_delta(k),
                |q: Position| knight_rule(board@, *current_position, *color, q) is Ok,
                k as int,
            ),
        decreases 8 - k,
    {
        let (df, dr) = knight_offset(k);
        let f = f0 + df;
        let r = r0 + dr;
        if 0 <= f && f < 8 && 0 <= r && r < 8 {
            let q = square_at(f, r);
            if can_move_to(current_position, color, q, board).is_ok() {
                positions.push(q);
            }
        }
        k += 1;
    }
    positions
}

/// The knight's move list holds exactly the squares the knight rule accepts.
pub proof fn lemma_knight_moves_exact(s: Cells, from: Position, color: Color, q: Position)
    requires
        from.wf(),
        q.wf(),
    ensures
        knight_moves(s, from, color).contains(q) <==> knight_rule(s, from, color, q) is Ok,
{
    let delta = |k: int| knight_delta(k);
    let ok = |p: Position| knight_rule(s, from, color, p) is Ok;
    lemma_step_moves_contains(from, delta, ok, 8, q);
    if knight_rule(s, from, color, q) is Ok {
        let a = file_delta(from, q);
        let b = rank_delta(from, q);
        let i = if a == -2 && b == 1 {
            0
        } else if a == 2 && b == 1 {
            1
        } else if a == -1 && b == 2 {
            2
        } else if a == 1 && b == 2 {
            3
        } else if a == 2 && b == -1 {
            4
        } else if a == -2 && b == -1 {
            5
        } else if a == 1 && b == -2 {
            6
        } else {
            7
        };
        assert(delta(i) == (q.file() - from.file(), q.rank() - from.rank()) && ok(q));
    }
}

} // verus!
