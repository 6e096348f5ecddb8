use vstd::prelude::*;

use crate::board::Board;
use crate::pieces::{
    attacked, attacks, attempt, file_delta, guards, holds, holds_color, holds_enemy, king_step,
    lemma_step_moves_contains, move_effect, on_board, rank_delta, square_at, square_attacked,
    square_unsafe, step_moves, Cells, ChessError, Color, PieceType,
};
use crate::Position;

verus! {

/// A king steps to one of the eight neighbouring squares, provided no opposing
/// piece (the other king included) attacks that square once the king has left
/// its own, and it is not held by a piece of the king's color.
pub open spec fn king_rule(s: Cells, from: Position, color: Color, to: Position) -> Result<
    (),
    ChessError,
> {
    if !king_step(from, to) {
        Err(ChessError::InvalidMove)
    } else if square_unsafe(s.update(from.index(), None), color, to) {
        Err(ChessError::UnSafeKing)
    } else if holds_color(s, to, color) {
        Err(ChessError::InvalidCapture)
    } else {
        Ok(())
    }
}

/// The king's eight steps as (file, rank) offsets, in the order they are tried.
pub open spec fn king_delta(k: int) -> (int, int) {
    if k == 0 {
        (-1, 1)
    } else if k == 1 {
        (0, 1)
    } else if k == 2 {
        (1, 1)
    } else if k == 3 {
        (1, 0)
    } else if k == 4 {
        (1, -1)
    } else if k == 5 {
        (0, -1)
    } else if k == 6 {
        (-1, -1)
    } else {
        (-1, 0)
    }
}

/// The king's squares: each step in turn that lands on the board and is legal.
pub open spec fn king_moves(s: Cells, from: Position, color: Color) -> Seq<Position> {
    step_moves(from, |k: int| king_delta(k), |q: Position| king_rule(s, from, color, q) is Ok, 8)
}

/// The king of `color` on `k` can capture the enemy piece on its `j`-th neighbour
/// and stand there out of check, judged on the board with both the king's
/// square and that neighbour emptied.
pub open spec fn escape_via(s: Cells, color: Color, k: Position, j: int) -> bool {
    let f = k.file() + king_delta(j).0;
    let r = k.rank() + king_delta(j).1;
    &&& on_board(f, r)
    &&& holds_enemy(s, Position::at(f, r), color)
    &&& !square_attacked(
        s.update(k.index(), None).update(f + 8 * r, None),
        color,
        Position::at(f, r),
    )
}

/// The king of `color` on `k` has an escape by capturing a neighbouring piece.
/// Moving to an empty neighbour is not considered.
pub open spec fn king_can_escape(s: Cells, color: Color, k: Position) -> bool {
    exists|j: int| 0 <= j < 8 && #[trigger] escape_via(s, color, k, j)
}

fn king_offset(k: usize) -> (r: (i32, i32))
    requires
        k < 8,
    ensures
        r.0 == king_delta(k as int).0,
        r.1 == king_delta(k as int).1,
{
    if k == 0 {
        (-1, 1)
    } else if k == 1 {
        (0, 1)
    } else if k == 2 {
        (1, 1)
    } else if k == 3 {
        (1, 0)
    } else if k == 4 {
        (1, -1)
    } else if k == 5 {
        (0, -1)
    } else if k == 6 {
        (-1, -1)
    } else {
        (-1, 0)
    }
}

/// Moves `king` to `position` when the king rule allows it.
pub fn move_to(king: &PieceType, position: Position, board: &mut Board) -> (r: Result<
    Option<PieceType>,
    ChessError,
>)
    requires
        old(board).wf(),
        king.spec_position().wf(),
        position.wf(),
    ensures
        final(board).wf(),
        match *king {
            PieceType::King(c, from) => move_effect(
                old(board)@,
                final(board)@,
                *king,
                from,
                position,
                king_rule(old(board)@, from, c, position),
                r,
            ),
            _ => r == Err::<Option<PieceType>, ChessError>(ChessError::InvalidPiece)
                && final(board)@ == old(board)@,
        },
{
    match king {
        PieceType::King(_, current_position) => attempt(board, king, current_position, position),
        _ => Err(ChessError::InvalidPiece),
    }
}

/// The king rule for a king of `color` on `current_position`.
pub fn can_move_to(
    current_position: &Position,
    color: &Color,
    position: Position,
    board: &Board,
) -> (r: Result<(), ChessError>)
    requires
        board.wf(),
        current_position.wf(),
        position.wf(),
    ensures
        r == king_rule(board@, *current_position, *color, position),
{
    let a = position.file_i32() - current_position.file_i32();
    let b = position.rank_i32() - current_position.rank_i32();
    if !(-1 <= a && a <= 1 && -1 <= b && b <= 1 && !(a == 0 && b == 0)) {
        return Err(ChessError::InvalidMove);
    }
    let mut vacated = board.snapshot();
    vacated.set_piece(current_position, None);
    if attacked(&vacated, color, &position, true) {
        return Err(ChessError::UnSafeKing);
    }
    if holds(board, &position, color) {
        return Err(ChessError::InvalidCapture);
    }
    Ok(())
}

/// Whether `king` is in check: some opposing piece other than a king attacks its square.
/// Any other piece is never in check.
pub fn is_check(king: PieceType, board: &Board) -> (r: bool)
    requires
        board.wf(),
        king.spec_position().wf(),
    ensures
        r == match king {
            PieceType::King(c, p) => square_attacked(board@, c, p),
            _ => false,
        },
{
    match king {
        PieceType::King(color, position) => attacked(board, &color, &position, false),
        _ => false,
    }
}

/// Whether `king` can get out of check by capturing an adjacent enemy piece.
pub fn can_king_move_safe_position(king: PieceType, board: &Board) -> (r: bool)
    requires
        board.wf(),
        king.spec_position().wf(),
    ensures
        r == match king {
            PieceType::King(c, p) => king_can_escape(board@, c, p),
            _ => false,
        },
{
    match king {
        PieceType::King(color, current_position) => {
            let f0 = current_position.file_i32();
            let r0 = current_position.rank_i32();
            let mut j: usize = 0;
            while j < 8
                invariant
                    board.wf(),
                    king == PieceType::King(color, current_position),
                    current_position.wf(),
                    f0 == current_position.file(),
                    r0 == current_position.rank(),
                    j <= 8,
                    forall|t: int|
                        0 <= t < j ==> !#[trigger] escape_via(board@, color, current_position, t),
                decreases 8 - j,
            {
                let (df, dr) = king_offset(j);
                let f = f0 + df;
                let r = r0 + dr;
                if 0 <= f && f < 8 && 0 <= r && r < 8 {
                    let next_position = square_at(f, r);
                    if let Some(piece) = board.piece_at_index(next_position.to_index() as usize) {
                        if piece.color() != color {
                            let mut probe = board.snapshot();
                            probe.set_piece(&current_position, None);
                            probe.set_piece(&next_position, None);
                            if !attacked(&probe, &color, &next_position, false) {
                                assert(escape_via(board@, color, current_position, j as int));
                                return true;
                            }
                        }
                    }
                }
                j += 1;
            }
            false
        },
        _ => false,
    }
}

/// Every square the king on `current_position` can step to.
pub fn possible_moves(current_position: &Position, color: &Color, board: &Board) -> (r: Vec<
    Position,
>)
    requires
        board.wf(),
        current_position.wf(),
    ensures
        r@ == king_moves(board@, *current_position, *color),
{
    let mut positions: Vec<Position> = Vec::new();
    let f0 = current_position.file_i32();
    let r0 = current_position.rank_i32();
    let mut k: usize = 0;
    while k < 8
        invariant
            board.wf(),
            current_position.wf(),
            f0 == current_position.file(),
            r0 == current_position.rank(),
            k <= 8,
            positions@ == step_moves(
                *current_position,
                |k: int| king_delta(k),
                |q: Position| king_rule(board@, *current_position, *color, q) is Ok,
                k as int,
            ),
        decreases 8 - k,
    {
        let (df, dr) = king_offset(k);
        let f = f0 + df;
        let r = r0 + dr;
        if 0 <= f && f < 8 && 0 <= r && r < 8 {
            let q = square_at(f, r);
            if can_move_to(current_position, color, q, board).is_ok() {
                positions.push(q);
            }
        }
        k += 1;
    }
    positions
}

/// A king may not step onto a square that an opposing queen reaches once the
/// king has left its own square: the move is refused with `UnSafeKing`.
pub proof fn lemma_king_cannot_step_into_queen(
    s: Cells,
    from: Position,
    color: Color,
    to: Position,
    i: int,
)
    requires
        s.len() == 64,
        from.wf(),
        to.wf(),
        0 <= i < 64,
        king_step(from, to),
        s[i] matches Some(PieceType::Queen(c, _)) && c != color,
        attacks(
            s.update(from.index(), None),
            s[i]->Some_0,
            Position::at_index(i),
            to,
        ),
        i != from.index(),
    ensures
        king_rule(s, from, color, to) == Err::<(), ChessError>(ChessError::UnSafeKing),
{
    crate::lemma_index_round_trip(from);
    assert(guards(s.update(from.index(), None), color, i, to));
}

/// A king may capture an adjacent enemy piece that no opposing piece defends.
pub proof fn lemma_king_takes_undefended(s: Cells, from: Position, color: Color, to: Position)
    requires
        s.len() == 64,
        from.wf(),
        to.wf(),
        king_step(from, to),
        holds_enemy(s, to, color),
        !square_unsafe(s.update(from.index(), None), color, to),
    ensures
        king_rule(s, from, color, to) == Ok::<(), ChessError>(()),
{
}

/// The king's move list holds exactly the squares the king rule accepts.
pub proof fn lemma_king_moves_exact(s: Cells, from: Position, color: Color, q: Position)
    requires
        from.wf(),
        q.wf(),
    ensures
        king_moves(s, from, color).contains(q) <==> king_rule(s, from, color, q) is Ok,
{
    let delta = |k: int| king_delta(k);
    let ok = |p: Position| king_rule(s, from, color, p) is Ok;
    lemma_step_moves_contains(from, delta, ok, 8, q);
    if king_rule(s, from, color, q) is Ok {
        let a = file_delta(from, q);
        let b = rank_delta(from, q);
        let i = if a == -1 && b == 1 {
            0
        } else if a == 0 && b == 1 {
            1
        } else if a == 1 && b == 1 {
            2
        } else if a == 1 && b == 0 {
            3
        } else if a == 1 && b == -1 {
            4
        } else if a == 0 && b == -1 {
            5
        } else if a == -1 && b == -1 {
            6
        } else {
            7
        };
        assert(delta(i) == (q.file() - from.file(), q.rank() - from.rank()) && ok(q));
    }
}

} // verus!
