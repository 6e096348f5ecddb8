use vstd::prelude::*;

use crate::board::{material_score, Board};
use crate::pieces::{after_move, moves, moves_from, rule, Cells, Color, PieceType};
use crate::Position;

verus! {

/// A candidate move: the piece, the cell it stands on, and its target.
pub type Candidate = (PieceType, Position, Position);

/// The best score found so far and the move that reached it first.
pub type Best = (int, Option<(PieceType, Position)>);

/// The candidates of the piece on cell `i`, if it belongs to `color`, in its move order.
pub open spec fn cell_candidates(s: Cells, color: Color, i: int) -> Seq<Candidate> {
    match s[i] {
        Some(p) => if p.spec_color() == color {
            moves(s, p, Position::at_index(i)).map_values(
                |t: Position| (p, Position::at_index(i), t),
            )
        } else {
            seq![]
        },
        None => seq![],
    }
}

/// The candidates of `color` on the first `n` cells, cell by cell.
pub open spec fn candidates(s: Cells, color: Color, n: int) -> Seq<Candidate>
    decreases n,
{
    if n <= 0 {
        seq![]
    } else {
        candidates(s, color, n - 1) + cell_candidates(s, color, n - 1)
    }
}

/// Takes candidate `c` into account: when it is legal and the material score
/// of `color` after it beats the best so far, it becomes the best.
pub open spec fn consider(s: Cells, color: Color, best: Best, c: Candidate) -> Best {
    match rule(s, c.0, c.1, c.2) {
        Ok(_) => {
            let v = material_score(after_move(s, c.0, c.1, c.2), color);
            if v > best.0 {
                (v, Some((c.0, c.2)))
            } else {
                best
            }
        },
        Err(_) => best,
    }
}

/// Runs through `cands` in order, starting from score 0 and no move.
pub open spec fn best_of(s: Cells, color: Color, cands: Seq<Candidate>) -> Best
    decreases cands.len(),
{
    if cands.len() == 0 {
        (0, None)
    } else {
        consider(s, color, best_of(s, color, cands.drop_last()), cands.last())
    }
}

/// Picks, over every possible move of every piece of `color` in cell order,
/// the first move whose resulting material score is highest, provided that
/// score is above zero; otherwise no move.
pub fn generate_move(color: Color, board: &Board) -> (r: Option<(PieceType, Position)>)
    requires
        board.wf(),
    ensures
        r == best_of(board@, color, candidates(board@, color, 64)).1,
{
    let ghost s = board@;
    let mut best_score: i16 = 0;
    let mut best_move: Option<(PieceType, Position)> = None;
    let mut i: usize = 0;
    while i < 64
        invariant
            board.wf(),
            s == board@,
            i <= 64,
            (best_score as int, best_move) == best_of(s, color, candidates(s, color, i as int)),
        decreases 64 - i,
    {
        let ghost prefix = candidates(s, color, i as int);
        let ghost here = cell_candidates(s, color, i as int);
        match board.piece_at_index(i) {
            Some(piece) => {
                if piece.color() == color {
                    let from = Position::from_index(i as i32);
                    let targets = moves_from(board, &piece, &from);
                    let mut j: usize = 0;
                    while j < targets.len()
                        invariant
                            board.wf(),
                            s == board@,
                            i < 64,
                            s[i as int] == Some(piece),
                            piece.spec_color() == color,
                            from == Position::at_index(i as int),
                            from.wf(),
                            targets@ == moves(s, piece, from),
                            forall|k: int| 0 <= k < targets@.len() ==> (#[trigger] targets@[k]).wf(),
                            here == targets@.map_values(|t: Position| (piece, from, t)),
                            j <= targets@.len(),
                            (best_score as int, best_move) == best_of(
                                s,
                                color,
                                prefix + here.take(j as int),
                            ),
                        decreases targets@.len() - j,
                    {
                        let target = targets[j];
                        proof {
                            assert((prefix + here.take(j as int + 1)).drop_last() =~= prefix
                                + here.take(j as int));
                            assert((prefix + here.take(j as int + 1)).last() == here[j as int]);
                        }
                        let mut future = board.snapshot();
                        if let Ok(_) = future.move_piece(from, target) {
                            let score = future.evaluate(&color);
                            if score > best_score {
                                best_score = score;
                                best_move = Some((piece, target));
                            }
                        }
                        j += 1;
                    }
                    assert(here.take(targets@.len() as int) =~= here);
                } else {
                    assert(here =~= seq![]);
                }
            },
            None => {
                assert(here =~= seq![]);
            },
        }
        assert(candidates(s, color, i as int + 1) == prefix + here);
        assert(prefix + here.take(here.len() as int) =~= prefix + here);
        i += 1;
    }
    best_move
}

} // verus!
