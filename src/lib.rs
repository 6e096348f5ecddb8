use vstd::prelude::*;

use crate::board::{king_checked_at, new_board, opening, Board};
use crate::pieces::{after_move, rule, Cells, ChessError, Color, PieceType};

pub mod ai;
pub mod board;
pub mod pieces;

verus! {

/// A square of the board, written as a file letter `'a'..='h'` and a rank `1..=8`.
#[derive(Debug, Clone, Copy, PartialEq, Eq, Structural)]
pub struct Position {
    pub x: char,
    pub y: i8,
}

impl Position {
    /// Zero-based file: `'a'` is 0, `'h'` is 7.
    pub open spec fn file(self) -> int {
        self.x as int - 97
    }

    /// Zero-based rank: rank 1 is 0, rank 8 is 7.
    pub open spec fn rank(self) -> int {
        self.y as int - 1
    }

    /// The position names a square of the board.
    pub open spec fn wf(self) -> bool {
        &&& 'a' <= self.x <= 'h'
        &&& 1 <= self.y <= 8
    }

    /// The flat cell index of the square, `file + 8 * rank`.
    pub open spec fn index(self) -> int {
        self.file() + 8 * self.rank()
    }

    /// The position of the square with zero-based coordinates `(f, r)`.
    pub open spec fn at(f: int, r: int) -> Position {
        Position { x: (f + 97) as char, y: (r + 1) as i8 }
    }

    /// The position of the square with flat cell index `i`.
    pub open spec fn at_index(i: int) -> Position {
        Position::at(i % 8, i / 8)
    }

    /// Builds a position; the coordinates must lie on the board.
    pub fn new(x: char, y: i8) -> (r: Position)
        requires
            'a' <= x <= 'h',
            1 <= y <= 8,
        ensures
            r == (Position { x, y }),
            r.wf(),
    {
        Position { x, y }
    }

    /// The flat cell index of this square.
    pub fn to_index(&self) -> (r: i32)
        requires
            self.wf(),
        ensures
            r == self.index(),
            0 <= r < 64,
    {
        let x = self.x as i32 - 97;
        let y = self.y as i32 - 1;
        x + y * 8
    }

    /// Zero-based file as a machine integer.
    pub(crate) fn file_i32(&self) -> (r: i32)
        requires
            self.wf(),
        ensures
            r == self.file(),
            0 <= r < 8,
    {
        self.x as i32 - 97
    }

    /// Zero-based rank as a machine integer.
    pub(crate) fn rank_i32(&self) -> (r: i32)
        requires
            self.wf(),
        ensures
            r == self.rank(),
            0 <= r < 8,
    {
        self.y as i32 - 1
    }

    /// The square with the given flat cell index.
    pub fn from_index(index: i32) -> (r: Position)
        requires
            0 <= index < 64,
        ensures
            r.wf(),
            r.index() == index,
            r == Position::at_index(index as int),
    {
        let x = ((index % 8) + 97) as u8;
        let y = ((index / 8) + 1) as i8;
        Position { x: x as char, y }
    }
}

/// Reading a position's cell index back gives the same position: with the
/// contracts of `to_index` and `from_index`, `from_index(p.to_index()) == p`
/// for every square `p`.
pub proof fn lemma_index_round_trip(p: Position)
    requires
        p.wf(),
    ensures
        Position::at_index(p.index()) == p,
        0 <= p.index() < 64,
{
    let i = p.index();
    assert(i % 8 == p.file() && i / 8 == p.rank()) by (nonlinear_arith)
        requires
            i == p.file() + 8 * p.rank(),
            0 <= p.file() < 8,
            0 <= p.rank() < 8,
    ;
}

/// One cell of the board: its occupant, if any, and its own coordinates.
#[derive(Debug, Clone, Copy)]
pub struct Square {
    pub piece: Option<PieceType>,
    pub x: char,
    pub y: i8,
}

/// A move as played: the square left and the square reached.
#[derive(Debug, Clone, Copy, PartialEq, Eq, Structural)]
pub struct Move {
    pub from: Position,
    pub to: Position,
}

/// Sum of the values of a list of pieces.
pub open spec fn total_value(s: Seq<PieceType>) -> int
    decreases s.len(),
{
    if s.len() == 0 {
        0
    } else {
        total_value(s.drop_last()) + s.last().spec_value()
    }
}

/// A prefix of a list of pieces is worth no more than the whole list.
pub proof fn lemma_total_value_prefix(s: Seq<PieceType>, i: int)
    requires
        0 <= i <= s.len(),
    ensures
        0 <= total_value(s.take(i)) <= total_value(s),
    decreases s.len(),
{
    if s.len() > 0 {
        if i == s.len() {
            assert(s.take(i) =~= s);
            lemma_total_value_prefix(s.drop_last(), i - 1);
            assert(s.drop_last().take(i - 1) =~= s.drop_last());
        } else {
            lemma_total_value_prefix(s.drop_last(), i);
            assert(s.drop_last().take(i) =~= s.take(i));
        }
    }
}

/// One side of a game: its color, the moves it made and the pieces it captured.
#[derive(Debug, Clone)]
pub struct Player {
    pub color: Color,
    pub moves: Vec<Move>,
    pub captured_pieces: Vec<PieceType>,
}

impl Player {
    /// The total value of the pieces this player captured.
    pub fn get_total_value(&self) -> (r: u8)
        requires
            total_value(self.captured_pieces@) <= 255,
        ensures
            r == total_value(self.captured_pieces@),
    {
        let ghost s = self.captured_pieces@;
        let mut total: u8 = 0;
        let mut i: usize = 0;
        while i < self.captured_pieces.len()
            invariant
                s == self.captured_pieces@,
                total_value(s) <= 255,
                i <= s.len(),
                total == total_value(s.take(i as int)),
            decreases s.len() - i,
        {
            proof {
                assert(s.take(i as int + 1).drop_last() =~= s.take(i as int));
                lemma_total_value_prefix(s, i as int + 1);
            }
            total = total + self.captured_pieces[i].value();
            i += 1;
        }
        assert(s.take(s.len() as int) =~= s);
        total
    }
}

/// A game in progress: the board and the two players.
#[derive(Debug)]
pub struct Game {
    pub board: Board,
    pub white: Player,
    pub black: Player,
}

/// Cell `from` holds a piece of `color`, the piece may move to `to`, and the
/// mover's king is not left in check: why a turn is refused, or that it is not.
pub open spec fn turn_verdict(s: Cells, color: Color, from: Position, to: Position) -> Result<
    (),
    ChessError,
> {
    match s[from.index()] {
        Some(p) => if p.spec_color() != color {
            Err(ChessError::InvalidMove)
        } else {
            match rule(s, p, from, to) {
                Ok(_) => if exists|i: int|
                    0 <= i < 64 && #[trigger] king_checked_at(after_move(s, p, from, to), color, i) {
                    Err(ChessError::UnSafeKing)
                } else {
                    Ok(())
                },
                Err(e) => Err(e),
            }
        },
        None => Err(ChessError::NoPiece),
    }
}

impl Game {
    /// A new game at the standard opening, White and Black with no history.
    pub fn new() -> (r: Game)
        ensures
            r.board.wf(),
            r.board@ == Seq::new(64, |i: int| opening(i)),
            r.white.color == Color::White,
            r.black.color == Color::Black,
            r.white.moves@.len() == 0,
            r.black.moves@.len() == 0,
            r.white.captured_pieces@.len() == 0,
            r.black.captured_pieces@.len() == 0,
    {
        let board = new_board();
        let white = Player { color: Color::White, moves: Vec::new(), captured_pieces: Vec::new() };
        let black = Player { color: Color::Black, moves: Vec::new(), captured_pieces: Vec::new() };
        Game { board, white, black }
    }

    /// Plays `from` to `to` for `color`. When `turn_verdict` allows it the board
    /// takes the move, and the move and any captured piece are recorded for
    /// `color`'s player; otherwise the game is left as it was.
    pub fn take_turn(&mut self, color: Color, from: Position, to: Position) -> (r: Result<
        Option<PieceType>,
        ChessError,
    >)
        requires
            old(self).board.wf(),
            from.wf(),
            to.wf(),
        ensures
            final(self).board.wf(),
            match turn_verdict(old(self).board@, color, from, to) {
                Ok(_) => {
                    let p = old(self).board@[from.index()]->Some_0;
                    let captured = old(self).board@[to.index()];
                    let (before, after) = match color {
                        Color::White => (old(self).white, final(self).white),
                        Color::Black => (old(self).black, final(self).black),
                    };
                    let (other_before, other_after) = match color {
                        Color::White => (old(self).black, final(self).black),
                        Color::Black => (old(self).white, final(self).white),
                    };
                    &&& r == Ok::<Option<PieceType>, ChessError>(captured)
                    &&& final(self).board@ == after_move(old(self).board@, p, from, to)
                    &&& after.color == before.color
                    &&& after.moves@ == before.moves@.push(Move { from, to })
                    &&& after.captured_pieces@ == match captured {
                        Some(c) => before.captured_pieces@.push(c),
                        None => before.captured_pieces@,
                    }
                    &&& other_after.color == other_before.color
                    &&& other_after.moves@ == other_before.moves@
                    &&& other_after.captured_pieces@ == other_before.captured_pieces@
                },
                Err(e) => r == Err::<Option<PieceType>, ChessError>(e) && final(self).board@ == old(
                    self,
                ).board@ && final(self).white == old(self).white && final(self).black == old(
                    self,
                ).black,
            },
    {
        let piece = match self.board.piece_at_index(from.to_index() as usize) {
            Some(p) => p,
            None => {
                return Err(ChessError::NoPiece);
            },
        };
        if piece.color() != color {
            return Err(ChessError::InvalidMove);
        }
        let mut future = self.board.snapshot();
        let captured = match future.move_piece(from, to) {
            Ok(c) => c,
            Err(e) => {
                return Err(e);
            },
        };
        if future.is_king_check(&color) {
            return Err(ChessError::UnSafeKing);
        }
        self.board = future;
        let player = Move { from, to };
        match color {
            Color::White => {
                self.white.moves.push(player);
                if let Some(c) = captured {
                    self.white.captured_pieces.push(c);
                }
            },
            Color::Black => {
                self.black.moves.push(player);
                if let Some(c) = captured {
                    self.black.captured_pieces.push(c);
                }
            },
        }
        Ok(captured)
    }
}

impl Position {
    /// Reads a square written as a file letter and a rank digit, as in `e4`.
    pub fn parse(file: char, rank: char) -> (r: Option<Position>)
        ensures
            r == if 'a' <= file <= 'h' && '1' <= rank <= '8' {
                Some(Position { x: file, y: (rank as int - 48) as i8 })
            } else {
                None::<Position>
            },
    {
        if 'a' <= file && file <= 'h' && '1' <= rank && rank <= '8' {
            Some(Position { x: file, y: ((rank as u32) - 48) as i8 })
        } else {
            None
        }
    }
}

} // verus!
