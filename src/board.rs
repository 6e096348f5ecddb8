use vstd::prelude::*;

use crate::pieces::king::{can_king_move_safe_position, is_check, king_can_escape};
use crate::pieces::{attempt, move_effect, rule, square_attacked, Cells, ChessError, Color, PieceType};
use crate::{Position, Square};

verus! {

/// Number of files, and of ranks.
pub const BOARD_SIZE: i32 = 8;

/// Number of cells.
pub const BOARD_SQUARES: i32 = 64;

/// The 64 cells of a game, in cell-index order.
#[derive(Debug, Clone)]
pub struct Board {
    pub squares: Vec<Square>,
}

impl View for Board {
    type V = Cells;

    open spec fn view(&self) -> Cells {
        self.squares@.map_values(|s: Square| s.piece)
    }
}

/// Sixty-four cells, each carrying the coordinates of its own index.
pub open spec fn squares_wf(v: Seq<Square>) -> bool {
    &&& v.len() == 64
    &&& forall|i: int|
        0 <= i < 64 ==> (Position { x: #[trigger] v[i].x, y: v[i].y }) == Position::at_index(i)
}

/// The piece that the standard opening puts on a back-rank file `f` for color `c`.
pub open spec fn home_piece(c: Color, f: int, p: Position) -> PieceType {
    if f == 0 || f == 7 {
        PieceType::Rook(c, p)
    } else if f == 1 || f == 6 {
        PieceType::Knight(c, p)
    } else if f == 2 || f == 5 {
        PieceType::Bishop(c, p)
    } else if f == 3 {
        PieceType::Queen(c, p)
    } else {
        PieceType::King(c, p)
    }
}

/// What the standard opening puts on cell `i`: White on ranks 1 and 2, Black on
/// ranks 7 and 8, every pawn yet to make its first move.
pub open spec fn opening(i: int) -> Option<PieceType> {
    let p = Position::at_index(i);
    if 0 <= i < 8 {
        Some(home_piece(Color::White, i, p))
    } else if 8 <= i < 16 {
        Some(PieceType::Pawn(Color::White, p, true))
    } else if 48 <= i < 56 {
        Some(PieceType::Pawn(Color::Black, p, true))
    } else if 56 <= i < 64 {
        Some(home_piece(Color::Black, i - 56, p))
    } else {
        None
    }
}

/// The pieces of `color` among the first `n` cells, in cell order.
pub open spec fn pieces_of(s: Cells, color: Color, n: int) -> Seq<PieceType>
    decreases n,
{
    if n <= 0 {
        seq![]
    } else {
        let prev = pieces_of(s, color, n - 1);
        match s[n - 1] {
            Some(p) => if p.spec_color() == color {
                prev.push(p)
            } else {
                prev
            },
            None => prev,
        }
    }
}

/// What one cell adds to the material score of `color`.
pub open spec fn piece_score(p: Option<PieceType>, color: Color) -> int {
    match p {
        Some(q) => if q.spec_color() == color {
            q.spec_value() as int
        } else {
            -(q.spec_value() as int)
        },
        None => 0,
    }
}

/// Material of `color` minus material of the other side, over the first `n` cells.
pub open spec fn material(s: Cells, color: Color, n: int) -> int
    decreases n,
{
    if n <= 0 {
        0
    } else {
        material(s, color, n - 1) + piece_score(s[n - 1], color)
    }
}

/// Material of `color` minus material of the other side, over the whole board.
pub open spec fn material_score(s: Cells, color: Color) -> int {
    material(s, color, 64)
}

/// Cell `i` holds a king of `color` that is in check.
pub open spec fn king_checked_at(s: Cells, color: Color, i: int) -> bool {
    match s[i] {
        Some(PieceType::King(c, _)) => c == color && square_attacked(s, color, Position::at_index(i)),
        _ => false,
    }
}

/// Cell `i` holds a king of `color` that can escape by a capture.
pub open spec fn king_escapes_at(s: Cells, color: Color, i: int) -> bool {
    match s[i] {
        Some(PieceType::King(c, _)) => c == color && king_can_escape(s, color, Position::at_index(i)),
        _ => false,
    }
}

/// Puts `piece` on cell `i` of a list of squares, leaving everything else as it was.
fn place(squares: &mut Vec<Square>, i: usize, piece: PieceType)
    requires
        i < old(squares)@.len(),
    ensures
        final(squares)@.len() == old(squares)@.len(),
        forall|j: int|
            0 <= j < old(squares)@.len() ==> #[trigger] final(squares)@[j] == if j == i {
                Square { piece: Some(piece), ..old(squares)@[j] }
            } else {
                old(squares)@[j]
            },
{
    let mut square = squares[i];
    square.piece = Some(piece);
    squares.set(i, square);
}

impl Board {
    pub open spec fn wf(&self) -> bool {
        squares_wf(self.squares@)
    }

    /// Sixty-four empty squares, in cell-index order.
    fn get_squares() -> (r: Vec<Square>)
        ensures
            squares_wf(r@),
            forall|i: int| 0 <= i < 64 ==> (#[trigger] r@[i]).piece is None,
    {
        let mut squares: Vec<Square> = Vec::new();
        let mut i: i32 = 0;
        while i < 64
            invariant
                0 <= i <= 64,
                squares@.len() == i,
                forall|j: int|
                    0 <= j < i ==> (Position { x: #[trigger] squares@[j].x, y: squares@[j].y })
                        == Position::at_index(j),
                forall|j: int| 0 <= j < i ==> (#[trigger] squares@[j]).piece is None,
            decreases 64 - i,
        {
            let p = Position::from_index(i);
            squares.push(Square { piece: None, x: p.x, y: p.y });
            i += 1;
        }
        squares
    }

    /// Sets out White's pieces on ranks 1 and 2.
    fn fill_white(mut squares: Vec<Square>) -> (r: Vec<Square>)
        requires
            squares_wf(squares@),
        ensures
            squares_wf(r@),
            forall|i: int|
                0 <= i < 64 ==> (#[trigger] r@[i]).piece == if i < 16 {
                    opening(i)
                } else {
                    squares@[i].piece
                },
    {
        let ghost start = squares@;
        place(&mut squares, 0, PieceType::Rook(Color::White, Position::new('a', 1)));
        place(&mut squares, 1, PieceType::Knight(Color::White, Position::new('b', 1)));
        place(&mut squares, 2, PieceType::Bishop(Color::White, Position::new('c', 1)));
        place(&mut squares, 3, PieceType::Queen(Color::White, Position::new('d', 1)));
        place(&mut squares, 4, PieceType::King(Color::White, Position::new('e', 1)));
        place(&mut squares, 5, PieceType::Bishop(Color::White, Position::new('f', 1)));
        place(&mut squares, 6, PieceType::Knight(Color::White, Position::new('g', 1)));
        place(&mut squares, 7, PieceType::Rook(Color::White, Position::new('h', 1)));
        let mut i: usize = 8;
        while i < 16
            invariant
                8 <= i <= 16,
                squares@.len() == 64,
                forall|j: int|
                    0 <= j < 64 ==> (Position { x: #[trigger] squares@[j].x, y: squares@[j].y })
                        == (Position { x: start[j].x, y: start[j].y }),
                forall|j: int|
                    0 <= j < 64 ==> (#[trigger] squares@[j]).piece == if j < i {
                        opening(j)
                    } else {
                        start[j].piece
                    },
            decreases 16 - i,
        {
            place(&mut squares, i, PieceType::Pawn(Color::White, Position::from_index(i as i32), true));
            i += 1;
        }
        squares
    }

    /// Sets out Black's pieces on ranks 7 and 8.
    fn fill_black(mut squares: Vec<Square>) -> (r: Vec<Square>)
        requires
            squares_wf(squares@),
        ensures
            squares_wf(r@),
            forall|i: int|
                0 <= i < 64 ==> (#[trigger] r@[i]).piece == if i >= 48 {
                    opening(i)
                } else {
                    squares@[i].piece
                },
    {
        let ghost start = squares@;
        place(&mut squares, 56, PieceType::Rook(Color::Black, Position::new('a', 8)));
        place(&mut squares, 57, PieceType::Knight(Color::Black, Position::new('b', 8)));
        place(&mut squares, 58, PieceType::Bishop(Color::Black, Position::new('c', 8)));
        place(&mut squares, 59, PieceType::Queen(Color::Black, Position::new('d', 8)));
        place(&mut squares, 60, PieceType::King(Color::Black, Position::new('e', 8)));
        place(&mut squares, 61, PieceType::Bishop(Color::Black, Position::new('f', 8)));
        place(&mut squares, 62, PieceType::Knight(Color::Black, Position::new('g', 8)));
        place(&mut squares, 63, PieceType::Rook(Color::Black, Position::new('h', 8)));
        let mut i: usize = 48;
        while i < 56
            invariant
                48 <= i <= 56,
                squares@.len() == 64,
                forall|j: int|
                    0 <= j < 64 ==> (Position { x: #[trigger] squares@[j].x, y: squares@[j].y })
                        == (Position { x: start[j].x, y: start[j].y }),
                forall|j: int|
                    0 <= j < 64 ==> (#[trigger] squares@[j]).piece == if 48 <= j < i || j >= 56 {
                        opening(j)
                    } else {
                        start[j].piece
                    },
            decreases 56 - i,
        {
            place(&mut squares, i, PieceType::Pawn(Color::Black, Position::from_index(i as i32), true));
            i += 1;
        }
        squares
    }

    /// The standard opening position.
    fn new_inner() -> (r: Board)
        ensures
            r.wf(),
            r@ == Seq::new(64, |i: int| opening(i)),
    {
        let squares = Board::get_squares();
        let squares = Board::fill_white(squares);
        let squares = Board::fill_black(squares);
        let r = Board { squares };
        assert(r@ =~= Seq::new(64, |i: int| opening(i)));
        r
    }

    /// A board with no pieces.
    fn empty_inner() -> (r: Board)
        ensures
            r.wf(),
            r@ == Seq::new(64, |i: int| None::<PieceType>),
    {
        let squares = Board::get_squares();
        let r = Board { squares };
        assert(r@ =~= Seq::new(64, |i: int| None::<PieceType>));
        r
    }

    /// The piece on the cell with index `i`.
    pub fn piece_at_index(&self, i: usize) -> (r: Option<PieceType>)
        requires
            self.wf(),
            i < 64,
        ensures
            r == self@[i as int],
    {
        self.squares[i].piece
    }

    /// Puts `piece` (or nothing) on the cell of `position`.
    pub fn set_piece(&mut self, position: &Position, piece: Option<PieceType>)
        requires
            old(self).wf(),
            position.wf(),
        ensures
            final(self).wf(),
            final(self)@ == old(self)@.update(position.index(), piece),
    {
        let i = position.to_index() as usize;
        let mut square = self.squares[i];
        square.piece = piece;
        self.squares.set(i, square);
        assert(self@ =~= old(self)@.update(position.index(), piece));
    }

    /// An independent copy of the board, for trying moves out.
    pub fn snapshot(&self) -> (r: Board)
        requires
            self.wf(),
        ensures
            r.wf(),
            r@ == self@,
    {
        let mut squares: Vec<Square> = Vec::new();
        let mut i: usize = 0;
        while i < 64
            invariant
                self.wf(),
                i <= 64,
                squares@ == self.squares@.subrange(0, i as int),
            decreases 64 - i,
        {
            squares.push(self.squares[i]);
            i += 1;
            assert(squares@ =~= self.squares@.subrange(0, i as int));
        }
        assert(squares@ =~= self.squares@);
        Board { squares }
    }
}


impl Board {
    /// Moves the piece on `from` to `to` under that piece's rule and returns the
    /// piece captured on `to`, if any. An empty `from` gives `NoPiece`; a move the
    /// rule refuses gives the rule's error. Either way the board is left unchanged.
    pub fn move_piece(&mut self, from: Position, to: Position) -> (r: Result<
        Option<PieceType>,
        ChessError,
    >)
        requires
            old(self).wf(),
            from.wf(),
            to.wf(),
        ensures
            final(self).wf(),
            match old(self)@[from.index()] {
                Some(p) => move_effect(
                    old(self)@,
                    final(self)@,
                    p,
                    from,
                    to,
                    rule(old(self)@, p, from, to),
                    r,
                ),
                None => r == Err::<Option<PieceType>, ChessError>(ChessError::NoPiece)
                    && final(self)@ == old(self)@,
            },
    {
        match self.piece_at_index(from.to_index() as usize) {
            Some(piece) => attempt(self, &piece, &from, to),
            None => Err(ChessError::NoPiece),
        }
    }

    /// The piece standing on `position`, if any.
    pub fn get_piece(&self, position: Position) -> (r: Option<PieceType>)
        requires
            self.wf(),
            position.wf(),
        ensures
            r == self@[position.index()],
    {
        self.piece_at_index(position.to_index() as usize)
    }

    fn pieces_of_color(&self, color: Color) -> (r: Vec<PieceType>)
        requires
            self.wf(),
        ensures
            r@ == pieces_of(self@, color, 64),
    {
        let mut pieces: Vec<PieceType> = Vec::new();
        let mut i: usize = 0;
        while i < 64
            invariant
                self.wf(),
                i <= 64,
                pieces@ == pieces_of(self@, color, i as int),
            decreases 64 - i,
        {
            if let Some(piece) = self.piece_at_index(i) {
                if piece.color() == color {
                    pieces.push(piece);
                }
            }
            i += 1;
        }
        pieces
    }

    /// White's pieces in cell order.
    pub fn get_all_white_pieces(&self) -> (r: Vec<PieceType>)
        requires
            self.wf(),
        ensures
            r@ == pieces_of(self@, Color::White, 64),
    {
        self.pieces_of_color(Color::White)
    }

    /// Black's pieces in cell order.
    pub fn get_all_black_pieces(&self) -> (r: Vec<PieceType>)
        requires
            self.wf(),
        ensures
            r@ == pieces_of(self@, Color::Black, 64),
    {
        self.pieces_of_color(Color::Black)
    }

    /// Whether a king of `color` is in check.
    pub fn is_king_check(&self, color: &Color) -> (r: bool)
        requires
            self.wf(),
        ensures
            r == exists|i: int| 0 <= i < 64 && #[trigger] king_checked_at(self@, *color, i),
    {
        let mut i: usize = 0;
        while i < 64
            invariant
                self.wf(),
                i <= 64,
                forall|j: int| 0 <= j < i ==> !#[trigger] king_checked_at(self@, *color, j),
            decreases 64 - i,
        {
            if let Some(PieceType::King(c, _)) = self.piece_at_index(i) {
                if c == *color {
                    let square = Position::from_index(i as i32);
                    if is_check(PieceType::King(c, square), self) {
                        assert(king_checked_at(self@, *color, i as int));
                        return true;
                    }
                }
            }
            i += 1;
        }
        false
    }

    /// Whether a king of `color` can escape by capturing an adjacent enemy piece.
    pub fn can_king_move_safe_position(&self, color: &Color) -> (r: bool)
        requires
            self.wf(),
        ensures
            r == exists|i: int| 0 <= i < 64 && #[trigger] king_escapes_at(self@, *color, i),
    {
        let mut i: usize = 0;
        while i < 64
            invariant
                self.wf(),
                i <= 64,
                forall|j: int| 0 <= j < i ==> !#[trigger] king_escapes_at(self@, *color, j),
            decreases 64 - i,
        {
            if let Some(PieceType::King(c, _)) = self.piece_at_index(i) {
                if c == *color {
                    let square = Position::from_index(i as i32);
                    if can_king_move_safe_position(PieceType::King(c, square), self) {
                        assert(king_escapes_at(self@, *color, i as int));
                        return true;
                    }
                }
            }
            i += 1;
        }
        false
    }

    /// Material of `color` minus material of the other side.
    pub fn evaluate(&self, color: &Color) -> (r: i16)
        requires
            self.wf(),
        ensures
            r == material_score(self@, *color),
    {
        let mut score: i16 = 0;
        let mut i: usize = 0;
        while i < 64
            invariant
                self.wf(),
                i <= 64,
                score == material(self@, *color, i as int),
                -255 * i <= score <= 255 * i,
            decreases 64 - i,
        {
            if let Some(piece) = self.piece_at_index(i) {
                let value = piece.value() as i16;
                if piece.color() == *color {
                    score = score + value;
                } else {
                    score = score - value;
                }
            }
            i += 1;
        }
        score
    }

    /// The cell of `position`.
    pub fn square(&self, position: &Position) -> (r: &Square)
        requires
            self.wf(),
            position.wf(),
        ensures
            *r == self.squares@[position.index()],
    {
        &self.squares[position.to_index() as usize]
    }
}

/// A board set out for the start of a game.
pub fn new_board() -> (r: Board)
    ensures
        r.wf(),
        r@ == Seq::new(64, |i: int| opening(i)),
{
    Board::new_inner()
}

/// A board with no pieces, for setting up positions.
pub fn empty_board() -> (r: Board)
    ensures
        r.wf(),
        r@ == Seq::new(64, |i: int| None::<PieceType>),
{
    Board::empty_inner()
}

} // verus!
