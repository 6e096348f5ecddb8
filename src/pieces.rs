use vstd::prelude::*;

use crate::board::Board;
use crate::Position;

pub mod bishop;
pub mod king;
pub mod knight;
pub mod pawn;
pub mod queen;
pub mod rook;

verus! {

/// Material value of a piece.
pub type Value = u8;

/// The side a piece belongs to.
#[derive(Debug, Clone, Copy, PartialEq, Eq, Structural)]
pub enum Color {
    Black,
    White,
}

impl Color {
    /// Rank direction in which pawns of this color advance.
    pub open spec fn forward(self) -> int {
        match self {
            Color::White => 1,
            Color::Black => -1,
        }
    }
}

/// A piece: its kind, its color and the square it stands on. A pawn also
/// records whether it has yet to make its first move.
#[derive(Debug, Clone, Copy, PartialEq, Eq, Structural)]
pub enum PieceType {
    Pawn(Color, Position, bool),
    Rook(Color, Position),
    Bishop(Color, Position),
    Knight(Color, Position),
    Queen(Color, Position),
    King(Color, Position),
}

/// Why a move was refused.
#[derive(Debug, Clone, Copy, PartialEq, Eq, Structural)]
pub enum ChessError {
    InvalidMove,
    InvalidPiece,
    BlockedMove,
    InvalidCapture,
    UnSafeKing,
    NoPiece,
}

/// A board's contents as a model: one optional piece per cell index.
pub type Cells = Seq<Option<PieceType>>;

impl PieceType {
    pub open spec fn spec_color(self) -> Color {
        match self {
            PieceType::Pawn(c, _, _) => c,
            PieceType::Rook(c, _) => c,
            PieceType::Bishop(c, _) => c,
            PieceType::Knight(c, _) => c,
            PieceType::Queen(c, _) => c,
            PieceType::King(c, _) => c,
        }
    }

    pub open spec fn spec_position(self) -> Position {
        match self {
            PieceType::Pawn(_, p, _) => p,
            PieceType::Rook(_, p) => p,
            PieceType::Bishop(_, p) => p,
            PieceType::Knight(_, p) => p,
            PieceType::Queen(_, p) => p,
            PieceType::King(_, p) => p,
        }
    }

    /// Pawn 1, knight and bishop 3, rook 5, queen 9; the king carries the
    /// largest `u8` as a stand-in for an unbounded value.
    pub open spec fn spec_value(self) -> Value {
        match self {
            PieceType::Pawn(_, _, _) => 1,
            PieceType::Rook(_, _) => 5,
            PieceType::Bishop(_, _) => 3,
            PieceType::Knight(_, _) => 3,
            PieceType::Queen(_, _) => 9,
            PieceType::King(_, _) => 255,
        }
    }

    /// The same piece standing on `to`; a pawn that moved has used its first move.
    pub open spec fn moved_to(self, to: Position) -> PieceType {
        match self {
            PieceType::Pawn(c, _, _) => PieceType::Pawn(c, to, false),
            PieceType::Rook(c, _) => PieceType::Rook(c, to),
            PieceType::Bishop(c, _) => PieceType::Bishop(c, to),
            PieceType::Knight(c, _) => PieceType::Knight(c, to),
            PieceType::Queen(c, _) => PieceType::Queen(c, to),
            PieceType::King(c, _) => PieceType::King(c, to),
        }
    }

    pub fn value(&self) -> (r: Value)
        ensures
            r == self.spec_value(),
    {
        match self {
            PieceType::Pawn(_, _, _) => 1,
            PieceType::Rook(_, _) => 5,
            PieceType::Bishop(_, _) => 3,
            PieceType::Knight(_, _) => 3,
            PieceType::Queen(_, _) => 9,
            PieceType::King(_, _) => u8::MAX,
        }
    }

    pub fn position(&self) -> (r: &Position)
        ensures
            *r == self.spec_position(),
    {
        match self {
            PieceType::Pawn(_, position, _) => position,
            PieceType::Rook(_, position) => position,
            PieceType::Bishop(_, position) => position,
            PieceType::Knight(_, position) => position,
            PieceType::Queen(_, position) => position,
            PieceType::King(_, position) => position,
        }
    }

    pub fn color(&self) -> (r: Color)
        ensures
            r == self.spec_color(),
    {
        match self {
            PieceType::Pawn(color, _, _) => *color,
            PieceType::Rook(color, _) => *color,
            PieceType::Bishop(color, _) => *color,
            PieceType::Knight(color, _) => *color,
            PieceType::Queen(color, _) => *color,
            PieceType::King(color, _) => *color,
        }
    }
}

impl PieceType {
    /// The legality oracle for this piece, standing where it records.
    pub fn can_move_to(&self, position: Position, board: &Board) -> (r: Result<(), ChessError>)
        requires
            board.wf(),
            self.spec_position().wf(),
            position.wf(),
        ensures
            r == rule(board@, *self, self.spec_position(), position),
    {
        match self {
            PieceType::Pawn(color, current_position, is_first_move) => pawn::can_move_to(
                current_position,
                color,
                *is_first_move,
                position,
                board,
            ),
            PieceType::Rook(color, current_position) => rook::can_move_to(
                current_position,
                color,
                position,
                board,
            ),
            PieceType::Bishop(color, current_position) => bishop::can_move_to(
                current_position,
                color,
                position,
                board,
            ),
            PieceType::Knight(color, current_position) => knight::can_move_to(
                current_position,
                color,
                position,
                board,
            ),
            PieceType::Queen(color, current_position) => queen::can_move_to(
                current_position,
                color,
                position,
                board,
            ),
            PieceType::King(color, current_position) => king::can_move_to(
                current_position,
                color,
                position,
                board,
            ),
        }
    }

    /// Moves this piece from where it records to `position`, when its rule
    /// allows it; the piece value itself is left as it was.
    pub fn move_to(&mut self, position: Position, board: &mut Board) -> (r: Result<
        Option<PieceType>,
        ChessError,
    >)
        requires
            old(board).wf(),
            old(self).spec_position().wf(),
            position.wf(),
        ensures
            *final(self) == *old(self),
            final(board).wf(),
            move_effect(
                old(board)@,
                final(board)@,
                *old(self),
                old(self).spec_position(),
                position,
                rule(old(board)@, *old(self), old(self).spec_position(), position),
                r,
            ),
    {
        match self {
            PieceType::Pawn(_, _, _) => pawn::pawn_move_to(self, position, board),
            PieceType::Rook(_, _) => rook::move_to(self, position, board),
            PieceType::Bishop(_, _) => bishop::move_to(self, position, board),
            PieceType::Knight(_, _) => knight::move_to(self, position, board),
            PieceType::Queen(_, _) => queen::move_to(self, position, board),
            PieceType::King(_, _) => king::move_to(self, position, board),
        }
    }

    /// Every square this piece can move to from where it records.
    pub fn possible_moves(&self, board: &Board) -> (r: Vec<Position>)
        requires
            board.wf(),
            self.spec_position().wf(),
        ensures
            r@ == moves(board@, *self, self.spec_position()),
            forall|k: int| 0 <= k < r@.len() ==> (#[trigger] r@[k]).wf(),
    {
        moves_from(board, self, self.position())
    }
}

// ---------------------------------------------------------------------------
// Geometry on zero-based (file, rank) coordinates.

pub open spec fn on_board(f: int, r: int) -> bool {
    0 <= f < 8 && 0 <= r < 8
}

pub open spec fn abs(d: int) -> int {
    if d < 0 {
        -d
    } else {
        d
    }
}

pub open spec fn sign(d: int) -> int {
    if d > 0 {
        1
    } else if d < 0 {
        -1
    } else {
        0
    }
}

/// File distance travelled from `from` to `to`, signed.
pub open spec fn file_delta(from: Position, to: Position) -> int {
    to.file() - from.file()
}

/// Rank distance travelled from `from` to `to`, signed.
pub open spec fn rank_delta(from: Position, to: Position) -> int {
    to.rank() - from.rank()
}

/// Along a rank or along a file, to another square.
pub open spec fn straight(from: Position, to: Position) -> bool {
    (file_delta(from, to) == 0) != (rank_delta(from, to) == 0)
}

/// Along a diagonal, to another square.
pub open spec fn diagonal(from: Position, to: Position) -> bool {
    abs(file_delta(from, to)) == abs(rank_delta(from, to)) && file_delta(from, to) != 0
}

pub open spec fn knight_jump(from: Position, to: Position) -> bool {
    let a = abs(file_delta(from, to));
    let b = abs(rank_delta(from, to));
    (a == 1 && b == 2) || (a == 2 && b == 1)
}

/// One step in any of the eight directions.
pub open spec fn king_step(from: Position, to: Position) -> bool {
    abs(file_delta(from, to)) <= 1 && abs(rank_delta(from, to)) <= 1 && !(file_delta(from, to)
        == 0 && rank_delta(from, to) == 0)
}

/// The piece on the square with coordinates `(f, r)`.
pub open spec fn cell(s: Cells, f: int, r: int) -> Option<PieceType> {
    s[f + 8 * r]
}

/// The square `to` holds a piece of color `c`.
pub open spec fn holds_color(s: Cells, to: Position, c: Color) -> bool {
    match s[to.index()] {
        Some(p) => p.spec_color() == c,
        None => false,
    }
}

/// The `n - 1` squares strictly between `(f, r)` and `(f + n*df, r + n*dr)` are empty.
pub open spec fn ray_clear(s: Cells, f: int, r: int, df: int, dr: int, n: int) -> bool
    decreases n,
{
    if n <= 1 {
        true
    } else {
        cell(s, f + df, r + dr) is None && ray_clear(s, f + df, r + dr, df, dr, n - 1)
    }
}

/// Every square strictly between `from` and `to` is empty (for a straight or diagonal line).
pub open spec fn path_clear(s: Cells, from: Position, to: Position) -> bool {
    let a = file_delta(from, to);
    let b = rank_delta(from, to);
    ray_clear(
        s,
        from.file(),
        from.rank(),
        sign(a),
        sign(b),
        if abs(a) > abs(b) {
            abs(a)
        } else {
            abs(b)
        },
    )
}

/// The rule shared by sliding pieces, once the geometry has been decided.
pub open spec fn slide_rule(s: Cells, from: Position, color: Color, to: Position, line: bool) -> Result<
    (),
    ChessError,
> {
    if !line {
        Err(ChessError::InvalidMove)
    } else if !path_clear(s, from, to) {
        Err(ChessError::BlockedMove)
    } else if holds_color(s, to, color) {
        Err(ChessError::InvalidCapture)
    } else {
        Ok(())
    }
}

/// Measure that shrinks with each step of a ray that stays on the board.
pub open spec fn ray_room(f: int, r: int, df: int, dr: int) -> int {
    (if df > 0 {
        8 - f
    } else if df < 0 {
        f + 1
    } else {
        0
    }) + (if dr > 0 {
        8 - r
    } else if dr < 0 {
        r + 1
    } else {
        0
    })
}

/// Squares a sliding piece of `color` at `(f, r)` reaches in direction `(df, dr)`:
/// each empty square in turn, then the first occupied one if it holds an enemy piece.
pub open spec fn ray_moves(s: Cells, color: Color, f: int, r: int, df: int, dr: int) -> Seq<
    Position,
>
    decreases ray_room(f, r, df, dr),
{
    if (df == 0 && dr == 0) || !on_board(f + df, r + dr) || !on_board(f, r) {
        seq![]
    } else {
        match cell(s, f + df, r + dr) {
            Some(p) => if p.spec_color() == color {
                seq![]
            } else {
                seq![Position::at(f + df, r + dr)]
            },
            None => seq![Position::at(f + df, r + dr)] + ray_moves(
                s,
                color,
                f + df,
                r + dr,
                df,
                dr,
            ),
        }
    }
}

/// Squares reached from `from` by the first `k` offsets of `delta`, kept in order,
/// that lie on the board and satisfy `ok`.
pub open spec fn step_moves(
    from: Position,
    delta: spec_fn(int) -> (int, int),
    ok: spec_fn(Position) -> bool,
    k: int,
) -> Seq<Position>
    decreases k,
{
    if k <= 0 {
        seq![]
    } else {
        let prev = step_moves(from, delta, ok, k - 1);
        let f = from.file() + delta(k - 1).0;
        let r = from.rank() + delta(k - 1).1;
        if on_board(f, r) && ok(Position::at(f, r)) {
            prev.push(Position::at(f, r))
        } else {
            prev
        }
    }
}

/// The square `to` holds a piece of the side opposing `c`.
pub open spec fn holds_enemy(s: Cells, to: Position, c: Color) -> bool {
    match s[to.index()] {
        Some(p) => p.spec_color() != c,
        None => false,
    }
}

// ---------------------------------------------------------------------------
// Dispatch over piece kinds.

/// The legality oracle: whether `p`, standing on `from`, may move to `to` on `s`.
pub open spec fn rule(s: Cells, p: PieceType, from: Position, to: Position) -> Result<
    (),
    ChessError,
> {
    match p {
        PieceType::Pawn(c, _, first) => pawn::pawn_rule(s, from, c, first, to),
        PieceType::Rook(c, _) => rook::rook_rule(s, from, c, to),
        PieceType::Bishop(c, _) => bishop::bishop_rule(s, from, c, to),
        PieceType::Knight(c, _) => knight::knight_rule(s, from, c, to),
        PieceType::Queen(c, _) => queen::queen_rule(s, from, c, to),
        PieceType::King(c, _) => king::king_rule(s, from, c, to),
    }
}

/// The squares that `p`, standing on `from`, can move to, in generation order.
pub open spec fn moves(s: Cells, p: PieceType, from: Position) -> Seq<Position> {
    match p {
        PieceType::Pawn(c, _, first) => pawn::pawn_moves(s, from, c, first),
        PieceType::Rook(c, _) => rook::rook_moves(s, from, c),
        PieceType::Bishop(c, _) => bishop::bishop_moves(s, from, c),
        PieceType::Knight(c, _) => knight::knight_moves(s, from, c),
        PieceType::Queen(c, _) => queen::queen_moves(s, from, c),
        PieceType::King(c, _) => king::king_moves(s, from, c),
    }
}

/// The board after `p` leaves `from` for `to`, replacing whatever stood there.
pub open spec fn after_move(s: Cells, p: PieceType, from: Position, to: Position) -> Cells {
    s.update(from.index(), None).update(to.index(), Some(p.moved_to(to)))
}

/// What an attempt to move `p` from `from` to `to` does, given the oracle's verdict.
/// When the move is legal the board is `after_move` afterwards and the result holds
/// what stood on `to` before. When it is not, the result is the error and the
/// board is left as it was.
pub open spec fn move_effect(
    before: Cells,
    after: Cells,
    p: PieceType,
    from: Position,
    to: Position,
    verdict: Result<(), ChessError>,
    r: Result<Option<PieceType>, ChessError>,
) -> bool {
    match verdict {
        Ok(_) => r == Ok::<Option<PieceType>, ChessError>(before[to.index()]) && after == after_move(
            before,
            p,
            from,
            to,
        ),
        Err(e) => r == Err::<Option<PieceType>, ChessError>(e) && after == before,
    }
}

// ---------------------------------------------------------------------------
// Attacks.

/// Whether `p`, standing on `from`, attacks `to`, whatever stands on `to`:
/// a pawn diagonally forward, a king one step away, the others along their
/// lines through empty squares.
pub open spec fn attacks(s: Cells, p: PieceType, from: Position, to: Position) -> bool {
    match p {
        PieceType::Pawn(c, _, _) => abs(file_delta(from, to)) == 1 && rank_delta(from, to)
            == c.forward(),
        PieceType::Rook(_, _) => straight(from, to) && path_clear(s, from, to),
        PieceType::Bishop(_, _) => diagonal(from, to) && path_clear(s, from, to),
        PieceType::Queen(_, _) => (straight(from, to) || diagonal(from, to)) && path_clear(
            s,
            from,
            to,
        ),
        PieceType::Knight(_, _) => knight_jump(from, to),
        PieceType::King(_, _) => king_step(from, to),
    }
}

/// The piece on cell `i` opposes `color` and attacks `to`.
pub open spec fn guards(s: Cells, color: Color, i: int, to: Position) -> bool {
    match s[i] {
        Some(p) => p.spec_color() != color && attacks(s, p, Position::at_index(i), to),
        None => false,
    }
}

/// The piece on cell `i` opposes `color`, is not a king, and attacks `to`.
pub open spec fn threatens(s: Cells, color: Color, i: int, to: Position) -> bool {
    guards(s, color, i, to) && !(s[i] matches Some(PieceType::King(_, _)))
}

/// Some opposing piece other than a king attacks `to`: the test for check.
pub open spec fn square_attacked(s: Cells, color: Color, to: Position) -> bool {
    exists|i: int| 0 <= i < 64 && #[trigger] threatens(s, color, i, to)
}

/// Some opposing piece, the king included, attacks `to`: where a king may not step.
pub open spec fn square_unsafe(s: Cells, color: Color, to: Position) -> bool {
    exists|i: int| 0 <= i < 64 && #[trigger] guards(s, color, i, to)
}

/// A square given by on-board coordinates is well formed and has those coordinates.
pub proof fn lemma_at(f: int, r: int)
    requires
        on_board(f, r),
    ensures
        Position::at(f, r).wf(),
        Position::at(f, r).file() == f,
        Position::at(f, r).rank() == r,
        Position::at(f, r).index() == f + 8 * r,
{
    let c = (f + 97) as char;
    assert(c as int == f + 97);
}

/// Every square of a ray lies on the board.
pub proof fn lemma_ray_moves_wf(s: Cells, color: Color, f: int, r: int, df: int, dr: int)
    ensures
        forall|k: int|
            0 <= k < ray_moves(s, color, f, r, df, dr).len() ==> (#[trigger] ray_moves(
                s,
                color,
                f,
                r,
                df,
                dr,
            )[k]).wf(),
    decreases ray_room(f, r, df, dr),
{
    if !((df == 0 && dr == 0) || !on_board(f + df, r + dr) || !on_board(f, r)) {
        lemma_at(f + df, r + dr);
        let q = Position::at(f + df, r + dr);
        let whole = ray_moves(s, color, f, r, df, dr);
        if cell(s, f + df, r + dr) is None {
            let rest = ray_moves(s, color, f + df, r + dr, df, dr);
            lemma_ray_moves_wf(s, color, f + df, r + dr, df, dr);
            assert(whole == seq![q] + rest);
            assert forall|k: int| 0 <= k < whole.len() implies (#[trigger] whole[k]).wf() by {
                if k > 0 {
                    assert(whole[k] == rest[k - 1]);
                }
            }
        }
    }
}

/// Every square produced by stepping through offsets lies on the board.
pub proof fn lemma_step_moves_wf(
    from: Position,
    delta: spec_fn(int) -> (int, int),
    ok: spec_fn(Position) -> bool,
    k: int,
)
    ensures
        forall|i: int|
            0 <= i < step_moves(from, delta, ok, k).len() ==> (#[trigger] step_moves(
                from,
                delta,
                ok,
                k,
            )[i]).wf(),
    decreases k,
{
    if k > 0 {
        lemma_step_moves_wf(from, delta, ok, k - 1);
        let f = from.file() + delta(k - 1).0;
        let r = from.rank() + delta(k - 1).1;
        let prev = step_moves(from, delta, ok, k - 1);
        let whole = step_moves(from, delta, ok, k);
        if on_board(f, r) {
            lemma_at(f, r);
        }
        assert forall|i: int| 0 <= i < whole.len() implies (#[trigger] whole[i]).wf() by {
            if i < prev.len() {
                assert(whole[i] == prev[i]);
            }
        }
    }
}

/// Every square a piece is offered lies on the board.
pub proof fn lemma_moves_wf(s: Cells, p: PieceType, from: Position)
    ensures
        forall|k: int| 0 <= k < moves(s, p, from).len() ==> (#[trigger] moves(s, p, from)[k]).wf(),
{
    let f = from.file();
    let r = from.rank();
    lemma_ray_moves_wf(s, p.spec_color(), f, r, 0, 1);
    lemma_ray_moves_wf(s, p.spec_color(), f, r, 1, 0);
    lemma_ray_moves_wf(s, p.spec_color(), f, r, 0, -1);
    lemma_ray_moves_wf(s, p.spec_color(), f, r, -1, 0);
    lemma_ray_moves_wf(s, p.spec_color(), f, r, -1, 1);
    lemma_ray_moves_wf(s, p.spec_color(), f, r, 1, 1);
    lemma_ray_moves_wf(s, p.spec_color(), f, r, 1, -1);
    lemma_ray_moves_wf(s, p.spec_color(), f, r, -1, -1);
    match p {
        PieceType::Pawn(c, _, first) => {
            lemma_step_moves_wf(
                from,
                |k: int| pawn::pawn_delta(c, k),
                |q: Position| pawn::pawn_rule(s, from, c, first, q) is Ok,
                4,
            );
        },
        PieceType::Knight(c, _) => {
            lemma_step_moves_wf(
                from,
                |k: int| knight::knight_delta(k),
                |q: Position| knight::knight_rule(s, from, c, q) is Ok,
                8,
            );
        },
        PieceType::King(c, _) => {
            lemma_step_moves_wf(
                from,
                |k: int| king::king_delta(k),
                |q: Position| king::king_rule(s, from, c, q) is Ok,
                8,
            );
        },
        _ => {},
    }
}

// ---------------------------------------------------------------------------
// Executable helpers shared by the rule modules.

pub(crate) fn is_straight(from: &Position, to: &Position) -> (r: bool)
    requires
        from.wf(),
        to.wf(),
    ensures
        r == straight(*from, *to),
{
    (from.file_i32() == to.file_i32()) != (from.rank_i32() == to.rank_i32())
}

pub(crate) fn is_diagonal(from: &Position, to: &Position) -> (r: bool)
    requires
        from.wf(),
        to.wf(),
    ensures
        r == diagonal(*from, *to),
{
    let a = to.file_i32() - from.file_i32();
    let b = to.rank_i32() - from.rank_i32();
    let a_abs = if a < 0 {
        -a
    } else {
        a
    };
    let b_abs = if b < 0 {
        -b
    } else {
        b
    };
    a_abs == b_abs && a != 0
}

/// Whether `to` holds a piece of color `c`.
pub(crate) fn holds(board: &Board, to: &Position, c: &Color) -> (r: bool)
    requires
        board.wf(),
        to.wf(),
    ensures
        r == holds_color(board@, *to, *c),
{
    match board.piece_at_index(to.to_index() as usize) {
        Some(p) => p.color() == *c,
        None => false,
    }
}

/// The oracle for any piece kind standing on `from`.
pub(crate) fn check_move(board: &Board, p: &PieceType, from: &Position, to: Position) -> (r: Result<
    (),
    ChessError,
>)
    requires
        board.wf(),
        from.wf(),
        to.wf(),
    ensures
        r == rule(board@, *p, *from, to),
{
    match p {
        PieceType::Pawn(c, _, first) => pawn::can_move_to(from, c, *first, to, board),
        PieceType::Rook(c, _) => rook::can_move_to(from, c, to, board),
        PieceType::Bishop(c, _) => bishop::can_move_to(from, c, to, board),
        PieceType::Knight(c, _) => knight::can_move_to(from, c, to, board),
        PieceType::Queen(c, _) => queen::can_move_to(from, c, to, board),
        PieceType::King(c, _) => king::can_move_to(from, c, to, board),
    }
}

/// The move list for any piece kind standing on `from`.
pub(crate) fn moves_from(board: &Board, p: &PieceType, from: &Position) -> (r: Vec<Position>)
    requires
        board.wf(),
        from.wf(),
    ensures
        r@ == moves(board@, *p, *from),
        forall|k: int| 0 <= k < r@.len() ==> (#[trigger] r@[k]).wf(),
{
    proof {
        lemma_moves_wf(board@, *p, *from);
    }
    match p {
        PieceType::Pawn(c, _, first) => pawn::possible_moves(from, c, *first, board),
        PieceType::Rook(c, _) => rook::possible_moves(from, c, board),
        PieceType::Bishop(c, _) => bishop::possible_moves(from, c, board),
        PieceType::Knight(c, _) => knight::possible_moves(from, c, board),
        PieceType::Queen(c, _) => queen::possible_moves(from, c, board),
        PieceType::King(c, _) => king::possible_moves(from, c, board),
    }
}

/// `p` leaves `from` for `to`; returns what stood on `to`.
pub(crate) fn relocate(board: &mut Board, p: &PieceType, from: &Position, to: &Position) -> (r:
    Option<PieceType>)
    requires
        old(board).wf(),
        from.wf(),
        to.wf(),
    ensures
        final(board).wf(),
        r == old(board)@[to.index()],
        final(board)@ == after_move(old(board)@, *p, *from, *to),
{
    let captured = board.piece_at_index(to.to_index() as usize);
    let moved = match p {
        PieceType::Pawn(c, _, _) => PieceType::Pawn(*c, *to, false),
        PieceType::Rook(c, _) => PieceType::Rook(*c, *to),
        PieceType::Bishop(c, _) => PieceType::Bishop(*c, *to),
        PieceType::Knight(c, _) => PieceType::Knight(*c, *to),
        PieceType::Queen(c, _) => PieceType::Queen(*c, *to),
        PieceType::King(c, _) => PieceType::King(*c, *to),
    };
    board.set_piece(from, None);
    board.set_piece(to, Some(moved));
    captured
}

/// Checks and, when legal, performs a move of `p` from `from` to `to`.
pub(crate) fn attempt(board: &mut Board, p: &PieceType, from: &Position, to: Position) -> (r:
    Result<Option<PieceType>, ChessError>)
    requires
        old(board).wf(),
        from.wf(),
        to.wf(),
    ensures
        final(board).wf(),
        move_effect(old(board)@, final(board)@, *p, *from, to, rule(old(board)@, *p, *from, to), r),
{
    match check_move(board, p, from, to) {
        Ok(_) => Ok(relocate(board, p, from, &to)),
        Err(e) => Err(e),
    }
}

/// Whether `p`, standing on `from`, attacks `to`.
pub(crate) fn piece_attacks(board: &Board, p: &PieceType, from: &Position, to: &Position) -> (r:
    bool)
    requires
        board.wf(),
        from.wf(),
        to.wf(),
    ensures
        r == attacks(board@, *p, *from, *to),
{
    match p {
        PieceType::Pawn(c, _, _) => {
            let a = to.file_i32() - from.file_i32();
            let b = to.rank_i32() - from.rank_i32();
            let forward: i32 = match c {
                Color::White => 1,
                Color::Black => -1,
            };
            (a == 1 || a == -1) && b == forward
        },
        PieceType::Rook(c, _) => match rook::can_move_to(from, c, *to, board) {
            Ok(_) => true,
            Err(e) => e == ChessError::InvalidCapture,
        },
        PieceType::Bishop(c, _) => match bishop::can_move_to(from, c, *to, board) {
            Ok(_) => true,
            Err(e) => e == ChessError::InvalidCapture,
        },
        PieceType::Queen(c, _) => match queen::can_move_to(from, c, *to, board) {
            Ok(_) => true,
            Err(e) => e == ChessError::InvalidCapture,
        },
        PieceType::Knight(c, _) => match knight::can_move_to(from, c, *to, board) {
            Ok(_) => true,
            Err(e) => e == ChessError::InvalidCapture,
        },
        PieceType::King(_, _) => {
            let a = to.file_i32() - from.file_i32();
            let b = to.rank_i32() - from.rank_i32();
            -1 <= a && a <= 1 && -1 <= b && b <= 1 && !(a == 0 && b == 0)
        },
    }
}

/// Whether a piece opposing `color` attacks `to`; kings count only when
/// `with_kings` holds.
pub(crate) fn attacked(board: &Board, color: &Color, to: &Position, with_kings: bool) -> (r: bool)
    requires
        board.wf(),
        to.wf(),
    ensures
        with_kings ==> r == square_unsafe(board@, *color, *to),
        !with_kings ==> r == square_attacked(board@, *color, *to),
{
    let mut i: usize = 0;
    while i < 64
        invariant
            board.wf(),
            to.wf(),
            i <= 64,
            with_kings ==> forall|j: int| 0 <= j < i ==> !#[trigger] guards(board@, *color, j, *to),
            !with_kings ==> forall|j: int|
                0 <= j < i ==> !#[trigger] threatens(board@, *color, j, *to),
        decreases 64 - i,
    {
        if let Some(p) = board.piece_at_index(i) {
            let is_king = match p {
                PieceType::King(_, _) => true,
                _ => false,
            };
            if p.color() != *color && (with_kings || !is_king) {
                let from = Position::from_index(i as i32);
                if piece_attacks(board, &p, &from, to) {
                    assert(guards(board@, *color, i as int, *to));
                    assert(with_kings || threatens(board@, *color, i as int, *to));
                    return true;
                }
            }
        }
        i += 1;
    }
    false
}

/// The position with zero-based coordinates `(f, r)`.
pub(crate) fn square_at(f: i32, r: i32) -> (p: Position)
    requires
        on_board(f as int, r as int),
    ensures
        p == Position::at(f as int, r as int),
        p.wf(),
        p.file() == f,
        p.rank() == r,
        p.index() == f + 8 * r,
{
    Position { x: ((f + 97) as u8) as char, y: (r + 1) as i8 }
}

/// Whether every square strictly between `from` and `to` is empty.
pub(crate) fn clear_path(board: &Board, from: Position, to: Position) -> (r: bool)
    requires
        board.wf(),
        from.wf(),
        to.wf(),
        straight(from, to) || diagonal(from, to),
    ensures
        r == path_clear(board@, from, to),
{
    let tf = to.file_i32();
    let tr = to.rank_i32();
    let mut f = from.file_i32();
    let mut r = from.rank_i32();
    let df: i32 = if tf > f {
        1
    } else if tf < f {
        -1
    } else {
        0
    };
    let dr: i32 = if tr > r {
        1
    } else if tr < r {
        -1
    } else {
        0
    };
    let a: i32 = if tf > f {
        tf - f
    } else {
        f - tf
    };
    let b: i32 = if tr > r {
        tr - r
    } else {
        r - tr
    };
    let mut n: i32 = if a > b {
        a
    } else {
        b
    };
    let ghost s = board@;
    let ghost n0 = n as int;
    assert(path_clear(s, from, to) == ray_clear(s, f as int, r as int, df as int, dr as int, n0));
    while n > 1
        invariant
            board.wf(),
            s == board@,
            on_board(f as int, r as int),
            on_board(tf as int, tr as int),
            1 <= n <= 8,
            -1 <= df <= 1,
            -1 <= dr <= 1,
            df == 0 ==> f == tf,
            df == 1 ==> tf == f + n,
            df == -1 ==> tf == f - n,
            dr == 0 ==> r == tr,
            dr == 1 ==> tr == r + n,
            dr == -1 ==> tr == r - n,
            path_clear(s, from, to) == ray_clear(s, f as int, r as int, df as int, dr as int, n as int),
        decreases n,
    {
        let nf = f + df;
        let nr = r + dr;
        if board.piece_at_index((nf + 8 * nr) as usize).is_some() {
            return false;
        }
        f = nf;
        r = nr;
        n = n - 1;
    }
    true
}

/// Appends to `positions` the squares of `ray_moves` for the piece's color and direction.
pub(crate) fn walk_ray(
    board: &Board,
    color: Color,
    from: Position,
    df: i32,
    dr: i32,
    positions: &mut Vec<Position>,
)
    requires
        board.wf(),
        from.wf(),
        -1 <= df <= 1,
        -1 <= dr <= 1,
        !(df == 0 && dr == 0),
    ensures
        final(positions)@ == old(positions)@ + ray_moves(
            board@,
            color,
            from.file(),
            from.rank(),
            df as int,
            dr as int,
        ),
{
    let ghost s = board@;
    let ghost start = old(positions)@;
    let mut f = from.file_i32();
    let mut r = from.rank_i32();
    assert(positions@ == start);
    assert(start + ray_moves(s, color, from.file(), from.rank(), df as int, dr as int) =~= positions@
        + ray_moves(s, color, f as int, r as int, df as int, dr as int));
    loop
        invariant_except_break
            start + ray_moves(s, color, from.file(), from.rank(), df as int, dr as int)
                == positions@ + ray_moves(s, color, f as int, r as int, df as int, dr as int),
        invariant
            board.wf(),
            s == board@,
            on_board(f as int, r as int),
            -1 <= df <= 1,
            -1 <= dr <= 1,
            !(df == 0 && dr == 0),
        ensures
            start + ray_moves(s, color, from.file(), from.rank(), df as int, dr as int)
                == positions@,
        decreases ray_room(f as int, r as int, df as int, dr as int),
    {
        let nf = f + df;
        let nr = r + dr;
        if nf < 0 || nf >= 8 || nr < 0 || nr >= 8 {
            assert(positions@ + seq![] =~= positions@);
            break;
        }
        let q = square_at(nf, nr);
        match board.piece_at_index((nf + 8 * nr) as usize) {
            Some(p) => {
                if p.color() != color {
                    positions.push(q);
                } else {
                    assert(positions@ + seq![] =~= positions@);
                }
                break;
            },
            None => {
                let ghost before = positions@;
                positions.push(q);
                assert(before + ray_moves(s, color, f as int, r as int, df as int, dr as int)
                    =~= positions@ + ray_moves(s, color, nf as int, nr as int, df as int, dr as int));
                f = nf;
                r = nr;
            },
        }
    }
}

// ---------------------------------------------------------------------------
// The move lists agree with the legality oracle.

/// `q` lies a whole number of unit steps `(df, dr)` away from `from`.
pub open spec fn in_direction(from: Position, q: Position, df: int, dr: int) -> bool {
    let a = file_delta(from, q);
    let b = rank_delta(from, q);
    &&& sign(a) == df
    &&& sign(b) == dr
    &&& (df == 0 || dr == 0 || abs(a) == abs(b))
}

proof fn lemma_scale(n: int, d: int)
    requires
        -1 <= d <= 1,
    ensures
        n * d == (if d == 1 {
            n
        } else if d == -1 {
            -n
        } else {
            0
        }),
{
    if d == 1 {
        assert(n * d == n) by (nonlinear_arith)
            requires
                d == 1,
        ;
    } else if d == -1 {
        assert(n * d == -n) by (nonlinear_arith)
            requires
                d == -1,
        ;
    } else {
        assert(n * d == 0) by (nonlinear_arith)
            requires
                d == 0,
        ;
    }
}

/// A well-formed position is the square of its own coordinates.
pub proof fn lemma_at_coordinates(p: Position)
    requires
        p.wf(),
    ensures
        Position::at(p.file(), p.rank()) == p,
{
    let q = Position::at(p.file(), p.rank());
    lemma_at(p.file(), p.rank());
    assert(q.x as int == p.x as int);
}

/// The `k`-th square of a ray lies `k + 1` steps out, the squares before it are
/// empty, and it holds no piece of the ray's color.
proof fn lemma_ray_element(s: Cells, color: Color, f: int, r: int, df: int, dr: int, k: int)
    requires
        s.len() == 64,
        -1 <= df <= 1,
        -1 <= dr <= 1,
        0 <= k < ray_moves(s, color, f, r, df, dr).len(),
    ensures
        on_board(f, r),
        on_board(f + (k + 1) * df, r + (k + 1) * dr),
        ray_moves(s, color, f, r, df, dr)[k] == Position::at(f + (k + 1) * df, r + (k + 1) * dr),
        ray_clear(s, f, r, df, dr, k + 1),
        !holds_color(s, ray_moves(s, color, f, r, df, dr)[k], color),
    decreases ray_room(f, r, df, dr),
{
    lemma_at(f + df, r + dr);
    lemma_scale(k + 1, df);
    lemma_scale(k + 1, dr);
    lemma_scale(k, df);
    lemma_scale(k, dr);
    if k > 0 {
        lemma_ray_element(s, color, f + df, r + dr, df, dr, k - 1);
        let rest = ray_moves(s, color, f + df, r + dr, df, dr);
        assert(ray_moves(s, color, f, r, df, dr) == seq![Position::at(f + df, r + dr)] + rest);
        assert(ray_moves(s, color, f, r, df, dr)[k] == rest[k - 1]);
    }
}

/// A square `n` steps out along a clear ray, not held by the ray's color, is its
/// `(n - 1)`-th square.
proof fn lemma_ray_reaches(s: Cells, color: Color, f: int, r: int, df: int, dr: int, n: int)
    requires
        s.len() == 64,
        on_board(f, r),
        -1 <= df <= 1,
        -1 <= dr <= 1,
        !(df == 0 && dr == 0),
        1 <= n,
        on_board(f + n * df, r + n * dr),
        ray_clear(s, f, r, df, dr, n),
        !holds_color(s, Position::at(f + n * df, r + n * dr), color),
    ensures
        n <= ray_moves(s, color, f, r, df, dr).len(),
        ray_moves(s, color, f, r, df, dr)[n - 1] == Position::at(f + n * df, r + n * dr),
    decreases n,
{
    lemma_scale(n, df);
    lemma_scale(n, dr);
    lemma_scale(n - 1, df);
    lemma_scale(n - 1, dr);
    lemma_at(f + n * df, r + n * dr);
    assert(on_board(f + df, r + dr));
    lemma_at(f + df, r + dr);
    if n > 1 {
        lemma_ray_reaches(s, color, f + df, r + dr, df, dr, n - 1);
        let rest = ray_moves(s, color, f + df, r + dr, df, dr);
        assert(ray_moves(s, color, f, r, df, dr) == seq![Position::at(f + df, r + dr)] + rest);
        assert(ray_moves(s, color, f, r, df, dr)[n - 1] == rest[n - 2]);
    }
}

/// The ray from `from` in direction `(df, dr)` holds `q` exactly when `q` lies in
/// that direction, the squares between are empty, and `q` holds no piece of `color`.
pub proof fn lemma_ray_contains(
    s: Cells,
    color: Color,
    from: Position,
    df: int,
    dr: int,
    q: Position,
)
    requires
        s.len() == 64,
        from.wf(),
        q.wf(),
        -1 <= df <= 1,
        -1 <= dr <= 1,
        !(df == 0 && dr == 0),
    ensures
        ray_moves(s, color, from.file(), from.rank(), df, dr).contains(q) <==> (in_direction(
            from,
            q,
            df,
            dr,
        ) && path_clear(s, from, q) && !holds_color(s, q, color)),
{
    let f = from.file();
    let r = from.rank();
    let ray = ray_moves(s, color, f, r, df, dr);
    lemma_at_coordinates(q);
    if ray.contains(q) {
        let k = choose|k: int| 0 <= k < ray.len() && ray[k] == q;
        lemma_ray_element(s, color, f, r, df, dr, k);
        lemma_scale(k + 1, df);
        lemma_scale(k + 1, dr);
        lemma_at(f + (k + 1) * df, r + (k + 1) * dr);
    }
    if in_direction(from, q, df, dr) && path_clear(s, from, q) && !holds_color(s, q, color) {
        let a = file_delta(from, q);
        let b = rank_delta(from, q);
        let n = if abs(a) > abs(b) {
            abs(a)
        } else {
            abs(b)
        };
        lemma_scale(n, df);
        lemma_scale(n, dr);
        assert(f + n * df == q.file() && r + n * dr == q.rank());
        lemma_ray_reaches(s, color, f, r, df, dr, n);
        assert(ray[n - 1] == q);
    }
}

/// A concatenation holds exactly what one of its parts holds.
pub proof fn lemma_concat_contains(a: Seq<Position>, b: Seq<Position>, q: Position)
    ensures
        (a + b).contains(q) <==> (a.contains(q) || b.contains(q)),
{
    if (a + b).contains(q) {
        let k = choose|k: int| 0 <= k < (a + b).len() && (a + b)[k] == q;
        if k >= a.len() {
            assert(b[k - a.len()] == q);
        } else {
            assert(a[k] == q);
        }
    }
    if a.contains(q) {
        let k = choose|k: int| 0 <= k < a.len() && a[k] == q;
        assert((a + b)[k] == q);
    }
    if b.contains(q) {
        let k = choose|k: int| 0 <= k < b.len() && b[k] == q;
        assert((a + b)[a.len() + k] == q);
    }
}

/// Stepping through offsets keeps exactly the candidates on the board that `ok` accepts.
pub proof fn lemma_step_moves_contains(
    from: Position,
    delta: spec_fn(int) -> (int, int),
    ok: spec_fn(Position) -> bool,
    k: int,
    q: Position,
)
    requires
        q.wf(),
    ensures
        step_moves(from, delta, ok, k).contains(q) <==> exists|i: int|
            0 <= i < k && #[trigger] delta(i) == (q.file() - from.file(), q.rank() - from.rank())
                && ok(q),
    decreases k,
{
    lemma_at_coordinates(q);
    if k > 0 {
        lemma_step_moves_contains(from, delta, ok, k - 1, q);
        let prev = step_moves(from, delta, ok, k - 1);
        let f = from.file() + delta(k - 1).0;
        let r = from.rank() + delta(k - 1).1;
        if on_board(f, r) {
            lemma_at(f, r);
        }
        if on_board(f, r) && ok(Position::at(f, r)) {
            lemma_concat_contains(prev, seq![Position::at(f, r)], q);
            assert(prev.push(Position::at(f, r)) == prev + seq![Position::at(f, r)]);
            assert(seq![Position::at(f, r)].contains(q) <==> Position::at(f, r) == q) by {
                if Position::at(f, r) == q {
                    assert(seq![Position::at(f, r)][0] == q);
                }
            }
        }
        if exists|i: int|
            0 <= i < k && #[trigger] delta(i) == (q.file() - from.file(), q.rank() - from.rank())
                && ok(q) {
            let i = choose|i: int|
                0 <= i < k && #[trigger] delta(i) == (q.file() - from.file(), q.rank()
                    - from.rank()) && ok(q);
            if i == k - 1 {
                assert(Position::at(f, r) == q);
            }
        }
    }
}

/// For every piece on every board, the squares `possible_moves` offers are
/// exactly the squares `can_move_to` accepts: a sliding piece reaches each
/// square along its lines up to and including the first enemy piece, and a
/// stepping piece each of its fixed targets that its rule allows.
pub proof fn lemma_moves_agree_with_rule(s: Cells, p: PieceType, from: Position, q: Position)
    requires
        s.len() == 64,
        from.wf(),
        q.wf(),
    ensures
        moves(s, p, from).contains(q) <==> rule(s, p, from, q) is Ok,
{
    match p {
        PieceType::Pawn(c, _, first) => pawn::lemma_pawn_moves_exact(s, from, c, first, q),
        PieceType::Rook(c, _) => rook::lemma_rook_moves_exact(s, from, c, q),
        PieceType::Bishop(c, _) => bishop::lemma_bishop_moves_exact(s, from, c, q),
        PieceType::Knight(c, _) => knight::lemma_knight_moves_exact(s, from, c, q),
        PieceType::Queen(c, _) => queen::lemma_queen_moves_exact(s, from, c, q),
        PieceType::King(c, _) => king::lemma_king_moves_exact(s, from, c, q),
    }
}

} // verus!
