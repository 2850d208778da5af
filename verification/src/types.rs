//! The small value types of the library: pieces, squares, castling kinds.

use vstd::prelude::*;

verus! {

/// A piece: the low seven bits hold its kind, the top bit its side
/// (clear for white, set for black). The value `0` is the empty square.
#[derive(Clone, Copy, PartialEq, Eq, Debug, Structural)]
pub struct Piece(pub u8);

impl Piece {
    pub const WHITE: u8 = 0;
    pub const BLACK: u8 = 128;

    pub const NULL: u8 = 0;
    pub const PAWN: u8 = 1;
    pub const ROOK: u8 = 2;
    pub const KNIGHT: u8 = 3;
    pub const BISHOP: u8 = 4;
    pub const QUEEN: u8 = 5;
    pub const KING: u8 = 6;

    // The pieces, usable in code and in specifications.

    #[verifier::allow_in_spec]
    pub fn null_piece() -> Piece
        returns
            Piece(0),
    {
        Piece(0)
    }

    #[verifier::allow_in_spec]
    pub fn white_pawn() -> Piece
        returns
            Piece(1),
    {
        Piece(1)
    }

    #[verifier::allow_in_spec]
    pub fn white_rook() -> Piece
        returns
            Piece(2),
    {
        Piece(2)
    }

    #[verifier::allow_in_spec]
    pub fn white_knight() -> Piece
        returns
            Piece(3),
    {
        Piece(3)
    }

    #[verifier::allow_in_spec]
    pub fn white_bishop() -> Piece
        returns
            Piece(4),
    {
        Piece(4)
    }

    #[verifier::allow_in_spec]
    pub fn white_queen() -> Piece
        returns
            Piece(5),
    {
        Piece(5)
    }

    #[verifier::allow_in_spec]
    pub fn white_king() -> Piece
        returns
            Piece(6),
    {
        Piece(6)
    }

    #[verifier::allow_in_spec]
    pub fn black_pawn() -> Piece
        returns
            Piece(129),
    {
        Piece(129)
    }

    #[verifier::allow_in_spec]
    pub fn black_rook() -> Piece
        returns
            Piece(130),
    {
        Piece(130)
    }

    #[verifier::allow_in_spec]
    pub fn black_knight() -> Piece
        returns
            Piece(131),
    {
        Piece(131)
    }

    #[verifier::allow_in_spec]
    pub fn black_bishop() -> Piece
        returns
            Piece(132),
    {
        Piece(132)
    }

    #[verifier::allow_in_spec]
    pub fn black_queen() -> Piece
        returns
            Piece(133),
    {
        Piece(133)
    }

    #[verifier::allow_in_spec]
    pub fn black_king() -> Piece
        returns
            Piece(134),
    {
        Piece(134)
    }

    /// The kind of the piece (its side bit cleared).
    pub open spec fn spec_kind(self) -> u8 {
        self.0 & 127u8
    }

    /// The side bit of the piece: `WHITE` or `BLACK`.
    pub open spec fn spec_side(self) -> u8 {
        self.0 & 128u8
    }

    /// The cell holding this value is empty.
    pub fn is_null(self) -> (b: bool)
        ensures
            b == (self.0 == 0),
    {
        self.0 == Self::NULL
    }

    /// The kind of the piece.
    pub fn kind(self) -> (k: u8)
        ensures
            k == self.spec_kind(),
    {
        assert(!128u8 == 127u8) by (bit_vector);
        self.0 & !Self::BLACK
    }

    /// The side of the piece: `WHITE` or `BLACK`.
    pub fn side(self) -> (s: u8)
        ensures
            s == self.spec_side(),
    {
        self.0 & Self::BLACK
    }
}

/// A square of the board: `row` 0 is white's back rank, `col` 0 the a-file.
#[derive(Clone, Copy, PartialEq, Eq, Debug, Structural)]
pub struct Position {
    pub row: i8,
    pub col: i8,
}

impl Position {
    /// The square lies on the board.
    pub open spec fn spec_in_bounds(self) -> bool {
        0 <= self.row < 8 && 0 <= self.col < 8
    }

    /// Index of the square in a row-major 64-cell array.
    pub open spec fn index(self) -> int {
        self.row * 8 + self.col
    }

    /// The square lies on the board.
    pub fn in_bounds(&self) -> (b: bool)
        ensures
            b == self.spec_in_bounds(),
    {
        0 <= self.row && self.row < 8 && 0 <= self.col && self.col < 8
    }
}

impl core::ops::Add for Position {
    type Output = Self;

    fn add(self, rhs: Self) -> (sum: Self) {
        Position { row: self.row + rhs.row, col: self.col + rhs.col }
    }
}

impl vstd::std_specs::ops::AddSpecImpl for Position {
    open spec fn obeys_add_spec() -> bool {
        true
    }

    open spec fn add_req(self, rhs: Position) -> bool {
        &&& i8::MIN <= self.row + rhs.row <= i8::MAX
        &&& i8::MIN <= self.col + rhs.col <= i8::MAX
    }

    open spec fn add_spec(self, rhs: Position) -> Position {
        Position { row: (self.row + rhs.row) as i8, col: (self.col + rhs.col) as i8 }
    }
}

/// The castling move a move performs, or `No`; also names a castling right.
#[derive(Clone, Copy, PartialEq, Eq, Debug, Structural)]
pub enum Castle {
    No,
    WhiteKingSide,
    WhiteQueenSide,
    BlackKingSide,
    BlackQueenSide,
}

/// A move together with what is needed to take it back.
#[derive(Clone, Copy, Debug)]
pub struct Move {
    pub start: Position,
    pub end: Position,
    pub double_pawn_push: bool,
    pub capture: Option<Piece>,
    pub en_passante: bool,
    pub castle: Castle,
    pub promotion: Option<Piece>,
}

impl Move {
    /// A plain move from `start` to `end`: no capture, no flag, no promotion.
    pub open spec fn plain(start: Position, end: Position) -> Move {
        Move {
            start,
            end,
            double_pawn_push: false,
            capture: None,
            en_passante: false,
            castle: Castle::No,
            promotion: None,
        }
    }
}

impl Default for Move {
    fn default() -> (m: Move)
        ensures
            m == Move::plain(Position { row: 0, col: 0 }, Position { row: 0, col: 0 }),
    {
        Move {
            start: Position { row: 0, col: 0 },
            end: Position { row: 0, col: 0 },
            double_pawn_push: false,
            capture: None,
            en_passante: false,
            castle: Castle::No,
            promotion: None,
        }
    }
}

/// A FEN string that could not be read.
#[derive(Debug)]
pub struct ParseFenError;

/// A move in coordinate notation that could not be read.
#[derive(Debug)]
pub struct ParseMoveError;

/// A square name that could not be read.
#[derive(Debug)]
pub struct ParsePositionError;

} // verus!
