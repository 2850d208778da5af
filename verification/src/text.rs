//! The text forms of squares, moves, pieces and boards.

use vstd::prelude::*;

use crate::board::{lemma_board_view, Board, BoardView};
use crate::lists::{castle_right_items, right_at, right_count};
use crate::types::{Castle, Move, Piece, Position};

verus! {

broadcast use lemma_board_view;

/// `String::push`: appends `c` at the end.
#[verifier::external_body]
fn push_char(s: &mut String, c: char)
    ensures
        final(s)@ == old(s)@.push(c),
{
    s.push(c)
}

/// The name of a square on the board: its file letter and rank digit.
pub open spec fn square_text(p: Position) -> Seq<char> {
    seq![(97 + p.col) as char, (49 + p.row) as char]
}

impl Position {
    /// The name of the square, such as `e4`.
    pub fn to_string(&self) -> (s: String)
        requires
            self.spec_in_bounds(),
        ensures
            s@ == square_text(*self),
    {
        let mut s = String::new();
        push_char(&mut s, ((97 + self.col) as u8) as char);
        push_char(&mut s, ((49 + self.row) as u8) as char);
        assert(s@ =~= square_text(*self));
        s
    }
}

impl Move {
    /// The move in coordinate notation: its start square, then its end square.
    pub fn to_string(&self) -> (s: String)
        requires
            self.start.spec_in_bounds(),
            self.end.spec_in_bounds(),
        ensures
            s@ == square_text(self.start) + square_text(self.end),
    {
        let mut s = String::new();
        push_char(&mut s, ((97 + self.start.col) as u8) as char);
        push_char(&mut s, ((49 + self.start.row) as u8) as char);
        push_char(&mut s, ((97 + self.end.col) as u8) as char);
        push_char(&mut s, ((49 + self.end.row) as u8) as char);
        assert(s@ =~= square_text(self.start) + square_text(self.end));
        s
    }
}

/// The chess symbol of a piece; nothing for the empty cell or an unknown value.
pub open spec fn piece_text(p: Piece) -> Seq<char> {
    if p == Piece::white_pawn() {
        seq!['\u{2659}']
    } else if p == Piece::white_rook() {
        seq!['\u{2656}']
    } else if p == Piece::white_knight() {
        seq!['\u{2658}']
    } else if p == Piece::white_bishop() {
        seq!['\u{2657}']
    } else if p == Piece::white_queen() {
        seq!['\u{2655}']
    } else if p == Piece::white_king() {
        seq!['\u{2654}']
    } else if p == Piece::black_pawn() {
        seq!['\u{265f}', '\u{fe0e}']
    } else if p == Piece::black_rook() {
        seq!['\u{265c}']
    } else if p == Piece::black_knight() {
        seq!['\u{265e}']
    } else if p == Piece::black_bishop() {
        seq!['\u{265d}']
    } else if p == Piece::black_queen() {
        seq!['\u{265b}']
    } else if p == Piece::black_king() {
        seq!['\u{265a}']
    } else {
        seq![]
    }
}

/// Appends the chess symbol of `p`.
fn push_piece(s: &mut String, p: Piece)
    ensures
        final(s)@ == old(s)@ + piece_text(p),
{
    let ghost start = s@;
    if p == Piece::white_pawn() {
        push_char(s, '\u{2659}');
    } else if p == Piece::white_rook() {
        push_char(s, '\u{2656}');
    } else if p == Piece::white_knight() {
        push_char(s, '\u{2658}');
    } else if p == Piece::white_bishop() {
        push_char(s, '\u{2657}');
    } else if p == Piece::white_queen() {
        push_char(s, '\u{2655}');
    } else if p == Piece::white_king() {
        push_char(s, '\u{2654}');
    } else if p == Piece::black_pawn() {
        push_char(s, '\u{265f}');
        push_char(s, '\u{fe0e}');
    } else if p == Piece::black_rook() {
        push_char(s, '\u{265c}');
    } else if p == Piece::black_knight() {
        push_char(s, '\u{265e}');
    } else if p == Piece::black_bishop() {
        push_char(s, '\u{265d}');
    } else if p == Piece::black_queen() {
        push_char(s, '\u{265b}');
    } else if p == Piece::black_king() {
        push_char(s, '\u{265a}');
    }
    assert(s@ =~= start + piece_text(p));
}

impl Piece {
    /// The chess symbol of the piece, such as `♕`; empty for the empty cell.
    pub fn to_string(&self) -> (s: String)
        ensures
            s@ == piece_text(*self),
    {
        let mut s = String::new();
        push_piece(&mut s, *self);
        assert(s@ =~= piece_text(*self));
        s
    }
}

/// The decimal digits of `n`.
pub open spec fn digits(n: nat) -> Seq<char>
    decreases n,
{
    if n < 10 {
        seq![(48 + n) as char]
    } else {
        digits(n / 10) + seq![(48 + n % 10) as char]
    }
}

/// The decimal form of `n`, with a minus sign when negative.
pub open spec fn decimal(n: int) -> Seq<char> {
    if n < 0 {
        seq!['-'] + digits((-n) as nat)
    } else {
        digits(n as nat)
    }
}

/// Appends the decimal digits of `n`.
fn push_digits(s: &mut String, n: u8)
    ensures
        final(s)@ == old(s)@ + digits(n as nat),
{
    let ghost start = s@;
    if n >= 100 {
        push_char(s, (48 + n / 100) as char);
        push_char(s, (48 + (n / 10) % 10) as char);
        push_char(s, (48 + n % 10) as char);
        assert(digits(n as nat) =~= digits((n / 10) as nat) + seq![(48 + n % 10) as char]);
        assert(digits((n / 10) as nat) =~= digits((n / 100) as nat) + seq![(48 + (n / 10) % 10) as char]);
    } else if n >= 10 {
        push_char(s, (48 + n / 10) as char);
        push_char(s, (48 + n % 10) as char);
        assert(digits(n as nat) =~= digits((n / 10) as nat) + seq![(48 + n % 10) as char]);
    } else {
        push_char(s, (48 + n) as char);
    }
    assert(s@ =~= start + digits(n as nat));
}

/// Appends the decimal form of `n`.
fn push_decimal(s: &mut String, n: i8)
    ensures
        final(s)@ == old(s)@ + decimal(n as int),
{
    let ghost start = s@;
    if n < 0 {
        push_char(s, '-');
        let m: u8 = if n == -128 {
            128
        } else {
            (-n) as u8
        };
        push_digits(s, m);
    } else {
        push_digits(s, n as u8);
    }
    assert(s@ =~= start + decimal(n as int));
}


/// How a square is written when debugging: `Position { row: 2, col: 4 }`.
pub open spec fn position_debug(p: Position) -> Seq<char> {
    "Position { row: "@ + decimal(p.row as int) + ", col: "@ + decimal(p.col as int) + " }"@
}

/// How an en-passant square is written when debugging.
pub open spec fn en_passant_debug(e: Option<Position>) -> Seq<char> {
    match e {
        None => "None"@,
        Some(p) => "Some("@ + position_debug(p) + ")"@,
    }
}

/// The name of a castling kind.
pub open spec fn castle_name(c: Castle) -> Seq<char> {
    match c {
        Castle::No => "No"@,
        Castle::WhiteKingSide => "WhiteKingSide"@,
        Castle::WhiteQueenSide => "WhiteQueenSide"@,
        Castle::BlackKingSide => "BlackKingSide"@,
        Castle::BlackQueenSide => "BlackQueenSide"@,
    }
}

/// The names of the rights, separated by a comma and a space.
pub open spec fn rights_names(rs: Seq<Castle>) -> Seq<char>
    decreases rs.len(),
{
    if rs.len() == 0 {
        seq![]
    } else if rs.len() == 1 {
        castle_name(rs[0])
    } else {
        rights_names(rs.drop_last()) + ", "@ + castle_name(rs.last())
    }
}

/// How a list of rights is written when debugging: `[WhiteKingSide, BlackQueenSide]`.
pub open spec fn rights_debug(rs: Seq<Castle>) -> Seq<char> {
    "["@ + rights_names(rs) + "]"@
}

/// The line drawn between rows.
pub open spec fn rule_line() -> Seq<char> {
    "   +---+---+---+---+---+---+---+---+\n"@
}

/// One cell of a printed row.
pub open spec fn cell_text(p: Piece) -> Seq<char> {
    " "@ + (if p.0 == 0 {
        " "@
    } else {
        piece_text(p)
    }) + " |"@
}

/// The first `n` cells of row `r`, printed.
pub open spec fn cells_text(b: BoardView, r: int, n: int) -> Seq<char>
    decreases n,
{
    if n <= 0 {
        seq![]
    } else {
        cells_text(b, r, n - 1) + cell_text(b.at(Position { row: r as i8, col: (n - 1) as i8 }))
    }
}

/// Row `r` printed, with its number and the line below it.
pub open spec fn row_text(b: BoardView, r: int) -> Seq<char> {
    " "@ + digits((r + 1) as nat) + " |"@ + cells_text(b, r, 8) + "\n"@ + rule_line()
}

/// The rows from the eighth down to the `8 - n + 1`-th, printed.
pub open spec fn rows_text(b: BoardView, n: int) -> Seq<char>
    decreases n,
{
    if n <= 0 {
        seq![]
    } else {
        rows_text(b, n - 1) + row_text(b, 8 - n)
    }
}

/// The printed board: the en-passant square and castling rights of the
/// current position, then the rows from the eighth down, then the file letters.
pub open spec fn board_text(b: BoardView) -> Seq<char> {
    "   ep: "@ + en_passant_debug(b.current().en_passante) + ", castle_rights: "@ + rights_debug(
        b.current().castle_rights,
    ) + "\n"@ + rule_line() + rows_text(b, 8) + "     A   B   C   D   E   F   G   H  \n"@
}

/// Appends the name of a castling kind.
fn push_castle_name(s: &mut String, c: Castle)
    ensures
        final(s)@ == old(s)@ + castle_name(c),
{
    match c {
        Castle::No => s.append("No"),
        Castle::WhiteKingSide => s.append("WhiteKingSide"),
        Castle::WhiteQueenSide => s.append("WhiteQueenSide"),
        Castle::BlackKingSide => s.append("BlackKingSide"),
        Castle::BlackQueenSide => s.append("BlackQueenSide"),
    }
}

impl Board {
    /// The board as text: a line with the en-passant square and the castling
    /// rights, then the rows from the eighth down to the first, framed, each
    /// with its rank number, and a last line with the file letters.
    pub fn to_string(&self) -> (s: String)
        requires
            self@.wf(),
            self@.history.len() > 0,
        ensures
            s@ == board_text(self@),
    {
        let ghost v = self@;
        let mut s = String::new();
        s.append("   ep: ");
        match self.current_en_passant() {
            None => s.append("None"),
            Some(p) => {
                s.append("Some(");
                s.append("Position { row: ");
                push_decimal(&mut s, p.row);
                s.append(", col: ");
                push_decimal(&mut s, p.col);
                s.append(" }");
                s.append(")");
            },
        }
        s.append(", castle_rights: ");
        s.append("[");
        let rights = self.current_rights();
        let ghost rs = castle_right_items(*rights);
        let n = right_count(rights);
        let ghost before = s@;
        let mut i: usize = 0;
        while i < n
            invariant
                i <= n,
                n == rs.len(),
                rs == castle_right_items(*rights),
                s@ == before + rights_names(rs.take(i as int)),
            decreases n - i,
        {
            assert(rs.take(i + 1).drop_last() =~= rs.take(i as int));
            if i > 0 {
                s.append(", ");
            }
            push_castle_name(&mut s, right_at(rights, i));
            assert(s@ =~= before + rights_names(rs.take(i + 1)));
            i += 1;
        }
        assert(rs.take(n as int) =~= rs);
        s.append("]");
        s.append("\n");
        s.append("   +---+---+---+---+---+---+---+---+\n");
        let ghost head = s@;
        let mut k: usize = 0;
        while k < 8
            invariant
                k <= 8,
                self@ == v,
                v.wf(),
                s@ == head + rows_text(v, k as int),
            decreases 8 - k,
        {
            let r = 7 - k;
            let ghost row_start = s@;
            s.append(" ");
            push_digits(&mut s, (r + 1) as u8);
            s.append(" |");
            let ghost cells_start = s@;
            let mut c: usize = 0;
            while c < 8
                invariant
                    c <= 8,
                    r < 8,
                    self@ == v,
                    v.wf(),
                    s@ == cells_start + cells_text(v, r as int, c as int),
                decreases 8 - c,
            {
                let pos = Position { row: r as i8, col: c as i8 };
                let p = self.get(pos);
                let ghost cell_start = s@;
                s.append(" ");
                if p.is_null() {
                    s.append(" ");
                } else {
                    push_piece(&mut s, p);
                }
                s.append(" |");
                assert(s@ =~= cell_start + cell_text(p));
                assert(cells_text(v, r as int, c + 1) == cells_text(v, r as int, c as int) + cell_text(p));
                assert(s@ =~= cells_start + cells_text(v, r as int, c + 1));
                c += 1;
            }
            s.append("\n");
            s.append("   +---+---+---+---+---+---+---+---+\n");
            assert(s@ =~= head + rows_text(v, k + 1));
            k += 1;
        }
        s.append("     A   B   C   D   E   F   G   H  \n");
        assert(s@ =~= board_text(v));
        s
    }
}

} // verus!
