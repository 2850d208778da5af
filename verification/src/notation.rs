//! Reading squares and moves in coordinate notation ("e2", "e7e8q").
//!
//! Text is read as a sequence of `char`s. Surrounding white space is ignored
//! and letters may be upper or lower case.

use vstd::prelude::*;

use crate::text::square_text;
use crate::types::{Castle, Move, ParseMoveError, ParsePositionError, Piece, Position};

verus! {

/// The characters of `s`, in order.
pub(crate) fn chars_of(s: &str) -> (v: Vec<char>)
    ensures
        v@ == s@,
{
    let mut v: Vec<char> = Vec::new();
    for c in it: s.chars()
        invariant
            v@ == it.seq().take(it.index()),
            it.seq() == s@,
    {
        v.push(c);
    }
    v
}

/// `c` has the Unicode White_Space property (what `char::is_whitespace` tests).
pub open spec fn is_white_space(c: char) -> bool {
    let u = c as u32;
    ||| 9 <= u <= 13
    ||| u == 32
    ||| u == 0x85
    ||| u == 0xa0
    ||| u == 0x1680
    ||| 0x2000 <= u <= 0x200a
    ||| u == 0x2028
    ||| u == 0x2029
    ||| u == 0x202f
    ||| u == 0x205f
    ||| u == 0x3000
}

pub(crate) fn white_space(c: char) -> (w: bool)
    ensures
        w == is_white_space(c),
{
    let u = c as u32;
    (9 <= u && u <= 13) || u == 32 || u == 0x85 || u == 0xa0 || u == 0x1680 || (0x2000 <= u && u
        <= 0x200a) || u == 0x2028 || u == 0x2029 || u == 0x202f || u == 0x205f || u == 0x3000
}

/// The number of white-space characters `s` starts with.
pub open spec fn leading_space(s: Seq<char>) -> nat
    decreases s.len(),
{
    if s.len() > 0 && is_white_space(s[0]) {
        1 + leading_space(s.drop_first())
    } else {
        0
    }
}

/// The number of white-space characters `s` ends with.
pub open spec fn trailing_space(s: Seq<char>) -> nat
    decreases s.len(),
{
    if s.len() > 0 && is_white_space(s.last()) {
        1 + trailing_space(s.drop_last())
    } else {
        0
    }
}

/// `s` without the white space at its start and end (what `str::trim` leaves).
pub open spec fn trimmed(s: Seq<char>) -> Seq<char> {
    let rest = s.skip(leading_space(s) as int);
    rest.take(rest.len() - trailing_space(rest))
}

/// The bounds of `v` without its surrounding white space.
pub(crate) fn trim_bounds(v: &Vec<char>) -> (r: (usize, usize))
    ensures
        r.0 <= r.1 <= v@.len(),
        v@.subrange(r.0 as int, r.1 as int) == trimmed(v@),
{
    let n = v.len();
    let mut i: usize = 0;
    assert(v@.skip(0) =~= v@);
    while i < n && white_space(v[i])
        invariant
            i <= n,
            n == v@.len(),
            leading_space(v@) == i + leading_space(v@.skip(i as int)),
        decreases n - i,
    {
        assert(v@.skip(i as int).drop_first() =~= v@.skip(i + 1));
        i += 1;
    }
    assert(leading_space(v@.skip(i as int)) == 0);
    let ghost rest = v@.skip(i as int);
    let mut j: usize = n;
    assert(rest.take(n - i) =~= rest);
    while j > i && white_space(v[j - 1])
        invariant
            i <= j <= n,
            n == v@.len(),
            rest == v@.skip(i as int),
            trailing_space(rest) == (n - j) + trailing_space(rest.take(j - i)),
        decreases j,
    {
        assert(rest.take(j - i).drop_last() =~= rest.take(j - i - 1));
        j -= 1;
    }
    assert(trailing_space(rest.take(j - i)) == 0);
    assert(rest.take(j - i) =~= v@.subrange(i as int, j as int));
    (i, j)
}

/// The column a file letter names, in either case.
pub open spec fn file_index(c: char) -> Option<i8> {
    let u = c as u32;
    if 97 <= u <= 104 {
        Some((u - 97) as i8)
    } else if 65 <= u <= 72 {
        Some((u - 65) as i8)
    } else {
        None
    }
}

/// The row a rank digit names.
pub open spec fn rank_index(c: char) -> Option<i8> {
    let u = c as u32;
    if 49 <= u <= 56 {
        Some((u - 49) as i8)
    } else {
        None
    }
}

/// The square named by a file letter and a rank digit.
pub open spec fn square_named(file: char, rank: char) -> Option<Position> {
    match (file_index(file), rank_index(rank)) {
        (Some(col), Some(row)) => Some(Position { row, col }),
        _ => None,
    }
}

/// The square `s` names, if it names one.
pub open spec fn position_named(s: Seq<char>) -> Option<Position> {
    let t = trimmed(s);
    if t.len() == 2 {
        square_named(t[0], t[1])
    } else {
        None
    }
}

/// The single ASCII character `c` lower-cases to, if its lower case is one
/// ASCII character: an ASCII character, or the Kelvin sign, which lower-cases to `k`.
pub open spec fn ascii_lower(c: char) -> Option<char> {
    let u = c as u32;
    if 65 <= u <= 90 {
        Some((u + 32) as char)
    } else if u < 128 {
        Some(c)
    } else if u == 0x212a {
        Some('k')
    } else {
        None
    }
}

/// The piece a promotion letter names for a move going up the board
/// (`upward`) or down; going down, only the queen is turned black.
pub open spec fn promotion_named(c: char, upward: bool) -> Option<Piece> {
    let white = if c == 'q' {
        Some(Piece::white_queen())
    } else if c == 'b' {
        Some(Piece::white_bishop())
    } else if c == 'r' {
        Some(Piece::white_rook())
    } else if c == 'n' {
        Some(Piece::white_knight())
    } else {
        None
    };
    if !upward && white == Some(Piece::white_queen()) {
        Some(Piece::black_queen())
    } else {
        white
    }
}

/// The move `s` names: two squares, and for five characters a promotion
/// letter (an unknown letter gives no promotion).
pub open spec fn move_named(s: Seq<char>) -> Option<Move> {
    let t = trimmed(s);
    if t.len() == 4 || t.len() == 5 {
        match (square_named(t[0], t[1]), square_named(t[2], t[3])) {
            (Some(start), Some(end)) => {
                let plain = Move {
                    start,
                    end,
                    double_pawn_push: false,
                    capture: None,
                    en_passante: false,
                    castle: Castle::No,
                    promotion: None,
                };
                if t.len() == 4 {
                    Some(plain)
                } else {
                    match ascii_lower(t[4]) {
                        Some(c) => Some(
                            Move { promotion: promotion_named(c, end.row >= start.row), ..plain },
                        ),
                        None => None,
                    }
                }
            },
            _ => None,
        }
    } else {
        None
    }
}

pub(crate) fn file_of(c: char) -> (r: Option<i8>)
    ensures
        r == file_index(c),
{
    let u = c as u32;
    if 97 <= u && u <= 104 {
        Some((u - 97) as i8)
    } else if 65 <= u && u <= 72 {
        Some((u - 65) as i8)
    } else {
        None
    }
}

pub(crate) fn rank_of(c: char) -> (r: Option<i8>)
    ensures
        r == rank_index(c),
{
    let u = c as u32;
    if 49 <= u && u <= 56 {
        Some((u - 49) as i8)
    } else {
        None
    }
}

pub(crate) fn square_from(file: char, rank: char) -> (r: Option<Position>)
    ensures
        r == square_named(file, rank),
{
    match (file_of(file), rank_of(rank)) {
        (Some(col), Some(row)) => Some(Position { row, col }),
        _ => None,
    }
}

pub(crate) fn lower_ascii(c: char) -> (r: Option<char>)
    ensures
        r == ascii_lower(c),
{
    let u = c as u32;
    if 65 <= u && u <= 90 {
        let l = (u + 32) as u8;
        Some(l as char)
    } else if u < 128 {
        Some(c)
    } else if u == 0x212a {
        Some('k')
    } else {
        None
    }
}

/// The square the characters `v` name, if they name one.
pub(crate) fn position_from_chars(v: &Vec<char>) -> (r: Option<Position>)
    ensures
        r == position_named(v@),
{
    let (i, j) = trim_bounds(v);
    if j - i != 2 {
        return None;
    }
    square_from(v[i], v[i + 1])
}

impl Position {
    /// Reads a square name such as `e4` or ` E4 `.
    pub fn parse_square(s: &str) -> (r: Result<Position, ParsePositionError>)
        ensures
            r matches Ok(p) ==> position_named(s@) == Some(p),
            r is Err ==> position_named(s@) is None,
    {
        let v = chars_of(s);
        match position_from_chars(&v) {
            Some(p) => Ok(p),
            None => Err(ParsePositionError),
        }
    }
}

impl Move {
    /// Reads a move such as `e2e4` or `e7e8q`; the flags, capture and
    /// castling kind are left unset (see `Board::annotate_move`).
    pub fn parse_coordinates(s: &str) -> (r: Result<Move, ParseMoveError>)
        ensures
            r matches Ok(m) ==> move_named(s@) == Some(m),
            r is Err ==> move_named(s@) is None,
    {
        let v = chars_of(s);
        let (i, j) = trim_bounds(&v);
        let len = j - i;
        if len != 4 && len != 5 {
            return Err(ParseMoveError);
        }
        let (start, end) = match (square_from(v[i], v[i + 1]), square_from(v[i + 2], v[i + 3])) {
            (Some(start), Some(end)) => (start, end),
            _ => {
                return Err(ParseMoveError);
            },
        };
        let promotion = if len == 5 {
            match lower_ascii(v[i + 4]) {
                Some(c) => {
                    let white = if c == 'q' {
                        Some(Piece::white_queen())
                    } else if c == 'b' {
                        Some(Piece::white_bishop())
                    } else if c == 'r' {
                        Some(Piece::white_rook())
                    } else if c == 'n' {
                        Some(Piece::white_knight())
                    } else {
                        None
                    };
                    let upward = end.row >= start.row;
                    match white {
                        Some(p) => {
                            if !upward && p == Piece::white_queen() {
                                Some(Piece::black_queen())
                            } else {
                                Some(p)
                            }
                        },
                        None => None,
                    }
                },
                None => {
                    return Err(ParseMoveError);
                },
            }
        } else {
            None
        };
        Ok(
            Move {
                start,
                end,
                double_pawn_push: false,
                capture: None,
                en_passante: false,
                castle: Castle::No,
                promotion,
            },
        )
    }
}

} // verus!

verus! {

/// A square name has no white space around it.
proof fn lemma_square_text_trimmed(t: Seq<char>)
    requires
        forall|i: int| 0 <= i < t.len() ==> !is_white_space(#[trigger] t[i]),
    ensures
        trimmed(t) == t,
{
    assert(t.skip(0) =~= t);
    assert(t.take(t.len() as int) =~= t);
}

/// Reading the name of a square on the board gives the square back.
pub proof fn lemma_square_name_round_trip(p: Position)
    requires
        p.spec_in_bounds(),
    ensures
        position_named(square_text(p)) == Some(p),
{
    let t = square_text(p);
    lemma_square_text_trimmed(t);
}

/// The character `c` with an ASCII capital turned into the small letter.
pub open spec fn ascii_small(c: char) -> char {
    let u = c as u32;
    if 65 <= u <= 90 {
        (u + 32) as char
    } else {
        c
    }
}

/// A square read from text is on the board, and its name is that text
/// without the surrounding white space and with capitals made small; the
/// text read is ASCII, so that is also its lower case.
pub proof fn lemma_square_read_round_trip(s: Seq<char>)
    requires
        position_named(s) is Some,
    ensures
        position_named(s)->0.spec_in_bounds(),
        square_text(position_named(s)->0) == trimmed(s).map_values(|c: char| ascii_small(c)),
        forall|i: int| 0 <= i < trimmed(s).len() ==> (#[trigger] trimmed(s)[i] as u32) < 128,
{
    let t = trimmed(s);
    let p = position_named(s)->0;
    assert(square_text(p) =~= t.map_values(|c: char| ascii_small(c)));
}

/// Reading the coordinate notation of a move between squares on the board
/// gives back the move with no flag, capture or promotion.
pub proof fn lemma_move_name_round_trip(start: Position, end: Position)
    requires
        start.spec_in_bounds(),
        end.spec_in_bounds(),
    ensures
        move_named(square_text(start) + square_text(end)) == Some(Move::plain(start, end)),
{
    let t = square_text(start) + square_text(end);
    assert(t[0] == square_text(start)[0] && t[1] == square_text(start)[1]);
    assert(t[2] == square_text(end)[0] && t[3] == square_text(end)[1]);
    lemma_square_text_trimmed(t);
}

impl core::str::FromStr for Position {
    type Err = ParsePositionError;

    fn from_str(s: &str) -> (r: Result<Self, Self::Err>)
        ensures
            r matches Ok(p) ==> position_named(s@) == Some(p),
            r is Err ==> position_named(s@) is None,
    {
        Position::parse_square(s)
    }
}

impl core::str::FromStr for Move {
    type Err = ParseMoveError;

    fn from_str(s: &str) -> (r: Result<Self, Self::Err>)
        ensures
            r matches Ok(m) ==> move_named(s@) == Some(m),
            r is Err ==> move_named(s@) is None,
    {
        Move::parse_coordinates(s)
    }
}

} // verus!

verus! {

/// The promotion a five-letter move reads from its last letter, in either
/// case: going up the board (or along a rank) `q`, `b`, `r`, `n` give the
/// white queen, bishop, rook and knight; going down, `q` gives the black
/// queen and the other three letters still give the white pieces. Any other
/// ASCII letter gives no promotion.
pub proof fn lemma_promotion_letters(start: Position, end: Position, c: char)
    requires
        start.spec_in_bounds(),
        end.spec_in_bounds(),
        (c as u32) < 128,
        !is_white_space(c),
    ensures
        ({
            let m = move_named(square_text(start) + square_text(end) + seq![c]);
            let small = ascii_small(c);
            &&& m is Some
            &&& m->0.start == start
            &&& m->0.end == end
            &&& m->0.capture is None
            &&& !m->0.en_passante
            &&& !m->0.double_pawn_push
            &&& m->0.castle == Castle::No
            &&& small == 'q' && end.row >= start.row ==> m->0.promotion == Some(Piece(5))
            &&& small == 'q' && end.row < start.row ==> m->0.promotion == Some(Piece(133))
            &&& small == 'b' ==> m->0.promotion == Some(Piece(4))
            &&& small == 'r' ==> m->0.promotion == Some(Piece(2))
            &&& small == 'n' ==> m->0.promotion == Some(Piece(3))
            &&& small != 'q' && small != 'b' && small != 'r' && small != 'n' ==> m->0.promotion
                is None
        }),
{
    let t = square_text(start) + square_text(end) + seq![c];
    assert(t[0] == square_text(start)[0] && t[1] == square_text(start)[1]);
    assert(t[2] == square_text(end)[0] && t[3] == square_text(end)[1]);
    assert(t[4] == c);
    lemma_square_text_trimmed(t);
    assert(ascii_lower(c) == Some(ascii_small(c)));
}

} // verus!
