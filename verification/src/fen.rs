//! Reading a board from Forsyth-Edwards Notation.
//!
//! A FEN string holds six fields separated by single spaces: the rows from
//! the eighth down to the first ('/' between rows, a digit for that many
//! empty cells, a letter for a piece), the side to move (`w` or `b`), the
//! castling rights (`KQkq` or `-`), the en-passant square (or `-`), and two
//! move counters, which are not read.

use vstd::prelude::*;

use crate::board::{lemma_board_view, Board, BoardState, BoardView, StateView, MAX_HISTORY};
use crate::lists::{castle_right_items, new_rights, push_right, right_count};
use crate::notation::{chars_of, position_named};
use crate::types::{Castle, ParseFenError, Piece, Position};

verus! {

broadcast use lemma_board_view;

/// `s` cut at every `sep`: the pieces between separators, empty ones included.
pub open spec fn split_on(s: Seq<char>, sep: char) -> Seq<Seq<char>>
    decreases s.len(),
{
    if s.len() == 0 {
        seq![seq![]]
    } else {
        let init = split_on(s.drop_last(), sep);
        if s.last() == sep {
            init.push(seq![])
        } else {
            init.update(init.len() - 1, init.last().push(s.last()))
        }
    }
}

/// The outcome of reading a FEN string: what was read, text that is not
/// FEN, or a string whose reading stops the program (a piece placed off the
/// board, more than four castling rights, or an empty-cell count past `u32`).
pub enum FenRead<T> {
    Read(T),
    Invalid,
    Aborts,
}

/// The pieces placed and the kings found so far.
pub struct FenBoard {
    pub squares: Seq<Piece>,
    pub white_king: Position,
    pub black_king: Position,
}

/// The piece a FEN letter stands for.
pub open spec fn fen_piece(c: char) -> Option<Piece> {
    if c == 'r' {
        Some(Piece::black_rook())
    } else if c == 'b' {
        Some(Piece::black_bishop())
    } else if c == 'n' {
        Some(Piece::black_knight())
    } else if c == 'q' {
        Some(Piece::black_queen())
    } else if c == 'k' {
        Some(Piece::black_king())
    } else if c == 'p' {
        Some(Piece::black_pawn())
    } else if c == 'R' {
        Some(Piece::white_rook())
    } else if c == 'B' {
        Some(Piece::white_bishop())
    } else if c == 'N' {
        Some(Piece::white_knight())
    } else if c == 'Q' {
        Some(Piece::white_queen())
    } else if c == 'K' {
        Some(Piece::white_king())
    } else if c == 'P' {
        Some(Piece::white_pawn())
    } else {
        None
    }
}

/// The value of a decimal digit.
pub open spec fn digit_value(c: char) -> Option<u32> {
    if '0' <= c && c <= '9' {
        Some((c as u32 - 48) as u32)
    } else {
        None
    }
}

/// `acc` with piece `p` placed on `pos`, a king also recorded as its side's king.
pub open spec fn place_piece(acc: FenBoard, pos: Position, p: Piece) -> FenBoard {
    FenBoard {
        squares: acc.squares.update(pos.index(), p),
        white_king: if p == Piece::white_king() {
            pos
        } else {
            acc.white_king
        },
        black_king: if p == Piece::black_king() {
            pos
        } else {
            acc.black_king
        },
    }
}

/// Reads row `r` of the FEN board (counted from the top) from its `i`-th
/// character on, the next piece going to column `col`.
pub open spec fn scan_row(acc: FenBoard, r: int, row: Seq<char>, i: int, col: int) -> FenRead<FenBoard>
    decreases row.len() - i,
{
    if i < 0 || i >= row.len() {
        FenRead::Read(acc)
    } else {
        let c = row[i];
        match digit_value(c) {
            Some(d) => if col + d > u32::MAX {
                FenRead::Aborts
            } else {
                scan_row(acc, r, row, i + 1, col + d)
            },
            None => match fen_piece(c) {
                None => FenRead::Invalid,
                Some(p) => if r > 7 || col > 7 {
                    FenRead::Aborts
                } else {
                    scan_row(
                        place_piece(acc, Position { row: (7 - r) as i8, col: col as i8 }, p),
                        r,
                        row,
                        i + 1,
                        col + 1,
                    )
                },
            },
        }
    }
}

/// Reads the rows of the FEN board from the `k`-th on.
pub open spec fn scan_rows(acc: FenBoard, rows: Seq<Seq<char>>, k: int) -> FenRead<FenBoard>
    decreases rows.len() - k,
{
    if k < 0 || k >= rows.len() {
        FenRead::Read(acc)
    } else {
        match scan_row(acc, k, rows[k], 0, 0) {
            FenRead::Read(next) => scan_rows(next, rows, k + 1),
            FenRead::Invalid => FenRead::Invalid,
            FenRead::Aborts => FenRead::Aborts,
        }
    }
}

/// Reads the castling field from its `i`-th character on.
pub open spec fn scan_castles(rights: Seq<Castle>, s: Seq<char>, i: int) -> FenRead<Seq<Castle>>
    decreases s.len() - i,
{
    if i < 0 || i >= s.len() {
        FenRead::Read(rights)
    } else {
        let c = s[i];
        if c == '-' {
            scan_castles(rights, s, i + 1)
        } else {
            let right = if c == 'K' {
                Some(Castle::WhiteKingSide)
            } else if c == 'Q' {
                Some(Castle::WhiteQueenSide)
            } else if c == 'k' {
                Some(Castle::BlackKingSide)
            } else if c == 'q' {
                Some(Castle::BlackQueenSide)
            } else {
                None
            };
            match right {
                None => FenRead::Invalid,
                Some(r) => if rights.len() >= 4 {
                    FenRead::Aborts
                } else {
                    scan_castles(rights.push(r), s, i + 1)
                },
            }
        }
    }
}

/// The side to move a FEN field names: `Some(true)` for white.
pub open spec fn side_named(s: Seq<char>) -> Option<bool> {
    if s == seq!['w'] {
        Some(true)
    } else if s == seq!['b'] {
        Some(false)
    } else {
        None
    }
}

/// The en-passant square a FEN field names: `Some(None)` for `-`.
pub open spec fn en_passant_named(s: Seq<char>) -> Option<Option<Position>> {
    if s == seq!['-'] {
        Some(None)
    } else {
        match position_named(s) {
            Some(p) => Some(Some(p)),
            None => None,
        }
    }
}

/// The empty board with both kings recorded on a1.
pub open spec fn empty_fen_board() -> FenBoard {
    FenBoard {
        squares: Seq::new(64, |i: int| Piece(0)),
        white_king: Position { row: 0, col: 0 },
        black_king: Position { row: 0, col: 0 },
    }
}

/// What reading the FEN string `s` gives.
pub open spec fn fen_read(s: Seq<char>) -> FenRead<BoardView> {
    let fields = split_on(s, ' ');
    if fields.len() != 6 {
        FenRead::Invalid
    } else {
        match scan_rows(empty_fen_board(), split_on(fields[0], '/'), 0) {
            FenRead::Invalid => FenRead::Invalid,
            FenRead::Aborts => FenRead::Aborts,
            FenRead::Read(fb) => match side_named(fields[1]) {
                None => FenRead::Invalid,
                Some(white_turn) => match scan_castles(seq![], fields[2], 0) {
                    FenRead::Invalid => FenRead::Invalid,
                    FenRead::Aborts => FenRead::Aborts,
                    FenRead::Read(rights) => match en_passant_named(fields[3]) {
                        None => FenRead::Invalid,
                        Some(ep) => FenRead::Read(
                            BoardView {
                                squares: fb.squares,
                                white_king: fb.white_king,
                                black_king: fb.black_king,
                                history: seq![StateView { castle_rights: rights, en_passante: ep }],
                                white_turn,
                            },
                        ),
                    },
                },
            },
        }
    }
}

/// The cells and kings read so far are on the board.
pub open spec fn fen_board_wf(fb: FenBoard) -> bool {
    fb.squares.len() == 64 && fb.white_king.spec_in_bounds() && fb.black_king.spec_in_bounds()
}

proof fn lemma_scan_row_wf(acc: FenBoard, r: int, row: Seq<char>, i: int, col: int)
    requires
        fen_board_wf(acc),
        r >= 0,
        col >= 0,
    ensures
        scan_row(acc, r, row, i, col) matches FenRead::Read(fb) ==> fen_board_wf(fb),
    decreases row.len() - i,
{
    if 0 <= i < row.len() {
        let c = row[i];
        match digit_value(c) {
            Some(d) => {
                lemma_scan_row_wf(acc, r, row, i + 1, col + d);
            },
            None => match fen_piece(c) {
                None => {},
                Some(p) => {
                    if !(r > 7 || col > 7) {
                        lemma_scan_row_wf(
                            place_piece(acc, Position { row: (7 - r) as i8, col: col as i8 }, p),
                            r,
                            row,
                            i + 1,
                            col + 1,
                        );
                    }
                },
            },
        }
    }
}

proof fn lemma_scan_rows_wf(acc: FenBoard, rows: Seq<Seq<char>>, k: int)
    requires
        fen_board_wf(acc),
    ensures
        scan_rows(acc, rows, k) matches FenRead::Read(fb) ==> fen_board_wf(fb),
    decreases rows.len() - k,
{
    if 0 <= k < rows.len() {
        lemma_scan_row_wf(acc, k, rows[k], 0, 0);
        match scan_row(acc, k, rows[k], 0, 0) {
            FenRead::Read(next) => lemma_scan_rows_wf(next, rows, k + 1),
            _ => {},
        }
    }
}

/// A board read from FEN is well formed and has one remembered position.
pub proof fn lemma_fen_read_wf(s: Seq<char>)
    ensures
        fen_read(s) matches FenRead::Read(b) ==> b.wf() && b.history.len() == 1,
{
    let fields = split_on(s, ' ');
    if fields.len() == 6 {
        lemma_scan_rows_wf(empty_fen_board(), split_on(fields[0], '/'), 0);
    }
}

/// `v` cut at every `sep`.
fn split_chars(v: &Vec<char>, sep: char) -> (parts: Vec<Vec<char>>)
    ensures
        parts@.map_values(|p: Vec<char>| p@) == split_on(v@, sep),
{
    let mut parts: Vec<Vec<char>> = Vec::new();
    let mut cur: Vec<char> = Vec::new();
    let mut k: usize = 0;
    assert(v@.take(0) =~= seq![]);
    assert(parts@.map_values(|p: Vec<char>| p@).push(cur@) =~= split_on(v@.take(0), sep));
    while k < v.len()
        invariant
            k <= v@.len(),
            parts@.map_values(|p: Vec<char>| p@).push(cur@) == split_on(v@.take(k as int), sep),
        decreases v@.len() - k,
    {
        let ghost before = parts@.map_values(|p: Vec<char>| p@);
        let ghost old_cur = cur@;
        assert(v@.take(k + 1).drop_last() =~= v@.take(k as int));
        let c = v[k];
        if c == sep {
            let done = cur;
            parts.push(done);
            cur = Vec::new();
            assert(parts@.map_values(|p: Vec<char>| p@) =~= before.push(old_cur));
        } else {
            cur.push(c);
            assert(parts@.map_values(|p: Vec<char>| p@) =~= before);
        }
        assert(parts@.map_values(|p: Vec<char>| p@).push(cur@) =~= split_on(v@.take(k + 1), sep));
        k += 1;
    }
    assert(v@.take(v@.len() as int) =~= v@);
    let ghost before = parts@.map_values(|p: Vec<char>| p@);
    parts.push(cur);
    assert(parts@.map_values(|p: Vec<char>| p@) =~= split_on(v@, sep));
    parts
}


fn fen_piece_of(c: char) -> (p: Option<Piece>)
    ensures
        p == fen_piece(c),
{
    if c == 'r' {
        Some(Piece::black_rook())
    } else if c == 'b' {
        Some(Piece::black_bishop())
    } else if c == 'n' {
        Some(Piece::black_knight())
    } else if c == 'q' {
        Some(Piece::black_queen())
    } else if c == 'k' {
        Some(Piece::black_king())
    } else if c == 'p' {
        Some(Piece::black_pawn())
    } else if c == 'R' {
        Some(Piece::white_rook())
    } else if c == 'B' {
        Some(Piece::white_bishop())
    } else if c == 'N' {
        Some(Piece::white_knight())
    } else if c == 'Q' {
        Some(Piece::white_queen())
    } else if c == 'K' {
        Some(Piece::white_king())
    } else if c == 'P' {
        Some(Piece::white_pawn())
    } else {
        None
    }
}

fn digit_of(c: char) -> (d: Option<u32>)
    ensures
        d == digit_value(c),
{
    if '0' <= c && c <= '9' {
        Some(c as u32 - 48)
    } else {
        None
    }
}

/// Reads the castling field.
fn read_castles(f: &Vec<char>) -> (r: Option<Result<arrayvec::ArrayVec<Castle, 4>, ParseFenError>>)
    ensures
        match scan_castles(seq![], f@, 0) {
            FenRead::Read(rights) => r matches Some(Ok(list)) && castle_right_items(list) == rights,
            FenRead::Invalid => r matches Some(Err(_)),
            FenRead::Aborts => r is None,
        },
{
    let mut rights = new_rights();
    let mut i: usize = 0;
    while i < f.len()
        invariant
            i <= f@.len(),
            castle_right_items(rights).len() <= 4,
            scan_castles(castle_right_items(rights), f@, i as int) == scan_castles(seq![], f@, 0),
        decreases f@.len() - i,
    {
        let c = f[i];
        if c != '-' {
            let right = if c == 'K' {
                Castle::WhiteKingSide
            } else if c == 'Q' {
                Castle::WhiteQueenSide
            } else if c == 'k' {
                Castle::BlackKingSide
            } else if c == 'q' {
                Castle::BlackQueenSide
            } else {
                return Some(Err(ParseFenError));
            };
            if right_count(&rights) >= 4 {
                return None;
            }
            push_right(&mut rights, right);
        }
        i += 1;
    }
    Some(Ok(rights))
}

/// Reads the rows of the board field.
fn read_rows(rows: &Vec<Vec<char>>) -> (r: Option<Result<([Piece; 64], Position, Position), ParseFenError>>)
    ensures
        match scan_rows(empty_fen_board(), rows@.map_values(|p: Vec<char>| p@), 0) {
            FenRead::Read(fb) => r matches Some(Ok((cells, wk, bk))) && cells@ == fb.squares
                && wk == fb.white_king && bk == fb.black_king,
            FenRead::Invalid => r matches Some(Err(_)),
            FenRead::Aborts => r is None,
        },
{
    let ghost rv = rows@.map_values(|p: Vec<char>| p@);
    let mut board = [Piece(0); 64];
    let mut white_king = Position { row: 0, col: 0 };
    let mut black_king = Position { row: 0, col: 0 };
    assert(board@ =~= empty_fen_board().squares);
    let mut r: usize = 0;
    while r < rows.len()
        invariant
            r <= rows@.len(),
            rv == rows@.map_values(|p: Vec<char>| p@),
            board@.len() == 64,
            scan_rows(FenBoard { squares: board@, white_king, black_king }, rv, r as int)
                == scan_rows(empty_fen_board(), rv, 0),
        decreases rows@.len() - r,
    {
        let row = &rows[r];
        assert(row@ == rv[r as int]);
        let ghost row_start = FenBoard { squares: board@, white_king, black_king };
        let mut c_index: u32 = 0;
        let mut i: usize = 0;
        while i < row.len()
            invariant
                i <= row@.len(),
                r < rows@.len(),
                rv == rows@.map_values(|p: Vec<char>| p@),
                row@ == rv[r as int],
                scan_rows(row_start, rv, r as int) == scan_rows(empty_fen_board(), rv, 0),
                board@.len() == 64,
                scan_row(FenBoard { squares: board@, white_king, black_king }, r as int, row@, i as int, c_index as int)
                    == scan_row(row_start, r as int, row@, 0, 0),
            decreases row@.len() - i,
        {
            let c = row[i];
            match digit_of(c) {
                Some(d) => {
                    if d > u32::MAX - c_index {
                        return None;
                    }
                    c_index += d;
                },
                None => match fen_piece_of(c) {
                    None => {
                        return Some(Err(ParseFenError));
                    },
                    Some(p) => {
                        if r > 7 || c_index > 7 {
                            return None;
                        }
                        let pos = Position { row: (7 - r) as i8, col: c_index as i8 };
                        board[((7 - r) * 8 + c_index as usize)] = p;
                        if p == Piece::white_king() {
                            white_king = pos;
                        } else if p == Piece::black_king() {
                            black_king = pos;
                        }
                        c_index += 1;
                    },
                },
            }
            i += 1;
        }
        r += 1;
    }
    Some(Ok((board, white_king, black_king)))
}

/// Reads a FEN string: `None` where the reading would stop the program.
fn scan_fen(s: &str) -> (r: Option<Result<Board, ParseFenError>>)
    ensures
        match fen_read(s@) {
            FenRead::Read(b) => r matches Some(Ok(board)) && board@ == b,
            FenRead::Invalid => r matches Some(Err(_)),
            FenRead::Aborts => r is None,
        },
{
    let v = chars_of(s);
    let fields = split_chars(&v, ' ');
    let ghost fv = fields@.map_values(|p: Vec<char>| p@);
    if fields.len() != 6 {
        return Some(Err(ParseFenError));
    }
    assert(fields[0]@ == fv[0] && fields[1]@ == fv[1] && fields[2]@ == fv[2] && fields[3]@ == fv[3]);
    let rows = split_chars(&fields[0], '/');
    let (board, white_king, black_king) = match read_rows(&rows) {
        None => {
            return None;
        },
        Some(Err(e)) => {
            return Some(Err(e));
        },
        Some(Ok(cells)) => cells,
    };
    let side = &fields[1];
    let is_white_turn = if side.len() == 1 && side[0] == 'w' {
        assert(side@ =~= seq!['w']);
        true
    } else if side.len() == 1 && side[0] == 'b' {
        assert(side@ =~= seq!['b']);
        false
    } else {
        assert(side@ != seq!['w']);
        assert(side@ != seq!['b']);
        return Some(Err(ParseFenError));
    };
    let castle_rights = match read_castles(&fields[2]) {
        None => {
            return None;
        },
        Some(Err(e)) => {
            return Some(Err(e));
        },
        Some(Ok(rights)) => rights,
    };
    let ep_field = &fields[3];
    let en_passante_state = if ep_field.len() == 1 && ep_field[0] == '-' {
        assert(ep_field@ =~= seq!['-']);
        None
    } else {
        assert(ep_field@ != seq!['-']);
        match crate::notation::position_from_chars(ep_field) {
            Some(p) => Some(p),
            None => {
                return Some(Err(ParseFenError));
            },
        }
    };
    let mut history = Vec::with_capacity(MAX_HISTORY);
    history.push(BoardState { castle_rights, en_passante_state });
    let b = Board { board, white_king, black_king, history, is_white_turn };
    assert(b@.history =~= seq![StateView { castle_rights: castle_right_items(castle_rights), en_passante: en_passante_state }]);
    Some(Ok(b))
}

impl Board {
    /// Reads a board from a FEN string.
    pub fn from_fen(s: &str) -> (r: Result<Board, ParseFenError>)
        requires
            !(fen_read(s@) is Aborts),
        ensures
            match fen_read(s@) {
                FenRead::Read(b) => r matches Ok(board) && board@ == b,
                _ => r is Err,
            },
            r matches Ok(board) ==> board@.wf() && board@.history.len() == 1,
    {
        proof {
            lemma_fen_read_wf(s@);
        }
        match scan_fen(s) {
            Some(r) => r,
            None => Err(ParseFenError),
        }
    }
}

impl core::str::FromStr for Board {
    type Err = ParseFenError;

    /// Reads a board from a FEN string; a string whose reading `from_fen`
    /// rules out gives an error.
    fn from_str(s: &str) -> (r: Result<Self, Self::Err>)
        ensures
            match fen_read(s@) {
                FenRead::Read(b) => r matches Ok(board) && board@ == b,
                _ => r is Err,
            },
            r matches Ok(board) ==> board@.wf() && board@.history.len() == 1,
    {
        proof {
            lemma_fen_read_wf(s@);
        }
        match scan_fen(s) {
            Some(r) => r,
            None => Err(ParseFenError),
        }
    }
}

} // verus!
