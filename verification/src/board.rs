//! The board: its cells, the kings' squares, the side to move and the
//! history of castling rights and en-passant squares; making and taking back
//! moves.

use arrayvec::ArrayVec;
use vstd::prelude::*;

use crate::lists::{
    castle_right_items, copy_rights, kept_unless, lemma_filter_keeps_all, lemma_filter_same_test,
    lemma_filter_twice, new_rights, push_right, remove_rights, right_count, without_rights,
};
use crate::types::{Castle, Move, Piece, Position};

verus! {

/// What the board remembers of each position it went through.
pub struct StateView {
    pub castle_rights: Seq<Castle>,
    pub en_passante: Option<Position>,
}

/// The mathematical model of a board.
pub struct BoardView {
    /// The 64 cells, row-major: the cell of `p` is `squares[p.index()]`.
    pub squares: Seq<Piece>,
    pub white_king: Position,
    pub black_king: Position,
    /// One entry per position reached; the last one is the current position's.
    pub history: Seq<StateView>,
    pub white_turn: bool,
}

impl BoardView {
    /// The piece on `p`.
    pub open spec fn at(self, p: Position) -> Piece {
        self.squares[p.index()]
    }

    /// The cells and the kings' squares are where the code can read them.
    pub open spec fn wf(self) -> bool {
        &&& self.squares.len() == 64
        &&& self.white_king.spec_in_bounds()
        &&& self.black_king.spec_in_bounds()
    }

    /// What is remembered of the current position.
    pub open spec fn current(self) -> StateView {
        self.history.last()
    }

    /// The side bits of the side to move.
    pub open spec fn side(self) -> u8 {
        if self.white_turn {
            Piece::WHITE
        } else {
            Piece::BLACK
        }
    }

    /// The same board with the given side to move.
    pub open spec fn with_turn(self, white_turn: bool) -> BoardView {
        BoardView { white_turn, ..self }
    }
}

#[derive(Debug)]
pub(crate) struct BoardState {
    pub(crate) castle_rights: ArrayVec<Castle, 4>,
    pub(crate) en_passante_state: Option<Position>,
}

impl BoardState {
    pub(crate) open spec fn state_view(self) -> StateView {
        StateView {
            castle_rights: castle_right_items(self.castle_rights),
            en_passante: self.en_passante_state,
        }
    }
}

/// A chess position together with the history needed to take moves back.
#[derive(Debug)]
pub struct Board {
    pub(crate) board: [Piece; 64],
    pub(crate) white_king: Position,
    pub(crate) black_king: Position,
    pub(crate) history: Vec<BoardState>,
    pub is_white_turn: bool,
}

impl View for Board {
    type V = BoardView;

    closed spec fn view(&self) -> BoardView {
        BoardView {
            squares: self.board@,
            white_king: self.white_king,
            black_king: self.black_king,
            history: self.history@.map_values(|s: BoardState| s.state_view()),
            white_turn: self.is_white_turn,
        }
    }
}

/// The model of a board read off its fields, for the other modules of the crate.
pub(crate) broadcast proof fn lemma_board_view(b: &Board)
    ensures
        #[trigger] b@ == (BoardView {
            squares: b.board@,
            white_king: b.white_king,
            black_king: b.black_king,
            history: b.history@.map_values(|s: BoardState| s.state_view()),
            white_turn: b.is_white_turn,
        }),
{
}

/// The row offset from the end square of a pawn move to the square of the
/// pawn it passed or captured en passant, for the side that moves.
pub open spec fn passed_offset(white_turn: bool) -> int {
    if white_turn {
        -1
    } else {
        1
    }
}

/// `p` moved by `dr` rows.
pub open spec fn shift_row(p: Position, dr: int) -> Position {
    Position { row: (p.row + dr) as i8, col: p.col }
}

/// The piece a move takes, or the empty cell.
pub open spec fn captured(m: Move) -> Piece {
    match m.capture {
        Some(p) => p,
        None => Piece(0),
    }
}

/// The castling right lost when a rook standing on `pos` is taken.
pub open spec fn rook_corner_right(p: Piece, pos: Position) -> Option<Castle> {
    if p == Piece::white_rook() && pos == (Position { row: 0, col: 0 }) {
        Some(Castle::WhiteQueenSide)
    } else if p == Piece::white_rook() && pos == (Position { row: 0, col: 7 }) {
        Some(Castle::WhiteKingSide)
    } else if p == Piece::black_rook() && pos == (Position { row: 7, col: 0 }) {
        Some(Castle::BlackQueenSide)
    } else if p == Piece::black_rook() && pos == (Position { row: 7, col: 7 }) {
        Some(Castle::BlackKingSide)
    } else {
        None
    }
}

/// The castling rights lost when `p` leaves `pos`.
pub open spec fn mover_lost_rights(p: Piece, pos: Position) -> Option<(Castle, Castle)> {
    if p == Piece::white_king() && pos == (Position { row: 0, col: 4 }) {
        Some((Castle::WhiteKingSide, Castle::WhiteQueenSide))
    } else if p == Piece::black_king() && pos == (Position { row: 7, col: 4 }) {
        Some((Castle::BlackKingSide, Castle::BlackQueenSide))
    } else {
        match rook_corner_right(p, pos) {
            Some(c) => Some((c, c)),
            None => None,
        }
    }
}

/// The castling rights of the position after `m`.
pub open spec fn rights_after_move(b: BoardView, m: Move) -> Seq<Castle> {
    let prev = b.current().castle_rights;
    let after_capture = if m.capture is Some {
        match rook_corner_right(b.at(m.end), m.end) {
            Some(c) => without_rights(prev, c, c),
            None => prev,
        }
    } else {
        prev
    };
    if prev.len() > 0 {
        match mover_lost_rights(b.at(m.start), m.start) {
            Some((c1, c2)) => without_rights(after_capture, c1, c2),
            None => after_capture,
        }
    } else {
        after_capture
    }
}

/// The remembered state of the position after `m`.
pub open spec fn state_after_move(b: BoardView, m: Move) -> StateView {
    StateView {
        castle_rights: rights_after_move(b, m),
        en_passante: if m.double_pawn_push {
            Some(shift_row(m.end, passed_offset(b.white_turn)))
        } else {
            None
        },
    }
}

/// Making `m` on `b` takes away the castling right `r`: the king leaving its
/// starting square loses both rights of its side, a rook leaving its corner
/// loses that corner's right, and so does a rook taken on its corner.
pub open spec fn loses_right(b: BoardView, m: Move, r: Castle) -> bool {
    ||| (mover_lost_rights(b.at(m.start), m.start) matches Some((c1, c2)) && (r == c1 || r == c2))
    ||| (m.capture is Some && rook_corner_right(b.at(m.end), m.end) == Some(r))
}

/// Making a move keeps, in their order, exactly the castling rights it does
/// not take away: rights are never added.
pub proof fn lemma_make_move_rights(b: BoardView, m: Move)
    ensures
        make_move_view(b, m).current().castle_rights == b.current().castle_rights.filter(
            |r: Castle| !loses_right(b, m, r),
        ),
        forall|r: Castle|
            #[trigger] make_move_view(b, m).current().castle_rights.contains(r) ==> b.current().castle_rights.contains(r)
                && !loses_right(b, m, r),
{
    let prev = b.current().castle_rights;
    let capture_test = |r: Castle|
        !(m.capture is Some && rook_corner_right(b.at(m.end), m.end) == Some(r));
    let mover_test = |r: Castle|
        !(mover_lost_rights(b.at(m.start), m.start) matches Some((c1, c2)) && (r == c1 || r == c2));
    let keep = |r: Castle| !loses_right(b, m, r);
    let after_capture = if m.capture is Some {
        match rook_corner_right(b.at(m.end), m.end) {
            Some(c) => without_rights(prev, c, c),
            None => prev,
        }
    } else {
        prev
    };
    if m.capture is Some && rook_corner_right(b.at(m.end), m.end) is Some {
        let c = rook_corner_right(b.at(m.end), m.end)->0;
        lemma_filter_same_test(prev, kept_unless(c, c), capture_test);
    } else {
        lemma_filter_keeps_all(prev, capture_test);
    }
    assert(after_capture == prev.filter(capture_test));
    let result = rights_after_move(b, m);
    match mover_lost_rights(b.at(m.start), m.start) {
        Some((c1, c2)) => {
            lemma_filter_same_test(after_capture, kept_unless(c1, c2), mover_test);
        },
        None => {
            lemma_filter_keeps_all(after_capture, mover_test);
        },
    }
    if prev.len() == 0 {
        reveal(Seq::filter);
        assert(prev.filter(capture_test).filter(mover_test) == prev.filter(capture_test));
    }
    assert(result == prev.filter(capture_test).filter(mover_test));
    lemma_filter_twice(prev, capture_test, mover_test);
    lemma_filter_same_test(prev, |r: Castle| capture_test(r) && mover_test(r), keep);
    assert(make_move_view(b, m).current().castle_rights == result);
    assert forall|r: Castle|
        #[trigger] make_move_view(b, m).current().castle_rights.contains(r) implies prev.contains(r)
            && !loses_right(b, m, r) by {
        let i = choose|i: int| 0 <= i < prev.filter(keep).len() && prev.filter(keep)[i] == r;
        prev.lemma_filter_pred(keep, i);
        prev.lemma_filter_contains_rev(keep, r);
    }
}

/// For a castling move: the rook's square before, its square after, and the rook.
pub open spec fn castle_rook(c: Castle) -> Option<(Position, Position, Piece)> {
    match c {
        Castle::WhiteKingSide => Some(
            (Position { row: 0, col: 7 }, Position { row: 0, col: 5 }, Piece::white_rook()),
        ),
        Castle::WhiteQueenSide => Some(
            (Position { row: 0, col: 0 }, Position { row: 0, col: 3 }, Piece::white_rook()),
        ),
        Castle::BlackKingSide => Some(
            (Position { row: 7, col: 7 }, Position { row: 7, col: 5 }, Piece::black_rook()),
        ),
        Castle::BlackQueenSide => Some(
            (Position { row: 7, col: 0 }, Position { row: 7, col: 3 }, Piece::black_rook()),
        ),
        Castle::No => None,
    }
}

/// The cells after `m` is made.
pub open spec fn squares_after_move(b: BoardView, m: Move) -> Seq<Piece> {
    let s0 = b.squares;
    let s1 = s0.update(m.end.index(), s0[m.start.index()]).update(m.start.index(), Piece(0));
    let s2 = if m.en_passante {
        s1.update(shift_row(m.end, passed_offset(b.white_turn)).index(), Piece(0))
    } else {
        s1
    };
    let s3 = match castle_rook(m.castle) {
        Some((from, to, rook)) => s2.update(to.index(), rook).update(from.index(), Piece(0)),
        None => s2,
    };
    match m.promotion {
        Some(p) => s3.update(m.end.index(), p),
        None => s3,
    }
}

/// The board after `m` is made.
pub open spec fn make_move_view(b: BoardView, m: Move) -> BoardView {
    let squares = squares_after_move(b, m);
    let moved = squares[m.end.index()];
    BoardView {
        squares,
        white_king: if moved == Piece::white_king() {
            m.end
        } else {
            b.white_king
        },
        black_king: if moved == Piece::black_king() {
            m.end
        } else {
            b.black_king
        },
        history: b.history.push(state_after_move(b, m)),
        white_turn: !b.white_turn,
    }
}

/// The pawn of the side `side`.
pub open spec fn pawn_of(side: u8) -> Piece {
    if side == Piece::WHITE {
        Piece::white_pawn()
    } else {
        Piece::black_pawn()
    }
}

/// The cells after `m` is taken back.
pub open spec fn squares_after_unmake(b: BoardView, m: Move) -> Seq<Piece> {
    let s0 = b.squares;
    let s1 = s0.update(m.start.index(), s0[m.end.index()]).update(m.end.index(), Piece(0));
    let s2 = match m.capture {
        Some(p) => if m.en_passante {
            s1.update(shift_row(m.end, -passed_offset(b.white_turn)).index(), p)
        } else {
            s1.update(m.end.index(), p)
        },
        None => s1,
    };
    let s3 = match castle_rook(m.castle) {
        Some((from, to, rook)) => s2.update(to.index(), Piece(0)).update(from.index(), rook),
        None => s2,
    };
    if m.promotion is Some {
        s3.update(m.start.index(), pawn_of(s3[m.start.index()].spec_side()))
    } else {
        s3
    }
}

/// The board after `m` is taken back.
pub open spec fn unmake_move_view(b: BoardView, m: Move) -> BoardView {
    let squares = squares_after_unmake(b, m);
    let back = squares[m.start.index()];
    BoardView {
        squares,
        white_king: if back == Piece::white_king() {
            m.start
        } else {
            b.white_king
        },
        black_king: if back == Piece::black_king() {
            m.start
        } else {
            b.black_king
        },
        history: if b.history.len() > 0 {
            b.history.drop_last()
        } else {
            b.history
        },
        white_turn: !b.white_turn,
    }
}

/// The cells a move makes the code read or write are on the board.
pub open spec fn make_move_in_bounds(b: BoardView, m: Move) -> bool {
    &&& m.start.spec_in_bounds()
    &&& m.end.spec_in_bounds()
    &&& m.en_passante ==> shift_row(m.end, passed_offset(b.white_turn)).spec_in_bounds()
}

/// The cells taking a move back makes the code read or write are on the board.
pub open spec fn unmake_move_in_bounds(b: BoardView, m: Move) -> bool {
    &&& m.start.spec_in_bounds()
    &&& m.end.spec_in_bounds()
    &&& (m.en_passante && m.capture is Some) ==> shift_row(
        m.end,
        -passed_offset(b.white_turn),
    ).spec_in_bounds()
}

/// `m` records what taking it back needs: making it and taking it back gives
/// the board back.
pub open spec fn reversible(b: BoardView, m: Move) -> bool {
    let s = m.start;
    let e = m.end;
    let q = shift_row(e, passed_offset(b.white_turn));
    &&& s.spec_in_bounds()
    &&& e.spec_in_bounds()
    &&& s != e
    &&& if m.en_passante {
        &&& q.spec_in_bounds()
        &&& q != s
        &&& q != e
        &&& b.at(e) == Piece(0)
        &&& b.at(q) == captured(m)
    } else {
        b.at(e) == captured(m)
    }
    &&& match castle_rook(m.castle) {
        Some((from, to, rook)) => {
            &&& from != s && from != e && to != s && to != e
            &&& m.en_passante ==> from != q && to != q
            &&& b.at(from) == rook
            &&& b.at(to) == Piece(0)
        },
        None => true,
    }
    &&& match m.promotion {
        Some(p) => {
            &&& b.at(s) == pawn_of(p.spec_side())
            &&& p != Piece::white_king()
            &&& p != Piece::black_king()
        },
        None => true,
    }
    &&& b.at(s) == Piece::white_king() ==> b.white_king == s
    &&& b.at(s) == Piece::black_king() ==> b.black_king == s
}

fn square(pos: Position) -> (i: usize)
    requires
        pos.spec_in_bounds(),
    ensures
        i == pos.index(),
        i < 64,
{
    (pos.row as usize) * 8 + (pos.col as usize)
}

impl Board {
    /// Whether a position is remembered: every board made by `new` or read
    /// from FEN has one until more moves are taken back than were made.
    pub fn has_history(&self) -> (h: bool)
        ensures
            h == (self@.history.len() > 0),
    {
        self.history.len() > 0
    }

    /// The piece on `pos`.
    pub fn get(&self, pos: Position) -> (p: Piece)
        requires
            pos.spec_in_bounds(),
        ensures
            p == self@.at(pos),
    {
        self.board[square(pos)]
    }

    fn set(&mut self, pos: Position, p: Piece)
        requires
            pos.spec_in_bounds(),
        ensures
            final(self)@ == (BoardView { squares: old(self)@.squares.update(pos.index(), p), ..old(self)@ }),
    {
        self.board[square(pos)] = p;
    }
}


/// The castling right lost when a rook standing on `pos` is taken.
fn rook_corner(p: Piece, pos: Position) -> (r: Option<Castle>)
    ensures
        r == rook_corner_right(p, pos),
{
    if p == Piece::white_rook() && pos.row == 0 && pos.col == 0 {
        Some(Castle::WhiteQueenSide)
    } else if p == Piece::white_rook() && pos.row == 0 && pos.col == 7 {
        Some(Castle::WhiteKingSide)
    } else if p == Piece::black_rook() && pos.row == 7 && pos.col == 0 {
        Some(Castle::BlackQueenSide)
    } else if p == Piece::black_rook() && pos.row == 7 && pos.col == 7 {
        Some(Castle::BlackKingSide)
    } else {
        None
    }
}

/// The castling rights lost when `p` leaves `pos`.
fn mover_lost(p: Piece, pos: Position) -> (r: Option<(Castle, Castle)>)
    ensures
        r == mover_lost_rights(p, pos),
{
    if p == Piece::white_king() && pos.row == 0 && pos.col == 4 {
        Some((Castle::WhiteKingSide, Castle::WhiteQueenSide))
    } else if p == Piece::black_king() && pos.row == 7 && pos.col == 4 {
        Some((Castle::BlackKingSide, Castle::BlackQueenSide))
    } else {
        match rook_corner(p, pos) {
            Some(c) => Some((c, c)),
            None => None,
        }
    }
}

/// The rook's squares and the rook of a castling move.
fn castle_rook_of(c: Castle) -> (r: Option<(Position, Position, Piece)>)
    ensures
        r == castle_rook(c),
{
    match c {
        Castle::WhiteKingSide => Some(
            (Position { row: 0, col: 7 }, Position { row: 0, col: 5 }, Piece::white_rook()),
        ),
        Castle::WhiteQueenSide => Some(
            (Position { row: 0, col: 0 }, Position { row: 0, col: 3 }, Piece::white_rook()),
        ),
        Castle::BlackKingSide => Some(
            (Position { row: 7, col: 7 }, Position { row: 7, col: 5 }, Piece::black_rook()),
        ),
        Castle::BlackQueenSide => Some(
            (Position { row: 7, col: 0 }, Position { row: 7, col: 3 }, Piece::black_rook()),
        ),
        Castle::No => None,
    }
}

impl Board {
    /// Plays `mv`: moves the piece, removes what it takes, moves the rook of
    /// a castling move, promotes, updates the kings' squares and the
    /// castling rights, records the en-passant square and passes the turn.
    pub fn make_move(&mut self, mv: &Move)
        requires
            old(self)@.wf(),
            old(self)@.history.len() > 0,
            make_move_in_bounds(old(self)@, *mv),
        ensures
            final(self)@ == make_move_view(old(self)@, *mv),
    {
        let ghost b = self@;
        let n = self.history.len();
        let mut rights = copy_rights(&self.history[n - 1].castle_rights);
        let had_rights = right_count(&self.history[n - 1].castle_rights) > 0;
        if mv.capture.is_some() {
            match rook_corner(self.get(mv.end), mv.end) {
                Some(c) => remove_rights(&mut rights, c, c),
                None => {},
            }
        }
        if had_rights {
            match mover_lost(self.get(mv.start), mv.start) {
                Some((c1, c2)) => remove_rights(&mut rights, c1, c2),
                None => {},
            }
        }
        assert(castle_right_items(rights) == rights_after_move(b, *mv));

        let moving = self.get(mv.start);
        self.set(mv.end, moving);
        self.set(mv.start, Piece::null_piece());

        let offset: i8 = if self.is_white_turn { -1 } else { 1 };
        let en_passante_state = if mv.double_pawn_push {
            Some(Position { row: mv.end.row + offset, col: mv.end.col })
        } else {
            None
        };
        if mv.en_passante {
            self.set(Position { row: mv.end.row + offset, col: mv.end.col }, Piece::null_piece());
        }
        match castle_rook_of(mv.castle) {
            Some((from, to, rook)) => {
                self.set(to, rook);
                self.set(from, Piece::null_piece());
            },
            None => {},
        }
        match mv.promotion {
            Some(p) => self.set(mv.end, p),
            None => {},
        }
        assert(self@.squares == squares_after_move(b, *mv));

        let landed = self.get(mv.end);
        if landed == Piece::white_king() {
            self.white_king = mv.end;
        } else if landed == Piece::black_king() {
            self.black_king = mv.end;
        }
        self.is_white_turn = !self.is_white_turn;
        let state = BoardState { castle_rights: rights, en_passante_state };
        assert(state.state_view() == state_after_move(b, *mv));
        self.history.push(state);
        assert(self@.history =~= b.history.push(state_after_move(b, *mv)));
    }
}


impl Board {
    /// Takes `mv` back: the piece returns to its start, what it took is put
    /// back, a castling rook returns, a promoted piece turns back into a
    /// pawn, the kings' squares and the turn are restored and the last
    /// remembered state is dropped.
    pub fn unmake_move(&mut self, mv: &Move)
        requires
            old(self)@.wf(),
            unmake_move_in_bounds(old(self)@, *mv),
        ensures
            final(self)@ == unmake_move_view(old(self)@, *mv),
    {
        let ghost b = self@;
        let moved = self.get(mv.end);
        self.set(mv.start, moved);
        self.set(mv.end, Piece::null_piece());

        match mv.capture {
            Some(p) => {
                if mv.en_passante {
                    let offset: i8 = if self.is_white_turn { 1 } else { -1 };
                    self.set(Position { row: mv.end.row + offset, col: mv.end.col }, p);
                } else {
                    self.set(mv.end, p);
                }
            },
            None => {},
        }
        match castle_rook_of(mv.castle) {
            Some((from, to, rook)) => {
                self.set(to, Piece::null_piece());
                self.set(from, rook);
            },
            None => {},
        }
        if mv.promotion.is_some() {
            let side = self.get(mv.start).side();
            if side == Piece::WHITE {
                self.set(mv.start, Piece::white_pawn());
            } else {
                self.set(mv.start, Piece::black_pawn());
            }
        }
        assert(self@.squares == squares_after_unmake(b, *mv));

        let back = self.get(mv.start);
        if back == Piece::white_king() {
            self.white_king = mv.start;
        } else if back == Piece::black_king() {
            self.black_king = mv.start;
        }
        self.is_white_turn = !self.is_white_turn;
        self.history.pop();
        assert(self@.history =~= (if b.history.len() > 0 {
            b.history.drop_last()
        } else {
            b.history
        }));
    }
}

/// Making a move and taking it back gives back the board it was made on,
/// for every move that records what taking it back needs.
#[verifier::rlimit(30)]
pub proof fn lemma_make_unmake_round_trip(b: BoardView, m: Move)
    requires
        b.wf(),
        reversible(b, m),
    ensures
        make_move_in_bounds(b, m),
        unmake_move_in_bounds(make_move_view(b, m), m),
        unmake_move_view(make_move_view(b, m), m) == b,
{
    let b1 = make_move_view(b, m);
    let b2 = unmake_move_view(b1, m);
    assert(b2.squares =~= b.squares);
    assert(b2.history =~= b.history);
}


/// The piece that stands on a back rank column at the start of a game, for
/// the side with side bits `side`.
pub open spec fn back_rank_piece(col: int, side: u8) -> Piece {
    let kind: u8 = if col == 0 || col == 7 {
        Piece::ROOK
    } else if col == 1 || col == 6 {
        Piece::KNIGHT
    } else if col == 2 || col == 5 {
        Piece::BISHOP
    } else if col == 3 {
        Piece::QUEEN
    } else {
        Piece::KING
    };
    Piece((kind + side) as u8)
}

/// The piece on cell `i` at the start of a game.
pub open spec fn initial_piece(i: int) -> Piece {
    if i < 8 {
        back_rank_piece(i, Piece::WHITE)
    } else if i < 16 {
        Piece::white_pawn()
    } else if i < 48 {
        Piece(0)
    } else if i < 56 {
        Piece::black_pawn()
    } else {
        back_rank_piece(i - 56, Piece::BLACK)
    }
}

/// The board at the start of a game.
pub open spec fn initial_board() -> BoardView {
    BoardView {
        squares: Seq::new(64, |i: int| initial_piece(i)),
        white_king: Position { row: 0, col: 4 },
        black_king: Position { row: 7, col: 4 },
        history: seq![
            StateView {
                castle_rights: seq![
                    Castle::WhiteKingSide,
                    Castle::WhiteQueenSide,
                    Castle::BlackKingSide,
                    Castle::BlackQueenSide,
                ],
                en_passante: None,
            },
        ],
        white_turn: true,
    }
}

/// The room the history is given at first.
pub const MAX_HISTORY: usize = 255;

impl Board {
    /// The board at the start of a game, white to move, every castling right held.
    pub fn new() -> (b: Board)
        ensures
            b@ == initial_board(),
    {
        let mut rights = new_rights();
        push_right(&mut rights, Castle::WhiteKingSide);
        push_right(&mut rights, Castle::WhiteQueenSide);
        push_right(&mut rights, Castle::BlackKingSide);
        push_right(&mut rights, Castle::BlackQueenSide);
        assert(castle_right_items(rights) =~= initial_board().history[0].castle_rights);
        let mut history = Vec::with_capacity(MAX_HISTORY);
        history.push(BoardState { castle_rights: rights, en_passante_state: None });
        let board = [
                Piece(2), Piece(3), Piece(4), Piece(5), Piece(6), Piece(4), Piece(3), Piece(2),
                Piece(1), Piece(1), Piece(1), Piece(1), Piece(1), Piece(1), Piece(1), Piece(1),
                Piece(0), Piece(0), Piece(0), Piece(0), Piece(0), Piece(0), Piece(0), Piece(0),
                Piece(0), Piece(0), Piece(0), Piece(0), Piece(0), Piece(0), Piece(0), Piece(0),
                Piece(0), Piece(0), Piece(0), Piece(0), Piece(0), Piece(0), Piece(0), Piece(0),
                Piece(0), Piece(0), Piece(0), Piece(0), Piece(0), Piece(0), Piece(0), Piece(0),
                Piece(129), Piece(129), Piece(129), Piece(129), Piece(129), Piece(129), Piece(129), Piece(129),
                Piece(130), Piece(131), Piece(132), Piece(133), Piece(134), Piece(132), Piece(131), Piece(130),
            ];
        let b = Board {
            board,
            white_king: Position { row: 0, col: 4 },
            black_king: Position { row: 7, col: 4 },
            history,
            is_white_turn: true,
        };
        assert(b@.squares =~= initial_board().squares);
        assert(b@.history =~= initial_board().history);
        b
    }
}

impl Default for Board {
    fn default() -> (b: Board)
        ensures
            b@ == initial_board(),
    {
        Self::new()
    }
}


impl Board {
    /// The castling rights of the current position.
    pub(crate) fn current_rights(&self) -> (r: &ArrayVec<Castle, 4>)
        requires
            self@.history.len() > 0,
        ensures
            castle_right_items(*r) == self@.current().castle_rights,
    {
        let n = self.history.len();
        &self.history[n - 1].castle_rights
    }

    /// The en-passant square of the current position.
    pub(crate) fn current_en_passant(&self) -> (e: Option<Position>)
        requires
            self@.history.len() > 0,
        ensures
            e == self@.current().en_passante,
    {
        let n = self.history.len();
        self.history[n - 1].en_passante_state
    }
}

} // verus!

verus! {

/// The square the king of right `r` starts from: e1 for white, e8 for black.
pub open spec fn right_king_home(r: Castle) -> Position {
    if r == Castle::WhiteKingSide || r == Castle::WhiteQueenSide {
        Position { row: 0, col: 4 }
    } else {
        Position { row: 7, col: 4 }
    }
}

/// The corner of the rook of right `r`: h1, a1, h8 or a8.
pub open spec fn right_rook_corner(r: Castle) -> Position {
    if r == Castle::WhiteKingSide {
        Position { row: 0, col: 7 }
    } else if r == Castle::WhiteQueenSide {
        Position { row: 0, col: 0 }
    } else if r == Castle::BlackKingSide {
        Position { row: 7, col: 7 }
    } else {
        Position { row: 7, col: 0 }
    }
}

/// The king (piece 6, or 134 for black) of the side of right `r`.
pub open spec fn right_king(r: Castle) -> Piece {
    if r == Castle::WhiteKingSide || r == Castle::WhiteQueenSide {
        Piece(6)
    } else {
        Piece(134)
    }
}

/// The rook (piece 2, or 130 for black) of the side of right `r`.
pub open spec fn right_rook(r: Castle) -> Piece {
    if r == Castle::WhiteKingSide || r == Castle::WhiteQueenSide {
        Piece(2)
    } else {
        Piece(130)
    }
}

/// A held castling right survives a move exactly when the move neither takes
/// that side's king from its starting square, nor takes the rook from the
/// right's own corner, nor captures that rook on that corner. In particular
/// a rook leaving one corner keeps the right of the other corner.
pub proof fn lemma_castling_right_survives(b: BoardView, m: Move, r: Castle)
    requires
        r != Castle::No,
        b.current().castle_rights.contains(r),
    ensures
        make_move_view(b, m).current().castle_rights.contains(r) <==> !(
            (m.start == right_king_home(r) && b.at(m.start) == right_king(r))
            || (m.start == right_rook_corner(r) && b.at(m.start) == right_rook(r))
            || (m.capture is Some && m.end == right_rook_corner(r) && b.at(m.end) == right_rook(r))
        ),
{
    lemma_make_move_rights(b, m);
    let prev = b.current().castle_rights;
    let keep = |c: Castle| !loses_right(b, m, c);
    if !loses_right(b, m, r) {
        let i = choose|i: int| 0 <= i < prev.len() && prev[i] == r;
        prev.lemma_filter_contains(keep, i);
    }
}

} // verus!
