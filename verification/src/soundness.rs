//! What the generated moves guarantee: they only touch cells on the board,
//! and on a board a game can reach they can be taken back exactly, and
//! making one keeps the board one a game can reach.

use vstd::prelude::*;

use crate::attacks::{bishop_dirs, knight_offsets, rook_dirs, step, steps_left, unit_dir};
use crate::board::{
    captured, castle_rook, initial_board, initial_piece, make_move_in_bounds, make_move_view,
    mover_lost_rights, passed_offset, pawn_of, reversible, rights_after_move, rook_corner_right,
    shift_row, BoardView,
};
use crate::lists::{lemma_without_rights, without_rights};
use crate::movegen::{
    castle_moves, castle_moves_for, generated_moves, king_moves, king_offsets, leaper_move,
    leaper_moves, move_to, moves_upto, pawn_capture_moves, pawn_dir, pawn_double_moves, pawn_moves,
    pawn_push_moves, pawn_single_moves, promotion_pieces, promotions, ray_moves,
    slide_moves, square_moves, square_of,
};
use crate::types::{Castle, Move, Piece, Position};

verus! {

/// Every move of `s` only reads and writes cells on the board when made on `b`.
pub open spec fn moves_in_bounds(b: BoardView, s: Seq<Move>) -> bool {
    forall|i: int| 0 <= i < s.len() ==> make_move_in_bounds(b, #[trigger] s[i])
}

proof fn lemma_in_bounds_concat(b: BoardView, s: Seq<Move>, t: Seq<Move>)
    requires
        moves_in_bounds(b, s),
        moves_in_bounds(b, t),
    ensures
        moves_in_bounds(b, s + t),
{
    assert forall|i: int| 0 <= i < (s + t).len() implies make_move_in_bounds(b, #[trigger] (s + t)[i]) by {
        if i < s.len() {
            assert((s + t)[i] == s[i]);
        } else {
            assert((s + t)[i] == t[i - s.len()]);
        }
    }
}

proof fn lemma_leaper_moves_in_bounds(b: BoardView, from: Position, offs: Seq<Position>)
    requires
        from.spec_in_bounds(),
    ensures
        moves_in_bounds(b, leaper_moves(b, from, offs)),
    decreases offs.len(),
{
    if offs.len() > 0 {
        lemma_leaper_moves_in_bounds(b, from, offs.drop_last());
        lemma_in_bounds_concat(b, leaper_moves(b, from, offs.drop_last()), leaper_move(b, from, offs.last()));
    }
}

proof fn lemma_ray_moves_in_bounds(b: BoardView, from: Position, cell: Position, off: Position)
    requires
        from.spec_in_bounds(),
    ensures
        moves_in_bounds(b, ray_moves(b, from, cell, off)),
    decreases steps_left(cell, off),
{
    if cell.spec_in_bounds() && unit_dir(off) && b.at(cell).0 == 0 {
        lemma_ray_moves_in_bounds(b, from, step(cell, off), off);
        lemma_in_bounds_concat(b, seq![move_to(b, from, cell)], ray_moves(b, from, step(cell, off), off));
    }
}

proof fn lemma_slide_moves_in_bounds(b: BoardView, from: Position, dirs: Seq<Position>)
    requires
        from.spec_in_bounds(),
    ensures
        moves_in_bounds(b, slide_moves(b, from, dirs)),
    decreases dirs.len(),
{
    if dirs.len() > 0 {
        lemma_slide_moves_in_bounds(b, from, dirs.drop_last());
        lemma_ray_moves_in_bounds(b, from, step(from, dirs.last()), dirs.last());
        lemma_in_bounds_concat(
            b,
            slide_moves(b, from, dirs.drop_last()),
            ray_moves(b, from, step(from, dirs.last()), dirs.last()),
        );
    }
}

proof fn lemma_pawn_moves_in_bounds(b: BoardView, from: Position)
    requires
        from.spec_in_bounds(),
    ensures
        moves_in_bounds(b, pawn_moves(b, from)),
{
    let mp = shift_row(from, pawn_dir(b.white_turn));
    if mp.spec_in_bounds() {
        let a1 = Position { row: mp.row, col: (mp.col + 1) as i8 };
        let a2 = Position { row: mp.row, col: (mp.col - 1) as i8 };
        let push = pawn_push_moves(b, from, mp);
        if b.at(mp).0 == 0 {
            lemma_in_bounds_concat(b, pawn_single_moves(b, from, mp), pawn_double_moves(b, from));
        }
        lemma_in_bounds_concat(b, push, pawn_capture_moves(b, from, mp, a1));
        lemma_in_bounds_concat(b, push + pawn_capture_moves(b, from, mp, a1), pawn_capture_moves(b, from, mp, a2));
    }
}

proof fn lemma_castle_moves_in_bounds(b: BoardView, from: Position, rights: Seq<Castle>)
    requires
        from.spec_in_bounds(),
    ensures
        moves_in_bounds(b, castle_moves(b, from, rights)),
    decreases rights.len(),
{
    if rights.len() > 0 {
        lemma_castle_moves_in_bounds(b, from, rights.drop_last());
        lemma_in_bounds_concat(
            b,
            castle_moves(b, from, rights.drop_last()),
            castle_moves_for(b, from, rights.last()),
        );
    }
}

proof fn lemma_square_moves_in_bounds(b: BoardView, pos: Position)
    requires
        pos.spec_in_bounds(),
    ensures
        moves_in_bounds(b, square_moves(b, pos)),
{
    lemma_pawn_moves_in_bounds(b, pos);
    lemma_leaper_moves_in_bounds(b, pos, knight_offsets());
    lemma_leaper_moves_in_bounds(b, pos, king_offsets());
    lemma_slide_moves_in_bounds(b, pos, rook_dirs());
    lemma_slide_moves_in_bounds(b, pos, bishop_dirs());
    lemma_in_bounds_concat(b, slide_moves(b, pos, rook_dirs()), slide_moves(b, pos, bishop_dirs()));
    lemma_castle_moves_in_bounds(b, pos, b.current().castle_rights);
    lemma_in_bounds_concat(b, leaper_moves(b, pos, king_offsets()), castle_moves(b, pos, b.current().castle_rights));
    lemma_in_bounds_concat(b, leaper_moves(b, pos, king_offsets()), seq![]);
}

proof fn lemma_moves_upto_in_bounds(b: BoardView, n: nat)
    requires
        n <= 64,
    ensures
        moves_in_bounds(b, moves_upto(b, n)),
    decreases n,
{
    if n > 0 {
        lemma_moves_upto_in_bounds(b, (n - 1) as nat);
        lemma_square_moves_in_bounds(b, square_of(n - 1));
        lemma_in_bounds_concat(b, moves_upto(b, (n - 1) as nat), square_moves(b, square_of(n - 1)));
    }
}

/// Every generated move only reads and writes cells on the board.
pub proof fn lemma_generated_moves_in_bounds(b: BoardView)
    ensures
        moves_in_bounds(b, generated_moves(b)),
{
    lemma_moves_upto_in_bounds(b, 64);
}


/// Making a generated move changes no cell but its start and end, the cell
/// of the pawn it takes en passant, and the two cells of a castling rook.
pub proof fn lemma_make_move_changes_only(b: BoardView, m: Move, q: Position)
    requires
        b.wf(),
        generated_moves(b).contains(m),
        q.spec_in_bounds(),
        q != m.start,
        q != m.end,
        m.en_passante ==> q != shift_row(m.end, passed_offset(b.white_turn)),
        castle_rook(m.castle) matches Some((from, to, rook)) ==> q != from && q != to,
    ensures
        make_move_view(b, m).at(q) == b.at(q),
{
    lemma_generated_moves_in_bounds(b);
    let i = choose|i: int| 0 <= i < generated_moves(b).len() && generated_moves(b)[i] == m;
    assert(make_move_in_bounds(b, generated_moves(b)[i]));
    assert(q.index() != m.start.index() && q.index() != m.end.index());
    if m.en_passante {
        assert(q.index() != shift_row(m.end, passed_offset(b.white_turn)).index());
    }
    if let Some((from, to, rook)) = castle_rook(m.castle) {
        assert(q.index() != from.index() && q.index() != to.index());
    }
}

/// The board is as a game reaches it: each king square is the recorded
/// one, the en-passant square is empty, and each castling right has its king
/// and rook on their starting squares.
pub open spec fn coherent(b: BoardView) -> bool {
    &&& b.wf()
    &&& b.history.len() > 0
    &&& forall|p: Position| p.spec_in_bounds() && #[trigger] b.at(p) == Piece::white_king() ==> b.white_king == p
    &&& forall|p: Position| p.spec_in_bounds() && #[trigger] b.at(p) == Piece::black_king() ==> b.black_king == p
    &&& b.current().en_passante matches Some(e) ==> (e.spec_in_bounds() ==> b.at(e) == Piece(0))
    &&& b.current().castle_rights.contains(Castle::WhiteKingSide) ==> b.at(Position { row: 0, col: 4 })
        == Piece::white_king() && b.at(Position { row: 0, col: 7 }) == Piece::white_rook()
    &&& b.current().castle_rights.contains(Castle::WhiteQueenSide) ==> b.at(Position { row: 0, col: 4 })
        == Piece::white_king() && b.at(Position { row: 0, col: 0 }) == Piece::white_rook()
    &&& b.current().castle_rights.contains(Castle::BlackKingSide) ==> b.at(Position { row: 7, col: 4 })
        == Piece::black_king() && b.at(Position { row: 7, col: 7 }) == Piece::black_rook()
    &&& b.current().castle_rights.contains(Castle::BlackQueenSide) ==> b.at(Position { row: 7, col: 4 })
        == Piece::black_king() && b.at(Position { row: 7, col: 0 }) == Piece::black_rook()
}

/// The square the king of a castling move of kind `c` starts from.
pub open spec fn castle_king_home(c: Castle) -> Position {
    if c == Castle::WhiteKingSide || c == Castle::WhiteQueenSide {
        Position { row: 0, col: 4 }
    } else {
        Position { row: 7, col: 4 }
    }
}

/// `m` records what taking it back on `b` needs, a double step passes over
/// an empty cell, and a castling king leaves its starting square.
pub open spec fn sound_move(b: BoardView, m: Move) -> bool {
    &&& reversible(b, m)
    &&& m.double_pawn_push ==> {
        let q = shift_row(m.end, passed_offset(b.white_turn));
        q.spec_in_bounds() && b.at(q).0 == 0 && m.castle == Castle::No
    }
    &&& m.castle != Castle::No ==> m.start == castle_king_home(m.castle)
    &&& m.en_passante ==> 1 <= shift_row(m.end, passed_offset(b.white_turn)).row <= 6
}

/// Every move of `s` is sound on `b`.
pub open spec fn moves_sound(b: BoardView, s: Seq<Move>) -> bool {
    forall|i: int| 0 <= i < s.len() ==> sound_move(b, #[trigger] s[i])
}

proof fn lemma_sound_concat(b: BoardView, s: Seq<Move>, t: Seq<Move>)
    requires
        moves_sound(b, s),
        moves_sound(b, t),
    ensures
        moves_sound(b, s + t),
{
    assert forall|i: int| 0 <= i < (s + t).len() implies sound_move(b, #[trigger] (s + t)[i]) by {
        if i < s.len() {
            assert((s + t)[i] == s[i]);
        } else {
            assert((s + t)[i] == t[i - s.len()]);
        }
    }
}

/// The piece on `from` is the one the move generator moves for the side to move.
pub open spec fn mover_on(b: BoardView, from: Position) -> bool {
    &&& from.spec_in_bounds()
    &&& b.at(from).0 != 0
    &&& (b.at(from).spec_side() == Piece::WHITE) == b.white_turn
}

proof fn lemma_leaper_moves_sound(b: BoardView, from: Position, offs: Seq<Position>)
    requires
        coherent(b),
        mover_on(b, from),
        forall|i: int| 0 <= i < offs.len() ==> (#[trigger] offs[i]).row != 0 || offs[i].col != 0,
        forall|i: int| 0 <= i < offs.len() ==> -2 <= (#[trigger] offs[i]).row <= 2 && -2 <= offs[i].col <= 2,
    ensures
        moves_sound(b, leaper_moves(b, from, offs)),
    decreases offs.len(),
{
    if offs.len() > 0 {
        let off = offs.last();
        assert(off == offs[offs.len() - 1]);
        lemma_leaper_moves_sound(b, from, offs.drop_last());
        lemma_sound_concat(b, leaper_moves(b, from, offs.drop_last()), leaper_move(b, from, off));
    }
}

proof fn lemma_ray_moves_sound(b: BoardView, from: Position, cell: Position, off: Position)
    requires
        coherent(b),
        mover_on(b, from),
        unit_dir(off),
        -1 <= cell.row <= 8,
        -1 <= cell.col <= 8,
        steps_left(cell, off) < steps_left(from, off),
    ensures
        moves_sound(b, ray_moves(b, from, cell, off)),
    decreases steps_left(cell, off),
{
    if cell.spec_in_bounds() && b.at(cell).0 == 0 {
        lemma_ray_moves_sound(b, from, step(cell, off), off);
        lemma_sound_concat(b, seq![move_to(b, from, cell)], ray_moves(b, from, step(cell, off), off));
    }
}

proof fn lemma_slide_moves_sound(b: BoardView, from: Position, dirs: Seq<Position>)
    requires
        coherent(b),
        mover_on(b, from),
        forall|i: int| 0 <= i < dirs.len() ==> unit_dir(#[trigger] dirs[i]),
    ensures
        moves_sound(b, slide_moves(b, from, dirs)),
    decreases dirs.len(),
{
    if dirs.len() > 0 {
        let off = dirs.last();
        assert(off == dirs[dirs.len() - 1]);
        lemma_slide_moves_sound(b, from, dirs.drop_last());
        lemma_ray_moves_sound(b, from, step(from, off), off);
        lemma_sound_concat(b, slide_moves(b, from, dirs.drop_last()), ray_moves(b, from, step(from, off), off));
    }
}


/// A piece's kind and side bits determine it.
proof fn lemma_piece_of_kind(p: Piece)
    ensures
        p.spec_kind() == Piece::PAWN && p.spec_side() == Piece::WHITE ==> p == Piece::white_pawn(),
        p.spec_kind() == Piece::PAWN && p.spec_side() != Piece::WHITE ==> p == Piece::black_pawn(),
        p.spec_kind() == Piece::KING && p.spec_side() == Piece::WHITE ==> p == Piece::white_king(),
        p.spec_kind() == Piece::KING && p.spec_side() != Piece::WHITE ==> p == Piece::black_king(),
{
    let x = p.0;
    assert((x & 127u8) == 1u8 && (x & 128u8) == 0u8 ==> x == 1u8) by (bit_vector);
    assert((x & 127u8) == 1u8 && (x & 128u8) != 0u8 ==> x == 129u8) by (bit_vector);
    assert((x & 127u8) == 6u8 && (x & 128u8) == 0u8 ==> x == 6u8) by (bit_vector);
    assert((x & 127u8) == 6u8 && (x & 128u8) != 0u8 ==> x == 134u8) by (bit_vector);
}

/// The pieces a pawn promotes to are of its side and are not kings.
proof fn lemma_promotion_pieces(side: u8, i: int)
    requires
        0 <= i < 4,
    ensures
        pawn_of(promotion_pieces(side)[i].spec_side()) == pawn_of(side),
        promotion_pieces(side)[i] != Piece::white_king(),
        promotion_pieces(side)[i] != Piece::black_king(),
{
    assert(5u8 & 128u8 == 0u8) by (bit_vector);
    assert(4u8 & 128u8 == 0u8) by (bit_vector);
    assert(2u8 & 128u8 == 0u8) by (bit_vector);
    assert(3u8 & 128u8 == 0u8) by (bit_vector);
    assert(133u8 & 128u8 == 128u8) by (bit_vector);
    assert(132u8 & 128u8 == 128u8) by (bit_vector);
    assert(130u8 & 128u8 == 128u8) by (bit_vector);
    assert(131u8 & 128u8 == 128u8) by (bit_vector);
}

proof fn lemma_promotions_sound(b: BoardView, from: Position, to: Position, capture: Option<Piece>)
    requires
        from.spec_in_bounds(),
        to.spec_in_bounds(),
        from != to,
        b.at(to) == captured(Move { capture, ..Move::plain(from, to) }),
        b.at(from) == pawn_of(b.side()),
    ensures
        moves_sound(b, promotions(from, to, capture, b.side())),
{
    assert forall|i: int| 0 <= i < 4 implies sound_move(b, #[trigger] promotions(from, to, capture, b.side())[i]) by {
        lemma_promotion_pieces(b.side(), i);
    }
}

proof fn lemma_pawn_moves_sound(b: BoardView, from: Position)
    requires
        coherent(b),
        from.spec_in_bounds(),
        b.at(from) == pawn_of(b.side()),
    ensures
        moves_sound(b, pawn_moves(b, from)),
{
    let mp = shift_row(from, pawn_dir(b.white_turn));
    if mp.spec_in_bounds() {
        let a1 = Position { row: mp.row, col: (mp.col + 1) as i8 };
        let a2 = Position { row: mp.row, col: (mp.col - 1) as i8 };
        let push = pawn_push_moves(b, from, mp);
        if b.at(mp).0 == 0 {
            if mp.row == 0 || mp.row == 7 {
                lemma_promotions_sound(b, from, mp, None);
            }
            lemma_sound_concat(b, pawn_single_moves(b, from, mp), pawn_double_moves(b, from));
        }
        if a1.spec_in_bounds() && b.at(a1).0 != 0 && b.at(a1).spec_side() != b.side() && (a1.row == 0 || a1.row == 7) {
            lemma_promotions_sound(b, from, a1, Some(b.at(a1)));
        }
        if a2.spec_in_bounds() && b.at(a2).0 != 0 && b.at(a2).spec_side() != b.side() && (a2.row == 0 || a2.row == 7) {
            lemma_promotions_sound(b, from, a2, Some(b.at(a2)));
        }
        lemma_sound_concat(b, push, pawn_capture_moves(b, from, mp, a1));
        lemma_sound_concat(b, push + pawn_capture_moves(b, from, mp, a1), pawn_capture_moves(b, from, mp, a2));
    }
}


/// The king of the side to move.
pub open spec fn own_king(b: BoardView) -> Piece {
    if b.white_turn {
        Piece::white_king()
    } else {
        Piece::black_king()
    }
}

proof fn lemma_castle_moves_sound(b: BoardView, from: Position, rights: Seq<Castle>)
    requires
        coherent(b),
        from.spec_in_bounds(),
        b.at(from) == own_king(b),
        forall|i: int| 0 <= i < rights.len() ==> b.current().castle_rights.contains(#[trigger] rights[i]),
    ensures
        moves_sound(b, castle_moves(b, from, rights)),
    decreases rights.len(),
{
    if rights.len() > 0 {
        let right = rights.last();
        assert(right == rights[rights.len() - 1]);
        assert(b.current().castle_rights.contains(right));
        lemma_castle_moves_sound(b, from, rights.drop_last());
        let home_w = Position { row: 0, col: 4 };
        let home_b = Position { row: 7, col: 4 };
        assert(b.at(home_w) == Piece::white_king() ==> b.white_king == home_w);
        assert(b.at(home_b) == Piece::black_king() ==> b.black_king == home_b);
        assert(b.at(from) == Piece::white_king() ==> b.white_king == from);
        assert(b.at(from) == Piece::black_king() ==> b.black_king == from);
        lemma_sound_concat(b, castle_moves(b, from, rights.drop_last()), castle_moves_for(b, from, right));
    }
}

proof fn lemma_king_moves_sound(b: BoardView, from: Position)
    requires
        coherent(b),
        mover_on(b, from),
        b.at(from) == own_king(b),
    ensures
        moves_sound(b, king_moves(b, from)),
{
    lemma_leaper_moves_sound(b, from, king_offsets());
    let rights = b.current().castle_rights;
    assert forall|i: int| 0 <= i < rights.len() implies rights.contains(#[trigger] rights[i]) by {}
    lemma_castle_moves_sound(b, from, rights);
    lemma_sound_concat(b, leaper_moves(b, from, king_offsets()), castle_moves(b, from, rights));
    lemma_sound_concat(b, leaper_moves(b, from, king_offsets()), seq![]);
}

proof fn lemma_square_moves_sound(b: BoardView, pos: Position)
    requires
        coherent(b),
        pos.spec_in_bounds(),
    ensures
        moves_sound(b, square_moves(b, pos)),
{
    let p = b.at(pos);
    lemma_piece_of_kind(p);
    if (p.spec_side() == Piece::WHITE) == b.white_turn && p.spec_kind() != 0 {
        assert(p.0 != 0) by {
            let x = p.0;
            assert(x == 0u8 ==> (x & 127u8) == 0u8) by (bit_vector);
        }
        let kind = p.spec_kind();
        if kind == Piece::PAWN {
            lemma_pawn_moves_sound(b, pos);
        } else if kind == Piece::KNIGHT {
            lemma_leaper_moves_sound(b, pos, knight_offsets());
        } else if kind == Piece::BISHOP {
            lemma_slide_moves_sound(b, pos, bishop_dirs());
        } else if kind == Piece::ROOK {
            lemma_slide_moves_sound(b, pos, rook_dirs());
        } else if kind == Piece::QUEEN {
            lemma_slide_moves_sound(b, pos, rook_dirs());
            lemma_slide_moves_sound(b, pos, bishop_dirs());
            lemma_sound_concat(b, slide_moves(b, pos, rook_dirs()), slide_moves(b, pos, bishop_dirs()));
        } else if kind == Piece::KING {
            lemma_king_moves_sound(b, pos);
        }
    }
}

proof fn lemma_moves_upto_sound(b: BoardView, n: nat)
    requires
        coherent(b),
        n <= 64,
    ensures
        moves_sound(b, moves_upto(b, n)),
    decreases n,
{
    if n > 0 {
        lemma_moves_upto_sound(b, (n - 1) as nat);
        lemma_square_moves_sound(b, square_of(n - 1));
        lemma_sound_concat(b, moves_upto(b, (n - 1) as nat), square_moves(b, square_of(n - 1)));
    }
}

/// On a board a game can reach, every generated move is sound: in
/// particular it records what taking it back needs, so making it and taking
/// it back restores the board.
pub proof fn lemma_generated_moves_sound(b: BoardView)
    requires
        coherent(b),
    ensures
        moves_sound(b, generated_moves(b)),
{
    lemma_moves_upto_sound(b, 64);
}


/// The rights a move leaves were held before it.
proof fn lemma_rights_after_move(b: BoardView, m: Move, r: Castle)
    requires
        rights_after_move(b, m).contains(r),
    ensures
        b.current().castle_rights.contains(r),
        m.capture is Some ==> rook_corner_right(b.at(m.end), m.end) != Some(r),
        b.current().castle_rights.len() > 0 ==> match mover_lost_rights(b.at(m.start), m.start) {
            Some((c1, c2)) => r != c1 && r != c2,
            None => true,
        },
{
    let prev = b.current().castle_rights;
    let after_capture = if m.capture is Some {
        match rook_corner_right(b.at(m.end), m.end) {
            Some(c) => without_rights(prev, c, c),
            None => prev,
        }
    } else {
        prev
    };
    if prev.len() > 0 {
        match mover_lost_rights(b.at(m.start), m.start) {
            Some((c1, c2)) => lemma_without_rights(after_capture, c1, c2, r),
            None => {},
        }
    }
    if m.capture is Some {
        match rook_corner_right(b.at(m.end), m.end) {
            Some(c) => lemma_without_rights(prev, c, c, r),
            None => {},
        }
    }
}

/// Making a sound move that takes no king keeps the board one a game can
/// reach: kings where recorded, the en-passant square empty, and every
/// castling right still backed by its king and rook at home.
pub proof fn lemma_make_move_keeps_coherent(b: BoardView, m: Move)
    requires
        coherent(b),
        sound_move(b, m),
        captured(m) != Piece::white_king(),
        captured(m) != Piece::black_king(),
    ensures
        coherent(make_move_view(b, m)),
{
    let a = make_move_view(b, m);
    assert forall|p: Position| p.spec_in_bounds() && #[trigger] a.at(p) == Piece::white_king() implies a.white_king == p by {
        if p != m.end {
            assert(b.at(p) == Piece::white_king());
        }
    }
    assert forall|p: Position| p.spec_in_bounds() && #[trigger] a.at(p) == Piece::black_king() implies a.black_king == p by {
        if p != m.end {
            assert(b.at(p) == Piece::black_king());
        }
    }
    let rights = a.current().castle_rights;
    assert(a.current().en_passante matches Some(e) ==> (e.spec_in_bounds() ==> a.at(e) == Piece(0)));
    if rights.contains(Castle::WhiteKingSide) {
        lemma_rights_after_move(b, m, Castle::WhiteKingSide);
        assert(a.at(Position { row: 0, col: 4 }) == b.at(Position { row: 0, col: 4 }));
        assert(a.at(Position { row: 0, col: 7 }) == b.at(Position { row: 0, col: 7 }));
    }
    if rights.contains(Castle::WhiteQueenSide) {
        lemma_rights_after_move(b, m, Castle::WhiteQueenSide);
        assert(a.at(Position { row: 0, col: 4 }) == b.at(Position { row: 0, col: 4 }));
        assert(a.at(Position { row: 0, col: 0 }) == b.at(Position { row: 0, col: 0 }));
    }
    if rights.contains(Castle::BlackKingSide) {
        lemma_rights_after_move(b, m, Castle::BlackKingSide);
        assert(a.at(Position { row: 7, col: 4 }) == b.at(Position { row: 7, col: 4 }));
        assert(a.at(Position { row: 7, col: 7 }) == b.at(Position { row: 7, col: 7 }));
    }
    if rights.contains(Castle::BlackQueenSide) {
        lemma_rights_after_move(b, m, Castle::BlackQueenSide);
        assert(a.at(Position { row: 7, col: 4 }) == b.at(Position { row: 7, col: 4 }));
        assert(a.at(Position { row: 7, col: 0 }) == b.at(Position { row: 7, col: 0 }));
    }
}


/// The board of a new game is one a game can reach.
pub proof fn lemma_initial_board_coherent()
    ensures
        coherent(initial_board()),
{
    let b = initial_board();
    assert forall|p: Position| p.spec_in_bounds() && #[trigger] b.at(p) == Piece::white_king() implies b.white_king == p by {
        assert(b.at(p) == initial_piece(p.index()));
    }
    assert forall|p: Position| p.spec_in_bounds() && #[trigger] b.at(p) == Piece::black_king() implies b.black_king == p by {
        assert(b.at(p) == initial_piece(p.index()));
    }
    assert(b.at(Position { row: 0, col: 4 }) == Piece::white_king());
    assert(b.at(Position { row: 7, col: 4 }) == Piece::black_king());
    assert(b.at(Position { row: 0, col: 0 }) == Piece::white_rook());
    assert(b.at(Position { row: 0, col: 7 }) == Piece::white_rook());
    assert(b.at(Position { row: 7, col: 0 }) == Piece::black_rook());
    assert(b.at(Position { row: 7, col: 7 }) == Piece::black_rook());
}

} // verus!
