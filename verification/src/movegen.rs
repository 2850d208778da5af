//! Pseudo-legal move generation: every move of the side to move that obeys
//! how its piece moves, whether or not it leaves its own king in check.

use arrayvec::ArrayVec;
use vstd::prelude::*;

use crate::attacks::{
    attacked, bishop_directions, bishop_dirs, in_check, knight_jumps, knight_offsets,
    rook_directions, rook_dirs, step, steps_left, unit_dir,
};
use crate::board::{lemma_board_view, make_move_view, passed_offset, shift_row, Board, BoardView};
use crate::lists::{
    castle_right_items, move_at, move_count, move_list_items, new_move_list, push_move, right_at,
    right_count, try_push_move, MoveList,
};
use crate::types::{Castle, Move, Piece, Position};

verus! {

broadcast use lemma_board_view;

/// What a move to a cell holding `p` takes.
pub open spec fn capture_of(p: Piece) -> Option<Piece> {
    if p.0 == 0 {
        None
    } else {
        Some(p)
    }
}

/// The move from `from` to `to`, taking what stands on `to`.
pub open spec fn move_to(b: BoardView, from: Position, to: Position) -> Move {
    Move { capture: capture_of(b.at(to)), ..Move::plain(from, to) }
}

/// `p` is a piece of the side to move.
pub open spec fn own_piece(b: BoardView, p: Piece) -> bool {
    p.0 != 0 && p.spec_side() == b.side()
}

/// The move of a knight or king from `from` by `off`, if it lands on the
/// board and not on a piece of its own side.
pub open spec fn leaper_move(b: BoardView, from: Position, off: Position) -> Seq<Move> {
    let to = step(from, off);
    if to.spec_in_bounds() && !own_piece(b, b.at(to)) {
        seq![move_to(b, from, to)]
    } else {
        seq![]
    }
}

/// The moves of a knight or king from `from` by each of `offs`, in order.
pub open spec fn leaper_moves(b: BoardView, from: Position, offs: Seq<Position>) -> Seq<Move>
    decreases offs.len(),
{
    if offs.len() == 0 {
        seq![]
    } else {
        leaper_moves(b, from, offs.drop_last()) + leaper_move(b, from, offs.last())
    }
}

/// The moves of a sliding piece on `from` along direction `off`, from `cell`
/// on: each empty cell, then an enemy piece if one blocks the way.
pub open spec fn ray_moves(b: BoardView, from: Position, cell: Position, off: Position) -> Seq<Move>
    decreases steps_left(cell, off),
{
    if !cell.spec_in_bounds() || !unit_dir(off) {
        seq![]
    } else if b.at(cell).0 == 0 {
        seq![move_to(b, from, cell)] + ray_moves(b, from, step(cell, off), off)
    } else if b.at(cell).spec_side() != b.side() {
        seq![move_to(b, from, cell)]
    } else {
        seq![]
    }
}

/// The moves of a sliding piece on `from` along each of `dirs`, in order.
pub open spec fn slide_moves(b: BoardView, from: Position, dirs: Seq<Position>) -> Seq<Move>
    decreases dirs.len(),
{
    if dirs.len() == 0 {
        seq![]
    } else {
        slide_moves(b, from, dirs.drop_last()) + ray_moves(
            b,
            from,
            step(from, dirs.last()),
            dirs.last(),
        )
    }
}

/// The eight steps of a king, in the order the moves are generated.
pub open spec fn king_offsets() -> Seq<Position> {
    seq![
        Position { row: 1, col: 1 },
        Position { row: 1, col: -1i8 },
        Position { row: -1i8, col: 1 },
        Position { row: -1i8, col: -1i8 },
        Position { row: 0, col: 1 },
        Position { row: 0, col: -1i8 },
        Position { row: 1, col: 0 },
        Position { row: -1i8, col: 0 },
    ]
}

/// The growing list `list` keeps room for `extra` more moves.
pub open spec fn has_room(list: ArrayVec<Move, 512>, extra: Seq<Move>) -> bool {
    move_list_items(list).len() + extra.len() <= 512
}

pub(crate) fn king_steps() -> (d: [Position; 8])
    ensures
        d@ == king_offsets(),
{
    let d = [
        Position { row: 1, col: 1 },
        Position { row: 1, col: -1 },
        Position { row: -1, col: 1 },
        Position { row: -1, col: -1 },
        Position { row: 0, col: 1 },
        Position { row: 0, col: -1 },
        Position { row: 1, col: 0 },
        Position { row: -1, col: 0 },
    ];
    assert(d@ =~= king_offsets());
    d
}

impl Board {
    /// The move from `from` to `to`, taking what stands on `to`.
    fn move_to(&self, from: Position, to: Position) -> (m: Move)
        requires
            self@.wf(),
            to.spec_in_bounds(),
        ensures
            m == move_to(self@, from, to),
    {
        let target = self.get(to);
        let capture = if target.is_null() {
            None
        } else {
            Some(target)
        };
        Move {
            start: from,
            end: to,
            double_pawn_push: false,
            capture,
            en_passante: false,
            castle: Castle::No,
            promotion: None,
        }
    }

    /// Appends the knight or king moves from `pos` by each of `offs`.
    fn gen_leaper_moves(&self, pos: Position, offs: &[Position], move_list: &mut ArrayVec<Move, 512>)
        requires
            self@.wf(),
            pos.spec_in_bounds(),
            forall|i: int| 0 <= i < offs@.len() ==> -2 <= (#[trigger] offs@[i]).row <= 2 && -2 <= offs@[i].col <= 2,
            has_room(*old(move_list), leaper_moves(self@, pos, offs@)),
        ensures
            move_list_items(*final(move_list)) == move_list_items(*old(move_list)) + leaper_moves(
                self@,
                pos,
                offs@,
            ),
    {
        let side = if self.is_white_turn {
            Piece::WHITE
        } else {
            Piece::BLACK
        };
        let ghost start = move_list_items(*move_list);
        let mut i: usize = 0;
        while i < offs.len()
            invariant
                i <= offs@.len(),
                self@.wf(),
                pos.spec_in_bounds(),
                side == self@.side(),
                forall|j: int| 0 <= j < offs@.len() ==> -2 <= (#[trigger] offs@[j]).row <= 2 && -2 <= offs@[j].col <= 2,
                start.len() + leaper_moves(self@, pos, offs@).len() <= 512,
                move_list_items(*move_list) == start + leaper_moves(self@, pos, offs@.take(i as int)),
            decreases offs@.len() - i,
        {
            proof {
                assert(offs@.take(i + 1).drop_last() =~= offs@.take(i as int));
                lemma_leaper_moves_prefix_len(self@, pos, offs@, i + 1);
            }
            let to = pos + offs[i];
            if to.in_bounds() {
                let target = self.get(to);
                if !(!target.is_null() && target.side() == side) {
                    push_move(move_list, self.move_to(pos, to));
                }
            }
            i += 1;
        }
        assert(offs@.take(offs@.len() as int) =~= offs@);
    }

    /// Appends the moves of a sliding piece on `start_pos` along `offset`.
    fn gen_ray_moves(&self, start_pos: Position, offset: Position, move_list: &mut ArrayVec<Move, 512>)
        requires
            self@.wf(),
            start_pos.spec_in_bounds(),
            unit_dir(offset),
            has_room(*old(move_list), ray_moves(self@, start_pos, step(start_pos, offset), offset)),
        ensures
            move_list_items(*final(move_list)) == move_list_items(*old(move_list)) + ray_moves(
                self@,
                start_pos,
                step(start_pos, offset),
                offset,
            ),
    {
        let side = if self.is_white_turn {
            Piece::WHITE
        } else {
            Piece::BLACK
        };
        let ghost total = move_list_items(*move_list) + ray_moves(
            self@,
            start_pos,
            step(start_pos, offset),
            offset,
        );
        let mut cell = start_pos + offset;
        while cell.in_bounds()
            invariant_except_break
                self@.wf(),
                unit_dir(offset),
                side == self@.side(),
                -1 <= cell.row <= 8,
                -1 <= cell.col <= 8,
                total.len() <= 512,
                total == move_list_items(*move_list) + ray_moves(self@, start_pos, cell, offset),
            ensures
                total == move_list_items(*move_list),
            decreases steps_left(cell, offset),
        {
            let target = self.get(cell);
            let blocked = !target.is_null();
            let is_capture = blocked && target.side() != side;
            if blocked == is_capture {
                push_move(move_list, self.move_to(start_pos, cell));
            }
            if blocked {
                assert(total == move_list_items(*move_list));
                break;
            }
            cell = cell + offset;
        }
    }
}

/// A prefix of the leaper moves is no longer than all of them.
proof fn lemma_leaper_moves_prefix_len(b: BoardView, from: Position, offs: Seq<Position>, n: int)
    requires
        0 <= n <= offs.len(),
    ensures
        leaper_moves(b, from, offs.take(n)).len() <= leaper_moves(b, from, offs).len(),
    decreases offs.len() - n,
{
    if n < offs.len() {
        lemma_leaper_moves_prefix_len(b, from, offs, n + 1);
        assert(offs.take(n + 1).drop_last() =~= offs.take(n));
    } else {
        assert(offs.take(n) =~= offs);
    }
}


/// A prefix of the directions gives no more sliding moves than all of them.
proof fn lemma_slide_moves_prefix_len(b: BoardView, from: Position, dirs: Seq<Position>, n: int)
    requires
        0 <= n <= dirs.len(),
    ensures
        slide_moves(b, from, dirs.take(n)).len() <= slide_moves(b, from, dirs).len(),
    decreases dirs.len() - n,
{
    if n < dirs.len() {
        lemma_slide_moves_prefix_len(b, from, dirs, n + 1);
        assert(dirs.take(n + 1).drop_last() =~= dirs.take(n));
    } else {
        assert(dirs.take(n) =~= dirs);
    }
}

impl Board {
    /// Appends the moves of a sliding piece on `start_pos` along each of `offsets`.
    fn gen_slide_moves(&self, start_pos: Position, offsets: [Position; 4], move_list: &mut ArrayVec<Move, 512>)
        requires
            self@.wf(),
            start_pos.spec_in_bounds(),
            forall|i: int| 0 <= i < 4 ==> unit_dir(#[trigger] offsets@[i]),
            has_room(*old(move_list), slide_moves(self@, start_pos, offsets@)),
        ensures
            move_list_items(*final(move_list)) == move_list_items(*old(move_list)) + slide_moves(
                self@,
                start_pos,
                offsets@,
            ),
    {
        let ghost start = move_list_items(*move_list);
        let mut i: usize = 0;
        while i < 4
            invariant
                i <= 4,
                self@.wf(),
                start_pos.spec_in_bounds(),
                forall|j: int| 0 <= j < 4 ==> unit_dir(#[trigger] offsets@[j]),
                start.len() + slide_moves(self@, start_pos, offsets@).len() <= 512,
                move_list_items(*move_list) == start + slide_moves(self@, start_pos, offsets@.take(i as int)),
            decreases 4 - i,
        {
            proof {
                assert(offsets@.take(i + 1).drop_last() =~= offsets@.take(i as int));
                lemma_slide_moves_prefix_len(self@, start_pos, offsets@, i + 1);
            }
            self.gen_ray_moves(start_pos, offsets[i], move_list);
            i += 1;
        }
        assert(offsets@.take(4) =~= offsets@);
    }

    /// Appends the moves of a bishop on `start_pos`.
    fn gen_bishop_slide_moves(&self, start_pos: Position, move_list: &mut ArrayVec<Move, 512>)
        requires
            self@.wf(),
            start_pos.spec_in_bounds(),
            has_room(*old(move_list), slide_moves(self@, start_pos, bishop_dirs())),
        ensures
            move_list_items(*final(move_list)) == move_list_items(*old(move_list)) + slide_moves(
                self@,
                start_pos,
                bishop_dirs(),
            ),
    {
        self.gen_slide_moves(start_pos, bishop_directions(), move_list)
    }

    /// Appends the moves of a rook on `start_pos`.
    fn gen_rook_slide_moves(&self, start_pos: Position, move_list: &mut ArrayVec<Move, 512>)
        requires
            self@.wf(),
            start_pos.spec_in_bounds(),
            has_room(*old(move_list), slide_moves(self@, start_pos, rook_dirs())),
        ensures
            move_list_items(*final(move_list)) == move_list_items(*old(move_list)) + slide_moves(
                self@,
                start_pos,
                rook_dirs(),
            ),
    {
        self.gen_slide_moves(start_pos, rook_directions(), move_list)
    }

    /// Appends the moves of a knight on `pos`.
    fn gen_knight_moves(&self, pos: Position, move_list: &mut ArrayVec<Move, 512>)
        requires
            self@.wf(),
            pos.spec_in_bounds(),
            has_room(*old(move_list), leaper_moves(self@, pos, knight_offsets())),
        ensures
            move_list_items(*final(move_list)) == move_list_items(*old(move_list)) + leaper_moves(
                self@,
                pos,
                knight_offsets(),
            ),
    {
        let offsets = knight_jumps();
        self.gen_leaper_moves(pos, &offsets, move_list)
    }
}


/// The row direction in which the pawns of the side to move advance.
pub open spec fn pawn_dir(white_turn: bool) -> int {
    if white_turn {
        1
    } else {
        -1
    }
}

/// The pieces a pawn of side `side` promotes to, in the order they are offered.
pub open spec fn promotion_pieces(side: u8) -> Seq<Piece> {
    if side == Piece::WHITE {
        seq![Piece::white_queen(), Piece::white_bishop(), Piece::white_rook(), Piece::white_knight()]
    } else {
        seq![Piece::black_queen(), Piece::black_bishop(), Piece::black_rook(), Piece::black_knight()]
    }
}

/// The promoting moves from `from` to `to`, one per promotion piece.
pub open spec fn promotions(from: Position, to: Position, capture: Option<Piece>, side: u8) -> Seq<Move> {
    Seq::new(
        4,
        |i: int|
            Move {
                capture,
                promotion: Some(promotion_pieces(side)[i]),
                ..Move::plain(from, to)
            },
    )
}

/// The single step of a pawn from `from` to the empty cell `mp`.
pub open spec fn pawn_single_moves(b: BoardView, from: Position, mp: Position) -> Seq<Move> {
    if mp.row == 0 || mp.row == 7 {
        promotions(from, mp, None, b.side())
    } else {
        seq![Move::plain(from, mp)]
    }
}

/// The double step of a pawn from its starting row, when the cell it lands on is empty.
pub open spec fn pawn_double_moves(b: BoardView, from: Position) -> Seq<Move> {
    if (from.row == 1 && b.side() == Piece::WHITE) || (from.row == 6 && b.side() == Piece::BLACK) {
        let dp = shift_row(from, 2 * pawn_dir(b.white_turn));
        if dp.spec_in_bounds() && b.at(dp).0 == 0 {
            seq![Move { double_pawn_push: true, ..Move::plain(from, dp) }]
        } else {
            seq![]
        }
    } else {
        seq![]
    }
}

/// The forward moves of a pawn on `from` whose next cell is `mp`.
pub open spec fn pawn_push_moves(b: BoardView, from: Position, mp: Position) -> Seq<Move> {
    if b.at(mp).0 == 0 {
        pawn_single_moves(b, from, mp) + pawn_double_moves(b, from)
    } else {
        seq![]
    }
}

/// The captures of a pawn on `from` (next cell `mp`) onto `attack`: of an
/// enemy piece there, or en passant when `attack` is the en-passant square.
pub open spec fn pawn_capture_moves(b: BoardView, from: Position, mp: Position, attack: Position) -> Seq<Move> {
    if !attack.spec_in_bounds() {
        seq![]
    } else if b.at(attack).0 != 0 && b.at(attack).spec_side() != b.side() {
        if attack.row == 0 || attack.row == 7 {
            promotions(from, attack, Some(b.at(attack)), b.side())
        } else {
            seq![Move { capture: Some(b.at(attack)), ..Move::plain(from, attack) }]
        }
    } else if (mp.row == 2 || mp.row == 5) && b.current().en_passante == Some(attack) {
        seq![
            Move {
                capture: Some(b.at(shift_row(attack, passed_offset(b.white_turn)))),
                en_passante: true,
                ..Move::plain(from, attack)
            },
        ]
    } else {
        seq![]
    }
}

/// The moves of a pawn of the side to move on `from`.
pub open spec fn pawn_moves(b: BoardView, from: Position) -> Seq<Move> {
    let mp = shift_row(from, pawn_dir(b.white_turn));
    if !mp.spec_in_bounds() {
        seq![]
    } else {
        pawn_push_moves(b, from, mp) + pawn_capture_moves(
            b,
            from,
            mp,
            Position { row: mp.row, col: (mp.col + 1) as i8 },
        ) + pawn_capture_moves(b, from, mp, Position { row: mp.row, col: (mp.col - 1) as i8 })
    }
}

/// A pawn's capture onto `attack` is not of an enemy piece, so the
/// generator looks up the en-passant square.
pub open spec fn attack_reads_history(b: BoardView, attack: Position) -> bool {
    attack.spec_in_bounds() && !(b.at(attack).0 != 0 && b.at(attack).spec_side() != b.side())
}

/// Generating the moves of a pawn on `from` reads the remembered state.
pub open spec fn pawn_reads_history(b: BoardView, from: Position) -> bool {
    let mp = shift_row(from, pawn_dir(b.white_turn));
    &&& mp.spec_in_bounds()
    &&& mp.row == 2 || mp.row == 5
    &&& attack_reads_history(b, Position { row: mp.row, col: (mp.col + 1) as i8 })
        || attack_reads_history(b, Position { row: mp.row, col: (mp.col - 1) as i8 })
}

/// Generating the moves of the piece on `pos` reads the remembered state:
/// a king not in check (for its castling rights), or a pawn that may take
/// en passant.
pub open spec fn square_reads_history(b: BoardView, pos: Position) -> bool {
    let p = b.at(pos);
    &&& (p.spec_side() == Piece::WHITE) == b.white_turn
    &&& (p.spec_kind() == Piece::KING && !in_check(b)) || (p.spec_kind() == Piece::PAWN
        && pawn_reads_history(b, pos))
}

/// Generating the moves of the side to move reads the remembered state.
pub open spec fn reads_history(b: BoardView) -> bool {
    exists|i: int| 0 <= i < 64 && #[trigger] square_reads_history(b, square_of(i))
}

impl Board {
    /// Appends the promoting moves from `from` to `to`.
    fn push_promotions(
        &self,
        from: Position,
        to: Position,
        capture: Option<Piece>,
        side: u8,
        move_list: &mut ArrayVec<Move, 512>,
    )
        requires
            has_room(*old(move_list), promotions(from, to, capture, side)),
        ensures
            move_list_items(*final(move_list)) == move_list_items(*old(move_list)) + promotions(
                from,
                to,
                capture,
                side,
            ),
    {
        let prom_pcs = if side == Piece::WHITE {
            [Piece::white_queen(), Piece::white_bishop(), Piece::white_rook(), Piece::white_knight()]
        } else {
            [Piece::black_queen(), Piece::black_bishop(), Piece::black_rook(), Piece::black_knight()]
        };
        assert(prom_pcs@ =~= promotion_pieces(side));
        let ghost start = move_list_items(*move_list);
        let mut i: usize = 0;
        while i < 4
            invariant
                i <= 4,
                prom_pcs@ == promotion_pieces(side),
                start.len() + 4 <= 512,
                move_list_items(*move_list) == start + promotions(from, to, capture, side).take(i as int),
            decreases 4 - i,
        {
            push_move(
                move_list,
                Move {
                    start: from,
                    end: to,
                    double_pawn_push: false,
                    capture,
                    en_passante: false,
                    castle: Castle::No,
                    promotion: Some(prom_pcs[i]),
                },
            );
            assert(promotions(from, to, capture, side).take(i + 1) =~= promotions(from, to, capture, side).take(i as int).push(promotions(from, to, capture, side)[i as int]));
            i += 1;
        }
        assert(promotions(from, to, capture, side).take(4) =~= promotions(from, to, capture, side));
    }

    /// Appends the captures of a pawn on `pos` (next cell `move_pos`) onto `attack`.
    fn gen_pawn_capture(
        &self,
        pos: Position,
        move_pos: Position,
        attack: Position,
        side: u8,
        move_list: &mut ArrayVec<Move, 512>,
    )
        requires
            self@.wf(),
            self@.history.len() > 0 || !((move_pos.row == 2 || move_pos.row == 5)
                && attack_reads_history(self@, attack)),
            side == self@.side(),
            move_pos.spec_in_bounds(),
            attack.row == move_pos.row,
            -1 <= attack.col <= 8,
            has_room(*old(move_list), pawn_capture_moves(self@, pos, move_pos, attack)),
        ensures
            move_list_items(*final(move_list)) == move_list_items(*old(move_list))
                + pawn_capture_moves(self@, pos, move_pos, attack),
    {
        if !attack.in_bounds() {
            assert(pawn_capture_moves(self@, pos, move_pos, attack) =~= seq![]);
            return;
        }
        let target = self.get(attack);
        if !target.is_null() && target.side() != side {
            if attack.row == 0 || attack.row == 7 {
                self.push_promotions(pos, attack, Some(target), side, move_list);
            } else {
                push_move(
                    move_list,
                    Move {
                        start: pos,
                        end: attack,
                        double_pawn_push: false,
                        capture: Some(target),
                        en_passante: false,
                        castle: Castle::No,
                        promotion: None,
                    },
                );
            }
        } else if (move_pos.row == 2 || move_pos.row == 5) && match self.current_en_passant() {
            Some(p) => p == attack,
            None => false,
        } {
            let offset: i8 = if self.is_white_turn { -1 } else { 1 };
            let passed = self.get(Position { row: attack.row + offset, col: attack.col });
            push_move(
                move_list,
                Move {
                    start: pos,
                    end: attack,
                    double_pawn_push: false,
                    capture: Some(passed),
                    en_passante: true,
                    castle: Castle::No,
                    promotion: None,
                },
            );
        } else {
            assert(pawn_capture_moves(self@, pos, move_pos, attack) =~= seq![]);
        }
    }

    /// Appends the moves of a pawn of the side to move on `pos`.
    fn gen_pawn_moves(&self, pos: Position, move_list: &mut ArrayVec<Move, 512>)
        requires
            self@.wf(),
            self@.history.len() > 0 || !pawn_reads_history(self@, pos),
            pos.spec_in_bounds(),
            has_room(*old(move_list), pawn_moves(self@, pos)),
        ensures
            move_list_items(*final(move_list)) == move_list_items(*old(move_list)) + pawn_moves(
                self@,
                pos,
            ),
    {
        let ghost b = self@;
        let ghost start = move_list_items(*move_list);
        let offset: i8 = if self.is_white_turn { 1 } else { -1 };
        let side: u8 = if self.is_white_turn {
            Piece::WHITE
        } else {
            Piece::BLACK
        };
        let move_pos = Position { row: pos.row + offset, col: pos.col };
        if !move_pos.in_bounds() {
            assert(pawn_moves(b, pos) =~= seq![]);
            return;
        }
        if self.get(move_pos).is_null() {
            if move_pos.row == 0 || move_pos.row == 7 {
                self.push_promotions(pos, move_pos, None, side, move_list);
            } else {
                push_move(
                    move_list,
                    Move {
                        start: pos,
                        end: move_pos,
                        double_pawn_push: false,
                        capture: None,
                        en_passante: false,
                        castle: Castle::No,
                        promotion: None,
                    },
                );
            }
            assert(move_list_items(*move_list) == start + pawn_single_moves(b, pos, move_pos));
            if (pos.row == 1 && side == Piece::WHITE) || (pos.row == 6 && side == Piece::BLACK) {
                let double_move_pos = Position { row: pos.row + offset + offset, col: pos.col };
                if double_move_pos.in_bounds() && self.get(double_move_pos).is_null() {
                    push_move(
                        move_list,
                        Move {
                            start: pos,
                            end: double_move_pos,
                            double_pawn_push: true,
                            capture: None,
                            en_passante: false,
                            castle: Castle::No,
                            promotion: None,
                        },
                    );
                }
            }
            assert(move_list_items(*move_list) =~= start + pawn_push_moves(b, pos, move_pos));
        } else {
            assert(move_list_items(*move_list) =~= start + pawn_push_moves(b, pos, move_pos));
        }
        self.gen_pawn_capture(pos, move_pos, Position { row: move_pos.row, col: move_pos.col + 1 }, side, move_list);
        self.gen_pawn_capture(pos, move_pos, Position { row: move_pos.row, col: move_pos.col - 1 }, side, move_list);
        assert(move_list_items(*move_list) =~= start + pawn_moves(b, pos));
    }
}


/// The two cells a king crosses or reaches when castling are empty and not attacked.
pub open spec fn castle_path_clear(b: BoardView, p1: Position, p2: Position) -> bool {
    &&& !attacked(b, p1)
    &&& b.at(p1).0 == 0
    &&& !attacked(b, p2)
    &&& b.at(p2).0 == 0
}

/// The castling move of kind `c` of the king on `from` to `to`.
pub open spec fn castle_move(from: Position, to: Position, c: Castle) -> Move {
    Move { castle: c, ..Move::plain(from, to) }
}

/// The castling move the right `right` gives the king on `from`, if the side
/// to move holds it and the way is free.
pub open spec fn castle_moves_for(b: BoardView, from: Position, right: Castle) -> Seq<Move> {
    if b.side() == Piece::WHITE && right == Castle::WhiteKingSide {
        if castle_path_clear(b, Position { row: 0, col: 5 }, Position { row: 0, col: 6 }) {
            seq![castle_move(from, Position { row: 0, col: 6 }, Castle::WhiteKingSide)]
        } else {
            seq![]
        }
    } else if b.side() == Piece::WHITE && right == Castle::WhiteQueenSide {
        if castle_path_clear(b, Position { row: 0, col: 3 }, Position { row: 0, col: 2 }) && b.at(
            Position { row: 0, col: 1 },
        ).0 == 0 {
            seq![castle_move(from, Position { row: 0, col: 2 }, Castle::WhiteQueenSide)]
        } else {
            seq![]
        }
    } else if b.side() == Piece::BLACK && right == Castle::BlackKingSide {
        if castle_path_clear(b, Position { row: 7, col: 5 }, Position { row: 7, col: 6 }) {
            seq![castle_move(from, Position { row: 7, col: 6 }, Castle::BlackKingSide)]
        } else {
            seq![]
        }
    } else if b.side() == Piece::BLACK && right == Castle::BlackQueenSide {
        if castle_path_clear(b, Position { row: 7, col: 3 }, Position { row: 7, col: 2 }) && b.at(
            Position { row: 7, col: 1 },
        ).0 == 0 {
            seq![castle_move(from, Position { row: 7, col: 2 }, Castle::BlackQueenSide)]
        } else {
            seq![]
        }
    } else {
        seq![]
    }
}

/// The castling moves of the king on `from`, one right after the other.
pub open spec fn castle_moves(b: BoardView, from: Position, rights: Seq<Castle>) -> Seq<Move>
    decreases rights.len(),
{
    if rights.len() == 0 {
        seq![]
    } else {
        castle_moves(b, from, rights.drop_last()) + castle_moves_for(b, from, rights.last())
    }
}

/// The moves of the king of the side to move on `from`: its steps, then, when
/// it is not in check, its castling moves.
pub open spec fn king_moves(b: BoardView, from: Position) -> Seq<Move> {
    leaper_moves(b, from, king_offsets()) + if !in_check(b) {
        castle_moves(b, from, b.current().castle_rights)
    } else {
        seq![]
    }
}

/// A prefix of the rights gives no more castling moves than all of them.
proof fn lemma_castle_moves_prefix_len(b: BoardView, from: Position, rights: Seq<Castle>, n: int)
    requires
        0 <= n <= rights.len(),
    ensures
        castle_moves(b, from, rights.take(n)).len() <= castle_moves(b, from, rights).len(),
    decreases rights.len() - n,
{
    if n < rights.len() {
        lemma_castle_moves_prefix_len(b, from, rights, n + 1);
        assert(rights.take(n + 1).drop_last() =~= rights.take(n));
    } else {
        assert(rights.take(n) =~= rights);
    }
}

impl Board {
    /// Whether both cells are empty and not attacked.
    fn castle_path_is_clear(&self, p1: Position, p2: Position) -> (clear: bool)
        requires
            self@.wf(),
            p1.spec_in_bounds(),
            p2.spec_in_bounds(),
        ensures
            clear == castle_path_clear(self@, p1, p2),
    {
        if self.is_attacked(p1) || !self.get(p1).is_null() {
            false
        } else if self.is_attacked(p2) || !self.get(p2).is_null() {
            false
        } else {
            true
        }
    }

    /// Appends the castling move that `right` gives the king on `start_pos`.
    fn gen_castle_move(&self, start_pos: Position, right: Castle, move_list: &mut ArrayVec<Move, 512>)
        requires
            self@.wf(),
            has_room(*old(move_list), castle_moves_for(self@, start_pos, right)),
        ensures
            move_list_items(*final(move_list)) == move_list_items(*old(move_list))
                + castle_moves_for(self@, start_pos, right),
    {
        let side = if self.is_white_turn {
            Piece::WHITE
        } else {
            Piece::BLACK
        };
        let (p1, p2, target, kind) = if side == Piece::WHITE && right == Castle::WhiteKingSide {
            (Position { row: 0, col: 5 }, Position { row: 0, col: 6 }, Position { row: 0, col: 6 }, Castle::WhiteKingSide)
        } else if side == Piece::WHITE && right == Castle::WhiteQueenSide {
            (Position { row: 0, col: 3 }, Position { row: 0, col: 2 }, Position { row: 0, col: 2 }, Castle::WhiteQueenSide)
        } else if side == Piece::BLACK && right == Castle::BlackKingSide {
            (Position { row: 7, col: 5 }, Position { row: 7, col: 6 }, Position { row: 7, col: 6 }, Castle::BlackKingSide)
        } else if side == Piece::BLACK && right == Castle::BlackQueenSide {
            (Position { row: 7, col: 3 }, Position { row: 7, col: 2 }, Position { row: 7, col: 2 }, Castle::BlackQueenSide)
        } else {
            assert(castle_moves_for(self@, start_pos, right) =~= seq![]);
            return;
        };
        let mut valid = self.castle_path_is_clear(p1, p2);
        // a queen side castle also needs the cell next to the rook empty
        if kind == Castle::WhiteQueenSide || kind == Castle::BlackQueenSide {
            valid = valid && self.get(Position { row: p1.row, col: 1 }).is_null();
        }
        if valid {
            push_move(
                move_list,
                Move {
                    start: start_pos,
                    end: target,
                    double_pawn_push: false,
                    capture: None,
                    en_passante: false,
                    castle: kind,
                    promotion: None,
                },
            );
        } else {
            assert(castle_moves_for(self@, start_pos, right) =~= seq![]);
        }
    }

    /// Appends the moves of the king of the side to move on `start_pos`.
    fn gen_king_moves(&self, start_pos: Position, move_list: &mut ArrayVec<Move, 512>)
        requires
            self@.wf(),
            self@.history.len() > 0 || in_check(self@),
            start_pos.spec_in_bounds(),
            has_room(*old(move_list), king_moves(self@, start_pos)),
        ensures
            move_list_items(*final(move_list)) == move_list_items(*old(move_list)) + king_moves(
                self@,
                start_pos,
            ),
    {
        let ghost start = move_list_items(*move_list);
        let offsets = king_steps();
        self.gen_leaper_moves(start_pos, &offsets, move_list);
        if !self.is_check() {
            let rights = self.current_rights();
            let ghost all = castle_right_items(*rights);
            let ghost mid = move_list_items(*move_list);
            let n = right_count(rights);
            let mut i: usize = 0;
            while i < n
                invariant
                    i <= n,
                    n == all.len(),
                    all == castle_right_items(*rights),
                    all == self@.current().castle_rights,
                    self@.wf(),
                    mid.len() + castle_moves(self@, start_pos, all).len() <= 512,
                    move_list_items(*move_list) == mid + castle_moves(self@, start_pos, all.take(i as int)),
                decreases n - i,
            {
                proof {
                    assert(all.take(i + 1).drop_last() =~= all.take(i as int));
                    lemma_castle_moves_prefix_len(self@, start_pos, all, i + 1);
                }
                self.gen_castle_move(start_pos, right_at(rights, i), move_list);
                i += 1;
            }
            assert(all.take(n as int) =~= all);
            assert(move_list_items(*move_list) =~= start + king_moves(self@, start_pos));
        } else {
            assert(move_list_items(*move_list) =~= start + king_moves(self@, start_pos));
        }
    }
}


/// The square of cell `i`.
pub open spec fn square_of(i: int) -> Position {
    Position { row: (i / 8) as i8, col: (i % 8) as i8 }
}

/// The moves of the piece on `pos`, if it belongs to the side to move.
pub open spec fn square_moves(b: BoardView, pos: Position) -> Seq<Move> {
    let p = b.at(pos);
    let kind = p.spec_kind();
    if (p.spec_side() == Piece::WHITE) != b.white_turn {
        seq![]
    } else if kind == Piece::PAWN {
        pawn_moves(b, pos)
    } else if kind == Piece::KNIGHT {
        leaper_moves(b, pos, knight_offsets())
    } else if kind == Piece::BISHOP {
        slide_moves(b, pos, bishop_dirs())
    } else if kind == Piece::ROOK {
        slide_moves(b, pos, rook_dirs())
    } else if kind == Piece::QUEEN {
        slide_moves(b, pos, rook_dirs()) + slide_moves(b, pos, bishop_dirs())
    } else if kind == Piece::KING {
        king_moves(b, pos)
    } else {
        seq![]
    }
}

/// The moves of the pieces on the first `n` cells, cell after cell.
pub open spec fn moves_upto(b: BoardView, n: nat) -> Seq<Move>
    decreases n,
{
    if n == 0 {
        seq![]
    } else {
        moves_upto(b, (n - 1) as nat) + square_moves(b, square_of(n - 1))
    }
}

/// The pseudo-legal moves of the side to move, in the order they are generated:
/// cell by cell from a1 to h8, and for each piece in the order of its directions.
pub open spec fn generated_moves(b: BoardView) -> Seq<Move> {
    moves_upto(b, 64)
}

proof fn lemma_moves_upto_len(b: BoardView, n: nat, m: nat)
    requires
        n <= m,
    ensures
        moves_upto(b, n).len() <= moves_upto(b, m).len(),
    decreases m - n,
{
    if n < m {
        lemma_moves_upto_len(b, n, (m - 1) as nat);
    }
}

/// Knight or king moves: at most one per offset.
proof fn lemma_leaper_moves_len(b: BoardView, from: Position, offs: Seq<Position>)
    ensures
        leaper_moves(b, from, offs).len() <= offs.len(),
    decreases offs.len(),
{
    if offs.len() > 0 {
        lemma_leaper_moves_len(b, from, offs.drop_last());
    }
}

/// A ray holds at most one move per cell left on the board, so at most eight.
proof fn lemma_ray_moves_len(b: BoardView, from: Position, cell: Position, off: Position)
    ensures
        ray_moves(b, from, cell, off).len() <= 8,
        cell.spec_in_bounds() && unit_dir(off) ==> ray_moves(b, from, cell, off).len()
            <= steps_left(cell, off) <= 8,
    decreases steps_left(cell, off),
{
    if cell.spec_in_bounds() && unit_dir(off) && b.at(cell).0 == 0 {
        let next = step(cell, off);
        if next.spec_in_bounds() {
            assert(steps_left(next, off) == steps_left(cell, off) - 1);
        }
        lemma_ray_moves_len(b, from, next, off);
    }
}

/// Sliding moves: at most eight per direction.
proof fn lemma_slide_moves_len(b: BoardView, from: Position, dirs: Seq<Position>)
    ensures
        slide_moves(b, from, dirs).len() <= 8 * dirs.len(),
    decreases dirs.len(),
{
    if dirs.len() > 0 {
        lemma_slide_moves_len(b, from, dirs.drop_last());
        lemma_ray_moves_len(b, from, step(from, dirs.last()), dirs.last());
    }
}

/// Castling moves: at most one per right.
proof fn lemma_castle_moves_len(b: BoardView, from: Position, rights: Seq<Castle>)
    ensures
        castle_moves(b, from, rights).len() <= rights.len(),
    decreases rights.len(),
{
    if rights.len() > 0 {
        lemma_castle_moves_len(b, from, rights.drop_last());
    }
}

/// The moves of one piece never fill more than an eighth of a move list,
/// when at most four castling rights are held.
proof fn lemma_square_moves_len(b: BoardView, pos: Position)
    requires
        b.current().castle_rights.len() <= 4,
    ensures
        square_moves(b, pos).len() <= 64,
{
    lemma_leaper_moves_len(b, pos, knight_offsets());
    lemma_leaper_moves_len(b, pos, king_offsets());
    lemma_slide_moves_len(b, pos, rook_dirs());
    lemma_slide_moves_len(b, pos, bishop_dirs());
    lemma_castle_moves_len(b, pos, b.current().castle_rights);
    let mp = shift_row(pos, pawn_dir(b.white_turn));
    assert(promotions(pos, mp, None, b.side()).len() == 4);
    assert(pawn_capture_moves(b, pos, mp, Position { row: mp.row, col: (mp.col + 1) as i8 }).len() <= 4);
    assert(pawn_capture_moves(b, pos, mp, Position { row: mp.row, col: (mp.col - 1) as i8 }).len() <= 4);
    assert(pawn_push_moves(b, pos, mp).len() <= 5);
}

impl Board {
    /// Appends the moves of the piece on `pos`, if it belongs to the side to move.
    fn gen_square_moves(&self, pos: Position, move_list: &mut ArrayVec<Move, 512>)
        requires
            self@.wf(),
            pos.spec_in_bounds(),
            self@.history.len() > 0 || !square_reads_history(self@, pos),
            has_room(*old(move_list), square_moves(self@, pos)),
        ensures
            move_list_items(*final(move_list)) == move_list_items(*old(move_list)) + square_moves(
                self@,
                pos,
            ),
    {
        let ghost start = move_list_items(*move_list);
        let cell = self.get(pos);
        if (cell.side() == Piece::WHITE) == self.is_white_turn {
            let kind = cell.kind();
            if kind == Piece::PAWN {
                self.gen_pawn_moves(pos, move_list);
            } else if kind == Piece::KNIGHT {
                self.gen_knight_moves(pos, move_list);
            } else if kind == Piece::BISHOP {
                self.gen_bishop_slide_moves(pos, move_list);
            } else if kind == Piece::ROOK {
                self.gen_rook_slide_moves(pos, move_list);
            } else if kind == Piece::QUEEN {
                self.gen_rook_slide_moves(pos, move_list);
                self.gen_bishop_slide_moves(pos, move_list);
            } else if kind == Piece::KING {
                self.gen_king_moves(pos, move_list);
            }
        }
        assert(move_list_items(*move_list) =~= start + square_moves(self@, pos));
    }
}

impl Board {
    /// The pseudo-legal moves of the side to move.
    pub fn gen_moves(&self) -> (moves: MoveList)
        requires
            self@.wf(),
            self@.history.len() > 0 || !reads_history(self@),
            generated_moves(self@).len() <= 512,
        ensures
            move_list_items(moves) == generated_moves(self@),
    {
        let mut res = new_move_list();
        let mut i: usize = 0;
        while i < 64
            invariant
                i <= 64,
                self@.wf(),
                self@.history.len() > 0 || !reads_history(self@),
                generated_moves(self@).len() <= 512,
                move_list_items(res) == moves_upto(self@, i as nat),
            decreases 64 - i,
        {
            let pos = Position { row: (i / 8) as i8, col: (i % 8) as i8 };
            assert(pos == square_of(i as int));
            assert(pos.index() == i);
            assert(self@.history.len() > 0 || !square_reads_history(self@, square_of(i as int)));
            proof {
                lemma_moves_upto_len(self@, (i + 1) as nat, 64);
            }
            self.gen_square_moves(pos, &mut res);
            assert(move_list_items(res) =~= moves_upto(self@, (i + 1) as nat));
            i += 1;
        }
        res
    }
}


impl Board {
    /// The pseudo-legal moves of the side to move, or `None` when the board
    /// remembers no position or the moves do not fit in a move list.
    pub fn try_gen_moves(&self) -> (r: Option<MoveList>)
        requires
            self@.wf(),
        ensures
            r is None <==> (self@.history.len() == 0 || generated_moves(self@).len() > 512),
            r matches Some(moves) ==> move_list_items(moves) == generated_moves(self@),
    {
        if !self.has_history() {
            return None;
        }
        let rights_held = right_count(self.current_rights());
        let mut res = new_move_list();
        let mut i: usize = 0;
        while i < 64
            invariant
                i <= 64,
                self@.wf(),
                self@.history.len() > 0,
                self@.current().castle_rights.len() <= 4,
                move_list_items(res) == moves_upto(self@, i as nat),
                moves_upto(self@, i as nat).len() <= 512,
            decreases 64 - i,
        {
            let pos = Position { row: (i / 8) as i8, col: (i % 8) as i8 };
            assert(pos == square_of(i as int));
            proof {
                lemma_square_moves_len(self@, pos);
            }
            let mut piece_moves = new_move_list();
            self.gen_square_moves(pos, &mut piece_moves);
            let ghost these = square_moves(self@, pos);
            let ghost before = move_list_items(res);
            let n = move_count(&piece_moves);
            let mut k: usize = 0;
            while k < n
                invariant
                    k <= n,
                    n == these.len(),
                    move_list_items(piece_moves) == these,
                    these == square_moves(self@, pos),
                    before == moves_upto(self@, i as nat),
                    move_list_items(res) == before + these.take(k as int),
                    move_list_items(res).len() <= 512,
                    pos == square_of(i as int),
                    i < 64,
                    self@.wf(),
                decreases n - k,
            {
                let mv = move_at(&piece_moves, k);
                if !try_push_move(&mut res, mv) {
                    proof {
                        assert(moves_upto(self@, (i + 1) as nat) == before + these);
                        lemma_moves_upto_len(self@, (i + 1) as nat, 64);
                    }
                    return None;
                }
                assert(these.take(k + 1) =~= these.take(k as int).push(mv));
                k += 1;
            }
            assert(these.take(n as int) =~= these);
            assert(move_list_items(res) =~= moves_upto(self@, (i + 1) as nat));
            i += 1;
        }
        Some(res)
    }
}

/// The castling kind of a move of `p` from `start` to `end`: a king leaving
/// its starting square for the c- or g-file.
pub open spec fn castle_kind(p: Piece, start: Position, end: Position) -> Castle {
    if p == Piece::white_king() {
        if start != (Position { row: 0, col: 4 }) {
            Castle::No
        } else if end.col == 2 {
            Castle::WhiteQueenSide
        } else if end.col == 6 {
            Castle::WhiteKingSide
        } else {
            Castle::No
        }
    } else if p == Piece::black_king() {
        if start != (Position { row: 7, col: 4 }) {
            Castle::No
        } else if end.col == 2 {
            Castle::BlackQueenSide
        } else if end.col == 6 {
            Castle::BlackKingSide
        } else {
            Castle::No
        }
    } else {
        Castle::No
    }
}

/// `m` with what the board tells of it filled in: whether it is a pawn's
/// double step, an en-passant capture, a castling, and what it takes.
pub open spec fn annotated(b: BoardView, m: Move) -> Move {
    let p = b.at(m.start);
    Move {
        start: m.start,
        end: m.end,
        double_pawn_push: p.spec_kind() == Piece::PAWN && (m.start.row - m.end.row == 2 || m.end.row
            - m.start.row == 2),
        capture: capture_of(b.at(m.end)),
        en_passante: b.current().en_passante == Some(m.end),
        castle: castle_kind(p, m.start, m.end),
        promotion: m.promotion,
    }
}

impl Board {
    /// Fills in the flags, the capture and the castling kind of a move given
    /// by its squares and promotion only.
    pub fn annotate_move(&self, mv: &Move) -> (m: Move)
        requires
            self@.wf(),
            self@.history.len() > 0,
            mv.start.spec_in_bounds(),
            mv.end.spec_in_bounds(),
        ensures
            m == annotated(self@, *mv),
    {
        let moving = self.get(mv.start);
        let row_diff = mv.start.row - mv.end.row;
        let double_pawn_push = moving.kind() == Piece::PAWN && (row_diff == 2 || row_diff == -2);
        let target = self.get(mv.end);
        let capture = if target.is_null() {
            None
        } else {
            Some(target)
        };
        let en_passante = match self.current_en_passant() {
            Some(p) => p == mv.end,
            None => false,
        };
        let castle = if moving == Piece::white_king() {
            if !(mv.start.row == 0 && mv.start.col == 4) {
                Castle::No
            } else if mv.end.col == 2 {
                Castle::WhiteQueenSide
            } else if mv.end.col == 6 {
                Castle::WhiteKingSide
            } else {
                Castle::No
            }
        } else if moving == Piece::black_king() {
            if !(mv.start.row == 7 && mv.start.col == 4) {
                Castle::No
            } else if mv.end.col == 2 {
                Castle::BlackQueenSide
            } else if mv.end.col == 6 {
                Castle::BlackKingSide
            } else {
                Castle::No
            }
        } else {
            Castle::No
        };
        Move {
            start: mv.start,
            end: mv.end,
            double_pawn_push,
            en_passante,
            capture,
            castle,
            promotion: mv.promotion,
        }
    }
}


} // verus!

verus! {

/// Annotation marks a move as a pawn's double step exactly when a pawn (of
/// either colour) stands on its start and it covers two rows, up or down;
/// making such a double step of the side to move records the cell it passed
/// over as the en-passant square.
pub proof fn lemma_annotated_double_step(b: BoardView, m: Move)
    ensures
        annotated(b, m).double_pawn_push <==> (b.at(m.start).0 & 127u8) == 1u8 && (m.start.row
            - m.end.row == 2 || m.start.row - m.end.row == -2),
        annotated(b, m).double_pawn_push && m.start.col == m.end.col && b.white_turn == (m.end.row
            > m.start.row) ==> make_move_view(b, annotated(b, m)).current().en_passante == Some(
            Position { row: ((m.start.row + m.end.row) / 2) as i8, col: m.start.col },
        ),
{
}

} // verus!

verus! {

/// Every move of the piece on a cell is among the moves generated.
proof fn lemma_square_moves_generated(b: BoardView, n: nat, i: int, j: int)
    requires
        0 <= i < n,
        0 <= j < square_moves(b, square_of(i)).len(),
    ensures
        moves_upto(b, n).contains(square_moves(b, square_of(i))[j]),
    decreases n,
{
    let prev = moves_upto(b, (n - 1) as nat);
    let last = square_moves(b, square_of(n - 1));
    assert(moves_upto(b, n) == prev + last);
    if i < n - 1 {
        lemma_square_moves_generated(b, (n - 1) as nat, i, j);
        let k = choose|k: int| 0 <= k < prev.len() && prev[k] == square_moves(b, square_of(i))[j];
        assert((prev + last)[k] == prev[k]);
    } else {
        assert((prev + last)[prev.len() + j] == last[j]);
    }
}

/// En passant is offered to either side: when the en-passant square `e` lies
/// on the sixth rank for white (the third for black), is empty, and a pawn of
/// the side to move stands one row behind it in that side's direction and
/// one column to either side, the generated moves hold the capture from that
/// pawn to `e`, flagged en passant and taking what stands beside the pawn.
pub proof fn lemma_en_passant_generated(b: BoardView, from: Position, e: Position)
    requires
        b.wf(),
        b.history.len() > 0,
        b.current().en_passante == Some(e),
        e.spec_in_bounds(),
        from.spec_in_bounds(),
        e.row == (if b.white_turn { 5int } else { 2int }),
        from.row == e.row - (if b.white_turn { 1int } else { -1int }),
        from.col == e.col + 1 || from.col == e.col - 1,
        b.at(from) == (if b.white_turn { Piece(1) } else { Piece(129) }),
        b.at(e) == Piece(0),
    ensures
        generated_moves(b).contains(
            Move {
                start: from,
                end: e,
                double_pawn_push: false,
                capture: Some(b.at(Position { row: from.row, col: e.col })),
                en_passante: true,
                castle: Castle::No,
                promotion: None,
            },
        ),
{
    let m = Move {
        start: from,
        end: e,
        double_pawn_push: false,
        capture: Some(b.at(Position { row: from.row, col: e.col })),
        en_passante: true,
        castle: Castle::No,
        promotion: None,
    };
    let mp = shift_row(from, pawn_dir(b.white_turn));
    assert(mp.row == e.row);
    let right = Position { row: mp.row, col: (mp.col + 1) as i8 };
    let left = Position { row: mp.row, col: (mp.col - 1) as i8 };
    let push = pawn_push_moves(b, from, mp);
    let cr = pawn_capture_moves(b, from, mp, right);
    let cl = pawn_capture_moves(b, from, mp, left);
    assert(square_of(from.index()) == from);
    assert(1u8 & 128u8 == 0u8 && 1u8 & 127u8 == 1u8) by (bit_vector);
    assert(129u8 & 128u8 == 128u8 && 129u8 & 127u8 == 1u8) by (bit_vector);
    assert(b.at(from).spec_kind() == Piece::PAWN);
    assert(square_moves(b, from) == pawn_moves(b, from));
    assert(square_moves(b, from) == push + cr + cl);
    if e == right {
        assert(cr == seq![m]);
        assert((push + cr + cl)[push.len() as int] == m);
        lemma_square_moves_generated(b, 64, from.index(), push.len() as int);
    } else {
        assert(e == left);
        assert(cl == seq![m]);
        assert((push + cr + cl)[(push.len() + cr.len()) as int] == m);
        lemma_square_moves_generated(b, 64, from.index(), (push.len() + cr.len()) as int);
    }
}

} // verus!
