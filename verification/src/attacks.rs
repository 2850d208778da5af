//! Which squares the side not to move attacks, and whether the side to move
//! is in check.

use vstd::prelude::*;

use crate::board::{lemma_board_view, Board, BoardView};
use crate::types::{Piece, Position};

verus! {

broadcast use lemma_board_view;

/// `p` moved by `off`.
pub open spec fn step(p: Position, off: Position) -> Position {
    Position { row: (p.row + off.row) as i8, col: (p.col + off.col) as i8 }
}

/// A direction of a sliding piece: one step along a row, a column or a diagonal.
pub open spec fn unit_dir(off: Position) -> bool {
    &&& -1 <= off.row <= 1
    &&& -1 <= off.col <= 1
    &&& (off.row != 0 || off.col != 0)
}

/// How many steps in direction `off` are left before leaving the board,
/// counting the one from `cell`.
pub open spec fn steps_left(cell: Position, off: Position) -> int {
    if off.row > 0 {
        8 - cell.row
    } else if off.row < 0 {
        cell.row + 1
    } else if off.col > 0 {
        8 - cell.col
    } else {
        cell.col + 1
    }
}

/// The first piece met going from `cell` (included) in direction `off`.
pub open spec fn first_piece(b: BoardView, cell: Position, off: Position) -> Option<Piece>
    decreases steps_left(cell, off),
{
    if !cell.spec_in_bounds() || !unit_dir(off) {
        None
    } else if b.at(cell).0 != 0 {
        Some(b.at(cell))
    } else {
        first_piece(b, step(cell, off), off)
    }
}

/// The first piece met from `pos` in direction `off` is `a1` or `a2`.
pub open spec fn slide_attacked(b: BoardView, pos: Position, off: Position, a1: Piece, a2: Piece) -> bool {
    match first_piece(b, step(pos, off), off) {
        Some(p) => p == a1 || p == a2,
        None => false,
    }
}

/// The four directions in which a rook slides.
pub open spec fn rook_dirs() -> Seq<Position> {
    seq![
        Position { row: 0, col: 1 },
        Position { row: 0, col: -1i8 },
        Position { row: 1, col: 0 },
        Position { row: -1i8, col: 0 },
    ]
}

/// The four diagonal directions in which a bishop slides.
pub open spec fn bishop_dirs() -> Seq<Position> {
    seq![
        Position { row: 1, col: 1 },
        Position { row: 1, col: -1i8 },
        Position { row: -1i8, col: 1 },
        Position { row: -1i8, col: -1i8 },
    ]
}

/// The eight jumps of a knight, in the order the moves are generated.
pub open spec fn knight_offsets() -> Seq<Position> {
    seq![
        Position { row: 1, col: 2 },
        Position { row: -1i8, col: 2 },
        Position { row: 1, col: -2i8 },
        Position { row: -1i8, col: -2i8 },
        Position { row: 2, col: 1 },
        Position { row: -2i8, col: 1 },
        Position { row: 2, col: -1i8 },
        Position { row: -2i8, col: -1i8 },
    ]
}

/// The squares from which a pawn moving in row direction `dir` attacks a
/// square, as offsets from that square.
pub open spec fn pawn_attack_offsets(dir: i8) -> Seq<Position> {
    seq![Position { row: dir, col: 1 }, Position { row: dir, col: -1i8 }]
}

/// Along one of `dirs`, the first piece met from `pos` is `a1` or `a2`.
pub open spec fn attacked_along(b: BoardView, pos: Position, dirs: Seq<Position>, a1: Piece, a2: Piece) -> bool {
    exists|i: int| 0 <= i < dirs.len() && #[trigger] slide_attacked(b, pos, dirs[i], a1, a2)
}

/// `enemy` stands on one of the squares `pos` plus an offset of `offs`.
pub open spec fn leaper_attacked(b: BoardView, pos: Position, offs: Seq<Position>, enemy: Piece) -> bool {
    exists|i: int|
        0 <= i < offs.len() && step(pos, #[trigger] offs[i]).spec_in_bounds() && b.at(
            step(pos, offs[i]),
        ) == enemy
}

/// A rook, bishop, queen, knight or pawn of the side not to move attacks `pos`.
pub open spec fn attacked(b: BoardView, pos: Position) -> bool {
    if b.white_turn {
        ||| attacked_along(b, pos, rook_dirs(), Piece::black_rook(), Piece::black_queen())
        ||| attacked_along(b, pos, bishop_dirs(), Piece::black_bishop(), Piece::black_queen())
        ||| leaper_attacked(b, pos, knight_offsets(), Piece::black_knight())
        ||| leaper_attacked(b, pos, pawn_attack_offsets(1i8), Piece::black_pawn())
    } else {
        ||| attacked_along(b, pos, rook_dirs(), Piece::white_rook(), Piece::white_queen())
        ||| attacked_along(b, pos, bishop_dirs(), Piece::white_bishop(), Piece::white_queen())
        ||| leaper_attacked(b, pos, knight_offsets(), Piece::white_knight())
        ||| leaper_attacked(b, pos, pawn_attack_offsets(-1i8), Piece::white_pawn())
    }
}

/// The king of the side to move stands on an attacked square.
pub open spec fn in_check(b: BoardView) -> bool {
    attacked(
        b,
        if b.white_turn {
            b.white_king
        } else {
            b.black_king
        },
    )
}

pub(crate) fn rook_directions() -> (d: [Position; 4])
    ensures
        d@ == rook_dirs(),
{
    let d = [
        Position { row: 0, col: 1 },
        Position { row: 0, col: -1i8 },
        Position { row: 1, col: 0 },
        Position { row: -1i8, col: 0 },
    ];
    assert(d@ =~= rook_dirs());
    d
}

pub(crate) fn bishop_directions() -> (d: [Position; 4])
    ensures
        d@ == bishop_dirs(),
{
    let d = [
        Position { row: 1, col: 1 },
        Position { row: 1, col: -1i8 },
        Position { row: -1i8, col: 1 },
        Position { row: -1i8, col: -1i8 },
    ];
    assert(d@ =~= bishop_dirs());
    d
}

pub(crate) fn knight_jumps() -> (d: [Position; 8])
    ensures
        d@ == knight_offsets(),
{
    let d = [
        Position { row: 1, col: 2 },
        Position { row: -1i8, col: 2 },
        Position { row: 1, col: -2i8 },
        Position { row: -1i8, col: -2i8 },
        Position { row: 2, col: 1 },
        Position { row: -2i8, col: 1 },
        Position { row: 2, col: -1i8 },
        Position { row: -2i8, col: -1i8 },
    ];
    assert(d@ =~= knight_offsets());
    d
}

impl Board {
    /// Whether the first piece met from `pos` in direction `off` is `a1` or `a2`.
    fn slide_hits(&self, pos: Position, off: Position, a1: Piece, a2: Piece) -> (hit: bool)
        requires
            self@.wf(),
            pos.spec_in_bounds(),
            unit_dir(off),
        ensures
            hit == slide_attacked(self@, pos, off, a1, a2),
    {
        let mut cell = pos + off;
        while cell.in_bounds()
            invariant
                self@.wf(),
                unit_dir(off),
                -1 <= cell.row <= 8,
                -1 <= cell.col <= 8,
                first_piece(self@, cell, off) == first_piece(self@, step(pos, off), off),
            decreases steps_left(cell, off),
        {
            let p = self.get(cell);
            if !p.is_null() {
                return p == a1 || p == a2;
            }
            cell = cell + off;
        }
        false
    }

    /// Whether one of `dirs` leads from `pos` first to `a1` or `a2`.
    fn slides_hit(&self, pos: Position, dirs: [Position; 4], a1: Piece, a2: Piece) -> (hit: bool)
        requires
            self@.wf(),
            pos.spec_in_bounds(),
            forall|i: int| 0 <= i < 4 ==> unit_dir(#[trigger] dirs@[i]),
        ensures
            hit == attacked_along(self@, pos, dirs@, a1, a2),
    {
        let mut i: usize = 0;
        while i < 4
            invariant
                i <= 4,
                self@.wf(),
                pos.spec_in_bounds(),
                forall|j: int| 0 <= j < 4 ==> unit_dir(#[trigger] dirs@[j]),
                forall|j: int| 0 <= j < i ==> !slide_attacked(self@, pos, #[trigger] dirs@[j], a1, a2),
            decreases 4 - i,
        {
            if self.slide_hits(pos, dirs[i], a1, a2) {
                return true;
            }
            i += 1;
        }
        false
    }

    /// Whether `enemy` stands on `pos` plus one of `offs`.
    fn leaper_hits(&self, pos: Position, offs: &[Position], enemy: Piece) -> (hit: bool)
        requires
            self@.wf(),
            pos.spec_in_bounds(),
            forall|i: int| 0 <= i < offs@.len() ==> -2 <= (#[trigger] offs@[i]).row <= 2 && -2 <= offs@[i].col <= 2,
        ensures
            hit == leaper_attacked(self@, pos, offs@, enemy),
    {
        let mut i: usize = 0;
        while i < offs.len()
            invariant
                i <= offs@.len(),
                self@.wf(),
                pos.spec_in_bounds(),
                forall|j: int| 0 <= j < offs@.len() ==> -2 <= (#[trigger] offs@[j]).row <= 2 && -2 <= offs@[j].col <= 2,
                forall|j: int|
                    0 <= j < i ==> !(step(pos, #[trigger] offs@[j]).spec_in_bounds() && self@.at(
                        step(pos, offs@[j]),
                    ) == enemy),
            decreases offs@.len() - i,
        {
            let cell = pos + offs[i];
            if cell.in_bounds() && self.get(cell) == enemy {
                return true;
            }
            i += 1;
        }
        false
    }

    /// Whether a piece of the side not to move attacks `pos`.
    pub(crate) fn is_attacked(&self, pos: Position) -> (a: bool)
        requires
            self@.wf(),
            pos.spec_in_bounds(),
        ensures
            a == attacked(self@, pos),
    {
        let rooks = rook_directions();
        let bishops = bishop_directions();
        let knights = knight_jumps();
        if self.is_white_turn {
            let pawns = [Position { row: 1, col: 1 }, Position { row: 1, col: -1i8 }];
            assert(pawns@ =~= pawn_attack_offsets(1i8));
            self.slides_hit(pos, rooks, Piece::black_rook(), Piece::black_queen())
                || self.slides_hit(pos, bishops, Piece::black_bishop(), Piece::black_queen())
                || self.leaper_hits(pos, &knights, Piece::black_knight())
                || self.leaper_hits(pos, &pawns, Piece::black_pawn())
        } else {
            let pawns = [Position { row: -1i8, col: 1 }, Position { row: -1i8, col: -1i8 }];
            assert(pawns@ =~= pawn_attack_offsets(-1i8));
            self.slides_hit(pos, rooks, Piece::white_rook(), Piece::white_queen())
                || self.slides_hit(pos, bishops, Piece::white_bishop(), Piece::white_queen())
                || self.leaper_hits(pos, &knights, Piece::white_knight())
                || self.leaper_hits(pos, &pawns, Piece::white_pawn())
        }
    }

    /// Whether the king of the side to move is attacked.
    pub fn is_check(&self) -> (c: bool)
        requires
            self@.wf(),
        ensures
            c == in_check(self@),
    {
        if self.is_white_turn {
            self.is_attacked(self.white_king)
        } else {
            self.is_attacked(self.black_king)
        }
    }
}

} // verus!

verus! {

/// A pawn of the side not to move that stands diagonally in front of the
/// king of the side to move, seen from the pawn (one row towards the king's
/// side of the board, one column to either side), gives check: white pawns
/// attack upward, black pawns downward.
pub proof fn lemma_pawn_gives_check(b: BoardView, pawn: Position)
    requires
        b.wf(),
        pawn.spec_in_bounds(),
        ({
            let k = if b.white_turn { b.white_king } else { b.black_king };
            let dr: int = if b.white_turn { 1 } else { -1 };
            &&& pawn.row == k.row + dr
            &&& (pawn.col == k.col + 1 || pawn.col == k.col - 1)
        }),
        b.at(pawn) == (if b.white_turn { Piece::black_pawn() } else { Piece::white_pawn() }),
    ensures
        in_check(b),
{
    let k = if b.white_turn { b.white_king } else { b.black_king };
    let dir: i8 = if b.white_turn { 1i8 } else { -1i8 };
    let offs = pawn_attack_offsets(dir);
    let i: int = if pawn.col == k.col + 1 { 0 } else { 1 };
    assert(step(k, offs[i]) == pawn);
    let enemy = if b.white_turn { Piece::black_pawn() } else { Piece::white_pawn() };
    assert(leaper_attacked(b, k, offs, enemy));
}

} // verus!
