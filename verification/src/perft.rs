//! Legality of a move and perft: counting the legal move sequences of a
//! given length, with the captures, en-passant captures and castlings at
//! their last move.

use vstd::prelude::*;

use crate::attacks::in_check;
use crate::board::{
    captured, lemma_board_view, lemma_make_unmake_round_trip, make_move_in_bounds, make_move_view,
    unmake_move_in_bounds, unmake_move_view, Board, BoardView,
};
use crate::lists::{move_at, move_count, move_list_items};
use crate::movegen::{generated_moves, reads_history};
use crate::soundness::{
    coherent, lemma_generated_moves_in_bounds, lemma_generated_moves_sound,
    lemma_make_move_keeps_coherent, moves_in_bounds, moves_sound,
};
use crate::types::{Castle, Move, Piece};

verus! {

broadcast use lemma_board_view;

/// `m`, made on `b`, does not leave the king of the side that made it attacked.
pub open spec fn legal_on(b: BoardView, m: Move) -> bool {
    !in_check(make_move_view(b, m).with_turn(b.white_turn))
}

/// The board after `m` has been made on `b` and taken back.
pub open spec fn made_and_unmade(b: BoardView, m: Move) -> BoardView {
    unmake_move_view(make_move_view(b, m), m)
}

impl Board {
    /// Whether `mv` leaves the king of the side that makes it unattacked.
    /// The move is made and taken back; for a move that records what taking
    /// it back needs, the board is left as it was (see
    /// `lemma_make_unmake_round_trip`).
    pub fn is_legal(&mut self, mv: &Move) -> (legal: bool)
        requires
            old(self)@.wf(),
            old(self)@.history.len() > 0,
            make_move_in_bounds(old(self)@, *mv),
        ensures
            legal == legal_on(old(self)@, *mv),
            final(self)@ == made_and_unmade(old(self)@, *mv),
    {
        let ghost b = self@;
        self.make_move(mv);
        self.is_white_turn = !self.is_white_turn;
        let legal = !self.is_check();
        self.is_white_turn = !self.is_white_turn;
        assert(self@ == make_move_view(b, *mv));
        self.unmake_move(mv);
        legal
    }
}


/// What perft counts: move sequences, and among their last moves the
/// captures, the en-passant captures and the castlings.
pub struct PerftCounts {
    pub nodes: nat,
    pub captures: nat,
    pub en_passants: nat,
    pub castles: nat,
}

/// All four counts zero.
pub open spec fn zero_counts() -> PerftCounts {
    PerftCounts { nodes: 0, captures: 0, en_passants: 0, castles: 0 }
}

/// The counts added field by field.
pub open spec fn add_counts(a: PerftCounts, c: PerftCounts) -> PerftCounts {
    PerftCounts {
        nodes: a.nodes + c.nodes,
        captures: a.captures + c.captures,
        en_passants: a.en_passants + c.en_passants,
        castles: a.castles + c.castles,
    }
}

/// Each count of `a` is at most the same count of `c`.
pub open spec fn counts_le(a: PerftCounts, c: PerftCounts) -> bool {
    a.nodes <= c.nodes && a.captures <= c.captures && a.en_passants <= c.en_passants && a.castles
        <= c.castles
}

/// Each count fits in a `usize`.
pub open spec fn counts_fit(c: PerftCounts) -> bool {
    c.nodes <= usize::MAX && c.captures <= usize::MAX && c.en_passants <= usize::MAX && c.castles
        <= usize::MAX
}

/// What a legal last move adds to the counts.
pub open spec fn leaf_counts(m: Move) -> PerftCounts {
    PerftCounts {
        nodes: 1,
        captures: if m.capture is Some {
            1
        } else {
            0
        },
        en_passants: if m.en_passante {
            1
        } else {
            0
        },
        castles: if m.castle != Castle::No {
            1
        } else {
            0
        },
    }
}

/// The counts at depth one, over the moves `mvs` from the `i`-th on, each
/// tried on the board the previous try left; with the board left at the end.
pub open spec fn leaf_fold(b: BoardView, mvs: Seq<Move>, i: nat, acc: PerftCounts) -> (PerftCounts, BoardView)
    decreases mvs.len() - i,
{
    if i >= mvs.len() {
        (acc, b)
    } else {
        let m = mvs[i as int];
        leaf_fold(
            made_and_unmade(b, m),
            mvs,
            i + 1,
            if legal_on(b, m) {
                add_counts(acc, leaf_counts(m))
            } else {
                acc
            },
        )
    }
}

/// The perft counts of `b` at `depth`, and the board left afterwards; `None`
/// when the count would stop the program: some position met generates more
/// moves than a move list holds, a depth below one is asked where a legal
/// move exists, or the board remembers no position but needs one.
pub open spec fn perft_spec(b: BoardView, depth: nat) -> Option<(PerftCounts, BoardView)>
    decreases depth, 513nat,
{
    let mvs = generated_moves(b);
    if b.history.len() == 0 && reads_history(b) {
        None
    } else if mvs.len() > 512 {
        None
    } else if b.history.len() == 0 && mvs.len() > 0 {
        None
    } else if depth == 1 {
        Some(leaf_fold(b, mvs, 0, zero_counts()))
    } else {
        perft_fold(b, mvs, 0, depth, zero_counts())
    }
}

/// Perft at `depth` over the moves `mvs` from the `i`-th on, each made on
/// the board the previous one left, followed by perft one level down when
/// legal, and taken back.
pub open spec fn perft_fold(b: BoardView, mvs: Seq<Move>, i: nat, depth: nat, acc: PerftCounts) -> Option<
    (PerftCounts, BoardView),
>
    decreases depth, mvs.len() - i,
{
    if mvs.len() > 512 {
        None
    } else if i >= mvs.len() {
        Some((acc, b))
    } else {
        let m = mvs[i as int];
        let made = make_move_view(b, m);
        if legal_on(b, m) {
            if depth == 0 {
                None
            } else {
                match perft_spec(made, (depth - 1) as nat) {
                    None => None,
                    Some((c, after)) => perft_fold(
                        unmake_move_view(after, m),
                        mvs,
                        i + 1,
                        depth,
                        add_counts(acc, c),
                    ),
                }
            }
        } else {
            perft_fold(unmake_move_view(made, m), mvs, i + 1, depth, acc)
        }
    }
}

/// `b2` keeps the side to move, the length of the history and the
/// well-formedness of `b`.
pub open spec fn same_frame(b: BoardView, b2: BoardView) -> bool {
    &&& b2.white_turn == b.white_turn
    &&& b2.history.len() == b.history.len()
    &&& b.wf() ==> b2.wf()
}

proof fn lemma_leaf_fold(b: BoardView, mvs: Seq<Move>, i: nat, acc: PerftCounts)
    requires
        b.history.len() > 0,
        moves_in_bounds(b, mvs),
    ensures
        same_frame(b, leaf_fold(b, mvs, i, acc).1),
        counts_le(acc, leaf_fold(b, mvs, i, acc).0),
    decreases mvs.len() - i,
{
    if i < mvs.len() {
        let m = mvs[i as int];
        let next = made_and_unmade(b, m);
        assert(make_move_in_bounds(b, m));
        lemma_leaf_fold(
            next,
            mvs,
            i + 1,
            if legal_on(b, m) {
                add_counts(acc, leaf_counts(m))
            } else {
                acc
            },
        );
    }
}

proof fn lemma_perft_spec(b: BoardView, depth: nat)
    ensures
        perft_spec(b, depth) matches Some((c, b2)) ==> same_frame(b, b2),
    decreases depth, 513nat,
{
    let mvs = generated_moves(b);
    lemma_generated_moves_in_bounds(b);
    if mvs.len() <= 512 && b.history.len() > 0 {
        if depth == 1 {
            lemma_leaf_fold(b, mvs, 0, zero_counts());
        } else {
            lemma_perft_fold(b, mvs, 0, depth, zero_counts());
        }
    }
}

proof fn lemma_perft_fold(b: BoardView, mvs: Seq<Move>, i: nat, depth: nat, acc: PerftCounts)
    requires
        b.history.len() > 0,
        moves_in_bounds(b, mvs),
    ensures
        perft_fold(b, mvs, i, depth, acc) matches Some((c, b2)) ==> same_frame(b, b2) && counts_le(
            acc,
            c,
        ),
    decreases depth, mvs.len() - i,
{
    if mvs.len() <= 512 && i < mvs.len() {
        let m = mvs[i as int];
        assert(make_move_in_bounds(b, m));
        let made = make_move_view(b, m);
        if legal_on(b, m) {
            if depth > 0 {
                lemma_perft_spec(made, (depth - 1) as nat);
                match perft_spec(made, (depth - 1) as nat) {
                    None => {},
                    Some((c, after)) => {
                        lemma_perft_fold(unmake_move_view(after, m), mvs, i + 1, depth, add_counts(acc, c));
                    },
                }
            }
        } else {
            lemma_perft_fold(unmake_move_view(made, m), mvs, i + 1, depth, acc);
        }
    }
}


impl Board {
    /// Counts the legal move sequences of length `depth` from this position,
    /// and among their last moves the captures, en-passant captures and
    /// castlings, as `(nodes, captures, en_passants, castles)`. The board is
    /// left as `perft_spec` says; see `lemma_make_unmake_round_trip` for when
    /// that is the board it started from.
    pub fn perft(&mut self, depth: usize) -> (counts: (usize, usize, usize, usize))
        requires
            old(self)@.wf(),
            perft_spec(old(self)@, depth as nat) is Some,
            counts_fit(perft_spec(old(self)@, depth as nat).unwrap().0),
        ensures
            ({
                let (c, after) = perft_spec(old(self)@, depth as nat)->0;
                &&& final(self)@ == after
                &&& counts.0 == c.nodes
                &&& counts.1 == c.captures
                &&& counts.2 == c.en_passants
                &&& counts.3 == c.castles
            }),
        decreases depth,
    {
        let ghost b = self@;
        let mvs = self.gen_moves();
        let ghost all = move_list_items(mvs);
        proof {
            lemma_generated_moves_in_bounds(b);
        }
        let n = move_count(&mvs);
        if depth == 1 {
            let mut mv_count: usize = 0;
            let mut capture_count: usize = 0;
            let mut ep_count: usize = 0;
            let mut castles: usize = 0;
            let mut i: usize = 0;
            while i < n
                invariant
                    i <= n,
                    n == all.len(),
                    all == move_list_items(mvs),
                    all == generated_moves(b),
                    moves_in_bounds(b, all),
                    self@.wf(),
                    self@.history.len() == b.history.len(),
                    self@.white_turn == b.white_turn,
                    all.len() > 0 ==> b.history.len() > 0,
                    mv_count <= i && capture_count <= i && ep_count <= i && castles <= i,
                    leaf_fold(
                        self@,
                        all,
                        i as nat,
                        PerftCounts {
                            nodes: mv_count as nat,
                            captures: capture_count as nat,
                            en_passants: ep_count as nat,
                            castles: castles as nat,
                        },
                    ) == leaf_fold(b, all, 0, zero_counts()),
                decreases n - i,
            {
                let mv = move_at(&mvs, i);
                assert(make_move_in_bounds(self@, mv));
                if self.is_legal(&mv) {
                    mv_count += 1;
                    if mv.capture.is_some() {
                        capture_count += 1;
                    }
                    if mv.en_passante {
                        ep_count += 1;
                    }
                    if mv.castle != Castle::No {
                        castles += 1;
                    }
                }
                i += 1;
            }
            (mv_count, capture_count, ep_count, castles)
        } else {
            let ghost fin = perft_spec(b, depth as nat).unwrap().0;
            let mut count: usize = 0;
            let mut capture_count: usize = 0;
            let mut ep_count: usize = 0;
            let mut castles: usize = 0;
            let mut i: usize = 0;
            while i < n
                invariant
                    i <= n,
                    n == all.len(),
                    all == move_list_items(mvs),
                    all == generated_moves(b),
                    all.len() <= 512,
                    moves_in_bounds(b, all),
                    self@.wf(),
                    self@.history.len() == b.history.len(),
                    self@.white_turn == b.white_turn,
                    all.len() > 0 ==> b.history.len() > 0,
                    counts_fit(fin),
                    perft_fold(
                        self@,
                        all,
                        i as nat,
                        depth as nat,
                        PerftCounts {
                            nodes: count as nat,
                            captures: capture_count as nat,
                            en_passants: ep_count as nat,
                            castles: castles as nat,
                        },
                    ) == perft_spec(b, depth as nat),
                    perft_spec(b, depth as nat) matches Some((c, _)) && c == fin,
                decreases n - i,
            {
                let mv = move_at(&mvs, i);
                let ghost before = self@;
                let ghost acc = PerftCounts {
                    nodes: count as nat,
                    captures: capture_count as nat,
                    en_passants: ep_count as nat,
                    castles: castles as nat,
                };
                assert(make_move_in_bounds(self@, mv));
                proof {
                    lemma_perft_fold(before, all, i as nat, depth as nat, acc);
                }
                self.make_move(&mv);
                self.is_white_turn = !self.is_white_turn;
                let legal = !self.is_check();
                self.is_white_turn = !self.is_white_turn;
                if legal {
                    let ghost made = self@;
                    proof {
                        lemma_perft_spec(made, (depth - 1) as nat);
                        let (c, after) = perft_spec(made, (depth - 1) as nat)->0;
                        lemma_perft_fold(unmake_move_view(after, mv), all, (i + 1) as nat, depth as nat, add_counts(acc, c));
                    }
                    let (tc, tcc, tepc, cc) = self.perft(depth - 1);
                    count += tc;
                    capture_count += tcc;
                    ep_count += tepc;
                    castles += cc;
                }
                self.unmake_move(&mv);
                i += 1;
            }
            (count, capture_count, ep_count, castles)
        }
    }
}


/// Taking back a move from any board in the frame of the board the move
/// made gives a board in the frame of the board it was made on.
proof fn lemma_unmake_keeps_frame(b: BoardView, m: Move, x: BoardView)
    requires
        b.wf(),
        make_move_in_bounds(b, m),
        same_frame(make_move_view(b, m), x),
    ensures
        unmake_move_in_bounds(x, m),
        same_frame(b, unmake_move_view(x, m)),
{
    assert(make_move_view(b, m).wf());
}

impl Board {
    /// Perft without preconditions on the position: the counts of `perft`
    /// when the board remembers a position, every position met fits its
    /// moves in a move list, no depth below one is asked where a legal move
    /// exists, and the counts fit in a `usize`; `None` otherwise. On `None`
    /// the side to move and the number of remembered positions are as before.
    pub fn try_perft(&mut self, depth: usize) -> (r: Option<(usize, usize, usize, usize)>)
        requires
            old(self)@.wf(),
        ensures
            r is Some <==> (old(self)@.history.len() > 0 && perft_spec(old(self)@, depth as nat) is Some
                && counts_fit(perft_spec(old(self)@, depth as nat).unwrap().0)),
            r matches Some(counts) ==> ({
                let (c, after) = perft_spec(old(self)@, depth as nat)->0;
                &&& final(self)@ == after
                &&& counts.0 == c.nodes
                &&& counts.1 == c.captures
                &&& counts.2 == c.en_passants
                &&& counts.3 == c.castles
            }),
            r is None ==> same_frame(old(self)@, final(self)@),
        decreases depth,
    {
        let ghost b = self@;
        let mvs = match self.try_gen_moves() {
            Some(mvs) => mvs,
            None => {
                return None;
            },
        };
        let ghost all = move_list_items(mvs);
        proof {
            lemma_generated_moves_in_bounds(b);
        }
        let n = move_count(&mvs);
        if depth == 1 {
            let mut mv_count: usize = 0;
            let mut capture_count: usize = 0;
            let mut ep_count: usize = 0;
            let mut castles: usize = 0;
            let mut i: usize = 0;
            while i < n
                invariant
                    i <= n,
                    n == all.len(),
                    all == move_list_items(mvs),
                    all == generated_moves(b),
                    moves_in_bounds(b, all),
                    self@.wf(),
                    b.history.len() > 0,
                    self@.history.len() == b.history.len(),
                    self@.white_turn == b.white_turn,
                    mv_count <= i && capture_count <= i && ep_count <= i && castles <= i,
                    leaf_fold(
                        self@,
                        all,
                        i as nat,
                        PerftCounts {
                            nodes: mv_count as nat,
                            captures: capture_count as nat,
                            en_passants: ep_count as nat,
                            castles: castles as nat,
                        },
                    ) == leaf_fold(b, all, 0, zero_counts()),
                decreases n - i,
            {
                let mv = move_at(&mvs, i);
                assert(make_move_in_bounds(self@, mv));
                if self.is_legal(&mv) {
                    mv_count += 1;
                    if mv.capture.is_some() {
                        capture_count += 1;
                    }
                    if mv.en_passante {
                        ep_count += 1;
                    }
                    if mv.castle != Castle::No {
                        castles += 1;
                    }
                }
                i += 1;
            }
            Some((mv_count, capture_count, ep_count, castles))
        } else {
            let mut count: usize = 0;
            let mut capture_count: usize = 0;
            let mut ep_count: usize = 0;
            let mut castles: usize = 0;
            let mut i: usize = 0;
            while i < n
                invariant
                    i <= n,
                    n == all.len(),
                    all == move_list_items(mvs),
                    all == generated_moves(b),
                    all.len() <= 512,
                    b == old(self)@,
                    depth != 1,
                    moves_in_bounds(b, all),
                    self@.wf(),
                    b.history.len() > 0,
                    self@.history.len() == b.history.len(),
                    self@.white_turn == b.white_turn,
                    b.wf(),
                    perft_fold(
                        self@,
                        all,
                        i as nat,
                        depth as nat,
                        PerftCounts {
                            nodes: count as nat,
                            captures: capture_count as nat,
                            en_passants: ep_count as nat,
                            castles: castles as nat,
                        },
                    ) == perft_spec(b, depth as nat),
                decreases n - i,
            {
                let mv = move_at(&mvs, i);
                let ghost before = self@;
                let ghost acc = PerftCounts {
                    nodes: count as nat,
                    captures: capture_count as nat,
                    en_passants: ep_count as nat,
                    castles: castles as nat,
                };
                assert(make_move_in_bounds(self@, mv));
                proof {
                    lemma_perft_fold(before, all, i as nat, depth as nat, acc);
                }
                self.make_move(&mv);
                self.is_white_turn = !self.is_white_turn;
                let legal = !self.is_check();
                self.is_white_turn = !self.is_white_turn;
                let ghost made = self@;
                assert(made == make_move_view(before, mv));
                assert(legal == legal_on(before, mv));
                if legal {
                    if depth == 0 {
                        proof {
                            lemma_unmake_keeps_frame(before, mv, made);
                        }
                        self.unmake_move(&mv);
                        assert(same_frame(before, self@));
                        assert(same_frame(b, self@));
                        assert(perft_fold(before, all, i as nat, depth as nat, acc) is None);
                        assert(perft_spec(b, depth as nat) is None);
                        return None;
                    }
                    proof {
                        lemma_perft_spec(made, (depth - 1) as nat);
                    }
                    match self.try_perft(depth - 1) {
                        None => {
                            proof {
                                lemma_unmake_keeps_frame(before, mv, self@);
                                match perft_spec(made, (depth - 1) as nat) {
                                    None => {
                                        assert(perft_fold(before, all, i as nat, depth as nat, acc) is None);
                                    },
                                    Some((c, after)) => {
                                        assert(!counts_fit(c));
                                        assert(perft_fold(before, all, i as nat, depth as nat, acc)
                                            == perft_fold(
                                            unmake_move_view(after, mv),
                                            all,
                                            (i + 1) as nat,
                                            depth as nat,
                                            add_counts(acc, c),
                                        ));
                                        lemma_perft_fold(
                                            unmake_move_view(after, mv),
                                            all,
                                            (i + 1) as nat,
                                            depth as nat,
                                            add_counts(acc, c),
                                        );
                                    },
                                }
                            }
                            self.unmake_move(&mv);
                            assert(same_frame(before, self@));
                            assert(same_frame(b, self@));
                            assert(!(perft_spec(b, depth as nat) is Some && counts_fit(
                                perft_spec(b, depth as nat).unwrap().0,
                            )));
                            return None;
                        },
                        Some((tc, tcc, tepc, cc)) => {
                            let ghost (c, after) = perft_spec(made, (depth - 1) as nat)->0;
                            proof {
                                lemma_perft_fold(
                                    unmake_move_view(after, mv),
                                    all,
                                    (i + 1) as nat,
                                    depth as nat,
                                    add_counts(acc, c),
                                );
                            }
                            let sums = (
                                count.checked_add(tc),
                                capture_count.checked_add(tcc),
                                ep_count.checked_add(tepc),
                                castles.checked_add(cc),
                            );
                            match sums {
                                (Some(a), Some(bb), Some(e), Some(k)) => {
                                    count = a;
                                    capture_count = bb;
                                    ep_count = e;
                                    castles = k;
                                },
                                _ => {
                                    proof {
                                        lemma_unmake_keeps_frame(before, mv, self@);
                                        assert(perft_fold(before, all, i as nat, depth as nat, acc)
                                            == perft_fold(
                                            unmake_move_view(after, mv),
                                            all,
                                            (i + 1) as nat,
                                            depth as nat,
                                            add_counts(acc, c),
                                        ));
                                        assert(!counts_fit(add_counts(acc, c)));
                                    }
                                    self.unmake_move(&mv);
                                    assert(same_frame(before, self@));
                                    assert(same_frame(b, self@));
                                    assert(!(perft_spec(b, depth as nat) is Some && counts_fit(
                                        perft_spec(b, depth as nat).unwrap().0,
                                    )));
                                    return None;
                                },
                            }
                        },
                    }
                }
                self.unmake_move(&mv);
                i += 1;
            }
            Some((count, capture_count, ep_count, castles))
        }
    }
}

/// Trying a generated move for legality leaves a board a game can reach as it was.
pub proof fn lemma_is_legal_keeps_board(b: BoardView, i: int)
    requires
        coherent(b),
        0 <= i < generated_moves(b).len(),
    ensures
        made_and_unmade(b, generated_moves(b)[i]) == b,
{
    lemma_generated_moves_sound(b);
    lemma_make_unmake_round_trip(b, generated_moves(b)[i]);
}

/// Every move perft makes from `b` down to `depth` records what taking it
/// back needs.
pub open spec fn reversible_tree(b: BoardView, depth: nat) -> bool
    decreases depth,
{
    let mvs = generated_moves(b);
    &&& moves_sound(b, mvs)
    &&& depth > 1 ==> forall|i: int|
        0 <= i < mvs.len() && legal_on(b, #[trigger] mvs[i]) ==> reversible_tree(
            make_move_view(b, mvs[i]),
            (depth - 1) as nat,
        )
}

proof fn lemma_leaf_fold_keeps_board(b: BoardView, mvs: Seq<Move>, i: nat, acc: PerftCounts)
    requires
        b.wf(),
        moves_sound(b, mvs),
    ensures
        leaf_fold(b, mvs, i, acc).1 == b,
    decreases mvs.len() - i,
{
    if i < mvs.len() {
        let m = mvs[i as int];
        lemma_make_unmake_round_trip(b, m);
        lemma_leaf_fold_keeps_board(
            b,
            mvs,
            i + 1,
            if legal_on(b, m) {
                add_counts(acc, leaf_counts(m))
            } else {
                acc
            },
        );
    }
}

proof fn lemma_perft_spec_keeps_board(b: BoardView, depth: nat)
    requires
        b.wf(),
        reversible_tree(b, depth),
    ensures
        perft_spec(b, depth) matches Some((c, after)) ==> after == b,
    decreases depth, 513nat,
{
    let mvs = generated_moves(b);
    if mvs.len() <= 512 && b.history.len() > 0 {
        if depth == 1 {
            lemma_leaf_fold_keeps_board(b, mvs, 0, zero_counts());
        } else {
            lemma_perft_fold_keeps_board(b, mvs, 0, depth, zero_counts());
        }
    }
}

proof fn lemma_perft_fold_keeps_board(b: BoardView, mvs: Seq<Move>, i: nat, depth: nat, acc: PerftCounts)
    requires
        b.wf(),
        b.history.len() > 0,
        mvs == generated_moves(b),
        depth != 1,
        reversible_tree(b, depth),
    ensures
        perft_fold(b, mvs, i, depth, acc) matches Some((c, after)) ==> after == b,
    decreases depth, mvs.len() - i,
{
    if mvs.len() <= 512 && i < mvs.len() {
        let m = mvs[i as int];
        lemma_make_unmake_round_trip(b, m);
        let made = make_move_view(b, m);
        if legal_on(b, m) {
            if depth > 0 {
                lemma_perft_spec_keeps_board(made, (depth - 1) as nat);
                match perft_spec(made, (depth - 1) as nat) {
                    None => {},
                    Some((c, after)) => {
                        lemma_perft_fold_keeps_board(b, mvs, i + 1, depth, add_counts(acc, c));
                    },
                }
            }
        } else {
            lemma_perft_fold_keeps_board(b, mvs, i + 1, depth, acc);
        }
    }
}

/// Perft gives back the board it started from when every move it makes
/// records what taking it back needs.
pub proof fn lemma_perft_keeps_board(b: BoardView, depth: nat)
    requires
        b.wf(),
        reversible_tree(b, depth),
        perft_spec(b, depth) is Some,
    ensures
        perft_spec(b, depth).unwrap().1 == b,
{
    lemma_perft_spec_keeps_board(b, depth);
}


/// No move perft makes from `b` down to `depth` takes a king.
pub open spec fn king_safe_tree(b: BoardView, depth: nat) -> bool
    decreases depth,
{
    let mvs = generated_moves(b);
    &&& forall|i: int|
        0 <= i < mvs.len() ==> captured(#[trigger] mvs[i]) != Piece::white_king() && captured(
            mvs[i],
        ) != Piece::black_king()
    &&& depth > 1 ==> forall|i: int|
        0 <= i < mvs.len() && legal_on(b, #[trigger] mvs[i]) ==> king_safe_tree(
            make_move_view(b, mvs[i]),
            (depth - 1) as nat,
        )
}

/// From a board a game can reach, where no move perft makes takes a king,
/// every move perft makes records what taking it back needs.
pub proof fn lemma_coherent_tree_reversible(b: BoardView, depth: nat)
    requires
        coherent(b),
        king_safe_tree(b, depth),
    ensures
        reversible_tree(b, depth),
    decreases depth,
{
    let mvs = generated_moves(b);
    lemma_generated_moves_sound(b);
    if depth > 1 {
        assert forall|i: int|
            0 <= i < mvs.len() && legal_on(b, #[trigger] mvs[i]) implies reversible_tree(
            make_move_view(b, mvs[i]),
            (depth - 1) as nat,
        ) by {
            lemma_make_move_keeps_coherent(b, mvs[i]);
            lemma_coherent_tree_reversible(make_move_view(b, mvs[i]), (depth - 1) as nat);
        }
    }
}


/// The counts of the legal move sequences of length `depth` from `b`, each
/// move made on the board the previous one produced: at depth one, the legal
/// moves; deeper, the sum over the legal moves of the counts one level down.
/// (Positions with more moves than a move list holds count nothing; perft
/// does not reach them.)
pub open spec fn legal_sequences(b: BoardView, depth: nat) -> PerftCounts
    decreases depth, 513nat,
{
    let mvs = generated_moves(b);
    if mvs.len() > 512 {
        zero_counts()
    } else if depth == 1 {
        leaf_sum(b, mvs, 0, zero_counts())
    } else {
        node_sum(b, mvs, 0, depth, zero_counts())
    }
}

/// `acc` plus what the legal moves of `mvs` from the `i`-th on add at depth one.
pub open spec fn leaf_sum(b: BoardView, mvs: Seq<Move>, i: nat, acc: PerftCounts) -> PerftCounts
    decreases mvs.len() - i,
{
    if i >= mvs.len() {
        acc
    } else {
        let m = mvs[i as int];
        leaf_sum(
            b,
            mvs,
            i + 1,
            if legal_on(b, m) {
                add_counts(acc, leaf_counts(m))
            } else {
                acc
            },
        )
    }
}

/// `acc` plus the counts one level down after each legal move of `mvs` from
/// the `i`-th on.
pub open spec fn node_sum(b: BoardView, mvs: Seq<Move>, i: nat, depth: nat, acc: PerftCounts) -> PerftCounts
    decreases depth, mvs.len() - i,
{
    if mvs.len() > 512 || i >= mvs.len() || depth == 0 {
        acc
    } else {
        let m = mvs[i as int];
        node_sum(
            b,
            mvs,
            i + 1,
            depth,
            if legal_on(b, m) {
                add_counts(acc, legal_sequences(make_move_view(b, m), (depth - 1) as nat))
            } else {
                acc
            },
        )
    }
}

proof fn lemma_leaf_fold_counts(b: BoardView, mvs: Seq<Move>, i: nat, acc: PerftCounts)
    requires
        b.wf(),
        moves_sound(b, mvs),
    ensures
        leaf_fold(b, mvs, i, acc) == (leaf_sum(b, mvs, i, acc), b),
    decreases mvs.len() - i,
{
    if i < mvs.len() {
        let m = mvs[i as int];
        lemma_make_unmake_round_trip(b, m);
        lemma_leaf_fold_counts(
            b,
            mvs,
            i + 1,
            if legal_on(b, m) {
                add_counts(acc, leaf_counts(m))
            } else {
                acc
            },
        );
    }
}

proof fn lemma_perft_spec_counts(b: BoardView, depth: nat)
    requires
        b.wf(),
        reversible_tree(b, depth),
        perft_spec(b, depth) is Some,
    ensures
        perft_spec(b, depth) == Some((legal_sequences(b, depth), b)),
    decreases depth, 513nat,
{
    let mvs = generated_moves(b);
    if depth == 1 {
        lemma_leaf_fold_counts(b, mvs, 0, zero_counts());
    } else {
        lemma_perft_fold_counts(b, mvs, 0, depth, zero_counts());
    }
}

proof fn lemma_perft_fold_counts(b: BoardView, mvs: Seq<Move>, i: nat, depth: nat, acc: PerftCounts)
    requires
        b.wf(),
        mvs == generated_moves(b),
        mvs.len() <= 512,
        depth != 1,
        reversible_tree(b, depth),
        perft_fold(b, mvs, i, depth, acc) is Some,
    ensures
        perft_fold(b, mvs, i, depth, acc) == Some((node_sum(b, mvs, i, depth, acc), b)),
    decreases depth, mvs.len() - i,
{
    if i < mvs.len() {
        let m = mvs[i as int];
        lemma_make_unmake_round_trip(b, m);
        let made = make_move_view(b, m);
        if legal_on(b, m) {
            lemma_perft_spec_counts(made, (depth - 1) as nat);
            let c = legal_sequences(made, (depth - 1) as nat);
            lemma_perft_fold_counts(b, mvs, i + 1, depth, add_counts(acc, c));
        } else {
            lemma_perft_fold_counts(b, mvs, i + 1, depth, acc);
        }
    }
}

/// Perft counts the legal move sequences of the given length, and the
/// captures, en-passant captures and castlings among their last moves,
/// whenever every move it makes records what taking it back needs.
pub proof fn lemma_perft_counts_legal_sequences(b: BoardView, depth: nat)
    requires
        b.wf(),
        reversible_tree(b, depth),
        perft_spec(b, depth) is Some,
    ensures
        perft_spec(b, depth) == Some((legal_sequences(b, depth), b)),
{
    lemma_perft_spec_counts(b, depth);
}

} // verus!
