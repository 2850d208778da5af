//! The fixed-capacity lists of the `arrayvec` crate that the board uses:
//! the list of generated moves and the list of castling rights.
//!
//! `ArrayVec` is opaque to Verus. What a list holds, first pushed first, is
//! named by `move_list_items` and `castle_right_items`; each wrapper below
//! states how its method changes or reads those items.

use arrayvec::ArrayVec;
use vstd::prelude::*;

use crate::types::{Castle, Move};

verus! {

#[verifier::external_type_specification]
#[verifier::external_body]
#[verifier::reject_recursive_types(T)]
pub struct ExArrayVec<T, const CAP: usize>(ArrayVec<T, CAP>);

/// The most moves a move list holds.
pub const MAX_MOVES: usize = 512;

/// A list of moves.
pub type MoveList = ArrayVec<Move, MAX_MOVES>;

/// The moves a move list holds, first pushed first.
pub uninterp spec fn move_list_items(list: ArrayVec<Move, 512>) -> Seq<Move>;

/// The castling rights a rights list holds, first pushed first.
pub uninterp spec fn castle_right_items(rights: ArrayVec<Castle, 4>) -> Seq<Castle>;

/// `ArrayVec::new`: an empty list.
#[verifier::external_body]
pub(crate) fn new_move_list() -> (list: ArrayVec<Move, 512>)
    ensures
        move_list_items(list) == Seq::<Move>::empty(),
{
    ArrayVec::new()
}

/// `ArrayVec::push`: appends at the end; it panics on a full list, which the
/// `requires` rules out.
#[verifier::external_body]
pub(crate) fn push_move(list: &mut ArrayVec<Move, 512>, mv: Move)
    requires
        move_list_items(*old(list)).len() < 512,
    ensures
        move_list_items(*final(list)) == move_list_items(*old(list)).push(mv),
{
    list.push(mv)
}

/// `ArrayVec::try_push`: appends at the end when the list is not full and
/// reports `true`; on a full list it leaves the list as it was and reports
/// `false` (the `CapacityError` it returns is turned into `false`).
#[verifier::external_body]
pub(crate) fn try_push_move(list: &mut ArrayVec<Move, 512>, mv: Move) -> (pushed: bool)
    ensures
        pushed == (move_list_items(*old(list)).len() < 512),
        pushed ==> move_list_items(*final(list)) == move_list_items(*old(list)).push(mv),
        !pushed ==> move_list_items(*final(list)) == move_list_items(*old(list)),
{
    list.try_push(mv).is_ok()
}

/// `ArrayVec::len`: the number of items, never above the capacity.
#[verifier::external_body]
pub(crate) fn move_count(list: &ArrayVec<Move, 512>) -> (n: usize)
    ensures
        n == move_list_items(*list).len(),
        n <= 512,
{
    list.len()
}

/// `ArrayVec::as_slice`, read at `i`: the item at position `i`.
#[verifier::external_body]
pub(crate) fn move_at(list: &ArrayVec<Move, 512>, i: usize) -> (mv: Move)
    requires
        i < move_list_items(*list).len(),
    ensures
        mv == move_list_items(*list)[i as int],
{
    list.as_slice()[i]
}

/// `ArrayVec::new`: an empty list.
#[verifier::external_body]
pub(crate) fn new_rights() -> (rights: ArrayVec<Castle, 4>)
    ensures
        castle_right_items(rights) == Seq::<Castle>::empty(),
{
    ArrayVec::new()
}

/// `ArrayVec::push`: appends at the end; it panics on a full list, which the
/// `requires` rules out.
#[verifier::external_body]
pub(crate) fn push_right(rights: &mut ArrayVec<Castle, 4>, right: Castle)
    requires
        castle_right_items(*old(rights)).len() < 4,
    ensures
        castle_right_items(*final(rights)) == castle_right_items(*old(rights)).push(right),
{
    rights.push(right)
}

/// `ArrayVec::len`: the number of items, never above the capacity.
#[verifier::external_body]
pub(crate) fn right_count(rights: &ArrayVec<Castle, 4>) -> (n: usize)
    ensures
        n == castle_right_items(*rights).len(),
        n <= 4,
{
    rights.len()
}

/// `ArrayVec::as_slice`, read at `i`: the item at position `i`.
#[verifier::external_body]
pub(crate) fn right_at(rights: &ArrayVec<Castle, 4>, i: usize) -> (right: Castle)
    requires
        i < castle_right_items(*rights).len(),
    ensures
        right == castle_right_items(*rights)[i as int],
{
    rights.as_slice()[i]
}

/// `ArrayVec::clone`: a list with the same items in the same order.
#[verifier::external_body]
pub(crate) fn copy_rights(rights: &ArrayVec<Castle, 4>) -> (copy: ArrayVec<Castle, 4>)
    ensures
        castle_right_items(copy) == castle_right_items(*rights),
{
    rights.clone()
}

/// Whether a right survives the removal of `a` and `b`.
pub(crate) fn keeps_right(right: Castle, a: Castle, b: Castle) -> (keep: bool)
    ensures
        keep == (right != a && right != b),
{
    right != a && right != b
}

/// The test that keeps every right but `a` and `b`.
pub open spec fn kept_unless(a: Castle, b: Castle) -> spec_fn(Castle) -> bool {
    |r: Castle| r != a && r != b
}

/// The rights left when `a` and `b` are removed, in their order.
pub open spec fn without_rights(rights: Seq<Castle>, a: Castle, b: Castle) -> Seq<Castle> {
    rights.filter(kept_unless(a, b))
}

/// A right kept when `a` and `b` are removed was held and is neither.
pub proof fn lemma_without_rights(rights: Seq<Castle>, a: Castle, b: Castle, r: Castle)
    requires
        without_rights(rights, a, b).contains(r),
    ensures
        rights.contains(r),
        r != a,
        r != b,
{
    let pred = kept_unless(a, b);
    let kept = rights.filter(pred);
    let i = choose|i: int| 0 <= i < kept.len() && kept[i] == r;
    rights.lemma_filter_pred(pred, i);
    rights.lemma_filter_contains_rev(pred, r);
}

/// Filtering twice keeps what both tests keep, in order.
pub proof fn lemma_filter_twice(s: Seq<Castle>, p: spec_fn(Castle) -> bool, q: spec_fn(Castle) -> bool)
    ensures
        s.filter(p).filter(q) == s.filter(|r: Castle| p(r) && q(r)),
    decreases s.len(),
{
    reveal(Seq::filter);
    if s.len() > 0 {
        lemma_filter_twice(s.drop_last(), p, q);
        let inner = s.drop_last().filter(p);
        if p(s.last()) {
            assert(inner.push(s.last()).drop_last() =~= inner);
        }
    }
}

/// A test that keeps everything keeps the whole sequence.
pub proof fn lemma_filter_keeps_all(s: Seq<Castle>, p: spec_fn(Castle) -> bool)
    requires
        forall|r: Castle| #[trigger] p(r),
    ensures
        s.filter(p) == s,
    decreases s.len(),
{
    reveal(Seq::filter);
    if s.len() > 0 {
        lemma_filter_keeps_all(s.drop_last(), p);
        assert(s.drop_last().push(s.last()) =~= s);
    }
}

/// Filtering with two tests that agree on every right gives the same rights.
pub proof fn lemma_filter_same_test(s: Seq<Castle>, p: spec_fn(Castle) -> bool, q: spec_fn(Castle) -> bool)
    requires
        forall|r: Castle| #[trigger] p(r) == q(r),
    ensures
        s.filter(p) == s.filter(q),
{
    assert(p =~= q);
}

/// `ArrayVec::retain`: keeps, in order, the items for which the predicate
/// holds; here the predicate keeps every right but `a` and `b`.
#[verifier::external_body]
pub(crate) fn remove_rights(rights: &mut ArrayVec<Castle, 4>, a: Castle, b: Castle)
    ensures
        castle_right_items(*final(rights)) == without_rights(castle_right_items(*old(rights)), a, b),
{
    rights.retain(|r| keeps_right(*r, a, b))
}

} // verus!
