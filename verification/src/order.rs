//! Stable ordering of paths.
//!
//! Paths are ordered as `std::path::Path` orders them, component by
//! component. Sorting is expressed as an arrangement: the list of positions
//! of the original sequence in the order in which they come out.

use crate::paths::{path_at_or_before, path_le, texts};
use vstd::prelude::*;

verus! {

/// Whether `order` lists each position below `n` exactly once.
pub open spec fn is_arrangement(order: Seq<usize>, n: nat) -> bool {
    &&& order.len() == n
    &&& forall|i: int| 0 <= i < order.len() ==> #[trigger] order[i] < n
    &&& forall|i: int, j: int| 0 <= i < j < order.len() ==> order[i] != order[j]
}

/// Whether `order` arranges `keys` in ascending order, keys that sort
/// alike staying in their original order.
pub open spec fn is_stable_order(order: Seq<usize>, keys: Seq<Seq<char>>) -> bool {
    &&& is_arrangement(order, keys.len())
    &&& forall|i: int, j: int|
        0 <= i < j < order.len() ==> path_le(
            keys[#[trigger] order[i] as int],
            keys[#[trigger] order[j] as int],
        )
    &&& forall|i: int, j: int|
        0 <= i < j < order.len() && path_le(
            keys[#[trigger] order[j] as int],
            keys[#[trigger] order[i] as int],
        ) ==> order[i] < order[j]
}

/// `items` taken in the order that `order` lists.
pub open spec fn arranged<T>(items: Seq<T>, order: Seq<usize>) -> Seq<T> {
    Seq::new(order.len(), |i: int| items[order[i] as int])
}

/// Finds the arrangement that sorts `keys` as paths, stably.
pub fn stable_order(keys: &Vec<String>) -> (order: Vec<usize>)
    ensures
        is_stable_order(order@, texts(keys@)),
{
    let ghost k = texts(keys@);
    let mut order: Vec<usize> = Vec::new();
    let mut t: usize = 0;
    while t < keys.len()
        invariant
            0 <= t <= keys.len(),
            k == texts(keys@),
            order.len() == t,
            forall|i: int| 0 <= i < order.len() ==> #[trigger] order@[i] < t,
            forall|i: int, j: int| 0 <= i < j < order.len() ==> order@[i] != order@[j],
            forall|i: int, j: int|
                0 <= i < j < order.len() ==> path_le(
                    k[#[trigger] order@[i] as int],
                    k[#[trigger] order@[j] as int],
                ),
            forall|i: int, j: int|
                0 <= i < j < order.len() && path_le(
                    k[#[trigger] order@[j] as int],
                    k[#[trigger] order@[i] as int],
                ) ==> order@[i] < order@[j],
        decreases keys.len() - t,
    {
        let mut pos: usize = order.len();
        let mut placed = false;
        while pos > 0 && !placed
            invariant
                0 <= pos <= order.len(),
                order.len() == t,
                t < keys.len(),
                k == texts(keys@),
                forall|i: int| 0 <= i < order.len() ==> #[trigger] order@[i] < t,
                forall|j: int|
                    pos <= j < order.len() ==> !path_le(k[#[trigger] order@[j] as int], k[t as int])
                        && path_le(k[t as int], k[order@[j] as int]),
                placed ==> pos > 0 && path_le(k[order@[pos - 1] as int], k[t as int]),
                placed ==> forall|c: Seq<char>| #[trigger]
                    path_le(c, k[order@[pos - 1] as int]) ==> path_le(c, k[t as int]),
            decreases pos, (if placed { 0int } else { 1int }),
        {
            let at = order[pos - 1];
            if path_at_or_before(keys[at].as_str(), keys[t].as_str()) {
                placed = true;
            } else {
                pos -= 1;
            }
        }
        let ghost before = order@;
        order.insert(pos, t);
        proof {
            let after = order@;
            assert(after == before.insert(pos as int, t));
            assert forall|i: int| 0 <= i < after.len() implies #[trigger] after[i] < t + 1 by {
                if i < pos {
                    assert(after[i] == before[i]);
                } else if i > pos {
                    assert(after[i] == before[i - 1]);
                }
            }
            assert forall|i: int, j: int| 0 <= i < j < after.len() implies after[i] != after[j] by {
                let bi = if i < pos { i } else { i - 1 };
                let bj = if j < pos { j } else { j - 1 };
                if i != pos && j != pos {
                    assert(after[i] == before[bi]);
                    assert(after[j] == before[bj]);
                } else if i == pos {
                    assert(after[j] == before[bj]);
                    assert(before[bj] < t);
                } else {
                    assert(after[i] == before[bi]);
                    assert(before[bi] < t);
                }
            }
            assert forall|i: int, j: int| 0 <= i < j < after.len() implies path_le(
                k[#[trigger] after[i] as int],
                k[#[trigger] after[j] as int],
            ) by {
                let bi = if i < pos { i } else { i - 1 };
                let bj = if j < pos { j } else { j - 1 };
                if i != pos && j != pos {
                    assert(after[i] == before[bi]);
                    assert(after[j] == before[bj]);
                } else if i == pos {
                    assert(after[j] == before[bj]);
                } else {
                    assert(after[i] == before[bi]);
                    if i < pos - 1 {
                        assert(path_le(k[before[i] as int], k[before[pos - 1] as int]));
                    }
                }
            }
            assert forall|i: int, j: int|
                0 <= i < j < after.len() && path_le(
                    k[#[trigger] after[j] as int],
                    k[#[trigger] after[i] as int],
                ) implies after[i] < after[j] by {
                let bi = if i < pos { i } else { i - 1 };
                let bj = if j < pos { j } else { j - 1 };
                if i != pos && j != pos {
                    assert(after[i] == before[bi]);
                    assert(after[j] == before[bj]);
                } else if i == pos {
                    assert(after[j] == before[bj]);
                } else {
                    assert(after[i] == before[bi]);
                    assert(before[bi] < t);
                }
            }
        }
        t += 1;
    }
    order
}

/// Takes `items` in the order that `order` lists.
pub(crate) fn arrange(items: &Vec<String>, order: &Vec<usize>) -> (out: Vec<String>)
    requires
        forall|i: int| 0 <= i < order.len() ==> #[trigger] order@[i] < items.len(),
    ensures
        out.len() == order.len(),
        texts(out@) == arranged(texts(items@), order@),
{
    let mut out: Vec<String> = Vec::new();
    let mut i: usize = 0;
    while i < order.len()
        invariant
            0 <= i <= order.len(),
            out.len() == i,
            forall|m: int| 0 <= m < order.len() ==> #[trigger] order@[m] < items.len(),
            forall|m: int| 0 <= m < i ==> out@[m]@ == items@[order@[m] as int]@,
        decreases order.len() - i,
    {
        out.push(items[order[i]].clone());
        i += 1;
    }
    assert(texts(out@) =~= arranged(texts(items@), order@));
    out
}

} // verus!
