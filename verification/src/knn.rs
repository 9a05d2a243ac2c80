//! The vote among the nearest neighbours of a handwritten character.

use vstd::prelude::*;

verus! {

/// The label of the digit one.
pub const ONE: char = '1';

/// How many of `labels` are the label of the digit one.
pub open spec fn count_ones(labels: Seq<char>) -> nat
    decreases labels.len(),
{
    if labels.len() == 0 {
        0
    } else {
        count_ones(labels.drop_last()) + if labels.last() == ONE {
            1nat
        } else {
            0nat
        }
    }
}

/// The first `k` of `labels`, or all of them where there are fewer.
pub open spec fn nearest(labels: Seq<char>, k: nat) -> Seq<char> {
    if k <= labels.len() {
        labels.take(k as int)
    } else {
        labels
    }
}

/// Whether the digit one wins the vote: whether, among the `k` nearest of the
/// neighbours, whose labels are given from the nearest on, more carry the
/// label of the digit one than any other label.
pub fn majority_is_one(labels: &Vec<char>, k: usize) -> (won: bool)
    ensures
        won == (2 * count_ones(nearest(labels@, k as nat)) > nearest(labels@, k as nat).len()),
{
    let n = if k <= labels.len() {
        k
    } else {
        labels.len()
    };
    let mut is_one: usize = 0;
    let mut not_one: usize = 0;
    let mut i: usize = 0;
    while i < n
        invariant
            i <= n,
            n <= labels@.len(),
            is_one == count_ones(labels@.take(i as int)),
            is_one + not_one == i,
        decreases n - i,
    {
        assert(labels@.take(i + 1).drop_last() =~= labels@.take(i as int));
        if labels[i] == ONE {
            is_one += 1;
        } else {
            not_one += 1;
        }
        i += 1;
    }
    assert(nearest(labels@, k as nat) =~= labels@.take(n as int));
    is_one > not_one
}

} // verus!
