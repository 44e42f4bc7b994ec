//! Counting slots: which of the `n` slots of a pipe is where.

use vstd::multiset::Multiset;
use vstd::prelude::*;

use crate::ring::{ring_capacity, ring_push};
use crate::tx::all_slots;

verus! {

/// The slot in an optional place.
pub open spec fn opt_bag(x: Option<u8>) -> Multiset<u8> {
    match x {
        Some(slot) => Multiset::singleton(slot),
        None => Multiset::empty(),
    }
}

/// The slot in an optional place, as a list.
pub open spec fn opt_seq(x: Option<u8>) -> Seq<u8> {
    match x {
        Some(slot) => seq![slot],
        None => Seq::empty(),
    }
}

/// Every slot of a pipe of depth `n`, once each.
pub open spec fn full_bag(n: u8) -> Multiset<u8> {
    all_slots(n).to_multiset()
}

/// How often each slot occurs in [`full_bag`].
pub proof fn lemma_full_bag(n: u8)
    ensures
        full_bag(n).len() == n,
        forall|x: u8| #[trigger] full_bag(n).count(x) == (if x < n {
            1nat
        } else {
            0nat
        }),
{
    broadcast use vstd::seq_lib::group_to_multiset_ensures;

    let s = all_slots(n);
    assert(s.no_duplicates());
    s.lemma_multiset_has_no_duplicates();
    assert forall|x: u8| #[trigger] full_bag(n).count(x) == (if x < n {
        1nat
    } else {
        0nat
    }) by {
        if x < n {
            assert(s[x as int] == x);
            assert(s.contains(x));
        } else {
            assert(!s.contains(x));
        }
    }
}

/// Appending to a queue that has room adds one slot.
pub proof fn lemma_push_bag(s: Seq<u8>, slot: u8)
    requires
        s.len() < ring_capacity(),
    ensures
        ring_push(s, slot) == s.push(slot),
        ring_push(s, slot).to_multiset() == s.to_multiset().insert(slot),
{
    broadcast use vstd::seq_lib::group_to_multiset_ensures;

}

/// Taking the oldest slot of a queue removes that slot.
pub proof fn lemma_skip_bag(s: Seq<u8>)
    requires
        s.len() > 0,
    ensures
        s.to_multiset() == s.skip(1).to_multiset().insert(s[0]),
{
    broadcast use vstd::seq_lib::group_to_multiset_ensures;

    assert(s.contains(s[0]));
    assert(s.skip(1) =~= s.remove(0));
    assert(s.to_multiset() =~= s.skip(1).to_multiset().insert(s[0]));
}

/// A queue and its bag have the same size and the same slots.
pub proof fn lemma_bag(s: Seq<u8>)
    ensures
        s.to_multiset().len() == s.len(),
        forall|x: u8| s.contains(x) <==> #[trigger] s.to_multiset().count(x) > 0,
        forall|i: int| 0 <= i < s.len() ==> s.to_multiset().count(#[trigger] s[i]) > 0,
{
    broadcast use vstd::seq_lib::group_to_multiset_ensures;

}

} // verus!
