//! Searching and counting over sequences by a predicate on index and element.
//!
//! The cache's specifications repeatedly speak of "the first entry that ...":
//! the first entry with a matching dedup key, the first pending compile whose
//! outcome failed, the first device build that was rejected. These helpers
//! give those phrases one definition and one characterization lemma.

use vstd::prelude::*;

verus! {

/// The first index `i` with `k <= i < s.len()` such that `p(i, s[i])` holds,
/// or `None` if there is none.
pub open spec fn first_where_from<A>(s: Seq<A>, p: spec_fn(int, A) -> bool, k: int) -> Option<int>
    decreases s.len() - k,
{
    if k < 0 || k >= s.len() {
        None
    } else if p(k, s[k]) {
        Some(k)
    } else {
        first_where_from(s, p, k + 1)
    }
}

/// The first index at which `p` holds, over the whole sequence.
pub open spec fn first_where<A>(s: Seq<A>, p: spec_fn(int, A) -> bool) -> Option<int> {
    first_where_from(s, p, 0)
}

/// What `first_where_from` returns: a `None` means `p` holds nowhere from `k`
/// on; a `Some(i)` means `p` holds at `i` and nowhere between `k` and `i`.
pub proof fn lemma_first_where_from<A>(s: Seq<A>, p: spec_fn(int, A) -> bool, k: int)
    requires
        0 <= k,
    ensures
        match first_where_from(s, p, k) {
            None => forall|i: int| k <= i < s.len() ==> !p(i, s[i]),
            Some(i) => k <= i < s.len() && p(i, s[i]) && (forall|j: int|
                k <= j < i ==> !p(j, s[j])),
        },
    decreases s.len() - k,
{
    if k < s.len() && !p(k, s[k]) {
        lemma_first_where_from(s, p, k + 1);
    }
}

/// The characterization of `first_where`, from the start of the sequence.
pub proof fn lemma_first_where<A>(s: Seq<A>, p: spec_fn(int, A) -> bool)
    ensures
        match first_where(s, p) {
            None => forall|i: int| 0 <= i < s.len() ==> !p(i, s[i]),
            Some(i) => 0 <= i < s.len() && p(i, s[i]) && (forall|j: int|
                0 <= j < i ==> !p(j, s[j])),
        },
{
    lemma_first_where_from(s, p, 0);
}

/// If `p` holds at `i` and nowhere before, then `i` is the first such index.
pub proof fn lemma_first_where_is<A>(s: Seq<A>, p: spec_fn(int, A) -> bool, i: int)
    requires
        0 <= i < s.len(),
        p(i, s[i]),
        forall|j: int| 0 <= j < i ==> !p(j, s[j]),
    ensures
        first_where(s, p) == Some(i),
{
    lemma_first_where(s, p);
    match first_where(s, p) {
        None => {
            assert(!p(i, s[i]));
        },
        Some(f) => {
            if f < i {
                assert(!p(f, s[f]));
            }
            if i < f {
                assert(!p(i, s[i]));
            }
        },
    }
}

/// How many indices `i < k` satisfy `p(i, s[i])`.
pub open spec fn count_where_to<A>(s: Seq<A>, p: spec_fn(int, A) -> bool, k: int) -> nat
    decreases k,
{
    if k <= 0 {
        0
    } else {
        count_where_to(s, p, k - 1) + if p(k - 1, s[k - 1]) {
            1nat
        } else {
            0nat
        }
    }
}

/// How many indices of the whole sequence satisfy `p`.
pub open spec fn count_where<A>(s: Seq<A>, p: spec_fn(int, A) -> bool) -> nat {
    count_where_to(s, p, s.len() as int)
}

/// The count over a prefix never exceeds the prefix's length.
pub proof fn lemma_count_where_to_le<A>(s: Seq<A>, p: spec_fn(int, A) -> bool, k: int)
    requires
        0 <= k,
    ensures
        count_where_to(s, p, k) <= k,
    decreases k,
{
    if k > 0 {
        lemma_count_where_to_le(s, p, k - 1);
    }
}

/// A prefix with count zero has no index satisfying `p`.
pub proof fn lemma_count_where_to_zero<A>(s: Seq<A>, p: spec_fn(int, A) -> bool, k: int)
    requires
        0 <= k <= s.len(),
        count_where_to(s, p, k) == 0,
    ensures
        forall|i: int| 0 <= i < k ==> !p(i, s[i]),
    decreases k,
{
    if k > 0 {
        lemma_count_where_to_zero(s, p, k - 1);
    }
}

} // verus!
