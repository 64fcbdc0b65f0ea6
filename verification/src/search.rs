//! The least index at which a predicate holds.
//!
//! Validation reports the first violation it meets, so the contracts of this
//! crate speak of "the first position at which ..." again and again. This
//! module gives that phrase one meaning.

use vstd::prelude::*;

verus! {

/// The least index in `i..n` at which `p` holds, or `n` where it holds at
/// none of them (`i` itself where the range is empty).
pub open spec fn first_from(i: int, n: int, p: spec_fn(int) -> bool) -> int
    decreases n - i,
{
    if i >= n {
        i
    } else if p(i) {
        i
    } else {
        first_from(i + 1, n, p)
    }
}

/// The least index below `n` at which `p` holds, or `n` where there is none.
pub open spec fn first_index(n: nat, p: spec_fn(int) -> bool) -> int {
    first_from(0, n as int, p)
}

/// `first_from(i, n, p)` lies in `i..=n`, `p` holds at it if it is below `n`,
/// and `p` fails everywhere between `i` and it.
pub proof fn lemma_first_from(i: int, n: int, p: spec_fn(int) -> bool)
    requires
        i <= n,
    ensures
        i <= first_from(i, n, p) <= n,
        first_from(i, n, p) < n ==> p(first_from(i, n, p)),
        forall|j: int| i <= j < first_from(i, n, p) ==> !#[trigger] p(j),
    decreases n - i,
{
    if i < n && !p(i) {
        lemma_first_from(i + 1, n, p);
    }
}

/// `first_index(n, p)` is at most `n`; below `n` it is an index at which `p`
/// holds; and `p` fails at every smaller index.
pub proof fn lemma_first_index(n: nat, p: spec_fn(int) -> bool)
    ensures
        0 <= first_index(n, p) <= n,
        first_index(n, p) < n ==> p(first_index(n, p)),
        forall|j: int| 0 <= j < first_index(n, p) ==> !#[trigger] p(j),
{
    lemma_first_from(0, n as int, p);
}

/// An index at which `p` holds, with `p` failing at every smaller one, is the
/// first index.
pub proof fn lemma_first_index_is(n: nat, p: spec_fn(int) -> bool, k: int)
    requires
        0 <= k < n,
        p(k),
        forall|j: int| 0 <= j < k ==> !#[trigger] p(j),
    ensures
        first_index(n, p) == k,
{
    lemma_first_index(n, p);
}

/// Where `p` fails at every index below `n`, the first index is `n`.
pub proof fn lemma_first_index_none(n: nat, p: spec_fn(int) -> bool)
    requires
        forall|j: int| 0 <= j < n ==> !#[trigger] p(j),
    ensures
        first_index(n, p) == n,
{
    lemma_first_index(n, p);
}

} // verus!
