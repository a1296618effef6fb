//! Summing a measure over a sequence of records, with the lemmas the
//! ledger's bookkeeping invariants rest on: appending adds the new record's
//! measure, rewriting one record shifts the sum by the difference, and no
//! single non-negative measure exceeds the whole.

use vstd::prelude::*;

verus! {

/// The sum of `f` over all elements of `s`.
pub open spec fn seq_sum<T>(s: Seq<T>, f: spec_fn(T) -> int) -> int
    decreases s.len(),
{
    if s.len() == 0 {
        0
    } else {
        seq_sum(s.drop_last(), f) + f(s.last())
    }
}

/// Appending an element adds its measure to the sum.
pub proof fn lemma_seq_sum_push<T>(s: Seq<T>, f: spec_fn(T) -> int, e: T)
    ensures
        seq_sum(s.push(e), f) == seq_sum(s, f) + f(e),
{
    assert(s.push(e).drop_last() =~= s);
}

/// Replacing the element at `i` shifts the sum by the measure difference.
pub proof fn lemma_seq_sum_update<T>(s: Seq<T>, f: spec_fn(T) -> int, i: int, e: T)
    requires
        0 <= i < s.len(),
    ensures
        seq_sum(s.update(i, e), f) == seq_sum(s, f) - f(s[i]) + f(e),
    decreases s.len(),
{
    if i == s.len() - 1 {
        assert(s.update(i, e).drop_last() =~= s.drop_last());
    } else {
        assert(s.update(i, e).drop_last() =~= s.drop_last().update(i, e));
        lemma_seq_sum_update(s.drop_last(), f, i, e);
    }
}

/// A sum of non-negative measures is non-negative.
pub proof fn lemma_seq_sum_nonneg<T>(s: Seq<T>, f: spec_fn(T) -> int)
    requires
        forall|j: int| 0 <= j < s.len() ==> f(#[trigger] s[j]) >= 0,
    ensures
        seq_sum(s, f) >= 0,
    decreases s.len(),
{
    if s.len() > 0 {
        lemma_seq_sum_nonneg(s.drop_last(), f);
    }
}

/// With non-negative measures, one element's measure is at most the sum.
pub proof fn lemma_seq_sum_element<T>(s: Seq<T>, f: spec_fn(T) -> int, i: int)
    requires
        0 <= i < s.len(),
        forall|j: int| 0 <= j < s.len() ==> f(#[trigger] s[j]) >= 0,
    ensures
        f(s[i]) <= seq_sum(s, f),
    decreases s.len(),
{
    if i == s.len() - 1 {
        lemma_seq_sum_nonneg(s.drop_last(), f);
    } else {
        lemma_seq_sum_element(s.drop_last(), f, i);
    }
}

} // verus!
