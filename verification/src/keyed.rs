//! Vectors of `(account, record)` pairs with distinct account keys: the
//! ledger's durable key-to-entity stores, and the lookup they share.

use vstd::prelude::*;

verus! {

/// All account keys in `s` are distinct.
pub open spec fn distinct_keys<T>(s: Seq<(u128, T)>) -> bool {
    forall|i: int, j: int| 0 <= i < j < s.len() ==> s[i].0 != s[j].0
}

/// Some entry of `s` is keyed by `a`.
pub open spec fn has_key<T>(s: Seq<(u128, T)>, a: u128) -> bool {
    exists|j: int| 0 <= j < s.len() && s[j].0 == a
}

/// The position of the entry keyed by `a` (meaningful when `has_key` holds
/// and the keys are distinct).
pub open spec fn key_index<T>(s: Seq<(u128, T)>, a: u128) -> int {
    choose|j: int| 0 <= j < s.len() && s[j].0 == a
}

/// Appending a fresh key keeps the keys distinct.
pub proof fn lemma_push_distinct<T>(s: Seq<(u128, T)>, e: (u128, T))
    requires
        distinct_keys(s),
        !has_key(s, e.0),
    ensures
        distinct_keys(s.push(e)),
{
}

/// Rewriting an entry's record, keeping its key, keeps the keys distinct
/// and the key set unchanged.
pub proof fn lemma_update_same_key<T>(s: Seq<(u128, T)>, i: int, e: (u128, T))
    requires
        distinct_keys(s),
        0 <= i < s.len(),
        s[i].0 == e.0,
    ensures
        distinct_keys(s.update(i, e)),
        forall|a: u128| has_key(s.update(i, e), a) == has_key(s, a),
        has_key(s, e.0) && key_index(s.update(i, e), e.0) == i == key_index(s, e.0),
{
    let t = s.update(i, e);
    assert forall|a: u128| has_key(t, a) == has_key(s, a) by {
        if has_key(t, a) {
            let j = choose|j: int| 0 <= j < t.len() && t[j].0 == a;
            assert(s[j].0 == a);
        }
        if has_key(s, a) {
            let j = choose|j: int| 0 <= j < s.len() && s[j].0 == a;
            assert(t[j].0 == a);
        }
    };
}

/// With distinct keys, any two positions holding key `a` coincide, so
/// `key_index` is the only such position.
pub proof fn lemma_key_index_unique<T>(s: Seq<(u128, T)>, a: u128, i: int)
    requires
        distinct_keys(s),
        0 <= i < s.len(),
        s[i].0 == a,
    ensures
        key_index(s, a) == i,
        has_key(s, a),
{
    assert(0 <= i < s.len() && s[i].0 == a);
    let j = key_index(s, a);
    if j != i {
        if j < i {
            assert(s[j].0 != s[i].0);
        } else {
            assert(s[i].0 != s[j].0);
        }
    }
}

/// Appending an entry with a fresh key leaves every other key's entry
/// where it was.
pub proof fn lemma_entry_lookup_after_push<T>(s: Seq<(u128, T)>, e: (u128, T), b: u128)
    requires
        distinct_keys(s),
        !has_key(s, e.0),
        b != e.0,
    ensures
        has_key(s.push(e), b) == has_key(s, b),
        has_key(s, b) ==> key_index(s.push(e), b) == key_index(s, b) && s.push(e)[key_index(
            s.push(e),
            b,
        )] == s[key_index(s, b)],
{
    let t = s.push(e);
    lemma_push_distinct(s, e);
    if has_key(t, b) {
        let j = key_index(t, b);
        assert(t[j].0 == b);
        assert(j < s.len() && s[j].0 == b);
        lemma_key_index_unique(s, b, j);
    }
    if has_key(s, b) {
        let j = key_index(s, b);
        assert(s[j].0 == b);
        assert(t[j].0 == b);
        lemma_key_index_unique(t, b, j);
    }
}

/// Rewriting one entry, keeping its key, leaves every other key's entry
/// where it was.
pub proof fn lemma_entry_lookup_after_update<T>(s: Seq<(u128, T)>, i: int, e: (u128, T), b: u128)
    requires
        distinct_keys(s),
        0 <= i < s.len(),
        s[i].0 == e.0,
        b != e.0,
    ensures
        has_key(s.update(i, e), b) == has_key(s, b),
        has_key(s, b) ==> key_index(s.update(i, e), b) == key_index(s, b) && s.update(i, e)[
            key_index(s.update(i, e), b)] == s[key_index(s, b)],
{
    let t = s.update(i, e);
    lemma_update_same_key(s, i, e);
    if has_key(t, b) {
        let j = key_index(t, b);
        assert(t[j].0 == b);
        assert(j != i);
        assert(s[j].0 == b);
        lemma_key_index_unique(s, b, j);
    }
    if has_key(s, b) {
        let j = key_index(s, b);
        assert(s[j].0 == b);
        assert(j != i);
        assert(t[j].0 == b);
        lemma_key_index_unique(t, b, j);
    }
}

/// Linear search for the entry keyed by `a`.
pub fn find_key<T>(v: &Vec<(u128, T)>, a: u128) -> (r: Option<usize>)
    ensures
        match r {
            Some(i) => i < v@.len() && v@[i as int].0 == a && has_key(v@, a),
            None => !has_key(v@, a),
        },
{
    let mut i: usize = 0;
    while i < v.len()
        invariant
            i <= v@.len(),
            forall|j: int| 0 <= j < i ==> (#[trigger] v@[j]).0 != a,
        decreases v@.len() - i,
    {
        if v[i].0 == a {
            return Some(i);
        }
        i = i + 1;
    }
    None
}

} // verus!
