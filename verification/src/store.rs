use vstd::prelude::*;

verus! {

// The entity store is a sequence of keyed entries with pairwise distinct
// keys: an association list read as an abstract mapping. The spec functions
// here are generic in the entry type; a store instantiates them with the
// spec function that projects an entry to its key.

/// All keys in the sequence are pairwise distinct.
pub open spec fn keys_unique<A>(s: Seq<A>, key: spec_fn(A) -> Seq<char>) -> bool {
    forall|a: int, b: int| 0 <= a < b < s.len() ==> key(s[a]) != key(s[b])
}

/// Some entry carries the key `k`.
pub open spec fn has_key<A>(s: Seq<A>, key: spec_fn(A) -> Seq<char>, k: Seq<char>) -> bool {
    exists|i: int| 0 <= i < s.len() && key(s[i]) == k
}

/// The index of the entry carrying `k`; meaningful only when `has_key`
/// holds, and unique when the keys are pairwise distinct.
pub open spec fn key_at<A>(s: Seq<A>, key: spec_fn(A) -> Seq<char>, k: Seq<char>) -> int {
    choose|i: int| 0 <= i < s.len() && key(s[i]) == k
}

/// In a store with distinct keys, an index found to carry `k` is the one
/// `key_at` names.
pub proof fn lemma_found_key_is_at<A>(s: Seq<A>, key: spec_fn(A) -> Seq<char>, k: Seq<char>, i: int)
    requires
        keys_unique(s, key),
        0 <= i < s.len(),
        key(s[i]) == k,
    ensures
        has_key(s, key, k),
        key_at(s, key, k) == i,
{
    assert(has_key(s, key, k));
    let j = key_at(s, key, k);
    if i < j {
        assert(key(s[i]) != key(s[j]));
    } else if j < i {
        assert(key(s[j]) != key(s[i]));
    }
}

/// Appending an entry with a fresh key keeps the keys distinct.
pub proof fn lemma_unique_push<A>(s: Seq<A>, key: spec_fn(A) -> Seq<char>, e: A)
    requires
        keys_unique(s, key),
        !has_key(s, key, key(e)),
    ensures
        keys_unique(s.push(e), key),
{
    let t = s.push(e);
    assert forall|a: int, b: int| 0 <= a < b < t.len() implies key(t[a]) != key(t[b]) by {
        if b == s.len() {
            assert(t[a] == s[a]);
            if key(s[a]) == key(e) {
                assert(has_key(s, key, key(e)));
            }
        } else {
            assert(t[a] == s[a] && t[b] == s[b]);
        }
    }
}

/// Replacing the entry at `i` by one with the same key keeps the keys
/// distinct.
pub proof fn lemma_unique_update<A>(s: Seq<A>, key: spec_fn(A) -> Seq<char>, i: int, e: A)
    requires
        keys_unique(s, key),
        0 <= i < s.len(),
        key(e) == key(s[i]),
    ensures
        keys_unique(s.update(i, e), key),
{
    let t = s.update(i, e);
    assert forall|a: int, b: int| 0 <= a < b < t.len() implies key(t[a]) != key(t[b]) by {
        assert(key(t[a]) == key(s[a]) && key(t[b]) == key(s[b]));
    }
}

/// Removing an entry keeps the keys distinct.
pub proof fn lemma_unique_remove<A>(s: Seq<A>, key: spec_fn(A) -> Seq<char>, i: int)
    requires
        keys_unique(s, key),
        0 <= i < s.len(),
    ensures
        keys_unique(s.remove(i), key),
{
    let t = s.remove(i);
    assert forall|a: int, b: int| 0 <= a < b < t.len() implies key(t[a]) != key(t[b]) by {
        let a0: int = if a < i { a } else { a + 1 };
        let b0: int = if b < i { b } else { b + 1 };
        assert(t[a] == s[a0] && t[b] == s[b0]);
        assert(key(s[a0]) != key(s[b0]));
    }
}

// Storage byte usage is a sum over the entries of the store. The sum is
// defined recursively from the front of the sequence.

/// The sum of `f` over the elements of `s`.
pub open spec fn sum_of<A>(s: Seq<A>, f: spec_fn(A) -> int) -> int
    decreases s.len(),
{
    if s.len() == 0 {
        0
    } else {
        f(s[0]) + sum_of(s.drop_first(), f)
    }
}

/// A sum of non-negative weights is non-negative.
pub proof fn lemma_sum_nonneg<A>(s: Seq<A>, f: spec_fn(A) -> int)
    requires
        forall|a: A| #[trigger] f(a) >= 0,
    ensures
        sum_of(s, f) >= 0,
    decreases s.len(),
{
    if s.len() > 0 {
        lemma_sum_nonneg(s.drop_first(), f);
    }
}

/// Appending an element adds its weight to the sum.
pub proof fn lemma_sum_push<A>(s: Seq<A>, f: spec_fn(A) -> int, e: A)
    ensures
        sum_of(s.push(e), f) == sum_of(s, f) + f(e),
    decreases s.len(),
{
    if s.len() == 0 {
        assert(s.push(e)[0] == e);
        assert(s.push(e).drop_first() =~= Seq::<A>::empty());
        assert(sum_of(s.push(e), f) == f(e) + sum_of(Seq::<A>::empty(), f));
        assert(sum_of(Seq::<A>::empty(), f) == 0);
    } else {
        assert(s.push(e)[0] == s[0]);
        assert(s.push(e).drop_first() =~= s.drop_first().push(e));
        lemma_sum_push(s.drop_first(), f, e);
        assert(sum_of(s.push(e), f) == f(s[0]) + sum_of(s.drop_first().push(e), f));
        assert(sum_of(s, f) == f(s[0]) + sum_of(s.drop_first(), f));
    }
}

/// Replacing the element at `i` shifts the sum by the difference of the
/// weights.
pub proof fn lemma_sum_update<A>(s: Seq<A>, f: spec_fn(A) -> int, i: int, e: A)
    requires
        0 <= i < s.len(),
    ensures
        sum_of(s.update(i, e), f) == sum_of(s, f) - f(s[i]) + f(e),
    decreases s.len(),
{
    if i == 0 {
        assert(s.update(0, e).drop_first() =~= s.drop_first());
    } else {
        assert(s.update(i, e).drop_first() =~= s.drop_first().update(i - 1, e));
        lemma_sum_update(s.drop_first(), f, i - 1, e);
    }
}

/// Removing the element at `i` takes its weight out of the sum.
pub proof fn lemma_sum_remove<A>(s: Seq<A>, f: spec_fn(A) -> int, i: int)
    requires
        0 <= i < s.len(),
    ensures
        sum_of(s.remove(i), f) == sum_of(s, f) - f(s[i]),
    decreases s.len(),
{
    if i == 0 {
        assert(s.remove(0) =~= s.drop_first());
    } else {
        assert(s.remove(i).drop_first() =~= s.drop_first().remove(i - 1));
        lemma_sum_remove(s.drop_first(), f, i - 1);
    }
}

/// With non-negative weights, each element's weight is at most the sum.
pub proof fn lemma_sum_elem_le<A>(s: Seq<A>, f: spec_fn(A) -> int, i: int)
    requires
        forall|a: A| #[trigger] f(a) >= 0,
        0 <= i < s.len(),
    ensures
        f(s[i]) <= sum_of(s, f),
    decreases i,
{
    if i == 0 {
        lemma_sum_nonneg(s.drop_first(), f);
    } else {
        lemma_sum_elem_le(s.drop_first(), f, i - 1);
        assert(f(s[0]) >= 0);
    }
}

} // verus!
