//! Sequence facts shared by the collections of the library: keeping the elements
//! that satisfy a predicate, and keys that occur at most once.

use vstd::prelude::*;

verus! {

/// The elements of `s` that satisfy `p`, in order.
pub open spec fn keep<A>(s: Seq<A>, p: spec_fn(A) -> bool) -> Seq<A>
    decreases s.len(),
{
    if s.len() == 0 {
        s
    } else {
        let r = keep(s.drop_last(), p);
        if p(s.last()) {
            r.push(s.last())
        } else {
            r
        }
    }
}

/// No two elements of `s` share a key.
pub open spec fn unique_by<A>(s: Seq<A>, key: spec_fn(A) -> Seq<char>) -> bool {
    forall|i: int, j: int| 0 <= i < s.len() && 0 <= j < s.len() && i != j ==> key(s[i]) != key(s[j])
}

/// Some element of `s` has key `k`.
pub open spec fn has_key<A>(s: Seq<A>, key: spec_fn(A) -> Seq<char>, k: Seq<char>) -> bool {
    exists|i: int| 0 <= i < s.len() && key(s[i]) == k
}

/// The position of the element with key `k` (meaningful where `has_key`).
pub open spec fn key_index<A>(s: Seq<A>, key: spec_fn(A) -> Seq<char>, k: Seq<char>) -> int {
    choose|i: int| 0 <= i < s.len() && key(s[i]) == k
}

/// Membership in a sequence with one more element at its end.
pub proof fn lemma_push_contains<A>(r: Seq<A>, e: A, x: A)
    ensures
        r.push(e).contains(x) <==> (r.contains(x) || x == e),
{
    let t = r.push(e);
    if t.contains(x) {
        let i = choose|i: int| 0 <= i < t.len() && t[i] == x;
        if i < r.len() {
            assert(r[i] == x);
        }
    }
    if r.contains(x) {
        let i = choose|i: int| 0 <= i < r.len() && r[i] == x;
        assert(t[i] == x);
    }
    if x == e {
        assert(t[r.len() as int] == x);
    }
}

/// An element is kept exactly when it occurs and satisfies the predicate.
pub proof fn lemma_keep_contains<A>(s: Seq<A>, p: spec_fn(A) -> bool, x: A)
    ensures
        keep(s, p).contains(x) <==> (s.contains(x) && p(x)),
        keep(s, p).len() <= s.len(),
    decreases s.len(),
{
    if s.len() > 0 {
        lemma_keep_contains(s.drop_last(), p, x);
        assert(s =~= s.drop_last().push(s.last()));
        if p(s.last()) {
            lemma_push_contains(keep(s.drop_last(), p), s.last(), x);
        }
        lemma_push_contains(s.drop_last(), s.last(), x);
    }
}

/// Keeping elements keeps keys unique.
pub proof fn lemma_keep_unique<A>(s: Seq<A>, p: spec_fn(A) -> bool, key: spec_fn(A) -> Seq<char>)
    requires
        unique_by(s, key),
    ensures
        unique_by(keep(s, p), key),
    decreases s.len(),
{
    if s.len() > 0 {
        let d = s.drop_last();
        assert(unique_by(d, key)) by {
            assert forall|i: int, j: int|
                0 <= i < d.len() && 0 <= j < d.len() && i != j implies key(d[i]) != key(d[j]) by {
                assert(d[i] == s[i] && d[j] == s[j]);
            }
        }
        lemma_keep_unique(d, p, key);
        let r = keep(d, p);
        if p(s.last()) {
            let t = r.push(s.last());
            assert forall|i: int, j: int|
                0 <= i < t.len() && 0 <= j < t.len() && i != j implies key(t[i]) != key(t[j]) by {
                if i < r.len() && j < r.len() {
                    assert(t[i] == r[i] && t[j] == r[j]);
                } else if i < r.len() {
                    assert(t[i] == r[i]);
                    lemma_keep_contains(d, p, r[i]);
                    assert(r.contains(r[i]));
                    let m = choose|m: int| 0 <= m < d.len() && d[m] == r[i];
                    assert(s[m] == d[m]);
                    assert(s[s.len() - 1] == s.last());
                } else {
                    assert(t[j] == r[j]);
                    lemma_keep_contains(d, p, r[j]);
                    assert(r.contains(r[j]));
                    let m = choose|m: int| 0 <= m < d.len() && d[m] == r[j];
                    assert(s[m] == d[m]);
                    assert(s[s.len() - 1] == s.last());
                }
            }
        }
    }
}

/// Appending an element whose key is new keeps keys unique.
pub proof fn lemma_push_unique<A>(s: Seq<A>, key: spec_fn(A) -> Seq<char>, x: A)
    requires
        unique_by(s, key),
        !has_key(s, key, key(x)),
    ensures
        unique_by(s.push(x), key),
{
    let t = s.push(x);
    assert forall|i: int, j: int|
        0 <= i < t.len() && 0 <= j < t.len() && i != j implies key(t[i]) != key(t[j]) by {
        if i < s.len() && j < s.len() {
            assert(t[i] == s[i] && t[j] == s[j]);
        } else if i < s.len() {
            assert(t[i] == s[i]);
        } else {
            assert(t[j] == s[j]);
        }
    }
}

/// Replacing an element by one with the same key keeps keys unique.
pub proof fn lemma_update_unique<A>(s: Seq<A>, key: spec_fn(A) -> Seq<char>, k: int, x: A)
    requires
        unique_by(s, key),
        0 <= k < s.len(),
        key(x) == key(s[k]),
    ensures
        unique_by(s.update(k, x), key),
{
    let t = s.update(k, x);
    assert forall|i: int, j: int|
        0 <= i < t.len() && 0 <= j < t.len() && i != j implies key(t[i]) != key(t[j]) by {
        assert(key(t[i]) == key(s[i]));
        assert(key(t[j]) == key(s[j]));
    }
}

/// With unique keys, the element with a given key is found at `key_index`.
pub proof fn lemma_key_index_unique<A>(s: Seq<A>, key: spec_fn(A) -> Seq<char>, i: int)
    requires
        unique_by(s, key),
        0 <= i < s.len(),
    ensures
        has_key(s, key, key(s[i])),
        key_index(s, key, key(s[i])) == i,
{
    let k = key_index(s, key, key(s[i]));
    assert(has_key(s, key, key(s[i])));
    if k != i {
        assert(key(s[k]) != key(s[i]));
    }
}

/// Removing an element keeps keys unique.
pub proof fn lemma_remove_unique<A>(s: Seq<A>, key: spec_fn(A) -> Seq<char>, k: int)
    requires
        unique_by(s, key),
        0 <= k < s.len(),
    ensures
        unique_by(s.remove(k), key),
        !has_key(s.remove(k), key, key(s[k])),
{
    let t = s.remove(k);
    assert forall|a: int, b: int|
        0 <= a < t.len() && 0 <= b < t.len() && a != b implies key(t[a]) != key(t[b]) by {
        let a2 = if a < k { a } else { a + 1 };
        let b2 = if b < k { b } else { b + 1 };
        assert(t[a] == s[a2]);
        assert(t[b] == s[b2]);
    }
    if has_key(t, key, key(s[k])) {
        let j = choose|j: int| 0 <= j < t.len() && key(t[j]) == key(s[k]);
        let j2 = if j < k { j } else { j + 1 };
        assert(t[j] == s[j2]);
    }
}

} // verus!

verus! {

/// Two predicates that agree on every element of `s` keep the same elements.
pub proof fn lemma_keep_ext<A>(s: Seq<A>, p: spec_fn(A) -> bool, q: spec_fn(A) -> bool)
    requires
        forall|i: int| 0 <= i < s.len() ==> p(#[trigger] s[i]) == q(s[i]),
    ensures
        keep(s, p) == keep(s, q),
    decreases s.len(),
{
    if s.len() > 0 {
        let d = s.drop_last();
        assert forall|i: int| 0 <= i < d.len() implies p(#[trigger] d[i]) == q(d[i]) by {
            assert(d[i] == s[i]);
        }
        lemma_keep_ext(d, p, q);
        assert(p(s[s.len() - 1]) == q(s[s.len() - 1]));
    }
}

/// Keeping elements never lengthens a sequence.
pub proof fn lemma_keep_len<A>(s: Seq<A>, p: spec_fn(A) -> bool)
    ensures
        keep(s, p).len() <= s.len(),
    decreases s.len(),
{
    if s.len() > 0 {
        lemma_keep_len(s.drop_last(), p);
    }
}

} // verus!
