//! Searching small tables that are kept as sequences.

use vstd::prelude::*;

verus! {

/// Whether `i` is the first position of `s` whose entry satisfies `pred`.
pub open spec fn is_first<T>(s: Seq<T>, pred: spec_fn(T) -> bool, i: int) -> bool {
    &&& 0 <= i < s.len()
    &&& pred(s[i])
    &&& forall|j: int| 0 <= j < i ==> !pred(#[trigger] s[j])
}

/// The first position of `s` whose entry satisfies `pred`, if there is one.
pub open spec fn first_index<T>(s: Seq<T>, pred: spec_fn(T) -> bool) -> Option<int> {
    if exists|i: int| is_first(s, pred, i) {
        Some(choose|i: int| is_first(s, pred, i))
    } else {
        None
    }
}

/// The first entry of `s` that satisfies `pred`, if there is one.
pub open spec fn first_match<T>(s: Seq<T>, pred: spec_fn(T) -> bool) -> Option<T> {
    match first_index(s, pred) {
        Some(i) => Some(s[i]),
        None => None,
    }
}

/// The table without its first entry that satisfies `pred`.
pub open spec fn without_first<T>(s: Seq<T>, pred: spec_fn(T) -> bool) -> Seq<T> {
    match first_index(s, pred) {
        Some(i) => s.remove(i),
        None => s,
    }
}

/// The table with `entry` in place of its first entry that satisfies
/// `pred`, or at the end if there is none.
pub open spec fn with_entry<T>(s: Seq<T>, pred: spec_fn(T) -> bool, entry: T) -> Seq<T> {
    match first_index(s, pred) {
        Some(i) => s.update(i, entry),
        None => s.push(entry),
    }
}

/// A position that is the first match is what `first_index` gives.
pub proof fn lemma_first_index_found<T>(s: Seq<T>, pred: spec_fn(T) -> bool, i: int)
    requires
        is_first(s, pred, i),
    ensures
        first_index(s, pred) == Some(i),
{
    let k = choose|k: int| is_first(s, pred, k);
    assert(is_first(s, pred, k));
    if k < i {
        assert(!pred(s[k]));
    }
    if i < k {
        assert(!pred(s[i]));
    }
}

/// Where no entry matches, `first_index` gives nothing.
pub proof fn lemma_first_index_none<T>(s: Seq<T>, pred: spec_fn(T) -> bool)
    requires
        forall|j: int| 0 <= j < s.len() ==> !pred(#[trigger] s[j]),
    ensures
        first_index(s, pred) is None,
{
}

/// What `first_index` gives is a position of the table whose entry matches,
/// and nothing is given only where no entry matches.
pub proof fn lemma_first_index_sound<T>(s: Seq<T>, pred: spec_fn(T) -> bool)
    ensures
        match first_index(s, pred) {
            Some(i) => is_first(s, pred, i),
            None => forall|j: int| 0 <= j < s.len() ==> !pred(#[trigger] s[j]),
        },
{
    if first_index(s, pred) is None {
        assert forall|j: int| 0 <= j < s.len() implies !pred(#[trigger] s[j]) by {
            if pred(s[j]) {
                lemma_some_match_has_first(s, pred, j);
            }
        }
    }
}

/// Where some entry matches, there is a first one that does.
pub proof fn lemma_some_match_has_first<T>(s: Seq<T>, pred: spec_fn(T) -> bool, j: int)
    requires
        0 <= j < s.len(),
        pred(s[j]),
    ensures
        exists|i: int| is_first(s, pred, i),
    decreases j,
{
    if exists|k: int| 0 <= k < j && pred(s[k]) {
        let k = choose|k: int| 0 <= k < j && pred(s[k]);
        lemma_some_match_has_first(s, pred, k);
    } else {
        assert(is_first(s, pred, j));
    }
}

/// Whether no two entries of `s` have the same key.
pub open spec fn distinct_by<T, K>(s: Seq<T>, key: spec_fn(T) -> K) -> bool {
    forall|i: int, j: int| 0 <= i < j < s.len() ==> key(#[trigger] s[i]) != key(#[trigger] s[j])
}

/// Whether `pred` selects exactly the entries whose key is `k`.
pub open spec fn selects<T, K>(pred: spec_fn(T) -> bool, key: spec_fn(T) -> K, k: K) -> bool {
    forall|t: T| #[trigger] pred(t) == (key(t) == k)
}

/// Putting in an entry under its key keeps the keys distinct, makes the
/// entry the one found under that key, and leaves what is found under any
/// other key as it was.
pub proof fn lemma_with_entry<T, K>(
    s: Seq<T>,
    key: spec_fn(T) -> K,
    pred: spec_fn(T) -> bool,
    k: K,
    entry: T,
    pred2: spec_fn(T) -> bool,
    k2: K,
)
    requires
        distinct_by(s, key),
        selects(pred, key, k),
        selects(pred2, key, k2),
        key(entry) == k,
    ensures
        distinct_by(with_entry(s, pred, entry), key),
        first_match(with_entry(s, pred, entry), pred) == Some(entry),
        k2 != k ==> first_match(with_entry(s, pred, entry), pred2) == first_match(s, pred2),
{
    let t = with_entry(s, pred, entry);
    lemma_first_index_sound(s, pred);
    lemma_first_index_sound(s, pred2);
    assert(pred(entry));
    match first_index(s, pred) {
        Some(i) => {
            assert(pred(s[i]) && key(s[i]) == k);
            assert forall|a: int, b: int| 0 <= a < b < t.len() implies key(#[trigger] t[a]) != key(
                #[trigger] t[b],
            ) by {
                assert(key(t[a]) == key(s[a]) && key(t[b]) == key(s[b]));
            }
            assert forall|j: int| 0 <= j < i implies !pred(#[trigger] t[j]) by {
                assert(t[j] == s[j]);
            }
            assert(is_first(t, pred, i));
            lemma_first_index_found(t, pred, i);
            if k2 != k {
                assert(!pred2(entry));
                match first_index(s, pred2) {
                    Some(m) => {
                        assert(pred2(s[m]) && key(s[m]) == k2);
                        assert(m != i);
                        assert(t[m] == s[m]);
                        assert forall|j: int| 0 <= j < m implies !pred2(#[trigger] t[j]) by {
                            if j != i {
                                assert(t[j] == s[j]);
                            }
                        }
                        assert(is_first(t, pred2, m));
                        lemma_first_index_found(t, pred2, m);
                    },
                    None => {
                        assert forall|j: int| 0 <= j < t.len() implies !pred2(#[trigger] t[j]) by {
                            if j != i {
                                assert(t[j] == s[j]);
                            }
                        }
                        lemma_first_index_none(t, pred2);
                    },
                }
            }
        },
        None => {
            let n = s.len() as int;
            assert forall|a: int, b: int| 0 <= a < b < t.len() implies key(#[trigger] t[a]) != key(
                #[trigger] t[b],
            ) by {
                assert(t[a] == s[a]);
                if b < n {
                    assert(t[b] == s[b]);
                } else {
                    assert(!pred(s[a]));
                }
            }
            assert forall|j: int| 0 <= j < n implies !pred(#[trigger] t[j]) by {
                assert(t[j] == s[j]);
            }
            assert(is_first(t, pred, n));
            lemma_first_index_found(t, pred, n);
            if k2 != k {
                assert(!pred2(entry));
                match first_index(s, pred2) {
                    Some(m) => {
                        assert(t[m] == s[m]);
                        assert forall|j: int| 0 <= j < m implies !pred2(#[trigger] t[j]) by {
                            assert(t[j] == s[j]);
                        }
                        assert(is_first(t, pred2, m));
                        lemma_first_index_found(t, pred2, m);
                    },
                    None => {
                        assert forall|j: int| 0 <= j < t.len() implies !pred2(#[trigger] t[j]) by {
                            if j < n {
                                assert(t[j] == s[j]);
                            }
                        }
                        lemma_first_index_none(t, pred2);
                    },
                }
            }
        },
    }
}

/// Taking out the entry under a key keeps the keys distinct, leaves nothing
/// to be found under that key, and leaves what is found under any other key
/// as it was.
pub proof fn lemma_without_first<T, K>(
    s: Seq<T>,
    key: spec_fn(T) -> K,
    pred: spec_fn(T) -> bool,
    k: K,
    pred2: spec_fn(T) -> bool,
    k2: K,
)
    requires
        distinct_by(s, key),
        selects(pred, key, k),
        selects(pred2, key, k2),
    ensures
        distinct_by(without_first(s, pred), key),
        first_match(without_first(s, pred), pred) is None,
        k2 != k ==> first_match(without_first(s, pred), pred2) == first_match(s, pred2),
{
    let t = without_first(s, pred);
    lemma_first_index_sound(s, pred);
    lemma_first_index_sound(s, pred2);
    match first_index(s, pred) {
        Some(i) => {
            assert(pred(s[i]) && key(s[i]) == k);
            assert forall|a: int, b: int| 0 <= a < b < t.len() implies key(#[trigger] t[a]) != key(
                #[trigger] t[b],
            ) by {
                let a0 = if a < i {
                    a
                } else {
                    a + 1
                };
                let b0 = if b < i {
                    b
                } else {
                    b + 1
                };
                assert(t[a] == s[a0] && t[b] == s[b0]);
            }
            assert forall|j: int| 0 <= j < t.len() implies !pred(#[trigger] t[j]) by {
                let j0 = if j < i {
                    j
                } else {
                    j + 1
                };
                assert(t[j] == s[j0]);
                if j0 < i {
                    assert(key(s[j0]) != key(s[i]));
                } else {
                    assert(key(s[i]) != key(s[j0]));
                }
            }
            lemma_first_index_none(t, pred);
            if k2 != k {
                match first_index(s, pred2) {
                    Some(m) => {
                        assert(pred2(s[m]) && key(s[m]) == k2);
                        assert(m != i);
                        let m1 = if m < i {
                            m
                        } else {
                            m - 1
                        };
                        assert(t[m1] == s[m]);
                        assert forall|j: int| 0 <= j < m1 implies !pred2(#[trigger] t[j]) by {
                            let j0 = if j < i {
                                j
                            } else {
                                j + 1
                            };
                            assert(t[j] == s[j0]);
                            if j0 < m {
                                assert(!pred2(s[j0]));
                            } else {
                                assert(key(s[m]) != key(s[j0]));
                            }
                        }
                        assert(is_first(t, pred2, m1));
                        lemma_first_index_found(t, pred2, m1);
                    },
                    None => {
                        assert forall|j: int| 0 <= j < t.len() implies !pred2(#[trigger] t[j]) by {
                            let j0 = if j < i {
                                j
                            } else {
                                j + 1
                            };
                            assert(t[j] == s[j0]);
                        }
                        lemma_first_index_none(t, pred2);
                    },
                }
            }
        },
        None => {},
    }
}

/// Whether every entry of `s` satisfies `p`.
pub open spec fn all_entries<T>(s: Seq<T>, p: spec_fn(T) -> bool) -> bool {
    forall|i: int| 0 <= i < s.len() ==> p(#[trigger] s[i])
}

/// What holds of every entry still holds of every entry after one has been
/// taken out, and after one of which it holds has been put in.
pub proof fn lemma_all_entries_kept<T>(
    s: Seq<T>,
    pred: spec_fn(T) -> bool,
    entry: T,
    p: spec_fn(T) -> bool,
)
    requires
        all_entries(s, p),
    ensures
        all_entries(without_first(s, pred), p),
        p(entry) ==> all_entries(with_entry(s, pred, entry), p),
{
    lemma_first_index_sound(s, pred);
    let t = without_first(s, pred);
    let u = with_entry(s, pred, entry);
    match first_index(s, pred) {
        Some(i) => {
            assert forall|j: int| 0 <= j < t.len() implies p(#[trigger] t[j]) by {
                let j0 = if j < i {
                    j
                } else {
                    j + 1
                };
                assert(t[j] == s[j0]);
            }
            if p(entry) {
                assert forall|j: int| 0 <= j < u.len() implies p(#[trigger] u[j]) by {
                    if j != i {
                        assert(u[j] == s[j]);
                    }
                }
            }
        },
        None => {
            if p(entry) {
                assert forall|j: int| 0 <= j < u.len() implies p(#[trigger] u[j]) by {
                    if j < s.len() {
                        assert(u[j] == s[j]);
                    }
                }
            }
        },
    }
}

} // verus!
