//! A structural total order shared by every consensus-relevant value.
//!
//! Each value is mapped to a `Key`, a tree of integers, and two values are
//! ordered by comparing their keys: variant rank first, then field by field,
//! sequences element by element with a proper prefix ordered first.

use vstd::prelude::*;

verus! {

/// Result of comparing two values.
#[derive(Clone, Copy, Debug, PartialEq, Eq, Structural)]
pub enum Order {
    Less,
    Equal,
    Greater,
}

/// Structural content of a value: an integer leaf, or a list of keys.
pub enum Key {
    Nil,
    Num(int),
    Cons(Box<Key>, Box<Key>),
}

/// The key with head `head` followed by the list `tail`.
pub open spec fn cons(head: Key, tail: Key) -> Key {
    Key::Cons(Box::new(head), Box::new(tail))
}

/// Key of a record with one field.
pub open spec fn list1(a: Key) -> Key {
    cons(a, Key::Nil)
}

/// Key of a record with two fields.
pub open spec fn list2(a: Key, b: Key) -> Key {
    cons(a, list1(b))
}

/// Key of a record with three fields.
pub open spec fn list3(a: Key, b: Key, c: Key) -> Key {
    cons(a, list2(b, c))
}

/// Key of a record with four fields.
pub open spec fn list4(a: Key, b: Key, c: Key, d: Key) -> Key {
    cons(a, list3(b, c, d))
}

/// Key of a record with five fields.
pub open spec fn list5(a: Key, b: Key, c: Key, d: Key, e: Key) -> Key {
    cons(a, list4(b, c, d, e))
}

/// Key of a sequence: the list of its elements' keys.
pub open spec fn seq_key<T>(s: Seq<T>, f: spec_fn(T) -> Key) -> Key
    decreases s.len(),
{
    if s.len() == 0 {
        Key::Nil
    } else {
        cons(f(s[0]), seq_key(s.skip(1), f))
    }
}

/// Order of two integers.
pub open spec fn int_order(a: int, b: int) -> Order {
    if a < b {
        Order::Less
    } else if a == b {
        Order::Equal
    } else {
        Order::Greater
    }
}

/// The first comparison decides unless it is `Equal`; then the second does.
pub open spec fn lex(first: Order, second: Order) -> Order {
    if first != Order::Equal {
        first
    } else {
        second
    }
}

/// The order seen from the other side.
pub open spec fn flip(o: Order) -> Order {
    match o {
        Order::Less => Order::Greater,
        Order::Equal => Order::Equal,
        Order::Greater => Order::Less,
    }
}

/// The structural order on keys. The empty list comes before everything
/// else, an integer before a non-empty list; integers go by value and lists
/// lexicographically.
pub open spec fn key_order(a: Key, b: Key) -> Order
    decreases a,
{
    match (a, b) {
        (Key::Nil, Key::Nil) => Order::Equal,
        (Key::Nil, _) => Order::Less,
        (_, Key::Nil) => Order::Greater,
        (Key::Num(x), Key::Num(y)) => int_order(x, y),
        (Key::Num(_), Key::Cons(_, _)) => Order::Less,
        (Key::Cons(_, _), Key::Num(_)) => Order::Greater,
        (Key::Cons(h1, t1), Key::Cons(h2, t2)) => lex(key_order(*h1, *h2), key_order(*t1, *t2)),
    }
}

/// Two keys compare `Equal` exactly when they are the same key.
pub proof fn lemma_key_order_equal(a: Key, b: Key)
    ensures
        key_order(a, b) == Order::Equal <==> a == b,
    decreases a,
{
    match (a, b) {
        (Key::Cons(h1, t1), Key::Cons(h2, t2)) => {
            lemma_key_order_equal(*h1, *h2);
            lemma_key_order_equal(*t1, *t2);
        },
        _ => {},
    }
}

/// Swapping the arguments flips the result.
pub proof fn lemma_key_order_flip(a: Key, b: Key)
    ensures
        key_order(b, a) == flip(key_order(a, b)),
    decreases a,
{
    match (a, b) {
        (Key::Cons(h1, t1), Key::Cons(h2, t2)) => {
            lemma_key_order_flip(*h1, *h2);
            lemma_key_order_flip(*t1, *t2);
        },
        _ => {},
    }
}

/// The order is transitive: from `a <= b` and `b <= c` follows `a <= c`, and
/// `a < c` as soon as one of the two steps is strict.
pub proof fn lemma_key_order_transitive(a: Key, b: Key, c: Key)
    requires
        key_order(a, b) != Order::Greater,
        key_order(b, c) != Order::Greater,
    ensures
        key_order(a, c) != Order::Greater,
        key_order(a, b) == Order::Less || key_order(b, c) == Order::Less ==> key_order(a, c)
            == Order::Less,
    decreases a,
{
    lemma_key_order_equal(a, b);
    lemma_key_order_equal(b, c);
    lemma_key_order_equal(a, c);
    match (a, b, c) {
        (Key::Cons(h1, t1), Key::Cons(h2, t2), Key::Cons(h3, t3)) => {
            lemma_key_order_equal(*h1, *h2);
            lemma_key_order_equal(*h2, *h3);
            lemma_key_order_equal(*h1, *h3);
            lemma_key_order_transitive(*h1, *h2, *h3);
            if key_order(*h1, *h2) == Order::Equal && key_order(*h2, *h3) == Order::Equal {
                lemma_key_order_transitive(*t1, *t2, *t3);
            }
        },
        _ => {},
    }
}

/// Whether each element of `s` comes strictly before every later one.
pub open spec fn strictly_increasing<T>(s: Seq<T>, f: spec_fn(T) -> Key) -> bool {
    forall|i: int, j: int|
        0 <= i < j < s.len() ==> key_order(f(#[trigger] s[i]), f(#[trigger] s[j])) == Order::Less
}

/// Sequences with the same key are the same sequence, provided the
/// elements' own keys tell them apart.
pub proof fn lemma_seq_key_injective<T>(a: Seq<T>, b: Seq<T>, f: spec_fn(T) -> Key)
    requires
        seq_key(a, f) == seq_key(b, f),
        forall|x: T, y: T| #[trigger] f(x) == #[trigger] f(y) ==> x == y,
    ensures
        a == b,
    decreases a.len(),
{
    if a.len() == 0 {
        if b.len() != 0 {
            assert(seq_key(b, f) == cons(f(b[0]), seq_key(b.skip(1), f)));
        }
        assert(a =~= b);
    } else {
        assert(seq_key(a, f) == cons(f(a[0]), seq_key(a.skip(1), f)));
        if b.len() == 0 {
            assert(seq_key(b, f) == Key::Nil);
        } else {
            assert(seq_key(b, f) == cons(f(b[0]), seq_key(b.skip(1), f)));
            assert(f(a[0]) == f(b[0]));
            lemma_seq_key_injective(a.skip(1), b.skip(1), f);
            assert(a =~= seq![a[0]] + a.skip(1));
            assert(b =~= seq![b[0]] + b.skip(1));
        }
    }
}

/// Unfolds the key of a non-empty suffix of a sequence.
pub proof fn lemma_seq_key_step<T>(s: Seq<T>, f: spec_fn(T) -> Key, i: int)
    requires
        0 <= i < s.len(),
    ensures
        seq_key(s.skip(i), f) == cons(f(s[i]), seq_key(s.skip(i + 1), f)),
{
    assert(s.skip(i).skip(1) =~= s.skip(i + 1));
}

/// A set has only one strictly increasing arrangement: two strictly
/// increasing sequences with the same elements are the same sequence.
pub proof fn lemma_strictly_increasing_unique<T>(a: Seq<T>, b: Seq<T>, f: spec_fn(T) -> Key)
    requires
        strictly_increasing(a, f),
        strictly_increasing(b, f),
        a.to_set() == b.to_set(),
    ensures
        a == b,
    decreases a.len(),
{
    if a.len() == 0 {
        if b.len() != 0 {
            assert(b.contains(b[0]));
            assert(b.to_set().contains(b[0]));
            assert(a.contains(b[0]));
        }
        assert(a =~= b);
    } else {
        assert(a.contains(a[0]));
        assert(a.to_set().contains(a[0]));
        assert(b.contains(a[0]));
        let j = choose|j: int| 0 <= j < b.len() && b[j] == a[0];
        assert(b.contains(b[0]));
        assert(b.to_set().contains(b[0]));
        assert(a.contains(b[0]));
        let i = choose|i: int| 0 <= i < a.len() && a[i] == b[0];
        if i > 0 && j > 0 {
            lemma_key_order_transitive(f(a[0]), f(a[i]), f(b[j]));
            lemma_key_order_equal(f(a[0]), f(a[0]));
        }
        assert(a[0] == b[0]);
        let ta = a.skip(1);
        let tb = b.skip(1);
        assert forall|x: T| ta.to_set().contains(x) == tb.to_set().contains(x) by {
            lemma_key_order_equal(f(x), f(x));
            if ta.contains(x) {
                let k = choose|k: int| 0 <= k < ta.len() && ta[k] == x;
                assert(a[k + 1] == x);
                assert(a.contains(x));
                assert(a.to_set().contains(x));
                assert(b.contains(x));
                let m = choose|m: int| 0 <= m < b.len() && b[m] == x;
                assert(key_order(f(a[0]), f(a[k + 1])) == Order::Less);
                assert(m != 0);
                assert(tb[m - 1] == x);
            }
            if tb.contains(x) {
                let k = choose|k: int| 0 <= k < tb.len() && tb[k] == x;
                assert(b[k + 1] == x);
                assert(b.contains(x));
                assert(b.to_set().contains(x));
                assert(a.contains(x));
                let m = choose|m: int| 0 <= m < a.len() && a[m] == x;
                assert(key_order(f(b[0]), f(b[k + 1])) == Order::Less);
                assert(m != 0);
                assert(ta[m - 1] == x);
            }
        }
        assert(ta.to_set() =~= tb.to_set());
        assert forall|p: int, q: int| 0 <= p < q < ta.len() implies key_order(
            f(#[trigger] ta[p]),
            f(#[trigger] ta[q]),
        ) == Order::Less by {
            assert(ta[p] == a[p + 1] && ta[q] == a[q + 1]);
        }
        assert forall|p: int, q: int| 0 <= p < q < tb.len() implies key_order(
            f(#[trigger] tb[p]),
            f(#[trigger] tb[q]),
        ) == Order::Less by {
            assert(tb[p] == b[p + 1] && tb[q] == b[q + 1]);
        }
        lemma_strictly_increasing_unique(ta, tb, f);
        assert(a =~= seq![a[0]] + ta);
        assert(b =~= seq![b[0]] + tb);
    }
}

/// Compares two integers.
pub fn compare_u64(a: u64, b: u64) -> (r: Order)
    ensures
        r == int_order(a as int, b as int),
{
    if a < b {
        Order::Less
    } else if a == b {
        Order::Equal
    } else {
        Order::Greater
    }
}

} // verus!
