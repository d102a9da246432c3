//! Ordering: the dictionary order of texts, and sorting that keeps equal items in their order.

use vstd::prelude::*;
use crate::text::{chars_of, texts};

verus! {

/// Dictionary order of texts by the code points of their characters. A proper prefix comes first.
pub open spec fn text_le(a: Seq<char>, b: Seq<char>) -> bool
    decreases a.len(),
{
    if a.len() == 0 {
        true
    } else if b.len() == 0 {
        false
    } else if a[0] == b[0] {
        text_le(a.drop_first(), b.drop_first())
    } else {
        a[0] < b[0]
    }
}

/// Of two texts, one comes first or both are in either order.
pub proof fn text_order_is_total(a: Seq<char>, b: Seq<char>)
    ensures
        text_le(a, b) || text_le(b, a),
    decreases a.len(),
{
    if a.len() > 0 && b.len() > 0 && a[0] == b[0] {
        text_order_is_total(a.drop_first(), b.drop_first());
    }
}

/// Texts that come before each other are the same text.
pub proof fn text_order_is_antisymmetric(a: Seq<char>, b: Seq<char>)
    requires
        text_le(a, b),
        text_le(b, a),
    ensures
        a == b,
    decreases a.len(),
{
    if a.len() > 0 && b.len() > 0 {
        assert(a[0] == b[0]);
        text_order_is_antisymmetric(a.drop_first(), b.drop_first());
        assert(a =~= seq![a[0]] + a.drop_first());
        assert(b =~= seq![b[0]] + b.drop_first());
    } else {
        assert(a =~= b);
    }
}

/// The order of texts carries over: what comes before the middle one comes before the last.
pub proof fn text_order_is_transitive(a: Seq<char>, b: Seq<char>, c: Seq<char>)
    requires
        text_le(a, b),
        text_le(b, c),
    ensures
        text_le(a, c),
    decreases a.len(),
{
    if a.len() > 0 && b.len() > 0 && c.len() > 0 && a[0] == b[0] && b[0] == c[0] {
        text_order_is_transitive(a.drop_first(), b.drop_first(), c.drop_first());
    }
}

/// Tests whether a text comes before another, or is the same.
pub fn text_before(a: &str, b: &str) -> (r: bool)
    ensures
        r == text_le(a@, b@),
{
    let x: Vec<char> = chars_of(a);
    let y: Vec<char> = chars_of(b);
    let mut i: usize = 0;
    assert(x@.skip(0) =~= x@);
    assert(y@.skip(0) =~= y@);
    loop
        invariant
            i <= x@.len(),
            i <= y@.len(),
            x@ == a@,
            y@ == b@,
            text_le(a@, b@) == text_le(x@.skip(i as int), y@.skip(i as int)),
        decreases x@.len() - i,
    {
        if i == x.len() {
            return true;
        }
        if i == y.len() {
            return false;
        }
        assert(x@.skip(i as int).drop_first() =~= x@.skip(i as int + 1));
        assert(y@.skip(i as int).drop_first() =~= y@.skip(i as int + 1));
        if x[i] != y[i] {
            return x[i] < y[i];
        }
        i = i + 1;
    }
}

/// Whether texts stand in dictionary order.
pub open spec fn is_sorted(v: Seq<Seq<char>>) -> bool {
    forall|i: int, j: int| 0 <= i <= j < v.len() ==> text_le(#[trigger] v[i], #[trigger] v[j])
}

/// Whether `r` holds the items of `v` in dictionary order.
pub open spec fn is_sorting_of(r: Seq<Seq<char>>, v: Seq<Seq<char>>) -> bool {
    &&& is_sorted(r)
    &&& r.to_multiset() == v.to_multiset()
}

/// Two sortings of the same texts are the same.
pub proof fn sorting_is_unique(a: Seq<Seq<char>>, b: Seq<Seq<char>>)
    requires
        is_sorted(a),
        is_sorted(b),
        a.to_multiset() == b.to_multiset(),
    ensures
        a == b,
    decreases a.len(),
{
    broadcast use vstd::seq_lib::group_to_multiset_ensures;

    assert(a.len() == a.to_multiset().len());
    assert(b.len() == b.to_multiset().len());
    if a.len() == 0 {
        assert(a =~= b);
    } else {
        assert(a.contains(a[0]));
        assert(b.contains(b[0]));
        assert(b.to_multiset().count(a[0]) > 0);
        assert(a.to_multiset().count(b[0]) > 0);
        assert(b.contains(a[0]));
        assert(a.contains(b[0]));
        let i = choose|i: int| 0 <= i < b.len() && b[i] == a[0];
        let j = choose|j: int| 0 <= j < a.len() && a[j] == b[0];
        assert(text_le(a[0], a[j]));
        assert(text_le(b[0], b[i]));
        text_order_is_antisymmetric(a[0], b[0]);
        assert(a.remove(0) =~= a.drop_first());
        assert(b.remove(0) =~= b.drop_first());
        assert forall|x: int, y: int|
            0 <= x <= y < a.drop_first().len() implies text_le(
            #[trigger] a.drop_first()[x],
            #[trigger] a.drop_first()[y],
        ) by {
            assert(text_le(a[x + 1], a[y + 1]));
        }
        assert forall|x: int, y: int|
            0 <= x <= y < b.drop_first().len() implies text_le(
            #[trigger] b.drop_first()[x],
            #[trigger] b.drop_first()[y],
        ) by {
            assert(text_le(b[x + 1], b[y + 1]));
        }
        sorting_is_unique(a.drop_first(), b.drop_first());
        assert(a =~= seq![a[0]] + a.drop_first());
        assert(b =~= seq![b[0]] + b.drop_first());
    }
}

/// Sorts texts in dictionary order.
pub fn sort_texts(v: &[String]) -> (r: Vec<String>)
    ensures
        is_sorting_of(texts(r@), texts(v@)),
{
    let n: usize = v.len();
    let mut out: Vec<String> = Vec::new();
    let mut i: usize = 0;
    assert(texts(out@) =~= texts(v@).take(0));
    while i < n
        invariant
            n == v@.len(),
            i <= n,
            is_sorted(texts(out@)),
            texts(out@).to_multiset() == texts(v@).take(i as int).to_multiset(),
        decreases n - i,
    {
        let item: String = v[i].clone();
        let mut at: usize = out.len();
        while at > 0 && !text_before(out[at - 1].as_str(), item.as_str())
            invariant
                at <= out@.len(),
                forall|k: int| at <= k < out@.len() ==> !text_le(out@[k]@, item@),
            decreases at,
        {
            at = at - 1;
        }
        let ghost before = texts(out@);
        proof {
            assert forall|k: int| 0 <= k < at implies text_le(#[trigger] before[k], item@) by {
                text_order_is_transitive(before[k], before[at - 1], item@);
            }
            assert forall|k: int| at <= k < before.len() implies text_le(
                item@,
                #[trigger] before[k],
            ) by {
                text_order_is_total(item@, before[k]);
            }
            text_order_is_total(item@, item@);
        }
        out.insert(at, item);
        proof {
            assert(texts(out@) =~= before.insert(at as int, item@));
            vstd::seq_lib::to_multiset_insert(before, at as int, item@);
            vstd::seq_lib::to_multiset_build(texts(v@).take(i as int), item@);
            assert(texts(v@).take(i as int + 1) =~= texts(v@).take(i as int).push(item@));
            assert forall|x: int, y: int|
                0 <= x <= y < texts(out@).len() implies text_le(
                #[trigger] texts(out@)[x],
                #[trigger] texts(out@)[y],
            ) by {
                if x < at && y > at {
                    assert(text_le(before[x], before[y - 1]));
                } else if x > at {
                    assert(text_le(before[x - 1], before[y - 1]));
                }
            }
        }
        i = i + 1;
    }
    assert(texts(v@).take(n as int) =~= texts(v@));
    out
}



/// Keys that items are sorted by.
pub trait SortKey: Sized {
    /// Whether a key comes before another, or is level with it.
    spec fn le(self, other: Self) -> bool;

    proof fn le_is_total(a: Self, b: Self)
        ensures
            a.le(b) || b.le(a),
    ;

    proof fn le_is_transitive(a: Self, b: Self, c: Self)
        requires
            a.le(b),
            b.le(c),
        ensures
            a.le(c),
    ;

    /// Tests whether a key comes before another, or is level with it.
    fn before(&self, other: &Self) -> (r: bool)
        ensures
            r == self.le(*other),
    ;
}

impl SortKey for u64 {
    open spec fn le(self, other: Self) -> bool {
        self <= other
    }

    proof fn le_is_total(a: Self, b: Self) {
    }

    proof fn le_is_transitive(a: Self, b: Self, c: Self) {
    }

    fn before(&self, other: &Self) -> (r: bool) {
        *self <= *other
    }
}

impl SortKey for String {
    open spec fn le(self, other: Self) -> bool {
        text_le(self@, other@)
    }

    proof fn le_is_total(a: Self, b: Self) {
        text_order_is_total(a@, b@);
    }

    proof fn le_is_transitive(a: Self, b: Self, c: Self) {
        text_order_is_transitive(a@, b@, c@);
    }

    fn before(&self, other: &Self) -> (r: bool) {
        text_before(self.as_str(), other.as_str())
    }
}

/// Whether `order` lists the positions of `keys`, each once, by ascending key, and level keys by
/// ascending position.
pub open spec fn is_stable_order<K: SortKey>(order: Seq<usize>, keys: Seq<K>) -> bool {
    &&& order.len() == keys.len()
    &&& order.no_duplicates()
    &&& forall|i: int| 0 <= i < order.len() ==> #[trigger] order[i] < keys.len()
    &&& forall|i: int, j: int|
        0 <= i < j < order.len() ==> keys[#[trigger] order[i] as int].le(
            keys[#[trigger] order[j] as int],
        )
    &&& forall|i: int, j: int|
        0 <= i < j < order.len() && keys[order[j] as int].le(keys[order[i] as int])
            ==> #[trigger] order[i] < #[trigger] order[j]
}

/// Sorts the positions of keys by ascending key, level keys by ascending position.
pub fn stable_order<K: SortKey>(keys: &Vec<K>) -> (r: Vec<usize>)
    ensures
        is_stable_order(r@, keys@),
{
    let n: usize = keys.len();
    let mut out: Vec<usize> = Vec::new();
    let mut i: usize = 0;
    assert(keys@.take(0) =~= seq![]);
    while i < n
        invariant
            n == keys@.len(),
            i <= n,
            is_stable_order(out@, keys@.take(i as int)),
        decreases n - i,
    {
        let mut at: usize = out.len();
        let ghost before = out@;
        let ghost seen = keys@.take(i as int);
        let ghost next = keys@.take(i as int + 1);
        assert(forall|k: int| 0 <= k < seen.len() ==> #[trigger] next[k] == seen[k]);
        while at > 0 && !keys[out[at - 1]].before(&keys[i])
            invariant
                out@ == before,
                i < n == keys@.len(),
                seen == keys@.take(i as int),
                is_stable_order(out@, seen),
                at <= out@.len(),
                forall|k: int|
                    at <= k < out@.len() ==> !keys@[#[trigger] out@[k] as int].le(keys@[i as int]),
            decreases at,
        {
            at = at - 1;
        }
        proof {
            assert forall|k: int| 0 <= k < at implies next[#[trigger] before[k] as int].le(
                next[i as int],
            ) by {
                if k < at - 1 {
                    assert(seen[before[k] as int].le(seen[before[at - 1] as int]));
                    K::le_is_transitive(
                        next[before[k] as int],
                        next[before[at - 1] as int],
                        next[i as int],
                    );
                }
            }
            assert forall|k: int| at <= k < before.len() implies next[i as int].le(
                next[#[trigger] before[k] as int],
            ) by {
                K::le_is_total(next[before[k] as int], next[i as int]);
            }
        }
        out.insert(at, i);
        proof {
            assert(out@ =~= before.insert(at as int, i));
            assert forall|x: int| 0 <= x < out@.len() implies #[trigger] out@[x] < next.len() by {
                if x < at {
                    assert(out@[x] == before[x]);
                } else if x > at {
                    assert(out@[x] == before[x - 1]);
                }
            }
            assert forall|x: int, y: int| 0 <= x < out@.len() && 0 <= y < out@.len() && x != y
                implies #[trigger] out@[x] != #[trigger] out@[y] by {
                let p = if x < at { x } else { x - 1 };
                let q = if y < at { y } else { y - 1 };
                if x != at && y != at {
                    assert(before[p] != before[q]);
                } else if x == at {
                    assert(before[q] < i);
                } else {
                    assert(before[p] < i);
                }
            }
            assert forall|x: int, y: int| 0 <= x < y < out@.len() implies next[#[trigger] out@[x] as int].le(
                next[#[trigger] out@[y] as int],
            ) by {
                let p = if x < at { x } else { x - 1 };
                let q = if y < at { y } else { y - 1 };
                if x != at && y != at {
                    assert(seen[before[p] as int].le(seen[before[q] as int]));
                } else if x == at {
                    assert(next[i as int].le(next[before[q] as int]));
                } else {
                    assert(next[before[p] as int].le(next[i as int]));
                }
            }
            assert forall|x: int, y: int| 0 <= x < y < out@.len() && next[out@[y] as int].le(
                next[out@[x] as int],
            ) implies #[trigger] out@[x] < #[trigger] out@[y] by {
                let p = if x < at { x } else { x - 1 };
                let q = if y < at { y } else { y - 1 };
                if x != at && y != at {
                    assert(seen[before[q] as int].le(seen[before[p] as int]));
                    assert(before[p] < before[q]);
                } else if x == at {
                    assert(!keys@[before[q] as int].le(keys@[i as int]));
                } else {
                    assert(before[p] < i);
                }
            }
        }
        i = i + 1;
    }
    assert(keys@.take(n as int) =~= keys@);
    out
}

/// The order of texts is that of their first characters that differ, whatever stands in front of
/// both; a text comes before any longer one that starts with it.
pub proof fn texts_are_ordered_by_their_first_difference(
    p: Seq<char>,
    a: Seq<char>,
    b: Seq<char>,
    c: char,
    d: char,
)
    requires
        c < d,
    ensures
        text_le(p + seq![c] + a, p + seq![d] + b),
        !text_le(p + seq![d] + b, p + seq![c] + a),
        text_le(p, p + a),
        a.len() > 0 ==> !text_le(p + a, p),
    decreases p.len(),
{
    let x = p + seq![c] + a;
    let y = p + seq![d] + b;
    if p.len() == 0 {
        assert(x[0] == c && y[0] == d);
        assert(p + a =~= a);
    } else {
        let rest = p.drop_first();
        texts_are_ordered_by_their_first_difference(rest, a, b, c, d);
        assert(x.drop_first() =~= rest + seq![c] + a);
        assert(y.drop_first() =~= rest + seq![d] + b);
        assert((p + a).drop_first() =~= rest + a);
        assert(x[0] == p[0] && y[0] == p[0] && (p + a)[0] == p[0]);
    }
}

/// Numbers are sorted by their size, and texts in dictionary order.
pub proof fn keys_have_their_order(a: u64, b: u64, s: String, t: String)
    ensures
        a.le(b) <==> a <= b,
        s.le(t) <==> text_le(s@, t@),
{
}

/// A sorted list of positions names each position once, by ascending key, and of two level keys the
/// earlier first.
pub proof fn positions_are_sorted<K: SortKey>(order: Seq<usize>, keys: Seq<K>, i: int, j: int)
    requires
        is_stable_order(order, keys),
        0 <= i < j < order.len(),
    ensures
        order.len() == keys.len(),
        order[i] != order[j],
        order[i] < keys.len(),
        keys[order[i] as int].le(keys[order[j] as int]),
        keys[order[i] as int] == keys[order[j] as int] ==> order[i] < order[j],
{
    K::le_is_total(keys[order[i] as int], keys[order[i] as int]);
    assert(keys[order[i] as int].le(keys[order[j] as int]));
}

/// A sorting holds the texts that were there, as often as they were there, the smaller in front.
pub proof fn sortings_hold_the_same_texts(r: Seq<Seq<char>>, v: Seq<Seq<char>>, i: int, j: int, t: Seq<char>)
    requires
        is_sorting_of(r, v),
    ensures
        0 <= i <= j < r.len() ==> text_le(r[i], r[j]),
        r.to_multiset().count(t) == v.to_multiset().count(t),
        r.len() == v.len(),
{
    broadcast use vstd::seq_lib::group_to_multiset_ensures;

    assert(r.len() == r.to_multiset().len());
    assert(v.len() == v.to_multiset().len());
}

} // verus!
