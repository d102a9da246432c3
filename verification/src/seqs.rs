//! Sequences: the first item with a property, and what a property leaves of a sequence.

use vstd::prelude::*;

verus! {

/// The position of the first item with a property, if any item has it.
pub open spec fn first_where<T>(s: Seq<T>, p: spec_fn(T) -> bool) -> Option<int>
    decreases s.len(),
{
    if s.len() == 0 {
        None
    } else {
        match first_where(s.drop_last(), p) {
            Some(i) => Some(i),
            None => if p(s.last()) {
                Some(s.len() - 1)
            } else {
                None
            },
        }
    }
}

/// What `first_where` finds is an item with the property, and no earlier one has it; it finds
/// nothing exactly where no item has the property.
pub proof fn first_where_finds<T>(s: Seq<T>, p: spec_fn(T) -> bool)
    ensures
        match first_where(s, p) {
            Some(i) => 0 <= i < s.len() && p(s[i]) && forall|k: int| 0 <= k < i ==> !p(#[trigger] s[k]),
            None => forall|k: int| 0 <= k < s.len() ==> !p(#[trigger] s[k]),
        },
    decreases s.len(),
{
    if s.len() > 0 {
        first_where_finds(s.drop_last(), p);
        assert forall|k: int| 0 <= k < s.len() - 1 implies s[k] == s.drop_last()[k] by {}
    }
}

pub(crate) proof fn lemma_first_is<T>(s: Seq<T>, p: spec_fn(T) -> bool, i: int)
    requires
        0 <= i < s.len(),
        p(s[i]),
        forall|k: int| 0 <= k < i ==> !p(#[trigger] s[k]),
    ensures
        first_where(s, p) == Some(i),
{
    first_where_finds(s, p);
}

pub(crate) proof fn lemma_first_is_none<T>(s: Seq<T>, p: spec_fn(T) -> bool)
    requires
        forall|k: int| 0 <= k < s.len() ==> !p(#[trigger] s[k]),
    ensures
        first_where(s, p) == None::<int>,
{
    first_where_finds(s, p);
}

/// A value behind a reference that may be missing.
pub open spec fn option_deref<T>(v: Option<&T>) -> Option<T> {
    match v {
        Some(x) => Some(*x),
        None => None,
    }
}

/// How many items have a property.
pub open spec fn count_where<T>(s: Seq<T>, p: spec_fn(T) -> bool) -> nat {
    s.filter(p).len()
}

/// The items of a sequence, each once, in the order in which they first come.
pub open spec fn without_repeats<T>(s: Seq<T>) -> Seq<T>
    decreases s.len(),
{
    if s.len() == 0 {
        seq![]
    } else {
        let init = without_repeats(s.drop_last());
        if init.contains(s.last()) {
            init
        } else {
            init.push(s.last())
        }
    }
}

/// Without its repeats, a sequence holds what it held, and nothing twice.
pub proof fn repeats_are_left_out<T>(s: Seq<T>)
    ensures
        without_repeats(s).no_duplicates(),
        forall|x: T| #[trigger] without_repeats(s).contains(x) <==> s.contains(x),
    decreases s.len(),
{
    if s.len() > 0 {
        let init = s.drop_last();
        let kept = without_repeats(init);
        repeats_are_left_out(init);
        lemma_pushed(init, s.last());
        lemma_pushed(kept, s.last());
        assert(init.push(s.last()) =~= s);
        assert forall|x: T| #[trigger] without_repeats(s).contains(x) <==> s.contains(x) by {
            assert(kept.contains(x) <==> init.contains(x));
        }
        assert forall|a: int, b: int|
            0 <= a < kept.push(s.last()).len() && 0 <= b < kept.push(s.last()).len() && a != b
                && !kept.contains(s.last()) implies kept.push(s.last())[a] != kept.push(
            s.last(),
        )[b] by {
            if a < kept.len() && b < kept.len() {
                assert(kept[a] != kept[b]);
            } else if a < kept.len() {
                assert(kept.contains(kept[a]));
            } else if b < kept.len() {
                assert(kept.contains(kept[b]));
            }
        }
    }
}

pub(crate) proof fn lemma_filter_step<T>(s: Seq<T>, p: spec_fn(T) -> bool, i: int)
    requires
        0 <= i < s.len(),
    ensures
        s.take(i + 1).filter(p) == (if p(s[i]) {
            s.take(i).filter(p).push(s[i])
        } else {
            s.take(i).filter(p)
        }),
{
    reveal(Seq::filter);
    assert(s.take(i + 1).drop_last() =~= s.take(i));
    assert(s.take(i + 1).last() == s[i]);
}

pub(crate) proof fn lemma_filter_none<T>(s: Seq<T>, p: spec_fn(T) -> bool)
    ensures
        s.take(0).filter(p) == Seq::<T>::empty(),
{
    reveal(Seq::filter);
    assert(s.take(0) =~= Seq::<T>::empty());
}

pub(crate) proof fn lemma_filter_whole<T>(s: Seq<T>, p: spec_fn(T) -> bool)
    ensures
        s.take(s.len() as int).filter(p) == s.filter(p),
{
    assert(s.take(s.len() as int) =~= s);
}

pub(crate) proof fn lemma_filter_len<T>(s: Seq<T>, p: spec_fn(T) -> bool)
    ensures
        s.filter(p).len() <= s.len(),
        s.filter(p).len() == s.len() <==> forall|k: int| 0 <= k < s.len() ==> p(#[trigger] s[k]),
        (forall|k: int| 0 <= k < s.len() ==> p(#[trigger] s[k])) ==> s.filter(p) == s,
    decreases s.len(),
{
    reveal(Seq::filter);
    if s.len() > 0 {
        lemma_filter_len(s.drop_last(), p);
        assert(forall|k: int| 0 <= k < s.len() - 1 ==> #[trigger] s.drop_last()[k] == s[k]);
        let init = s.drop_last();
        if forall|k: int| 0 <= k < s.len() ==> p(#[trigger] s[k]) {
            assert(forall|k: int| 0 <= k < init.len() ==> p(#[trigger] init[k]));
            assert(init.push(s.last()) =~= s);
        } else {
            let k = choose|k: int| 0 <= k < s.len() && !p(#[trigger] s[k]);
            if k < init.len() {
                assert(!p(init[k]));
            }
        }
    }
}

pub(crate) proof fn lemma_pushed<T>(s: Seq<T>, x: T)
    ensures
        forall|y: T| s.push(x).contains(y) <==> s.contains(y) || y == x,
{
    assert forall|y: T| s.push(x).contains(y) <==> s.contains(y) || y == x by {
        if s.contains(y) {
            let j = s.index_of(y);
            assert(s.push(x)[j] == y);
        }
        if y == x {
            assert(s.push(x)[s.len() as int] == y);
        }
    }
}

/// What is kept of the start of a sequence stands at the start of what is kept of all of it: items
/// stay in the order in which they first come.
pub proof fn repeats_keep_the_order<T>(s: Seq<T>, n: int)
    requires
        0 <= n <= s.len(),
    ensures
        without_repeats(s.take(n)).len() <= without_repeats(s).len(),
        without_repeats(s.take(n)) == without_repeats(s).take(
            without_repeats(s.take(n)).len() as int,
        ),
        n < s.len() && !s.take(n).contains(s[n]) ==> without_repeats(
            s,
        )[without_repeats(s.take(n)).len() as int] == s[n],
    decreases s.len(),
{
    if n == s.len() {
        assert(s.take(n) =~= s);
        assert(without_repeats(s).take(without_repeats(s).len() as int) =~= without_repeats(s));
    } else {
        let init = s.drop_last();
        assert(init.take(n) =~= s.take(n));
        repeats_keep_the_order(init, n);
        let first = without_repeats(s.take(n));
        assert(without_repeats(s).take(first.len() as int) =~= without_repeats(init).take(
            first.len() as int,
        ));
        repeats_are_left_out(init);
        repeats_are_left_out(s.take(n));
        if n == s.len() - 1 {
            assert(s.take(n) =~= init);
        } else {
            assert(init[n] == s[n]);
            if !s.take(n).contains(s[n]) {
                assert(init.contains(s[n]));
                assert(without_repeats(init).contains(s[n]));
                if without_repeats(init).len() == first.len() {
                    assert(without_repeats(init).take(first.len() as int) =~= without_repeats(init));
                    assert(first.contains(s[n]));
                }
            }
        }
    }
}

/// Counting goes on: one more item adds one if it has the property, and nothing otherwise.
pub proof fn items_are_counted_one_by_one<T>(s: Seq<T>, p: spec_fn(T) -> bool, x: T)
    ensures
        count_where(Seq::<T>::empty(), p) == 0,
        count_where(s.push(x), p) == count_where(s, p) + (if p(x) {
            1nat
        } else {
            0nat
        }),
{
    reveal(Seq::filter);
    assert(s.push(x).drop_last() =~= s);
}

pub(crate) proof fn lemma_filter_from<T>(s: Seq<T>, p: spec_fn(T) -> bool, i: int)
    requires
        0 <= i < s.filter(p).len(),
    ensures
        s.contains(s.filter(p)[i]),
        p(s.filter(p)[i]),
    decreases s.len(),
{
    reveal(Seq::filter);
    if s.len() > 0 {
        let init = s.drop_last();
        if i < init.filter(p).len() {
            lemma_filter_from(init, p, i);
            let k = init.index_of(init.filter(p)[i]);
            assert(s[k] == init[k]);
        } else {
            assert(s[s.len() - 1] == s.last());
        }
    }
}

} // verus!
