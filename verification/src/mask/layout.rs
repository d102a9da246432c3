//! The layout of the mask: the bit of each device.

use vstd::prelude::*;
use crate::name_map::NameMap;
use crate::order::{is_sorting_of, sort_texts};
use crate::seqs::{first_where, first_where_finds, lemma_filter_none, lemma_filter_step,
    lemma_filter_whole, lemma_first_is, lemma_first_is_none};
use crate::text::{is_among, str_eq, texts};

verus! {

/// The order of the devices in the mask. A device's position is its bit.
#[derive(Debug)]
pub struct MaskLayout {
    pub device_order: Vec<String>,
}

impl Clone for MaskLayout {
    fn clone(&self) -> (r: Self)
        ensures
            r.device_order@ == self.device_order@,
    {
        let device_order: Vec<String> = self.device_order.clone();
        assert(device_order@ =~= self.device_order@);
        MaskLayout { device_order }
    }
}

impl Default for MaskLayout {
    fn default() -> (r: Self)
        ensures
            r.device_order@ == Seq::<String>::empty(),
    {
        MaskLayout { device_order: Vec::new() }
    }
}

/// The given names, with those of `names` that are missing added behind them, in order and once.
pub open spec fn with_missing(order: Seq<Seq<char>>, names: Seq<Seq<char>>) -> Seq<Seq<char>>
    decreases names.len(),
{
    if names.len() == 0 {
        order
    } else {
        let head = with_missing(order, names.drop_last());
        if head.contains(names.last()) {
            head
        } else {
            head.push(names.last())
        }
    }
}

/// A saved order brought up to date: new devices behind the others, devices that are gone left out.
pub open spec fn reconciled(order: Seq<Seq<char>>, names: Seq<Seq<char>>) -> Seq<Seq<char>> {
    with_missing(order, names).filter(|n: Seq<char>| names.contains(n))
}

/// Being the given text.
pub open spec fn is_text(name: Seq<char>) -> spec_fn(Seq<char>) -> bool {
    |n: Seq<char>| n == name
}

/// The bit of a device in an order.
pub open spec fn bit_of(order: Seq<Seq<char>>, name: Seq<char>) -> Option<int> {
    first_where(order, is_text(name))
}

impl MaskLayout {
    /// The names of the devices in the order of their bits.
    pub open spec fn order(self) -> Seq<Seq<char>> {
        texts(self.device_order@)
    }

    /// A layout in dictionary order.
    pub fn from_devices_sorted(device_names: &[String]) -> (r: Self)
        ensures
            is_sorting_of(r.order(), texts(device_names@)),
    {
        MaskLayout { device_order: sort_texts(device_names) }
    }

    /// The saved layout brought up to date with the registered devices; where there is no saved
    /// layout, one in dictionary order.
    pub fn load_or_default(saved: Option<MaskLayout>, device_names: &[String]) -> (r: Self)
        ensures
            match saved {
                Some(layout) => r.order() == reconciled(layout.order(), texts(device_names@)),
                None => is_sorting_of(r.order(), texts(device_names@)),
            },
    {
        match saved {
            Some(layout) => {
                let ghost names = texts(device_names@);
                let ghost start = layout.order();
                let n: usize = device_names.len();
                let mut order: Vec<String> = layout.device_order;
                let mut i: usize = 0;
                assert(names.take(0) =~= seq![]);
                while i < n
                    invariant
                        n == device_names@.len(),
                        names == texts(device_names@),
                        i <= n,
                        texts(order@) == with_missing(start, names.take(i as int)),
                    decreases n - i,
                {
                    assert(names.take(i as int + 1).drop_last() =~= names.take(i as int));
                    assert(names.take(i as int + 1).last() == device_names@[i as int]@);
                    if !is_among(order.as_slice(), device_names[i].as_str()) {
                        let ghost before = order@;
                        order.push(device_names[i].clone());
                        assert(texts(order@) =~= texts(before).push(device_names@[i as int]@));
                    }
                    i = i + 1;
                }
                assert(names.take(n as int) =~= names);
                let ghost full = texts(order@);
                let ghost p = |n: Seq<char>| names.contains(n);
                let m: usize = order.len();
                let mut kept: Vec<String> = Vec::new();
                let mut j: usize = 0;
                proof {
                    lemma_filter_none(full, p);
                    assert(texts(kept@) =~= seq![]);
                }
                while j < m
                    invariant
                        m == order@.len(),
                        full == texts(order@),
                        names == texts(device_names@),
                        p == (|n: Seq<char>| names.contains(n)),
                        j <= m,
                        texts(kept@) == full.take(j as int).filter(p),
                    decreases m - j,
                {
                    proof {
                        lemma_filter_step(full, p, j as int);
                    }
                    if is_among(device_names, order[j].as_str()) {
                        let ghost before = kept@;
                        kept.push(order[j].clone());
                        assert(texts(kept@) =~= texts(before).push(full[j as int]));
                    }
                    j = j + 1;
                }
                proof {
                    lemma_filter_whole(full, p);
                }
                MaskLayout { device_order: kept }
            },
            None => Self::from_devices_sorted(device_names),
        }
    }

    /// The bit of a device.
    pub fn bit_index(&self, device_name: &str) -> (r: Option<usize>)
        ensures
            r is Some <==> bit_of(self.order(), device_name@) is Some,
            r matches Some(i) ==> bit_of(self.order(), device_name@) == Some(i as int),
    {
        let n: usize = self.device_order.len();
        let ghost p = is_text(device_name@);
        let ghost order = self.order();
        let mut i: usize = 0;
        while i < n
            invariant
                n == self.device_order@.len(),
                order == texts(self.device_order@),
                i <= n,
                p == is_text(device_name@),
                forall|k: int| 0 <= k < i ==> !p(order[k]),
            decreases n - i,
        {
            if str_eq(self.device_order[i].as_str(), device_name) {
                proof {
                    lemma_first_is(order, p, i as int);
                }
                return Some(i);
            }
            i = i + 1;
        }
        proof {
            lemma_first_is_none(order, p);
        }
        None
    }

    /// The bits of all devices by name. A name that stands in the layout twice has its last bit.
    pub fn build_index_map(&self) -> (r: NameMap<usize>)
        ensures
            forall|name: Seq<char>| #[trigger] r@.contains_key(name) <==> self.order().contains(name),
            forall|name: Seq<char>| #[trigger]
                r@.contains_key(name) ==> {
                    &&& r@[name] < self.order().len()
                    &&& self.order()[r@[name] as int] == name
                    &&& forall|k: int| r@[name] < k < self.order().len() ==> self.order()[k] != name
                },
    {
        let n: usize = self.device_order.len();
        let ghost order = self.order();
        let mut map: NameMap<usize> = NameMap::new();
        let mut i: usize = 0;
        while i < n
            invariant
                n == self.device_order@.len(),
                order == texts(self.device_order@),
                i <= n,
                forall|name: Seq<char>| #[trigger]
                    map@.contains_key(name) ==> {
                        &&& map@[name] < i
                        &&& order[map@[name] as int] == name
                        &&& forall|k: int| map@[name] < k < i ==> order[k] != name
                    },
                forall|k: int| 0 <= k < i ==> map@.contains_key(#[trigger] order[k]),
            decreases n - i,
        {
            assert(order[i as int] == self.device_order@[i as int]@);
            map.insert(self.device_order[i].clone(), i);
            i = i + 1;
        }
        map
    }

    /// How many devices the layout holds.
    pub fn device_count(&self) -> (r: usize)
        ensures
            r == self.order().len(),
    {
        self.device_order.len()
    }

    /// Moves a device to another bit; the devices between the two bits move up by one place. Does
    /// nothing where either bit is not in use.
    pub fn move_device(&mut self, from: usize, to: usize)
        ensures
            final(self).device_order@ == moved(old(self).device_order@, from as int, to as int),
    {
        if from >= self.device_order.len() || to >= self.device_order.len() {
            return;
        }
        let device: String = self.device_order.remove(from);
        self.device_order.insert(to, device);
    }

    /// Puts the layout in dictionary order.
    pub fn reset_to_alphabetical(&mut self)
        ensures
            is_sorting_of(final(self).order(), old(self).order()),
    {
        let sorted: Vec<String> = sort_texts(self.device_order.as_slice());
        self.device_order = sorted;
    }
}

/// A sequence with the item at `from` taken out and put back at `to`, unless either is not a
/// position.
pub open spec fn moved<T>(s: Seq<T>, from: int, to: int) -> Seq<T> {
    if 0 <= from < s.len() && 0 <= to < s.len() {
        s.remove(from).insert(to, s[from])
    } else {
        s
    }
}

/// Moving a device keeps all devices.
pub proof fn moving_keeps_devices<T>(s: Seq<T>, from: int, to: int)
    ensures
        moved(s, from, to).to_multiset() == s.to_multiset(),
        moved(s, from, to).len() == s.len(),
{
    broadcast use vstd::seq_lib::group_to_multiset_ensures;
    broadcast use vstd::multiset::group_multiset_axioms;

    if 0 <= from < s.len() && 0 <= to < s.len() {
        vstd::seq_lib::to_multiset_insert(s.remove(from), to, s[from]);
        assert(s.contains(s[from]));
        assert(s.to_multiset().count(s[from]) > 0);
        assert(s.to_multiset().remove(s[from]).insert(s[from]) =~= s.to_multiset());
    }
}

/// Moving a device back undoes the move.
pub proof fn moving_back_restores<T>(s: Seq<T>, from: int, to: int)
    ensures
        moved(moved(s, from, to), to, from) == s,
{
    assert(moved(moved(s, from, to), to, from) =~= s);
}

/// A moved device has the bit that it was moved to.
pub proof fn moved_device_has_its_bit(order: Seq<Seq<char>>, from: int, to: int)
    requires
        0 <= from < order.len(),
        0 <= to < order.len(),
        order.no_duplicates(),
    ensures
        bit_of(moved(order, from, to), order[from]) == Some(to),
{
    let m = moved(order, from, to);
    let p = is_text(order[from]);
    assert(p(m[to]));
    assert forall|k: int| 0 <= k < to implies !p(m[k]) by {
        let j = if k < from { k } else { k + 1 };
        assert(m[k] == order[j]);
    }
    lemma_first_is(m, p, to);
}

/// A device that stands in an order has the first bit at which its name stands; another has none.
pub proof fn bit_of_finds(order: Seq<Seq<char>>, name: Seq<char>)
    ensures
        match bit_of(order, name) {
            Some(i) => 0 <= i < order.len() && order[i] == name && forall|k: int|
                0 <= k < i ==> order[k] != name,
            None => forall|k: int| 0 <= k < order.len() ==> order[k] != name,
        },
{
    first_where_finds(order, is_text(name));
}

proof fn lemma_with_missing(order: Seq<Seq<char>>, names: Seq<Seq<char>>)
    ensures
        forall|n: Seq<char>| #[trigger]
            with_missing(order, names).contains(n) <==> order.contains(n) || names.contains(n),
        with_missing(order, names).len() >= order.len(),
        with_missing(order, names).take(order.len() as int) == order,
        order.no_duplicates() ==> with_missing(order, names).no_duplicates(),
    decreases names.len(),
{
    if names.len() == 0 {
        assert(order.take(order.len() as int) =~= order);
    } else {
        let head = with_missing(order, names.drop_last());
        let full = with_missing(order, names);
        lemma_with_missing(order, names.drop_last());
        assert forall|n: Seq<char>| #[trigger] full.contains(n) <==> order.contains(n)
            || names.contains(n) by {
            if names.contains(n) {
                let i = names.index_of(n);
                if i < names.len() - 1 {
                    assert(names.drop_last()[i] == n);
                }
            }
            if names.drop_last().contains(n) {
                let i = names.drop_last().index_of(n);
                assert(names[i] == n);
            }
            assert(names[names.len() - 1] == names.last());
            if head.contains(n) {
                let i = head.index_of(n);
                assert(full[i] == n);
            }
            if full.contains(n) {
                let i = full.index_of(n);
                if i < head.len() {
                    assert(head[i] == n);
                }
            }
            if !head.contains(names.last()) {
                assert(full[head.len() as int] == names.last());
            }
        }
        assert(full.take(order.len() as int) =~= head.take(order.len() as int));
    }
}

/// A reconciled layout holds exactly the registered devices.
pub proof fn reconciled_holds_the_registered(order: Seq<Seq<char>>, names: Seq<Seq<char>>, n: Seq<char>)
    ensures
        reconciled(order, names).contains(n) <==> names.contains(n),
{
    let full = with_missing(order, names);
    let p = |n: Seq<char>| names.contains(n);
    lemma_with_missing(order, names);
    broadcast use vstd::seq_lib::group_filter_ensures;
    if names.contains(n) {
        assert(full.contains(n));
        let i = full.index_of(n);
        assert(p(full[i]));
        assert(full.filter(p).contains(full[i]));
    }
    if full.filter(p).contains(n) {
        let i = full.filter(p).index_of(n);
        assert(p(full.filter(p)[i]));
    }
}

/// Registered devices of a saved layout keep their order: what a reconciled layout starts with is
/// the saved layout without the devices that are gone.
pub proof fn reconciled_keeps_the_saved_order(order: Seq<Seq<char>>, names: Seq<Seq<char>>)
    ensures
        ({
            let kept = order.filter(|n: Seq<char>| names.contains(n));
            &&& kept.len() <= reconciled(order, names).len()
            &&& reconciled(order, names).take(kept.len() as int) == kept
        }),
{
    let full = with_missing(order, names);
    let p = |n: Seq<char>| names.contains(n);
    lemma_with_missing(order, names);
    let tail = full.skip(order.len() as int);
    assert(full =~= order + tail);
    Seq::filter_distributes_over_add(order, tail, p);
    assert(reconciled(order, names).take(order.filter(p).len() as int) =~= order.filter(p));
}

/// In a reconciled layout every registered device has a bit, and that bit is the device's.
pub proof fn reconciled_gives_every_device_a_bit(order: Seq<Seq<char>>, names: Seq<Seq<char>>, name: Seq<char>)
    requires
        names.contains(name),
    ensures
        ({
            let bits = reconciled(order, names);
            &&& bit_of(bits, name) is Some
            &&& 0 <= bit_of(bits, name)->0 < bits.len()
            &&& bits[bit_of(bits, name)->0] == name
        }),
{
    let bits = reconciled(order, names);
    reconciled_holds_the_registered(order, names, name);
    bit_of_finds(bits, name);
    assert(bits[bits.index_of(name)] == name);
}

/// A moved device goes to its place, the devices that it passes move by one place towards where it
/// was, and all others stay.
pub proof fn passed_devices_move_by_one<T>(s: Seq<T>, from: int, to: int, k: int)
    requires
        0 <= k < s.len(),
    ensures
        ({
            let m = moved(s, from, to);
            if 0 <= from < s.len() && 0 <= to < s.len() {
                &&& k == to ==> m[k] == s[from]
                &&& from <= k < to ==> m[k] == s[k + 1]
                &&& to < k <= from ==> m[k] == s[k - 1]
                &&& k < from && k < to ==> m[k] == s[k]
                &&& k > from && k > to ==> m[k] == s[k]
            } else {
                m == s
            }
        }),
{
}

/// New devices stand behind those that were there, in the order in which they are named: what the
/// first names add is what all names start with.
pub proof fn new_devices_stand_behind(order: Seq<Seq<char>>, names: Seq<Seq<char>>, n: int)
    requires
        0 <= n <= names.len(),
    ensures
        ({
            let first = with_missing(order, names.take(n));
            let full = with_missing(order, names);
            &&& full.take(order.len() as int) == order
            &&& first.len() <= full.len()
            &&& full.take(first.len() as int) == first
            &&& n < names.len() && !first.contains(names[n]) ==> full[first.len() as int] == names[n]
            &&& names.len() == 0 ==> full == order
        }),
    decreases names.len(),
{
    lemma_with_missing(order, names);
    let first = with_missing(order, names.take(n));
    let full = with_missing(order, names);
    if n == names.len() {
        assert(names.take(n) =~= names);
        assert(full.take(full.len() as int) =~= full);
    } else {
        let init = names.drop_last();
        assert(init.take(n) =~= names.take(n));
        new_devices_stand_behind(order, init, n);
        let head = with_missing(order, init);
        assert(full.take(first.len() as int) =~= head.take(first.len() as int));
        if n == names.len() - 1 {
            assert(names.take(n) =~= init);
        } else if !first.contains(names[n]) {
            assert(init[n] == names[n]);
            lemma_with_missing(order, init);
            assert(init.contains(names[n]));
            assert(head.contains(names[n]));
            if head.len() == first.len() {
                assert(head.take(first.len() as int) =~= head);
            }
        }
    }
}

/// A device is moved to its new bit, and a layout put in dictionary order holds the same devices.
pub proof fn layouts_are_put_in_order(moving: &mut MaskLayout, from: usize, to: usize, sorting: &mut MaskLayout)
    requires
        call_ensures(MaskLayout::move_device, (moving, from, to), ()),
        call_ensures(MaskLayout::reset_to_alphabetical, (sorting,), ()),
    ensures
        from < old(moving).device_order@.len() && to < old(moving).device_order@.len()
            ==> final(moving).device_order@[to as int] == old(moving).device_order@[from as int],
        final(moving).device_order@.len() == old(moving).device_order@.len(),
        is_sorting_of(final(sorting).order(), old(sorting).order()),
{
}

} // verus!
