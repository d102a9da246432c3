//! Values kept under names.

use vstd::prelude::*;
use crate::text::str_eq;

verus! {

/// A map from names to values. It remembers the order in which its names came.
#[derive(Debug)]
pub struct NameMap<V> {
    entries: Vec<(String, V)>,
}

impl<V> NameMap<V> {
    /// No name stands twice. This holds of every map.
    #[verifier::type_invariant]
    pub closed spec fn no_name_twice(self) -> bool {
        forall|i: int, j: int|
            0 <= i < j < self.entries@.len() ==> #[trigger] self.entries@[i].0@
                != #[trigger] self.entries@[j].0@
    }

    /// The names, in the order in which they came.
    pub closed spec fn names(self) -> Seq<Seq<char>> {
        self.entries@.map_values(|e: (String, V)| e.0@)
    }

    /// The values, in the order of their names.
    pub closed spec fn held(self) -> Seq<V> {
        self.entries@.map_values(|e: (String, V)| e.1)
    }

    /// The map that this stands for.
    pub open spec fn view(&self) -> Map<Seq<char>, V> {
        Map::new(
            |k: Seq<char>| self.names().contains(k),
            |k: Seq<char>| self.held()[self.names().index_of(k)],
        )
    }

    /// A map without names.
    pub fn new() -> (r: Self)
        ensures
            r@ == Map::<Seq<char>, V>::empty(),
            r.names() == Seq::<Seq<char>>::empty(),
    {
        let r: Self = NameMap { entries: Vec::new() };
        assert(r.names() =~= seq![]);
        assert(r@ =~= Map::<Seq<char>, V>::empty());
        r
    }

    /// The names of a map differ, and each has one value.
    pub proof fn names_differ(self)
        requires
            self.no_name_twice(),
        ensures
            self.names().no_duplicates(),
            self.held().len() == self.names().len(),
    {
        assert forall|i: int, j: int| 0 <= i < self.names().len() && 0 <= j < self.names().len() && i
            != j implies self.names()[i] != self.names()[j] by {
            if i < j {
                assert(self.entries@[i].0@ != self.entries@[j].0@);
            } else {
                assert(self.entries@[j].0@ != self.entries@[i].0@);
            }
        }
    }

    /// How many names there are. No name stands twice, and each has one value.
    pub fn len(&self) -> (r: usize)
        ensures
            r == self.names().len(),
            self.held().len() == self.names().len(),
            self.names().no_duplicates(),
    {
        proof {
            use_type_invariant(self);
            self.names_differ();
        }
        self.entries.len()
    }

    /// The name at a position.
    pub fn name_at(&self, i: usize) -> (r: &String)
        requires
            i < self.names().len(),
        ensures
            r@ == self.names()[i as int],
            self@.contains_key(r@),
    {
        let r: &String = &self.entries[i].0;
        assert(self.names()[i as int] == r@);
        r
    }

    /// The value at a position.
    pub fn value_at(&self, i: usize) -> (r: &V)
        requires
            i < self.names().len(),
        ensures
            *r == self.held()[i as int],
            *r == self@[self.names()[i as int]],
    {
        proof {
            use_type_invariant(self);
            self.lemma_position(i as int);
        }
        &self.entries[i].1
    }

    proof fn lemma_position(&self, i: int)
        requires
            self.no_name_twice(),
            0 <= i < self.entries@.len(),
        ensures
            self.names().index_of(self.names()[i]) == i,
            self@.contains_key(self.entries@[i].0@),
            self@[self.entries@[i].0@] == self.entries@[i].1,
    {
        let k = self.names()[i];
        assert(self.names().contains(k));
        let j = self.names().index_of(k);
        assert(self.names()[j] == k);
        if i < j {
            assert(self.entries@[i].0@ != self.entries@[j].0@);
        } else if j < i {
            assert(self.entries@[j].0@ != self.entries@[i].0@);
        }
    }

    fn position(&self, name: &str) -> (r: Option<usize>)
        ensures
            r is Some <==> self@.contains_key(name@),
            r matches Some(i) ==> i < self.entries@.len() && self.entries@[i as int].0@ == name@
                && self.names().index_of(name@) == i && self@[name@] == self.entries@[i as int].1,
    {
        proof {
            use_type_invariant(self);
        }
        let n: usize = self.entries.len();
        let mut i: usize = 0;
        while i < n
            invariant
                n == self.entries@.len(),
                i <= n,
                self.no_name_twice(),
                forall|k: int| 0 <= k < i ==> #[trigger] self.names()[k] != name@,
            decreases n - i,
        {
            if str_eq(self.entries[i].0.as_str(), name) {
                proof {
                    self.lemma_position(i as int);
                }
                return Some(i);
            }
            assert(self.names()[i as int] != name@);
            i = i + 1;
        }
        None
    }

    /// The value under a name.
    pub fn get(&self, name: &str) -> (r: Option<&V>)
        ensures
            r is Some <==> self@.contains_key(name@),
            r matches Some(v) ==> *v == self@[name@],
    {
        match self.position(name) {
            Some(i) => Some(&self.entries[i].1),
            None => None,
        }
    }

    /// Whether there is a value under a name.
    pub fn contains_key(&self, name: &str) -> (r: bool)
        ensures
            r == self@.contains_key(name@),
    {
        self.position(name).is_some()
    }

    /// Puts a value under a name, in place of the value that was there.
    pub fn insert(&mut self, name: String, value: V)
        ensures
            final(self)@ == old(self)@.insert(name@, value),
            final(self).names() == (if old(self)@.contains_key(name@) {
                old(self).names()
            } else {
                old(self).names().push(name@)
            }),
    {
        proof {
            use_type_invariant(&*self);
        }
        let at: Option<usize> = self.position(name.as_str());
        let ghost start = *self;
        let mut entries: Vec<(String, V)> = Vec::new();
        std::mem::swap(&mut entries, &mut self.entries);
        assert(entries@ == start.entries@);
        match at {
            Some(i) => {
                entries.set(i, (name, value));
            },
            None => {
                proof {
                    assert forall|k: int| 0 <= k < entries@.len() implies #[trigger] entries@[k].0@
                        != name@ by {
                        assert(start.names()[k] == entries@[k].0@);
                    }
                }
                entries.push((name, value));
            },
        }
        self.entries = entries;
        proof {
            let now = *self;
            match at {
                Some(i) => {
                    assert(now.names() =~= start.names());
                },
                None => {
                    assert(now.names() =~= start.names().push(name@));
                },
            }
            assert forall|k: Seq<char>| now.names().contains(k) == (start.names().contains(k) || k
                == name@) by {
                if start.names().contains(k) {
                    let j = start.names().index_of(k);
                    assert(now.names()[j] == k);
                }
                if k == name@ {
                    match at {
                        Some(i) => {
                            assert(now.names()[i as int] == k);
                        },
                        None => {
                            assert(now.names()[start.names().len() as int] == k);
                        },
                    }
                }
            }
            assert forall|k: Seq<char>| now.names().contains(k) implies #[trigger] now@[k]
                == start@.insert(name@, value)[k] by {
                let j = now.names().index_of(k);
                assert(now.names()[j] == k);
                now.lemma_position(j);
                if k != name@ {
                    assert(start.names().contains(k));
                    let j0 = start.names().index_of(k);
                    assert(start.names()[j0] == k);
                    assert(now.names()[j0] == k);
                    now.lemma_position(j0);
                    start.lemma_position(j0);
                }
            }
            assert(now@ =~= start@.insert(name@, value));
        }
    }

    /// Takes the value under a name out.
    pub fn remove(&mut self, name: &str) -> (r: Option<V>)
        ensures
            final(self)@ == old(self)@.remove(name@),
            r == (if old(self)@.contains_key(name@) {
                Some(old(self)@[name@])
            } else {
                None
            }),
            final(self).names() == (if old(self)@.contains_key(name@) {
                old(self).names().remove(old(self).names().index_of(name@))
            } else {
                old(self).names()
            }),
    {
        proof {
            use_type_invariant(&*self);
        }
        let ghost start = *self;
        match self.position(name) {
            Some(i) => {
                let mut entries: Vec<(String, V)> = Vec::new();
                std::mem::swap(&mut entries, &mut self.entries);
                let taken: (String, V) = entries.remove(i);
                assert(entries@ =~= start.entries@.remove(i as int));
                self.entries = entries;
                proof {
                    let now = *self;
                    assert(now.names() =~= start.names().remove(i as int));
                    assert forall|k: Seq<char>| now.names().contains(k) == (start.names().contains(k) && k
                        != name@) by {
                        if now.names().contains(k) {
                            let j = now.names().index_of(k);
                            let j0 = if j < i { j } else { j + 1 };
                            assert(start.names()[j0] == k);
                            start.lemma_position(j0);
                        }
                        if start.names().contains(k) && k != name@ {
                            let j0 = start.names().index_of(k);
                            assert(start.names()[j0] == k);
                            let j = if j0 < i { j0 } else { j0 - 1 };
                            assert(now.names()[j] == k);
                        }
                    }
                    assert forall|k: Seq<char>| now.names().contains(k) implies #[trigger] now@[k]
                        == start@[k] by {
                        let j = now.names().index_of(k);
                        assert(now.names()[j] == k);
                        now.lemma_position(j);
                        let j0 = if j < i { j } else { j + 1 };
                        assert(start.names()[j0] == k);
                        start.lemma_position(j0);
                    }
                    assert(now@ =~= start@.remove(name@));
                }
                Some(taken.1)
            },
            None => {
                assert(start@ =~= start@.remove(name@));
                None
            },
        }
    }

    /// Takes all values out.
    pub fn clear(&mut self)
        ensures
            final(self)@ == Map::<Seq<char>, V>::empty(),
            final(self).names() == Seq::<Seq<char>>::empty(),
    {
        self.entries = Vec::new();
        assert(self.names() =~= seq![]);
        assert(self@ =~= Map::<Seq<char>, V>::empty());
    }
}

impl<V: Clone> Clone for NameMap<V> {
    fn clone(&self) -> (r: Self)
        ensures
            r.names() == self.names(),
            r.held().len() == self.held().len(),
            forall|i: int|
                0 <= i < self.held().len() ==> cloned::<V>(#[trigger] self.held()[i], r.held()[i]),
    {
        proof {
            use_type_invariant(self);
        }
        let n: usize = self.entries.len();
        let mut entries: Vec<(String, V)> = Vec::new();
        let mut i: usize = 0;
        while i < n
            invariant
                n == self.entries@.len(),
                i <= n,
                entries@.len() == i,
                forall|k: int|
                    0 <= k < i ==> (#[trigger] entries@[k]).0@ == self.entries@[k].0@ && cloned::<V>(
                        self.entries@[k].1,
                        entries@[k].1,
                    ),
            decreases n - i,
        {
            let name: String = self.entries[i].0.clone();
            let value: V = self.entries[i].1.clone();
            entries.push((name, value));
            i = i + 1;
        }
        let r: Self = NameMap { entries };
        assert(r.names() =~= self.names());
        assert forall|i: int| 0 <= i < self.held().len() implies cloned::<V>(
            #[trigger] self.held()[i],
            r.held()[i],
        ) by {
            assert(r.entries@[i].0@ == self.entries@[i].0@);
        }
        r
    }
}

} // verus!
