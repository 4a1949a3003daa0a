//! Symbol tables: names bound to aliases, constants or line indices.

use vstd::prelude::*;
use crate::text::same_text;

verus! {

/// A map from names to values that remembers the order in which the names
/// came. No name is held twice.
pub struct SymbolTable<V> {
    names: Vec<String>,
    values: Vec<V>,
}

impl<V: Copy> SymbolTable<V> {
    /// The names, in the order of their first binding.
    pub closed spec fn keys(&self) -> Seq<Seq<char>> {
        Seq::new(self.names@.len(), |i: int| self.names@[i]@)
    }

    /// The value bound to each name, in the same order.
    pub closed spec fn bound(&self) -> Seq<V> {
        self.values@
    }

    /// Every name has its value and no name occurs twice.
    pub open spec fn wf(&self) -> bool {
        &&& self.keys().len() == self.bound().len()
        &&& self.keys().no_duplicates()
    }

    /// The table as a map.
    pub open spec fn view(&self) -> Map<Seq<char>, V> {
        Map::new(
            |k: Seq<char>| self.keys().contains(k),
            |k: Seq<char>| self.bound()[self.keys().index_of(k)],
        )
    }

    /// The `i`-th name is bound to the `i`-th value.
    pub proof fn lemma_entry(&self, i: int)
        requires
            self.wf(),
            0 <= i < self.keys().len(),
        ensures
            self@.contains_key(self.keys()[i]),
            self@[self.keys()[i]] == self.bound()[i],
    {
        let k = self.keys()[i];
        assert(self.keys().contains(k));
        let j = self.keys().index_of(k);
        assert(self.keys()[j] == k);
    }

    /// A table without names.
    pub fn new() -> (r: Self)
        ensures
            r.wf(),
            r@ == Map::<Seq<char>, V>::empty(),
            r.keys().len() == 0,
    {
        let r = SymbolTable { names: Vec::new(), values: Vec::new() };
        assert(r@ =~= Map::<Seq<char>, V>::empty());
        r
    }

    fn position(&self, name: &str) -> (r: Option<usize>)
        requires
            self.wf(),
        ensures
            match r {
                Some(i) => i < self.keys().len() && self.keys()[i as int] == name@,
                None => !self.keys().contains(name@),
            },
    {
        let mut i: usize = 0;
        while i < self.names.len()
            invariant
                i <= self.names@.len(),
                forall|j: int| 0 <= j < i ==> self.keys()[j] != name@,
            decreases self.names@.len() - i,
        {
            if same_text(self.names[i].as_str(), name) {
                return Some(i);
            }
            i = i + 1;
        }
        None
    }

    /// The value bound to `name`, if any.
    pub fn get(&self, name: &str) -> (r: Option<V>)
        requires
            self.wf(),
        ensures
            r == (if self@.contains_key(name@) {
                Some(self@[name@])
            } else {
                None::<V>
            }),
    {
        match self.position(name) {
            Some(i) => {
                proof {
                    self.lemma_entry(i as int);
                }
                Some(self.values[i])
            },
            None => None,
        }
    }

    /// Binds `name` to `value`, in place of what it was bound to.
    pub fn insert(&mut self, name: &str, value: V)
        requires
            old(self).wf(),
        ensures
            final(self).wf(),
            final(self)@ == old(self)@.insert(name@, value),
            final(self).keys() == (if old(self).keys().contains(name@) {
                old(self).keys()
            } else {
                old(self).keys().push(name@)
            }),
    {
        let ghost before = *self;
        match self.position(name) {
            Some(i) => {
                self.values.set(i, value);
                assert(self.keys() =~= before.keys());
                assert(before.keys().contains(name@));
                assert forall|k: Seq<char>| self.keys().contains(k) implies #[trigger] self@[k]
                    == before@.insert(name@, value)[k] by {
                    let j = self.keys().index_of(k);
                    assert(self.keys()[j] == k);
                }
                assert(self@ =~= before@.insert(name@, value));
            },
            None => {
                self.names.push(name.to_owned());
                self.values.push(value);
                assert(self.keys() =~= before.keys().push(name@));
                assert forall|k: Seq<char>| self.keys().contains(k) <==> before@.insert(
                    name@,
                    value,
                ).contains_key(k) by {
                    if self.keys().contains(k) {
                        let j = self.keys().index_of(k);
                        assert(self.keys()[j] == k);
                        if j < before.keys().len() {
                            assert(before.keys()[j] == k);
                        }
                    }
                    if before.keys().contains(k) {
                        let j = before.keys().index_of(k);
                        assert(self.keys()[j] == k);
                    }
                    if k == name@ {
                        assert(self.keys()[before.keys().len() as int] == k);
                    }
                }
                assert forall|k: Seq<char>| self.keys().contains(k) implies #[trigger] self@[k]
                    == before@.insert(name@, value)[k] by {
                    let j = self.keys().index_of(k);
                    assert(self.keys()[j] == k);
                    if k != name@ {
                        let h = before.keys().index_of(k);
                        assert(before.keys()[j] == k);
                        assert(before.keys()[h] == k);
                    }
                }
                assert(self@ =~= before@.insert(name@, value));
            },
        }
    }

    /// The names with their values, in the order in which the names came.
    pub fn entries(&self) -> (r: Vec<(String, V)>)
        requires
            self.wf(),
        ensures
            r@.len() == self.keys().len(),
            forall|i: int|
                0 <= i < r@.len() ==> (#[trigger] r@[i]).0@ == self.keys()[i] && r@[i].1
                    == self.bound()[i],
    {
        let mut listed: Vec<(String, V)> = Vec::new();
        let mut i: usize = 0;
        while i < self.names.len()
            invariant
                self.wf(),
                i <= self.names@.len(),
                listed@.len() == i,
                forall|j: int|
                    0 <= j < i ==> (#[trigger] listed@[j]).0@ == self.keys()[j] && listed@[j].1
                        == self.bound()[j],
            decreases self.names@.len() - i,
        {
            listed.push((self.names[i].clone(), self.values[i]));
            i = i + 1;
        }
        listed
    }
}

} // verus!
