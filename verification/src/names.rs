//! A map from names to values.

use vstd::prelude::*;
use vstd::string::*;

verus! {

/// A map from names to values, kept as a list in which no name comes twice.
pub struct NameMap<V> {
    entries: Vec<(String, V)>,
}

impl<V> NameMap<V> {
    /// Whether no name comes twice.
    #[verifier::type_invariant]
    spec fn has_distinct_names(self) -> bool {
        forall|i: int, j: int|
            0 <= i < j < self.entries@.len() ==> (#[trigger] self.entries@[i]).0@ != (
            #[trigger] self.entries@[j]).0@
    }

    spec fn is_at(self, name: Seq<char>, i: int) -> bool {
        0 <= i < self.entries@.len() && self.entries@[i].0@ == name
    }
}

impl<V> View for NameMap<V> {
    type V = Map<Seq<char>, V>;

    closed spec fn view(&self) -> Map<Seq<char>, V> {
        Map::new(
            |name: Seq<char>| exists|i: int| self.is_at(name, i),
            |name: Seq<char>| self.entries@[choose|i: int| self.is_at(name, i)].1,
        )
    }
}

impl<V> NameMap<V> {
    proof fn lemma_at(&self, name: Seq<char>, i: int)
        requires
            self.has_distinct_names(),
            self.is_at(name, i),
        ensures
            self@.contains_key(name),
            self@[name] == self.entries@[i].1,
    {
        let k = choose|k: int| self.is_at(name, k);
        assert(k == i) by {
            if k < i {
                assert(self.entries@[k].0@ != self.entries@[i].0@);
            }
            if i < k {
                assert(self.entries@[i].0@ != self.entries@[k].0@);
            }
        }
    }

    /// A map without any names.
    pub fn new() -> (r: Self)
        ensures
            r@ == Map::<Seq<char>, V>::empty(),
    {
        let r = NameMap { entries: Vec::new() };
        assert(r@ =~= Map::<Seq<char>, V>::empty());
        r
    }

    fn position(&self, name: &str) -> (r: Option<usize>)
        ensures
            match r {
                Some(i) => self.is_at(name@, i as int),
                None => forall|i: int| !self.is_at(name@, i),
            },
    {
        let wanted = name.to_owned();
        let mut i: usize = 0;
        while i < self.entries.len()
            invariant
                i <= self.entries.len(),
                wanted@ == name@,
                forall|j: int| 0 <= j < i ==> (#[trigger] self.entries@[j]).0@ != name@,
            decreases self.entries.len() - i,
        {
            if self.entries[i].0 == wanted {
                return Some(i);
            }
            i = i + 1;
        }
        None
    }

    /// The value of `name`.
    pub fn get(&self, name: &str) -> (r: Option<&V>)
        ensures
            match r {
                Some(value) => self@.contains_key(name@) && *value == self@[name@],
                None => !self@.contains_key(name@),
            },
    {
        proof {
            use_type_invariant(self);
        }
        match self.position(name) {
            Some(i) => {
                proof {
                    self.lemma_at(name@, i as int);
                }
                Some(&self.entries[i].1)
            },
            None => None,
        }
    }

    /// Whether `name` has a value.
    pub fn contains(&self, name: &str) -> (r: bool)
        ensures
            r == self@.contains_key(name@),
    {
        self.get(name).is_some()
    }

    /// Takes `name` and its value out of the map.
    pub fn remove(&mut self, name: &str) -> (r: Option<V>)
        ensures
            final(self)@ == old(self)@.remove(name@),
            match r {
                Some(value) => old(self)@.contains_key(name@) && value == old(self)@[name@],
                None => !old(self)@.contains_key(name@),
            },
    {
        proof {
            use_type_invariant(&*self);
        }
        let ghost before = *self;
        match self.position(name) {
            Some(i) => {
                let mut entries: Vec<(String, V)> = Vec::new();
                std::mem::swap(&mut entries, &mut self.entries);
                let (_, value) = entries.remove(i);
                proof {
                    before.lemma_at(name@, i as int);
                    assert(entries@ =~= before.entries@.remove(i as int));
                    assert forall|a: int, b: int| 0 <= a < b < entries@.len() implies (
                    #[trigger] entries@[a]).0@ != (#[trigger] entries@[b]).0@ by {
                        let a2 = if a < i { a } else { a + 1 };
                        let b2 = if b < i { b } else { b + 1 };
                        assert(before.entries@[a2].0@ != before.entries@[b2].0@);
                    }
                }
                self.entries = entries;
                proof {
                    assert forall|other: Seq<char>| other != name@ && #[trigger]
                        before@.contains_key(other) implies self@.contains_key(other) && self@[other]
                        == before@[other] by {
                        let k = choose|k: int| before.is_at(other, k);
                        before.lemma_at(other, k);
                        let k2 = if k < i { k } else { k - 1 };
                        assert(self.entries@[k2] == before.entries@[k]);
                        self.lemma_at(other, k2);
                    }
                    assert forall|other: Seq<char>| #[trigger] self@.contains_key(other) implies
                        before@.contains_key(other) && other != name@ by {
                        let k = choose|k: int| self.is_at(other, k);
                        let k2 = if k < i { k } else { k + 1 };
                        assert(before.entries@[k2] == self.entries@[k]);
                        before.lemma_at(other, k2);
                        if other == name@ {
                            if k2 < i {
                                assert(before.entries@[k2].0@ != before.entries@[i as int].0@);
                            } else {
                                assert(before.entries@[i as int].0@ != before.entries@[k2].0@);
                            }
                        }
                    }
                    assert(self@ =~= before@.remove(name@));
                }
                Some(value)
            },
            None => {
                assert(self@ =~= before@.remove(name@));
                None
            },
        }
    }

    /// Gives `name` the value `value`, instead of the one that it has.
    pub fn insert(&mut self, name: String, value: V)
        ensures
            final(self)@ == old(self)@.insert(name@, value),
    {
        let ghost view = self@;
        self.remove(name.as_str());
        proof {
            use_type_invariant(&*self);
        }
        let ghost before = *self;
        let ghost key = name@;
        let mut entries: Vec<(String, V)> = Vec::new();
        std::mem::swap(&mut entries, &mut self.entries);
        entries.push((name, value));
        proof {
            assert(entries@.drop_last() =~= before.entries@);
            let n = before.entries@.len() as int;
            assert forall|a: int, b: int| 0 <= a < b < entries@.len() implies (
            #[trigger] entries@[a]).0@ != (#[trigger] entries@[b]).0@ by {
                assert(entries@[a] == before.entries@[a]);
                if b < n {
                    assert(entries@[b] == before.entries@[b]);
                    assert(before.entries@[a].0@ != before.entries@[b].0@);
                } else {
                    if before.entries@[a].0@ == key {
                        before.lemma_at(key, a);
                    }
                }
            }
        }
        self.entries = entries;
        proof {
            let n = before.entries@.len() as int;
            self.lemma_at(key, n);
            assert forall|other: Seq<char>| #[trigger] before@.contains_key(other) implies
                self@.contains_key(other) && self@[other] == before@[other] by {
                let k = choose|k: int| before.is_at(other, k);
                before.lemma_at(other, k);
                assert(self.entries@[k] == before.entries@[k]);
                self.lemma_at(other, k);
            }
            assert forall|other: Seq<char>| #[trigger] self@.contains_key(other) implies other
                == key || before@.contains_key(other) by {
                let k = choose|k: int| self.is_at(other, k);
                if k < n {
                    assert(self.entries@[k] == before.entries@[k]);
                    before.lemma_at(other, k);
                }
            }
            assert forall|other: Seq<char>| self@.contains_key(other) == view.insert(
                key,
                value,
            ).contains_key(other) by {
                assert(other != key ==> before@.contains_key(other) == view.contains_key(other));
            }
            assert forall|other: Seq<char>| self@.contains_key(other) implies self@[other]
                == view.insert(key, value)[other] by {
                if other != key {
                    assert(before@.contains_key(other));
                    assert(before@[other] == view[other]);
                }
            }
            assert(self@ =~= view.insert(key, value));
        }
    }
}

} // verus!
