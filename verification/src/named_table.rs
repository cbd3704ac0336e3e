//! A table of values by name.

use crate::text::same_text;
use vstd::prelude::*;
use vstd::seq_lib::*;
use vstd::string::*;

verus! {

/// A table that holds at most one value for each name.
pub struct NamedTable<T> {
    names: Vec<String>,
    values: Vec<T>,
}

impl<T> View for NamedTable<T> {
    type V = Map<Seq<char>, T>;

    closed spec fn view(&self) -> Map<Seq<char>, T> {
        Map::new(|name: Seq<char>| self.holds(name), |name: Seq<char>| self.values@[self.at(name)])
    }
}

impl<T> NamedTable<T> {
    spec fn holds(self, name: Seq<char>) -> bool {
        exists|i: int| 0 <= i < self.names@.len() && #[trigger] self.names@[i]@ == name
    }

    spec fn at(self, name: Seq<char>) -> int {
        choose|i: int| 0 <= i < self.names@.len() && #[trigger] self.names@[i]@ == name
    }

    /// Each name stands in the table once.
    pub closed spec fn wf(self) -> bool {
        &&& self.names@.len() == self.values@.len()
        &&& forall|i: int, j: int|
            0 <= i < j < self.names@.len() ==> #[trigger] self.names@[i]@
                != #[trigger] self.names@[j]@
    }

    proof fn lemma_entry(self, i: int)
        requires
            self.wf(),
            0 <= i < self.names@.len(),
        ensures
            self@.dom().contains(self.names@[i]@),
            self@[self.names@[i]@] == self.values@[i],
            self.at(self.names@[i]@) == i,
    {
        assert(self.holds(self.names@[i]@));
    }

    /// An empty table.
    pub fn new() -> (table: Self)
        ensures
            table.wf(),
            table@ == Map::<Seq<char>, T>::empty(),
    {
        let table = NamedTable { names: Vec::new(), values: Vec::new() };
        proof {
            assert(table@ =~= Map::<Seq<char>, T>::empty());
        }
        table
    }

    /// Where the name stands.
    fn position(&self, name: &str) -> (position: Option<usize>)
        requires
            self.wf(),
        ensures
            match position {
                Some(i) => i < self.names@.len() && self.names@[i as int]@ == name@,
                None => !self.holds(name@),
            },
    {
        let mut i: usize = 0;
        while i < self.names.len()
            invariant
                i <= self.names@.len(),
                forall|j: int| 0 <= j < i ==> #[trigger] self.names@[j]@ != name@,
            decreases self.names@.len() - i,
        {
            if same_text(self.names[i].as_str(), name) {
                return Some(i);
            }
            i = i + 1;
        }
        None
    }

    /// Whether the table holds a value for the name.
    pub fn contains(&self, name: &str) -> (contained: bool)
        requires
            self.wf(),
        ensures
            contained == self@.dom().contains(name@),
    {
        match self.position(name) {
            Some(i) => {
                proof {
                    self.lemma_entry(i as int);
                }
                true
            },
            None => false,
        }
    }

    /// The value for the name.
    pub fn get(&self, name: &str) -> (value: Option<&T>)
        requires
            self.wf(),
        ensures
            match value {
                Some(value) => self@.dom().contains(name@) && *value == self@[name@],
                None => !self@.dom().contains(name@),
            },
    {
        match self.position(name) {
            Some(i) => {
                proof {
                    self.lemma_entry(i as int);
                }
                Some(&self.values[i])
            },
            None => None,
        }
    }

    /// Takes the value for the name out of the table.
    pub fn remove(&mut self, name: &str) -> (value: Option<T>)
        requires
            old(self).wf(),
        ensures
            final(self).wf(),
            final(self)@ == old(self)@.remove(name@),
            match value {
                Some(value) => old(self)@.dom().contains(name@) && value == old(self)@[name@],
                None => !old(self)@.dom().contains(name@),
            },
    {
        match self.position(name) {
            Some(i) => {
                let ghost before = *self;
                let removed: String = self.names.remove(i);
                let value: T = self.values.remove(i);
                proof {
                    before.lemma_entry(i as int);
                    assert forall|other: Seq<char>| #[trigger]
                        self@.dom().contains(other) == before@.remove(name@).dom().contains(
                            other,
                        ) by {
                        if self.holds(other) {
                            let k = self.at(other);
                            assert(before.names@[if k < i { k } else { k + 1 }]@ == other);
                        }
                        if before.holds(other) && other != name@ {
                            let k = before.at(other);
                            assert(self.names@[if k < i { k } else { k - 1 }]@ == other);
                        }
                    }
                    assert forall|other: Seq<char>| #[trigger]
                        self@.dom().contains(other) implies self@[other] == before@.remove(
                        name@,
                    )[other] by {
                        let k = self.at(other);
                        let m = if k < i {
                            k
                        } else {
                            k + 1
                        };
                        assert(before.names@[m]@ == other);
                        before.lemma_entry(m);
                    }
                    assert(self@ =~= before@.remove(name@));
                }
                Some(value)
            },
            None => {
                proof {
                    assert(self@ =~= self@.remove(name@));
                }
                None
            },
        }
    }

    /// Puts a value into the table, in place of the one that stood there for the name.
    pub fn insert(&mut self, name: &str, value: T)
        requires
            old(self).wf(),
        ensures
            final(self).wf(),
            final(self)@ == old(self)@.insert(name@, value),
    {
        let _replaced = self.remove(name);
        let ghost before = *self;
        proof {
            assert forall|i: int| 0 <= i < before.names@.len() implies #[trigger] before.names@[i]@
                != name@ by {
                before.lemma_entry(i);
            }
        }
        self.names.push(String::from_str(name));
        self.values.push(value);
        proof {
            let last = before.names@.len() as int;
            self.lemma_entry(last);
            assert forall|other: Seq<char>| #[trigger]
                self@.dom().contains(other) == before@.insert(name@, value).dom().contains(
                    other,
                ) by {
                if before.holds(other) {
                    assert(self.names@[before.at(other)]@ == other);
                }
                if self.holds(other) && other != name@ {
                    assert(before.names@[self.at(other)]@ == other);
                }
            }
            assert forall|other: Seq<char>| #[trigger]
                self@.dom().contains(other) && other != name@ implies self@[other]
                == before@[other] by {
                let k = self.at(other);
                assert(before.names@[k]@ == other);
                before.lemma_entry(k);
            }
            assert(self@ =~= old(self)@.insert(name@, value));
        }
    }

    /// The names in the order in which they are walked.
    pub closed spec fn order(self) -> Seq<Seq<char>> {
        self.names@.map_values(|name: String| name@)
    }

    /// The order lists each name of the table once.
    pub proof fn order_lists_each_name_once(self)
        requires
            self.wf(),
        ensures
            self.order().no_duplicates(),
            self.order().to_set() == self@.dom(),
            self@.dom().finite(),
    {
        assert forall|name: Seq<char>| #[trigger]
            self.order().to_set().contains(name) == self@.dom().contains(name) by {
            if self.order().contains(name) {
                let i = choose|i: int| 0 <= i < self.order().len() && self.order()[i] == name;
                self.lemma_entry(i);
            }
            if self.holds(name) {
                assert(self.order()[self.at(name)] == name);
            }
        }
        assert(self.order().to_set() =~= self@.dom());
        seq_to_set_is_finite(self.order());
    }

    /// The number of names.
    pub fn len(&self) -> (len: usize)
        ensures
            len == self.order().len(),
    {
        self.names.len()
    }

    /// The name at a place of the order, with its value.
    pub fn entry(&self, i: usize) -> (entry: (&str, &T))
        requires
            self.wf(),
            i < self.order().len(),
        ensures
            entry.0@ == self.order()[i as int],
            self@.dom().contains(entry.0@),
            *entry.1 == self@[entry.0@],
    {
        proof {
            self.lemma_entry(i as int);
        }
        (self.names[i].as_str(), &self.values[i])
    }
}

} // verus!
