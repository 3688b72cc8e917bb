//! Items under names: what the backend sends as a map from names to items,
//! kept as a list in the order in which the names came, no name twice.

use vstd::prelude::*;
use vstd::pervasive::cloned;
use crate::text::same_text;

verus! {

/// Items under names, in the order in which the names came. No name
/// occurs twice.
#[derive(Debug, PartialEq)]
pub struct NameMap<T> {
    entries: Vec<(String, T)>,
}

/// No name occurs twice among `entries`.
pub open spec fn distinct_names<T>(entries: Seq<(String, T)>) -> bool {
    forall|i: int, j: int|
        0 <= i < j < entries.len() ==> (#[trigger] entries[i]).0@ != (#[trigger] entries[j]).0@
}

/// Some entry of `entries` has the name `name`.
pub open spec fn has_name<T>(entries: Seq<(String, T)>, name: Seq<char>) -> bool {
    exists|i: int| 0 <= i < entries.len() && (#[trigger] entries[i]).0@ == name
}

impl<T> View for NameMap<T> {
    type V = Seq<(String, T)>;

    closed spec fn view(&self) -> Seq<(String, T)> {
        self.entries@
    }
}

impl<T> NameMap<T> {
    #[verifier::type_invariant]
    spec fn names_are_distinct(&self) -> bool {
        distinct_names(self.entries@)
    }

    /// A map without entries.
    pub fn new() -> (m: NameMap<T>)
        ensures
            m@.len() == 0,
    {
        NameMap { entries: Vec::new() }
    }

    /// The number of entries. No two of them have the same name.
    pub fn len(&self) -> (n: usize)
        ensures
            n == self@.len(),
            distinct_names(self@),
    {
        proof {
            use_type_invariant(self);
        }
        self.entries.len()
    }

    /// Whether the map has no entries.
    pub fn is_empty(&self) -> (b: bool)
        ensures
            b == (self@.len() == 0),
    {
        self.entries.len() == 0
    }

    /// The name of the entry at place `i`.
    pub fn name(&self, i: usize) -> (name: &String)
        requires
            i < self@.len(),
        ensures
            *name == self@[i as int].0,
    {
        &self.entries[i].0
    }

    /// The item of the entry at place `i`.
    pub fn item(&self, i: usize) -> (item: &T)
        requires
            i < self@.len(),
        ensures
            *item == self@[i as int].1,
    {
        &self.entries[i].1
    }

    /// The place of the entry with the name `name`, where there is one.
    pub fn position(&self, name: &str) -> (r: Option<usize>)
        ensures
            match r {
                Some(i) => i < self@.len() && self@[i as int].0@ == name@,
                None => !has_name(self@, name@),
            },
    {
        let mut i: usize = 0;
        while i < self.entries.len()
            invariant
                i <= self.entries.len(),
                forall|j: int| 0 <= j < i ==> (#[trigger] self.entries@[j]).0@ != name@,
            decreases self.entries.len() - i,
        {
            if same_text(self.entries[i].0.as_str(), name) {
                return Some(i);
            }
            i += 1;
        }
        None
    }

    /// The item under the name `name`, where there is one.
    pub fn get(&self, name: &str) -> (r: Option<&T>)
        ensures
            match r {
                Some(item) => exists|i: int|
                    0 <= i < self@.len() && (#[trigger] self@[i]).0@ == name@ && self@[i].1
                        == *item,
                None => !has_name(self@, name@),
            },
    {
        match self.position(name) {
            Some(i) => Some(&self.entries[i].1),
            None => None,
        }
    }

    /// Puts `item` under the name `name`. Where the name is there already,
    /// the entry keeps its place, gets the item, and the item that it had is
    /// handed back; otherwise the entry is added at the end.
    pub fn insert(&mut self, name: String, item: T) -> (previous: Option<T>)
        ensures
            match previous {
                Some(replaced) => exists|i: int|
                    0 <= i < old(self)@.len() && (#[trigger] old(self)@[i]).0@ == name@ && old(
                        self,
                    )@[i].1 == replaced && final(self)@ == old(self)@.update(i, (name, item)),
                None => !has_name(old(self)@, name@) && final(self)@ == old(self)@.push(
                    (name, item),
                ),
            },
    {
        proof {
            use_type_invariant(&*self);
        }
        let ghost before = self@;
        let place = self.position(name.as_str());
        let mut taken: NameMap<T> = NameMap::new();
        core::mem::swap(self, &mut taken);
        let mut entries = taken.entries;
        assert(entries@ == before);
        let previous = match place {
            Some(i) => {
                entries.push((name, item));
                let replaced = entries.swap_remove(i);
                proof {
                    let after = before.update(i as int, (name, item));
                    assert(entries@ =~= after);
                    assert forall|a: int, b: int| 0 <= a < b < after.len() implies (
                    #[trigger] after[a]).0@ != (#[trigger] after[b]).0@ by {
                        assert(after[a].0@ == before[a].0@);
                        assert(after[b].0@ == before[b].0@);
                    }
                }
                Some(replaced.1)
            },
            None => {
                entries.push((name, item));
                proof {
                    let after = before.push((name, item));
                    assert(entries@ =~= after);
                    assert forall|a: int, b: int| 0 <= a < b < after.len() implies (
                    #[trigger] after[a]).0@ != (#[trigger] after[b]).0@ by {
                        assert(after[a] == before[a]);
                        if b < before.len() {
                            assert(after[b] == before[b]);
                        }
                    }
                }
                None
            },
        };
        *self = NameMap { entries };
        previous
    }
}

impl<T: Clone> Clone for NameMap<T> {
    /// A second map with the same names in the same order, each over a copy
    /// of its item.
    fn clone(&self) -> (copy: NameMap<T>)
        ensures
            copy@.len() == self@.len(),
            forall|i: int|
                0 <= i < self@.len() ==> (#[trigger] copy@[i]).0@ == self@[i].0@ && cloned(
                    self@[i].1,
                    copy@[i].1,
                ),
    {
        proof {
            use_type_invariant(self);
        }
        let mut entries: Vec<(String, T)> = Vec::new();
        let mut i: usize = 0;
        while i < self.entries.len()
            invariant
                i <= self.entries.len(),
                entries@.len() == i,
                forall|k: int|
                    0 <= k < i ==> (#[trigger] entries@[k]).0@ == self.entries@[k].0@ && cloned(
                        self.entries@[k].1,
                        entries@[k].1,
                    ),
            decreases self.entries.len() - i,
        {
            let name = self.entries[i].0.clone();
            let item = self.entries[i].1.clone();
            entries.push((name, item));
            i += 1;
        }
        NameMap { entries }
    }
}

} // verus!
