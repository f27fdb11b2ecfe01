//! A map from names to values that remembers the order of insertion.

use crate::text::same_text;
use vstd::prelude::*;

verus! {

/// Whether no name stands at two places of `entries`.
pub open spec fn distinct<V>(entries: Seq<(Seq<char>, V)>) -> bool {
    forall|i: int, j: int|
        0 <= i < entries.len() && 0 <= j < entries.len() && i != j ==> (#[trigger] entries[i]).0
            != (#[trigger] entries[j]).0
}

/// Where `name` stands in `entries`, if it does.
pub open spec fn place<V>(entries: Seq<(Seq<char>, V)>, name: Seq<char>) -> Option<int>
    decreases entries.len(),
{
    if entries.len() == 0 {
        None
    } else if entries.last().0 == name {
        Some(entries.len() - 1)
    } else {
        place(entries.drop_last(), name)
    }
}

/// What `place` finds is a place of the name, and it finds every name that is
/// there.
pub proof fn lemma_place<V>(entries: Seq<(Seq<char>, V)>, name: Seq<char>)
    ensures
        match place(entries, name) {
            Some(at) => 0 <= at < entries.len() && entries[at].0 == name,
            None => forall|i: int| 0 <= i < entries.len() ==> (#[trigger] entries[i]).0 != name,
        },
    decreases entries.len(),
{
    if entries.len() > 0 && entries.last().0 != name {
        lemma_place(entries.drop_last(), name);
        if place(entries, name) is None {
            assert forall|i: int| 0 <= i < entries.len() implies (#[trigger] entries[i]).0
                != name by {
                if i < entries.len() - 1 {
                    assert(entries.drop_last()[i] == entries[i]);
                }
            }
        }
    }
}

/// Among distinct names, the place of a name is the one place where it stands.
pub proof fn lemma_place_of_distinct<V>(entries: Seq<(Seq<char>, V)>, at: int)
    requires
        distinct(entries),
        0 <= at < entries.len(),
    ensures
        place(entries, entries[at].0) == Some(at),
{
    lemma_place(entries, entries[at].0);
}

/// Values under distinct names, in the order in which the names came.
#[derive(Debug, PartialEq, Eq)]
pub struct NameMap<V> {
    entries: Vec<(String, V)>,
}

impl<V> View for NameMap<V> {
    type V = Seq<(Seq<char>, V)>;

    closed spec fn view(&self) -> Seq<(Seq<char>, V)> {
        Seq::new(self.entries@.len(), |i: int| (self.entries@[i].0@, self.entries@[i].1))
    }
}

impl<V> NameMap<V> {
    #[verifier::type_invariant]
    closed spec fn inv(&self) -> bool {
        distinct(self@)
    }

    /// A map without entries.
    pub fn new() -> (map: Self)
        ensures
            map@ == Seq::<(Seq<char>, V)>::empty(),
    {
        let map = NameMap { entries: Vec::new() };
        assert(map@ =~= Seq::<(Seq<char>, V)>::empty());
        map
    }

    /// The number of entries; the names of a map are always distinct.
    pub fn len(&self) -> (count: usize)
        ensures
            count == self@.len(),
            distinct(self@),
    {
        proof {
            use_type_invariant(self);
        }
        self.entries.len()
    }

    /// Where `name` stands.
    pub fn index_of(&self, name: &str) -> (found: Option<usize>)
        ensures
            match found {
                Some(at) => place(self@, name@) == Some(at as int),
                None => place(self@, name@) is None,
            },
    {
        proof {
            use_type_invariant(self);
        }
        let mut at: usize = 0;
        while at < self.entries.len()
            invariant
                at <= self.entries.len(),
                distinct(self@),
                forall|i: int| 0 <= i < at ==> (#[trigger] self@[i]).0 != name@,
            decreases self.entries.len() - at,
        {
            if same_text(self.entries[at].0.as_str(), name) {
                proof {
                    lemma_place_of_distinct(self@, at as int);
                }
                return Some(at);
            }
            at += 1;
        }
        proof {
            lemma_place(self@, name@);
        }
        None
    }

    /// The name of the entry at `at`.
    pub fn name_at(&self, at: usize) -> (name: &String)
        requires
            at < self@.len(),
        ensures
            name@ == self@[at as int].0,
    {
        &self.entries[at].0
    }

    /// The value of the entry at `at`.
    pub fn value_at(&self, at: usize) -> (value: &V)
        requires
            at < self@.len(),
        ensures
            *value == self@[at as int].1,
    {
        &self.entries[at].1
    }

    /// The value under `name`.
    pub fn get(&self, name: &str) -> (found: Option<&V>)
        ensures
            match place(self@, name@) {
                Some(at) => found == Some(&self@[at].1),
                None => found is None,
            },
    {
        proof {
            lemma_place(self@, name@);
        }
        match self.index_of(name) {
            Some(at) => Some(&self.entries[at].1),
            None => None,
        }
    }

    /// Puts `value` under `name`: in place of the value that stood there, or
    /// else behind all entries.
    pub fn insert(&mut self, name: String, value: V)
        ensures
            match place(old(self)@, name@) {
                Some(at) => final(self)@ == old(self)@.update(at, (name@, value)),
                None => final(self)@ == old(self)@.push((name@, value)),
            },
    {
        proof {
            use_type_invariant(&*self);
            lemma_place(self@, name@);
        }
        let found = self.index_of(name.as_str());
        let ghost before = self@;
        // The entries change outside the map and come back as a whole, so
        // that the map is never seen with a name twice.
        let mut taken = NameMap { entries: Vec::new() };
        assert(taken@ =~= Seq::<(Seq<char>, V)>::empty());
        core::mem::swap(self, &mut taken);
        let NameMap { entries } = taken;
        let mut entries = entries;
        match found {
            Some(at) => {
                entries.set(at, (name, value));
            },
            None => {
                entries.push((name, value));
            },
        }
        let ghost after = if found is Some {
            before.update(found->0 as int, (name@, value))
        } else {
            before.push((name@, value))
        };
        assert(Seq::new(entries@.len(), |i: int| (entries@[i].0@, entries@[i].1)) =~= after);
        assert(distinct(after)) by {
            assert forall|i: int, j: int|
                0 <= i < after.len() && 0 <= j < after.len() && i != j implies (#[trigger] after[i]).0
                != (#[trigger] after[j]).0 by {
                if i < before.len() {
                    assert(before[i].0 == before[i].0);
                }
                if j < before.len() {
                    assert(before[j].0 == before[j].0);
                }
            }
        }
        *self = NameMap { entries };
    }
}

} // verus!
