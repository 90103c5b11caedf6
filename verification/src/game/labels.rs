//! A small map from text labels to values that keeps its entries in the order
//! in which the labels were first stored.
use super::text::{lemma_position, lemma_position_is, position, position_from, same_text, texts};
use vstd::prelude::*;
use vstd::string::*;

verus! {

/// The labels of a list of entries, in order.
pub open spec fn labels<V>(entries: Seq<(Seq<char>, V)>) -> Seq<Seq<char>> {
    Seq::new(entries.len(), |i: int| entries[i].0)
}

/// The value stored under `key`, if there is an entry for it.
pub open spec fn lookup<V>(entries: Seq<(Seq<char>, V)>, key: Seq<char>) -> Option<V> {
    match position(labels(entries), key) {
        Some(i) => Some(entries[i].1),
        None => None,
    }
}

/// The entries after `value` is stored under `key`: the entry for `key`
/// takes the new value and keeps its place, and a new entry goes to the end.
pub open spec fn stored<V>(entries: Seq<(Seq<char>, V)>, key: Seq<char>, value: V) -> Seq<
    (Seq<char>, V),
> {
    match position(labels(entries), key) {
        Some(i) => entries.update(i, (key, value)),
        None => entries.push((key, value)),
    }
}

/// Tells whether no label occurs twice.
pub open spec fn distinct(names: Seq<Seq<char>>) -> bool {
    forall|i: int, j: int| 0 <= i < j < names.len() ==> names[i] != names[j]
}

/// After a store, the key maps to the new value and every other key to what it
/// mapped to before.
pub proof fn lemma_lookup_stored<V>(
    entries: Seq<(Seq<char>, V)>,
    key: Seq<char>,
    value: V,
    other: Seq<char>,
)
    ensures
        lookup(stored(entries, key, value), other) == if other == key {
            Some(value)
        } else {
            lookup(entries, other)
        },
{
    let before = labels(entries);
    let after = labels(stored(entries, key, value));
    lemma_position(before, key);
    lemma_position(before, other);
    match position(before, key) {
        Some(i) => {
            assert(after =~= before);
        },
        None => {
            assert(after =~= before.push(key));
            match position(before, other) {
                Some(j) => {
                    lemma_position_is(after, other, j);
                },
                None => {
                    if other == key {
                        lemma_position_is(after, other, before.len() as int);
                    } else {
                        lemma_position(after, other);
                    }
                },
            }
        },
    }
}

/// Storing under a label that no entry has adds an entry at the end.
pub proof fn lemma_stored_new<V>(entries: Seq<(Seq<char>, V)>, key: Seq<char>, value: V)
    requires
        forall|i: int| 0 <= i < entries.len() ==> (#[trigger] entries[i]).0 != key,
    ensures
        stored(entries, key, value) == entries.push((key, value)),
{
    lemma_position(labels(entries), key);
}

/// A store keeps the labels distinct.
pub proof fn lemma_stored_distinct<V>(entries: Seq<(Seq<char>, V)>, key: Seq<char>, value: V)
    requires
        distinct(labels(entries)),
    ensures
        distinct(labels(stored(entries, key, value))),
{
    let before = labels(entries);
    let after = labels(stored(entries, key, value));
    lemma_position(before, key);
    match position(before, key) {
        Some(i) => {
            assert(after =~= before);
        },
        None => {
            assert(after =~= before.push(key));
        },
    }
}

/// A map from labels to values. A label occurs once at most, and the entries
/// stay in the order in which their labels were first stored.
#[derive(Debug)]
pub struct LabelMap<V> {
    entries: Vec<(String, V)>,
}

impl<V> View for LabelMap<V> {
    type V = Seq<(Seq<char>, V)>;

    closed spec fn view(&self) -> Seq<(Seq<char>, V)> {
        Seq::new(self.entries@.len(), |i: int| (self.entries@[i].0@, self.entries@[i].1))
    }
}

impl<V> LabelMap<V> {
    #[verifier::type_invariant]
    spec fn labels_distinct(self) -> bool {
        distinct(labels(self@))
    }
}

impl<V: Clone> Clone for LabelMap<V> {
    /// A map with the same labels in the same order, each with a copy of its value.
    fn clone(&self) -> (copy: Self)
        ensures
            labels(copy@) == labels(self@),
            forall|i: int| 0 <= i < self@.len() ==> cloned::<V>(self@[i].1, #[trigger] copy@[i].1),
    {
        proof {
            use_type_invariant(self);
        }
        let mut entries: Vec<(String, V)> = Vec::new();
        let mut i: usize = 0;
        while i < self.entries.len()
            invariant
                i <= self.entries.len(),
                entries.len() == i,
                forall|k: int| 0 <= k < i ==> entries@[k].0@ == self.entries@[k].0@,
                forall|k: int|
                    0 <= k < i ==> cloned::<V>(self.entries@[k].1, #[trigger] entries@[k].1),
            decreases self.entries.len() - i,
        {
            let label = self.entries[i].0.clone();
            let value = self.entries[i].1.clone();
            entries.push((label, value));
            i = i + 1;
        }
        let ghost after = Seq::new(entries@.len(), |i: int| (entries@[i].0@, entries@[i].1));
        assert(labels(after) =~= labels(self@));
        let copy = LabelMap { entries };
        copy
    }
}

impl<V> LabelMap<V> {
    /// A map without entries.
    pub fn new() -> (map: Self)
        ensures
            map@ == Seq::<(Seq<char>, V)>::empty(),
    {
        let map = LabelMap { entries: Vec::new() };
        map
    }

    /// The number of entries. No two of them have the same label.
    pub fn len(&self) -> (n: usize)
        ensures
            n == self@.len(),
            distinct(labels(self@)),
    {
        proof {
            use_type_invariant(self);
        }
        self.entries.len()
    }

    fn find(&self, key: &str) -> (at: Option<usize>)
        ensures
            match at {
                Some(i) => i < self.entries.len() && position(labels(self@), key@) == Some(
                    i as int,
                ),
                None => position(labels(self@), key@).is_none(),
            },
    {
        let ghost names = labels(self@);
        let mut i: usize = 0;
        while i < self.entries.len()
            invariant
                i <= self.entries.len(),
                names == labels(self@),
                names.len() == self.entries.len(),
                position(names, key@) == position_from(names, key@, i as int),
            decreases self.entries.len() - i,
        {
            if same_text(self.entries[i].0.as_str(), key) {
                return Some(i);
            }
            i = i + 1;
        }
        None
    }

    /// The value stored under `key`, if there is one.
    pub fn get(&self, key: &str) -> (value: Option<&V>)
        ensures
            match value {
                Some(v) => lookup(self@, key@) == Some(*v),
                None => lookup(self@, key@).is_none(),
            },
    {
        match self.find(key) {
            Some(i) => Some(&self.entries[i].1),
            None => None,
        }
    }

    /// Tells whether there is an entry for `key`.
    pub fn contains_key(&self, key: &str) -> (found: bool)
        ensures
            found == lookup(self@, key@).is_some(),
    {
        self.find(key).is_some()
    }

    /// Stores `value` under `key`, in place of what was stored there before.
    pub fn insert(&mut self, key: String, value: V)
        ensures
            final(self)@ == stored(old(self)@, key@, value),
    {
        proof {
            use_type_invariant(&*self);
            lemma_stored_distinct(self@, key@, value);
        }
        let found = self.find(key.as_str());
        let mut entries: Vec<(String, V)> = Vec::new();
        std::mem::swap(&mut entries, &mut self.entries);
        match found {
            Some(i) => {
                entries[i] = (key, value);
            },
            None => {
                entries.push((key, value));
            },
        }
        let ghost after = Seq::new(entries@.len(), |i: int| (entries@[i].0@, entries@[i].1));
        assert(after =~= stored(old(self)@, key@, value));
        self.entries = entries;
    }

    /// The labels, in the order of the entries. No label comes twice.
    pub fn keys(&self) -> (names: Vec<String>)
        ensures
            texts(names@) == labels(self@),
            distinct(texts(names@)),
    {
        proof {
            use_type_invariant(self);
        }
        let mut names: Vec<String> = Vec::new();
        let mut i: usize = 0;
        while i < self.entries.len()
            invariant
                i <= self.entries.len(),
                names.len() == i,
                forall|k: int| 0 <= k < i ==> names@[k]@ == self.entries@[k].0@,
            decreases self.entries.len() - i,
        {
            names.push(self.entries[i].0.clone());
            i = i + 1;
        }
        assert(texts(names@) =~= labels(self@));
        names
    }

    /// The value of the entry at place `i`.
    pub fn value_at(&self, i: usize) -> (value: &V)
        requires
            i < self@.len(),
        ensures
            *value == self@[i as int].1,
    {
        &self.entries[i].1
    }
}

} // verus!
