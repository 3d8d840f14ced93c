//! A map from names to values, kept as a list of entries in insertion order.
use vstd::prelude::*;
use crate::text::string_is;

verus! {

/// The value that `key` has in an entry list: that of its first entry.
pub open spec fn assoc_get<V>(entries: Seq<(Seq<char>, V)>, key: Seq<char>) -> Option<V>
    decreases entries.len(),
{
    if entries.len() == 0 {
        None
    } else if entries[0].0 == key {
        Some(entries[0].1)
    } else {
        assoc_get(entries.drop_first(), key)
    }
}

/// Position of the first entry of `key`, if any.
pub open spec fn assoc_index<V>(entries: Seq<(Seq<char>, V)>, key: Seq<char>) -> Option<int>
    decreases entries.len(),
{
    if entries.len() == 0 {
        None
    } else if entries[0].0 == key {
        Some(0)
    } else {
        match assoc_index(entries.drop_first(), key) {
            Some(i) => Some(i + 1),
            None => None,
        }
    }
}

/// The entry list after setting `key` to `value`: the first entry of `key`
/// takes the new value in place, or a new entry is added at the end.
pub open spec fn assoc_insert<V>(entries: Seq<(Seq<char>, V)>, key: Seq<char>, value: V) -> Seq<(Seq<char>, V)> {
    match assoc_index(entries, key) {
        Some(i) => entries.update(i, (key, value)),
        None => entries.push((key, value)),
    }
}

/// The entry list without the first entry of `key`.
pub open spec fn assoc_remove<V>(entries: Seq<(Seq<char>, V)>, key: Seq<char>) -> Seq<(Seq<char>, V)> {
    match assoc_index(entries, key) {
        Some(i) => entries.remove(i),
        None => entries,
    }
}

pub proof fn lemma_assoc_index<V>(entries: Seq<(Seq<char>, V)>, key: Seq<char>)
    ensures
        match assoc_index(entries, key) {
            Some(i) => 0 <= i < entries.len() && entries[i].0 == key && assoc_get(entries, key)
                == Some(entries[i].1) && forall|j: int| 0 <= j < i ==> entries[j].0 != key,
            None => assoc_get(entries, key) is None && forall|j: int|
                0 <= j < entries.len() ==> entries[j].0 != key,
        },
    decreases entries.len(),
{
    if entries.len() > 0 {
        lemma_assoc_index(entries.drop_first(), key);
        if entries[0].0 != key {
            assert forall|j: int| 1 <= j < entries.len() implies entries[j] == entries.drop_first()[j - 1] by {}
        }
    }
}

/// `assoc_get` of an entry list is the first entry with that key.
pub proof fn lemma_assoc_get_first<V>(entries: Seq<(Seq<char>, V)>, key: Seq<char>, i: int)
    requires
        0 <= i < entries.len(),
        entries[i].0 == key,
        forall|j: int| 0 <= j < i ==> entries[j].0 != key,
    ensures
        assoc_get(entries, key) == Some(entries[i].1),
        assoc_index(entries, key) == Some(i),
{
    lemma_assoc_index(entries, key);
}

/// What `assoc_get` gives after an insertion.
pub proof fn lemma_assoc_insert<V>(entries: Seq<(Seq<char>, V)>, key: Seq<char>, value: V, other: Seq<char>)
    ensures
        assoc_get(assoc_insert(entries, key, value), other) == if other == key {
            Some(value)
        } else {
            assoc_get(entries, other)
        },
{
    let e2 = assoc_insert(entries, key, value);
    lemma_assoc_index(entries, key);
    lemma_assoc_index(entries, other);
    lemma_assoc_index(e2, other);
    match assoc_index(entries, key) {
        Some(i) => {
            if other == key {
                lemma_assoc_get_first(e2, other, i);
            } else {
                match assoc_index(entries, other) {
                    Some(k) => {
                        lemma_assoc_get_first(e2, other, k);
                    },
                    None => {
                        assert forall|j: int| 0 <= j < e2.len() implies e2[j].0 != other by {}
                        assert(assoc_index(e2, other) is None);
                    },
                }
            }
        },
        None => {
            if other == key {
                lemma_assoc_get_first(e2, other, entries.len() as int);
            } else {
                match assoc_index(entries, other) {
                    Some(k) => {
                        lemma_assoc_get_first(e2, other, k);
                    },
                    None => {
                        assert forall|j: int| 0 <= j < e2.len() implies e2[j].0 != other by {}
                        assert(assoc_index(e2, other) is None);
                    },
                }
            }
        },
    }
}

/// A map from names to values: each name has at most one entry, and entries
/// keep the order in which their names were first inserted.
#[derive(Debug)]
pub struct NameMap<V> {
    entries: Vec<(String, V)>,
}

impl<V> View for NameMap<V> {
    type V = Seq<(Seq<char>, V)>;

    closed spec fn view(&self) -> Seq<(Seq<char>, V)> {
        Seq::new(self.entries@.len(), |i: int| (self.entries@[i].0@, self.entries@[i].1))
    }
}

impl<V> NameMap<V> {
    pub fn new() -> (res: Self)
        ensures
            res@ == Seq::<(Seq<char>, V)>::empty(),
    {
        let res = NameMap { entries: Vec::new() };
        assert(res@ =~= Seq::<(Seq<char>, V)>::empty());
        res
    }

    /// Number of names in the map.
    pub fn len(&self) -> (res: usize)
        ensures
            res == self@.len(),
    {
        self.entries.len()
    }

    fn find(&self, key: &str) -> (res: Option<usize>)
        ensures
            match res {
                Some(i) => assoc_index(self@, key@) == Some(i as int) && i < self@.len(),
                None => assoc_index(self@, key@) is None,
            },
    {
        proof {
            lemma_assoc_index(self@, key@);
        }
        let mut i: usize = 0;
        while i < self.entries.len()
            invariant
                i <= self.entries.len(),
                self@.len() == self.entries@.len(),
                forall|j: int| 0 <= j < i ==> self@[j].0 != key@,
            decreases self.entries.len() - i,
        {
            if string_is(&self.entries[i].0, key) {
                proof {
                    lemma_assoc_get_first(self@, key@, i as int);
                }
                return Some(i);
            }
            i = i + 1;
        }
        None
    }

    /// The value of `key`, if the map has it.
    pub fn get(&self, key: &str) -> (res: Option<&V>)
        ensures
            match res {
                Some(v) => assoc_get(self@, key@) == Some(*v),
                None => assoc_get(self@, key@) is None,
            },
    {
        proof {
            lemma_assoc_index(self@, key@);
        }
        match self.find(key) {
            Some(i) => Some(&self.entries[i].1),
            None => None,
        }
    }

    pub fn contains_key(&self, key: &str) -> (res: bool)
        ensures
            res == (assoc_get(self@, key@) is Some),
    {
        proof {
            lemma_assoc_index(self@, key@);
        }
        self.find(key).is_some()
    }

    /// Sets `key` to `value`, replacing the value it had.
    pub fn insert(&mut self, key: String, value: V)
        ensures
            final(self)@ == assoc_insert(old(self)@, key@, value),
    {
        let ghost k = key@;
        let ghost v = value;
        match self.find(key.as_str()) {
            Some(i) => {
                self.entries.set(i, (key, value));
                assert(self@ =~= old(self)@.update(i as int, (k, v)));
            },
            None => {
                self.entries.push((key, value));
                assert(self@ =~= old(self)@.push((k, v)));
            },
        }
    }

    /// The value of `key` for changing in place.
    pub fn get_mut(&mut self, key: &str) -> (res: Option<&mut V>)
        ensures
            match res {
                Some(r) => assoc_get(old(self)@, key@) == Some(*r) && final(self)@ == assoc_insert(
                    old(self)@,
                    key@,
                    *final(r),
                ),
                None => assoc_get(old(self)@, key@) is None && final(self)@ == old(self)@,
            },
    {
        proof {
            lemma_assoc_index(self@, key@);
        }
        match self.find(key) {
            Some(i) => {
                let entry = &mut self.entries[i];
                Some(&mut entry.1)
            },
            None => None,
        }
    }

    /// Removes `key` and its value.
    pub fn remove(&mut self, key: &str)
        ensures
            final(self)@ == assoc_remove(old(self)@, key@),
    {
        match self.find(key) {
            Some(i) => self.remove_at(i),
            None => {},
        }
    }

    /// Removes the entry at position `i`.
    pub fn remove_at(&mut self, i: usize)
        requires
            i < old(self)@.len(),
        ensures
            final(self)@ == old(self)@.remove(i as int),
    {
        self.entries.remove(i);
        assert(self@ =~= old(self)@.remove(i as int));
    }

    /// The entry at position `i`, in insertion order.
    pub fn entry(&self, i: usize) -> (res: (&String, &V))
        requires
            i < self@.len(),
        ensures
            res.0@ == self@[i as int].0,
            *res.1 == self@[i as int].1,
    {
        (&self.entries[i].0, &self.entries[i].1)
    }
}

/// An entry list with each string value replaced by its characters.
pub open spec fn text_entries(entries: Seq<(Seq<char>, String)>) -> Seq<(Seq<char>, Seq<char>)> {
    Seq::new(entries.len(), |i: int| (entries[i].0, entries[i].1@))
}

pub proof fn lemma_text_entries_index(entries: Seq<(Seq<char>, String)>, key: Seq<char>)
    ensures
        assoc_index(text_entries(entries), key) == assoc_index(entries, key),
    decreases entries.len(),
{
    if entries.len() > 0 {
        assert(text_entries(entries).drop_first() =~= text_entries(entries.drop_first()));
        lemma_text_entries_index(entries.drop_first(), key);
    }
}

pub proof fn lemma_text_entries_insert(entries: Seq<(Seq<char>, String)>, key: Seq<char>, value: String)
    ensures
        text_entries(assoc_insert(entries, key, value)) == assoc_insert(text_entries(entries), key, value@),
{
    lemma_text_entries_index(entries, key);
    lemma_assoc_index(entries, key);
    match assoc_index(entries, key) {
        Some(i) => {
            assert(text_entries(entries.update(i, (key, value))) =~= text_entries(entries).update(i, (key, value@)));
        },
        None => {
            assert(text_entries(entries.push((key, value))) =~= text_entries(entries).push((key, value@)));
        },
    }
}

pub proof fn lemma_text_entries_get(entries: Seq<(Seq<char>, String)>, key: Seq<char>)
    ensures
        match assoc_get(entries, key) {
            Some(v) => assoc_get(text_entries(entries), key) == Some(v@),
            None => assoc_get(text_entries(entries), key) is None,
        },
{
    lemma_text_entries_index(entries, key);
    lemma_assoc_index(entries, key);
    lemma_assoc_index(text_entries(entries), key);
}

/// An entry list with each value mapped by `f`.
pub open spec fn map_values<V, W>(entries: Seq<(Seq<char>, V)>, f: spec_fn(V) -> W) -> Seq<(Seq<char>, W)> {
    Seq::new(entries.len(), |i: int| (entries[i].0, f(entries[i].1)))
}

pub proof fn lemma_map_values_index<V, W>(entries: Seq<(Seq<char>, V)>, f: spec_fn(V) -> W, key: Seq<char>)
    ensures
        assoc_index(map_values(entries, f), key) == assoc_index(entries, key),
    decreases entries.len(),
{
    if entries.len() > 0 {
        assert(map_values(entries, f).drop_first() =~= map_values(entries.drop_first(), f));
        lemma_map_values_index(entries.drop_first(), f, key);
    }
}

pub proof fn lemma_map_values_get<V, W>(entries: Seq<(Seq<char>, V)>, f: spec_fn(V) -> W, key: Seq<char>)
    ensures
        assoc_get(map_values(entries, f), key) == match assoc_get(entries, key) {
            Some(v) => Some(f(v)),
            None => None,
        },
{
    lemma_map_values_index(entries, f, key);
    lemma_assoc_index(entries, key);
    lemma_assoc_index(map_values(entries, f), key);
}

pub proof fn lemma_map_values_insert<V, W>(entries: Seq<(Seq<char>, V)>, f: spec_fn(V) -> W, key: Seq<char>, value: V)
    ensures
        map_values(assoc_insert(entries, key, value), f) == assoc_insert(map_values(entries, f), key, f(value)),
{
    lemma_map_values_index(entries, f, key);
    match assoc_index(entries, key) {
        Some(i) => {
            lemma_assoc_index(entries, key);
            assert(map_values(entries.update(i, (key, value)), f) =~= map_values(entries, f).update(i, (key, f(value))));
        },
        None => {
            assert(map_values(entries.push((key, value)), f) =~= map_values(entries, f).push((key, f(value))));
        },
    }
}

pub proof fn lemma_map_values_remove<V, W>(entries: Seq<(Seq<char>, V)>, f: spec_fn(V) -> W, key: Seq<char>)
    ensures
        map_values(assoc_remove(entries, key), f) == assoc_remove(map_values(entries, f), key),
{
    lemma_map_values_index(entries, f, key);
    match assoc_index(entries, key) {
        Some(i) => {
            lemma_assoc_index(entries, key);
            assert(map_values(entries.remove(i), f) =~= map_values(entries, f).remove(i));
        },
        None => {},
    }
}

} // verus!
