//! A map from strings to values.

use vstd::prelude::*;
use vstd::string::*;

use crate::text::str_eq;

verus! {

/// A map from strings to values, kept as a list of entries.
pub struct StrMap<V> {
    entries: Vec<(String, V)>,
}

/// The index of the first entry with the given key at or after `from`.
spec fn index_from<V>(entries: Seq<(String, V)>, key: Seq<char>, from: int) -> Option<int>
    decreases entries.len() - from,
{
    if from < 0 || from >= entries.len() {
        None
    } else if entries[from].0@ == key {
        Some(from)
    } else {
        index_from(entries, key, from + 1)
    }
}

proof fn lemma_index_from<V>(entries: Seq<(String, V)>, key: Seq<char>, from: int)
    requires
        0 <= from <= entries.len(),
    ensures
        match index_from(entries, key, from) {
            Some(i) => {
                &&& from <= i < entries.len()
                &&& entries[i].0@ == key
                &&& forall|j: int| from <= j < i ==> (#[trigger] entries[j]).0@ != key
            },
            None => forall|j: int| from <= j < entries.len() ==> (#[trigger] entries[j]).0@ != key,
        },
    decreases entries.len() - from,
{
    if from < entries.len() && entries[from].0@ != key {
        lemma_index_from(entries, key, from + 1);
    }
}

/// An entry that no earlier entry hides is the one that is found.
proof fn lemma_index_is<V>(entries: Seq<(String, V)>, key: Seq<char>, i: int)
    requires
        0 <= i < entries.len(),
        entries[i].0@ == key,
        forall|j: int| 0 <= j < i ==> (#[trigger] entries[j]).0@ != key,
    ensures
        index_from(entries, key, 0) == Some(i),
{
    lemma_index_from(entries, key, 0);
}

/// Lists with the same keys find the same entry.
proof fn lemma_same_keys<V>(a: Seq<(String, V)>, b: Seq<(String, V)>, key: Seq<char>, from: int)
    requires
        a.len() == b.len(),
        forall|j: int| 0 <= j < a.len() ==> (#[trigger] a[j]).0@ == b[j].0@,
    ensures
        index_from(a, key, from) == index_from(b, key, from),
    decreases a.len() - from,
{
    if 0 <= from < a.len() {
        lemma_same_keys(a, b, key, from + 1);
    }
}

/// A new entry at the end is found only where no other one is.
proof fn lemma_pushed<V>(a: Seq<(String, V)>, e: (String, V), key: Seq<char>, from: int)
    requires
        0 <= from <= a.len(),
    ensures
        index_from(a.push(e), key, from) == match index_from(a, key, from) {
            Some(i) => Some(i),
            None => if e.0@ == key {
                Some(a.len() as int)
            } else {
                None
            },
        },
    decreases a.len() - from,
{
    if from < a.len() {
        lemma_pushed(a, e, key, from + 1);
    } else {
        assert(index_from(a.push(e), key, from + 1) is None);
    }
}

/// The map that a list of entries stands for.
spec fn map_of<V: View>(entries: Seq<(String, V)>) -> Map<Seq<char>, V::V> {
    Map::new(
        |k: Seq<char>| index_from(entries, k, 0) is Some,
        |k: Seq<char>| entries[index_from(entries, k, 0)->0].1@,
    )
}

/// Changing the entry under a key changes the map under that key alone.
proof fn lemma_map_update<V: View>(entries: Seq<(String, V)>, key: Seq<char>, i: int, e: (String, V))
    requires
        index_from(entries, key, 0) == Some(i),
        e.0@ == key,
    ensures
        map_of(entries.update(i, e)) == map_of(entries).insert(key, e.1@),
{
    lemma_index_from(entries, key, 0);
    let after = entries.update(i, e);
    assert forall|k: Seq<char>| index_from(after, k, 0) == index_from(entries, k, 0) by {
        lemma_same_keys(after, entries, k, 0);
    }
    assert forall|k: Seq<char>| #[trigger] map_of(after).contains_key(k) && k != key implies map_of(after)[k] == map_of(
        entries,
    )[k] by {
        lemma_index_from(entries, k, 0);
    }
    assert(map_of(after) =~= map_of(entries).insert(key, e.1@));
}

/// A new entry at the end puts its value under its key, where the key is new.
proof fn lemma_map_push<V: View>(entries: Seq<(String, V)>, e: (String, V))
    requires
        index_from(entries, e.0@, 0) is None,
    ensures
        map_of(entries.push(e)) == map_of(entries).insert(e.0@, e.1@),
{
    let after = entries.push(e);
    assert forall|k: Seq<char>|
        map_of(after).contains_key(k) <==> #[trigger] map_of(entries).insert(e.0@, e.1@).contains_key(k) by {
        lemma_pushed(entries, e, k, 0);
    }
    assert forall|k: Seq<char>| #[trigger] map_of(after).contains_key(k) implies map_of(after)[k] == map_of(
        entries,
    ).insert(e.0@, e.1@)[k] by {
        lemma_pushed(entries, e, k, 0);
        lemma_index_from(entries, k, 0);
    }
    assert(map_of(after) =~= map_of(entries).insert(e.0@, e.1@));
}

impl<V: View> View for StrMap<V> {
    type V = Map<Seq<char>, V::V>;

    closed spec fn view(&self) -> Map<Seq<char>, V::V> {
        map_of(self.entries@)
    }
}

impl<V: View> StrMap<V> {
    pub fn new() -> (r: Self)
        ensures
            r@ == Map::<Seq<char>, V::V>::empty(),
    {
        let r = StrMap { entries: Vec::new() };
        assert(r@ =~= Map::<Seq<char>, V::V>::empty());
        r
    }

    fn find(&self, key: &str) -> (r: Option<usize>)
        ensures
            match r {
                Some(i) => i < self.entries@.len() && index_from(self.entries@, key@, 0) == Some(i as int),
                None => index_from(self.entries@, key@, 0) is None,
            },
    {
        let mut i: usize = 0;
        while i < self.entries.len()
            invariant
                i <= self.entries@.len(),
                index_from(self.entries@, key@, 0) == index_from(self.entries@, key@, i as int),
            decreases self.entries@.len() - i,
        {
            if str_eq(self.entries[i].0.as_str(), key) {
                return Some(i);
            }
            i = i + 1;
        }
        None
    }

    /// The value under `key`, if there is one.
    pub fn get<'a>(&'a self, key: &str) -> (r: Option<&'a V>)
        ensures
            match r {
                Some(v) => self@.contains_key(key@) && self@[key@] == v@,
                None => !self@.contains_key(key@),
            },
    {
        match self.find(key) {
            Some(i) => Some(&self.entries[i].1),
            None => None,
        }
    }

    /// Puts `value` under `key`.
    pub fn insert(&mut self, key: &str, value: V)
        ensures
            final(self)@ == old(self)@.insert(key@, value@),
    {
        let ghost before = self.entries@;
        match self.find(key) {
            Some(i) => {
                let entry: (String, V) = (key.to_owned(), value);
                proof {
                    lemma_map_update(before, key@, i as int, entry);
                }
                self.entries.set(i, entry);
            },
            None => {
                let entry: (String, V) = (key.to_owned(), value);
                proof {
                    lemma_map_push(before, entry);
                }
                self.entries.push(entry);
            },
        }
    }

    /// Takes the value under `key` out.
    pub fn remove(&mut self, key: &str)
        ensures
            final(self)@ == old(self)@.remove(key@),
    {
        let ghost start = self@;
        loop
            invariant
                self@.remove(key@) == start.remove(key@),
            ensures
                self@ == start.remove(key@),
            decreases self.entries@.len(),
        {
            match self.find(key) {
                Some(i) => {
                    let ghost before = self.entries@;
                    let ghost view_before = self@;
                    self.entries.remove(i);
                    proof {
                        let after = self.entries@;
                        lemma_index_from(before, key@, 0);
                        assert forall|k: Seq<char>| k != key@ implies {
                            &&& (index_from(after, k, 0) is Some <==> index_from(before, k, 0) is Some)
                            &&& (index_from(after, k, 0) is Some ==> after[index_from(after, k, 0)->0]
                                == before[index_from(before, k, 0)->0])
                        } by {
                            lemma_index_from(before, k, 0);
                            lemma_index_from(after, k, 0);
                            if index_from(before, k, 0) is Some {
                                let j = index_from(before, k, 0)->0;
                                let j2 = if j < i { j } else { j - 1 };
                                lemma_index_is(after, k, j2);
                            } else if index_from(after, k, 0) is Some {
                                let j = index_from(after, k, 0)->0;
                                let j2 = if j < i { j } else { j + 1 };
                                assert(before[j2] == after[j]);
                            }
                        }
                        assert(self@.remove(key@) =~= view_before.remove(key@));
                    }
                },
                None => {
                    assert(self@ =~= self@.remove(key@));
                    break;
                },
            }
        }
    }

    /// Takes every value out.
    pub fn clear(&mut self)
        ensures
            final(self)@ == Map::<Seq<char>, V::V>::empty(),
    {
        self.entries = Vec::new();
        assert(self@ =~= Map::<Seq<char>, V::V>::empty());
    }

    /// The value under `key`, to be changed in place; `fallback` is put there first where there is
    /// none.
    pub fn entry_or<'a>(&'a mut self, key: &str, fallback: V) -> (r: &'a mut V)
        ensures
            r@ == (if old(self)@.contains_key(key@) { old(self)@[key@] } else { fallback@ }),
            final(self)@ == old(self)@.insert(key@, final(r)@),
    {
        if self.find(key).is_none() {
            self.insert(key, fallback);
        }
        assert(self@.contains_key(key@));
        let i: usize = self.find(key).unwrap();
        proof {
            lemma_index_from(self.entries@, key@, 0);
        }
        let ghost now = self.entries@;
        assert(map_of(now)[key@] == now[i as int].1@);
        assert(map_of(now)[key@] == (if old(self)@.contains_key(key@) {
            old(self)@[key@]
        } else {
            fallback@
        }));
        assert forall|v: V| map_of(#[trigger] now.update(i as int, (now[i as int].0, v))) == map_of(now).insert(
            key@,
            v@,
        ) by {
            lemma_map_update(now, key@, i as int, (now[i as int].0, v));
        }
        &mut self.entries[i].1
    }
}

} // verus!
