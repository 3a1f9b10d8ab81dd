//! A map that finds its values by what their keys say.
use vstd::prelude::*;

use crate::text;

verus! {

/// A key: two keys are one if their views are.
pub trait MapKey: View + Sized {
    fn same_key(&self, other: &Self) -> (same: bool)
        ensures
            same == (self@ == other@),
    ;
}

impl MapKey for String {
    fn same_key(&self, other: &Self) -> (same: bool) {
        text::same_text(self.as_str(), other.as_str())
    }
}

/// The value of `key` in `map`, if it has one.
pub open spec fn map_lookup<K, V>(map: Map<K, V>, key: K) -> Option<V> {
    if map.contains_key(key) {
        Some(map[key])
    } else {
        None
    }
}

/// A map from keys to values.
pub struct KeyedMap<K: MapKey, V> {
    entries: Vec<(K, V)>,
}

/// `key` is the key of an entry.
spec fn has_key<K: MapKey, V>(entries: Seq<(K, V)>, key: K::V) -> bool {
    exists|i: int| 0 <= i < entries.len() && #[trigger] entries[i].0@ == key
}

/// The index of an entry with the key.
spec fn position<K: MapKey, V>(entries: Seq<(K, V)>, key: K::V) -> int {
    choose|i: int| 0 <= i < entries.len() && #[trigger] entries[i].0@ == key
}

/// No two entries have one key.
spec fn keys_differ<K: MapKey, V>(entries: Seq<(K, V)>) -> bool {
    forall|i: int, j: int|
        0 <= i < j < entries.len() ==> #[trigger] entries[i].0@ != #[trigger] entries[j].0@
}

/// The map that `entries` stand for.
spec fn as_map<K: MapKey, V>(entries: Seq<(K, V)>) -> Map<K::V, V> {
    Map::new(|key: K::V| has_key(entries, key), |key: K::V| entries[position(entries, key)].1)
}

impl<K: MapKey, V> View for KeyedMap<K, V> {
    type V = Map<K::V, V>;

    closed spec fn view(&self) -> Map<K::V, V> {
        as_map(self.entries@)
    }
}

/// An entry is found by its key.
proof fn lemma_lookup<K: MapKey, V>(entries: Seq<(K, V)>, i: int)
    requires
        keys_differ(entries),
        0 <= i < entries.len(),
    ensures
        as_map(entries).contains_key(entries[i].0@),
        as_map(entries)[entries[i].0@] == entries[i].1,
{
    assert(has_key(entries, entries[i].0@));
    let j = position(entries, entries[i].0@);
    assert(entries[j].0@ == entries[i].0@);
}

/// A new entry extends the map.
proof fn lemma_push<K: MapKey, V>(entries: Seq<(K, V)>, entry: (K, V))
    requires
        keys_differ(entries),
        !has_key(entries, entry.0@),
    ensures
        keys_differ(entries.push(entry)),
        as_map(entries.push(entry)) == as_map(entries).insert(entry.0@, entry.1),
{
    let longer = entries.push(entry);
    assert(keys_differ(longer));
    let extended = as_map(entries).insert(entry.0@, entry.1);
    assert forall|key: K::V|
        #![trigger as_map(longer).dom().contains(key)]
        #![trigger extended.dom().contains(key)]
        #![trigger as_map(longer)[key]]
        #![trigger extended[key]]
        as_map(longer).dom().contains(key) == extended.dom().contains(key) && (extended.dom().contains(
            key,
        ) ==> as_map(longer)[key] == extended[key]) by {
        if has_key(longer, key) {
            let i = position(longer, key);
            lemma_lookup(longer, i);
            if i < entries.len() {
                assert(entries[i].0@ == key);
                lemma_lookup(entries, i);
            }
        }
        if has_key(entries, key) {
            let i = position(entries, key);
            assert(longer[i].0@ == key);
        }
        assert(longer[entries.len() as int] == entry);
    }
    assert(as_map(longer) =~= extended);
}

/// Taking an entry away, with the last one in its place, takes its key away.
proof fn lemma_swap_remove<K: MapKey, V>(entries: Seq<(K, V)>, at: int)
    requires
        keys_differ(entries),
        0 <= at < entries.len(),
    ensures
        keys_differ(entries.update(at, entries.last()).drop_last()),
        as_map(entries.update(at, entries.last()).drop_last()) == as_map(entries).remove(
            entries[at].0@,
        ),
        !has_key(entries.update(at, entries.last()).drop_last(), entries[at].0@),
{
    let shorter = entries.update(at, entries.last()).drop_last();
    let reduced = as_map(entries).remove(entries[at].0@);
    let last = entries.len() - 1;
    assert forall|i: int, j: int| 0 <= i < j < shorter.len() implies #[trigger] shorter[i].0@
        != #[trigger] shorter[j].0@ by {
        assert(entries[i].0@ != entries[j].0@);
        assert(entries[i].0@ != entries[last].0@);
        assert(entries[j].0@ != entries[last].0@);
    }
    assert forall|key: K::V|
        #![trigger as_map(shorter).dom().contains(key)]
        #![trigger reduced.dom().contains(key)]
        #![trigger as_map(shorter)[key]]
        #![trigger reduced[key]]
        as_map(shorter).dom().contains(key) == reduced.dom().contains(key) && (reduced.dom().contains(
            key,
        ) ==> as_map(shorter)[key] == reduced[key]) by {
        if has_key(shorter, key) {
            let i = position(shorter, key);
            lemma_lookup(shorter, i);
            if i == at {
                lemma_lookup(entries, last);
                assert(entries[at].0@ != entries[last].0@);
            } else {
                lemma_lookup(entries, i);
                assert(entries[i].0@ != entries[at].0@);
            }
        }
        if has_key(entries, key) && key != entries[at].0@ {
            let i = position(entries, key);
            if i == last {
                assert(shorter[at].0@ == key);
            } else {
                assert(shorter[i].0@ == key);
            }
        }
    }
    assert(as_map(shorter) =~= reduced);
    if has_key(shorter, entries[at].0@) {
        assert(as_map(shorter).contains_key(entries[at].0@));
    }
}

impl<K: MapKey, V> KeyedMap<K, V> {
    #[verifier::type_invariant]
    spec fn keys_are_distinct(self) -> bool {
        keys_differ(self.entries@)
    }

    pub fn new() -> (map: Self)
        ensures
            map@ == Map::<K::V, V>::empty(),
    {
        let entries: Vec<(K, V)> = Vec::new();
        assert(as_map(entries@) =~= Map::<K::V, V>::empty());
        KeyedMap { entries }
    }

    /// The index of the entry with `key`.
    fn find(&self, key: &K) -> (at: Option<usize>)
        ensures
            at matches Some(i) ==> i < self.entries@.len() && self.entries@[i as int].0@ == key@,
            at is None ==> !has_key(self.entries@, key@),
    {
        let mut i: usize = 0;
        while i < self.entries.len()
            invariant
                i <= self.entries@.len(),
                forall|j: int| 0 <= j < i ==> #[trigger] self.entries@[j].0@ != key@,
            decreases self.entries@.len() - i,
        {
            if self.entries[i].0.same_key(key) {
                return Some(i);
            }
            i = i + 1;
        }
        None
    }

    /// Looks `key` up.
    pub fn get(&self, key: &K) -> (value: Option<&V>)
        ensures
            value is Some <==> self@.contains_key(key@),
            value matches Some(v) ==> *v == self@[key@],
    {
        proof {
            use_type_invariant(self);
        }
        match self.find(key) {
            Some(i) => {
                proof {
                    lemma_lookup(self.entries@, i as int);
                }
                Some(&self.entries[i].1)
            },
            None => None,
        }
    }

    /// Takes the value of `key` away, if it has one, and returns it.
    pub fn remove(&mut self, key: &K) -> (value: Option<V>)
        ensures
            final(self)@ == old(self)@.remove(key@),
            value is Some <==> old(self)@.contains_key(key@),
            value matches Some(v) ==> v == old(self)@[key@],
    {
        proof {
            use_type_invariant(&*self);
        }
        match self.find(key) {
            Some(i) => {
                let mut entries: Vec<(K, V)> = Vec::new();
                std::mem::swap(&mut self.entries, &mut entries);
                proof {
                    lemma_lookup(entries@, i as int);
                    lemma_swap_remove(entries@, i as int);
                }
                let entry = entries.swap_remove(i);
                self.entries = entries;
                Some(entry.1)
            },
            None => {
                assert(self@ =~= old(self)@.remove(key@));
                None
            },
        }
    }

    /// Gives `key` the value, and returns the one it had.
    pub fn insert(&mut self, key: K, value: V) -> (previous: Option<V>)
        ensures
            final(self)@ == old(self)@.insert(key@, value),
            previous is Some <==> old(self)@.contains_key(key@),
            previous matches Some(v) ==> v == old(self)@[key@],
    {
        let previous = self.remove(&key);
        proof {
            use_type_invariant(&*self);
        }
        let mut entries: Vec<(K, V)> = Vec::new();
        std::mem::swap(&mut self.entries, &mut entries);
        proof {
            if has_key(entries@, key@) {
                assert(as_map(entries@).contains_key(key@));
            }
            lemma_push(entries@, (key, value));
            assert(old(self)@.remove(key@).insert(key@, value) =~= old(self)@.insert(key@, value));
        }
        entries.push((key, value));
        self.entries = entries;
        previous
    }

    /// Takes every value away.
    pub fn clear(&mut self)
        ensures
            final(self)@ == Map::<K::V, V>::empty(),
    {
        let entries: Vec<(K, V)> = Vec::new();
        assert(as_map(entries@) =~= Map::<K::V, V>::empty());
        self.entries = entries;
    }
}

impl KeyedMap<String, String> {
    /// Gives each key of `other` its value there.
    pub fn extend(&mut self, other: &Self)
        ensures
            final(self)@ == old(self)@.union_prefer_right(other@),
    {
        proof {
            use_type_invariant(other);
        }
        let mut i: usize = 0;
        let ghost all = other.entries@;
        proof {
            assert(as_map(all.take(0)) =~= Map::<Seq<char>, String>::empty());
            assert(self@ =~= old(self)@.union_prefer_right(as_map(all.take(0))));
        }
        while i < other.entries.len()
            invariant
                i <= all.len(),
                all == other.entries@,
                keys_differ(all),
                self@ == old(self)@.union_prefer_right(as_map(all.take(i as int))),
            decreases all.len() - i,
        {
            let ghost before = self@;
            let entry = &other.entries[i];
            let key = entry.0.clone();
            let value = entry.1.clone();
            self.insert(key, value);
            proof {
                let done = all.take(i as int);
                assert(keys_differ(done)) by {
                    assert forall|a: int, b: int| 0 <= a < b < done.len() implies #[trigger] done[a].0@
                        != #[trigger] done[b].0@ by {
                        assert(all[a].0@ != all[b].0@);
                    }
                }
                assert(!has_key(done, key@)) by {
                    if has_key(done, key@) {
                        let j = position(done, key@);
                        assert(all[j].0@ != all[i as int].0@);
                    }
                }
                lemma_push(done, all[i as int]);
                assert(all.take(i + 1) =~= done.push(all[i as int]));
                assert(self@ =~= old(self)@.union_prefer_right(as_map(all.take(i + 1))));
            }
            i = i + 1;
        }
        proof {
            assert(all.take(all.len() as int) =~= all);
        }
    }
}

/// A key is looked up to its own value, and to nothing if it has none.
pub proof fn a_key_is_looked_up_to_its_value<K, V>(map: Map<K, V>, key: K)
    ensures
        map_lookup(map, key) is Some <==> map.contains_key(key),
        map.contains_key(key) ==> map_lookup(map, key)->0 == map[key],
{
}

} // verus!
