//! A map from names to values that remembers the order in which the names came.
use vstd::prelude::*;

use crate::strings::str_eq;

verus! {

/// Whether one of the entries has the key `key`.
pub open spec fn has_key<V>(entries: Seq<(String, V)>, key: Seq<char>) -> bool {
    exists|i: int| 0 <= i < entries.len() && (#[trigger] entries[i]).0@ == key
}

/// The index of an entry with the key `key`.
pub open spec fn index_of<V>(entries: Seq<(String, V)>, key: Seq<char>) -> int {
    choose|i: int| 0 <= i < entries.len() && (#[trigger] entries[i]).0@ == key
}

/// Whether no two entries have the same key.
pub open spec fn keys_distinct<V>(entries: Seq<(String, V)>) -> bool {
    forall|i: int, j: int|
        0 <= i < j < entries.len() ==> (#[trigger] entries[i]).0@ != (#[trigger] entries[j]).0@
}

/// The map that the entries stand for.
pub open spec fn map_of<V>(entries: Seq<(String, V)>) -> Map<Seq<char>, V> {
    Map::new(
        |key: Seq<char>| has_key(entries, key),
        |key: Seq<char>| entries[index_of(entries, key)].1,
    )
}

/// With distinct keys, each entry is what the map holds under its key.
pub proof fn lemma_map_of_entry<V>(entries: Seq<(String, V)>, i: int)
    requires
        keys_distinct(entries),
        0 <= i < entries.len(),
    ensures
        map_of(entries).contains_key(entries[i].0@),
        map_of(entries)[entries[i].0@] == entries[i].1,
        index_of(entries, entries[i].0@) == i,
{
    let key = entries[i].0@;
    let j = index_of(entries, key);
    assert(has_key(entries, key));
    if j < i {
        assert(entries[j].0@ != entries[i].0@);
    } else if i < j {
        assert(entries[i].0@ != entries[j].0@);
    }
}

/// An entry with a new key adds that key to the map.
pub proof fn lemma_map_of_push<V>(entries: Seq<(String, V)>, key: String, value: V)
    requires
        keys_distinct(entries),
        !has_key(entries, key@),
    ensures
        keys_distinct(entries.push((key, value))),
        map_of(entries.push((key, value))) == map_of(entries).insert(key@, value),
{
    let after = entries.push((key, value));
    assert(keys_distinct(after)) by {
        assert forall|i: int, j: int| 0 <= i < j < after.len() implies (#[trigger] after[i]).0@ != (
        #[trigger] after[j]).0@ by {
            if j == entries.len() {
                assert(entries[i].0@ != key@);
            } else {
                assert(entries[i].0@ != entries[j].0@);
            }
        }
    }
    assert forall|k: Seq<char>| has_key(after, k) <==> (k == key@ || has_key(entries, k)) by {
        if has_key(after, k) {
            let i = index_of(after, k);
            if i < entries.len() {
                assert(entries[i].0@ == k);
            }
        }
        if k == key@ {
            assert(after[entries.len() as int].0@ == k);
        }
        if has_key(entries, k) {
            let i = index_of(entries, k);
            assert(after[i].0@ == k);
        }
    }
    assert forall|k: Seq<char>| has_key(after, k) implies map_of(after)[k] == map_of(
        entries,
    ).insert(key@, value)[k] by {
        let i = index_of(after, k);
        lemma_map_of_entry(after, i);
        if i < entries.len() {
            lemma_map_of_entry(entries, i);
        }
    }
    assert(map_of(after) =~= map_of(entries).insert(key@, value));
}

/// A new value for the key of an entry replaces what the map holds under that key.
pub proof fn lemma_map_of_update<V>(entries: Seq<(String, V)>, i: int, key: String, value: V)
    requires
        keys_distinct(entries),
        0 <= i < entries.len(),
        entries[i].0@ == key@,
    ensures
        keys_distinct(entries.update(i, (key, value))),
        map_of(entries.update(i, (key, value))) == map_of(entries).insert(key@, value),
{
    let after = entries.update(i, (key, value));
    assert(keys_distinct(after)) by {
        assert forall|a: int, b: int| 0 <= a < b < after.len() implies (#[trigger] after[a]).0@ != (
        #[trigger] after[b]).0@ by {
            assert(entries[a].0@ != entries[b].0@);
        }
    }
    assert forall|k: Seq<char>| has_key(after, k) <==> (k == key@ || has_key(entries, k)) by {
        if has_key(after, k) {
            let j = index_of(after, k);
            assert(entries[j].0@ == k);
        }
        if k == key@ {
            assert(after[i].0@ == k);
        }
        if has_key(entries, k) {
            let j = index_of(entries, k);
            assert(after[j].0@ == k);
        }
    }
    assert forall|k: Seq<char>| has_key(after, k) implies map_of(after)[k] == map_of(
        entries,
    ).insert(key@, value)[k] by {
        let j = index_of(after, k);
        lemma_map_of_entry(after, j);
        if j != i {
            lemma_map_of_entry(entries, j);
        }
    }
    assert(map_of(after) =~= map_of(entries).insert(key@, value));
}

/// Values by name. No name occurs twice; a value that is put under a name that is
/// there takes the place of the one before it.
pub struct Keyed<V> {
    entries: Vec<(String, V)>,
}

impl<V> View for Keyed<V> {
    type V = Map<Seq<char>, V>;

    closed spec fn view(&self) -> Map<Seq<char>, V> {
        map_of(self.entries@)
    }
}

impl<V> Keyed<V> {
    #[verifier::type_invariant]
    spec fn well_formed(self) -> bool {
        keys_distinct(self.entries@)
    }

    /// The number of entries.
    pub closed spec fn spec_len(&self) -> nat {
        self.entries@.len()
    }

    /// The key of the `i`-th entry, in the order in which the keys came.
    pub closed spec fn spec_key(&self, i: int) -> Seq<char> {
        self.entries@[i].0@
    }

    /// The value of the `i`-th entry.
    pub closed spec fn spec_value(&self, i: int) -> V {
        self.entries@[i].1
    }

    /// Brings to mind what holds of every value of this type: the entries are what
    /// the map holds, each key once. It does nothing when it runs.
    pub fn recall_entries(&self)
        ensures
            forall|i: int|
                0 <= i < self.spec_len() ==> self@.contains_key(#[trigger] self.spec_key(i))
                    && self@[self.spec_key(i)] == self.spec_value(i),
            forall|i: int, j: int|
                0 <= i < j < self.spec_len() ==> self.spec_key(i) != self.spec_key(j),
            forall|key: Seq<char>| #[trigger]
                self@.contains_key(key) ==> exists|i: int|
                    0 <= i < self.spec_len() && self.spec_key(i) == key,
    {
        proof {
            use_type_invariant(self);
            assert forall|i: int| 0 <= i < self.spec_len() implies self@.contains_key(
                #[trigger] self.spec_key(i),
            ) && self@[self.spec_key(i)] == self.spec_value(i) by {
                lemma_map_of_entry(self.entries@, i);
            }
            assert forall|key: Seq<char>| #[trigger] self@.contains_key(key) implies exists|
                i: int,
            |
                0 <= i < self.spec_len() && self.spec_key(i) == key by {
                let i = index_of(self.entries@, key);
                assert(self.spec_key(i) == key);
            }
        }
    }

    pub fn new() -> (keyed: Keyed<V>)
        ensures
            keyed@ == Map::<Seq<char>, V>::empty(),
            keyed.spec_len() == 0,
    {
        let keyed = Keyed { entries: Vec::new() };
        assert(keyed@ =~= Map::<Seq<char>, V>::empty());
        keyed
    }

    pub fn len(&self) -> (n: usize)
        ensures
            n == self.spec_len(),
    {
        self.entries.len()
    }

    /// The key of the `i`-th entry.
    pub fn key(&self, i: usize) -> (key: &String)
        requires
            i < self.spec_len(),
        ensures
            key@ == self.spec_key(i as int),
            self@.contains_key(key@),
    {
        proof {
            use_type_invariant(self);
            lemma_map_of_entry(self.entries@, i as int);
        }
        &self.entries[i].0
    }

    /// The value of the `i`-th entry.
    pub fn value(&self, i: usize) -> (value: &V)
        requires
            i < self.spec_len(),
        ensures
            *value == self.spec_value(i as int),
            *value == self@[self.spec_key(i as int)],
    {
        proof {
            use_type_invariant(self);
            lemma_map_of_entry(self.entries@, i as int);
        }
        &self.entries[i].1
    }

    /// The place of a key among the entries.
    fn position(&self, key: &str) -> (found: Option<usize>)
        ensures
            match found {
                Some(i) => i < self.entries@.len() && self.entries@[i as int].0@ == key@,
                None => !has_key(self.entries@, key@),
            },
    {
        let mut i: usize = 0;
        while i < self.entries.len()
            invariant
                i <= self.entries@.len(),
                forall|j: int| 0 <= j < i ==> (#[trigger] self.entries@[j]).0@ != key@,
            decreases self.entries@.len() - i,
        {
            if str_eq(self.entries[i].0.as_str(), key) {
                return Some(i);
            }
            i = i + 1;
        }
        None
    }

    pub fn contains_key(&self, key: &str) -> (b: bool)
        ensures
            b == self@.contains_key(key@),
    {
        self.position(key).is_some()
    }

    pub fn get(&self, key: &str) -> (value: Option<&V>)
        ensures
            match value {
                Some(v) => self@.contains_key(key@) && *v == self@[key@],
                None => !self@.contains_key(key@),
            },
    {
        proof {
            use_type_invariant(self);
        }
        match self.position(key) {
            Some(i) => {
                proof {
                    lemma_map_of_entry(self.entries@, i as int);
                }
                Some(&self.entries[i].1)
            },
            None => None,
        }
    }

    /// Puts a value under a key. Where the key is there the value takes the place
    /// of the one before it, else the key comes last. The other entries stay where
    /// they are.
    pub fn insert(&mut self, key: String, value: V)
        ensures
            final(self)@ == old(self)@.insert(key@, value),
            final(self).spec_len() == if old(self)@.contains_key(key@) {
                old(self).spec_len()
            } else {
                old(self).spec_len() + 1
            },
            forall|i: int|
                0 <= i < old(self).spec_len() ==> #[trigger] final(self).spec_key(i) == old(
                    self,
                ).spec_key(i) && final(self).spec_value(i) == if old(self).spec_key(i) == key@ {
                    value
                } else {
                    old(self).spec_value(i)
                },
            !old(self)@.contains_key(key@) ==> final(self).spec_key(old(self).spec_len() as int)
                == key@ && final(self).spec_value(old(self).spec_len() as int) == value,
    {
        proof {
            use_type_invariant(&*self);
        }
        let found = self.position(key.as_str());
        let mut entries: Vec<(String, V)> = Vec::new();
        std::mem::swap(&mut self.entries, &mut entries);
        let ghost before = entries@;
        match found {
            Some(i) => {
                proof {
                    lemma_map_of_update(entries@, i as int, key, value);
                    lemma_map_of_entry(entries@, i as int);
                    assert forall|j: int| 0 <= j < before.len() && j != i implies (
                    #[trigger] before[j]).0@ != key@ by {
                        if j < i {
                            assert(before[j].0@ != before[i as int].0@);
                        } else {
                            assert(before[i as int].0@ != before[j].0@);
                        }
                    }
                }
                entries.set(i, (key, value));
            },
            None => {
                proof {
                    lemma_map_of_push(entries@, key, value);
                    assert forall|j: int| 0 <= j < before.len() implies (
                    #[trigger] before[j]).0@ != key@ by {
                        assert(!has_key(before, key@));
                    }
                }
                entries.push((key, value));
            },
        }
        std::mem::swap(&mut self.entries, &mut entries);
    }

    /// Puts every entry of `other` into this map. Where both have a key the value
    /// of `other` stays.
    pub fn extend(&mut self, other: Keyed<V>)
        ensures
            final(self)@ == old(self)@.union_prefer_right(other@),
    {
        proof {
            use_type_invariant(&other);
        }
        let mut rest: Vec<(String, V)> = other.entries;
        let ghost all = rest@;
        while rest.len() > 0
            invariant
                keys_distinct(all),
                rest@ == all.take(rest@.len() as int),
                rest@.len() <= all.len(),
                self@ == old(self)@.union_prefer_right(map_of(all.skip(rest@.len() as int))),
            decreases rest@.len(),
        {
            let ghost n = rest@.len() as int;
            let entry = rest.pop().unwrap();
            proof {
                let tail = all.skip(n);
                let longer = all.skip(n - 1);
                assert(entry == all[n - 1]);
                assert forall|k: Seq<char>| has_key(longer, k) <==> (k == entry.0@ || has_key(
                    tail,
                    k,
                )) by {
                    if has_key(longer, k) {
                        let i = index_of(longer, k);
                        if i > 0 {
                            assert(tail[i - 1].0@ == k);
                        }
                    }
                    if k == entry.0@ {
                        assert(longer[0].0@ == k);
                    }
                    if has_key(tail, k) {
                        let i = index_of(tail, k);
                        assert(longer[i + 1].0@ == k);
                    }
                }
                assert(keys_distinct(longer)) by {
                    assert forall|i: int, j: int| 0 <= i < j < longer.len() implies (
                    #[trigger] longer[i]).0@ != (#[trigger] longer[j]).0@ by {
                        assert(all[n - 1 + i].0@ != all[n - 1 + j].0@);
                    }
                }
                assert(keys_distinct(tail)) by {
                    assert forall|i: int, j: int| 0 <= i < j < tail.len() implies (
                    #[trigger] tail[i]).0@ != (#[trigger] tail[j]).0@ by {
                        assert(all[n + i].0@ != all[n + j].0@);
                    }
                }
                assert forall|k: Seq<char>| has_key(longer, k) implies map_of(longer)[k]
                    == map_of(tail).insert(entry.0@, entry.1)[k] by {
                    let i = index_of(longer, k);
                    lemma_map_of_entry(longer, i);
                    if i > 0 {
                        lemma_map_of_entry(tail, i - 1);
                        assert(tail[i - 1].0@ != longer[0].0@) by {
                            assert(longer[0].0@ != longer[i].0@);
                        }
                    }
                }
                assert(map_of(longer) =~= map_of(tail).insert(entry.0@, entry.1));
                assert(old(self)@.union_prefer_right(map_of(tail)).insert(entry.0@, entry.1)
                    =~= old(self)@.union_prefer_right(map_of(longer)));
                assert(rest@ =~= all.take(n - 1));
            }
            self.insert(entry.0, entry.1);
        }
        assert(all.skip(0) =~= all);
    }
}

} // verus!
