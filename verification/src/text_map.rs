//! A small map from strings to strings that remembers the order in which its
//! keys arrived.

use vstd::prelude::*;

use crate::text::same_text;

verus! {

/// The entries of a map as contracts see them: pairs of key and value, in
/// the order in which the keys were first inserted.
pub type Entries = Seq<(Seq<char>, Seq<char>)>;

/// The entries that a vector of string pairs stands for.
pub open spec fn pairs_view(pairs: Seq<(String, String)>) -> Entries {
    Seq::new(pairs.len(), |i: int| (pairs[i].0@, pairs[i].1@))
}

/// The keys of `entries`, in order.
pub open spec fn keys_of(entries: Entries) -> Seq<Seq<char>> {
    entries.map_values(|e: (Seq<char>, Seq<char>)| e.0)
}

/// The index of the first entry at or after `from` whose key is `key`, or
/// `entries.len()` when there is none.
pub open spec fn find_from<V>(entries: Seq<(Seq<char>, V)>, key: Seq<char>, from: int) -> int
    decreases entries.len() - from,
{
    if from < 0 || from >= entries.len() {
        entries.len() as int
    } else if entries[from].0 == key {
        from
    } else {
        find_from(entries, key, from + 1)
    }
}

/// The index of the entry for `key`, or `entries.len()` when there is none.
pub open spec fn position_of(entries: Entries, key: Seq<char>) -> int {
    find_from(entries, key, 0)
}

/// The value that `entries` holds for `key`.
pub open spec fn lookup(entries: Entries, key: Seq<char>) -> Option<Seq<char>> {
    let at = position_of(entries, key);
    if at < entries.len() {
        Some(entries[at].1)
    } else {
        None
    }
}

/// `entries` after `key` is set to `value`: the value is replaced where the
/// key is present, and the pair is appended where it is not.
pub open spec fn upsert(entries: Entries, key: Seq<char>, value: Seq<char>) -> Entries {
    let at = position_of(entries, key);
    if at < entries.len() {
        entries.update(at, (key, value))
    } else {
        entries.push((key, value))
    }
}

/// What `find_from` finds: the first entry at or after `from` whose key is
/// `key`.
pub proof fn lemma_find_from<V>(entries: Seq<(Seq<char>, V)>, key: Seq<char>, from: int)
    requires
        0 <= from <= entries.len(),
    ensures
        from <= find_from(entries, key, from) <= entries.len(),
        find_from(entries, key, from) < entries.len() ==> entries[find_from(
            entries,
            key,
            from,
        )].0 == key,
        forall|i: int| from <= i < find_from(entries, key, from) ==> (#[trigger] entries[i]).0 != key,
    decreases entries.len() - from,
{
    if from < entries.len() && entries[from].0 != key {
        lemma_find_from(entries, key, from + 1);
    }
}

/// What `position_of` finds: the first entry whose key is `key`.
pub proof fn lemma_position_of(entries: Entries, key: Seq<char>)
    ensures
        0 <= position_of(entries, key) <= entries.len(),
        position_of(entries, key) < entries.len() ==> entries[position_of(entries, key)].0 == key,
        forall|i: int| 0 <= i < position_of(entries, key) ==> (#[trigger] entries[i]).0 != key,
{
    lemma_find_from(entries, key, 0);
}

/// Setting a key keeps the keys distinct.
pub proof fn lemma_upsert_keeps_keys_distinct(entries: Entries, key: Seq<char>, value: Seq<char>)
    requires
        keys_of(entries).no_duplicates(),
    ensures
        keys_of(upsert(entries, key, value)).no_duplicates(),
        lookup(upsert(entries, key, value), key) == Some(value),
{
    lemma_position_of(entries, key);
    let at = position_of(entries, key);
    let after = upsert(entries, key, value);
    let ks = keys_of(entries);
    let ka = keys_of(after);
    assert forall|i: int, j: int| 0 <= i < ka.len() && 0 <= j < ka.len() && i != j implies ka[i]
        != ka[j] by {
        if at < entries.len() {
            assert(ka[i] == ks[i]);
            assert(ka[j] == ks[j]);
        } else {
            if i < entries.len() && j < entries.len() {
                assert(ka[i] == ks[i]);
                assert(ka[j] == ks[j]);
            } else if i < entries.len() {
                assert(entries[i].0 != key);
            } else {
                assert(entries[j].0 != key);
            }
        }
    }
    lemma_position_of(after, key);
    let found = position_of(after, key);
    if at < entries.len() {
        assert(after[at].0 == key);
        if found < at {
            assert(after[found] == entries[found]);
        }
        if found > at {
            assert(after[at].0 != key);
        }
    } else {
        assert(after[entries.len() as int].0 == key);
        if found < entries.len() {
            assert(after[found] == entries[found]);
        }
    }
}

/// A map from strings to strings. No key occurs twice; the entries keep the
/// order in which their keys were first inserted.
#[derive(Debug)]
pub struct TextMap {
    entries: Vec<(String, String)>,
}

impl View for TextMap {
    type V = Entries;

    closed spec fn view(&self) -> Entries {
        pairs_view(self.entries@)
    }
}

impl TextMap {
    #[verifier::type_invariant]
    spec fn keys_are_distinct(self) -> bool {
        keys_of(self@).no_duplicates()
    }

    /// The empty map.
    pub fn new() -> (m: Self)
        ensures
            m@ == Entries::empty(),
    {
        let m = TextMap { entries: Vec::new() };
        assert(m@ =~= Entries::empty());
        m
    }

    /// The number of entries.
    pub fn len(&self) -> (n: usize)
        ensures
            n == self@.len(),
    {
        self.entries.len()
    }

    /// Whether the map has no entry.
    pub fn is_empty(&self) -> (b: bool)
        ensures
            b == (self@.len() == 0),
    {
        self.entries.len() == 0
    }

    /// The index of the entry for `key`, or `len()` when there is none.
    fn find(&self, key: &str) -> (at: usize)
        ensures
            at == position_of(self@, key@),
            at <= self@.len(),
    {
        let mut i: usize = 0;
        while i < self.entries.len()
            invariant
                i <= self.entries.len(),
                self@.len() == self.entries.len(),
                position_of(self@, key@) == find_from(self@, key@, i as int),
            decreases self.entries.len() - i,
        {
            assert(self@[i as int].0 == self.entries[i as int].0@);
            if same_text(self.entries[i].0.as_str(), key) {
                return i;
            }
            i += 1;
        }
        i
    }

    /// The value for `key`, if the map has one.
    pub fn get(&self, key: &str) -> (value: Option<&String>)
        ensures
            match value {
                Some(v) => lookup(self@, key@) == Some(v@),
                None => lookup(self@, key@) is None,
            },
    {
        let at = self.find(key);
        if at < self.entries.len() {
            Some(&self.entries[at].1)
        } else {
            None
        }
    }

    /// Whether the map has an entry for `key`.
    pub fn contains_key(&self, key: &str) -> (b: bool)
        ensures
            b == lookup(self@, key@).is_some(),
    {
        let at = self.find(key);
        at < self.entries.len()
    }

    /// Sets `key` to `value`. Returns the value that `key` had before.
    pub fn insert(&mut self, key: String, value: String) -> (previous: Option<String>)
        ensures
            final(self)@ == upsert(old(self)@, key@, value@),
            match previous {
                Some(p) => lookup(old(self)@, key@) == Some(p@),
                None => lookup(old(self)@, key@) is None,
            },
    {
        proof {
            use_type_invariant(&*self);
            lemma_upsert_keeps_keys_distinct(self@, key@, value@);
        }
        let at = self.find(key.as_str());
        let ghost before = self@;
        let mut taken = TextMap { entries: Vec::new() };
        assert(taken@ =~= Entries::empty());
        std::mem::swap(self, &mut taken);
        let mut entries = taken.entries;
        let previous = if at < entries.len() {
            let mut pair = (key, value);
            std::mem::swap(&mut entries[at], &mut pair);
            Some(pair.1)
        } else {
            entries.push((key, value));
            None
        };
        assert(pairs_view(entries@) =~= upsert(
            before,
            key@,
            value@,
        ));
        *self = TextMap { entries };
        previous
    }

    /// The key of the entry at `index`.
    pub fn key_at(&self, index: usize) -> (key: &String)
        requires
            index < self@.len(),
        ensures
            key@ == self@[index as int].0,
    {
        &self.entries[index].0
    }

    /// The value of the entry at `index`.
    pub fn value_at(&self, index: usize) -> (value: &String)
        requires
            index < self@.len(),
        ensures
            value@ == self@[index as int].1,
    {
        &self.entries[index].1
    }

    /// The entries as pairs of key and value, in order.
    pub fn to_pairs(&self) -> (pairs: Vec<(String, String)>)
        ensures
            pairs_view(pairs@) == self@,
    {
        let mut pairs: Vec<(String, String)> = Vec::new();
        let mut i: usize = 0;
        while i < self.entries.len()
            invariant
                i <= self.entries.len(),
                self@.len() == self.entries.len(),
                pairs.len() == i,
                pairs_view(pairs@) == self@.take(i as int),
            decreases self.entries.len() - i,
        {
            let key = self.entries[i].0.clone();
            let value = self.entries[i].1.clone();
            assert(self@[i as int] == (key@, value@));
            let ghost before = pairs@;
            pairs.push((key, value));
            i += 1;
            assert forall|j: int| 0 <= j < i implies pairs_view(pairs@)[j] == self@[j] by {
                if j < i - 1 {
                    assert(pairs@[j] == before[j]);
                    assert(pairs_view(before)[j] == self@.take(i - 1)[j]);
                }
            }
            assert(pairs_view(pairs@) =~= self@.take(i as int));
        }
        assert(self@.take(self@.len() as int) == self@);
        pairs
    }
}

impl Clone for TextMap {
    fn clone(&self) -> (copy: Self)
        ensures
            copy@ == self@,
    {
        proof {
            use_type_invariant(self);
        }
        let pairs = self.to_pairs();
        TextMap { entries: pairs }
    }
}

} // verus!
