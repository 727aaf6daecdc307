//! Maps keyed by text.

use vstd::prelude::*;

use crate::text;

verus! {

/// A map from texts to values, small enough to be searched from end to end.
pub struct TextMap<V> {
    entries: Vec<(String, V)>,
}

/// The map that entries stand for; no two of them have the same key.
pub open spec fn map_of<V>(entries: Seq<(String, V)>) -> Map<Seq<char>, V>
    decreases entries.len(),
{
    if entries.len() == 0 {
        Map::empty()
    } else {
        map_of(entries.drop_last()).insert(entries.last().0@, entries.last().1)
    }
}

/// No two entries have the same key.
pub open spec fn distinct<V>(entries: Seq<(String, V)>) -> bool {
    forall|i: int, j: int|
        0 <= i < j < entries.len() ==> (#[trigger] entries[i]).0@ != (#[trigger] entries[j]).0@
}

proof fn lemma_map_of<V>(entries: Seq<(String, V)>, key: Seq<char>)
    requires
        distinct(entries),
    ensures
        map_of(entries).dom().contains(key) <==> exists|i: int|
            0 <= i < entries.len() && (#[trigger] entries[i]).0@ == key,
        forall|i: int|
            0 <= i < entries.len() && (#[trigger] entries[i]).0@ == key ==> map_of(entries)[key]
                == entries[i].1,
    decreases entries.len(),
{
    if entries.len() > 0 {
        let rest = entries.drop_last();
        lemma_map_of(rest, key);
        if map_of(entries).dom().contains(key) {
            if entries.last().0@ == key {
                assert(entries[entries.len() - 1].0@ == key);
            } else {
                let i = choose|i: int| 0 <= i < rest.len() && (#[trigger] rest[i]).0@ == key;
                assert(entries[i].0@ == key);
            }
        }
        assert forall|i: int|
            0 <= i < entries.len() && (#[trigger] entries[i]).0@ == key implies map_of(entries)[key]
            == entries[i].1 && map_of(entries).dom().contains(key) by {
            if i < rest.len() {
                assert(rest[i] == entries[i]);
                assert(entries[i].0@ != entries[entries.len() - 1].0@);
            }
        }
    }
}

impl<V> View for TextMap<V> {
    type V = Map<Seq<char>, V>;

    closed spec fn view(&self) -> Map<Seq<char>, V> {
        map_of(self.entries@)
    }
}

impl<V> TextMap<V> {
    #[verifier::type_invariant]
    spec fn well_formed(self) -> bool {
        distinct(self.entries@)
    }

    /// Makes an empty map.
    pub fn new() -> (map: TextMap<V>)
        ensures
            map@ == Map::<Seq<char>, V>::empty(),
    {
        TextMap { entries: Vec::new() }
    }

    fn position(&self, key: &str) -> (found: Option<usize>)
        ensures
            match found {
                Some(at) => at < self.entries@.len() && self.entries@[at as int].0@ == key@
                    && self@.dom().contains(key@) && self@[key@] == self.entries@[at as int].1,
                None => !self@.dom().contains(key@) && forall|i: int|
                    0 <= i < self.entries@.len() ==> (#[trigger] self.entries@[i]).0@ != key@,
            },
    {
        proof {
            use_type_invariant(self);
            lemma_map_of(self.entries@, key@);
        }
        let mut at: usize = 0;
        while at < self.entries.len()
            invariant
                at <= self.entries@.len(),
                forall|i: int| 0 <= i < at ==> (#[trigger] self.entries@[i]).0@ != key@,
                forall|i: int|
                    0 <= i < self.entries@.len() && (#[trigger] self.entries@[i]).0@ == key@
                        ==> self@[key@] == self.entries@[i].1 && self@.dom().contains(key@),
            decreases self.entries@.len() - at,
        {
            if text::same(self.entries[at].0.as_str(), key) {
                return Some(at);
            }
            at += 1;
        }
        None
    }

    /// Finds the value of a key.
    pub fn get(&self, key: &str) -> (value: Option<&V>)
        ensures
            match value {
                Some(found) => self@.dom().contains(key@) && *found == self@[key@],
                None => !self@.dom().contains(key@),
            },
    {
        match self.position(key) {
            Some(at) => Some(&self.entries[at].1),
            None => None,
        }
    }

    /// Whether the map has a value for a key.
    pub fn contains(&self, key: &str) -> (result: bool)
        ensures
            result == self@.dom().contains(key@),
    {
        self.position(key).is_some()
    }

    /// Removes the value of a key and returns it.
    pub fn remove(&mut self, key: &str) -> (removed: Option<V>)
        ensures
            final(self)@ == old(self)@.remove(key@),
            match removed {
                Some(value) => old(self)@.dom().contains(key@) && value == old(self)@[key@],
                None => !old(self)@.dom().contains(key@),
            },
    {
        proof {
            use_type_invariant(&*self);
        }
        let ghost before = self.entries@;
        match self.position(key) {
            Some(at) => {
                let mut entries: Vec<(String, V)> = Vec::new();
                std::mem::swap(&mut entries, &mut self.entries);
                let (_, value) = entries.remove(at);
                proof {
                    assert(entries@ =~= before.remove(at as int));
                    lemma_without(before, at as int);
                }
                self.entries = entries;
                Some(value)
            },
            None => {
                assert(self@.remove(key@) =~= self@);
                None
            },
        }
    }

    /// Sets the value of a key.
    pub fn insert(&mut self, key: String, value: V)
        ensures
            final(self)@ == old(self)@.insert(key@, value),
    {
        let removed = self.remove(key.as_str());
        proof {
            use_type_invariant(&*self);
            lemma_map_of(self.entries@, key@);
        }
        let ghost before = self.entries@;
        let mut entries: Vec<(String, V)> = Vec::new();
        std::mem::swap(&mut entries, &mut self.entries);
        entries.push((key, value));
        proof {
            assert(entries@.drop_last() =~= before);
        }
        self.entries = entries;
        assert(old(self)@.remove(key@).insert(key@, value) =~= old(self)@.insert(key@, value));
    }

    /// Returns the keys.
    pub fn keys(&self) -> (keys: Vec<String>)
        ensures
            forall|key: Seq<char>| #[trigger]
                text::texts(keys@).contains(key) <==> self@.dom().contains(key),
            text::texts(keys@).no_duplicates(),
    {
        proof {
            use_type_invariant(self);
        }
        let mut keys: Vec<String> = Vec::new();
        let mut i: usize = 0;
        while i < self.entries.len()
            invariant
                i <= self.entries@.len(),
                keys@.len() == i,
                forall|j: int| 0 <= j < i ==> (#[trigger] keys@[j])@ == self.entries@[j].0@,
            decreases self.entries@.len() - i,
        {
            keys.push(text::copy(self.entries[i].0.as_str()));
            i += 1;
        }
        proof {
            let shown = text::texts(keys@);
            assert forall|key: Seq<char>| #[trigger]
                shown.contains(key) <==> self@.dom().contains(key) by {
                lemma_map_of(self.entries@, key);
                if shown.contains(key) {
                    let j = choose|j: int| 0 <= j < shown.len() && shown[j] == key;
                    assert(self.entries@[j].0@ == key);
                }
                if self@.dom().contains(key) {
                    let j = choose|j: int|
                        0 <= j < self.entries@.len() && (#[trigger] self.entries@[j]).0@ == key;
                    assert(shown[j] == key);
                }
            }
            assert forall|a: int, b: int|
                0 <= a < shown.len() && 0 <= b < shown.len() && a != b implies shown[a]
                != shown[b] by {
                assert(shown[a] == self.entries@[a].0@ && shown[b] == self.entries@[b].0@);
            }
        }
        keys
    }
}

proof fn lemma_without<V>(entries: Seq<(String, V)>, at: int)
    requires
        distinct(entries),
        0 <= at < entries.len(),
    ensures
        distinct(entries.remove(at)),
        map_of(entries.remove(at)) == map_of(entries).remove(entries[at].0@),
{
    let rest = entries.remove(at);
    let key = entries[at].0@;
    assert forall|i: int, j: int| 0 <= i < j < rest.len() implies (#[trigger] rest[i]).0@ != (
    #[trigger] rest[j]).0@ by {
        let a = if i < at {
            i
        } else {
            i + 1
        };
        let b = if j < at {
            j
        } else {
            j + 1
        };
        assert(rest[i] == entries[a] && rest[j] == entries[b]);
    }
    let smaller = map_of(entries).remove(key);
    assert forall|k: Seq<char>|
        #![trigger map_of(rest).dom().contains(k)]
        #![trigger smaller.dom().contains(k)]
        (map_of(rest).dom().contains(k) <==> smaller.dom().contains(k)) && (map_of(
            rest,
        ).dom().contains(k) ==> map_of(rest)[k] == smaller[k]) by {
        lemma_map_of(rest, k);
        lemma_map_of(entries, k);
        if map_of(rest).dom().contains(k) {
            let i = choose|i: int| 0 <= i < rest.len() && (#[trigger] rest[i]).0@ == k;
            let a = if i < at {
                i
            } else {
                i + 1
            };
            assert(rest[i] == entries[a]);
        }
        if map_of(entries).dom().contains(k) && k != key {
            let a = choose|a: int| 0 <= a < entries.len() && (#[trigger] entries[a]).0@ == k;
            let i = if a < at {
                a
            } else {
                a - 1
            };
            assert(rest[i] == entries[a]);
        }
    }
    assert(map_of(rest) =~= smaller);
}

} // verus!
