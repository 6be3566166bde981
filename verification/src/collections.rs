//! Small maps from 32-byte identifiers, from texts and from numbers to
//! values, kept as lists of entries in the order of their first insertion.

use vstd::prelude::*;
use crate::bytes::id_eq;
use crate::text::same_text;

verus! {

/// The position of the entry with the key, if there is one.
pub open spec fn position_of<V>(entries: Seq<([u8; 32], V)>, key: Seq<u8>) -> Option<int> {
    if exists|i: int| 0 <= i < entries.len() && (#[trigger] entries[i]).0@ == key {
        Some(choose|i: int| 0 <= i < entries.len() && (#[trigger] entries[i]).0@ == key)
    } else {
        None
    }
}

/// No two entries have the same key.
pub open spec fn distinct_keys<V>(entries: Seq<([u8; 32], V)>) -> bool {
    forall|i: int, j: int|
        0 <= i < j < entries.len() ==> (#[trigger] entries[i]).0@ != (#[trigger] entries[j]).0@
}

/// The entries after a key was given a value: in place where the key
/// has an entry, at the end where it has none.
pub open spec fn with_entry<V>(entries: Seq<([u8; 32], V)>, key: [u8; 32], value: V) -> Seq<([u8; 32], V)> {
    match position_of(entries, key@) {
        Some(i) => entries.update(i, (key, value)),
        None => entries.push((key, value)),
    }
}

/// A map from identifiers to values.
pub struct IdMap<V> {
    entries: Vec<([u8; 32], V)>,
}

impl<V> View for IdMap<V> {
    type V = Seq<([u8; 32], V)>;

    closed spec fn view(&self) -> Seq<([u8; 32], V)> {
        self.entries@
    }
}

impl<V> IdMap<V> {
    /// No two entries have the same key.
    pub open spec fn wf(&self) -> bool {
        distinct_keys(self@)
    }

    /// Whether the key has a value.
    pub open spec fn has(&self, key: Seq<u8>) -> bool {
        position_of(self@, key) is Some
    }

    /// The value of a key that has one.
    pub open spec fn value(&self, key: Seq<u8>) -> V {
        self@[position_of(self@, key)->0].1
    }

    /// An empty map.
    pub fn new() -> (map: Self)
        ensures
            map@.len() == 0,
            map.wf(),
    {
        IdMap { entries: Vec::new() }
    }

    /// The number of entries.
    pub fn len(&self) -> (n: usize)
        ensures
            n == self@.len(),
    {
        self.entries.len()
    }

    /// The entry at a position.
    pub fn entry(&self, at: usize) -> (entry: &([u8; 32], V))
        requires
            at < self@.len(),
        ensures
            *entry == self@[at as int],
    {
        &self.entries[at]
    }

    /// Where the entry with the key stands.
    pub fn position(&self, key: &[u8; 32]) -> (at: Option<usize>)
        ensures
            match at {
                Some(i) => i < self@.len() && self@[i as int].0@ == key@ && self.has(key@),
                None => !self.has(key@),
            },
            self.wf() ==> (at matches Some(i) ==> position_of(self@, key@) == Some(i as int)),
    {
        let mut i: usize = 0;
        while i < self.entries.len()
            invariant
                i <= self.entries@.len(),
                forall|k: int| 0 <= k < i ==> self.entries@[k].0@ != key@,
            decreases self.entries@.len() - i,
        {
            if id_eq(&self.entries[i].0, key) {
                return Some(i);
            }
            i += 1;
        }
        None
    }

    /// The value of a key, if it has one.
    pub fn get(&self, key: &[u8; 32]) -> (found: Option<&V>)
        requires
            self.wf(),
        ensures
            match found {
                Some(value) => self.has(key@) && *value == self.value(key@),
                None => !self.has(key@),
            },
    {
        match self.position(key) {
            Some(i) => Some(&self.entries[i].1),
            None => None,
        }
    }

    /// Gives the key a value: in place where it has one, at the end where it has none.
    pub fn set(&mut self, key: [u8; 32], value: V)
        requires
            old(self).wf(),
        ensures
            final(self).wf(),
            final(self).has(key@),
            final(self).value(key@) == value,
            match position_of(old(self)@, key@) {
                Some(i) => final(self)@ == old(self)@.update(i, (key, value)),
                None => final(self)@ == old(self)@.push((key, value)),
            },
            forall|other: Seq<u8>|
                other != key@ ==> final(self).has(other) == old(self).has(other) && (old(self).has(other)
                    ==> final(self).value(other) == old(self).value(other)),
    {
        let ghost before = self@;
        match self.position(&key) {
            Some(i) => {
                self.entries[i] = (key, value);
                proof {
                    lemma_same_keys(before, self@);
                }
            },
            None => {
                self.entries.push((key, value));
                proof {
                    assert(self@[before.len() as int].0@ == key@);
                    assert forall|other: Seq<u8>| other != key@ implies self.has(other) == old(self).has(
                        other,
                    ) && (old(self).has(other) ==> self.value(other) == old(self).value(other)) by {
                        if old(self).has(other) {
                            let i = position_of(before, other)->0;
                            assert(self@[i].0@ == other);
                        }
                    }
                }
            },
        }
    }

    /// Takes the key's entry away; gives its value, if it had one.
    pub fn remove(&mut self, key: &[u8; 32]) -> (removed: Option<V>)
        requires
            old(self).wf(),
        ensures
            final(self).wf(),
            !final(self).has(key@),
            match removed {
                Some(value) => old(self).has(key@) && value == old(self).value(key@) && final(self)@
                    == old(self)@.remove(position_of(old(self)@, key@)->0),
                None => !old(self).has(key@) && final(self)@ == old(self)@,
            },
            forall|other: Seq<u8>|
                other != key@ ==> final(self).has(other) == old(self).has(other) && (old(self).has(other)
                    ==> final(self).value(other) == old(self).value(other)),
    {
        let ghost before = self@;
        match self.position(key) {
            Some(i) => {
                let (_, value) = self.entries.remove(i);
                proof {
                    let after = self@;
                    assert forall|a: int, b: int| 0 <= a < b < after.len() implies (#[trigger] after[a]).0@
                        != (#[trigger] after[b]).0@ by {
                    }
                    assert forall|k: int| 0 <= k < after.len() implies (#[trigger] after[k]).0@ != key@ by {
                    }
                    assert forall|other: Seq<u8>| other != key@ implies self.has(other) == old(self).has(
                        other,
                    ) && (old(self).has(other) ==> self.value(other) == old(self).value(other)) by {
                        if old(self).has(other) {
                            let p = position_of(before, other)->0;
                            let moved = if p < i { p } else { p - 1 };
                            assert(after[moved] == before[p]);
                        }
                    }
                }
                Some(value)
            },
            None => None,
        }
    }
}

/// Lists with the same keys at the same places agree on which keys they have.
pub proof fn lemma_same_keys<V>(a: Seq<([u8; 32], V)>, b: Seq<([u8; 32], V)>)
    requires
        a.len() == b.len(),
        forall|i: int| 0 <= i < a.len() ==> (#[trigger] a[i]).0@ == b[i].0@,
        distinct_keys(a),
    ensures
        distinct_keys(b),
        forall|key: Seq<u8>| #[trigger] position_of(a, key) == position_of(b, key),
{
    assert forall|i: int, j: int| 0 <= i < j < b.len() implies (#[trigger] b[i]).0@ != (#[trigger] b[j]).0@ by {
        assert(a[i].0@ != a[j].0@);
    }
    assert forall|key: Seq<u8>| #[trigger] position_of(a, key) == position_of(b, key) by {
        if position_of(b, key) is Some {
            let j = position_of(b, key)->0;
            assert(a[j].0@ == key);
        }
    }
}

/// The position of the entry with the key, if there is one.
pub open spec fn text_position_of<V>(entries: Seq<(String, V)>, key: Seq<char>) -> Option<int> {
    if exists|i: int| 0 <= i < entries.len() && (#[trigger] entries[i]).0@ == key {
        Some(choose|i: int| 0 <= i < entries.len() && (#[trigger] entries[i]).0@ == key)
    } else {
        None
    }
}

/// No two entries have the same key.
pub open spec fn distinct_texts<V>(entries: Seq<(String, V)>) -> bool {
    forall|i: int, j: int|
        0 <= i < j < entries.len() ==> (#[trigger] entries[i]).0@ != (#[trigger] entries[j]).0@
}

/// The entries after a key was given a value: in place where the key
/// has an entry, at the end where it has none.
pub open spec fn text_entries_with<V>(entries: Seq<(String, V)>, key: String, value: V) -> Seq<(String, V)> {
    match text_position_of(entries, key@) {
        Some(i) => entries.update(i, (key, value)),
        None => entries.push((key, value)),
    }
}

/// A map from texts to values.
pub struct TextMap<V> {
    entries: Vec<(String, V)>,
}

impl<V> View for TextMap<V> {
    type V = Seq<(String, V)>;

    closed spec fn view(&self) -> Seq<(String, V)> {
        self.entries@
    }
}

impl<V> TextMap<V> {
    /// No two entries have the same key.
    pub open spec fn wf(&self) -> bool {
        distinct_texts(self@)
    }

    /// Whether the key has a value.
    pub open spec fn has(&self, key: Seq<char>) -> bool {
        text_position_of(self@, key) is Some
    }

    /// The value of a key that has one.
    pub open spec fn value(&self, key: Seq<char>) -> V {
        self@[text_position_of(self@, key)->0].1
    }

    /// An empty map.
    pub fn new() -> (map: Self)
        ensures
            map@.len() == 0,
            map.wf(),
    {
        TextMap { entries: Vec::new() }
    }

    /// The number of entries.
    pub fn len(&self) -> (n: usize)
        ensures
            n == self@.len(),
    {
        self.entries.len()
    }

    /// The entry at a position.
    pub fn entry(&self, at: usize) -> (entry: &(String, V))
        requires
            at < self@.len(),
        ensures
            *entry == self@[at as int],
    {
        &self.entries[at]
    }

    /// Where the entry with the key stands.
    pub fn position(&self, key: &str) -> (at: Option<usize>)
        ensures
            match at {
                Some(i) => i < self@.len() && self@[i as int].0@ == key@ && self.has(key@),
                None => !self.has(key@),
            },
            self.wf() ==> (at matches Some(i) ==> text_position_of(self@, key@) == Some(i as int)),
    {
        let mut i: usize = 0;
        while i < self.entries.len()
            invariant
                i <= self.entries@.len(),
                forall|k: int| 0 <= k < i ==> self.entries@[k].0@ != key@,
            decreases self.entries@.len() - i,
        {
            if same_text(self.entries[i].0.as_str(), key) {
                return Some(i);
            }
            i += 1;
        }
        None
    }

    /// The value of a key, if it has one.
    pub fn get(&self, key: &str) -> (found: Option<&V>)
        requires
            self.wf(),
        ensures
            match found {
                Some(value) => self.has(key@) && *value == self.value(key@),
                None => !self.has(key@),
            },
    {
        match self.position(key) {
            Some(i) => Some(&self.entries[i].1),
            None => None,
        }
    }

    /// Gives the key a value: in place where it has one, at the end where it has none.
    pub fn set(&mut self, key: String, value: V)
        requires
            old(self).wf(),
        ensures
            final(self).wf(),
            final(self).has(key@),
            final(self).value(key@) == value,
            match text_position_of(old(self)@, key@) {
                Some(i) => final(self)@ == old(self)@.update(i, (key, value)),
                None => final(self)@ == old(self)@.push((key, value)),
            },
            forall|other: Seq<char>|
                other != key@ ==> final(self).has(other) == old(self).has(other) && (old(self).has(other)
                    ==> final(self).value(other) == old(self).value(other)),
    {
        let ghost before = self@;
        match self.position(key.as_str()) {
            Some(i) => {
                self.entries[i] = (key, value);
                proof {
                    lemma_same_texts(before, self@);
                }
            },
            None => {
                self.entries.push((key, value));
                proof {
                    assert(self@[before.len() as int].0@ == key@);
                    assert forall|other: Seq<char>| other != key@ implies self.has(other) == old(self).has(
                        other,
                    ) && (old(self).has(other) ==> self.value(other) == old(self).value(other)) by {
                        if old(self).has(other) {
                            let i = text_position_of(before, other)->0;
                            assert(self@[i].0@ == other);
                        }
                    }
                }
            },
        }
    }

    /// Takes the key's entry away; gives its value, if it had one.
    pub fn remove(&mut self, key: &str) -> (removed: Option<V>)
        requires
            old(self).wf(),
        ensures
            final(self).wf(),
            !final(self).has(key@),
            match removed {
                Some(value) => old(self).has(key@) && value == old(self).value(key@) && final(self)@
                    == old(self)@.remove(text_position_of(old(self)@, key@)->0),
                None => !old(self).has(key@) && final(self)@ == old(self)@,
            },
            forall|other: Seq<char>|
                other != key@ ==> final(self).has(other) == old(self).has(other) && (old(self).has(other)
                    ==> final(self).value(other) == old(self).value(other)),
    {
        let ghost before = self@;
        match self.position(key) {
            Some(i) => {
                let (_, value) = self.entries.remove(i);
                proof {
                    let after = self@;
                    assert forall|a: int, b: int| 0 <= a < b < after.len() implies (#[trigger] after[a]).0@
                        != (#[trigger] after[b]).0@ by {
                    }
                    assert forall|k: int| 0 <= k < after.len() implies (#[trigger] after[k]).0@ != key@ by {
                    }
                    assert forall|other: Seq<char>| other != key@ implies self.has(other) == old(self).has(
                        other,
                    ) && (old(self).has(other) ==> self.value(other) == old(self).value(other)) by {
                        if old(self).has(other) {
                            let p = text_position_of(before, other)->0;
                            let moved = if p < i { p } else { p - 1 };
                            assert(after[moved] == before[p]);
                        }
                    }
                }
                Some(value)
            },
            None => None,
        }
    }
}

/// Lists with the same texts at the same places agree on which texts they have.
pub proof fn lemma_same_texts<V>(a: Seq<(String, V)>, b: Seq<(String, V)>)
    requires
        a.len() == b.len(),
        forall|i: int| 0 <= i < a.len() ==> (#[trigger] a[i]).0@ == b[i].0@,
        distinct_texts(a),
    ensures
        distinct_texts(b),
        forall|key: Seq<char>| #[trigger] text_position_of(a, key) == text_position_of(b, key),
{
    assert forall|i: int, j: int| 0 <= i < j < b.len() implies (#[trigger] b[i]).0@ != (#[trigger] b[j]).0@ by {
        assert(a[i].0@ != a[j].0@);
    }
    assert forall|key: Seq<char>| #[trigger] text_position_of(a, key) == text_position_of(b, key) by {
        if text_position_of(b, key) is Some {
            let j = text_position_of(b, key)->0;
            assert(a[j].0@ == key);
        }
    }
}

/// The position of the entry with the key, if there is one.
pub open spec fn number_position_of<V>(entries: Seq<(u64, V)>, key: u64) -> Option<int> {
    if exists|i: int| 0 <= i < entries.len() && (#[trigger] entries[i]).0 == key {
        Some(choose|i: int| 0 <= i < entries.len() && (#[trigger] entries[i]).0 == key)
    } else {
        None
    }
}

/// No two entries have the same key.
pub open spec fn distinct_numbers<V>(entries: Seq<(u64, V)>) -> bool {
    forall|i: int, j: int|
        0 <= i < j < entries.len() ==> (#[trigger] entries[i]).0 != (#[trigger] entries[j]).0
}

/// A map from numbers to values.
pub struct NumMap<V> {
    entries: Vec<(u64, V)>,
}

impl<V> View for NumMap<V> {
    type V = Seq<(u64, V)>;

    closed spec fn view(&self) -> Seq<(u64, V)> {
        self.entries@
    }
}

impl<V> NumMap<V> {
    /// No two entries have the same key.
    pub open spec fn wf(&self) -> bool {
        distinct_numbers(self@)
    }

    /// Whether the key has a value.
    pub open spec fn has(&self, key: u64) -> bool {
        number_position_of(self@, key) is Some
    }

    /// The value of a key that has one.
    pub open spec fn value(&self, key: u64) -> V {
        self@[number_position_of(self@, key)->0].1
    }

    /// An empty map.
    pub fn new() -> (map: Self)
        ensures
            map@.len() == 0,
            map.wf(),
    {
        NumMap { entries: Vec::new() }
    }

    /// The number of entries.
    pub fn len(&self) -> (n: usize)
        ensures
            n == self@.len(),
    {
        self.entries.len()
    }

    /// The entry at a position.
    pub fn entry(&self, at: usize) -> (entry: &(u64, V))
        requires
            at < self@.len(),
        ensures
            *entry == self@[at as int],
    {
        &self.entries[at]
    }

    /// Where the entry with the key stands.
    pub fn position(&self, key: u64) -> (at: Option<usize>)
        ensures
            match at {
                Some(i) => i < self@.len() && self@[i as int].0 == key && self.has(key),
                None => !self.has(key),
            },
            self.wf() ==> (at matches Some(i) ==> number_position_of(self@, key) == Some(i as int)),
    {
        let mut i: usize = 0;
        while i < self.entries.len()
            invariant
                i <= self.entries@.len(),
                forall|k: int| 0 <= k < i ==> self.entries@[k].0 != key,
            decreases self.entries@.len() - i,
        {
            if self.entries[i].0 == key {
                return Some(i);
            }
            i += 1;
        }
        None
    }

    /// The value of a key, if it has one.
    pub fn get(&self, key: u64) -> (found: Option<&V>)
        requires
            self.wf(),
        ensures
            match found {
                Some(value) => self.has(key) && *value == self.value(key),
                None => !self.has(key),
            },
    {
        match self.position(key) {
            Some(i) => Some(&self.entries[i].1),
            None => None,
        }
    }

    /// Gives the key a value: in place where it has one, at the end where it has none.
    pub fn set(&mut self, key: u64, value: V)
        requires
            old(self).wf(),
        ensures
            final(self).wf(),
            final(self).has(key),
            final(self).value(key) == value,
            match number_position_of(old(self)@, key) {
                Some(i) => final(self)@ == old(self)@.update(i, (key, value)),
                None => final(self)@ == old(self)@.push((key, value)),
            },
            forall|other: u64|
                other != key ==> final(self).has(other) == old(self).has(other) && (old(self).has(other)
                    ==> final(self).value(other) == old(self).value(other)),
    {
        let ghost before = self@;
        match self.position(key) {
            Some(i) => {
                self.entries[i] = (key, value);
                proof {
                    lemma_same_numbers(before, self@);
                }
            },
            None => {
                self.entries.push((key, value));
                proof {
                    assert(self@[before.len() as int].0 == key);
                    assert forall|other: u64| other != key implies self.has(other) == old(self).has(
                        other,
                    ) && (old(self).has(other) ==> self.value(other) == old(self).value(other)) by {
                        if old(self).has(other) {
                            let i = number_position_of(before, other)->0;
                            assert(self@[i].0 == other);
                        }
                    }
                }
            },
        }
    }

    /// Takes the key's entry away; gives its value, if it had one.
    pub fn remove(&mut self, key: u64) -> (removed: Option<V>)
        requires
            old(self).wf(),
        ensures
            final(self).wf(),
            !final(self).has(key),
            match removed {
                Some(value) => old(self).has(key) && value == old(self).value(key) && final(self)@
                    == old(self)@.remove(number_position_of(old(self)@, key)->0),
                None => !old(self).has(key) && final(self)@ == old(self)@,
            },
            forall|other: u64|
                other != key ==> final(self).has(other) == old(self).has(other) && (old(self).has(other)
                    ==> final(self).value(other) == old(self).value(other)),
    {
        let ghost before = self@;
        match self.position(key) {
            Some(i) => {
                let (_, value) = self.entries.remove(i);
                proof {
                    let after = self@;
                    assert forall|a: int, b: int| 0 <= a < b < after.len() implies (#[trigger] after[a]).0
                        != (#[trigger] after[b]).0 by {
                    }
                    assert forall|k: int| 0 <= k < after.len() implies (#[trigger] after[k]).0 != key by {
                    }
                    assert forall|other: u64| other != key implies self.has(other) == old(self).has(
                        other,
                    ) && (old(self).has(other) ==> self.value(other) == old(self).value(other)) by {
                        if old(self).has(other) {
                            let p = number_position_of(before, other)->0;
                            let moved = if p < i { p } else { p - 1 };
                            assert(after[moved] == before[p]);
                        }
                    }
                }
                Some(value)
            },
            None => None,
        }
    }
}

/// Lists with the same numbers at the same places agree on which numbers they have.
pub proof fn lemma_same_numbers<V>(a: Seq<(u64, V)>, b: Seq<(u64, V)>)
    requires
        a.len() == b.len(),
        forall|i: int| 0 <= i < a.len() ==> (#[trigger] a[i]).0 == b[i].0,
        distinct_numbers(a),
    ensures
        distinct_numbers(b),
        forall|key: u64| #[trigger] number_position_of(a, key) == number_position_of(b, key),
{
    assert forall|i: int, j: int| 0 <= i < j < b.len() implies (#[trigger] b[i]).0 != (#[trigger] b[j]).0 by {
        assert(a[i].0 != a[j].0);
    }
    assert forall|key: u64| #[trigger] number_position_of(a, key) == number_position_of(b, key) by {
        if number_position_of(b, key) is Some {
            let j = number_position_of(b, key)->0;
            assert(a[j].0 == key);
        }
    }
}

} // verus!
