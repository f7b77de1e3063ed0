//! A small map from strings to values, kept as a list of slots.
//!
//! Keys are compared by their characters. The list may hold a key more than
//! once; the slot nearest the end is the one that counts, and `insert` writes
//! to that slot, so a table that was only ever filled through `insert` holds
//! each key once.

use vstd::prelude::*;

verus! {

/// A key with its value.
#[derive(Debug)]
pub struct Slot<V> {
    key: String,
    value: V,
}

/// A map from strings to values.
#[derive(Debug)]
pub struct Table<V> {
    slots: Vec<Slot<V>>,
}

/// Whether no two slots of `s` have the same key.
pub closed spec fn distinct_keys<V>(s: Seq<Slot<V>>) -> bool {
    forall|i: int, j: int| 0 <= i < j < s.len() ==> (#[trigger] s[i]).key@ != (#[trigger] s[j]).key@
}

/// The map that a list of slots stands for: later slots override earlier ones.
pub closed spec fn slots_map<V>(s: Seq<Slot<V>>) -> Map<Seq<char>, V>
    decreases s.len(),
{
    if s.len() == 0 {
        Map::empty()
    } else {
        slots_map(s.drop_last()).insert(s.last().key@, s.last().value)
    }
}

/// Whether `i` is the last slot of `s` with the key `k`.
spec fn is_last_with<V>(s: Seq<Slot<V>>, k: Seq<char>, i: int) -> bool {
    &&& 0 <= i < s.len()
    &&& s[i].key@ == k
    &&& forall|j: int| i < j < s.len() ==> (#[trigger] s[j]).key@ != k
}

proof fn lemma_absent<V>(s: Seq<Slot<V>>, k: Seq<char>)
    requires
        forall|j: int| 0 <= j < s.len() ==> (#[trigger] s[j]).key@ != k,
    ensures
        !slots_map(s).contains_key(k),
    decreases s.len(),
{
    if s.len() > 0 {
        assert forall|j: int| 0 <= j < s.drop_last().len() implies (#[trigger] s.drop_last()[j]).key@
            != k by {
            assert(s.drop_last()[j] == s[j]);
        }
        lemma_absent(s.drop_last(), k);
        assert(s.last() == s[s.len() - 1]);
    }
}

proof fn lemma_present<V>(s: Seq<Slot<V>>, k: Seq<char>, i: int)
    requires
        is_last_with(s, k, i),
    ensures
        slots_map(s).contains_key(k),
        slots_map(s)[k] == s[i].value,
    decreases s.len(),
{
    if i == s.len() - 1 {
    } else {
        assert(s.last() == s[s.len() - 1]);
        assert(s.drop_last()[i] == s[i]);
        assert forall|j: int| i < j < s.drop_last().len() implies (#[trigger] s.drop_last()[j]).key@
            != k by {
            assert(s.drop_last()[j] == s[j]);
        }
        lemma_present(s.drop_last(), k, i);
    }
}

proof fn lemma_overwrite<V>(s: Seq<Slot<V>>, t: Seq<Slot<V>>, k: Seq<char>, i: int, v: V)
    requires
        is_last_with(s, k, i),
        t.len() == s.len(),
        t[i].key@ == k,
        t[i].value == v,
        forall|j: int| 0 <= j < s.len() && j != i ==> t[j] == s[j],
    ensures
        slots_map(t) == slots_map(s).insert(k, v),
    decreases s.len(),
{
    if i == s.len() - 1 {
        assert(t.drop_last() == s.drop_last());
        assert(slots_map(t) == slots_map(s.drop_last()).insert(k, v));
        assert(slots_map(s.drop_last()).insert(k, s[i].value).insert(k, v) == slots_map(
            s.drop_last(),
        ).insert(k, v));
    } else {
        assert(s.last() == s[s.len() - 1]);
        assert(t.last() == s.last());
        assert(s.drop_last()[i] == s[i]);
        assert(t.drop_last()[i] == t[i]);
        assert forall|j: int| i < j < s.drop_last().len() implies (#[trigger] s.drop_last()[j]).key@
            != k by {
            assert(s.drop_last()[j] == s[j]);
        }
        assert forall|j: int| 0 <= j < s.drop_last().len() && j != i implies t.drop_last()[j]
            == s.drop_last()[j] by {
            assert(t.drop_last()[j] == t[j]);
            assert(s.drop_last()[j] == s[j]);
        }
        lemma_overwrite(s.drop_last(), t.drop_last(), k, i, v);
        let m = slots_map(s.drop_last());
        assert(m.insert(k, v).insert(s.last().key@, s.last().value) == m.insert(
            s.last().key@,
            s.last().value,
        ).insert(k, v));
    }
}

impl<V> View for Table<V> {
    type V = Map<Seq<char>, V>;

    closed spec fn view(&self) -> Map<Seq<char>, V> {
        slots_map(self.slots@)
    }
}

impl<V> Table<V> {
    #[verifier::type_invariant]
    spec fn no_key_twice(self) -> bool {
        distinct_keys(self.slots@)
    }

    /// The number of slots in the list.
    pub closed spec fn slot_count(&self) -> nat {
        self.slots@.len()
    }

    /// The key of slot `i`.
    pub closed spec fn slot_key(&self, i: int) -> Seq<char> {
        self.slots@[i].key@
    }

    /// The value of slot `i`.
    pub closed spec fn slot_value(&self, i: int) -> V {
        self.slots@[i].value
    }

    /// Whether no two slots have the same key. It holds of every table that
    /// a program holds.
    pub closed spec fn keys_distinct(&self) -> bool {
        distinct_keys(self.slots@)
    }

    /// Where no key stands twice, each slot's value is the map's value at
    /// the slot's key.
    pub proof fn lemma_slots_agree(&self)
        requires
            self.keys_distinct(),
        ensures
            forall|i: int|
                0 <= i < self.slot_count() ==> self@.contains_key(#[trigger] self.slot_key(i))
                    && self@[self.slot_key(i)] == self.slot_value(i),
    {
        assert forall|i: int| 0 <= i < self.slot_count() implies self@.contains_key(
            #[trigger] self.slot_key(i),
        ) && self@[self.slot_key(i)] == self.slot_value(i) by {
            assert(is_last_with(self.slots@, self.slots@[i].key@, i));
            lemma_present(self.slots@, self.slots@[i].key@, i);
        }
    }

    /// An empty table.
    pub fn new() -> (t: Self)
        ensures
            t@ == Map::<Seq<char>, V>::empty(),
            t.slot_count() == 0,
    {
        Table { slots: Vec::new() }
    }

    /// The index of the last slot with this key.
    fn position(&self, key: &String) -> (r: Option<usize>)
        ensures
            match r {
                Some(i) => is_last_with(self.slots@, key@, i as int),
                None => forall|j: int|
                    0 <= j < self.slots@.len() ==> (#[trigger] self.slots@[j]).key@ != key@,
            },
    {
        let mut i: usize = self.slots.len();
        while i > 0
            invariant
                i <= self.slots@.len(),
                forall|j: int| i <= j < self.slots@.len() ==> (#[trigger] self.slots@[j]).key@ != key@,
            decreases i,
        {
            i -= 1;
            if self.slots[i].key == *key {
                return Some(i);
            }
        }
        None
    }

    /// The value stored under `key`.
    pub fn get(&self, key: &str) -> (r: Option<&V>)
        ensures
            match r {
                Some(v) => self@.contains_key(key@) && *v == self@[key@],
                None => !self@.contains_key(key@),
            },
    {
        let probe = key.to_owned();
        match self.position(&probe) {
            Some(i) => {
                proof {
                    lemma_present(self.slots@, key@, i as int);
                }
                Some(&self.slots[i].value)
            },
            None => {
                proof {
                    lemma_absent(self.slots@, key@);
                }
                None
            },
        }
    }

    /// Whether a value is stored under `key`.
    pub fn contains_key(&self, key: &str) -> (r: bool)
        ensures
            r == self@.contains_key(key@),
    {
        self.get(key).is_some()
    }

    /// Stores `value` under `key`, and hands back the value that was stored
    /// there before.
    pub fn insert(&mut self, key: &str, value: V) -> (r: Option<V>)
        ensures
            final(self)@ == old(self)@.insert(key@, value),
            match r {
                Some(v) => old(self)@.contains_key(key@) && v == old(self)@[key@],
                None => !old(self)@.contains_key(key@),
            },
    {
        let probe = key.to_owned();
        proof {
            use_type_invariant(&*self);
        }
        match self.position(&probe) {
            Some(i) => {
                proof {
                    lemma_present(self.slots@, key@, i as int);
                }
                let mut held = value;
                let mut slots: Vec<Slot<V>> = Vec::new();
                std::mem::swap(&mut self.slots, &mut slots);
                std::mem::swap(&mut slots[i].value, &mut held);
                proof {
                    lemma_overwrite(old(self).slots@, slots@, key@, i as int, value);
                    assert forall|a: int, b: int| 0 <= a < b < slots@.len() implies (
                    #[trigger] slots@[a]).key@ != (#[trigger] slots@[b]).key@ by {
                        assert(slots@[a].key@ == old(self).slots@[a].key@);
                        assert(slots@[b].key@ == old(self).slots@[b].key@);
                    }
                }
                std::mem::swap(&mut self.slots, &mut slots);
                Some(held)
            },
            None => {
                proof {
                    lemma_absent(self.slots@, key@);
                }
                let mut slots: Vec<Slot<V>> = Vec::new();
                std::mem::swap(&mut self.slots, &mut slots);
                slots.push(Slot { key: probe, value });
                assert(slots@.drop_last() == old(self).slots@);
                std::mem::swap(&mut self.slots, &mut slots);
                None
            },
        }
    }

    /// The number of slots. No two of them have the same key.
    pub fn len(&self) -> (n: usize)
        ensures
            n == self.slot_count(),
            self.keys_distinct(),
    {
        proof {
            use_type_invariant(self);
        }
        self.slots.len()
    }

    /// The key of slot `i`.
    pub fn key_at(&self, i: usize) -> (k: &String)
        requires
            i < self.slot_count(),
        ensures
            k@ == self.slot_key(i as int),
    {
        &self.slots[i].key
    }

    /// The value of slot `i`.
    pub fn value_at(&self, i: usize) -> (v: &V)
        requires
            i < self.slot_count(),
        ensures
            *v == self.slot_value(i as int),
    {
        &self.slots[i].value
    }
}

} // verus!
