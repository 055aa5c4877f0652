//! An insertion-ordered map from string keys to values.
//!
//! The entries live in a vector, in the order in which their keys first
//! arrived. An `IndexMap` from each key to its position in that vector finds a
//! key without walking the entries. The type invariant ties the two together
//! and keeps the keys distinct.
//!
//! The values are in the vector and not in the `IndexMap`, so that one map
//! serves every type of value, and a tree can hold a map of trees.

use indexmap::IndexMap;
use vstd::prelude::*;
use vstd::std_specs::cmp::PartialEqSpec;
use vstd::std_specs::cmp::PartialEqSpecImpl;

verus! {

/// `indexmap::IndexMap`, held as it is: nothing is said of what is in it
/// but through `slot_entries`.
#[verifier::external_type_specification]
#[verifier::external_body]
#[verifier::reject_recursive_types(K)]
#[verifier::reject_recursive_types(V)]
#[verifier::reject_recursive_types(S)]
pub struct ExIndexMap<K, V, S>(IndexMap<K, V, S>);

/// What a position index holds: its keys with the positions stored under
/// them, in the order in which the index walks them.
pub uninterp spec fn slot_entries(m: IndexMap<String, usize>) -> Seq<(Seq<char>, usize)>;

/// No two entries of `entries` have the same key.
pub open spec fn distinct_keys<V>(entries: Seq<(Seq<char>, V)>) -> bool {
    forall|i: int, j: int|
        0 <= i < entries.len() && 0 <= j < entries.len() && i != j ==> entries[i].0 != entries[j].0
}

/// Some entry of `entries` has the key `key`.
pub open spec fn has_key<V>(entries: Seq<(Seq<char>, V)>, key: Seq<char>) -> bool {
    exists|i: int| 0 <= i < entries.len() && #[trigger] entries[i].0 == key
}

/// The position of the first entry of `entries` with the key `key`, or the
/// length of `entries` where there is none.
#[verifier::opaque]
pub open spec fn position<V>(entries: Seq<(Seq<char>, V)>, key: Seq<char>) -> int
    decreases entries.len(),
{
    if entries.len() == 0 {
        0
    } else if entries[0].0 == key {
        0
    } else {
        1 + position(entries.drop_first(), key)
    }
}

/// The value of the first entry of `entries` with the key `key`.
pub open spec fn lookup<V>(entries: Seq<(Seq<char>, V)>, key: Seq<char>) -> Option<V> {
    if position(entries, key) < entries.len() {
        Some(entries[position(entries, key)].1)
    } else {
        None
    }
}

/// `entries` after `value` was stored under `key`: an entry with that key
/// keeps its place and gets the new value, a new key goes to the end.
pub open spec fn stored<V>(entries: Seq<(Seq<char>, V)>, key: Seq<char>, value: V) -> Seq<
    (Seq<char>, V),
> {
    if position(entries, key) < entries.len() {
        entries.update(position(entries, key), (key, value))
    } else {
        entries.push((key, value))
    }
}

/// `position` is within bounds, points at the key where it is below the
/// length, and no earlier entry has the key.
pub proof fn lemma_position<V>(entries: Seq<(Seq<char>, V)>, key: Seq<char>)
    ensures
        0 <= position(entries, key) <= entries.len(),
        position(entries, key) < entries.len() ==> entries[position(entries, key)].0 == key,
        forall|i: int| 0 <= i < position(entries, key) ==> (#[trigger] entries[i]).0 != key,
        position(entries, key) < entries.len() <==> has_key(entries, key),
    decreases entries.len(),
{
    reveal(position);
    if entries.len() == 0 {
    } else if entries[0].0 == key {
        assert(entries[0].0 == key);
    } else {
        let rest = entries.drop_first();
        lemma_position(rest, key);
        let p = position(rest, key);
        assert forall|i: int| 0 <= i < p + 1 implies (#[trigger] entries[i]).0 != key by {
            if i > 0 {
                assert(entries[i] == rest[i - 1]);
            }
        }
        if p < rest.len() {
            assert(entries[p + 1] == rest[p]);
            assert(entries[p + 1].0 == key);
        } else {
            assert forall|i: int| 0 <= i < entries.len() implies (#[trigger] entries[i]).0
                != key by {}
        }
    }
}

/// Where the keys are distinct, the one entry with a key is the one that
/// `position` finds.
pub proof fn lemma_position_unique<V>(entries: Seq<(Seq<char>, V)>, key: Seq<char>, i: int)
    requires
        0 <= i < entries.len(),
        entries[i].0 == key,
        distinct_keys(entries),
    ensures
        position(entries, key) == i,
        lookup(entries, key) == Some(entries[i].1),
{
    lemma_position(entries, key);
    let p = position(entries, key);
    if p > i {
        assert(entries[i].0 != key);
    }
}

/// Storing under a key keeps the keys distinct, and the key then leads to the
/// stored value while every other key leads where it led before.
pub proof fn lemma_stored<V>(entries: Seq<(Seq<char>, V)>, key: Seq<char>, value: V)
    requires
        distinct_keys(entries),
    ensures
        distinct_keys(stored(entries, key, value)),
        lookup(stored(entries, key, value), key) == Some(value),
        forall|other: Seq<char>|
            other != key ==> #[trigger] lookup(stored(entries, key, value), other) == lookup(
                entries,
                other,
            ),
{
    lemma_position(entries, key);
    let p = position(entries, key);
    let after = stored(entries, key, value);
    assert(distinct_keys(after)) by {
        assert forall|i: int, j: int|
            0 <= i < after.len() && 0 <= j < after.len() && i != j implies after[i].0
            != after[j].0 by {
            if p < entries.len() {
                assert(after[i].0 == entries[i].0);
                assert(after[j].0 == entries[j].0);
            } else {
                if i < entries.len() && j < entries.len() {
                } else if i < entries.len() {
                    assert(entries[i].0 != key);
                } else {
                    assert(entries[j].0 != key);
                }
            }
        }
    }
    let q = if p < entries.len() { p } else { entries.len() as int };
    assert(after[q] == (key, value));
    lemma_position_unique(after, key, q);
    assert forall|other: Seq<char>| other != key implies #[trigger] lookup(after, other)
        == lookup(entries, other) by {
        lemma_position(entries, other);
        let k = position(entries, other);
        if k < entries.len() {
            assert(after[k] == entries[k]);
            lemma_position_unique(after, other, k);
        } else {
            lemma_position(after, other);
            let k2 = position(after, other);
            if k2 < after.len() {
                if k2 < entries.len() {
                    assert(after[k2].0 == entries[k2].0);
                    assert(entries[k2].0 != other);
                }
            }
        }
    }
}

/// The first entry with a key is at `at`: `position` gives `at`.
pub proof fn lemma_position_is<V>(entries: Seq<(Seq<char>, V)>, key: Seq<char>, at: int)
    requires
        0 <= at <= entries.len(),
        at < entries.len() ==> entries[at].0 == key,
        forall|i: int| 0 <= i < at ==> (#[trigger] entries[i]).0 != key,
    ensures
        position(entries, key) == at,
{
    lemma_position(entries, key);
    let p = position(entries, key);
    if p < at {
        assert(entries[p].0 != key);
    }
}

/// A key that no entry has goes to the end when something is stored
/// under it.
pub proof fn lemma_stored_fresh<V>(entries: Seq<(Seq<char>, V)>, key: Seq<char>, value: V)
    requires
        forall|i: int| 0 <= i < entries.len() ==> (#[trigger] entries[i]).0 != key,
    ensures
        stored(entries, key, value) == entries.push((key, value)),
{
    lemma_position_is(entries, key, entries.len() as int);
}

/// A key leads to the value that was stored under it.
pub broadcast proof fn lemma_lookup_stored<V>(
    entries: Seq<(Seq<char>, V)>,
    key: Seq<char>,
    value: V,
)
    ensures
        #[trigger] lookup(stored(entries, key, value), key) == Some(value),
{
    lemma_position(entries, key);
    let p = position(entries, key);
    let after = stored(entries, key, value);
    assert forall|i: int| 0 <= i < p implies (#[trigger] after[i]).0 != key by {
        assert(after[i] == entries[i]);
    }
    lemma_position_is(after, key, p);
}

/// Storing under one key leaves every other key where it led before.
pub broadcast proof fn lemma_lookup_stored_other<V>(
    entries: Seq<(Seq<char>, V)>,
    key: Seq<char>,
    value: V,
    other: Seq<char>,
)
    requires
        other != key,
    ensures
        #[trigger] lookup(stored(entries, key, value), other) == lookup(entries, other),
{
    lemma_position(entries, key);
    lemma_position(entries, other);
    let p = position(entries, other);
    let after = stored(entries, key, value);
    assert forall|i: int| 0 <= i < entries.len() implies (#[trigger] after[i]).0
        == entries[i].0 by {}
    let q = if p < entries.len() {
        p
    } else {
        after.len() as int
    };
    assert forall|i: int| 0 <= i < q implies (#[trigger] after[i]).0 != other by {
        if i < entries.len() {
            assert(entries[i].0 != other);
        }
    }
    lemma_position_is(after, other, q);
    if p < entries.len() {
        assert(after[p].1 == entries[p].1);
    }
}

/// Calls `IndexMap::new`: the new index holds nothing.
#[verifier::external_body]
fn slots_new() -> (m: IndexMap<String, usize>)
    ensures
        slot_entries(m) == Seq::<(Seq<char>, usize)>::empty(),
{
    IndexMap::new()
}

/// Calls `IndexMap::get`: the position stored under an entry with the key
/// `key`, and `None` exactly where no entry has that key.
#[verifier::external_body]
fn slots_get(m: &IndexMap<String, usize>, key: &str) -> (r: Option<usize>)
    ensures
        match r {
            Some(at) => exists|i: int|
                0 <= i < slot_entries(*m).len() && #[trigger] slot_entries(*m)[i] == (key@, at),
            None => forall|i: int|
                0 <= i < slot_entries(*m).len() ==> (#[trigger] slot_entries(*m)[i]).0 != key@,
        },
{
    m.get(key).copied()
}

/// Calls `IndexMap::insert`: an entry with an equal key keeps its key and its
/// place and gets the new position; where there is none, the new entry goes
/// last.
#[verifier::external_body]
fn slots_insert(m: &mut IndexMap<String, usize>, key: String, at: usize)
    ensures
        forall|i: int|
            0 <= i < slot_entries(*old(m)).len() && (#[trigger] slot_entries(*old(m))[i]).0 == key@
                ==> slot_entries(*final(m)) == slot_entries(*old(m)).update(i, (key@, at)),
        (forall|i: int|
            0 <= i < slot_entries(*old(m)).len() ==> (#[trigger] slot_entries(*old(m))[i]).0
                != key@) ==> slot_entries(*final(m)) == slot_entries(*old(m)).push((key@, at)),
{
    m.insert(key, at);
}

/// A map from string keys to values that remembers the order in which its
/// keys arrived.
#[derive(Debug)]
pub struct OrderedMap<V> {
    slots: IndexMap<String, usize>,
    entries: Vec<(String, V)>,
}

/// The entries of a map as its view shows them: each key as its characters.
spec fn shown<V>(entries: Seq<(String, V)>) -> Seq<(Seq<char>, V)> {
    Seq::new(entries.len(), |i: int| (entries[i].0@, entries[i].1))
}

/// The index holds each key of `entries` at its place, with its position.
spec fn indexed<V>(slots: IndexMap<String, usize>, entries: Seq<(String, V)>) -> bool {
    &&& slot_entries(slots).len() == entries.len()
    &&& forall|i: int|
        0 <= i < entries.len() ==> (#[trigger] slot_entries(slots)[i]).0 == entries[i].0@
            && slot_entries(slots)[i].1 == i
}

impl<V> View for OrderedMap<V> {
    type V = Seq<(Seq<char>, V)>;

    /// The entries in order, each key as its characters.
    closed spec fn view(&self) -> Seq<(Seq<char>, V)> {
        shown(self.entries@)
    }
}

impl<V: Clone> Clone for OrderedMap<V> {
    fn clone(&self) -> (m: Self) {
        let mut m = OrderedMap::new();
        let mut i: usize = 0;
        while i < self.entries.len()
            invariant
                i <= self.entries.len(),
            decreases self.entries.len() - i,
        {
            m = m.insert(self.entries[i].0.clone(), self.entries[i].1.clone());
            i = i + 1;
        }
        m
    }
}

impl<V: PartialEq> PartialEq for OrderedMap<V> {
    fn eq(&self, other: &Self) -> (r: bool) {
        if self.entries.len() != other.entries.len() {
            return false;
        }
        let mut i: usize = 0;
        while i < self.entries.len()
            invariant
                i <= self.entries.len(),
                self.entries.len() == other.entries.len(),
                V::obeys_eq_spec() ==> forall|k: int|
                    0 <= k < i ==> self@[k].0 == other@[k].0 && (#[trigger] self@[k]).1.eq_spec(
                        &other@[k].1,
                    ),
            decreases self.entries.len() - i,
        {
            let same = self.entries[i].0 == other.entries[i].0 && self.entries[i].1
                == other.entries[i].1;
            assert(self@[i as int] == (self.entries@[i as int].0@, self.entries@[i as int].1));
            assert(other@[i as int] == (other.entries@[i as int].0@, other.entries@[i as int].1));
            if !same {
                return false;
            }
            i = i + 1;
        }
        true
    }
}

impl<V: PartialEq> PartialEqSpecImpl for OrderedMap<V> {
    open spec fn obeys_eq_spec() -> bool {
        V::obeys_eq_spec()
    }

    /// Two maps are equal where they hold equal values under the same keys
    /// in the same order.
    open spec fn eq_spec(&self, other: &Self) -> bool {
        &&& self@.len() == other@.len()
        &&& forall|k: int|
            0 <= k < self@.len() ==> self@[k].0 == other@[k].0 && (#[trigger] self@[k]).1.eq_spec(
                &other@[k].1,
            )
    }
}

impl<V: Eq> Eq for OrderedMap<V> {

}

impl<V> OrderedMap<V> {
    #[verifier::type_invariant]
    spec fn inv(&self) -> bool {
        &&& indexed(self.slots, self.entries@)
        &&& distinct_keys(shown(self.entries@))
    }

    /// Every value of the map is smaller than the map, so a recursive
    /// definition may descend into it.
    pub proof fn lemma_value_decreases(self, i: int)
        requires
            0 <= i < self@.len(),
        ensures
            decreases_to!(self => self@[i].1),
    {
        broadcast use vstd::std_specs::vec::axiom_vec_index_decreases;

        assert(self@[i].1 == self.entries[i].1);
        assert(decreases_to!(self => self.entries));
        assert(decreases_to!(self.entries => self.entries[i]));
        assert(decreases_to!(self.entries[i] => self.entries[i].1));
    }

    /// An empty map.
    pub fn new() -> (m: Self)
        ensures
            m@ == Seq::<(Seq<char>, V)>::empty(),
    {
        let slots = slots_new();
        let entries: Vec<(String, V)> = Vec::new();
        assert(shown(entries@) =~= Seq::<(Seq<char>, V)>::empty());
        OrderedMap { slots, entries }
    }

    /// The number of entries. The keys of a map are distinct.
    pub fn len(&self) -> (n: usize)
        ensures
            n == self@.len(),
            distinct_keys(self@),
    {
        proof {
            use_type_invariant(self);
        }
        self.entries.len()
    }

    /// The position of the entry with the key `key`.
    pub fn index_of(&self, key: &str) -> (r: Option<usize>)
        ensures
            distinct_keys(self@),
            match r {
                Some(i) => i < self@.len() && position(self@, key@) == i,
                None => position(self@, key@) == self@.len(),
            },
    {
        proof {
            use_type_invariant(self);
            lemma_position(self@, key@);
        }
        let r = slots_get(&self.slots, key);
        proof {
            match r {
                Some(at) => {
                    let i = choose|i: int|
                        0 <= i < slot_entries(self.slots).len() && #[trigger] slot_entries(
                            self.slots,
                        )[i] == (key@, at);
                    assert(slot_entries(self.slots)[i].1 == i);
                    assert(self@[i].0 == key@);
                    lemma_position_unique(self@, key@, i);
                },
                None => {
                    if position(self@, key@) < self@.len() {
                        let p = position(self@, key@);
                        assert(slot_entries(self.slots)[p].0 == self@[p].0);
                    }
                },
            }
        }
        r
    }

    /// Whether some entry has the key `key`.
    pub fn contains_key(&self, key: &str) -> (r: bool)
        ensures
            r == has_key(self@, key@),
    {
        proof {
            lemma_position(self@, key@);
        }
        self.index_of(key).is_some()
    }

    /// The value stored under `key`.
    pub fn get(&self, key: &str) -> (r: Option<&V>)
        ensures
            match r {
                Some(v) => lookup(self@, key@) == Some(*v),
                None => lookup(self@, key@) is None,
            },
    {
        match self.index_of(key) {
            Some(i) => Some(&self.entries[i].1),
            None => None,
        }
    }

    /// The key at position `i`.
    pub fn key_at(&self, i: usize) -> (k: &String)
        requires
            i < self@.len(),
        ensures
            k@ == self@[i as int].0,
    {
        &self.entries[i].0
    }

    /// The value at position `i`.
    pub fn value_at(&self, i: usize) -> (v: &V)
        requires
            i < self@.len(),
        ensures
            *v == self@[i as int].1,
    {
        &self.entries[i].1
    }

    /// Stores `value` under `key`: an entry with that key keeps its place
    /// and gets the new value, a new key goes to the end.
    pub fn insert(self, key: String, value: V) -> (m: Self)
        ensures
            m@ == stored(self@, key@, value),
            distinct_keys(m@),
    {
        proof {
            use_type_invariant(&self);
            lemma_position(self@, key@);
            lemma_stored(self@, key@, value);
        }
        let found = self.index_of(key.as_str());
        let ghost before = self@;
        let OrderedMap { mut slots, mut entries } = self;
        match found {
            Some(i) => {
                entries.set(i, (key, value));
                assert(shown(entries@) =~= stored(before, key@, value));
                assert forall|k: int| 0 <= k < entries@.len() implies (#[trigger] slot_entries(
                    slots,
                )[k]).0 == entries@[k].0@ by {
                    assert(before[k].0 == entries@[k].0@);
                }
                OrderedMap { slots, entries }
            },
            None => {
                let at = entries.len();
                assert forall|k: int| 0 <= k < slot_entries(slots).len() implies (
                #[trigger] slot_entries(slots)[k]).0 != key@ by {
                    assert(before[k].0 != key@);
                }
                slots_insert(&mut slots, key.clone(), at);
                entries.push((key, value));
                assert(shown(entries@) =~= stored(before, key@, value));
                OrderedMap { slots, entries }
            },
        }
    }
}

} // verus!
