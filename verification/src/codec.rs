//! How the typed entities become document trees and come back.
//!
//! Every entity says what tree stands for it and which entity a tree stands
//! for. A record is a mapping with one entry for each field that is set, in
//! the order of the fields; a field that is not set has no entry.

use crate::error::WorkflowError;
use crate::ordered_map::distinct_keys;
use crate::ordered_map::lemma_lookup_stored;
use crate::ordered_map::lemma_position;
use crate::ordered_map::lemma_stored_fresh;
use crate::ordered_map::lemma_position_is;
use crate::ordered_map::lookup;
use crate::ordered_map::position;
use crate::ordered_map::stored;
use crate::ordered_map::OrderedMap;
use crate::tree::entry_nodes;
use crate::tree::nodes;
use crate::tree::plain;
use crate::tree::Node;
use crate::tree::Tree;
use vstd::prelude::*;

verus! {

/// An entity with a tree form.
pub trait Codec: DeepView + Sized {
    /// The tree that stands for an entity.
    spec fn encode(v: Self::V) -> Node;

    /// The entity that a tree stands for, where it stands for one.
    spec fn decode(n: Node) -> Option<Self::V>;

    /// The entities that come back from their own tree as they went in.
    spec fn valid(v: Self::V) -> bool;

    /// Reading the tree of a valid entity gives the entity back. The tree
    /// is plain.
    proof fn lemma_round_trip(v: Self::V)
        requires
            Self::valid(v),
        ensures
            Self::decode(Self::encode(v)) == Some(v),
            plain(Self::encode(v)),
    ;

    /// The tree of this entity.
    fn to_tree(&self) -> (t: Tree)
        ensures
            t@ == Self::encode(self.deep_view()),
    ;

    /// The entity that a tree stands for; `Parse` where it stands for none.
    fn from_tree(t: &Tree) -> (r: Result<Self, WorkflowError>)
        ensures
            match r {
                Ok(x) => Self::decode(t@) == Some(x.deep_view()),
                Err(e) => e is Parse && Self::decode(t@) is None,
            },
    ;
}

impl DeepView for Tree {
    type V = Node;

    open spec fn deep_view(&self) -> Node {
        self.node()
    }
}

impl Codec for Tree {
    open spec fn encode(v: Node) -> Node {
        v
    }

    open spec fn decode(n: Node) -> Option<Node> {
        Some(n)
    }

    open spec fn valid(v: Node) -> bool {
        plain(v)
    }

    proof fn lemma_round_trip(v: Node) {
    }

    fn to_tree(&self) -> (t: Tree) {
        self.duplicate()
    }

    fn from_tree(t: &Tree) -> (r: Result<Self, WorkflowError>) {
        Ok(t.duplicate())
    }
}

impl Codec for String {
    open spec fn encode(v: Seq<char>) -> Node {
        Node::Str(v)
    }

    open spec fn decode(n: Node) -> Option<Seq<char>> {
        match n {
            Node::Str(s) => Some(s),
            _ => None,
        }
    }

    open spec fn valid(v: Seq<char>) -> bool {
        true
    }

    proof fn lemma_round_trip(v: Seq<char>) {
    }

    fn to_tree(&self) -> (t: Tree) {
        Tree::String(self.clone())
    }

    fn from_tree(t: &Tree) -> (r: Result<Self, WorkflowError>) {
        match t {
            Tree::String(s) => Ok(s.clone()),
            _ => Err(WorkflowError::Parse),
        }
    }
}

impl Codec for bool {
    open spec fn encode(v: bool) -> Node {
        Node::Bool(v)
    }

    open spec fn decode(n: Node) -> Option<bool> {
        match n {
            Node::Bool(b) => Some(b),
            _ => None,
        }
    }

    open spec fn valid(v: bool) -> bool {
        true
    }

    proof fn lemma_round_trip(v: bool) {
    }

    fn to_tree(&self) -> (t: Tree) {
        Tree::Bool(*self)
    }

    fn from_tree(t: &Tree) -> (r: Result<Self, WorkflowError>) {
        match t {
            Tree::Bool(b) => Ok(*b),
            _ => Err(WorkflowError::Parse),
        }
    }
}

impl Codec for u32 {
    open spec fn encode(v: u32) -> Node {
        Node::Int(v as int)
    }

    open spec fn decode(n: Node) -> Option<u32> {
        match n {
            Node::Int(i) => if 0 <= i <= u32::MAX {
                Some(i as u32)
            } else {
                None
            },
            _ => None,
        }
    }

    open spec fn valid(v: u32) -> bool {
        true
    }

    proof fn lemma_round_trip(v: u32) {
    }

    fn to_tree(&self) -> (t: Tree) {
        Tree::Number(*self as i64)
    }

    fn from_tree(t: &Tree) -> (r: Result<Self, WorkflowError>) {
        match t {
            Tree::Number(n) => if 0 <= *n && *n <= 0xffff_ffff {
                Ok(*n as u32)
            } else {
                Err(WorkflowError::Parse)
            },
            _ => Err(WorkflowError::Parse),
        }
    }
}

impl Codec for u16 {
    open spec fn encode(v: u16) -> Node {
        Node::Int(v as int)
    }

    open spec fn decode(n: Node) -> Option<u16> {
        match n {
            Node::Int(i) => if 0 <= i <= u16::MAX {
                Some(i as u16)
            } else {
                None
            },
            _ => None,
        }
    }

    open spec fn valid(v: u16) -> bool {
        true
    }

    proof fn lemma_round_trip(v: u16) {
    }

    fn to_tree(&self) -> (t: Tree) {
        Tree::Number(*self as i64)
    }

    fn from_tree(t: &Tree) -> (r: Result<Self, WorkflowError>) {
        match t {
            Tree::Number(n) => if 0 <= *n && *n <= 0xffff {
                Ok(*n as u16)
            } else {
                Err(WorkflowError::Parse)
            },
            _ => Err(WorkflowError::Parse),
        }
    }
}

/// The trees of a list of entities.
pub open spec fn encode_all<T: Codec>(items: Seq<T::V>) -> Seq<Node> {
    Seq::new(items.len(), |i: int| T::encode(items[i]))
}

/// Every tree of the list stands for an entity.
pub open spec fn decodes_all<T: Codec>(items: Seq<Node>) -> bool {
    forall|i: int| 0 <= i < items.len() ==> (#[trigger] T::decode(items[i])) is Some
}

/// The entities that the trees of a list stand for.
pub open spec fn decode_all<T: Codec>(items: Seq<Node>) -> Seq<T::V> {
    Seq::new(items.len(), |i: int| T::decode(items[i])->Some_0)
}

impl<T: Codec> Codec for Vec<T> {
    open spec fn encode(v: Seq<T::V>) -> Node {
        Node::List(encode_all::<T>(v))
    }

    open spec fn decode(n: Node) -> Option<Seq<T::V>> {
        match n {
            Node::List(items) => if decodes_all::<T>(items) {
                Some(decode_all::<T>(items))
            } else {
                None
            },
            _ => None,
        }
    }

    open spec fn valid(v: Seq<T::V>) -> bool {
        forall|i: int| 0 <= i < v.len() ==> T::valid(#[trigger] v[i])
    }

    proof fn lemma_round_trip(v: Seq<T::V>) {
        let items = encode_all::<T>(v);
        assert forall|i: int| 0 <= i < items.len() implies (#[trigger] T::decode(items[i]))
            == Some(v[i]) && plain(items[i]) by {
            T::lemma_round_trip(v[i]);
        }
        assert(decode_all::<T>(items) =~= v);
    }

    fn to_tree(&self) -> (t: Tree) {
        let mut out: Vec<Tree> = Vec::new();
        let mut i: usize = 0;
        while i < self.len()
            invariant
                i <= self.len(),
                out@.len() == i,
                forall|k: int|
                    0 <= k < i ==> (#[trigger] out@[k])@ == T::encode(self@[k].deep_view()),
            decreases self.len() - i,
        {
            out.push(self[i].to_tree());
            i = i + 1;
        }
        let t = Tree::Array(out);
        proof {
            t.lemma_node();
            assert(nodes(out@) =~= encode_all::<T>(self.deep_view()));
        }
        t
    }

    fn from_tree(t: &Tree) -> (r: Result<Self, WorkflowError>) {
        proof {
            t.lemma_node();
        }
        match t {
            Tree::Array(items) => {
                let mut out: Vec<T> = Vec::new();
                let mut i: usize = 0;
                while i < items.len()
                    invariant
                        i <= items.len(),
                        out@.len() == i,
                        t@ == Node::List(nodes(items@)),
                        forall|k: int|
                            0 <= k < i ==> T::decode(items@[k]@) == Some(
                                (#[trigger] out@[k]).deep_view(),
                            ),
                    decreases items.len() - i,
                {
                    match T::from_tree(&items[i]) {
                        Ok(x) => {
                            out.push(x);
                        },
                        Err(e) => {
                            assert(T::decode(nodes(items@)[i as int]) is None);
                            return Err(WorkflowError::Parse);
                        },
                    }
                    i = i + 1;
                }
                proof {
                    assert forall|k: int| 0 <= k < nodes(items@).len() implies (
                    #[trigger] T::decode(nodes(items@)[k])) is Some by {
                        assert(T::decode(items@[k]@) == Some(out@[k].deep_view()));
                    }
                    assert(decode_all::<T>(nodes(items@)) =~= out.deep_view()) by {
                        assert forall|k: int| 0 <= k < out@.len() implies decode_all::<T>(
                            nodes(items@),
                        )[k] == out.deep_view()[k] by {
                            assert(T::decode(items@[k]@) == Some(out@[k].deep_view()));
                        }
                    }
                }
                Ok(out)
            },
            _ => Err(WorkflowError::Parse),
        }
    }
}

impl<T: DeepView> DeepView for OrderedMap<T> {
    type V = Seq<(Seq<char>, T::V)>;

    /// The entries in order, each value as its model.
    open spec fn deep_view(&self) -> Seq<(Seq<char>, T::V)> {
        Seq::new(self@.len(), |i: int| (self@[i].0, self@[i].1.deep_view()))
    }
}

/// Storing an entity in a map stores its model in the map's model.
pub proof fn lemma_deep_stored<T: DeepView>(
    m: OrderedMap<T>,
    after: OrderedMap<T>,
    key: Seq<char>,
    value: T,
)
    requires
        after@ == stored(m@, key, value),
    ensures
        after.deep_view() == stored(m.deep_view(), key, value.deep_view()),
{
    lemma_position(m@, key);
    let p = position(m@, key);
    assert forall|i: int| 0 <= i < p implies (#[trigger] m.deep_view()[i]).0 != key by {
        assert(m@[i].0 != key);
    }
    lemma_position_is(m.deep_view(), key, p);
    assert(after.deep_view() =~= stored(m.deep_view(), key, value.deep_view()));
}

impl<T: DeepView> OrderedMap<T> {
    /// Stores `value` under `key`: an entry with that key keeps its place
    /// and gets the new value, a new key goes to the end.
    pub fn put(self, key: &str, value: T) -> (m: Self)
        ensures
            m.deep_view() == stored(self.deep_view(), key@, value.deep_view()),
    {
        let ghost before = self;
        let m = self.insert(key.to_owned(), value);
        proof {
            lemma_deep_stored(before, m, key@, value);
        }
        m
    }

    /// An empty map.
    pub fn empty() -> (m: Self)
        ensures
            m.deep_view() == Seq::<(Seq<char>, T::V)>::empty(),
    {
        let m = OrderedMap::new();
        assert(m.deep_view() =~= Seq::<(Seq<char>, T::V)>::empty());
        m
    }
}

/// The entries of a map of entities, each value as its tree.
pub open spec fn encode_entries<T: Codec>(entries: Seq<(Seq<char>, T::V)>) -> Seq<
    (Seq<char>, Node),
> {
    Seq::new(entries.len(), |i: int| (entries[i].0, T::encode(entries[i].1)))
}

/// Every value of the entries stands for an entity.
pub open spec fn decodes_entries<T: Codec>(entries: Seq<(Seq<char>, Node)>) -> bool {
    forall|i: int| 0 <= i < entries.len() ==> (#[trigger] T::decode(entries[i].1)) is Some
}

/// The entries with the entities that their values stand for.
pub open spec fn decode_entries<T: Codec>(entries: Seq<(Seq<char>, Node)>) -> Seq<
    (Seq<char>, T::V),
> {
    Seq::new(entries.len(), |i: int| (entries[i].0, T::decode(entries[i].1)->Some_0))
}

impl<T: Codec> Codec for OrderedMap<T> {
    open spec fn encode(v: Seq<(Seq<char>, T::V)>) -> Node {
        Node::Dict(encode_entries::<T>(v))
    }

    open spec fn decode(n: Node) -> Option<Seq<(Seq<char>, T::V)>> {
        match n {
            Node::Dict(entries) => if decodes_entries::<T>(entries) {
                Some(decode_entries::<T>(entries))
            } else {
                None
            },
            _ => None,
        }
    }

    open spec fn valid(v: Seq<(Seq<char>, T::V)>) -> bool {
        forall|i: int| 0 <= i < v.len() ==> T::valid((#[trigger] v[i]).1)
    }

    proof fn lemma_round_trip(v: Seq<(Seq<char>, T::V)>) {
        let entries = encode_entries::<T>(v);
        assert forall|i: int| 0 <= i < entries.len() implies (#[trigger] T::decode(entries[i].1))
            == Some(v[i].1) && plain(entries[i].1) by {
            T::lemma_round_trip(v[i].1);
        }
        assert(decode_entries::<T>(entries) =~= v);
    }

    fn to_tree(&self) -> (t: Tree) {
        let mut out: OrderedMap<Tree> = OrderedMap::new();
        let n = self.len();
        let mut i: usize = 0;
        while i < n
            invariant
                i <= n,
                n == self@.len(),
                distinct_keys(self@),
                out@.len() == i,
                forall|k: int|
                    0 <= k < i ==> (#[trigger] out@[k]).0 == self@[k].0 && out@[k].1@ == T::encode(
                        self@[k].1.deep_view(),
                    ),
            decreases n - i,
        {
            let ghost before = out@;
            let item = self.value_at(i).to_tree();
            proof {
                assert forall|k: int| 0 <= k < before.len() implies (#[trigger] before[k]).0
                    != self@[i as int].0 by {
                    assert(self@[k].0 != self@[i as int].0);
                }
                lemma_stored_fresh(before, self@[i as int].0, item);
            }
            out = out.insert(self.key_at(i).clone(), item);
            i = i + 1;
        }
        let t = Tree::Object(out);
        proof {
            t.lemma_node();
            assert(entry_nodes(out@) =~= encode_entries::<T>(self.deep_view()));
        }
        t
    }

    fn from_tree(t: &Tree) -> (r: Result<Self, WorkflowError>) {
        proof {
            t.lemma_node();
        }
        match t {
            Tree::Object(m) => {
                let mut out: OrderedMap<T> = OrderedMap::new();
                let n = m.len();
                let mut i: usize = 0;
                while i < n
                    invariant
                        i <= n,
                        n == m@.len(),
                        distinct_keys(m@),
                        t@ == Node::Dict(entry_nodes(m@)),
                        out@.len() == i,
                        forall|k: int|
                            0 <= k < i ==> (#[trigger] out@[k]).0 == m@[k].0 && T::decode(
                                m@[k].1@,
                            ) == Some(out@[k].1.deep_view()),
                    decreases n - i,
                {
                    let ghost before = out@;
                    match T::from_tree(m.value_at(i)) {
                        Ok(x) => {
                            proof {
                                assert forall|k: int| 0 <= k < before.len() implies (
                                #[trigger] before[k]).0 != m@[i as int].0 by {
                                    assert(m@[k].0 != m@[i as int].0);
                                }
                                lemma_stored_fresh(before, m@[i as int].0, x);
                            }
                            out = out.insert(m.key_at(i).clone(), x);
                        },
                        Err(e) => {
                            assert(T::decode(entry_nodes(m@)[i as int].1) is None);
                            return Err(WorkflowError::Parse);
                        },
                    }
                    i = i + 1;
                }
                proof {
                    assert forall|k: int| 0 <= k < entry_nodes(m@).len() implies (
                    #[trigger] T::decode(entry_nodes(m@)[k].1)) is Some by {
                        assert(T::decode(m@[k].1@) == Some(out@[k].1.deep_view()));
                    }
                    assert(decode_entries::<T>(entry_nodes(m@)) =~= out.deep_view()) by {
                        assert forall|k: int| 0 <= k < out@.len() implies decode_entries::<T>(
                            entry_nodes(m@),
                        )[k] == out.deep_view()[k] by {
                            assert(T::decode(m@[k].1@) == Some(out@[k].1.deep_view()));
                        }
                    }
                }
                Ok(out)
            },
            _ => Err(WorkflowError::Parse),
        }
    }
}

/// The entries of a record or a map of trees.
pub type Entries = Seq<(Seq<char>, Node)>;

/// `entries` with a field: the field's tree stored under its key where
/// the field is set, and nothing more where it is not.
#[verifier::opaque]
pub open spec fn put(entries: Entries, key: Seq<char>, field: Option<Node>) -> Entries {
    match field {
        Some(n) => stored(entries, key, n),
        None => entries,
    }
}

/// The fields of a record in their order: each with its key and, where it
/// is set, its tree.
pub type Fields = Seq<(Seq<char>, Option<Node>)>;

/// The entries of a record with these fields: one for each field that is
/// set, in the order of the fields.
#[verifier::opaque]
pub open spec fn record_entries(fields: Fields) -> Entries
    decreases fields.len(),
{
    if fields.len() == 0 {
        Seq::empty()
    } else {
        put(record_entries(fields.drop_last()), fields.last().0, fields.last().1)
    }
}

/// The entries of a record with one more field are those of the record
/// with that field put to them.
pub broadcast proof fn lemma_record_push(fields: Fields, key: Seq<char>, field: Option<Node>)
    ensures
        #[trigger] record_entries(fields.push((key, field))) == put(
            record_entries(fields),
            key,
            field,
        ),
{
    reveal(record_entries);
    assert(fields.push((key, field)).drop_last() =~= fields);
}

/// A key of a record's entries is the key of one of its fields that is set.
pub proof fn lemma_record_keys(fields: Fields, key: Seq<char>)
    requires
        lookup(record_entries(fields), key) is Some,
    ensures
        exists|i: int|
            0 <= i < fields.len() && (#[trigger] fields[i]).0 == key && fields[i].1 is Some,
    decreases fields.len(),
{
    reveal(record_entries);
    reveal(put);
    if fields.len() == 0 {
        lemma_position(Seq::<(Seq<char>, Node)>::empty(), key);
    } else {
        let rest = fields.drop_last();
        let last = fields.last();
        if last.0 == key && last.1 is Some {
            assert(fields[fields.len() - 1] == last);
        } else {
            if last.1 is Some {
                crate::ordered_map::lemma_lookup_stored_other(
                    record_entries(rest),
                    last.0,
                    last.1->Some_0,
                    key,
                );
            }
            lemma_record_keys(rest, key);
            let i = choose|i: int|
                0 <= i < rest.len() && (#[trigger] rest[i]).0 == key && rest[i].1 is Some;
            assert(fields[i] == rest[i]);
        }
    }
}

/// Where a function gives each field's key its place among the fields, the
/// keys are distinct, and then: each field's key leads to the field's tree
/// where the field is set and nowhere where it is not; and the entries are
/// plain where the trees of the fields are.
pub proof fn lemma_record(fields: Fields, rank: spec_fn(Seq<char>) -> int)
    requires
        forall|i: int| 0 <= i < fields.len() ==> rank((#[trigger] fields[i]).0) == i,
    ensures
        forall|i: int|
            0 <= i < fields.len() ==> lookup(record_entries(fields), (#[trigger] fields[i]).0)
                == fields[i].1,
        (forall|i: int| 0 <= i < fields.len() && (#[trigger] fields[i]).1 is Some ==> plain(
            fields[i].1->Some_0,
        )) ==> all_plain(record_entries(fields)),
    decreases fields.len(),
{
    reveal(record_entries);
    reveal(put);
    if fields.len() == 0 {
    } else {
        let rest = fields.drop_last();
        let last = fields.last();
        let before = record_entries(rest);
        let after = record_entries(fields);
        assert forall|i: int| 0 <= i < rest.len() implies rank((#[trigger] rest[i]).0) == i by {
            assert(rest[i] == fields[i]);
        }
        lemma_record(rest, rank);
        assert(fields[fields.len() - 1] == last);
        assert forall|i: int| 0 <= i < fields.len() implies lookup(after, (#[trigger] fields[i]).0)
            == fields[i].1 by {
            if i == fields.len() - 1 {
                match last.1 {
                    Some(n) => {
                        lemma_lookup_stored(before, last.0, n);
                    },
                    None => {
                        if lookup(before, last.0) is Some {
                            lemma_record_keys(rest, last.0);
                            let j = choose|j: int|
                                0 <= j < rest.len() && (#[trigger] rest[j]).0 == last.0
                                    && rest[j].1 is Some;
                            assert(rank(rest[j].0) == j);
                        }
                    },
                }
            } else {
                assert(rest[i] == fields[i]);
                assert(rank(fields[i].0) == i);
                if last.1 is Some {
                    crate::ordered_map::lemma_lookup_stored_other(
                        before,
                        last.0,
                        last.1->Some_0,
                        fields[i].0,
                    );
                }
            }
        }
        if forall|i: int| 0 <= i < fields.len() && (#[trigger] fields[i]).1 is Some ==> plain(
            fields[i].1->Some_0,
        ) {
            assert forall|i: int|
                0 <= i < rest.len() && (#[trigger] rest[i]).1 is Some implies plain(
                rest[i].1->Some_0,
            ) by {
                assert(rest[i] == fields[i]);
            }
            lemma_put_plain(before, last.0, last.1);
        }
    }
}

/// Every value of the entries is plain.
pub open spec fn all_plain(entries: Entries) -> bool {
    forall|i: int| 0 <= i < entries.len() ==> plain((#[trigger] entries[i]).1)
}

/// A field with a plain tree keeps the entries plain.
pub broadcast proof fn lemma_put_plain(entries: Entries, key: Seq<char>, field: Option<Node>)
    requires
        all_plain(entries),
        field matches Some(n) ==> plain(n),
    ensures
        #[trigger] all_plain(put(entries, key, field)),
{
    reveal(put);
    lemma_position(entries, key);
}

/// The tree of a field that may be unset.
pub open spec fn opt_node<T: Codec>(field: Option<T::V>) -> Option<Node> {
    match field {
        Some(v) => Some(T::encode(v)),
        None => None,
    }
}

/// The tree of a field that is a list: an empty list counts as unset.
pub open spec fn list_node<T: Codec>(field: Seq<T::V>) -> Option<Node> {
    if field.len() == 0 {
        None
    } else {
        Some(Node::List(encode_all::<T>(field)))
    }
}

/// The tree of a field that is a text: an empty text counts as unset.
pub open spec fn text_node(field: Seq<char>) -> Option<Node> {
    if field.len() == 0 {
        None
    } else {
        Some(Node::Str(field))
    }
}

/// The tree of a field that is a flag: a flag that is down counts as unset.
pub open spec fn flag_node(field: bool) -> Option<Node> {
    if field {
        Some(Node::Bool(true))
    } else {
        None
    }
}

/// The tree of a field that is a map: an empty map counts as unset.
pub open spec fn map_node<T: Codec>(field: Seq<(Seq<char>, T::V)>) -> Option<Node> {
    if field.len() == 0 {
        None
    } else {
        Some(Node::Dict(encode_entries::<T>(field)))
    }
}

/// What a record's entries say of a field that is a text: no entry means
/// the empty text.
pub open spec fn text_field(entries: Entries, key: Seq<char>) -> Option<Seq<char>> {
    match lookup(entries, key) {
        Some(n) => String::decode(n),
        None => Some(Seq::empty()),
    }
}

/// What a record's entries say of a field that is a flag: no entry means
/// that the flag is down.
pub open spec fn flag_field(entries: Entries, key: Seq<char>) -> Option<bool> {
    match lookup(entries, key) {
        Some(n) => bool::decode(n),
        None => Some(false),
    }
}

/// What a record's entries say of a field that is a map: no entry means
/// the empty map.
pub open spec fn map_field<T: Codec>(entries: Entries, key: Seq<char>) -> Option<
    Seq<(Seq<char>, T::V)>,
> {
    match lookup(entries, key) {
        Some(n) => OrderedMap::<T>::decode(n),
        None => Some(Seq::empty()),
    }
}

/// What a record's entries say of a field that may be unset: no entry and
/// a null both mean unset. `None` where the entry stands for no entity.
pub open spec fn opt_field<T: Codec>(entries: Entries, key: Seq<char>) -> Option<Option<T::V>> {
    match lookup(entries, key) {
        None => Some(None),
        Some(Node::Null) => Some(None),
        Some(n) => match T::decode(n) {
            Some(v) => Some(Some(v)),
            None => None,
        },
    }
}

/// What a record's entries say of a field that must be there.
pub open spec fn req_field<T: Codec>(entries: Entries, key: Seq<char>) -> Option<T::V> {
    match lookup(entries, key) {
        Some(n) => T::decode(n),
        None => None,
    }
}

/// What a record's entries say of a field that is a list: no entry means
/// the empty list.
pub open spec fn list_field<T: Codec>(entries: Entries, key: Seq<char>) -> Option<Seq<T::V>> {
    match lookup(entries, key) {
        Some(n) => Vec::<T>::decode(n),
        None => Some(Seq::empty()),
    }
}

/// A field that may be unset comes back from its own tree where its value
/// is valid. The tree of a set field is never null.
pub open spec fn opt_valid<T: Codec>(field: Option<T::V>) -> bool {
    match field {
        Some(v) => T::valid(v) && !(T::encode(v) is Null),
        None => true,
    }
}

/// The tree of a field, where the field is set, is plain.
pub open spec fn plain_opt(field: Option<Node>) -> bool {
    match field {
        Some(n) => plain(n),
        None => true,
    }
}

/// No field gives no entries.
pub broadcast proof fn lemma_record_empty()
    ensures
        #[trigger] record_entries(Seq::empty()) == Seq::<(Seq<char>, Node)>::empty(),
{
    reveal(record_entries);
}

/// A valid field that may be unset is read back from entries in which its
/// key leads to its tree.
pub proof fn lemma_opt_field<T: Codec>(entries: Entries, key: Seq<char>, field: Option<T::V>)
    requires
        lookup(entries, key) == opt_node::<T>(field),
        opt_valid::<T>(field),
    ensures
        opt_field::<T>(entries, key) == Some(field),
        plain_opt(opt_node::<T>(field)),
{
    if field is Some {
        T::lemma_round_trip(field->Some_0);
    }
}

/// A valid field that is always there is read back from entries in which
/// its key leads to its tree.
pub proof fn lemma_req_field<T: Codec>(entries: Entries, key: Seq<char>, field: T::V)
    requires
        lookup(entries, key) == Some(T::encode(field)),
        T::valid(field),
    ensures
        req_field::<T>(entries, key) == Some(field),
        plain(T::encode(field)),
{
    T::lemma_round_trip(field);
}

/// A valid field that is a list is read back from entries in which its key
/// leads to its tree, or nowhere where the list is empty.
pub proof fn lemma_list_field<T: Codec>(entries: Entries, key: Seq<char>, field: Seq<T::V>)
    requires
        lookup(entries, key) == list_node::<T>(field),
        Vec::<T>::valid(field),
    ensures
        list_field::<T>(entries, key) == Some(field),
        plain_opt(list_node::<T>(field)),
{
    Vec::<T>::lemma_round_trip(field);
    if field.len() == 0 {
        assert(field =~= Seq::<T::V>::empty());
    }
}

/// A field that is a text is read back from entries in which its key
/// leads to its tree, or nowhere where the text is empty.
pub proof fn lemma_text_field(entries: Entries, key: Seq<char>, field: Seq<char>)
    requires
        lookup(entries, key) == text_node(field),
    ensures
        text_field(entries, key) == Some(field),
        plain_opt(text_node(field)),
{
    if field.len() == 0 {
        assert(field =~= Seq::<char>::empty());
    }
}

/// A field that is a flag is read back from entries in which its key
/// leads to its tree, or nowhere where the flag is down.
pub proof fn lemma_flag_field(entries: Entries, key: Seq<char>, field: bool)
    requires
        lookup(entries, key) == flag_node(field),
    ensures
        flag_field(entries, key) == Some(field),
        plain_opt(flag_node(field)),
{
}

/// A valid field that is a map is read back from entries in which its key
/// leads to its tree, or nowhere where the map is empty.
pub proof fn lemma_map_field<T: Codec>(
    entries: Entries,
    key: Seq<char>,
    field: Seq<(Seq<char>, T::V)>,
)
    requires
        lookup(entries, key) == map_node::<T>(field),
        OrderedMap::<T>::valid(field),
    ensures
        map_field::<T>(entries, key) == Some(field),
        plain_opt(map_node::<T>(field)),
{
    OrderedMap::<T>::lemma_round_trip(field);
    if field.len() == 0 {
        assert(field =~= Seq::<(Seq<char>, T::V)>::empty());
    }
}

/// The entries of a map of trees are those of its model, and a key leads
/// to the model of what it leads to in the map.
pub proof fn lemma_entry_nodes(entries: Seq<(Seq<char>, Tree)>, key: Seq<char>)
    ensures
        position(entry_nodes(entries), key) == position(entries, key),
        lookup(entry_nodes(entries), key) == match lookup(entries, key) {
            Some(t) => Some(t@),
            None => None,
        },
{
    lemma_position(entries, key);
    let p = position(entries, key);
    assert forall|i: int| 0 <= i < p implies (#[trigger] entry_nodes(entries)[i]).0 != key by {
        assert(entries[i].0 != key);
    }
    lemma_position_is(entry_nodes(entries), key, p);
}

/// Storing a tree in a map stores its model in the map's model.
pub proof fn lemma_entry_nodes_stored(entries: Seq<(Seq<char>, Tree)>, key: Seq<char>, t: Tree)
    ensures
        entry_nodes(stored(entries, key, t)) == stored(entry_nodes(entries), key, t@),
{
    lemma_entry_nodes(entries, key);
    lemma_position(entries, key);
    assert(entry_nodes(stored(entries, key, t)) =~= stored(entry_nodes(entries), key, t@));
}

/// The entries of a record that has no field yet.
pub fn record() -> (m: OrderedMap<Tree>)
    ensures
        entry_nodes(m@) == Seq::<(Seq<char>, Node)>::empty(),
{
    let m = OrderedMap::new();
    assert(entry_nodes(m@) =~= Seq::<(Seq<char>, Node)>::empty());
    m
}

/// The mapping with the entries of a record.
pub fn mapping(m: OrderedMap<Tree>) -> (t: Tree)
    ensures
        t@ == Node::Dict(entry_nodes(m@)),
{
    let t = Tree::Object(m);
    proof {
        t.lemma_node();
    }
    t
}

/// The entries of a tree that is a mapping.
pub fn entries_of(t: &Tree) -> (r: Option<&OrderedMap<Tree>>)
    ensures
        match r {
            Some(m) => t@ == Node::Dict(entry_nodes(m@)),
            None => !(t@ is Dict),
        },
{
    proof {
        t.lemma_node();
    }
    match t {
        Tree::Object(m) => Some(m),
        _ => None,
    }
}

/// Adds a field that may be unset to the entries of a record.
pub fn put_opt<T: Codec>(m: OrderedMap<Tree>, key: &str, field: &Option<T>) -> (r: OrderedMap<
    Tree,
>)
    ensures
        entry_nodes(r@) == put(entry_nodes(m@), key@, opt_node::<T>(field.deep_view())),
{
    proof {
        reveal(put);
    }
    match field {
        Some(v) => {
            let t = v.to_tree();
            proof {
                lemma_entry_nodes_stored(m@, key@, t);
            }
            m.insert(key.to_owned(), t)
        },
        None => m,
    }
}

/// Adds a field that is always there to the entries of a record.
pub fn put_req<T: Codec>(m: OrderedMap<Tree>, key: &str, field: &T) -> (r: OrderedMap<Tree>)
    ensures
        entry_nodes(r@) == put(entry_nodes(m@), key@, Some(T::encode(field.deep_view()))),
{
    let t = field.to_tree();
    proof {
        reveal(put);
        lemma_entry_nodes_stored(m@, key@, t);
    }
    m.insert(key.to_owned(), t)
}

/// Adds a field that is a list to the entries of a record.
pub fn put_list<T: Codec>(m: OrderedMap<Tree>, key: &str, field: &Vec<T>) -> (r: OrderedMap<Tree>)
    ensures
        entry_nodes(r@) == put(entry_nodes(m@), key@, list_node::<T>(field.deep_view())),
{
    proof {
        reveal(put);
    }
    if field.len() == 0 {
        m
    } else {
        let t = field.to_tree();
        proof {
            lemma_entry_nodes_stored(m@, key@, t);
        }
        m.insert(key.to_owned(), t)
    }
}

/// Adds a field that is a text to the entries of a record.
pub fn put_text(m: OrderedMap<Tree>, key: &str, field: &String) -> (r: OrderedMap<Tree>)
    ensures
        entry_nodes(r@) == put(entry_nodes(m@), key@, text_node(field@)),
{
    proof {
        reveal(put);
    }
    if field.as_str().is_empty() {
        m
    } else {
        let t = field.to_tree();
        proof {
            lemma_entry_nodes_stored(m@, key@, t);
        }
        m.insert(key.to_owned(), t)
    }
}

/// Adds a field that is a flag to the entries of a record.
pub fn put_flag(m: OrderedMap<Tree>, key: &str, field: &bool) -> (r: OrderedMap<Tree>)
    ensures
        entry_nodes(r@) == put(entry_nodes(m@), key@, flag_node(*field)),
{
    proof {
        reveal(put);
    }
    if *field {
        let t = Tree::Bool(true);
        proof {
            lemma_entry_nodes_stored(m@, key@, t);
        }
        m.insert(key.to_owned(), t)
    } else {
        m
    }
}

/// Adds a field that is a map to the entries of a record.
pub fn put_map<T: Codec>(m: OrderedMap<Tree>, key: &str, field: &OrderedMap<T>) -> (r: OrderedMap<
    Tree,
>)
    ensures
        entry_nodes(r@) == put(entry_nodes(m@), key@, map_node::<T>(field.deep_view())),
{
    proof {
        reveal(put);
    }
    if field.len() == 0 {
        m
    } else {
        let t = field.to_tree();
        proof {
            lemma_entry_nodes_stored(m@, key@, t);
        }
        m.insert(key.to_owned(), t)
    }
}

/// Reads a field that is a text from the entries of a record.
pub fn get_text(m: &OrderedMap<Tree>, key: &str) -> (r: Result<String, WorkflowError>)
    ensures
        match r {
            Ok(x) => text_field(entry_nodes(m@), key@) == Some(x@),
            Err(e) => e is Parse && text_field(entry_nodes(m@), key@) is None,
        },
{
    proof {
        lemma_entry_nodes(m@, key@);
    }
    match m.get(key) {
        None => Ok(String::new()),
        Some(t) => String::from_tree(t),
    }
}

/// Reads a field that is a flag from the entries of a record.
pub fn get_flag(m: &OrderedMap<Tree>, key: &str) -> (r: Result<bool, WorkflowError>)
    ensures
        match r {
            Ok(x) => flag_field(entry_nodes(m@), key@) == Some(x),
            Err(e) => e is Parse && flag_field(entry_nodes(m@), key@) is None,
        },
{
    proof {
        lemma_entry_nodes(m@, key@);
    }
    match m.get(key) {
        None => Ok(false),
        Some(t) => bool::from_tree(t),
    }
}

/// Reads a field that is a map from the entries of a record.
pub fn get_map<T: Codec>(m: &OrderedMap<Tree>, key: &str) -> (r: Result<
    OrderedMap<T>,
    WorkflowError,
>)
    ensures
        match r {
            Ok(x) => map_field::<T>(entry_nodes(m@), key@) == Some(x.deep_view()),
            Err(e) => e is Parse && map_field::<T>(entry_nodes(m@), key@) is None,
        },
{
    proof {
        lemma_entry_nodes(m@, key@);
    }
    match m.get(key) {
        None => Ok(OrderedMap::empty()),
        Some(t) => OrderedMap::<T>::from_tree(t),
    }
}

/// Reads a field that may be unset from the entries of a record.
pub fn get_opt<T: Codec>(m: &OrderedMap<Tree>, key: &str) -> (r: Result<Option<T>, WorkflowError>)
    ensures
        match r {
            Ok(x) => opt_field::<T>(entry_nodes(m@), key@) == Some(x.deep_view()),
            Err(e) => e is Parse && opt_field::<T>(entry_nodes(m@), key@) is None,
        },
{
    proof {
        lemma_entry_nodes(m@, key@);
    }
    match m.get(key) {
        None => Ok(None),
        Some(Tree::Null) => Ok(None),
        Some(t) => match T::from_tree(t) {
            Ok(x) => Ok(Some(x)),
            Err(e) => Err(WorkflowError::Parse),
        },
    }
}

/// Reads a field that must be there from the entries of a record.
pub fn get_req<T: Codec>(m: &OrderedMap<Tree>, key: &str) -> (r: Result<T, WorkflowError>)
    ensures
        match r {
            Ok(x) => req_field::<T>(entry_nodes(m@), key@) == Some(x.deep_view()),
            Err(e) => e is Parse && req_field::<T>(entry_nodes(m@), key@) is None,
        },
{
    proof {
        lemma_entry_nodes(m@, key@);
    }
    match m.get(key) {
        None => Err(WorkflowError::Parse),
        Some(t) => match T::from_tree(t) {
            Ok(x) => Ok(x),
            Err(e) => Err(WorkflowError::Parse),
        },
    }
}

/// Reads a field that is a list from the entries of a record.
pub fn get_list<T: Codec>(m: &OrderedMap<Tree>, key: &str) -> (r: Result<Vec<T>, WorkflowError>)
    ensures
        match r {
            Ok(x) => list_field::<T>(entry_nodes(m@), key@) == Some(x.deep_view()),
            Err(e) => e is Parse && list_field::<T>(entry_nodes(m@), key@) is None,
        },
{
    proof {
        lemma_entry_nodes(m@, key@);
    }
    match m.get(key) {
        None => {
            let out: Vec<T> = Vec::new();
            assert(out.deep_view() =~= Seq::<T::V>::empty());
            Ok(out)
        },
        Some(t) => match Vec::<T>::from_tree(t) {
            Ok(x) => Ok(x),
            Err(e) => Err(WorkflowError::Parse),
        },
    }
}

} // verus!
