//! The way of a document tree to YAML text and back.
//!
//! The text is written and read by `serde_yaml`, which takes and gives
//! `serde_json::Value`. This module builds such a value from a tree node by
//! node, takes one apart node by node, and states what the two crates do.

use crate::error::WorkflowError;
use crate::ordered_map::distinct_keys;
use crate::ordered_map::lemma_position;
use crate::ordered_map::position;
use crate::ordered_map::OrderedMap;
use crate::tree::entry_nodes;
use crate::tree::nodes;
use crate::tree::plain;
use crate::tree::Node;
use crate::tree::Tree;
use vstd::prelude::*;

verus! {

/// `serde_json::Value`, held as it is: nothing is said of what is in it
/// but through `json_node`.
#[verifier::external_type_specification]
#[verifier::external_body]
pub struct ExJsonValue(serde_json::Value);

/// The tree that a `serde_json::Value` holds.
pub uninterp spec fn json_node(v: serde_json::Value) -> Node;

/// The YAML text that `serde_yaml` writes for a tree, or `None` where it
/// refuses the tree.
pub uninterp spec fn yaml_text(n: Node) -> Option<Seq<char>>;

/// The tree that `serde_yaml` reads from a text, or `None` where it refuses
/// the text.
pub uninterp spec fn yaml_tree(text: Seq<char>) -> Option<Node>;

/// The trees that a list of `serde_json::Value` holds.
pub open spec fn json_nodes(items: Seq<serde_json::Value>) -> Seq<Node> {
    Seq::new(items.len(), |i: int| json_node(items[i]))
}

/// The entries that a list of keys with `serde_json::Value` holds.
pub open spec fn json_entries(entries: Seq<(String, serde_json::Value)>) -> Seq<
    (Seq<char>, Node),
> {
    Seq::new(entries.len(), |i: int| (entries[i].0@, json_node(entries[i].1)))
}

/// The entries that a list of borrowed keys with borrowed
/// `serde_json::Value` holds.
pub open spec fn json_entry_refs(entries: Seq<(&String, &serde_json::Value)>) -> Seq<
    (Seq<char>, Node),
> {
    Seq::new(entries.len(), |i: int| (entries[i].0@, json_node(*entries[i].1)))
}

/// The variant `serde_json::Value::Null`.
#[verifier::external_body]
fn json_null() -> (v: serde_json::Value)
    ensures
        json_node(v) == Node::Null,
{
    serde_json::Value::Null
}

/// The variant `serde_json::Value::Bool`.
#[verifier::external_body]
fn json_bool(b: bool) -> (v: serde_json::Value)
    ensures
        json_node(v) == Node::Bool(b),
{
    serde_json::Value::Bool(b)
}

/// Calls `serde_json::Value::from` on an `i64`: the number holds that
/// integer.
#[verifier::external_body]
fn json_number(n: i64) -> (v: serde_json::Value)
    ensures
        json_node(v) == Node::Int(n as int),
{
    serde_json::Value::from(n)
}

/// The variant `serde_json::Value::String`.
#[verifier::external_body]
fn json_string(s: String) -> (v: serde_json::Value)
    ensures
        json_node(v) == Node::Str(s@),
{
    serde_json::Value::String(s)
}

/// The variant `serde_json::Value::Array`, with the items in their order.
#[verifier::external_body]
fn json_array(items: Vec<serde_json::Value>) -> (v: serde_json::Value)
    ensures
        json_node(v) == Node::List(json_nodes(items@)),
{
    serde_json::Value::Array(items)
}

/// Collects entries with distinct keys into a `serde_json::Map`, which keeps
/// them in the order in which they come, and wraps it in
/// `serde_json::Value::Object`.
#[verifier::external_body]
fn json_object(entries: Vec<(String, serde_json::Value)>) -> (v: serde_json::Value)
    requires
        distinct_keys(json_entries(entries@)),
    ensures
        json_node(v) == Node::Dict(json_entries(entries@)),
{
    serde_json::Value::Object(entries.into_iter().collect())
}

/// The parts of one `serde_json::Value`.
enum JsonParts<'a> {
    Null,
    Bool(bool),
    /// The number as an `i64`, where one holds it.
    Number(Option<i64>),
    String(&'a String),
    Array(&'a Vec<serde_json::Value>),
    Object(Vec<(&'a String, &'a serde_json::Value)>),
}

/// Tells the variants of a `serde_json::Value` apart and hands out what the
/// variant holds: of a number what `Number::as_i64` gives, of an object the
/// entries that `Map::iter` walks, in its order. The keys of an object are
/// distinct.
#[verifier::external_body]
fn json_parts<'a>(v: &'a serde_json::Value) -> (parts: JsonParts<'a>)
    ensures
        match parts {
            JsonParts::Null => json_node(*v) == Node::Null,
            JsonParts::Bool(b) => json_node(*v) == Node::Bool(b),
            JsonParts::Number(Some(n)) => json_node(*v) == Node::Int(n as int),
            JsonParts::Number(None) => json_node(*v) is Other,
            JsonParts::String(s) => json_node(*v) == Node::Str(s@),
            JsonParts::Array(items) => json_node(*v) == Node::List(json_nodes(items@)),
            JsonParts::Object(entries) => json_node(*v) == Node::Dict(json_entry_refs(entries@))
                && distinct_keys(json_entry_refs(entries@)),
        },
{
    match v {
        serde_json::Value::Null => JsonParts::Null,
        serde_json::Value::Bool(b) => JsonParts::Bool(*b),
        serde_json::Value::Number(n) => JsonParts::Number(n.as_i64()),
        serde_json::Value::String(s) => JsonParts::String(s),
        serde_json::Value::Array(items) => JsonParts::Array(items),
        serde_json::Value::Object(m) => JsonParts::Object(m.iter().collect()),
    }
}

/// Calls `serde_yaml::to_string` on a `serde_json::Value`: the text is the
/// one that belongs to the tree, and the call fails exactly where no text
/// belongs to it. Which trees have a text is not said.
#[verifier::external_body]
fn yaml_to_string(v: &serde_json::Value) -> (r: Result<String, serde_yaml::Error>)
    ensures
        match r {
            Ok(text) => yaml_text(json_node(*v)) == Some(text@),
            Err(_) => yaml_text(json_node(*v)) is None,
        },
{
    serde_yaml::to_string(v)
}

/// Calls `serde_yaml::from_str` for a `serde_json::Value`: the value holds
/// the tree that belongs to the text, and the call fails exactly where no
/// tree belongs to it.
#[verifier::external_body]
fn yaml_from_str(text: &str) -> (r: Result<serde_json::Value, serde_yaml::Error>)
    ensures
        match r {
            Ok(v) => yaml_tree(text@) == Some(json_node(v)),
            Err(_) => yaml_tree(text@) is None,
        },
{
    serde_yaml::from_str(text)
}

/// What `Tree::parse` gives for a text, by what the YAML codec reads from
/// it: the tree where the codec reads one that is plain.
pub open spec fn parsed(text: Seq<char>) -> Option<Node> {
    match yaml_tree(text) {
        Some(n) => if plain(n) {
            Some(n)
        } else {
            None
        },
        None => None,
    }
}

impl Tree {
    /// The `serde_json::Value` that holds this tree.
    pub fn to_json(&self) -> (v: serde_json::Value)
        ensures
            json_node(v) == self@,
        decreases self,
    {
        match self {
            Tree::Null => json_null(),
            Tree::Bool(b) => json_bool(*b),
            Tree::Number(n) => json_number(*n),
            Tree::String(s) => json_string(s.clone()),
            Tree::Array(items) => {
                let mut out: Vec<serde_json::Value> = Vec::new();
                let mut i: usize = 0;
                while i < items.len()
                    invariant
                        i <= items.len(),
                        self is Array && self->Array_0 == *items,
                        out@.len() == i,
                        forall|k: int| 0 <= k < i ==> json_node(#[trigger] out@[k]) == items@[k]@,
                    decreases items.len() - i,
                {
                    proof {
                        vstd::std_specs::vec::axiom_vec_index_decreases(*items, i as int);
                    }
                    out.push(items[i].to_json());
                    i = i + 1;
                }
                proof {
                    self.lemma_node();
                    assert(json_nodes(out@) =~= nodes(items@));
                }
                json_array(out)
            },
            Tree::Object(m) => {
                let mut out: Vec<(String, serde_json::Value)> = Vec::new();
                let n = m.len();
                let mut i: usize = 0;
                while i < n
                    invariant
                        i <= n,
                        n == m@.len(),
                        self is Object && self->Object_0 == *m,
                        out@.len() == i,
                        forall|k: int|
                            0 <= k < i ==> (#[trigger] out@[k]).0@ == m@[k].0 && json_node(
                                out@[k].1,
                            ) == m@[k].1@,
                    decreases n - i,
                {
                    proof {
                        m.lemma_value_decreases(i as int);
                    }
                    out.push((m.key_at(i).clone(), m.value_at(i).to_json()));
                    i = i + 1;
                }
                proof {
                    self.lemma_node();
                    assert(json_entries(out@) =~= entry_nodes(m@));
                    assert forall|a: int, b: int|
                        0 <= a < out@.len() && 0 <= b < out@.len() && a != b implies json_entries(
                        out@,
                    )[a].0 != json_entries(out@)[b].0 by {
                        assert(m@[a].0 != m@[b].0);
                    }
                }
                json_object(out)
            },
        }
    }

    /// The tree that a `serde_json::Value` holds, where it is plain.
    pub fn from_json(v: &serde_json::Value) -> (r: Option<Tree>)
        ensures
            match r {
                Some(tree) => tree@ == json_node(*v) && plain(json_node(*v)),
                None => !plain(json_node(*v)),
            },
        decreases json_node(*v),
    {
        match json_parts(v) {
            JsonParts::Null => Some(Tree::Null),
            JsonParts::Bool(b) => Some(Tree::Bool(b)),
            JsonParts::Number(Some(n)) => Some(Tree::Number(n)),
            JsonParts::Number(None) => None,
            JsonParts::String(s) => Some(Tree::String(s.clone())),
            JsonParts::Array(items) => {
                let mut out: Vec<Tree> = Vec::new();
                let mut i: usize = 0;
                while i < items.len()
                    invariant
                        i <= items.len(),
                        json_node(*v) is List && json_node(*v)->List_0 == json_nodes(items@),
                        out@.len() == i,
                        forall|k: int|
                            0 <= k < i ==> (#[trigger] out@[k])@ == json_node(items@[k]) && plain(
                                json_node(items@[k]),
                            ),
                    decreases items.len() - i,
                {
                    proof {
                        assert(json_nodes(items@)[i as int] == json_node(items@[i as int]));
                        vstd::seq::axiom_seq_index_decreases(json_nodes(items@), i as int);
                    }
                    match Tree::from_json(&items[i]) {
                        Some(tree) => {
                            out.push(tree);
                        },
                        None => {
                            assert(!plain(json_nodes(items@)[i as int]));
                            return None;
                        },
                    }
                    i = i + 1;
                }
                let r = Tree::Array(out);
                proof {
                    r.lemma_node();
                    assert(nodes(out@) =~= json_nodes(items@));
                    assert forall|k: int| 0 <= k < json_nodes(items@).len() implies plain(
                        #[trigger] json_nodes(items@)[k],
                    ) by {
                        assert(out@[k]@ == json_node(items@[k]));
                    }
                }
                Some(r)
            },
            JsonParts::Object(entries) => {
                let mut out: OrderedMap<Tree> = OrderedMap::new();
                let mut i: usize = 0;
                while i < entries.len()
                    invariant
                        i <= entries.len(),
                        json_node(*v) is Dict && json_node(*v)->Dict_0 == json_entry_refs(
                            entries@,
                        ),
                        distinct_keys(json_entry_refs(entries@)),
                        out@.len() == i,
                        forall|k: int|
                            0 <= k < i ==> (#[trigger] out@[k]).0 == entries@[k].0@ && out@[k].1@
                                == json_node(*entries@[k].1) && plain(json_node(*entries@[k].1)),
                    decreases entries.len() - i,
                {
                    proof {
                        assert(json_entry_refs(entries@)[i as int].1 == json_node(
                            *entries@[i as int].1,
                        ));
                        vstd::seq::axiom_seq_index_decreases(
                            json_entry_refs(entries@),
                            i as int,
                        );
                    }
                    match Tree::from_json(entries[i].1) {
                        Some(tree) => {
                            proof {
                                let key = entries@[i as int].0@;
                                lemma_position(out@, key);
                                if position(out@, key) < out@.len() {
                                    let p = position(out@, key);
                                    assert(json_entry_refs(entries@)[p].0 == key);
                                    assert(json_entry_refs(entries@)[i as int].0 == key);
                                }
                            }
                            out = out.insert(entries[i].0.clone(), tree);
                        },
                        None => {
                            assert(!plain(json_entry_refs(entries@)[i as int].1));
                            return None;
                        },
                    }
                    i = i + 1;
                }
                let r = Tree::Object(out);
                proof {
                    r.lemma_node();
                    assert(entry_nodes(out@) =~= json_entry_refs(entries@));
                    assert forall|k: int| 0 <= k < json_entry_refs(entries@).len() implies plain(
                        (#[trigger] json_entry_refs(entries@)[k]).1,
                    ) by {
                        assert(out@[k].1@ == json_node(*entries@[k].1));
                    }
                }
                Some(r)
            },
        }
    }

    /// The YAML text of the tree.
    ///
    /// Which trees the codec accepts is its own affair: the text is the one
    /// that belongs to the tree, and the error of the codec comes back
    /// exactly where no text belongs to it.
    pub fn render(&self) -> (r: Result<String, WorkflowError>)
        ensures
            match r {
                Ok(text) => yaml_text(self@) == Some(text@),
                Err(e) => e is Yaml && yaml_text(self@) is None,
            },
    {
        let json = self.to_json();
        match yaml_to_string(&json) {
            Ok(text) => Ok(text),
            Err(e) => Err(WorkflowError::Yaml(e)),
        }
    }

    /// The tree that a YAML text stands for.
    ///
    /// Fails with the codec's error where the codec refuses the text, and
    /// with `Parse` where the text holds a number beyond an `i64`.
    pub fn parse(text: &str) -> (r: Result<Tree, WorkflowError>)
        ensures
            match r {
                Ok(tree) => parsed(text@) == Some(tree@),
                Err(WorkflowError::Yaml(_)) => yaml_tree(text@) is None,
                Err(WorkflowError::Parse) => yaml_tree(text@) is Some && parsed(text@) is None,
                Err(_) => false,
            },
    {
        match yaml_from_str(text) {
            Ok(json) => match Tree::from_json(&json) {
                Some(tree) => Ok(tree),
                None => Err(WorkflowError::Parse),
            },
            Err(e) => Err(WorkflowError::Yaml(e)),
        }
    }
}

} // verus!
