//! What holds of the library as a whole, stated over the models of its
//! entities and proved.
//!
//! The YAML text itself is written and read by the codec. What the laws say
//! of text, they say for the texts that the codec reads back as it wrote
//! them.

use crate::codec::Codec;
use crate::codec::record_entries;
use crate::codec::lemma_record;
use crate::codec::Fields;
use crate::job::JobView;
use crate::ordered_map::distinct_keys;
use crate::ordered_map::has_key;
use crate::ordered_map::lemma_position;
use crate::ordered_map::lemma_position_is;
use crate::ordered_map::lookup;
use crate::tree::plain;
use crate::tree::shape_of;
use crate::tree::Node;
use crate::tree::Shape;
use crate::workflow::attached;
use crate::workflow::read;
use crate::workflow::EventValue;
use crate::workflow::Workflow;
use crate::workflow::WorkflowView;
use crate::yaml::parsed;
use crate::yaml::yaml_text;
use crate::yaml::yaml_tree;
use vstd::prelude::*;

verus! {

/// The codec writes a text for the tree `n` and reads `n` back from it.
pub open spec fn reads_back(n: Node) -> bool {
    match yaml_text(n) {
        Some(text) => yaml_tree(text) == Some(n),
        None => false,
    }
}

/// Round trip, by tree: reading the tree of a valid workflow gives the
/// workflow back.
pub proof fn law_round_trip_by_tree(w: WorkflowView)
    requires
        Workflow::valid(w),
    ensures
        Workflow::decode(Workflow::encode(w)) == Some(w),
{
    Workflow::lemma_round_trip(w);
}

/// Round trip, by text: parsing the text that a valid workflow renders to
/// gives the workflow back, where the codec reads the tree of the workflow
/// back from its own text.
pub proof fn law_round_trip(w: WorkflowView)
    requires
        Workflow::valid(w),
    ensures
        reads_back(Workflow::encode(w)) ==> (yaml_text(Workflow::encode(w)) matches Some(text)
            && read(text) == Some(w)),
{
    Workflow::lemma_round_trip(w);
}

/// Omission: in the entries of a record whose keys are told apart by their
/// places, the key of a field that is not set leads nowhere, and the key of
/// a field that is set leads to the tree of that field.
pub proof fn law_unset_field_has_no_entry(fields: Fields, rank: spec_fn(Seq<char>) -> int, i: int)
    requires
        forall|k: int| 0 <= k < fields.len() ==> rank((#[trigger] fields[k]).0) == k,
        0 <= i < fields.len(),
    ensures
        fields[i].1 is None ==> !has_key(record_entries(fields), fields[i].0),
        fields[i].1 is Some ==> lookup(record_entries(fields), fields[i].0) == fields[i].1,
{
    lemma_record(fields, rank);
    lemma_position(record_entries(fields), fields[i].0);
}

/// Omission, for the workflow: each key of the document is there exactly
/// where its field is set. Every other record states the same of its own
/// fields as its `lemma_omission`.
pub proof fn law_workflow_omits_unset_fields(w: WorkflowView)
    ensures
        Workflow::encode(w) matches Node::Dict(e) && {
            &&& has_key(e, "name"@) <==> w.name is Some
            &&& has_key(e, "env"@) <==> w.env is Some
            &&& has_key(e, "run-name"@) <==> w.run_name is Some
            &&& has_key(e, "on"@) <==> w.on is Some
            &&& has_key(e, "permissions"@) <==> w.permissions is Some
            &&& has_key(e, "jobs"@) <==> w.jobs is Some
            &&& has_key(e, "concurrency"@) <==> w.concurrency is Some
            &&& has_key(e, "defaults"@) <==> w.defaults is Some
            &&& has_key(e, "secrets"@) <==> w.secrets is Some
            &&& has_key(e, "timeout-minutes"@) <==> w.timeout_minutes is Some
        },
{
    Workflow::lemma_omission(w);
}

/// Uniqueness: after a job was attached under an identifier, a second one
/// under the same identifier is refused, the identifier still leads to the
/// first, and the identifiers are as distinct as they were.
pub proof fn law_job_identifiers_unique(
    jobs: Seq<(Seq<char>, JobView)>,
    id: Seq<char>,
    first: JobView,
    second: JobView,
)
    requires
        distinct_keys(jobs),
        attached(jobs, id, first) is Some,
    ensures
        attached(attached(jobs, id, first)->Some_0, id, second) is None,
        lookup(attached(jobs, id, first)->Some_0, id) == Some(first),
        distinct_keys(attached(jobs, id, first)->Some_0),
{
    let after = jobs.push((id, first));
    assert(after[jobs.len() as int].0 == id);
    assert forall|i: int| 0 <= i < jobs.len() implies (#[trigger] after[i]).0 != id by {
        assert(jobs[i].0 != id);
    }
    lemma_position_is(after, id, jobs.len() as int);
    assert forall|i: int, j: int|
        0 <= i < after.len() && 0 <= j < after.len() && i != j implies after[i].0
        != after[j].0 by {
        if i < jobs.len() && j < jobs.len() {
            assert(jobs[i].0 != jobs[j].0);
        } else if i < jobs.len() {
            assert(jobs[i].0 != id);
        } else {
            assert(jobs[j].0 != id);
        }
    }
}

/// Shape preservation, by tree: a trigger comes back from its own tree as
/// it went in, so with the shape that it had; and one string, a list and a
/// mapping have three different shapes.
pub proof fn law_shape_preserved_by_tree(n: Node)
    requires
        plain(n),
    ensures
        EventValue::decode(EventValue::encode(n)) == Some(n),
        n is Str ==> shape_of(n) == Shape::Single,
        n is List ==> shape_of(n) == Shape::List,
        n is Dict ==> shape_of(n) == Shape::Mapping,
{
}

/// Shape preservation, by text: the tree that is parsed from the text of a
/// plain tree has the shape of that tree, where the codec reads the tree
/// back from its own text.
pub proof fn law_shape_preserved(n: Node)
    requires
        plain(n),
    ensures
        reads_back(n) ==> (yaml_text(n) matches Some(text) && parsed(text) matches Some(m)
            && shape_of(m) == shape_of(n)),
{
}

} // verus!
