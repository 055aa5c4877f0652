//! The workflow: the root of the document, its jobs by identifier, and
//! the way of the whole to YAML text and back.

use crate::codec::all_plain;
use crate::codec::entries_of;
use crate::codec::get_list;
use crate::codec::get_opt;
use crate::codec::lemma_list_field;
use crate::codec::lemma_opt_field;
use crate::codec::lemma_record;
use crate::codec::lemma_record_empty;
use crate::codec::lemma_record_push;
use crate::codec::list_field;
use crate::codec::list_node;
use crate::codec::mapping;
use crate::codec::opt_field;
use crate::codec::opt_node;
use crate::codec::opt_valid;
use crate::codec::plain_opt;
use crate::codec::put_list;
use crate::codec::put_opt;
use crate::codec::record;
use crate::codec::record_entries;
use crate::codec::Codec;
use crate::codec::Fields;
use crate::error::WorkflowError;
use crate::ordered_map::has_key;
use crate::ordered_map::lemma_position;
use crate::ordered_map::lookup;
use crate::job::Job;
use crate::job::JobView;
use crate::ordered_map::stored;
use crate::ordered_map::OrderedMap;
use crate::settings::Concurrency;
use crate::settings::ConcurrencyView;
use crate::settings::Defaults;
use crate::settings::DefaultsView;
use crate::settings::Permissions;
use crate::settings::PermissionsView;
use crate::settings::Secret;
use crate::settings::SecretView;
use crate::step::extended;
use crate::step::Env;
use crate::text::same;
use crate::tree::entry_nodes;
use crate::tree::plain;
use crate::tree::shape_of;
use crate::tree::Node;
use crate::tree::Shape;
use crate::tree::Tree;
use crate::yaml::parsed;
use crate::yaml::yaml_text;
use crate::yaml::yaml_tree;
use vstd::prelude::*;

verus! {

/// The jobs of a workflow by identifier, in the order in which the identifiers
/// arrived. No two jobs have one identifier.
#[derive(Debug, Clone, PartialEq, Eq)]
pub struct Jobs(pub OrderedMap<Job>);

impl DeepView for Jobs {
    type V = Seq<(Seq<char>, JobView)>;

    open spec fn deep_view(&self) -> Seq<(Seq<char>, JobView)> {
        self.0.deep_view()
    }
}

impl Codec for Jobs {
    /// Written as what it holds.
    open spec fn encode(v: Seq<(Seq<char>, JobView)>) -> Node {
        OrderedMap::<Job>::encode(v)
    }

    open spec fn decode(n: Node) -> Option<Seq<(Seq<char>, JobView)>> {
        OrderedMap::<Job>::decode(n)
    }

    open spec fn valid(v: Seq<(Seq<char>, JobView)>) -> bool {
        OrderedMap::<Job>::valid(v)
    }

    proof fn lemma_round_trip(v: Seq<(Seq<char>, JobView)>) {
        OrderedMap::<Job>::lemma_round_trip(v);
    }

    fn to_tree(&self) -> (t: Tree) {
        self.0.to_tree()
    }

    fn from_tree(t: &Tree) -> (r: Result<Self, WorkflowError>) {
        match OrderedMap::<Job>::from_tree(t) {
            Ok(x) => Ok(Jobs(x)),
            Err(e) => Err(e),
        }
    }
}

impl Jobs {
    /// No jobs.
    pub fn new() -> (r: Self)
        ensures
            r.deep_view() == Seq::<(Seq<char>, JobView)>::empty(),
    {
        Jobs(OrderedMap::empty())
    }

    /// Stores `value` under `key`: a job with that identifier keeps its
    /// place and is replaced, a new identifier goes to the end.
    pub fn insert(&mut self, key: String, value: Job)
        ensures
            final(self).deep_view() == stored(old(self).deep_view(), key@, value.deep_view()),
    {
        let mut jobs = OrderedMap::empty();
        std::mem::swap(&mut self.0, &mut jobs);
        self.0 = jobs.put(key.as_str(), value);
    }

    /// Whether a job has the identifier `key`.
    pub fn contains(&self, key: &str) -> (r: bool)
        ensures
            r == has_key(self.deep_view(), key@),
    {
        proof {
            lemma_position(self.0@, key@);
            lemma_position(self.deep_view(), key@);
            if has_key(self.0@, key@) {
                let i = choose|i: int| 0 <= i < self.0@.len() && #[trigger] self.0@[i].0 == key@;
                assert(self.deep_view()[i].0 == key@);
            }
            if has_key(self.deep_view(), key@) {
                let i = choose|i: int|
                    0 <= i < self.deep_view().len() && #[trigger] self.deep_view()[i].0 == key@;
                assert(self.0@[i].0 == key@);
            }
        }
        self.0.contains_key(key)
    }
}

impl Default for Jobs {
    /// No jobs.
    fn default() -> (r: Self)
        ensures
            r.deep_view() == Seq::<(Seq<char>, JobView)>::empty(),
    {
        Jobs::new()
    }
}

/// The entries of `more` whose keys `entries` has not, after those of
/// `entries`: what `entries` has, it keeps.
pub open spec fn filled(entries: Seq<(Seq<char>, Node)>, more: Seq<(Seq<char>, Node)>) -> Seq<
    (Seq<char>, Node),
>
    decreases more.len(),
{
    if more.len() == 0 {
        entries
    } else {
        let sofar = filled(entries, more.drop_last());
        if has_key(sofar, more.last().0) {
            sofar
        } else {
            sofar.push(more.last())
        }
    }
}

/// Two triggers as one: two mappings are filled into one, in which the
/// first keeps what it has; beside anything else the first stays as it is,
/// unless it is null.
pub open spec fn merged(this: Node, that: Node) -> Node {
    match (this, that) {
        (Node::Dict(a), Node::Dict(b)) => Node::Dict(filled(a, b)),
        (Node::Null, _) => that,
        _ => this,
    }
}


/// The events that start a workflow: the name of one event, a list of names, or
/// a mapping from each event to what it is limited to.
#[derive(Debug, Clone, PartialEq, Eq)]
pub struct EventValue(pub Tree);

impl DeepView for EventValue {
    type V = Node;

    open spec fn deep_view(&self) -> Node {
        self.0.deep_view()
    }
}

impl Codec for EventValue {
    /// Written as what it holds.
    open spec fn encode(v: Node) -> Node {
        Tree::encode(v)
    }

    open spec fn decode(n: Node) -> Option<Node> {
        Tree::decode(n)
    }

    open spec fn valid(v: Node) -> bool {
        Tree::valid(v)
    }

    proof fn lemma_round_trip(v: Node) {
        Tree::lemma_round_trip(v);
    }

    fn to_tree(&self) -> (t: Tree) {
        self.0.to_tree()
    }

    fn from_tree(t: &Tree) -> (r: Result<Self, WorkflowError>) {
        match Tree::from_tree(t) {
            Ok(x) => Ok(EventValue(x)),
            Err(e) => Err(e),
        }
    }
}

impl EventValue {
    /// The one event `name`.
    pub fn single(name: &str) -> (r: Self)
        ensures
            r.deep_view() == Node::Str(name@),
            shape_of(r.deep_view()) == Shape::Single,
    {
        EventValue(Tree::String(name.to_owned()))
    }

    /// The events `names`.
    pub fn list(names: &Vec<String>) -> (r: Self)
        ensures
            r.deep_view() == Vec::<String>::encode(names.deep_view()),
            shape_of(r.deep_view()) == Shape::List,
    {
        EventValue(names.to_tree())
    }

    /// The events of `entries`, each with what it is limited to.
    pub fn mapping(entries: Env) -> (r: Self)
        ensures
            r.deep_view() == Node::Dict(entries.deep_view()),
            shape_of(r.deep_view()) == Shape::Mapping,
    {
        let t = Tree::Object(entries.0);
        proof {
            t.lemma_node();
            assert(entries.deep_view() =~= entry_nodes(entries.0@));
        }
        EventValue(t)
    }

    /// The shape of the trigger.
    pub fn shape(&self) -> (s: Shape)
        ensures
            s == shape_of(self.deep_view()),
    {
        self.0.shape()
    }

    /// This trigger and `that` as one.
    pub fn merge(self, that: EventValue) -> (r: Self)
        ensures
            r.deep_view() == merged(self.deep_view(), that.deep_view()),
    {
        proof {
            self.0.lemma_node();
            that.0.lemma_node();
        }
        match (self.0, that.0) {
            (Tree::Object(a), Tree::Object(b)) => {
                let mut out = a;
                let n = b.len();
                let mut i: usize = 0;
                proof {
                    assert(entry_nodes(b@).take(0) =~= Seq::<(Seq<char>, Node)>::empty());
                }
                while i < n
                    invariant
                        i <= n,
                        n == b@.len(),
                        entry_nodes(out@) == filled(
                            entry_nodes(a@),
                            entry_nodes(b@).take(i as int),
                        ),
                    decreases n - i,
                {
                    proof {
                        let before = entry_nodes(b@).take(i as int);
                        let after = entry_nodes(b@).take(i + 1);
                        assert(after.drop_last() =~= before);
                        assert(after.last() == (b@[i as int].0, b@[i as int].1@));
                        let key = b@[i as int].0;
                        lemma_position(out@, key);
                        lemma_position(entry_nodes(out@), key);
                        crate::codec::lemma_entry_nodes(out@, key);
                    }
                    if !out.contains_key(b.key_at(i).as_str()) {
                        let ghost sofar = out@;
                        let value = b.value_at(i).duplicate();
                        proof {
                            crate::codec::lemma_entry_nodes_stored(sofar, b@[i as int].0, value);
                            crate::ordered_map::lemma_stored_fresh(
                                entry_nodes(sofar),
                                b@[i as int].0,
                                value@,
                            );
                        }
                        out = out.insert(b.key_at(i).clone(), value);
                    }
                    i = i + 1;
                }
                proof {
                    assert(entry_nodes(b@).take(n as int) =~= entry_nodes(b@));
                }
                let t = Tree::Object(out);
                proof {
                    t.lemma_node();
                }
                EventValue(t)
            },
            (Tree::Null, that) => EventValue(that),
            (this, _) => EventValue(this),
        }
    }
}

impl Default for EventValue {
    /// No trigger: null.
    fn default() -> (r: Self)
        ensures
            r.deep_view() == Node::Null,
    {
        EventValue(Tree::Null)
    }
}

/// What happened to the thing that an event is about.
#[derive(Debug, Clone, Copy, PartialEq, Eq, Structural)]
pub enum ActivityType {
    Created,
    Edited,
    Deleted,
}

impl DeepView for ActivityType {
    type V = ActivityType;

    open spec fn deep_view(&self) -> ActivityType {
        *self
    }
}

impl ActivityType {
    /// The word that is written for the variant.
    pub open spec fn word(self) -> Seq<char> {
        match self {
            ActivityType::Created => "created"@,
            ActivityType::Edited => "edited"@,
            ActivityType::Deleted => "deleted"@,
        }
    }

    /// The variant that a word stands for.
    pub open spec fn of_word(w: Seq<char>) -> Option<ActivityType> {
        if w == "created"@ {
            Some(ActivityType::Created)
        } else if w == "edited"@ {
            Some(ActivityType::Edited)
        } else if w == "deleted"@ {
            Some(ActivityType::Deleted)
        } else {
            None
        }
    }

    /// Each variant is the one that its own word stands for.
    pub proof fn lemma_words(self)
        ensures
            Self::of_word(self.word()) == Some(self),
    {
        reveal_strlit("created");
        reveal_strlit("edited");
        reveal_strlit("deleted");
        assert("created"@.len() == 7);
        assert("edited"@.len() == 6);
        assert("deleted"@.len() == 7);
        assert("created"@[0] == 'c');
        assert("deleted"@[0] == 'd');
    }

    /// The word that is written for the variant.
    pub fn as_str(&self) -> (s: &'static str)
        ensures
            s@ == self.word(),
    {
        match self {
            ActivityType::Created => "created",
            ActivityType::Edited => "edited",
            ActivityType::Deleted => "deleted",
        }
    }

    /// The variant that a word stands for.
    pub fn from_word(w: &str) -> (r: Option<ActivityType>)
        ensures
            r == Self::of_word(w@),
    {
        if same(w, "created") {
            Some(ActivityType::Created)
        } else if same(w, "edited") {
            Some(ActivityType::Edited)
        } else if same(w, "deleted") {
            Some(ActivityType::Deleted)
        } else {
            None
        }
    }
}

impl Codec for ActivityType {
    /// The word of the variant, as a string.
    open spec fn encode(v: ActivityType) -> Node {
        Node::Str(v.word())
    }

    open spec fn decode(n: Node) -> Option<ActivityType> {
        match n {
            Node::Str(w) => Self::of_word(w),
            _ => None,
        }
    }

    open spec fn valid(v: ActivityType) -> bool {
        true
    }

    proof fn lemma_round_trip(v: ActivityType) {
        v.lemma_words();
    }

    fn to_tree(&self) -> (t: Tree) {
        Tree::String(self.as_str().to_owned())
    }

    fn from_tree(t: &Tree) -> (r: Result<Self, WorkflowError>) {
        match t {
            Tree::String(w) => match Self::from_word(w.as_str()) {
                Some(v) => Ok(v),
                None => Err(WorkflowError::Parse),
            },
            _ => Err(WorkflowError::Parse),
        }
    }
}

/// The branches on which an event counts.
#[derive(Debug, Clone, PartialEq, Eq)]
pub struct EventAction {
    /// The branches on which the event counts.
    pub branches: Vec<String>,
    /// The branches on which it does not.
    pub branches_ignore: Vec<String>,
}

/// The model of `EventAction`: every field as its own model.
pub struct EventActionView {
    pub branches: Seq<Seq<char>>,
    pub branches_ignore: Seq<Seq<char>>,
}

impl DeepView for EventAction {
    type V = EventActionView;

    open spec fn deep_view(&self) -> EventActionView {
        EventActionView {
            branches: self.branches.deep_view(),
            branches_ignore: self.branches_ignore.deep_view(),
        }
    }
}

impl EventAction {
    /// The model of the entity with no field set: a field that is always
    /// there is empty.
    pub open spec fn blank() -> EventActionView {
        EventActionView {
            branches: Seq::empty(),
            branches_ignore: Seq::empty(),
        }
    }

    /// The fields with their keys, in the order in which they are written.
    pub open spec fn fields(v: EventActionView) -> Fields {
        Seq::empty()
            .push(("branches"@, list_node::<String>(v.branches)))
            .push(("branches-ignore"@, list_node::<String>(v.branches_ignore)))
    }

    /// The entries of the record: one for each field that is set.
    pub open spec fn entries(v: EventActionView) -> Seq<(Seq<char>, Node)> {
        record_entries(Self::fields(v))
    }

    /// The place of a key among the fields, told by the length of the key
    /// and as many of its characters as it takes.
    pub open spec fn key_rank(k: Seq<char>) -> int {
        if k.len() == 8 {
            0
        } else if k.len() == 15 {
            1
        } else {
            2
        }
    }

    /// In the entries of the record each key leads to its own field: to
    /// the field's tree where the field is set, and nowhere where it is not.
    /// The entries are plain where the trees of the fields are.
    pub proof fn lemma_fields(v: EventActionView)
        ensures
            lookup(Self::entries(v), "branches"@) == list_node::<String>(v.branches),
            lookup(Self::entries(v), "branches-ignore"@) == list_node::<String>(v.branches_ignore),
            ({
                &&& plain_opt(list_node::<String>(v.branches))
                &&& plain_opt(list_node::<String>(v.branches_ignore))
            }) ==> all_plain(Self::entries(v)),
    {
        reveal_strlit("branches");
        reveal_strlit("branches-ignore");
        assert("branches"@.len() == 8);
        assert("branches-ignore"@.len() == 15);
        let fields = Self::fields(v);
        assert(fields.len() == 2);
        assert(fields[0].0 == "branches"@ && Self::key_rank(fields[0].0) == 0);
        assert(fields[1].0 == "branches-ignore"@ && Self::key_rank(fields[1].0) == 1);
        lemma_record(fields, |k: Seq<char>| Self::key_rank(k));
        assert(fields[0].1 == list_node::<String>(v.branches));
        assert(fields[1].1 == list_node::<String>(v.branches_ignore));
    }

    /// Omission: the key of a field is among the entries of the record
    /// exactly where the field is set. A field that is always there is
    /// always set; a list, a text or a map is set where it is not empty, and
    /// a flag where it is up.
    pub proof fn lemma_omission(v: EventActionView)
        ensures
            has_key(Self::entries(v), "branches"@) <==> v.branches.len() > 0,
            has_key(Self::entries(v), "branches-ignore"@) <==> v.branches_ignore.len() > 0,
    {
        Self::lemma_fields(v);
        lemma_position(Self::entries(v), "branches"@);
        lemma_position(Self::entries(v), "branches-ignore"@);
    }
}

impl Codec for EventAction {
    /// A mapping with one entry for each field that is set, in the order
    /// of the fields.
    open spec fn encode(v: EventActionView) -> Node {
        Node::Dict(Self::entries(v))
    }

    /// Reads each field from the entry under its key. Entries under other
    /// keys are passed over.
    open spec fn decode(n: Node) -> Option<EventActionView> {
        match n {
            Node::Dict(e) => {
                let branches = list_field::<String>(e, "branches"@);
                let branches_ignore = list_field::<String>(e, "branches-ignore"@);
                if {
                    &&& branches is Some
                    &&& branches_ignore is Some
                } {
                    Some(
                        EventActionView {
                            branches: branches->Some_0,
                            branches_ignore: branches_ignore->Some_0,
                        },
                    )
                } else {
                    None
                }
            },
            _ => None,
        }
    }

    open spec fn valid(v: EventActionView) -> bool {
        &&& Vec::<String>::valid(v.branches)
        &&& Vec::<String>::valid(v.branches_ignore)
    }

    proof fn lemma_round_trip(v: EventActionView) {
        Self::lemma_fields(v);
        let e = Self::entries(v);
        lemma_list_field::<String>(e, "branches"@, v.branches);
        lemma_list_field::<String>(e, "branches-ignore"@, v.branches_ignore);
    }

    fn to_tree(&self) -> (t: Tree) {
        broadcast use {lemma_record_empty, lemma_record_push};

        let m = record();
        let m = put_list(m, "branches", &self.branches);
        let m = put_list(m, "branches-ignore", &self.branches_ignore);
        mapping(m)
    }

    fn from_tree(t: &Tree) -> (r: Result<Self, WorkflowError>) {
        match entries_of(t) {
            Some(m) => {
                let branches = get_list::<String>(m, "branches")?;
                let branches_ignore = get_list::<String>(m, "branches-ignore")?;
                Ok(EventAction { branches, branches_ignore })
            },
            None => Err(WorkflowError::Parse),
        }
    }
}

impl Default for EventAction {
    /// The entity with no field set.
    fn default() -> (r: Self)
        ensures
            r.deep_view() == Self::blank(),
    {
        let r = EventAction {
            branches: Vec::new(),
            branches_ignore: Vec::new(),
        };
        assert(r.branches.deep_view() =~= Seq::empty());
        assert(r.branches_ignore.deep_view() =~= Seq::empty());
        r
    }
}

/// A workflow: the root of the document.
#[derive(Debug, Clone, PartialEq, Eq)]
pub struct Workflow {
    /// The name that is shown for the workflow.
    pub name: Option<String>,
    /// The environment variables of every job.
    pub env: Option<Env>,
    /// The name that is shown for a run of the workflow.
    pub run_name: Option<String>,
    /// The events that start the workflow.
    pub on: Option<EventValue>,
    /// What the token of a run may do.
    pub permissions: Option<Permissions>,
    /// The jobs of the workflow, by identifier.
    pub jobs: Option<Jobs>,
    /// The concurrency group of the workflow.
    pub concurrency: Option<Concurrency>,
    /// Settings for every job of the workflow.
    pub defaults: Option<Defaults>,
    /// The secrets that the workflow declares, by name.
    pub secrets: Option<OrderedMap<Secret>>,
    /// After how many minutes a run is stopped.
    pub timeout_minutes: Option<u32>,
}

/// The model of `Workflow`: every field as its own model.
pub struct WorkflowView {
    pub name: Option<Seq<char>>,
    pub env: Option<Seq<(Seq<char>, Node)>>,
    pub run_name: Option<Seq<char>>,
    pub on: Option<Node>,
    pub permissions: Option<PermissionsView>,
    pub jobs: Option<Seq<(Seq<char>, JobView)>>,
    pub concurrency: Option<ConcurrencyView>,
    pub defaults: Option<DefaultsView>,
    pub secrets: Option<Seq<(Seq<char>, SecretView)>>,
    pub timeout_minutes: Option<u32>,
}

impl DeepView for Workflow {
    type V = WorkflowView;

    open spec fn deep_view(&self) -> WorkflowView {
        WorkflowView {
            name: self.name.deep_view(),
            env: self.env.deep_view(),
            run_name: self.run_name.deep_view(),
            on: self.on.deep_view(),
            permissions: self.permissions.deep_view(),
            jobs: self.jobs.deep_view(),
            concurrency: self.concurrency.deep_view(),
            defaults: self.defaults.deep_view(),
            secrets: self.secrets.deep_view(),
            timeout_minutes: self.timeout_minutes.deep_view(),
        }
    }
}

impl Workflow {
    /// The model of the entity with no field set: a field that is always
    /// there is empty.
    pub open spec fn blank() -> WorkflowView {
        WorkflowView {
            name: None,
            env: None,
            run_name: None,
            on: None,
            permissions: None,
            jobs: None,
            concurrency: None,
            defaults: None,
            secrets: None,
            timeout_minutes: None,
        }
    }

    /// The fields with their keys, in the order in which they are written.
    pub open spec fn fields(v: WorkflowView) -> Fields {
        Seq::empty()
            .push(("name"@, opt_node::<String>(v.name)))
            .push(("env"@, opt_node::<Env>(v.env)))
            .push(("run-name"@, opt_node::<String>(v.run_name)))
            .push(("on"@, opt_node::<EventValue>(v.on)))
            .push(("permissions"@, opt_node::<Permissions>(v.permissions)))
            .push(("jobs"@, opt_node::<Jobs>(v.jobs)))
            .push(("concurrency"@, opt_node::<Concurrency>(v.concurrency)))
            .push(("defaults"@, opt_node::<Defaults>(v.defaults)))
            .push(("secrets"@, opt_node::<OrderedMap<Secret>>(v.secrets)))
            .push(("timeout-minutes"@, opt_node::<u32>(v.timeout_minutes)))
    }

    /// The entries of the record: one for each field that is set.
    pub open spec fn entries(v: WorkflowView) -> Seq<(Seq<char>, Node)> {
        record_entries(Self::fields(v))
    }

    /// The place of a key among the fields, told by the length of the key
    /// and as many of its characters as it takes.
    pub open spec fn key_rank(k: Seq<char>) -> int {
        if k.len() == 4 && k[0] == 'n' {
            0
        } else if k.len() == 3 {
            1
        } else if k.len() == 8 && k[0] == 'r' {
            2
        } else if k.len() == 2 {
            3
        } else if k.len() == 11 && k[0] == 'p' {
            4
        } else if k.len() == 4 && k[0] == 'j' {
            5
        } else if k.len() == 11 && k[0] == 'c' {
            6
        } else if k.len() == 8 && k[0] == 'd' {
            7
        } else if k.len() == 7 {
            8
        } else if k.len() == 15 {
            9
        } else {
            10
        }
    }

    /// In the entries of the record each key leads to its own field: to
    /// the field's tree where the field is set, and nowhere where it is not.
    /// The entries are plain where the trees of the fields are.
    pub proof fn lemma_fields(v: WorkflowView)
        ensures
            lookup(Self::entries(v), "name"@) == opt_node::<String>(v.name),
            lookup(Self::entries(v), "env"@) == opt_node::<Env>(v.env),
            lookup(Self::entries(v), "run-name"@) == opt_node::<String>(v.run_name),
            lookup(Self::entries(v), "on"@) == opt_node::<EventValue>(v.on),
            lookup(Self::entries(v), "permissions"@) == opt_node::<Permissions>(v.permissions),
            lookup(Self::entries(v), "jobs"@) == opt_node::<Jobs>(v.jobs),
            lookup(Self::entries(v), "concurrency"@) == opt_node::<Concurrency>(v.concurrency),
            lookup(Self::entries(v), "defaults"@) == opt_node::<Defaults>(v.defaults),
            lookup(Self::entries(v), "secrets"@) == opt_node::<OrderedMap<Secret>>(v.secrets),
            lookup(Self::entries(v), "timeout-minutes"@) == opt_node::<u32>(v.timeout_minutes),
            ({
                &&& plain_opt(opt_node::<String>(v.name))
                &&& plain_opt(opt_node::<Env>(v.env))
                &&& plain_opt(opt_node::<String>(v.run_name))
                &&& plain_opt(opt_node::<EventValue>(v.on))
                &&& plain_opt(opt_node::<Permissions>(v.permissions))
                &&& plain_opt(opt_node::<Jobs>(v.jobs))
                &&& plain_opt(opt_node::<Concurrency>(v.concurrency))
                &&& plain_opt(opt_node::<Defaults>(v.defaults))
                &&& plain_opt(opt_node::<OrderedMap<Secret>>(v.secrets))
                &&& plain_opt(opt_node::<u32>(v.timeout_minutes))
            }) ==> all_plain(Self::entries(v)),
    {
        reveal_strlit("name");
        reveal_strlit("env");
        reveal_strlit("run-name");
        reveal_strlit("on");
        reveal_strlit("permissions");
        reveal_strlit("jobs");
        reveal_strlit("concurrency");
        reveal_strlit("defaults");
        reveal_strlit("secrets");
        reveal_strlit("timeout-minutes");
        assert("name"@.len() == 4);
        assert("env"@.len() == 3);
        assert("run-name"@.len() == 8);
        assert("on"@.len() == 2);
        assert("permissions"@.len() == 11);
        assert("jobs"@.len() == 4);
        assert("concurrency"@.len() == 11);
        assert("defaults"@.len() == 8);
        assert("secrets"@.len() == 7);
        assert("timeout-minutes"@.len() == 15);
        assert("name"@[0] == 'n');
        assert("run-name"@[0] == 'r');
        assert("permissions"@[0] == 'p');
        assert("jobs"@[0] == 'j');
        assert("concurrency"@[0] == 'c');
        assert("defaults"@[0] == 'd');
        let fields = Self::fields(v);
        assert(fields.len() == 10);
        assert(fields[0].0 == "name"@ && Self::key_rank(fields[0].0) == 0);
        assert(fields[1].0 == "env"@ && Self::key_rank(fields[1].0) == 1);
        assert(fields[2].0 == "run-name"@ && Self::key_rank(fields[2].0) == 2);
        assert(fields[3].0 == "on"@ && Self::key_rank(fields[3].0) == 3);
        assert(fields[4].0 == "permissions"@ && Self::key_rank(fields[4].0) == 4);
        assert(fields[5].0 == "jobs"@ && Self::key_rank(fields[5].0) == 5);
        assert(fields[6].0 == "concurrency"@ && Self::key_rank(fields[6].0) == 6);
        assert(fields[7].0 == "defaults"@ && Self::key_rank(fields[7].0) == 7);
        assert(fields[8].0 == "secrets"@ && Self::key_rank(fields[8].0) == 8);
        assert(fields[9].0 == "timeout-minutes"@ && Self::key_rank(fields[9].0) == 9);
        lemma_record(fields, |k: Seq<char>| Self::key_rank(k));
        assert(fields[0].1 == opt_node::<String>(v.name));
        assert(fields[1].1 == opt_node::<Env>(v.env));
        assert(fields[2].1 == opt_node::<String>(v.run_name));
        assert(fields[3].1 == opt_node::<EventValue>(v.on));
        assert(fields[4].1 == opt_node::<Permissions>(v.permissions));
        assert(fields[5].1 == opt_node::<Jobs>(v.jobs));
        assert(fields[6].1 == opt_node::<Concurrency>(v.concurrency));
        assert(fields[7].1 == opt_node::<Defaults>(v.defaults));
        assert(fields[8].1 == opt_node::<OrderedMap<Secret>>(v.secrets));
        assert(fields[9].1 == opt_node::<u32>(v.timeout_minutes));
    }

    /// Omission: the key of a field is among the entries of the record
    /// exactly where the field is set. A field that is always there is
    /// always set; a list, a text or a map is set where it is not empty, and
    /// a flag where it is up.
    pub proof fn lemma_omission(v: WorkflowView)
        ensures
            has_key(Self::entries(v), "name"@) <==> v.name is Some,
            has_key(Self::entries(v), "env"@) <==> v.env is Some,
            has_key(Self::entries(v), "run-name"@) <==> v.run_name is Some,
            has_key(Self::entries(v), "on"@) <==> v.on is Some,
            has_key(Self::entries(v), "permissions"@) <==> v.permissions is Some,
            has_key(Self::entries(v), "jobs"@) <==> v.jobs is Some,
            has_key(Self::entries(v), "concurrency"@) <==> v.concurrency is Some,
            has_key(Self::entries(v), "defaults"@) <==> v.defaults is Some,
            has_key(Self::entries(v), "secrets"@) <==> v.secrets is Some,
            has_key(Self::entries(v), "timeout-minutes"@) <==> v.timeout_minutes is Some,
    {
        Self::lemma_fields(v);
        lemma_position(Self::entries(v), "name"@);
        lemma_position(Self::entries(v), "env"@);
        lemma_position(Self::entries(v), "run-name"@);
        lemma_position(Self::entries(v), "on"@);
        lemma_position(Self::entries(v), "permissions"@);
        lemma_position(Self::entries(v), "jobs"@);
        lemma_position(Self::entries(v), "concurrency"@);
        lemma_position(Self::entries(v), "defaults"@);
        lemma_position(Self::entries(v), "secrets"@);
        lemma_position(Self::entries(v), "timeout-minutes"@);
    }

    /// Sets `name` and leaves the other fields as they are.
    pub fn name(self, value: &str) -> (r: Self)
        ensures
            r.deep_view() == (WorkflowView { name: Some(value@), ..self.deep_view() }),
    {
        let mut r = self;
        r.name = Some(value.to_owned());
        r
    }

    /// Sets `env` and leaves the other fields as they are.
    pub fn env(self, value: Env) -> (r: Self)
        ensures
            r == (Workflow { env: Some(value), ..self }),
    {
        let mut r = self;
        r.env = Some(value);
        r
    }

    /// Sets `run_name` and leaves the other fields as they are.
    pub fn run_name(self, value: &str) -> (r: Self)
        ensures
            r.deep_view() == (WorkflowView { run_name: Some(value@), ..self.deep_view() }),
    {
        let mut r = self;
        r.run_name = Some(value.to_owned());
        r
    }

    /// Sets `on` and leaves the other fields as they are.
    pub fn on(self, value: EventValue) -> (r: Self)
        ensures
            r == (Workflow { on: Some(value), ..self }),
    {
        let mut r = self;
        r.on = Some(value);
        r
    }

    /// Sets `permissions` and leaves the other fields as they are.
    pub fn permissions(self, value: Permissions) -> (r: Self)
        ensures
            r == (Workflow { permissions: Some(value), ..self }),
    {
        let mut r = self;
        r.permissions = Some(value);
        r
    }

    /// Sets `jobs` and leaves the other fields as they are.
    pub fn jobs(self, value: Jobs) -> (r: Self)
        ensures
            r == (Workflow { jobs: Some(value), ..self }),
    {
        let mut r = self;
        r.jobs = Some(value);
        r
    }

    /// Sets `concurrency` and leaves the other fields as they are.
    pub fn concurrency(self, value: Concurrency) -> (r: Self)
        ensures
            r == (Workflow { concurrency: Some(value), ..self }),
    {
        let mut r = self;
        r.concurrency = Some(value);
        r
    }

    /// Sets `defaults` and leaves the other fields as they are.
    pub fn defaults(self, value: Defaults) -> (r: Self)
        ensures
            r == (Workflow { defaults: Some(value), ..self }),
    {
        let mut r = self;
        r.defaults = Some(value);
        r
    }

    /// Sets `secrets` and leaves the other fields as they are.
    pub fn secrets(self, value: OrderedMap<Secret>) -> (r: Self)
        ensures
            r == (Workflow { secrets: Some(value), ..self }),
    {
        let mut r = self;
        r.secrets = Some(value);
        r
    }

    /// Sets `timeout_minutes` and leaves the other fields as they are.
    pub fn timeout_minutes(self, value: u32) -> (r: Self)
        ensures
            r == (Workflow { timeout_minutes: Some(value), ..self }),
    {
        let mut r = self;
        r.timeout_minutes = Some(value);
        r
    }
}

impl Codec for Workflow {
    /// A mapping with one entry for each field that is set, in the order
    /// of the fields.
    open spec fn encode(v: WorkflowView) -> Node {
        Node::Dict(Self::entries(v))
    }

    /// Reads each field from the entry under its key. Entries under other
    /// keys are passed over.
    open spec fn decode(n: Node) -> Option<WorkflowView> {
        match n {
            Node::Dict(e) => {
                let name = opt_field::<String>(e, "name"@);
                let env = opt_field::<Env>(e, "env"@);
                let run_name = opt_field::<String>(e, "run-name"@);
                let on = opt_field::<EventValue>(e, "on"@);
                let permissions = opt_field::<Permissions>(e, "permissions"@);
                let jobs = opt_field::<Jobs>(e, "jobs"@);
                let concurrency = opt_field::<Concurrency>(e, "concurrency"@);
                let defaults = opt_field::<Defaults>(e, "defaults"@);
                let secrets = opt_field::<OrderedMap<Secret>>(e, "secrets"@);
                let timeout_minutes = opt_field::<u32>(e, "timeout-minutes"@);
                if {
                    &&& name is Some
                    &&& env is Some
                    &&& run_name is Some
                    &&& on is Some
                    &&& permissions is Some
                    &&& jobs is Some
                    &&& concurrency is Some
                    &&& defaults is Some
                    &&& secrets is Some
                    &&& timeout_minutes is Some
                } {
                    Some(
                        WorkflowView {
                            name: name->Some_0,
                            env: env->Some_0,
                            run_name: run_name->Some_0,
                            on: on->Some_0,
                            permissions: permissions->Some_0,
                            jobs: jobs->Some_0,
                            concurrency: concurrency->Some_0,
                            defaults: defaults->Some_0,
                            secrets: secrets->Some_0,
                            timeout_minutes: timeout_minutes->Some_0,
                        },
                    )
                } else {
                    None
                }
            },
            _ => None,
        }
    }

    open spec fn valid(v: WorkflowView) -> bool {
        &&& opt_valid::<String>(v.name)
        &&& opt_valid::<Env>(v.env)
        &&& opt_valid::<String>(v.run_name)
        &&& opt_valid::<EventValue>(v.on)
        &&& opt_valid::<Permissions>(v.permissions)
        &&& opt_valid::<Jobs>(v.jobs)
        &&& opt_valid::<Concurrency>(v.concurrency)
        &&& opt_valid::<Defaults>(v.defaults)
        &&& opt_valid::<OrderedMap<Secret>>(v.secrets)
        &&& opt_valid::<u32>(v.timeout_minutes)
    }

    proof fn lemma_round_trip(v: WorkflowView) {
        Self::lemma_fields(v);
        let e = Self::entries(v);
        lemma_opt_field::<String>(e, "name"@, v.name);
        lemma_opt_field::<Env>(e, "env"@, v.env);
        lemma_opt_field::<String>(e, "run-name"@, v.run_name);
        lemma_opt_field::<EventValue>(e, "on"@, v.on);
        lemma_opt_field::<Permissions>(e, "permissions"@, v.permissions);
        lemma_opt_field::<Jobs>(e, "jobs"@, v.jobs);
        lemma_opt_field::<Concurrency>(e, "concurrency"@, v.concurrency);
        lemma_opt_field::<Defaults>(e, "defaults"@, v.defaults);
        lemma_opt_field::<OrderedMap<Secret>>(e, "secrets"@, v.secrets);
        lemma_opt_field::<u32>(e, "timeout-minutes"@, v.timeout_minutes);
    }

    fn to_tree(&self) -> (t: Tree) {
        broadcast use {lemma_record_empty, lemma_record_push};

        let m = record();
        let m = put_opt(m, "name", &self.name);
        let m = put_opt(m, "env", &self.env);
        let m = put_opt(m, "run-name", &self.run_name);
        let m = put_opt(m, "on", &self.on);
        let m = put_opt(m, "permissions", &self.permissions);
        let m = put_opt(m, "jobs", &self.jobs);
        let m = put_opt(m, "concurrency", &self.concurrency);
        let m = put_opt(m, "defaults", &self.defaults);
        let m = put_opt(m, "secrets", &self.secrets);
        let m = put_opt(m, "timeout-minutes", &self.timeout_minutes);
        mapping(m)
    }

    fn from_tree(t: &Tree) -> (r: Result<Self, WorkflowError>) {
        match entries_of(t) {
            Some(m) => {
                let name = get_opt::<String>(m, "name")?;
                let env = get_opt::<Env>(m, "env")?;
                let run_name = get_opt::<String>(m, "run-name")?;
                let on = get_opt::<EventValue>(m, "on")?;
                let permissions = get_opt::<Permissions>(m, "permissions")?;
                let jobs = get_opt::<Jobs>(m, "jobs")?;
                let concurrency = get_opt::<Concurrency>(m, "concurrency")?;
                let defaults = get_opt::<Defaults>(m, "defaults")?;
                let secrets = get_opt::<OrderedMap<Secret>>(m, "secrets")?;
                let timeout_minutes = get_opt::<u32>(m, "timeout-minutes")?;
                Ok(
                    Workflow {
                        name,
                        env,
                        run_name,
                        on,
                        permissions,
                        jobs,
                        concurrency,
                        defaults,
                        secrets,
                        timeout_minutes,
                    },
                )
            },
            None => Err(WorkflowError::Parse),
        }
    }
}

impl Default for Workflow {
    /// The entity with no field set.
    fn default() -> (r: Self)
        ensures
            r.deep_view() == Self::blank(),
    {
        let r = Workflow {
            name: None,
            env: None,
            run_name: None,
            on: None,
            permissions: None,
            jobs: None,
            concurrency: None,
            defaults: None,
            secrets: None,
            timeout_minutes: None,
        };
        r
    }
}

/// The workflow that a YAML text stands for, where it stands for one.
pub open spec fn read(text: Seq<char>) -> Option<WorkflowView> {
    match parsed(text) {
        Some(n) => Workflow::decode(n),
        None => None,
    }
}

/// The jobs after a job was attached under an identifier: the job goes
/// last. None where a job has the identifier already.
pub open spec fn attached(jobs: Seq<(Seq<char>, JobView)>, id: Seq<char>, job: JobView) -> Option<
    Seq<(Seq<char>, JobView)>,
> {
    if has_key(jobs, id) {
        None
    } else {
        Some(jobs.push((id, job)))
    }
}

/// The jobs of a workflow; none where the field is unset.
pub open spec fn jobs_of(w: WorkflowView) -> Seq<(Seq<char>, JobView)> {
    match w.jobs {
        Some(jobs) => jobs,
        None => Seq::empty(),
    }
}

impl Workflow {
    /// A workflow with the name `name` and nothing else set.
    pub fn new(name: &str) -> (r: Self)
        ensures
            r.deep_view() == (WorkflowView { name: Some(name@), ..Self::blank() }),
    {
        let mut r = Workflow::default();
        r.name = Some(name.to_owned());
        r
    }

    /// The YAML text of the workflow.
    ///
    /// Which documents the codec accepts is its own affair: the text is the
    /// one that belongs to the tree of the workflow, and the error of the
    /// codec comes back exactly where no text belongs to it.
    pub fn to_string(&self) -> (r: Result<String, WorkflowError>)
        ensures
            match r {
                Ok(text) => yaml_text(Self::encode(self.deep_view())) == Some(text@),
                Err(e) => e is Yaml && yaml_text(Self::encode(self.deep_view())) is None,
            },
    {
        self.to_tree().render()
    }

    /// The workflow that a YAML text stands for.
    ///
    /// Fails with the codec's error where the codec refuses the text, and
    /// with `Parse` where the text is YAML but stands for no workflow.
    pub fn parse(yml: &str) -> (r: Result<Self, WorkflowError>)
        ensures
            match r {
                Ok(w) => read(yml@) == Some(w.deep_view()),
                Err(WorkflowError::Yaml(_)) => yaml_tree(yml@) is None,
                Err(WorkflowError::Parse) => yaml_tree(yml@) is Some && read(yml@) is None,
                Err(_) => false,
            },
    {
        match Tree::parse(yml) {
            Ok(tree) => Workflow::from_tree(&tree),
            Err(e) => Err(e),
        }
    }

    /// Attaches `job` under the identifier `id`, last among the jobs.
    ///
    /// Where a job has that identifier already, nothing changes and the
    /// failure names the identifier.
    pub fn insert_job(&mut self, id: &str, job: Job) -> (r: Result<(), WorkflowError>)
        ensures
            match attached(jobs_of(old(self).deep_view()), id@, job.deep_view()) {
                Some(jobs) => r is Ok && final(self).deep_view() == (WorkflowView {
                    jobs: Some(jobs),
                    ..old(self).deep_view()
                }),
                None => *final(self) == *old(self) && (r matches Err(
                    WorkflowError::JobIdAlreadyExists(name),
                ) && name@ == id@),
            },
    {
        let present = match &self.jobs {
            Some(jobs) => jobs.contains(id),
            None => false,
        };
        if present {
            return Err(WorkflowError::JobIdAlreadyExists(id.to_owned()));
        }
        let ghost before = jobs_of(self.deep_view());
        let mut jobs = match self.jobs.take() {
            Some(jobs) => jobs,
            None => Jobs::new(),
        };
        proof {
            assert forall|i: int| 0 <= i < before.len() implies (#[trigger] before[i]).0
                != id@ by {}
            crate::ordered_map::lemma_stored_fresh(before, id@, job.deep_view());
        }
        jobs.insert(id.to_owned(), job);
        self.jobs = Some(jobs);
        Ok(())
    }

    /// The workflow with `job` attached under the identifier `id`, last
    /// among the jobs; the failure that names the identifier where a job
    /// has it already.
    pub fn add_job(self, id: &str, job: Job) -> (r: Result<Self, WorkflowError>)
        ensures
            match attached(jobs_of(self.deep_view()), id@, job.deep_view()) {
                Some(jobs) => r matches Ok(w) && w.deep_view() == (WorkflowView {
                    jobs: Some(jobs),
                    ..self.deep_view()
                }),
                None => r matches Err(WorkflowError::JobIdAlreadyExists(name)) && name@ == id@,
            },
    {
        let mut w = self;
        match w.insert_job(id, job) {
            Ok(_) => Ok(w),
            Err(e) => Err(e),
        }
    }

    /// The workflow with the trigger `that` merged into its own.
    pub fn add_event(self, that: EventValue) -> (r: Self)
        ensures
            r.deep_view() == (WorkflowView {
                on: Some(
                    merged(
                        match self.deep_view().on {
                            Some(on) => on,
                            None => Node::Null,
                        },
                        that.deep_view(),
                    ),
                ),
                ..self.deep_view()
            }),
    {
        let mut r = self;
        let this = match r.on {
            Some(on) => on,
            None => EventValue::default(),
        };
        r.on = Some(this.merge(that));
        r
    }

    /// The workflow with the variables of `new_env` added to its own: a
    /// name that the workflow has keeps its place and gets the new value.
    pub fn add_env(self, new_env: Env) -> (r: Self)
        ensures
            r.deep_view() == (WorkflowView {
                env: Some(
                    extended(
                        match self.deep_view().env {
                            Some(e) => e,
                            None => Seq::empty(),
                        },
                        new_env.deep_view(),
                    ),
                ),
                ..self.deep_view()
            }),
    {
        let mut r = self;
        let env = match r.env {
            Some(env) => env,
            None => Env::new(),
        };
        r.env = Some(env.extend(new_env));
        r
    }
}

} // verus!
