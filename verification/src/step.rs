//! Steps, the containers that jobs run in, and the maps of environment
//! variables and inputs that both carry.

use crate::codec::all_plain;
use crate::codec::entries_of;
use crate::codec::get_opt;
use crate::codec::get_req;
use crate::codec::lemma_opt_field;
use crate::codec::lemma_record;
use crate::codec::lemma_record_empty;
use crate::codec::lemma_record_push;
use crate::codec::lemma_req_field;
use crate::codec::mapping;
use crate::codec::opt_field;
use crate::codec::opt_node;
use crate::codec::opt_valid;
use crate::codec::plain_opt;
use crate::codec::put_opt;
use crate::codec::put_req;
use crate::codec::record;
use crate::codec::record_entries;
use crate::codec::req_field;
use crate::codec::Codec;
use crate::codec::Fields;
use crate::error::WorkflowError;
use crate::ordered_map::has_key;
use crate::ordered_map::lemma_position;
use crate::ordered_map::lookup;
use crate::ordered_map::stored;
use crate::ordered_map::OrderedMap;
use crate::settings::Artifacts;
use crate::settings::ArtifactsView;
use crate::settings::Expression;
use crate::settings::RetryStrategy;
use crate::settings::RetryStrategyView;
use crate::text::concat;
use crate::text::decimal;
use crate::text::find;
use crate::text::same;
use crate::text::to_decimal;
use crate::tree::entry_nodes;
use crate::tree::plain;
use crate::tree::Node;
use crate::tree::Tree;
use vstd::prelude::*;
use vstd::std_specs::convert::FromSpecImpl;
use vstd::string::StrSliceExecFns;
use vstd::string::StringExecFns;

verus! {

/// Marks a step that uses an action.
#[derive(Debug, Default, Clone, Copy, PartialEq, Eq)]
pub struct Use;

/// Marks a step that runs a command.
#[derive(Debug, Default, Clone, Copy, PartialEq, Eq)]
pub struct Run;

/// The marks of the kinds of steps.
pub trait StepType: Sized {
    /// The mark.
    fn marker() -> Self;

    /// The model of a step of this kind as a step of either kind.
    spec fn wrapped(s: StepView) -> StepValueView;

    /// A step of this kind as a step of either kind.
    fn to_value(step: Step<Self>) -> (v: StepValue)
        ensures
            v.deep_view() == Self::wrapped(step.deep_view()),
    ;
}

impl StepType for Use {
    fn marker() -> Self {
        Use
    }

    open spec fn wrapped(s: StepView) -> StepValueView {
        StepValueView::Use(s)
    }

    fn to_value(step: Step<Use>) -> (v: StepValue) {
        StepValue::Use(step)
    }
}

impl StepType for Run {
    fn marker() -> Self {
        Run
    }

    open spec fn wrapped(s: StepView) -> StepValueView {
        StepValueView::Run(s)
    }

    fn to_value(step: Step<Run>) -> (v: StepValue) {
        StepValue::Run(step)
    }
}

/// `entries` after each entry of `more` was stored in it, one after the
/// other.
pub open spec fn extended(entries: Seq<(Seq<char>, Node)>, more: Seq<(Seq<char>, Node)>) -> Seq<
    (Seq<char>, Node),
>
    decreases more.len(),
{
    if more.len() == 0 {
        entries
    } else {
        stored(extended(entries, more.drop_last()), more.last().0, more.last().1)
    }
}


/// Environment variables: a map from names to values that keeps the order in
/// which the names arrived.
#[derive(Debug, Clone, PartialEq, Eq)]
pub struct Env(pub OrderedMap<Tree>);

impl DeepView for Env {
    type V = Seq<(Seq<char>, Node)>;

    open spec fn deep_view(&self) -> Seq<(Seq<char>, Node)> {
        self.0.deep_view()
    }
}

impl Codec for Env {
    /// Written as what it holds.
    open spec fn encode(v: Seq<(Seq<char>, Node)>) -> Node {
        OrderedMap::<Tree>::encode(v)
    }

    open spec fn decode(n: Node) -> Option<Seq<(Seq<char>, Node)>> {
        OrderedMap::<Tree>::decode(n)
    }

    open spec fn valid(v: Seq<(Seq<char>, Node)>) -> bool {
        OrderedMap::<Tree>::valid(v)
    }

    proof fn lemma_round_trip(v: Seq<(Seq<char>, Node)>) {
        OrderedMap::<Tree>::lemma_round_trip(v);
    }

    fn to_tree(&self) -> (t: Tree) {
        self.0.to_tree()
    }

    fn from_tree(t: &Tree) -> (r: Result<Self, WorkflowError>) {
        match OrderedMap::<Tree>::from_tree(t) {
            Ok(x) => Ok(Env(x)),
            Err(e) => Err(e),
        }
    }
}

impl Env {
    /// Environment variables without an entry.
    pub fn new() -> (r: Self)
        ensures
            r.deep_view() == Seq::<(Seq<char>, Node)>::empty(),
    {
        let r = Env(OrderedMap::new());
        assert(r.deep_view() =~= Seq::<(Seq<char>, Node)>::empty());
        r
    }

    /// Stores `value` under `key`: an entry with that key keeps its place
    /// and gets the new value, a new key goes to the end.
    pub fn add(self, key: &str, value: Tree) -> (r: Self)
        ensures
            r.deep_view() == stored(self.deep_view(), key@, value@),
    {
        proof {
            crate::codec::lemma_entry_nodes_stored(self.0@, key@, value);
            assert(self.deep_view() =~= entry_nodes(self.0@));
        }
        let r = Env(self.0.insert(key.to_owned(), value));
        assert(r.deep_view() =~= entry_nodes(r.0@));
        r
    }

    /// The entries of `other` stored one after the other: a name that is
    /// there already keeps its place and gets the new value.
    pub fn extend(self, other: Env) -> (r: Self)
        ensures
            r.deep_view() == extended(self.deep_view(), other.deep_view()),
    {
        let mut out = self;
        let n = other.0.len();
        let mut i: usize = 0;
        proof {
            reveal_with_fuel(extended, 1);
            assert(other.deep_view().take(0) =~= Seq::<(Seq<char>, Node)>::empty());
        }
        while i < n
            invariant
                i <= n,
                n == other.0@.len(),
                out.deep_view() == extended(self.deep_view(), other.deep_view().take(i as int)),
            decreases n - i,
        {
            proof {
                let before = other.deep_view().take(i as int);
                let after = other.deep_view().take(i + 1);
                assert(after.drop_last() =~= before);
                assert(after.last() == (other.0@[i as int].0, other.0@[i as int].1@));
            }
            out = out.add(other.0.key_at(i).as_str(), other.0.value_at(i).duplicate());
            i = i + 1;
        }
        proof {
            assert(other.deep_view().take(n as int) =~= other.deep_view());
        }
        out
    }

    /// Environment variables with one entry, whose value is a string.
    pub fn from_pair(key: &str, value: &str) -> (r: Self)
        ensures
            r.deep_view() == seq![(key@, Node::Str(value@))],
    {
        let r = Env::new().add(key, Tree::String(value.to_owned()));
        proof {
            crate::ordered_map::lemma_stored_fresh(
                Seq::<(Seq<char>, Node)>::empty(),
                key@,
                Node::Str(value@),
            );
            assert(r.deep_view() =~= seq![(key@, Node::Str(value@))]);
        }
        r
    }
}

impl From<OrderedMap<Tree>> for Env {
    fn from(value: OrderedMap<Tree>) -> (r: Self) {
        Env(value)
    }
}

impl FromSpecImpl<OrderedMap<Tree>> for Env {
    open spec fn obeys_from_spec() -> bool {
        true
    }

    open spec fn from_spec(value: OrderedMap<Tree>) -> Self {
        Env(value)
    }
}

impl Default for Env {
    fn default() -> (r: Self)
        ensures
            r.deep_view() == Seq::<(Seq<char>, Node)>::empty(),
    {
        Env::new()
    }
}

/// The inputs of an action: a map from names to values that keeps the order in
/// which the names arrived.
#[derive(Debug, Clone, PartialEq, Eq)]
pub struct Input(pub OrderedMap<Tree>);

impl DeepView for Input {
    type V = Seq<(Seq<char>, Node)>;

    open spec fn deep_view(&self) -> Seq<(Seq<char>, Node)> {
        self.0.deep_view()
    }
}

impl Codec for Input {
    /// Written as what it holds.
    open spec fn encode(v: Seq<(Seq<char>, Node)>) -> Node {
        OrderedMap::<Tree>::encode(v)
    }

    open spec fn decode(n: Node) -> Option<Seq<(Seq<char>, Node)>> {
        OrderedMap::<Tree>::decode(n)
    }

    open spec fn valid(v: Seq<(Seq<char>, Node)>) -> bool {
        OrderedMap::<Tree>::valid(v)
    }

    proof fn lemma_round_trip(v: Seq<(Seq<char>, Node)>) {
        OrderedMap::<Tree>::lemma_round_trip(v);
    }

    fn to_tree(&self) -> (t: Tree) {
        self.0.to_tree()
    }

    fn from_tree(t: &Tree) -> (r: Result<Self, WorkflowError>) {
        match OrderedMap::<Tree>::from_tree(t) {
            Ok(x) => Ok(Input(x)),
            Err(e) => Err(e),
        }
    }
}

impl Input {
    /// Inputs without an entry.
    pub fn new() -> (r: Self)
        ensures
            r.deep_view() == Seq::<(Seq<char>, Node)>::empty(),
    {
        let r = Input(OrderedMap::new());
        assert(r.deep_view() =~= Seq::<(Seq<char>, Node)>::empty());
        r
    }

    /// Stores `value` under `key`: an entry with that key keeps its place
    /// and gets the new value, a new key goes to the end.
    pub fn add(self, key: &str, value: Tree) -> (r: Self)
        ensures
            r.deep_view() == stored(self.deep_view(), key@, value@),
    {
        proof {
            crate::codec::lemma_entry_nodes_stored(self.0@, key@, value);
            assert(self.deep_view() =~= entry_nodes(self.0@));
        }
        let r = Input(self.0.insert(key.to_owned(), value));
        assert(r.deep_view() =~= entry_nodes(r.0@));
        r
    }

    /// The entries of `other` stored one after the other: a name that is
    /// there already keeps its place and gets the new value.
    pub fn extend(self, other: Input) -> (r: Self)
        ensures
            r.deep_view() == extended(self.deep_view(), other.deep_view()),
    {
        let mut out = self;
        let n = other.0.len();
        let mut i: usize = 0;
        proof {
            reveal_with_fuel(extended, 1);
            assert(other.deep_view().take(0) =~= Seq::<(Seq<char>, Node)>::empty());
        }
        while i < n
            invariant
                i <= n,
                n == other.0@.len(),
                out.deep_view() == extended(self.deep_view(), other.deep_view().take(i as int)),
            decreases n - i,
        {
            proof {
                let before = other.deep_view().take(i as int);
                let after = other.deep_view().take(i + 1);
                assert(after.drop_last() =~= before);
                assert(after.last() == (other.0@[i as int].0, other.0@[i as int].1@));
            }
            out = out.add(other.0.key_at(i).as_str(), other.0.value_at(i).duplicate());
            i = i + 1;
        }
        proof {
            assert(other.deep_view().take(n as int) =~= other.deep_view());
        }
        out
    }

    /// Inputs with one entry, whose value is a string.
    pub fn from_pair(key: &str, value: &str) -> (r: Self)
        ensures
            r.deep_view() == seq![(key@, Node::Str(value@))],
    {
        let r = Input::new().add(key, Tree::String(value.to_owned()));
        proof {
            crate::ordered_map::lemma_stored_fresh(
                Seq::<(Seq<char>, Node)>::empty(),
                key@,
                Node::Str(value@),
            );
            assert(r.deep_view() =~= seq![(key@, Node::Str(value@))]);
        }
        r
    }
}

impl From<OrderedMap<Tree>> for Input {
    fn from(value: OrderedMap<Tree>) -> (r: Self) {
        Input(value)
    }
}

impl FromSpecImpl<OrderedMap<Tree>> for Input {
    open spec fn obeys_from_spec() -> bool {
        true
    }

    open spec fn from_spec(value: OrderedMap<Tree>) -> Self {
        Input(value)
    }
}

impl Default for Input {
    fn default() -> (r: Self)
        ensures
            r.deep_view() == Seq::<(Seq<char>, Node)>::empty(),
    {
        Input::new()
    }
}

/// One action of a job: a command that is run, or an action that is used. The
/// parameter tells the two kinds apart.
#[derive(Debug, Clone, PartialEq, Eq)]
pub struct Step<T> {
    /// The identifier by which other steps refer to this one.
    pub id: Option<String>,
    /// The name that is shown for the step.
    pub name: Option<String>,
    /// The condition under which the step runs.
    pub if_condition: Option<Expression>,
    /// The action that the step uses.
    pub uses: Option<String>,
    /// The inputs of the action.
    pub with: Option<Input>,
    /// The command that the step runs.
    pub run: Option<String>,
    /// The environment variables of the step.
    pub env: Option<Env>,
    /// After how many minutes the step is stopped.
    pub timeout_minutes: Option<u32>,
    /// Whether the job goes on when the step fails.
    pub continue_on_error: Option<bool>,
    /// The directory in which the step runs.
    pub working_directory: Option<String>,
    /// How often the step is tried again.
    pub retry: Option<RetryStrategy>,
    /// The artifacts of the step.
    pub artifacts: Option<Artifacts>,
    /// The mark of the kind of the step.
    pub marker: T,
}

/// The model of `Step`: every field as its own model.
pub struct StepView {
    pub id: Option<Seq<char>>,
    pub name: Option<Seq<char>>,
    pub if_condition: Option<Seq<char>>,
    pub uses: Option<Seq<char>>,
    pub with: Option<Seq<(Seq<char>, Node)>>,
    pub run: Option<Seq<char>>,
    pub env: Option<Seq<(Seq<char>, Node)>>,
    pub timeout_minutes: Option<u32>,
    pub continue_on_error: Option<bool>,
    pub working_directory: Option<Seq<char>>,
    pub retry: Option<RetryStrategyView>,
    pub artifacts: Option<ArtifactsView>,
}

impl<T> DeepView for Step<T> {
    type V = StepView;

    open spec fn deep_view(&self) -> StepView {
        StepView {
            id: self.id.deep_view(),
            name: self.name.deep_view(),
            if_condition: self.if_condition.deep_view(),
            uses: self.uses.deep_view(),
            with: self.with.deep_view(),
            run: self.run.deep_view(),
            env: self.env.deep_view(),
            timeout_minutes: self.timeout_minutes.deep_view(),
            continue_on_error: self.continue_on_error.deep_view(),
            working_directory: self.working_directory.deep_view(),
            retry: self.retry.deep_view(),
            artifacts: self.artifacts.deep_view(),
        }
    }
}

impl<T> Step<T> {
    /// The model of the entity with no field set: a field that is always
    /// there is empty.
    pub open spec fn blank() -> StepView {
        StepView {
            id: None,
            name: None,
            if_condition: None,
            uses: None,
            with: None,
            run: None,
            env: None,
            timeout_minutes: None,
            continue_on_error: None,
            working_directory: None,
            retry: None,
            artifacts: None,
        }
    }

    /// The fields with their keys, in the order in which they are written.
    pub open spec fn fields(v: StepView) -> Fields {
        Seq::empty()
            .push(("id"@, opt_node::<String>(v.id)))
            .push(("name"@, opt_node::<String>(v.name)))
            .push(("if"@, opt_node::<Expression>(v.if_condition)))
            .push(("uses"@, opt_node::<String>(v.uses)))
            .push(("with"@, opt_node::<Input>(v.with)))
            .push(("run"@, opt_node::<String>(v.run)))
            .push(("env"@, opt_node::<Env>(v.env)))
            .push(("timeout-minutes"@, opt_node::<u32>(v.timeout_minutes)))
            .push(("continue-on-error"@, opt_node::<bool>(v.continue_on_error)))
            .push(("working-directory"@, opt_node::<String>(v.working_directory)))
            .push(("retry"@, opt_node::<RetryStrategy>(v.retry)))
            .push(("artifacts"@, opt_node::<Artifacts>(v.artifacts)))
    }

    /// The entries of the record: one for each field that is set.
    pub open spec fn entries(v: StepView) -> Seq<(Seq<char>, Node)> {
        record_entries(Self::fields(v))
    }

    /// The place of a key among the fields, told by the length of the key
    /// and as many of its characters as it takes.
    pub open spec fn key_rank(k: Seq<char>) -> int {
        if k.len() == 2 && k[1] == 'd' {
            0
        } else if k.len() == 4 && k[0] == 'n' {
            1
        } else if k.len() == 2 && k[1] == 'f' {
            2
        } else if k.len() == 4 && k[0] == 'u' {
            3
        } else if k.len() == 4 && k[0] == 'w' {
            4
        } else if k.len() == 3 && k[0] == 'r' {
            5
        } else if k.len() == 3 && k[0] == 'e' {
            6
        } else if k.len() == 15 {
            7
        } else if k.len() == 17 && k[0] == 'c' {
            8
        } else if k.len() == 17 && k[0] == 'w' {
            9
        } else if k.len() == 5 {
            10
        } else if k.len() == 9 {
            11
        } else {
            12
        }
    }

    /// In the entries of the record each key leads to its own field: to
    /// the field's tree where the field is set, and nowhere where it is not.
    /// The entries are plain where the trees of the fields are.
    pub proof fn lemma_fields(v: StepView)
        ensures
            lookup(Self::entries(v), "id"@) == opt_node::<String>(v.id),
            lookup(Self::entries(v), "name"@) == opt_node::<String>(v.name),
            lookup(Self::entries(v), "if"@) == opt_node::<Expression>(v.if_condition),
            lookup(Self::entries(v), "uses"@) == opt_node::<String>(v.uses),
            lookup(Self::entries(v), "with"@) == opt_node::<Input>(v.with),
            lookup(Self::entries(v), "run"@) == opt_node::<String>(v.run),
            lookup(Self::entries(v), "env"@) == opt_node::<Env>(v.env),
            lookup(Self::entries(v), "timeout-minutes"@) == opt_node::<u32>(v.timeout_minutes),
            lookup(Self::entries(v), "continue-on-error"@) == opt_node::<bool>(v.continue_on_error),
            lookup(Self::entries(v), "working-directory"@)
                == opt_node::<String>(v.working_directory),
            lookup(Self::entries(v), "retry"@) == opt_node::<RetryStrategy>(v.retry),
            lookup(Self::entries(v), "artifacts"@) == opt_node::<Artifacts>(v.artifacts),
            ({
                &&& plain_opt(opt_node::<String>(v.id))
                &&& plain_opt(opt_node::<String>(v.name))
                &&& plain_opt(opt_node::<Expression>(v.if_condition))
                &&& plain_opt(opt_node::<String>(v.uses))
                &&& plain_opt(opt_node::<Input>(v.with))
                &&& plain_opt(opt_node::<String>(v.run))
                &&& plain_opt(opt_node::<Env>(v.env))
                &&& plain_opt(opt_node::<u32>(v.timeout_minutes))
                &&& plain_opt(opt_node::<bool>(v.continue_on_error))
                &&& plain_opt(opt_node::<String>(v.working_directory))
                &&& plain_opt(opt_node::<RetryStrategy>(v.retry))
                &&& plain_opt(opt_node::<Artifacts>(v.artifacts))
            }) ==> all_plain(Self::entries(v)),
    {
        reveal_strlit("id");
        reveal_strlit("name");
        reveal_strlit("if");
        reveal_strlit("uses");
        reveal_strlit("with");
        reveal_strlit("run");
        reveal_strlit("env");
        reveal_strlit("timeout-minutes");
        reveal_strlit("continue-on-error");
        reveal_strlit("working-directory");
        reveal_strlit("retry");
        reveal_strlit("artifacts");
        assert("id"@.len() == 2);
        assert("name"@.len() == 4);
        assert("if"@.len() == 2);
        assert("uses"@.len() == 4);
        assert("with"@.len() == 4);
        assert("run"@.len() == 3);
        assert("env"@.len() == 3);
        assert("timeout-minutes"@.len() == 15);
        assert("continue-on-error"@.len() == 17);
        assert("working-directory"@.len() == 17);
        assert("retry"@.len() == 5);
        assert("artifacts"@.len() == 9);
        assert("id"@[1] == 'd');
        assert("name"@[0] == 'n');
        assert("if"@[1] == 'f');
        assert("uses"@[0] == 'u');
        assert("with"@[0] == 'w');
        assert("run"@[0] == 'r');
        assert("env"@[0] == 'e');
        assert("continue-on-error"@[0] == 'c');
        assert("working-directory"@[0] == 'w');
        let fields = Self::fields(v);
        assert(fields.len() == 12);
        assert(fields[0].0 == "id"@ && Self::key_rank(fields[0].0) == 0);
        assert(fields[1].0 == "name"@ && Self::key_rank(fields[1].0) == 1);
        assert(fields[2].0 == "if"@ && Self::key_rank(fields[2].0) == 2);
        assert(fields[3].0 == "uses"@ && Self::key_rank(fields[3].0) == 3);
        assert(fields[4].0 == "with"@ && Self::key_rank(fields[4].0) == 4);
        assert(fields[5].0 == "run"@ && Self::key_rank(fields[5].0) == 5);
        assert(fields[6].0 == "env"@ && Self::key_rank(fields[6].0) == 6);
        assert(fields[7].0 == "timeout-minutes"@ && Self::key_rank(fields[7].0) == 7);
        assert(fields[8].0 == "continue-on-error"@ && Self::key_rank(fields[8].0) == 8);
        assert(fields[9].0 == "working-directory"@ && Self::key_rank(fields[9].0) == 9);
        assert(fields[10].0 == "retry"@ && Self::key_rank(fields[10].0) == 10);
        assert(fields[11].0 == "artifacts"@ && Self::key_rank(fields[11].0) == 11);
        lemma_record(fields, |k: Seq<char>| Self::key_rank(k));
        assert(fields[0].1 == opt_node::<String>(v.id));
        assert(fields[1].1 == opt_node::<String>(v.name));
        assert(fields[2].1 == opt_node::<Expression>(v.if_condition));
        assert(fields[3].1 == opt_node::<String>(v.uses));
        assert(fields[4].1 == opt_node::<Input>(v.with));
        assert(fields[5].1 == opt_node::<String>(v.run));
        assert(fields[6].1 == opt_node::<Env>(v.env));
        assert(fields[7].1 == opt_node::<u32>(v.timeout_minutes));
        assert(fields[8].1 == opt_node::<bool>(v.continue_on_error));
        assert(fields[9].1 == opt_node::<String>(v.working_directory));
        assert(fields[10].1 == opt_node::<RetryStrategy>(v.retry));
        assert(fields[11].1 == opt_node::<Artifacts>(v.artifacts));
    }

    /// Omission: the key of a field is among the entries of the record
    /// exactly where the field is set. A field that is always there is
    /// always set; a list, a text or a map is set where it is not empty, and
    /// a flag where it is up.
    pub proof fn lemma_omission(v: StepView)
        ensures
            has_key(Self::entries(v), "id"@) <==> v.id is Some,
            has_key(Self::entries(v), "name"@) <==> v.name is Some,
            has_key(Self::entries(v), "if"@) <==> v.if_condition is Some,
            has_key(Self::entries(v), "uses"@) <==> v.uses is Some,
            has_key(Self::entries(v), "with"@) <==> v.with is Some,
            has_key(Self::entries(v), "run"@) <==> v.run is Some,
            has_key(Self::entries(v), "env"@) <==> v.env is Some,
            has_key(Self::entries(v), "timeout-minutes"@) <==> v.timeout_minutes is Some,
            has_key(Self::entries(v), "continue-on-error"@) <==> v.continue_on_error is Some,
            has_key(Self::entries(v), "working-directory"@) <==> v.working_directory is Some,
            has_key(Self::entries(v), "retry"@) <==> v.retry is Some,
            has_key(Self::entries(v), "artifacts"@) <==> v.artifacts is Some,
    {
        Self::lemma_fields(v);
        lemma_position(Self::entries(v), "id"@);
        lemma_position(Self::entries(v), "name"@);
        lemma_position(Self::entries(v), "if"@);
        lemma_position(Self::entries(v), "uses"@);
        lemma_position(Self::entries(v), "with"@);
        lemma_position(Self::entries(v), "run"@);
        lemma_position(Self::entries(v), "env"@);
        lemma_position(Self::entries(v), "timeout-minutes"@);
        lemma_position(Self::entries(v), "continue-on-error"@);
        lemma_position(Self::entries(v), "working-directory"@);
        lemma_position(Self::entries(v), "retry"@);
        lemma_position(Self::entries(v), "artifacts"@);
    }

    /// Sets `id` and leaves the other fields as they are.
    pub fn id(self, value: &str) -> (r: Self)
        ensures
            r.deep_view() == (StepView { id: Some(value@), ..self.deep_view() }),
    {
        let mut r = self;
        r.id = Some(value.to_owned());
        r
    }

    /// Sets `name` and leaves the other fields as they are.
    pub fn name(self, value: &str) -> (r: Self)
        ensures
            r.deep_view() == (StepView { name: Some(value@), ..self.deep_view() }),
    {
        let mut r = self;
        r.name = Some(value.to_owned());
        r
    }

    /// Sets `if_condition` and leaves the other fields as they are.
    pub fn if_condition(self, value: Expression) -> (r: Self)
        ensures
            r == (Step { if_condition: Some(value), ..self }),
    {
        let mut r = self;
        r.if_condition = Some(value);
        r
    }

    /// Sets `with` and leaves the other fields as they are.
    pub fn with(self, value: Input) -> (r: Self)
        ensures
            r == (Step { with: Some(value), ..self }),
    {
        let mut r = self;
        r.with = Some(value);
        r
    }

    /// Sets `env` and leaves the other fields as they are.
    pub fn env(self, value: Env) -> (r: Self)
        ensures
            r == (Step { env: Some(value), ..self }),
    {
        let mut r = self;
        r.env = Some(value);
        r
    }

    /// Sets `timeout_minutes` and leaves the other fields as they are.
    pub fn timeout_minutes(self, value: u32) -> (r: Self)
        ensures
            r == (Step { timeout_minutes: Some(value), ..self }),
    {
        let mut r = self;
        r.timeout_minutes = Some(value);
        r
    }

    /// Sets `continue_on_error` and leaves the other fields as they are.
    pub fn continue_on_error(self, value: bool) -> (r: Self)
        ensures
            r == (Step { continue_on_error: Some(value), ..self }),
    {
        let mut r = self;
        r.continue_on_error = Some(value);
        r
    }

    /// Sets `working_directory` and leaves the other fields as they are.
    pub fn working_directory(self, value: &str) -> (r: Self)
        ensures
            r.deep_view() == (StepView { working_directory: Some(value@), ..self.deep_view() }),
    {
        let mut r = self;
        r.working_directory = Some(value.to_owned());
        r
    }

    /// Sets `retry` and leaves the other fields as they are.
    pub fn retry(self, value: RetryStrategy) -> (r: Self)
        ensures
            r == (Step { retry: Some(value), ..self }),
    {
        let mut r = self;
        r.retry = Some(value);
        r
    }

    /// Sets `artifacts` and leaves the other fields as they are.
    pub fn artifacts(self, value: Artifacts) -> (r: Self)
        ensures
            r == (Step { artifacts: Some(value), ..self }),
    {
        let mut r = self;
        r.artifacts = Some(value);
        r
    }
}

impl<T: StepType> Codec for Step<T> {
    /// A mapping with one entry for each field that is set, in the order
    /// of the fields.
    open spec fn encode(v: StepView) -> Node {
        Node::Dict(Self::entries(v))
    }

    /// Reads each field from the entry under its key. Entries under other
    /// keys are passed over.
    open spec fn decode(n: Node) -> Option<StepView> {
        match n {
            Node::Dict(e) => {
                let id = opt_field::<String>(e, "id"@);
                let name = opt_field::<String>(e, "name"@);
                let if_condition = opt_field::<Expression>(e, "if"@);
                let uses = opt_field::<String>(e, "uses"@);
                let with = opt_field::<Input>(e, "with"@);
                let run = opt_field::<String>(e, "run"@);
                let env = opt_field::<Env>(e, "env"@);
                let timeout_minutes = opt_field::<u32>(e, "timeout-minutes"@);
                let continue_on_error = opt_field::<bool>(e, "continue-on-error"@);
                let working_directory = opt_field::<String>(e, "working-directory"@);
                let retry = opt_field::<RetryStrategy>(e, "retry"@);
                let artifacts = opt_field::<Artifacts>(e, "artifacts"@);
                if {
                    &&& id is Some
                    &&& name is Some
                    &&& if_condition is Some
                    &&& uses is Some
                    &&& with is Some
                    &&& run is Some
                    &&& env is Some
                    &&& timeout_minutes is Some
                    &&& continue_on_error is Some
                    &&& working_directory is Some
                    &&& retry is Some
                    &&& artifacts is Some
                } {
                    Some(
                        StepView {
                            id: id->Some_0,
                            name: name->Some_0,
                            if_condition: if_condition->Some_0,
                            uses: uses->Some_0,
                            with: with->Some_0,
                            run: run->Some_0,
                            env: env->Some_0,
                            timeout_minutes: timeout_minutes->Some_0,
                            continue_on_error: continue_on_error->Some_0,
                            working_directory: working_directory->Some_0,
                            retry: retry->Some_0,
                            artifacts: artifacts->Some_0,
                        },
                    )
                } else {
                    None
                }
            },
            _ => None,
        }
    }

    open spec fn valid(v: StepView) -> bool {
        &&& opt_valid::<String>(v.id)
        &&& opt_valid::<String>(v.name)
        &&& opt_valid::<Expression>(v.if_condition)
        &&& opt_valid::<String>(v.uses)
        &&& opt_valid::<Input>(v.with)
        &&& opt_valid::<String>(v.run)
        &&& opt_valid::<Env>(v.env)
        &&& opt_valid::<u32>(v.timeout_minutes)
        &&& opt_valid::<bool>(v.continue_on_error)
        &&& opt_valid::<String>(v.working_directory)
        &&& opt_valid::<RetryStrategy>(v.retry)
        &&& opt_valid::<Artifacts>(v.artifacts)
    }

    proof fn lemma_round_trip(v: StepView) {
        Self::lemma_fields(v);
        let e = Self::entries(v);
        lemma_opt_field::<String>(e, "id"@, v.id);
        lemma_opt_field::<String>(e, "name"@, v.name);
        lemma_opt_field::<Expression>(e, "if"@, v.if_condition);
        lemma_opt_field::<String>(e, "uses"@, v.uses);
        lemma_opt_field::<Input>(e, "with"@, v.with);
        lemma_opt_field::<String>(e, "run"@, v.run);
        lemma_opt_field::<Env>(e, "env"@, v.env);
        lemma_opt_field::<u32>(e, "timeout-minutes"@, v.timeout_minutes);
        lemma_opt_field::<bool>(e, "continue-on-error"@, v.continue_on_error);
        lemma_opt_field::<String>(e, "working-directory"@, v.working_directory);
        lemma_opt_field::<RetryStrategy>(e, "retry"@, v.retry);
        lemma_opt_field::<Artifacts>(e, "artifacts"@, v.artifacts);
    }

    fn to_tree(&self) -> (t: Tree) {
        broadcast use {lemma_record_empty, lemma_record_push};

        let m = record();
        let m = put_opt(m, "id", &self.id);
        let m = put_opt(m, "name", &self.name);
        let m = put_opt(m, "if", &self.if_condition);
        let m = put_opt(m, "uses", &self.uses);
        let m = put_opt(m, "with", &self.with);
        let m = put_opt(m, "run", &self.run);
        let m = put_opt(m, "env", &self.env);
        let m = put_opt(m, "timeout-minutes", &self.timeout_minutes);
        let m = put_opt(m, "continue-on-error", &self.continue_on_error);
        let m = put_opt(m, "working-directory", &self.working_directory);
        let m = put_opt(m, "retry", &self.retry);
        let m = put_opt(m, "artifacts", &self.artifacts);
        mapping(m)
    }

    fn from_tree(t: &Tree) -> (r: Result<Self, WorkflowError>) {
        match entries_of(t) {
            Some(m) => {
                let id = get_opt::<String>(m, "id")?;
                let name = get_opt::<String>(m, "name")?;
                let if_condition = get_opt::<Expression>(m, "if")?;
                let uses = get_opt::<String>(m, "uses")?;
                let with = get_opt::<Input>(m, "with")?;
                let run = get_opt::<String>(m, "run")?;
                let env = get_opt::<Env>(m, "env")?;
                let timeout_minutes = get_opt::<u32>(m, "timeout-minutes")?;
                let continue_on_error = get_opt::<bool>(m, "continue-on-error")?;
                let working_directory = get_opt::<String>(m, "working-directory")?;
                let retry = get_opt::<RetryStrategy>(m, "retry")?;
                let artifacts = get_opt::<Artifacts>(m, "artifacts")?;
                Ok(
                    Step {
                        id,
                        name,
                        if_condition,
                        uses,
                        with,
                        run,
                        env,
                        timeout_minutes,
                        continue_on_error,
                        working_directory,
                        retry,
                        artifacts,
                        marker: T::marker(),
                    },
                )
            },
            None => Err(WorkflowError::Parse),
        }
    }
}

impl<T: StepType> Default for Step<T> {
    /// The entity with no field set.
    fn default() -> (r: Self)
        ensures
            r.deep_view() == Self::blank(),
    {
        let r = Step {
            id: None,
            name: None,
            if_condition: None,
            uses: None,
            with: None,
            run: None,
            env: None,
            timeout_minutes: None,
            continue_on_error: None,
            working_directory: None,
            retry: None,
            artifacts: None,
            marker: T::marker(),
        };
        r
    }
}

impl Step<Run> {
    /// A step that runs the command `cmd`.
    pub fn run(cmd: &str) -> (r: Self)
        ensures
            r.deep_view() == (StepView { run: Some(cmd@), ..Self::blank() }),
    {
        let mut r = Step::<Run>::default();
        r.run = Some(cmd.to_owned());
        r
    }
}

/// The reference to release `version` of the action `repo` of `owner`.
pub open spec fn action_ref(owner: Seq<char>, repo: Seq<char>, version: nat) -> Seq<char> {
    owner + "/"@ + repo + "@v"@ + decimal(version)
}

impl Step<Use> {
    /// A step that uses release `version` of the action `repo` of `owner`.
    pub fn uses(owner: &str, repo: &str, version: u64) -> (r: Self)
        ensures
            r.deep_view() == (StepView {
                uses: Some(action_ref(owner@, repo@, version as nat)),
                ..Self::blank()
            }),
    {
        let mut name = concat(owner, "/");
        name.append(repo);
        name.append("@v");
        name.append(to_decimal(version).as_str());
        let mut r = Step::<Use>::default();
        r.uses = Some(name);
        r
    }

    /// The step that checks the repository out.
    pub fn checkout() -> (r: Self)
        ensures
            r.deep_view() == (StepView {
                uses: Some(action_ref("actions"@, "checkout"@, 4)),
                name: Some("Checkout Code"@),
                ..Self::blank()
            }),
    {
        Step::uses("actions", "checkout", 4).name("Checkout Code")
    }
}

/// A step of either kind.
#[derive(Debug, Clone, PartialEq, Eq)]
pub enum StepValue {
    Run(Step<Run>),
    Use(Step<Use>),
}

/// The model of `StepValue`.
pub enum StepValueView {
    Run(StepView),
    Use(StepView),
}

impl DeepView for StepValue {
    type V = StepValueView;

    open spec fn deep_view(&self) -> StepValueView {
        match self {
            StepValue::Run(s) => StepValueView::Run(s.deep_view()),
            StepValue::Use(s) => StepValueView::Use(s.deep_view()),
        }
    }
}

impl Codec for StepValue {
    /// Written as the step is, without a mark of its kind.
    open spec fn encode(v: StepValueView) -> Node {
        match v {
            StepValueView::Run(s) => Step::<Run>::encode(s),
            StepValueView::Use(s) => Step::<Use>::encode(s),
        }
    }

    /// A step with a command is one that runs; without a command, a step
    /// with an action is one that uses; a step with neither is none.
    open spec fn decode(n: Node) -> Option<StepValueView> {
        match Step::<Run>::decode(n) {
            Some(s) => if s.run is Some {
                Some(StepValueView::Run(s))
            } else if s.uses is Some {
                Some(StepValueView::Use(s))
            } else {
                None
            },
            None => None,
        }
    }

    /// A step that runs has a command; a step that uses has an action and
    /// no command.
    open spec fn valid(v: StepValueView) -> bool {
        match v {
            StepValueView::Run(s) => Step::<Run>::valid(s) && s.run is Some,
            StepValueView::Use(s) => Step::<Use>::valid(s) && s.run is None && s.uses is Some,
        }
    }

    proof fn lemma_round_trip(v: StepValueView) {
        match v {
            StepValueView::Run(s) => {
                Step::<Run>::lemma_round_trip(s);
            },
            StepValueView::Use(s) => {
                Step::<Use>::lemma_round_trip(s);
                Step::<Run>::lemma_round_trip(s);
            },
        }
    }

    fn to_tree(&self) -> (t: Tree) {
        match self {
            StepValue::Run(s) => s.to_tree(),
            StepValue::Use(s) => s.to_tree(),
        }
    }

    fn from_tree(t: &Tree) -> (r: Result<Self, WorkflowError>) {
        let s = Step::<Run>::from_tree(t)?;
        if s.run.is_some() {
            Ok(StepValue::Run(s))
        } else if s.uses.is_some() {
            Ok(StepValue::Use(s.retyped()))
        } else {
            Err(WorkflowError::Parse)
        }
    }
}

impl From<Step<Run>> for StepValue {
    fn from(step: Step<Run>) -> (v: Self) {
        StepValue::Run(step)
    }
}

impl FromSpecImpl<Step<Run>> for StepValue {
    open spec fn obeys_from_spec() -> bool {
        true
    }

    open spec fn from_spec(step: Step<Run>) -> Self {
        StepValue::Run(step)
    }
}

impl From<Step<Use>> for StepValue {
    fn from(step: Step<Use>) -> (v: Self) {
        StepValue::Use(step)
    }
}

impl FromSpecImpl<Step<Use>> for StepValue {
    open spec fn obeys_from_spec() -> bool {
        true
    }

    open spec fn from_spec(step: Step<Use>) -> Self {
        StepValue::Use(step)
    }
}

impl<T: StepType> Step<T> {
    /// The step as a step of either kind.
    pub fn into_value(self) -> (v: StepValue)
        ensures
            v.deep_view() == T::wrapped(self.deep_view()),
    {
        T::to_value(self)
    }
}

impl<T> Step<T> {
    /// The same step under another mark of its kind.
    pub fn retyped<U: StepType>(self) -> (r: Step<U>)
        ensures
            r.deep_view() == self.deep_view(),
    {
        Step {
            id: self.id,
            name: self.name,
            if_condition: self.if_condition,
            uses: self.uses,
            with: self.with,
            run: self.run,
            env: self.env,
            timeout_minutes: self.timeout_minutes,
            continue_on_error: self.continue_on_error,
            working_directory: self.working_directory,
            retry: self.retry,
            artifacts: self.artifacts,
            marker: U::marker(),
        }
    }
}

/// A port that a container opens.
#[derive(Debug, Clone, PartialEq, Eq)]
pub enum Port {
    Number(u16),
    Name(String),
}

/// The model of `Port`.
pub enum PortView {
    Number(u16),
    Name(Seq<char>),
}

impl DeepView for Port {
    type V = PortView;

    open spec fn deep_view(&self) -> PortView {
        match self {
            Port::Number(n) => PortView::Number(*n),
            Port::Name(s) => PortView::Name(s@),
        }
    }
}

impl Codec for Port {
    /// A number for a numbered port, a string for a named one.
    open spec fn encode(v: PortView) -> Node {
        match v {
            PortView::Number(n) => Node::Int(n as int),
            PortView::Name(s) => Node::Str(s),
        }
    }

    open spec fn decode(n: Node) -> Option<PortView> {
        match n {
            Node::Int(i) => if 0 <= i <= u16::MAX {
                Some(PortView::Number(i as u16))
            } else {
                None
            },
            Node::Str(s) => Some(PortView::Name(s)),
            _ => None,
        }
    }

    open spec fn valid(v: PortView) -> bool {
        true
    }

    proof fn lemma_round_trip(v: PortView) {
    }

    fn to_tree(&self) -> (t: Tree) {
        match self {
            Port::Number(n) => Tree::Number(*n as i64),
            Port::Name(s) => Tree::String(s.clone()),
        }
    }

    fn from_tree(t: &Tree) -> (r: Result<Self, WorkflowError>) {
        match t {
            Tree::Number(n) => if 0 <= *n && *n <= 0xffff {
                Ok(Port::Number(*n as u16))
            } else {
                Err(WorkflowError::Parse)
            },
            Tree::String(s) => Ok(Port::Name(s.clone())),
            _ => Err(WorkflowError::Parse),
        }
    }
}

/// The login for a container registry.
#[derive(Debug, Clone, PartialEq, Eq)]
pub struct Credentials {
    /// The user name.
    pub username: String,
    /// The password.
    pub password: String,
}

/// The model of `Credentials`: every field as its own model.
pub struct CredentialsView {
    pub username: Seq<char>,
    pub password: Seq<char>,
}

impl DeepView for Credentials {
    type V = CredentialsView;

    open spec fn deep_view(&self) -> CredentialsView {
        CredentialsView {
            username: self.username.deep_view(),
            password: self.password.deep_view(),
        }
    }
}

impl Credentials {
    /// The model of the entity with no field set: a field that is always
    /// there is empty.
    pub open spec fn blank() -> CredentialsView {
        CredentialsView {
            username: Seq::empty(),
            password: Seq::empty(),
        }
    }

    /// The fields with their keys, in the order in which they are written.
    pub open spec fn fields(v: CredentialsView) -> Fields {
        Seq::empty()
            .push(("username"@, Some(String::encode(v.username))))
            .push(("password"@, Some(String::encode(v.password))))
    }

    /// The entries of the record: one for each field that is set.
    pub open spec fn entries(v: CredentialsView) -> Seq<(Seq<char>, Node)> {
        record_entries(Self::fields(v))
    }

    /// The place of a key among the fields, told by the length of the key
    /// and as many of its characters as it takes.
    pub open spec fn key_rank(k: Seq<char>) -> int {
        if k.len() == 8 && k[0] == 'u' {
            0
        } else if k.len() == 8 && k[0] == 'p' {
            1
        } else {
            2
        }
    }

    /// In the entries of the record each key leads to its own field: to
    /// the field's tree where the field is set, and nowhere where it is not.
    /// The entries are plain where the trees of the fields are.
    pub proof fn lemma_fields(v: CredentialsView)
        ensures
            lookup(Self::entries(v), "username"@) == Some(String::encode(v.username)),
            lookup(Self::entries(v), "password"@) == Some(String::encode(v.password)),
            ({
                &&& plain_opt(Some(String::encode(v.username)))
                &&& plain_opt(Some(String::encode(v.password)))
            }) ==> all_plain(Self::entries(v)),
    {
        reveal_strlit("username");
        reveal_strlit("password");
        assert("username"@.len() == 8);
        assert("password"@.len() == 8);
        assert("username"@[0] == 'u');
        assert("password"@[0] == 'p');
        let fields = Self::fields(v);
        assert(fields.len() == 2);
        assert(fields[0].0 == "username"@ && Self::key_rank(fields[0].0) == 0);
        assert(fields[1].0 == "password"@ && Self::key_rank(fields[1].0) == 1);
        lemma_record(fields, |k: Seq<char>| Self::key_rank(k));
        assert(fields[0].1 == Some(String::encode(v.username)));
        assert(fields[1].1 == Some(String::encode(v.password)));
    }

    /// Omission: the key of a field is among the entries of the record
    /// exactly where the field is set. A field that is always there is
    /// always set; a list, a text or a map is set where it is not empty, and
    /// a flag where it is up.
    pub proof fn lemma_omission(v: CredentialsView)
        ensures
            has_key(Self::entries(v), "username"@),
            has_key(Self::entries(v), "password"@),
    {
        Self::lemma_fields(v);
        lemma_position(Self::entries(v), "username"@);
        lemma_position(Self::entries(v), "password"@);
    }

    /// Sets `username` and leaves the other fields as they are.
    pub fn username(self, value: &str) -> (r: Self)
        ensures
            r.deep_view() == (CredentialsView { username: value@, ..self.deep_view() }),
    {
        let mut r = self;
        r.username = value.to_owned();
        r
    }

    /// Sets `password` and leaves the other fields as they are.
    pub fn password(self, value: &str) -> (r: Self)
        ensures
            r.deep_view() == (CredentialsView { password: value@, ..self.deep_view() }),
    {
        let mut r = self;
        r.password = value.to_owned();
        r
    }
}

impl Codec for Credentials {
    /// A mapping with one entry for each field that is set, in the order
    /// of the fields.
    open spec fn encode(v: CredentialsView) -> Node {
        Node::Dict(Self::entries(v))
    }

    /// Reads each field from the entry under its key. Entries under other
    /// keys are passed over.
    open spec fn decode(n: Node) -> Option<CredentialsView> {
        match n {
            Node::Dict(e) => {
                let username = req_field::<String>(e, "username"@);
                let password = req_field::<String>(e, "password"@);
                if {
                    &&& username is Some
                    &&& password is Some
                } {
                    Some(
                        CredentialsView {
                            username: username->Some_0,
                            password: password->Some_0,
                        },
                    )
                } else {
                    None
                }
            },
            _ => None,
        }
    }

    open spec fn valid(v: CredentialsView) -> bool {
        &&& String::valid(v.username)
        &&& String::valid(v.password)
    }

    proof fn lemma_round_trip(v: CredentialsView) {
        Self::lemma_fields(v);
        let e = Self::entries(v);
        lemma_req_field::<String>(e, "username"@, v.username);
        lemma_req_field::<String>(e, "password"@, v.password);
    }

    fn to_tree(&self) -> (t: Tree) {
        broadcast use {lemma_record_empty, lemma_record_push};

        let m = record();
        let m = put_req(m, "username", &self.username);
        let m = put_req(m, "password", &self.password);
        mapping(m)
    }

    fn from_tree(t: &Tree) -> (r: Result<Self, WorkflowError>) {
        match entries_of(t) {
            Some(m) => {
                let username = get_req::<String>(m, "username")?;
                let password = get_req::<String>(m, "password")?;
                Ok(Credentials { username, password })
            },
            None => Err(WorkflowError::Parse),
        }
    }
}

impl Default for Credentials {
    /// The entity with no field set.
    fn default() -> (r: Self)
        ensures
            r.deep_view() == Self::blank(),
    {
        let r = Credentials {
            username: String::new(),
            password: String::new(),
        };
        r
    }
}

/// A directory of the host that is mounted into a container.
#[derive(Debug, Clone, PartialEq, Eq)]
pub struct Volume {
    /// The path on the host.
    pub source: String,
    /// The path in the container.
    pub destination: String,
}

/// The model of `Volume`: every field as its own model.
pub struct VolumeView {
    pub source: Seq<char>,
    pub destination: Seq<char>,
}

impl DeepView for Volume {
    type V = VolumeView;

    open spec fn deep_view(&self) -> VolumeView {
        VolumeView {
            source: self.source.deep_view(),
            destination: self.destination.deep_view(),
        }
    }
}

impl Volume {
    /// The model of the entity with no field set: a field that is always
    /// there is empty.
    pub open spec fn blank() -> VolumeView {
        VolumeView {
            source: Seq::empty(),
            destination: Seq::empty(),
        }
    }

    /// The fields with their keys, in the order in which they are written.
    pub open spec fn fields(v: VolumeView) -> Fields {
        Seq::empty()
            .push(("source"@, Some(String::encode(v.source))))
            .push(("destination"@, Some(String::encode(v.destination))))
    }

    /// The entries of the record: one for each field that is set.
    pub open spec fn entries(v: VolumeView) -> Seq<(Seq<char>, Node)> {
        record_entries(Self::fields(v))
    }

    /// The place of a key among the fields, told by the length of the key
    /// and as many of its characters as it takes.
    pub open spec fn key_rank(k: Seq<char>) -> int {
        if k.len() == 6 {
            0
        } else if k.len() == 11 {
            1
        } else {
            2
        }
    }

    /// In the entries of the record each key leads to its own field: to
    /// the field's tree where the field is set, and nowhere where it is not.
    /// The entries are plain where the trees of the fields are.
    pub proof fn lemma_fields(v: VolumeView)
        ensures
            lookup(Self::entries(v), "source"@) == Some(String::encode(v.source)),
            lookup(Self::entries(v), "destination"@) == Some(String::encode(v.destination)),
            ({
                &&& plain_opt(Some(String::encode(v.source)))
                &&& plain_opt(Some(String::encode(v.destination)))
            }) ==> all_plain(Self::entries(v)),
    {
        reveal_strlit("source");
        reveal_strlit("destination");
        assert("source"@.len() == 6);
        assert("destination"@.len() == 11);
        let fields = Self::fields(v);
        assert(fields.len() == 2);
        assert(fields[0].0 == "source"@ && Self::key_rank(fields[0].0) == 0);
        assert(fields[1].0 == "destination"@ && Self::key_rank(fields[1].0) == 1);
        lemma_record(fields, |k: Seq<char>| Self::key_rank(k));
        assert(fields[0].1 == Some(String::encode(v.source)));
        assert(fields[1].1 == Some(String::encode(v.destination)));
    }

    /// Omission: the key of a field is among the entries of the record
    /// exactly where the field is set. A field that is always there is
    /// always set; a list, a text or a map is set where it is not empty, and
    /// a flag where it is up.
    pub proof fn lemma_omission(v: VolumeView)
        ensures
            has_key(Self::entries(v), "source"@),
            has_key(Self::entries(v), "destination"@),
    {
        Self::lemma_fields(v);
        lemma_position(Self::entries(v), "source"@);
        lemma_position(Self::entries(v), "destination"@);
    }

    /// Sets `source` and leaves the other fields as they are.
    pub fn source(self, value: &str) -> (r: Self)
        ensures
            r.deep_view() == (VolumeView { source: value@, ..self.deep_view() }),
    {
        let mut r = self;
        r.source = value.to_owned();
        r
    }

    /// Sets `destination` and leaves the other fields as they are.
    pub fn destination(self, value: &str) -> (r: Self)
        ensures
            r.deep_view() == (VolumeView { destination: value@, ..self.deep_view() }),
    {
        let mut r = self;
        r.destination = value.to_owned();
        r
    }
}

impl Codec for Volume {
    /// A mapping with one entry for each field that is set, in the order
    /// of the fields.
    open spec fn encode(v: VolumeView) -> Node {
        Node::Dict(Self::entries(v))
    }

    /// Reads each field from the entry under its key. Entries under other
    /// keys are passed over.
    open spec fn decode(n: Node) -> Option<VolumeView> {
        match n {
            Node::Dict(e) => {
                let source = req_field::<String>(e, "source"@);
                let destination = req_field::<String>(e, "destination"@);
                if {
                    &&& source is Some
                    &&& destination is Some
                } {
                    Some(
                        VolumeView {
                            source: source->Some_0,
                            destination: destination->Some_0,
                        },
                    )
                } else {
                    None
                }
            },
            _ => None,
        }
    }

    open spec fn valid(v: VolumeView) -> bool {
        &&& String::valid(v.source)
        &&& String::valid(v.destination)
    }

    proof fn lemma_round_trip(v: VolumeView) {
        Self::lemma_fields(v);
        let e = Self::entries(v);
        lemma_req_field::<String>(e, "source"@, v.source);
        lemma_req_field::<String>(e, "destination"@, v.destination);
    }

    fn to_tree(&self) -> (t: Tree) {
        broadcast use {lemma_record_empty, lemma_record_push};

        let m = record();
        let m = put_req(m, "source", &self.source);
        let m = put_req(m, "destination", &self.destination);
        mapping(m)
    }

    fn from_tree(t: &Tree) -> (r: Result<Self, WorkflowError>) {
        match entries_of(t) {
            Some(m) => {
                let source = get_req::<String>(m, "source")?;
                let destination = get_req::<String>(m, "destination")?;
                Ok(Volume { source, destination })
            },
            None => Err(WorkflowError::Parse),
        }
    }
}

impl Default for Volume {
    /// The entity with no field set.
    fn default() -> (r: Self)
        ensures
            r.deep_view() == Self::blank(),
    {
        let r = Volume {
            source: String::new(),
            destination: String::new(),
        };
        r
    }
}

/// A container in which a job runs, or which serves it.
#[derive(Debug, Clone, PartialEq, Eq)]
pub struct Container {
    /// The image of the container.
    pub image: String,
    /// The login for the registry of the image.
    pub credentials: Option<Credentials>,
    /// The environment variables of the container.
    pub env: Option<Env>,
    /// The ports that the container opens.
    pub ports: Option<Vec<Port>>,
    /// The volumes of the container.
    pub volumes: Option<Vec<Volume>>,
    /// Further options for creating the container.
    pub options: Option<String>,
    /// The host name of the container.
    pub hostname: Option<String>,
}

/// The model of `Container`: every field as its own model.
pub struct ContainerView {
    pub image: Seq<char>,
    pub credentials: Option<CredentialsView>,
    pub env: Option<Seq<(Seq<char>, Node)>>,
    pub ports: Option<Seq<PortView>>,
    pub volumes: Option<Seq<VolumeView>>,
    pub options: Option<Seq<char>>,
    pub hostname: Option<Seq<char>>,
}

impl DeepView for Container {
    type V = ContainerView;

    open spec fn deep_view(&self) -> ContainerView {
        ContainerView {
            image: self.image.deep_view(),
            credentials: self.credentials.deep_view(),
            env: self.env.deep_view(),
            ports: self.ports.deep_view(),
            volumes: self.volumes.deep_view(),
            options: self.options.deep_view(),
            hostname: self.hostname.deep_view(),
        }
    }
}

impl Container {
    /// The model of the entity with no field set: a field that is always
    /// there is empty.
    pub open spec fn blank() -> ContainerView {
        ContainerView {
            image: Seq::empty(),
            credentials: None,
            env: None,
            ports: None,
            volumes: None,
            options: None,
            hostname: None,
        }
    }

    /// The fields with their keys, in the order in which they are written.
    pub open spec fn fields(v: ContainerView) -> Fields {
        Seq::empty()
            .push(("image"@, Some(String::encode(v.image))))
            .push(("credentials"@, opt_node::<Credentials>(v.credentials)))
            .push(("env"@, opt_node::<Env>(v.env)))
            .push(("ports"@, opt_node::<Vec<Port>>(v.ports)))
            .push(("volumes"@, opt_node::<Vec<Volume>>(v.volumes)))
            .push(("options"@, opt_node::<String>(v.options)))
            .push(("hostname"@, opt_node::<String>(v.hostname)))
    }

    /// The entries of the record: one for each field that is set.
    pub open spec fn entries(v: ContainerView) -> Seq<(Seq<char>, Node)> {
        record_entries(Self::fields(v))
    }

    /// The place of a key among the fields, told by the length of the key
    /// and as many of its characters as it takes.
    pub open spec fn key_rank(k: Seq<char>) -> int {
        if k.len() == 5 && k[0] == 'i' {
            0
        } else if k.len() == 11 {
            1
        } else if k.len() == 3 {
            2
        } else if k.len() == 5 && k[0] == 'p' {
            3
        } else if k.len() == 7 && k[0] == 'v' {
            4
        } else if k.len() == 7 && k[0] == 'o' {
            5
        } else if k.len() == 8 {
            6
        } else {
            7
        }
    }

    /// In the entries of the record each key leads to its own field: to
    /// the field's tree where the field is set, and nowhere where it is not.
    /// The entries are plain where the trees of the fields are.
    pub proof fn lemma_fields(v: ContainerView)
        ensures
            lookup(Self::entries(v), "image"@) == Some(String::encode(v.image)),
            lookup(Self::entries(v), "credentials"@) == opt_node::<Credentials>(v.credentials),
            lookup(Self::entries(v), "env"@) == opt_node::<Env>(v.env),
            lookup(Self::entries(v), "ports"@) == opt_node::<Vec<Port>>(v.ports),
            lookup(Self::entries(v), "volumes"@) == opt_node::<Vec<Volume>>(v.volumes),
            lookup(Self::entries(v), "options"@) == opt_node::<String>(v.options),
            lookup(Self::entries(v), "hostname"@) == opt_node::<String>(v.hostname),
            ({
                &&& plain_opt(Some(String::encode(v.image)))
                &&& plain_opt(opt_node::<Credentials>(v.credentials))
                &&& plain_opt(opt_node::<Env>(v.env))
                &&& plain_opt(opt_node::<Vec<Port>>(v.ports))
                &&& plain_opt(opt_node::<Vec<Volume>>(v.volumes))
                &&& plain_opt(opt_node::<String>(v.options))
                &&& plain_opt(opt_node::<String>(v.hostname))
            }) ==> all_plain(Self::entries(v)),
    {
        reveal_strlit("image");
        reveal_strlit("credentials");
        reveal_strlit("env");
        reveal_strlit("ports");
        reveal_strlit("volumes");
        reveal_strlit("options");
        reveal_strlit("hostname");
        assert("image"@.len() == 5);
        assert("credentials"@.len() == 11);
        assert("env"@.len() == 3);
        assert("ports"@.len() == 5);
        assert("volumes"@.len() == 7);
        assert("options"@.len() == 7);
        assert("hostname"@.len() == 8);
        assert("image"@[0] == 'i');
        assert("ports"@[0] == 'p');
        assert("volumes"@[0] == 'v');
        assert("options"@[0] == 'o');
        let fields = Self::fields(v);
        assert(fields.len() == 7);
        assert(fields[0].0 == "image"@ && Self::key_rank(fields[0].0) == 0);
        assert(fields[1].0 == "credentials"@ && Self::key_rank(fields[1].0) == 1);
        assert(fields[2].0 == "env"@ && Self::key_rank(fields[2].0) == 2);
        assert(fields[3].0 == "ports"@ && Self::key_rank(fields[3].0) == 3);
        assert(fields[4].0 == "volumes"@ && Self::key_rank(fields[4].0) == 4);
        assert(fields[5].0 == "options"@ && Self::key_rank(fields[5].0) == 5);
        assert(fields[6].0 == "hostname"@ && Self::key_rank(fields[6].0) == 6);
        lemma_record(fields, |k: Seq<char>| Self::key_rank(k));
        assert(fields[0].1 == Some(String::encode(v.image)));
        assert(fields[1].1 == opt_node::<Credentials>(v.credentials));
        assert(fields[2].1 == opt_node::<Env>(v.env));
        assert(fields[3].1 == opt_node::<Vec<Port>>(v.ports));
        assert(fields[4].1 == opt_node::<Vec<Volume>>(v.volumes));
        assert(fields[5].1 == opt_node::<String>(v.options));
        assert(fields[6].1 == opt_node::<String>(v.hostname));
    }

    /// Omission: the key of a field is among the entries of the record
    /// exactly where the field is set. A field that is always there is
    /// always set; a list, a text or a map is set where it is not empty, and
    /// a flag where it is up.
    pub proof fn lemma_omission(v: ContainerView)
        ensures
            has_key(Self::entries(v), "image"@),
            has_key(Self::entries(v), "credentials"@) <==> v.credentials is Some,
            has_key(Self::entries(v), "env"@) <==> v.env is Some,
            has_key(Self::entries(v), "ports"@) <==> v.ports is Some,
            has_key(Self::entries(v), "volumes"@) <==> v.volumes is Some,
            has_key(Self::entries(v), "options"@) <==> v.options is Some,
            has_key(Self::entries(v), "hostname"@) <==> v.hostname is Some,
    {
        Self::lemma_fields(v);
        lemma_position(Self::entries(v), "image"@);
        lemma_position(Self::entries(v), "credentials"@);
        lemma_position(Self::entries(v), "env"@);
        lemma_position(Self::entries(v), "ports"@);
        lemma_position(Self::entries(v), "volumes"@);
        lemma_position(Self::entries(v), "options"@);
        lemma_position(Self::entries(v), "hostname"@);
    }

    /// Sets `image` and leaves the other fields as they are.
    pub fn image(self, value: &str) -> (r: Self)
        ensures
            r.deep_view() == (ContainerView { image: value@, ..self.deep_view() }),
    {
        let mut r = self;
        r.image = value.to_owned();
        r
    }

    /// Sets `credentials` and leaves the other fields as they are.
    pub fn credentials(self, value: Credentials) -> (r: Self)
        ensures
            r == (Container { credentials: Some(value), ..self }),
    {
        let mut r = self;
        r.credentials = Some(value);
        r
    }

    /// Sets `env` and leaves the other fields as they are.
    pub fn env(self, value: Env) -> (r: Self)
        ensures
            r == (Container { env: Some(value), ..self }),
    {
        let mut r = self;
        r.env = Some(value);
        r
    }

    /// Sets `ports` and leaves the other fields as they are.
    pub fn ports(self, value: Vec<Port>) -> (r: Self)
        ensures
            r == (Container { ports: Some(value), ..self }),
    {
        let mut r = self;
        r.ports = Some(value);
        r
    }

    /// Sets `volumes` and leaves the other fields as they are.
    pub fn volumes(self, value: Vec<Volume>) -> (r: Self)
        ensures
            r == (Container { volumes: Some(value), ..self }),
    {
        let mut r = self;
        r.volumes = Some(value);
        r
    }

    /// Sets `options` and leaves the other fields as they are.
    pub fn options(self, value: &str) -> (r: Self)
        ensures
            r.deep_view() == (ContainerView { options: Some(value@), ..self.deep_view() }),
    {
        let mut r = self;
        r.options = Some(value.to_owned());
        r
    }

    /// Sets `hostname` and leaves the other fields as they are.
    pub fn hostname(self, value: &str) -> (r: Self)
        ensures
            r.deep_view() == (ContainerView { hostname: Some(value@), ..self.deep_view() }),
    {
        let mut r = self;
        r.hostname = Some(value.to_owned());
        r
    }
}

impl Codec for Container {
    /// A mapping with one entry for each field that is set, in the order
    /// of the fields.
    open spec fn encode(v: ContainerView) -> Node {
        Node::Dict(Self::entries(v))
    }

    /// Reads each field from the entry under its key. Entries under other
    /// keys are passed over.
    open spec fn decode(n: Node) -> Option<ContainerView> {
        match n {
            Node::Dict(e) => {
                let image = req_field::<String>(e, "image"@);
                let credentials = opt_field::<Credentials>(e, "credentials"@);
                let env = opt_field::<Env>(e, "env"@);
                let ports = opt_field::<Vec<Port>>(e, "ports"@);
                let volumes = opt_field::<Vec<Volume>>(e, "volumes"@);
                let options = opt_field::<String>(e, "options"@);
                let hostname = opt_field::<String>(e, "hostname"@);
                if {
                    &&& image is Some
                    &&& credentials is Some
                    &&& env is Some
                    &&& ports is Some
                    &&& volumes is Some
                    &&& options is Some
                    &&& hostname is Some
                } {
                    Some(
                        ContainerView {
                            image: image->Some_0,
                            credentials: credentials->Some_0,
                            env: env->Some_0,
                            ports: ports->Some_0,
                            volumes: volumes->Some_0,
                            options: options->Some_0,
                            hostname: hostname->Some_0,
                        },
                    )
                } else {
                    None
                }
            },
            _ => None,
        }
    }

    open spec fn valid(v: ContainerView) -> bool {
        &&& String::valid(v.image)
        &&& opt_valid::<Credentials>(v.credentials)
        &&& opt_valid::<Env>(v.env)
        &&& opt_valid::<Vec<Port>>(v.ports)
        &&& opt_valid::<Vec<Volume>>(v.volumes)
        &&& opt_valid::<String>(v.options)
        &&& opt_valid::<String>(v.hostname)
    }

    proof fn lemma_round_trip(v: ContainerView) {
        Self::lemma_fields(v);
        let e = Self::entries(v);
        lemma_req_field::<String>(e, "image"@, v.image);
        lemma_opt_field::<Credentials>(e, "credentials"@, v.credentials);
        lemma_opt_field::<Env>(e, "env"@, v.env);
        lemma_opt_field::<Vec<Port>>(e, "ports"@, v.ports);
        lemma_opt_field::<Vec<Volume>>(e, "volumes"@, v.volumes);
        lemma_opt_field::<String>(e, "options"@, v.options);
        lemma_opt_field::<String>(e, "hostname"@, v.hostname);
    }

    fn to_tree(&self) -> (t: Tree) {
        broadcast use {lemma_record_empty, lemma_record_push};

        let m = record();
        let m = put_req(m, "image", &self.image);
        let m = put_opt(m, "credentials", &self.credentials);
        let m = put_opt(m, "env", &self.env);
        let m = put_opt(m, "ports", &self.ports);
        let m = put_opt(m, "volumes", &self.volumes);
        let m = put_opt(m, "options", &self.options);
        let m = put_opt(m, "hostname", &self.hostname);
        mapping(m)
    }

    fn from_tree(t: &Tree) -> (r: Result<Self, WorkflowError>) {
        match entries_of(t) {
            Some(m) => {
                let image = get_req::<String>(m, "image")?;
                let credentials = get_opt::<Credentials>(m, "credentials")?;
                let env = get_opt::<Env>(m, "env")?;
                let ports = get_opt::<Vec<Port>>(m, "ports")?;
                let volumes = get_opt::<Vec<Volume>>(m, "volumes")?;
                let options = get_opt::<String>(m, "options")?;
                let hostname = get_opt::<String>(m, "hostname")?;
                Ok(Container { image, credentials, env, ports, volumes, options, hostname })
            },
            None => Err(WorkflowError::Parse),
        }
    }
}

impl Default for Container {
    /// The entity with no field set.
    fn default() -> (r: Self)
        ensures
            r.deep_view() == Self::blank(),
    {
        let r = Container {
            image: String::new(),
            credentials: None,
            env: None,
            ports: None,
            volumes: None,
            options: None,
            hostname: None,
        };
        r
    }
}

/// The one colon of `s` is at `at`.
pub open spec fn colon_at(s: Seq<char>, at: int) -> bool {
    &&& 0 <= at < s.len()
    &&& s[at] == ':'
    &&& forall|i: int| 0 <= i < s.len() && i != at ==> s[i] != ':'
}

impl Volume {
    /// The volume that `source:destination` stands for: what is before the
    /// colon is mounted at what is after it. None where the text has no
    /// colon, or more than one.
    pub fn new(volume_str: &str) -> (r: Option<Self>)
        ensures
            match r {
                Some(v) => exists|at: int|
                    colon_at(volume_str@, at) && v.source@ == volume_str@.subrange(0, at)
                        && v.destination@ == volume_str@.subrange(
                        at + 1,
                        volume_str@.len() as int,
                    ),
                None => forall|at: int| !colon_at(volume_str@, at),
            },
    {
        let n = volume_str.unicode_len();
        match find(volume_str, ':', 0) {
            None => None,
            Some(at) => match find(volume_str, ':', at + 1) {
                Some(next) => {
                    assert forall|k: int| !colon_at(volume_str@, k) by {
                        if colon_at(volume_str@, k) {
                            if k == at {
                                assert(volume_str@[next as int] == ':');
                            } else {
                                assert(volume_str@[at as int] == ':');
                            }
                        }
                    }
                    None
                },
                None => {
                    assert(colon_at(volume_str@, at as int));
                    Some(
                        Volume {
                            source: volume_str.substring_char(0, at).to_owned(),
                            destination: volume_str.substring_char(at + 1, n).to_owned(),
                        },
                    )
                },
            },
        }
    }
}

/// The machine on which a job runs.
#[derive(Debug, Clone, PartialEq, Eq)]
pub enum Runner {
    Linux,
    MacOS,
    Windows,
    Custom(String),
}

/// The model of `Runner`.
pub enum RunnerView {
    Linux,
    MacOS,
    Windows,
    Custom(Seq<char>),
}

impl DeepView for Runner {
    type V = RunnerView;

    open spec fn deep_view(&self) -> RunnerView {
        match self {
            Runner::Linux => RunnerView::Linux,
            Runner::MacOS => RunnerView::MacOS,
            Runner::Windows => RunnerView::Windows,
            Runner::Custom(s) => RunnerView::Custom(s@),
        }
    }
}

impl Default for Runner {
    /// Linux.
    fn default() -> (r: Self)
        ensures
            r is Linux,
    {
        Runner::Linux
    }
}

impl Codec for Runner {
    /// A word for one of the three machines that have a name, and a
    /// mapping with the one key `custom` for any other.
    open spec fn encode(v: RunnerView) -> Node {
        match v {
            RunnerView::Linux => Node::Str("linux"@),
            RunnerView::MacOS => Node::Str("mac-o-s"@),
            RunnerView::Windows => Node::Str("windows"@),
            RunnerView::Custom(s) => Node::Dict(seq![("custom"@, Node::Str(s))]),
        }
    }

    open spec fn decode(n: Node) -> Option<RunnerView> {
        match n {
            Node::Str(w) => if w == "linux"@ {
                Some(RunnerView::Linux)
            } else if w == "mac-o-s"@ {
                Some(RunnerView::MacOS)
            } else if w == "windows"@ {
                Some(RunnerView::Windows)
            } else {
                None
            },
            Node::Dict(e) => if e.len() == 1 && e[0].0 == "custom"@ && e[0].1 is Str {
                Some(RunnerView::Custom(e[0].1->Str_0))
            } else {
                None
            },
            _ => None,
        }
    }

    open spec fn valid(v: RunnerView) -> bool {
        true
    }

    proof fn lemma_round_trip(v: RunnerView) {
        reveal_strlit("linux");
        reveal_strlit("mac-o-s");
        reveal_strlit("windows");
        assert("linux"@.len() == 5);
        assert("mac-o-s"@.len() == 7);
        assert("windows"@.len() == 7);
        assert("mac-o-s"@[0] == 'm');
        assert("windows"@[0] == 'w');
        match v {
            RunnerView::Custom(s) => {
                let e = seq![("custom"@, Node::Str(s))];
                assert(e[0].1 == Node::Str(s));
                assert forall|i: int| 0 <= i < e.len() implies plain((#[trigger] e[i]).1) by {}
            },
            _ => {},
        }
    }

    fn to_tree(&self) -> (t: Tree) {
        match self {
            Runner::Linux => Tree::String("linux".to_owned()),
            Runner::MacOS => Tree::String("mac-o-s".to_owned()),
            Runner::Windows => Tree::String("windows".to_owned()),
            Runner::Custom(s) => {
                let m = OrderedMap::new().insert("custom".to_owned(), Tree::String(s.clone()));
                proof {
                    crate::ordered_map::lemma_stored_fresh(
                        Seq::<(Seq<char>, Tree)>::empty(),
                        "custom"@,
                        Tree::String(*s),
                    );
                }
                let t = Tree::Object(m);
                proof {
                    t.lemma_node();
                    assert(entry_nodes(m@) =~= seq![("custom"@, Node::Str(s@))]);
                }
                t
            },
        }
    }

    fn from_tree(t: &Tree) -> (r: Result<Self, WorkflowError>) {
        proof {
            t.lemma_node();
        }
        match t {
            Tree::String(w) => {
                if same(w.as_str(), "linux") {
                    Ok(Runner::Linux)
                } else if same(w.as_str(), "mac-o-s") {
                    Ok(Runner::MacOS)
                } else if same(w.as_str(), "windows") {
                    Ok(Runner::Windows)
                } else {
                    Err(WorkflowError::Parse)
                }
            },
            Tree::Object(m) => {
                if m.len() == 1 && same(m.key_at(0).as_str(), "custom") {
                    match m.value_at(0) {
                        Tree::String(s) => Ok(Runner::Custom(s.clone())),
                        _ => Err(WorkflowError::Parse),
                    }
                } else {
                    Err(WorkflowError::Parse)
                }
            },
            _ => Err(WorkflowError::Parse),
        }
    }
}

} // verus!
