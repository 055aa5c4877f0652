//! Jobs and the runners that they run on.

use crate::codec::all_plain;
use crate::codec::entries_of;
use crate::codec::get_opt;
use crate::codec::lemma_opt_field;
use crate::codec::lemma_record;
use crate::codec::lemma_record_empty;
use crate::codec::lemma_record_push;
use crate::codec::mapping;
use crate::codec::opt_field;
use crate::codec::opt_node;
use crate::codec::opt_valid;
use crate::codec::plain_opt;
use crate::codec::put_opt;
use crate::codec::record;
use crate::codec::record_entries;
use crate::codec::Codec;
use crate::codec::Fields;
use crate::error::WorkflowError;
use crate::ordered_map::has_key;
use crate::ordered_map::lemma_position;
use crate::ordered_map::lookup;
use crate::ordered_map::stored;
use crate::ordered_map::OrderedMap;
use crate::settings::Artifacts;
use crate::settings::ArtifactsView;
use crate::settings::Concurrency;
use crate::settings::ConcurrencyView;
use crate::settings::Defaults;
use crate::settings::Environment;
use crate::settings::EnvironmentView;
use crate::settings::DefaultsView;
use crate::settings::Expression;
use crate::settings::Permissions;
use crate::settings::PermissionsView;
use crate::settings::RetryStrategy;
use crate::settings::RetryStrategyView;
use crate::settings::Secret;
use crate::settings::SecretView;
use crate::settings::Strategy;
use crate::settings::StrategyView;
use crate::step::Container;
use crate::step::ContainerView;
use crate::step::Env;
use crate::step::Step;
use crate::step::StepType;
use crate::step::StepValue;
use crate::step::StepValueView;
use crate::tree::plain;
use crate::tree::Node;
use crate::tree::Tree;
use vstd::prelude::*;
use vstd::std_specs::convert::FromSpecImpl;

verus! {

/// The runner on which a job runs: one label, a list of labels, or a mapping of
/// what is asked of the runner.
#[derive(Debug, Clone, PartialEq, Eq)]
pub struct RunsOn(pub Tree);

impl DeepView for RunsOn {
    type V = Node;

    open spec fn deep_view(&self) -> Node {
        self.0.deep_view()
    }
}

impl Codec for RunsOn {
    /// Written as what it holds.
    open spec fn encode(v: Node) -> Node {
        Tree::encode(v)
    }

    open spec fn decode(n: Node) -> Option<Node> {
        Tree::decode(n)
    }

    open spec fn valid(v: Node) -> bool {
        Tree::valid(v)
    }

    proof fn lemma_round_trip(v: Node) {
        Tree::lemma_round_trip(v);
    }

    fn to_tree(&self) -> (t: Tree) {
        self.0.to_tree()
    }

    fn from_tree(t: &Tree) -> (r: Result<Self, WorkflowError>) {
        match Tree::from_tree(t) {
            Ok(x) => Ok(RunsOn(x)),
            Err(e) => Err(e),
        }
    }
}

impl RunsOn {
    /// The runner with the label `label`.
    pub fn label(label: &str) -> (r: Self)
        ensures
            r.deep_view() == Node::Str(label@),
    {
        RunsOn(Tree::String(label.to_owned()))
    }
}

impl From<Tree> for RunsOn {
    fn from(value: Tree) -> (r: Self) {
        RunsOn(value)
    }
}

impl FromSpecImpl<Tree> for RunsOn {
    open spec fn obeys_from_spec() -> bool {
        true
    }

    open spec fn from_spec(value: Tree) -> Self {
        RunsOn(value)
    }
}

impl RunsOn {
    /// The runner with all the labels `labels`.
    pub fn labels(labels: &Vec<String>) -> (r: Self)
        ensures
            r.deep_view() == Vec::<String>::encode(labels.deep_view()),
    {
        RunsOn(labels.to_tree())
    }

    /// The runner of which `entries` says what is asked, key by key.
    pub fn mapping(entries: Env) -> (r: Self)
        ensures
            r.deep_view() == Node::Dict(entries.deep_view()),
    {
        let t = Tree::Object(entries.0);
        proof {
            t.lemma_node();
            assert(entries.deep_view() =~= crate::tree::entry_nodes(entries.0@));
        }
        RunsOn(t)
    }
}

impl Default for RunsOn {
    /// No runner: null.
    fn default() -> (r: Self)
        ensures
            r.deep_view() == Node::Null,
    {
        RunsOn(Tree::Null)
    }
}

/// A job of a workflow.
#[derive(Debug, Clone, PartialEq, Eq)]
pub struct Job {
    /// The identifiers of the jobs that must finish first.
    pub needs: Option<Vec<String>>,
    /// The condition under which the job runs.
    pub if_condition: Option<Expression>,
    /// The name that is shown for the job.
    pub name: Option<String>,
    /// The runner on which the job runs.
    pub runs_on: Option<RunsOn>,
    /// What the token of the job may do.
    pub permissions: Option<Permissions>,
    /// The deployment environment that the job refers to.
    pub environment: Option<Environment>,
    /// The concurrency group of the job.
    pub concurrency: Option<Concurrency>,
    /// The outputs of the job, by name.
    pub outputs: Option<OrderedMap<String>>,
    /// The environment variables of the job.
    pub env: Option<Env>,
    /// Settings for every step of the job.
    pub defaults: Option<Defaults>,
    /// After how many minutes the job is stopped.
    pub timeout_minutes: Option<u32>,
    /// Whether the workflow goes on when the job fails.
    pub continue_on_error: Option<bool>,
    /// The container in which the job runs.
    pub container: Option<Container>,
    /// The containers that serve the job, by name.
    pub services: Option<OrderedMap<Container>>,
    /// The matrix over which the job fans out.
    pub strategy: Option<Strategy>,
    /// The steps of the job, in their order.
    pub steps: Option<Vec<StepValue>>,
    /// The reusable workflow that the job calls.
    pub uses: Option<String>,
    /// The secrets that the job passes on, by name.
    pub secrets: Option<OrderedMap<Secret>>,
    /// How often the job is tried again.
    pub retry: Option<RetryStrategy>,
    /// The artifacts of the job.
    pub artifacts: Option<Artifacts>,
}

/// The model of `Job`: every field as its own model.
pub struct JobView {
    pub needs: Option<Seq<Seq<char>>>,
    pub if_condition: Option<Seq<char>>,
    pub name: Option<Seq<char>>,
    pub runs_on: Option<Node>,
    pub permissions: Option<PermissionsView>,
    pub environment: Option<EnvironmentView>,
    pub concurrency: Option<ConcurrencyView>,
    pub outputs: Option<Seq<(Seq<char>, Seq<char>)>>,
    pub env: Option<Seq<(Seq<char>, Node)>>,
    pub defaults: Option<DefaultsView>,
    pub timeout_minutes: Option<u32>,
    pub continue_on_error: Option<bool>,
    pub container: Option<ContainerView>,
    pub services: Option<Seq<(Seq<char>, ContainerView)>>,
    pub strategy: Option<StrategyView>,
    pub steps: Option<Seq<StepValueView>>,
    pub uses: Option<Seq<char>>,
    pub secrets: Option<Seq<(Seq<char>, SecretView)>>,
    pub retry: Option<RetryStrategyView>,
    pub artifacts: Option<ArtifactsView>,
}

impl DeepView for Job {
    type V = JobView;

    open spec fn deep_view(&self) -> JobView {
        JobView {
            needs: self.needs.deep_view(),
            if_condition: self.if_condition.deep_view(),
            name: self.name.deep_view(),
            runs_on: self.runs_on.deep_view(),
            permissions: self.permissions.deep_view(),
            environment: self.environment.deep_view(),
            concurrency: self.concurrency.deep_view(),
            outputs: self.outputs.deep_view(),
            env: self.env.deep_view(),
            defaults: self.defaults.deep_view(),
            timeout_minutes: self.timeout_minutes.deep_view(),
            continue_on_error: self.continue_on_error.deep_view(),
            container: self.container.deep_view(),
            services: self.services.deep_view(),
            strategy: self.strategy.deep_view(),
            steps: self.steps.deep_view(),
            uses: self.uses.deep_view(),
            secrets: self.secrets.deep_view(),
            retry: self.retry.deep_view(),
            artifacts: self.artifacts.deep_view(),
        }
    }
}

impl Job {
    /// The model of the entity with no field set: a field that is always
    /// there is empty.
    pub open spec fn blank() -> JobView {
        JobView {
            needs: None,
            if_condition: None,
            name: None,
            runs_on: None,
            permissions: None,
            environment: None,
            concurrency: None,
            outputs: None,
            env: None,
            defaults: None,
            timeout_minutes: None,
            continue_on_error: None,
            container: None,
            services: None,
            strategy: None,
            steps: None,
            uses: None,
            secrets: None,
            retry: None,
            artifacts: None,
        }
    }

    /// The fields with their keys, in the order in which they are written.
    pub open spec fn fields(v: JobView) -> Fields {
        Seq::empty()
            .push(("needs"@, opt_node::<Vec<String>>(v.needs)))
            .push(("if"@, opt_node::<Expression>(v.if_condition)))
            .push(("name"@, opt_node::<String>(v.name)))
            .push(("runs-on"@, opt_node::<RunsOn>(v.runs_on)))
            .push(("permissions"@, opt_node::<Permissions>(v.permissions)))
            .push(("environment"@, opt_node::<Environment>(v.environment)))
            .push(("concurrency"@, opt_node::<Concurrency>(v.concurrency)))
            .push(("outputs"@, opt_node::<OrderedMap<String>>(v.outputs)))
            .push(("env"@, opt_node::<Env>(v.env)))
            .push(("defaults"@, opt_node::<Defaults>(v.defaults)))
            .push(("timeout-minutes"@, opt_node::<u32>(v.timeout_minutes)))
            .push(("continue-on-error"@, opt_node::<bool>(v.continue_on_error)))
            .push(("container"@, opt_node::<Container>(v.container)))
            .push(("services"@, opt_node::<OrderedMap<Container>>(v.services)))
            .push(("strategy"@, opt_node::<Strategy>(v.strategy)))
            .push(("steps"@, opt_node::<Vec<StepValue>>(v.steps)))
            .push(("uses"@, opt_node::<String>(v.uses)))
            .push(("secrets"@, opt_node::<OrderedMap<Secret>>(v.secrets)))
            .push(("retry"@, opt_node::<RetryStrategy>(v.retry)))
            .push(("artifacts"@, opt_node::<Artifacts>(v.artifacts)))
    }

    /// The entries of the record: one for each field that is set.
    pub open spec fn entries(v: JobView) -> Seq<(Seq<char>, Node)> {
        record_entries(Self::fields(v))
    }

    /// The place of a key among the fields, told by the length of the key
    /// and as many of its characters as it takes.
    pub open spec fn key_rank(k: Seq<char>) -> int {
        if k.len() == 5 && k[0] == 'n' {
            0
        } else if k.len() == 2 {
            1
        } else if k.len() == 4 && k[0] == 'n' {
            2
        } else if k.len() == 7 && k[0] == 'r' {
            3
        } else if k.len() == 11 && k[0] == 'p' {
            4
        } else if k.len() == 11 && k[0] == 'e' {
            5
        } else if k.len() == 11 && k[0] == 'c' {
            6
        } else if k.len() == 7 && k[0] == 'o' {
            7
        } else if k.len() == 3 {
            8
        } else if k.len() == 8 && k[0] == 'd' {
            9
        } else if k.len() == 15 {
            10
        } else if k.len() == 17 {
            11
        } else if k.len() == 9 && k[0] == 'c' {
            12
        } else if k.len() == 8 && k[3] == 'v' {
            13
        } else if k.len() == 8 && k[1] == 't' {
            14
        } else if k.len() == 5 && k[0] == 's' {
            15
        } else if k.len() == 4 && k[0] == 'u' {
            16
        } else if k.len() == 7 && k[0] == 's' {
            17
        } else if k.len() == 5 && k[0] == 'r' {
            18
        } else if k.len() == 9 && k[0] == 'a' {
            19
        } else {
            20
        }
    }

    /// In the entries of the record each key leads to its own field: to
    /// the field's tree where the field is set, and nowhere where it is not.
    /// The entries are plain where the trees of the fields are.
    pub proof fn lemma_fields(v: JobView)
        ensures
            lookup(Self::entries(v), "needs"@) == opt_node::<Vec<String>>(v.needs),
            lookup(Self::entries(v), "if"@) == opt_node::<Expression>(v.if_condition),
            lookup(Self::entries(v), "name"@) == opt_node::<String>(v.name),
            lookup(Self::entries(v), "runs-on"@) == opt_node::<RunsOn>(v.runs_on),
            lookup(Self::entries(v), "permissions"@) == opt_node::<Permissions>(v.permissions),
            lookup(Self::entries(v), "environment"@) == opt_node::<Environment>(v.environment),
            lookup(Self::entries(v), "concurrency"@) == opt_node::<Concurrency>(v.concurrency),
            lookup(Self::entries(v), "outputs"@) == opt_node::<OrderedMap<String>>(v.outputs),
            lookup(Self::entries(v), "env"@) == opt_node::<Env>(v.env),
            lookup(Self::entries(v), "defaults"@) == opt_node::<Defaults>(v.defaults),
            lookup(Self::entries(v), "timeout-minutes"@) == opt_node::<u32>(v.timeout_minutes),
            lookup(Self::entries(v), "continue-on-error"@) == opt_node::<bool>(v.continue_on_error),
            lookup(Self::entries(v), "container"@) == opt_node::<Container>(v.container),
            lookup(Self::entries(v), "services"@) == opt_node::<OrderedMap<Container>>(v.services),
            lookup(Self::entries(v), "strategy"@) == opt_node::<Strategy>(v.strategy),
            lookup(Self::entries(v), "steps"@) == opt_node::<Vec<StepValue>>(v.steps),
            lookup(Self::entries(v), "uses"@) == opt_node::<String>(v.uses),
            lookup(Self::entries(v), "secrets"@) == opt_node::<OrderedMap<Secret>>(v.secrets),
            lookup(Self::entries(v), "retry"@) == opt_node::<RetryStrategy>(v.retry),
            lookup(Self::entries(v), "artifacts"@) == opt_node::<Artifacts>(v.artifacts),
            ({
                &&& plain_opt(opt_node::<Vec<String>>(v.needs))
                &&& plain_opt(opt_node::<Expression>(v.if_condition))
                &&& plain_opt(opt_node::<String>(v.name))
                &&& plain_opt(opt_node::<RunsOn>(v.runs_on))
                &&& plain_opt(opt_node::<Permissions>(v.permissions))
                &&& plain_opt(opt_node::<Environment>(v.environment))
                &&& plain_opt(opt_node::<Concurrency>(v.concurrency))
                &&& plain_opt(opt_node::<OrderedMap<String>>(v.outputs))
                &&& plain_opt(opt_node::<Env>(v.env))
                &&& plain_opt(opt_node::<Defaults>(v.defaults))
                &&& plain_opt(opt_node::<u32>(v.timeout_minutes))
                &&& plain_opt(opt_node::<bool>(v.continue_on_error))
                &&& plain_opt(opt_node::<Container>(v.container))
                &&& plain_opt(opt_node::<OrderedMap<Container>>(v.services))
                &&& plain_opt(opt_node::<Strategy>(v.strategy))
                &&& plain_opt(opt_node::<Vec<StepValue>>(v.steps))
                &&& plain_opt(opt_node::<String>(v.uses))
                &&& plain_opt(opt_node::<OrderedMap<Secret>>(v.secrets))
                &&& plain_opt(opt_node::<RetryStrategy>(v.retry))
                &&& plain_opt(opt_node::<Artifacts>(v.artifacts))
            }) ==> all_plain(Self::entries(v)),
    {
        reveal_strlit("needs");
        reveal_strlit("if");
        reveal_strlit("name");
        reveal_strlit("runs-on");
        reveal_strlit("permissions");
        reveal_strlit("environment");
        reveal_strlit("concurrency");
        reveal_strlit("outputs");
        reveal_strlit("env");
        reveal_strlit("defaults");
        reveal_strlit("timeout-minutes");
        reveal_strlit("continue-on-error");
        reveal_strlit("container");
        reveal_strlit("services");
        reveal_strlit("strategy");
        reveal_strlit("steps");
        reveal_strlit("uses");
        reveal_strlit("secrets");
        reveal_strlit("retry");
        reveal_strlit("artifacts");
        assert("needs"@.len() == 5);
        assert("if"@.len() == 2);
        assert("name"@.len() == 4);
        assert("runs-on"@.len() == 7);
        assert("permissions"@.len() == 11);
        assert("environment"@.len() == 11);
        assert("concurrency"@.len() == 11);
        assert("outputs"@.len() == 7);
        assert("env"@.len() == 3);
        assert("defaults"@.len() == 8);
        assert("timeout-minutes"@.len() == 15);
        assert("continue-on-error"@.len() == 17);
        assert("container"@.len() == 9);
        assert("services"@.len() == 8);
        assert("strategy"@.len() == 8);
        assert("steps"@.len() == 5);
        assert("uses"@.len() == 4);
        assert("secrets"@.len() == 7);
        assert("retry"@.len() == 5);
        assert("artifacts"@.len() == 9);
        assert("needs"@[0] == 'n');
        assert("name"@[0] == 'n');
        assert("runs-on"@[0] == 'r');
        assert("permissions"@[0] == 'p');
        assert("environment"@[0] == 'e');
        assert("concurrency"@[0] == 'c');
        assert("outputs"@[0] == 'o');
        assert("defaults"@[0] == 'd');
        assert("defaults"@[1] == 'e');
        assert("defaults"@[3] == 'a');
        assert("container"@[0] == 'c');
        assert("services"@[0] == 's');
        assert("services"@[1] == 'e');
        assert("services"@[3] == 'v');
        assert("strategy"@[0] == 's');
        assert("strategy"@[1] == 't');
        assert("strategy"@[3] == 'a');
        assert("steps"@[0] == 's');
        assert("uses"@[0] == 'u');
        assert("secrets"@[0] == 's');
        assert("retry"@[0] == 'r');
        assert("artifacts"@[0] == 'a');
        let fields = Self::fields(v);
        assert(fields.len() == 20);
        assert(fields[0].0 == "needs"@ && Self::key_rank(fields[0].0) == 0);
        assert(fields[1].0 == "if"@ && Self::key_rank(fields[1].0) == 1);
        assert(fields[2].0 == "name"@ && Self::key_rank(fields[2].0) == 2);
        assert(fields[3].0 == "runs-on"@ && Self::key_rank(fields[3].0) == 3);
        assert(fields[4].0 == "permissions"@ && Self::key_rank(fields[4].0) == 4);
        assert(fields[5].0 == "environment"@ && Self::key_rank(fields[5].0) == 5);
        assert(fields[6].0 == "concurrency"@ && Self::key_rank(fields[6].0) == 6);
        assert(fields[7].0 == "outputs"@ && Self::key_rank(fields[7].0) == 7);
        assert(fields[8].0 == "env"@ && Self::key_rank(fields[8].0) == 8);
        assert(fields[9].0 == "defaults"@ && Self::key_rank(fields[9].0) == 9);
        assert(fields[10].0 == "timeout-minutes"@ && Self::key_rank(fields[10].0) == 10);
        assert(fields[11].0 == "continue-on-error"@ && Self::key_rank(fields[11].0) == 11);
        assert(fields[12].0 == "container"@ && Self::key_rank(fields[12].0) == 12);
        assert(fields[13].0 == "services"@ && Self::key_rank(fields[13].0) == 13);
        assert(fields[14].0 == "strategy"@ && Self::key_rank(fields[14].0) == 14);
        assert(fields[15].0 == "steps"@ && Self::key_rank(fields[15].0) == 15);
        assert(fields[16].0 == "uses"@ && Self::key_rank(fields[16].0) == 16);
        assert(fields[17].0 == "secrets"@ && Self::key_rank(fields[17].0) == 17);
        assert(fields[18].0 == "retry"@ && Self::key_rank(fields[18].0) == 18);
        assert(fields[19].0 == "artifacts"@ && Self::key_rank(fields[19].0) == 19);
        lemma_record(fields, |k: Seq<char>| Self::key_rank(k));
        assert(fields[0].1 == opt_node::<Vec<String>>(v.needs));
        assert(fields[1].1 == opt_node::<Expression>(v.if_condition));
        assert(fields[2].1 == opt_node::<String>(v.name));
        assert(fields[3].1 == opt_node::<RunsOn>(v.runs_on));
        assert(fields[4].1 == opt_node::<Permissions>(v.permissions));
        assert(fields[5].1 == opt_node::<Environment>(v.environment));
        assert(fields[6].1 == opt_node::<Concurrency>(v.concurrency));
        assert(fields[7].1 == opt_node::<OrderedMap<String>>(v.outputs));
        assert(fields[8].1 == opt_node::<Env>(v.env));
        assert(fields[9].1 == opt_node::<Defaults>(v.defaults));
        assert(fields[10].1 == opt_node::<u32>(v.timeout_minutes));
        assert(fields[11].1 == opt_node::<bool>(v.continue_on_error));
        assert(fields[12].1 == opt_node::<Container>(v.container));
        assert(fields[13].1 == opt_node::<OrderedMap<Container>>(v.services));
        assert(fields[14].1 == opt_node::<Strategy>(v.strategy));
        assert(fields[15].1 == opt_node::<Vec<StepValue>>(v.steps));
        assert(fields[16].1 == opt_node::<String>(v.uses));
        assert(fields[17].1 == opt_node::<OrderedMap<Secret>>(v.secrets));
        assert(fields[18].1 == opt_node::<RetryStrategy>(v.retry));
        assert(fields[19].1 == opt_node::<Artifacts>(v.artifacts));
    }

    /// Omission: the key of a field is among the entries of the record
    /// exactly where the field is set. A field that is always there is
    /// always set; a list, a text or a map is set where it is not empty, and
    /// a flag where it is up.
    pub proof fn lemma_omission(v: JobView)
        ensures
            has_key(Self::entries(v), "needs"@) <==> v.needs is Some,
            has_key(Self::entries(v), "if"@) <==> v.if_condition is Some,
            has_key(Self::entries(v), "name"@) <==> v.name is Some,
            has_key(Self::entries(v), "runs-on"@) <==> v.runs_on is Some,
            has_key(Self::entries(v), "permissions"@) <==> v.permissions is Some,
            has_key(Self::entries(v), "environment"@) <==> v.environment is Some,
            has_key(Self::entries(v), "concurrency"@) <==> v.concurrency is Some,
            has_key(Self::entries(v), "outputs"@) <==> v.outputs is Some,
            has_key(Self::entries(v), "env"@) <==> v.env is Some,
            has_key(Self::entries(v), "defaults"@) <==> v.defaults is Some,
            has_key(Self::entries(v), "timeout-minutes"@) <==> v.timeout_minutes is Some,
            has_key(Self::entries(v), "continue-on-error"@) <==> v.continue_on_error is Some,
            has_key(Self::entries(v), "container"@) <==> v.container is Some,
            has_key(Self::entries(v), "services"@) <==> v.services is Some,
            has_key(Self::entries(v), "strategy"@) <==> v.strategy is Some,
            has_key(Self::entries(v), "steps"@) <==> v.steps is Some,
            has_key(Self::entries(v), "uses"@) <==> v.uses is Some,
            has_key(Self::entries(v), "secrets"@) <==> v.secrets is Some,
            has_key(Self::entries(v), "retry"@) <==> v.retry is Some,
            has_key(Self::entries(v), "artifacts"@) <==> v.artifacts is Some,
    {
        Self::lemma_fields(v);
        lemma_position(Self::entries(v), "needs"@);
        lemma_position(Self::entries(v), "if"@);
        lemma_position(Self::entries(v), "name"@);
        lemma_position(Self::entries(v), "runs-on"@);
        lemma_position(Self::entries(v), "permissions"@);
        lemma_position(Self::entries(v), "environment"@);
        lemma_position(Self::entries(v), "concurrency"@);
        lemma_position(Self::entries(v), "outputs"@);
        lemma_position(Self::entries(v), "env"@);
        lemma_position(Self::entries(v), "defaults"@);
        lemma_position(Self::entries(v), "timeout-minutes"@);
        lemma_position(Self::entries(v), "continue-on-error"@);
        lemma_position(Self::entries(v), "container"@);
        lemma_position(Self::entries(v), "services"@);
        lemma_position(Self::entries(v), "strategy"@);
        lemma_position(Self::entries(v), "steps"@);
        lemma_position(Self::entries(v), "uses"@);
        lemma_position(Self::entries(v), "secrets"@);
        lemma_position(Self::entries(v), "retry"@);
        lemma_position(Self::entries(v), "artifacts"@);
    }

    /// Sets `needs` and leaves the other fields as they are.
    pub fn needs(self, value: Vec<String>) -> (r: Self)
        ensures
            r == (Job { needs: Some(value), ..self }),
    {
        let mut r = self;
        r.needs = Some(value);
        r
    }

    /// Sets `if_condition` and leaves the other fields as they are.
    pub fn if_condition(self, value: Expression) -> (r: Self)
        ensures
            r == (Job { if_condition: Some(value), ..self }),
    {
        let mut r = self;
        r.if_condition = Some(value);
        r
    }

    /// Sets `name` and leaves the other fields as they are.
    pub fn name(self, value: &str) -> (r: Self)
        ensures
            r.deep_view() == (JobView { name: Some(value@), ..self.deep_view() }),
    {
        let mut r = self;
        r.name = Some(value.to_owned());
        r
    }

    /// Sets `runs_on` and leaves the other fields as they are.
    pub fn runs_on(self, value: RunsOn) -> (r: Self)
        ensures
            r == (Job { runs_on: Some(value), ..self }),
    {
        let mut r = self;
        r.runs_on = Some(value);
        r
    }

    /// Sets `permissions` and leaves the other fields as they are.
    pub fn permissions(self, value: Permissions) -> (r: Self)
        ensures
            r == (Job { permissions: Some(value), ..self }),
    {
        let mut r = self;
        r.permissions = Some(value);
        r
    }

    /// Sets `environment` and leaves the other fields as they are.
    pub fn environment(self, value: Environment) -> (r: Self)
        ensures
            r == (Job { environment: Some(value), ..self }),
    {
        let mut r = self;
        r.environment = Some(value);
        r
    }

    /// Sets `concurrency` and leaves the other fields as they are.
    pub fn concurrency(self, value: Concurrency) -> (r: Self)
        ensures
            r == (Job { concurrency: Some(value), ..self }),
    {
        let mut r = self;
        r.concurrency = Some(value);
        r
    }

    /// Sets `outputs` and leaves the other fields as they are.
    pub fn outputs(self, value: OrderedMap<String>) -> (r: Self)
        ensures
            r == (Job { outputs: Some(value), ..self }),
    {
        let mut r = self;
        r.outputs = Some(value);
        r
    }

    /// Sets `env` and leaves the other fields as they are.
    pub fn env(self, value: Env) -> (r: Self)
        ensures
            r == (Job { env: Some(value), ..self }),
    {
        let mut r = self;
        r.env = Some(value);
        r
    }

    /// Sets `defaults` and leaves the other fields as they are.
    pub fn defaults(self, value: Defaults) -> (r: Self)
        ensures
            r == (Job { defaults: Some(value), ..self }),
    {
        let mut r = self;
        r.defaults = Some(value);
        r
    }

    /// Sets `timeout_minutes` and leaves the other fields as they are.
    pub fn timeout_minutes(self, value: u32) -> (r: Self)
        ensures
            r == (Job { timeout_minutes: Some(value), ..self }),
    {
        let mut r = self;
        r.timeout_minutes = Some(value);
        r
    }

    /// Sets `continue_on_error` and leaves the other fields as they are.
    pub fn continue_on_error(self, value: bool) -> (r: Self)
        ensures
            r == (Job { continue_on_error: Some(value), ..self }),
    {
        let mut r = self;
        r.continue_on_error = Some(value);
        r
    }

    /// Sets `container` and leaves the other fields as they are.
    pub fn container(self, value: Container) -> (r: Self)
        ensures
            r == (Job { container: Some(value), ..self }),
    {
        let mut r = self;
        r.container = Some(value);
        r
    }

    /// Sets `services` and leaves the other fields as they are.
    pub fn services(self, value: OrderedMap<Container>) -> (r: Self)
        ensures
            r == (Job { services: Some(value), ..self }),
    {
        let mut r = self;
        r.services = Some(value);
        r
    }

    /// Sets `strategy` and leaves the other fields as they are.
    pub fn strategy(self, value: Strategy) -> (r: Self)
        ensures
            r == (Job { strategy: Some(value), ..self }),
    {
        let mut r = self;
        r.strategy = Some(value);
        r
    }

    /// Sets `steps` and leaves the other fields as they are.
    pub fn steps(self, value: Vec<StepValue>) -> (r: Self)
        ensures
            r == (Job { steps: Some(value), ..self }),
    {
        let mut r = self;
        r.steps = Some(value);
        r
    }

    /// Sets `uses` and leaves the other fields as they are.
    pub fn uses(self, value: &str) -> (r: Self)
        ensures
            r.deep_view() == (JobView { uses: Some(value@), ..self.deep_view() }),
    {
        let mut r = self;
        r.uses = Some(value.to_owned());
        r
    }

    /// Sets `secrets` and leaves the other fields as they are.
    pub fn secrets(self, value: OrderedMap<Secret>) -> (r: Self)
        ensures
            r == (Job { secrets: Some(value), ..self }),
    {
        let mut r = self;
        r.secrets = Some(value);
        r
    }

    /// Sets `retry` and leaves the other fields as they are.
    pub fn retry(self, value: RetryStrategy) -> (r: Self)
        ensures
            r == (Job { retry: Some(value), ..self }),
    {
        let mut r = self;
        r.retry = Some(value);
        r
    }

    /// Sets `artifacts` and leaves the other fields as they are.
    pub fn artifacts(self, value: Artifacts) -> (r: Self)
        ensures
            r == (Job { artifacts: Some(value), ..self }),
    {
        let mut r = self;
        r.artifacts = Some(value);
        r
    }
}

impl Codec for Job {
    /// A mapping with one entry for each field that is set, in the order
    /// of the fields.
    open spec fn encode(v: JobView) -> Node {
        Node::Dict(Self::entries(v))
    }

    /// Reads each field from the entry under its key. Entries under other
    /// keys are passed over.
    open spec fn decode(n: Node) -> Option<JobView> {
        match n {
            Node::Dict(e) => {
                let needs = opt_field::<Vec<String>>(e, "needs"@);
                let if_condition = opt_field::<Expression>(e, "if"@);
                let name = opt_field::<String>(e, "name"@);
                let runs_on = opt_field::<RunsOn>(e, "runs-on"@);
                let permissions = opt_field::<Permissions>(e, "permissions"@);
                let environment = opt_field::<Environment>(e, "environment"@);
                let concurrency = opt_field::<Concurrency>(e, "concurrency"@);
                let outputs = opt_field::<OrderedMap<String>>(e, "outputs"@);
                let env = opt_field::<Env>(e, "env"@);
                let defaults = opt_field::<Defaults>(e, "defaults"@);
                let timeout_minutes = opt_field::<u32>(e, "timeout-minutes"@);
                let continue_on_error = opt_field::<bool>(e, "continue-on-error"@);
                let container = opt_field::<Container>(e, "container"@);
                let services = opt_field::<OrderedMap<Container>>(e, "services"@);
                let strategy = opt_field::<Strategy>(e, "strategy"@);
                let steps = opt_field::<Vec<StepValue>>(e, "steps"@);
                let uses = opt_field::<String>(e, "uses"@);
                let secrets = opt_field::<OrderedMap<Secret>>(e, "secrets"@);
                let retry = opt_field::<RetryStrategy>(e, "retry"@);
                let artifacts = opt_field::<Artifacts>(e, "artifacts"@);
                if {
                    &&& needs is Some
                    &&& if_condition is Some
                    &&& name is Some
                    &&& runs_on is Some
                    &&& permissions is Some
                    &&& environment is Some
                    &&& concurrency is Some
                    &&& outputs is Some
                    &&& env is Some
                    &&& defaults is Some
                    &&& timeout_minutes is Some
                    &&& continue_on_error is Some
                    &&& container is Some
                    &&& services is Some
                    &&& strategy is Some
                    &&& steps is Some
                    &&& uses is Some
                    &&& secrets is Some
                    &&& retry is Some
                    &&& artifacts is Some
                } {
                    Some(
                        JobView {
                            needs: needs->Some_0,
                            if_condition: if_condition->Some_0,
                            name: name->Some_0,
                            runs_on: runs_on->Some_0,
                            permissions: permissions->Some_0,
                            environment: environment->Some_0,
                            concurrency: concurrency->Some_0,
                            outputs: outputs->Some_0,
                            env: env->Some_0,
                            defaults: defaults->Some_0,
                            timeout_minutes: timeout_minutes->Some_0,
                            continue_on_error: continue_on_error->Some_0,
                            container: container->Some_0,
                            services: services->Some_0,
                            strategy: strategy->Some_0,
                            steps: steps->Some_0,
                            uses: uses->Some_0,
                            secrets: secrets->Some_0,
                            retry: retry->Some_0,
                            artifacts: artifacts->Some_0,
                        },
                    )
                } else {
                    None
                }
            },
            _ => None,
        }
    }

    open spec fn valid(v: JobView) -> bool {
        &&& opt_valid::<Vec<String>>(v.needs)
        &&& opt_valid::<Expression>(v.if_condition)
        &&& opt_valid::<String>(v.name)
        &&& opt_valid::<RunsOn>(v.runs_on)
        &&& opt_valid::<Permissions>(v.permissions)
        &&& opt_valid::<Environment>(v.environment)
        &&& opt_valid::<Concurrency>(v.concurrency)
        &&& opt_valid::<OrderedMap<String>>(v.outputs)
        &&& opt_valid::<Env>(v.env)
        &&& opt_valid::<Defaults>(v.defaults)
        &&& opt_valid::<u32>(v.timeout_minutes)
        &&& opt_valid::<bool>(v.continue_on_error)
        &&& opt_valid::<Container>(v.container)
        &&& opt_valid::<OrderedMap<Container>>(v.services)
        &&& opt_valid::<Strategy>(v.strategy)
        &&& opt_valid::<Vec<StepValue>>(v.steps)
        &&& opt_valid::<String>(v.uses)
        &&& opt_valid::<OrderedMap<Secret>>(v.secrets)
        &&& opt_valid::<RetryStrategy>(v.retry)
        &&& opt_valid::<Artifacts>(v.artifacts)
    }

    proof fn lemma_round_trip(v: JobView) {
        Self::lemma_fields(v);
        let e = Self::entries(v);
        lemma_opt_field::<Vec<String>>(e, "needs"@, v.needs);
        lemma_opt_field::<Expression>(e, "if"@, v.if_condition);
        lemma_opt_field::<String>(e, "name"@, v.name);
        lemma_opt_field::<RunsOn>(e, "runs-on"@, v.runs_on);
        lemma_opt_field::<Permissions>(e, "permissions"@, v.permissions);
        lemma_opt_field::<Environment>(e, "environment"@, v.environment);
        lemma_opt_field::<Concurrency>(e, "concurrency"@, v.concurrency);
        lemma_opt_field::<OrderedMap<String>>(e, "outputs"@, v.outputs);
        lemma_opt_field::<Env>(e, "env"@, v.env);
        lemma_opt_field::<Defaults>(e, "defaults"@, v.defaults);
        lemma_opt_field::<u32>(e, "timeout-minutes"@, v.timeout_minutes);
        lemma_opt_field::<bool>(e, "continue-on-error"@, v.continue_on_error);
        lemma_opt_field::<Container>(e, "container"@, v.container);
        lemma_opt_field::<OrderedMap<Container>>(e, "services"@, v.services);
        lemma_opt_field::<Strategy>(e, "strategy"@, v.strategy);
        lemma_opt_field::<Vec<StepValue>>(e, "steps"@, v.steps);
        lemma_opt_field::<String>(e, "uses"@, v.uses);
        lemma_opt_field::<OrderedMap<Secret>>(e, "secrets"@, v.secrets);
        lemma_opt_field::<RetryStrategy>(e, "retry"@, v.retry);
        lemma_opt_field::<Artifacts>(e, "artifacts"@, v.artifacts);
    }

    fn to_tree(&self) -> (t: Tree) {
        broadcast use {lemma_record_empty, lemma_record_push};

        let m = record();
        let m = put_opt(m, "needs", &self.needs);
        let m = put_opt(m, "if", &self.if_condition);
        let m = put_opt(m, "name", &self.name);
        let m = put_opt(m, "runs-on", &self.runs_on);
        let m = put_opt(m, "permissions", &self.permissions);
        let m = put_opt(m, "environment", &self.environment);
        let m = put_opt(m, "concurrency", &self.concurrency);
        let m = put_opt(m, "outputs", &self.outputs);
        let m = put_opt(m, "env", &self.env);
        let m = put_opt(m, "defaults", &self.defaults);
        let m = put_opt(m, "timeout-minutes", &self.timeout_minutes);
        let m = put_opt(m, "continue-on-error", &self.continue_on_error);
        let m = put_opt(m, "container", &self.container);
        let m = put_opt(m, "services", &self.services);
        let m = put_opt(m, "strategy", &self.strategy);
        let m = put_opt(m, "steps", &self.steps);
        let m = put_opt(m, "uses", &self.uses);
        let m = put_opt(m, "secrets", &self.secrets);
        let m = put_opt(m, "retry", &self.retry);
        let m = put_opt(m, "artifacts", &self.artifacts);
        mapping(m)
    }

    fn from_tree(t: &Tree) -> (r: Result<Self, WorkflowError>) {
        match entries_of(t) {
            Some(m) => {
                let needs = get_opt::<Vec<String>>(m, "needs")?;
                let if_condition = get_opt::<Expression>(m, "if")?;
                let name = get_opt::<String>(m, "name")?;
                let runs_on = get_opt::<RunsOn>(m, "runs-on")?;
                let permissions = get_opt::<Permissions>(m, "permissions")?;
                let environment = get_opt::<Environment>(m, "environment")?;
                let concurrency = get_opt::<Concurrency>(m, "concurrency")?;
                let outputs = get_opt::<OrderedMap<String>>(m, "outputs")?;
                let env = get_opt::<Env>(m, "env")?;
                let defaults = get_opt::<Defaults>(m, "defaults")?;
                let timeout_minutes = get_opt::<u32>(m, "timeout-minutes")?;
                let continue_on_error = get_opt::<bool>(m, "continue-on-error")?;
                let container = get_opt::<Container>(m, "container")?;
                let services = get_opt::<OrderedMap<Container>>(m, "services")?;
                let strategy = get_opt::<Strategy>(m, "strategy")?;
                let steps = get_opt::<Vec<StepValue>>(m, "steps")?;
                let uses = get_opt::<String>(m, "uses")?;
                let secrets = get_opt::<OrderedMap<Secret>>(m, "secrets")?;
                let retry = get_opt::<RetryStrategy>(m, "retry")?;
                let artifacts = get_opt::<Artifacts>(m, "artifacts")?;
                Ok(
                    Job {
                        needs,
                        if_condition,
                        name,
                        runs_on,
                        permissions,
                        environment,
                        concurrency,
                        outputs,
                        env,
                        defaults,
                        timeout_minutes,
                        continue_on_error,
                        container,
                        services,
                        strategy,
                        steps,
                        uses,
                        secrets,
                        retry,
                        artifacts,
                    },
                )
            },
            None => Err(WorkflowError::Parse),
        }
    }
}


/// The items of `items` with `item` after them, where there are any.
pub open spec fn pushed<A>(items: Option<Seq<A>>, item: A) -> Seq<A> {
    match items {
        Some(s) => s.push(item),
        None => seq![item],
    }
}

/// The entries of `entries`, where there are any, after `value` was stored
/// under `key`.
pub open spec fn stored_in<A>(
    entries: Option<Seq<(Seq<char>, A)>>,
    key: Seq<char>,
    value: A,
) -> Seq<(Seq<char>, A)> {
    match entries {
        Some(e) => stored(e, key, value),
        None => stored(Seq::empty(), key, value),
    }
}

impl Default for Job {
    /// A job that runs on `ubuntu-latest` and has nothing else set.
    fn default() -> (r: Self)
        ensures
            r.deep_view() == (JobView {
                runs_on: Some(Node::Str("ubuntu-latest"@)),
                ..Self::blank()
            }),
    {
        Job {
            needs: None,
            if_condition: None,
            name: None,
            runs_on: Some(RunsOn::label("ubuntu-latest")),
            permissions: None,
            environment: None,
            concurrency: None,
            outputs: None,
            env: None,
            defaults: None,
            timeout_minutes: None,
            continue_on_error: None,
            container: None,
            services: None,
            strategy: None,
            steps: None,
            uses: None,
            secrets: None,
            retry: None,
            artifacts: None,
        }
    }
}

impl Job {
    /// A job with the name `name` that runs on `ubuntu-latest`.
    pub fn new(name: &str) -> (r: Self)
        ensures
            r.deep_view() == (JobView {
                name: Some(name@),
                runs_on: Some(Node::Str("ubuntu-latest"@)),
                ..Self::blank()
            }),
    {
        let mut r = Job::default();
        r.name = Some(name.to_owned());
        r
    }

    /// The job with `step` after its steps.
    pub fn add_step<T: StepType>(self, step: Step<T>) -> (r: Self)
        ensures
            r.deep_view() == (JobView {
                steps: Some(pushed(self.deep_view().steps, T::wrapped(step.deep_view()))),
                ..self.deep_view()
            }),
    {
        let mut r = self;
        let ghost before = r.steps.deep_view();
        let mut steps = match r.steps {
            Some(steps) => steps,
            None => Vec::new(),
        };
        let value = T::to_value(step);
        steps.push(value);
        assert(steps.deep_view() =~= pushed(before, value.deep_view()));
        r.steps = Some(steps);
        r
    }

    /// The job with the variables of `new_env` added to its own: a name that
    /// the job has keeps its place and gets the new value.
    pub fn add_env(self, new_env: Env) -> (r: Self)
        ensures
            r.deep_view() == (JobView {
                env: Some(
                    crate::step::extended(
                        match self.deep_view().env {
                            Some(e) => e,
                            None => Seq::empty(),
                        },
                        new_env.deep_view(),
                    ),
                ),
                ..self.deep_view()
            }),
    {
        let mut r = self;
        let env = match r.env {
            Some(env) => env,
            None => Env::new(),
        };
        r.env = Some(env.extend(new_env));
        r
    }

    /// The job with `job_id` after the jobs that it needs.
    pub fn add_needs(self, job_id: &str) -> (r: Self)
        ensures
            r.deep_view() == (JobView {
                needs: Some(pushed(self.deep_view().needs, job_id@)),
                ..self.deep_view()
            }),
    {
        let mut r = self;
        let ghost before = r.needs.deep_view();
        let mut needs = match r.needs {
            Some(needs) => needs,
            None => Vec::new(),
        };
        needs.push(job_id.to_owned());
        assert(needs.deep_view() =~= pushed(before, job_id@));
        r.needs = Some(needs);
        r
    }

    /// The job with the output `value` stored under `key`.
    pub fn add_output(self, key: &str, value: &str) -> (r: Self)
        ensures
            r.deep_view() == (JobView {
                outputs: Some(stored_in(self.deep_view().outputs, key@, value@)),
                ..self.deep_view()
            }),
    {
        let mut r = self;
        let outputs = match r.outputs {
            Some(outputs) => outputs,
            None => OrderedMap::empty(),
        };
        r.outputs = Some(outputs.put(key, value.to_owned()));
        r
    }

    /// The job with the service `service` stored under `key`.
    pub fn add_service(self, key: &str, service: Container) -> (r: Self)
        ensures
            r.deep_view() == (JobView {
                services: Some(stored_in(self.deep_view().services, key@, service.deep_view())),
                ..self.deep_view()
            }),
    {
        let mut r = self;
        let services = match r.services {
            Some(services) => services,
            None => OrderedMap::empty(),
        };
        r.services = Some(services.put(key, service));
        r
    }

    /// The job with the secret `secret` stored under `key`.
    pub fn add_secret(self, key: &str, secret: Secret) -> (r: Self)
        ensures
            r.deep_view() == (JobView {
                secrets: Some(stored_in(self.deep_view().secrets, key@, secret.deep_view())),
                ..self.deep_view()
            }),
    {
        let mut r = self;
        let secrets = match r.secrets {
            Some(secrets) => secrets,
            None => OrderedMap::empty(),
        };
        r.secrets = Some(secrets.put(key, secret));
        r
    }
}

} // verus!
