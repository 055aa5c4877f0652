//! The smaller entities that workflows, jobs and steps share: permissions,
//! concurrency, defaults, secrets, retries and artifacts.

use crate::codec::all_plain;
use crate::codec::entries_of;
use crate::codec::get_opt;
use crate::codec::get_req;
use crate::codec::lemma_opt_field;
use crate::codec::lemma_record;
use crate::codec::lemma_record_empty;
use crate::codec::lemma_record_push;
use crate::codec::lemma_req_field;
use crate::codec::mapping;
use crate::codec::opt_field;
use crate::codec::opt_node;
use crate::codec::opt_valid;
use crate::codec::plain_opt;
use crate::codec::put_opt;
use crate::codec::put_req;
use crate::codec::record;
use crate::codec::record_entries;
use crate::codec::req_field;
use crate::codec::Codec;
use crate::codec::Fields;
use crate::error::WorkflowError;
use crate::ordered_map::has_key;
use crate::ordered_map::lemma_position;
use crate::ordered_map::lookup;
use crate::text::same;
use crate::tree::plain;
use crate::tree::Node;
use crate::tree::Tree;
use vstd::prelude::*;

verus! {

/// How far an access reaches.
#[derive(Debug, Clone, Copy, PartialEq, Eq, Structural)]
pub enum PermissionLevel {
    Read,
    Write,
    NoAccess,
}

impl DeepView for PermissionLevel {
    type V = PermissionLevel;

    open spec fn deep_view(&self) -> PermissionLevel {
        *self
    }
}

impl PermissionLevel {
    /// The word that is written for the variant.
    pub open spec fn word(self) -> Seq<char> {
        match self {
            PermissionLevel::Read => "read"@,
            PermissionLevel::Write => "write"@,
            PermissionLevel::NoAccess => "none"@,
        }
    }

    /// The variant that a word stands for.
    pub open spec fn of_word(w: Seq<char>) -> Option<PermissionLevel> {
        if w == "read"@ {
            Some(PermissionLevel::Read)
        } else if w == "write"@ {
            Some(PermissionLevel::Write)
        } else if w == "none"@ {
            Some(PermissionLevel::NoAccess)
        } else {
            None
        }
    }

    /// Each variant is the one that its own word stands for.
    pub proof fn lemma_words(self)
        ensures
            Self::of_word(self.word()) == Some(self),
    {
        reveal_strlit("read");
        reveal_strlit("write");
        reveal_strlit("none");
        assert("read"@.len() == 4);
        assert("write"@.len() == 5);
        assert("none"@.len() == 4);
        assert("read"@[0] == 'r');
        assert("none"@[0] == 'n');
    }

    /// The word that is written for the variant.
    pub fn as_str(&self) -> (s: &'static str)
        ensures
            s@ == self.word(),
    {
        match self {
            PermissionLevel::Read => "read",
            PermissionLevel::Write => "write",
            PermissionLevel::NoAccess => "none",
        }
    }

    /// The variant that a word stands for.
    pub fn from_word(w: &str) -> (r: Option<PermissionLevel>)
        ensures
            r == Self::of_word(w@),
    {
        if same(w, "read") {
            Some(PermissionLevel::Read)
        } else if same(w, "write") {
            Some(PermissionLevel::Write)
        } else if same(w, "none") {
            Some(PermissionLevel::NoAccess)
        } else {
            None
        }
    }
}

impl Codec for PermissionLevel {
    /// The word of the variant, as a string.
    open spec fn encode(v: PermissionLevel) -> Node {
        Node::Str(v.word())
    }

    open spec fn decode(n: Node) -> Option<PermissionLevel> {
        match n {
            Node::Str(w) => Self::of_word(w),
            _ => None,
        }
    }

    open spec fn valid(v: PermissionLevel) -> bool {
        true
    }

    proof fn lemma_round_trip(v: PermissionLevel) {
        v.lemma_words();
    }

    fn to_tree(&self) -> (t: Tree) {
        Tree::String(self.as_str().to_owned())
    }

    fn from_tree(t: &Tree) -> (r: Result<Self, WorkflowError>) {
        match t {
            Tree::String(w) => match Self::from_word(w.as_str()) {
                Some(v) => Ok(v),
                None => Err(WorkflowError::Parse),
            },
            _ => Err(WorkflowError::Parse),
        }
    }
}

impl Default for PermissionLevel {
    /// No access.
    fn default() -> (r: Self)
        ensures
            r == PermissionLevel::NoAccess,
    {
        PermissionLevel::NoAccess
    }
}

/// An expression that the platform evaluates. The library does not look into
/// it.
#[derive(Debug, Clone, PartialEq, Eq, Default)]
pub struct Expression(pub String);

impl DeepView for Expression {
    type V = Seq<char>;

    open spec fn deep_view(&self) -> Seq<char> {
        self.0.deep_view()
    }
}

impl Codec for Expression {
    /// Written as what it holds.
    open spec fn encode(v: Seq<char>) -> Node {
        String::encode(v)
    }

    open spec fn decode(n: Node) -> Option<Seq<char>> {
        String::decode(n)
    }

    open spec fn valid(v: Seq<char>) -> bool {
        String::valid(v)
    }

    proof fn lemma_round_trip(v: Seq<char>) {
        String::lemma_round_trip(v);
    }

    fn to_tree(&self) -> (t: Tree) {
        self.0.to_tree()
    }

    fn from_tree(t: &Tree) -> (r: Result<Self, WorkflowError>) {
        match String::from_tree(t) {
            Ok(x) => Ok(Expression(x)),
            Err(e) => Err(e),
        }
    }
}

impl Expression {
    /// The expression with the text `expr`.
    pub fn new(expr: &str) -> (r: Self)
        ensures
            r.deep_view() == expr@,
    {
        Expression(expr.to_owned())
    }

    /// The text of the expression.
    pub fn as_str(&self) -> (s: &str)
        ensures
            s@ == self.deep_view(),
    {
        self.0.as_str()
    }
}

/// A concurrency group: of the runs that fall into one group only one runs at a
/// time.
#[derive(Debug, Clone, PartialEq, Eq)]
pub struct Concurrency {
    /// The name of the group.
    pub group: String,
    /// Whether a new run cancels the one in progress.
    pub cancel_in_progress: Option<bool>,
    /// How many runs of the group may run at once.
    pub limit: Option<u32>,
}

/// The model of `Concurrency`: every field as its own model.
pub struct ConcurrencyView {
    pub group: Seq<char>,
    pub cancel_in_progress: Option<bool>,
    pub limit: Option<u32>,
}

impl DeepView for Concurrency {
    type V = ConcurrencyView;

    open spec fn deep_view(&self) -> ConcurrencyView {
        ConcurrencyView {
            group: self.group.deep_view(),
            cancel_in_progress: self.cancel_in_progress.deep_view(),
            limit: self.limit.deep_view(),
        }
    }
}

impl Concurrency {
    /// The model of the entity with no field set: a field that is always
    /// there is empty.
    pub open spec fn blank() -> ConcurrencyView {
        ConcurrencyView {
            group: Seq::empty(),
            cancel_in_progress: None,
            limit: None,
        }
    }

    /// The fields with their keys, in the order in which they are written.
    pub open spec fn fields(v: ConcurrencyView) -> Fields {
        Seq::empty()
            .push(("group"@, Some(String::encode(v.group))))
            .push(("cancel-in-progress"@, opt_node::<bool>(v.cancel_in_progress)))
            .push(("limit"@, opt_node::<u32>(v.limit)))
    }

    /// The entries of the record: one for each field that is set.
    pub open spec fn entries(v: ConcurrencyView) -> Seq<(Seq<char>, Node)> {
        record_entries(Self::fields(v))
    }

    /// The place of a key among the fields, told by the length of the key
    /// and as many of its characters as it takes.
    pub open spec fn key_rank(k: Seq<char>) -> int {
        if k.len() == 5 && k[0] == 'g' {
            0
        } else if k.len() == 18 {
            1
        } else if k.len() == 5 && k[0] == 'l' {
            2
        } else {
            3
        }
    }

    /// In the entries of the record each key leads to its own field: to
    /// the field's tree where the field is set, and nowhere where it is not.
    /// The entries are plain where the trees of the fields are.
    pub proof fn lemma_fields(v: ConcurrencyView)
        ensures
            lookup(Self::entries(v), "group"@) == Some(String::encode(v.group)),
            lookup(Self::entries(v), "cancel-in-progress"@)
                == opt_node::<bool>(v.cancel_in_progress),
            lookup(Self::entries(v), "limit"@) == opt_node::<u32>(v.limit),
            ({
                &&& plain_opt(Some(String::encode(v.group)))
                &&& plain_opt(opt_node::<bool>(v.cancel_in_progress))
                &&& plain_opt(opt_node::<u32>(v.limit))
            }) ==> all_plain(Self::entries(v)),
    {
        reveal_strlit("group");
        reveal_strlit("cancel-in-progress");
        reveal_strlit("limit");
        assert("group"@.len() == 5);
        assert("cancel-in-progress"@.len() == 18);
        assert("limit"@.len() == 5);
        assert("group"@[0] == 'g');
        assert("limit"@[0] == 'l');
        let fields = Self::fields(v);
        assert(fields.len() == 3);
        assert(fields[0].0 == "group"@ && Self::key_rank(fields[0].0) == 0);
        assert(fields[1].0 == "cancel-in-progress"@ && Self::key_rank(fields[1].0) == 1);
        assert(fields[2].0 == "limit"@ && Self::key_rank(fields[2].0) == 2);
        lemma_record(fields, |k: Seq<char>| Self::key_rank(k));
        assert(fields[0].1 == Some(String::encode(v.group)));
        assert(fields[1].1 == opt_node::<bool>(v.cancel_in_progress));
        assert(fields[2].1 == opt_node::<u32>(v.limit));
    }

    /// Omission: the key of a field is among the entries of the record
    /// exactly where the field is set. A field that is always there is
    /// always set; a list, a text or a map is set where it is not empty, and
    /// a flag where it is up.
    pub proof fn lemma_omission(v: ConcurrencyView)
        ensures
            has_key(Self::entries(v), "group"@),
            has_key(Self::entries(v), "cancel-in-progress"@) <==> v.cancel_in_progress is Some,
            has_key(Self::entries(v), "limit"@) <==> v.limit is Some,
    {
        Self::lemma_fields(v);
        lemma_position(Self::entries(v), "group"@);
        lemma_position(Self::entries(v), "cancel-in-progress"@);
        lemma_position(Self::entries(v), "limit"@);
    }

    /// Sets `group` and leaves the other fields as they are.
    pub fn group(self, value: &str) -> (r: Self)
        ensures
            r.deep_view() == (ConcurrencyView { group: value@, ..self.deep_view() }),
    {
        let mut r = self;
        r.group = value.to_owned();
        r
    }

    /// Sets `cancel_in_progress` and leaves the other fields as they are.
    pub fn cancel_in_progress(self, value: bool) -> (r: Self)
        ensures
            r == (Concurrency { cancel_in_progress: Some(value), ..self }),
    {
        let mut r = self;
        r.cancel_in_progress = Some(value);
        r
    }

    /// Sets `limit` and leaves the other fields as they are.
    pub fn limit(self, value: u32) -> (r: Self)
        ensures
            r == (Concurrency { limit: Some(value), ..self }),
    {
        let mut r = self;
        r.limit = Some(value);
        r
    }
}

impl Codec for Concurrency {
    /// A mapping with one entry for each field that is set, in the order
    /// of the fields.
    open spec fn encode(v: ConcurrencyView) -> Node {
        Node::Dict(Self::entries(v))
    }

    /// Reads each field from the entry under its key. Entries under other
    /// keys are passed over.
    open spec fn decode(n: Node) -> Option<ConcurrencyView> {
        match n {
            Node::Dict(e) => {
                let group = req_field::<String>(e, "group"@);
                let cancel_in_progress = opt_field::<bool>(e, "cancel-in-progress"@);
                let limit = opt_field::<u32>(e, "limit"@);
                if {
                    &&& group is Some
                    &&& cancel_in_progress is Some
                    &&& limit is Some
                } {
                    Some(
                        ConcurrencyView {
                            group: group->Some_0,
                            cancel_in_progress: cancel_in_progress->Some_0,
                            limit: limit->Some_0,
                        },
                    )
                } else {
                    None
                }
            },
            _ => None,
        }
    }

    open spec fn valid(v: ConcurrencyView) -> bool {
        &&& String::valid(v.group)
        &&& opt_valid::<bool>(v.cancel_in_progress)
        &&& opt_valid::<u32>(v.limit)
    }

    proof fn lemma_round_trip(v: ConcurrencyView) {
        Self::lemma_fields(v);
        let e = Self::entries(v);
        lemma_req_field::<String>(e, "group"@, v.group);
        lemma_opt_field::<bool>(e, "cancel-in-progress"@, v.cancel_in_progress);
        lemma_opt_field::<u32>(e, "limit"@, v.limit);
    }

    fn to_tree(&self) -> (t: Tree) {
        broadcast use {lemma_record_empty, lemma_record_push};

        let m = record();
        let m = put_req(m, "group", &self.group);
        let m = put_opt(m, "cancel-in-progress", &self.cancel_in_progress);
        let m = put_opt(m, "limit", &self.limit);
        mapping(m)
    }

    fn from_tree(t: &Tree) -> (r: Result<Self, WorkflowError>) {
        match entries_of(t) {
            Some(m) => {
                let group = get_req::<String>(m, "group")?;
                let cancel_in_progress = get_opt::<bool>(m, "cancel-in-progress")?;
                let limit = get_opt::<u32>(m, "limit")?;
                Ok(Concurrency { group, cancel_in_progress, limit })
            },
            None => Err(WorkflowError::Parse),
        }
    }
}

impl Default for Concurrency {
    /// The entity with no field set.
    fn default() -> (r: Self)
        ensures
            r.deep_view() == Self::blank(),
    {
        let r = Concurrency {
            group: String::new(),
            cancel_in_progress: None,
            limit: None,
        };
        r
    }
}

/// What the token of a run may do, scope by scope.
#[derive(Debug, Clone, PartialEq, Eq)]
pub struct Permissions {
    /// Access to the actions of the repository.
    pub actions: Option<PermissionLevel>,
    /// Access to the contents of the repository.
    pub contents: Option<PermissionLevel>,
    /// Access to issues.
    pub issues: Option<PermissionLevel>,
    /// Access to pull requests.
    pub pull_requests: Option<PermissionLevel>,
    /// Access to deployments.
    pub deployments: Option<PermissionLevel>,
    /// Access to check runs and suites.
    pub checks: Option<PermissionLevel>,
    /// Access to commit statuses.
    pub statuses: Option<PermissionLevel>,
    /// Access to packages.
    pub packages: Option<PermissionLevel>,
    /// Access to pages.
    pub pages: Option<PermissionLevel>,
    /// Access to identity tokens.
    pub id_token: Option<PermissionLevel>,
}

/// The model of `Permissions`: every field as its own model.
pub struct PermissionsView {
    pub actions: Option<PermissionLevel>,
    pub contents: Option<PermissionLevel>,
    pub issues: Option<PermissionLevel>,
    pub pull_requests: Option<PermissionLevel>,
    pub deployments: Option<PermissionLevel>,
    pub checks: Option<PermissionLevel>,
    pub statuses: Option<PermissionLevel>,
    pub packages: Option<PermissionLevel>,
    pub pages: Option<PermissionLevel>,
    pub id_token: Option<PermissionLevel>,
}

impl DeepView for Permissions {
    type V = PermissionsView;

    open spec fn deep_view(&self) -> PermissionsView {
        PermissionsView {
            actions: self.actions.deep_view(),
            contents: self.contents.deep_view(),
            issues: self.issues.deep_view(),
            pull_requests: self.pull_requests.deep_view(),
            deployments: self.deployments.deep_view(),
            checks: self.checks.deep_view(),
            statuses: self.statuses.deep_view(),
            packages: self.packages.deep_view(),
            pages: self.pages.deep_view(),
            id_token: self.id_token.deep_view(),
        }
    }
}

impl Permissions {
    /// The model of the entity with no field set: a field that is always
    /// there is empty.
    pub open spec fn blank() -> PermissionsView {
        PermissionsView {
            actions: None,
            contents: None,
            issues: None,
            pull_requests: None,
            deployments: None,
            checks: None,
            statuses: None,
            packages: None,
            pages: None,
            id_token: None,
        }
    }

    /// The fields with their keys, in the order in which they are written.
    pub open spec fn fields(v: PermissionsView) -> Fields {
        Seq::empty()
            .push(("actions"@, opt_node::<PermissionLevel>(v.actions)))
            .push(("contents"@, opt_node::<PermissionLevel>(v.contents)))
            .push(("issues"@, opt_node::<PermissionLevel>(v.issues)))
            .push(("pull-requests"@, opt_node::<PermissionLevel>(v.pull_requests)))
            .push(("deployments"@, opt_node::<PermissionLevel>(v.deployments)))
            .push(("checks"@, opt_node::<PermissionLevel>(v.checks)))
            .push(("statuses"@, opt_node::<PermissionLevel>(v.statuses)))
            .push(("packages"@, opt_node::<PermissionLevel>(v.packages)))
            .push(("pages"@, opt_node::<PermissionLevel>(v.pages)))
            .push(("id-token"@, opt_node::<PermissionLevel>(v.id_token)))
    }

    /// The entries of the record: one for each field that is set.
    pub open spec fn entries(v: PermissionsView) -> Seq<(Seq<char>, Node)> {
        record_entries(Self::fields(v))
    }

    /// The place of a key among the fields, told by the length of the key
    /// and as many of its characters as it takes.
    pub open spec fn key_rank(k: Seq<char>) -> int {
        if k.len() == 7 {
            0
        } else if k.len() == 8 && k[0] == 'c' {
            1
        } else if k.len() == 6 && k[0] == 'i' {
            2
        } else if k.len() == 13 {
            3
        } else if k.len() == 11 {
            4
        } else if k.len() == 6 && k[0] == 'c' {
            5
        } else if k.len() == 8 && k[0] == 's' {
            6
        } else if k.len() == 8 && k[0] == 'p' {
            7
        } else if k.len() == 5 {
            8
        } else if k.len() == 8 && k[0] == 'i' {
            9
        } else {
            10
        }
    }

    /// In the entries of the record each key leads to its own field: to
    /// the field's tree where the field is set, and nowhere where it is not.
    /// The entries are plain where the trees of the fields are.
    pub proof fn lemma_fields(v: PermissionsView)
        ensures
            lookup(Self::entries(v), "actions"@) == opt_node::<PermissionLevel>(v.actions),
            lookup(Self::entries(v), "contents"@) == opt_node::<PermissionLevel>(v.contents),
            lookup(Self::entries(v), "issues"@) == opt_node::<PermissionLevel>(v.issues),
            lookup(Self::entries(v), "pull-requests"@)
                == opt_node::<PermissionLevel>(v.pull_requests),
            lookup(Self::entries(v), "deployments"@) == opt_node::<PermissionLevel>(v.deployments),
            lookup(Self::entries(v), "checks"@) == opt_node::<PermissionLevel>(v.checks),
            lookup(Self::entries(v), "statuses"@) == opt_node::<PermissionLevel>(v.statuses),
            lookup(Self::entries(v), "packages"@) == opt_node::<PermissionLevel>(v.packages),
            lookup(Self::entries(v), "pages"@) == opt_node::<PermissionLevel>(v.pages),
            lookup(Self::entries(v), "id-token"@) == opt_node::<PermissionLevel>(v.id_token),
            ({
                &&& plain_opt(opt_node::<PermissionLevel>(v.actions))
                &&& plain_opt(opt_node::<PermissionLevel>(v.contents))
                &&& plain_opt(opt_node::<PermissionLevel>(v.issues))
                &&& plain_opt(opt_node::<PermissionLevel>(v.pull_requests))
                &&& plain_opt(opt_node::<PermissionLevel>(v.deployments))
                &&& plain_opt(opt_node::<PermissionLevel>(v.checks))
                &&& plain_opt(opt_node::<PermissionLevel>(v.statuses))
                &&& plain_opt(opt_node::<PermissionLevel>(v.packages))
                &&& plain_opt(opt_node::<PermissionLevel>(v.pages))
                &&& plain_opt(opt_node::<PermissionLevel>(v.id_token))
            }) ==> all_plain(Self::entries(v)),
    {
        reveal_strlit("actions");
        reveal_strlit("contents");
        reveal_strlit("issues");
        reveal_strlit("pull-requests");
        reveal_strlit("deployments");
        reveal_strlit("checks");
        reveal_strlit("statuses");
        reveal_strlit("packages");
        reveal_strlit("pages");
        reveal_strlit("id-token");
        assert("actions"@.len() == 7);
        assert("contents"@.len() == 8);
        assert("issues"@.len() == 6);
        assert("pull-requests"@.len() == 13);
        assert("deployments"@.len() == 11);
        assert("checks"@.len() == 6);
        assert("statuses"@.len() == 8);
        assert("packages"@.len() == 8);
        assert("pages"@.len() == 5);
        assert("id-token"@.len() == 8);
        assert("contents"@[0] == 'c');
        assert("issues"@[0] == 'i');
        assert("checks"@[0] == 'c');
        assert("statuses"@[0] == 's');
        assert("packages"@[0] == 'p');
        assert("id-token"@[0] == 'i');
        let fields = Self::fields(v);
        assert(fields.len() == 10);
        assert(fields[0].0 == "actions"@ && Self::key_rank(fields[0].0) == 0);
        assert(fields[1].0 == "contents"@ && Self::key_rank(fields[1].0) == 1);
        assert(fields[2].0 == "issues"@ && Self::key_rank(fields[2].0) == 2);
        assert(fields[3].0 == "pull-requests"@ && Self::key_rank(fields[3].0) == 3);
        assert(fields[4].0 == "deployments"@ && Self::key_rank(fields[4].0) == 4);
        assert(fields[5].0 == "checks"@ && Self::key_rank(fields[5].0) == 5);
        assert(fields[6].0 == "statuses"@ && Self::key_rank(fields[6].0) == 6);
        assert(fields[7].0 == "packages"@ && Self::key_rank(fields[7].0) == 7);
        assert(fields[8].0 == "pages"@ && Self::key_rank(fields[8].0) == 8);
        assert(fields[9].0 == "id-token"@ && Self::key_rank(fields[9].0) == 9);
        lemma_record(fields, |k: Seq<char>| Self::key_rank(k));
        assert(fields[0].1 == opt_node::<PermissionLevel>(v.actions));
        assert(fields[1].1 == opt_node::<PermissionLevel>(v.contents));
        assert(fields[2].1 == opt_node::<PermissionLevel>(v.issues));
        assert(fields[3].1 == opt_node::<PermissionLevel>(v.pull_requests));
        assert(fields[4].1 == opt_node::<PermissionLevel>(v.deployments));
        assert(fields[5].1 == opt_node::<PermissionLevel>(v.checks));
        assert(fields[6].1 == opt_node::<PermissionLevel>(v.statuses));
        assert(fields[7].1 == opt_node::<PermissionLevel>(v.packages));
        assert(fields[8].1 == opt_node::<PermissionLevel>(v.pages));
        assert(fields[9].1 == opt_node::<PermissionLevel>(v.id_token));
    }

    /// Omission: the key of a field is among the entries of the record
    /// exactly where the field is set. A field that is always there is
    /// always set; a list, a text or a map is set where it is not empty, and
    /// a flag where it is up.
    pub proof fn lemma_omission(v: PermissionsView)
        ensures
            has_key(Self::entries(v), "actions"@) <==> v.actions is Some,
            has_key(Self::entries(v), "contents"@) <==> v.contents is Some,
            has_key(Self::entries(v), "issues"@) <==> v.issues is Some,
            has_key(Self::entries(v), "pull-requests"@) <==> v.pull_requests is Some,
            has_key(Self::entries(v), "deployments"@) <==> v.deployments is Some,
            has_key(Self::entries(v), "checks"@) <==> v.checks is Some,
            has_key(Self::entries(v), "statuses"@) <==> v.statuses is Some,
            has_key(Self::entries(v), "packages"@) <==> v.packages is Some,
            has_key(Self::entries(v), "pages"@) <==> v.pages is Some,
            has_key(Self::entries(v), "id-token"@) <==> v.id_token is Some,
    {
        Self::lemma_fields(v);
        lemma_position(Self::entries(v), "actions"@);
        lemma_position(Self::entries(v), "contents"@);
        lemma_position(Self::entries(v), "issues"@);
        lemma_position(Self::entries(v), "pull-requests"@);
        lemma_position(Self::entries(v), "deployments"@);
        lemma_position(Self::entries(v), "checks"@);
        lemma_position(Self::entries(v), "statuses"@);
        lemma_position(Self::entries(v), "packages"@);
        lemma_position(Self::entries(v), "pages"@);
        lemma_position(Self::entries(v), "id-token"@);
    }

    /// Sets `actions` and leaves the other fields as they are.
    pub fn actions(self, value: PermissionLevel) -> (r: Self)
        ensures
            r == (Permissions { actions: Some(value), ..self }),
    {
        let mut r = self;
        r.actions = Some(value);
        r
    }

    /// Sets `contents` and leaves the other fields as they are.
    pub fn contents(self, value: PermissionLevel) -> (r: Self)
        ensures
            r == (Permissions { contents: Some(value), ..self }),
    {
        let mut r = self;
        r.contents = Some(value);
        r
    }

    /// Sets `issues` and leaves the other fields as they are.
    pub fn issues(self, value: PermissionLevel) -> (r: Self)
        ensures
            r == (Permissions { issues: Some(value), ..self }),
    {
        let mut r = self;
        r.issues = Some(value);
        r
    }

    /// Sets `pull_requests` and leaves the other fields as they are.
    pub fn pull_requests(self, value: PermissionLevel) -> (r: Self)
        ensures
            r == (Permissions { pull_requests: Some(value), ..self }),
    {
        let mut r = self;
        r.pull_requests = Some(value);
        r
    }

    /// Sets `deployments` and leaves the other fields as they are.
    pub fn deployments(self, value: PermissionLevel) -> (r: Self)
        ensures
            r == (Permissions { deployments: Some(value), ..self }),
    {
        let mut r = self;
        r.deployments = Some(value);
        r
    }

    /// Sets `checks` and leaves the other fields as they are.
    pub fn checks(self, value: PermissionLevel) -> (r: Self)
        ensures
            r == (Permissions { checks: Some(value), ..self }),
    {
        let mut r = self;
        r.checks = Some(value);
        r
    }

    /// Sets `statuses` and leaves the other fields as they are.
    pub fn statuses(self, value: PermissionLevel) -> (r: Self)
        ensures
            r == (Permissions { statuses: Some(value), ..self }),
    {
        let mut r = self;
        r.statuses = Some(value);
        r
    }

    /// Sets `packages` and leaves the other fields as they are.
    pub fn packages(self, value: PermissionLevel) -> (r: Self)
        ensures
            r == (Permissions { packages: Some(value), ..self }),
    {
        let mut r = self;
        r.packages = Some(value);
        r
    }

    /// Sets `pages` and leaves the other fields as they are.
    pub fn pages(self, value: PermissionLevel) -> (r: Self)
        ensures
            r == (Permissions { pages: Some(value), ..self }),
    {
        let mut r = self;
        r.pages = Some(value);
        r
    }

    /// Sets `id_token` and leaves the other fields as they are.
    pub fn id_token(self, value: PermissionLevel) -> (r: Self)
        ensures
            r == (Permissions { id_token: Some(value), ..self }),
    {
        let mut r = self;
        r.id_token = Some(value);
        r
    }
}

impl Codec for Permissions {
    /// A mapping with one entry for each field that is set, in the order
    /// of the fields.
    open spec fn encode(v: PermissionsView) -> Node {
        Node::Dict(Self::entries(v))
    }

    /// Reads each field from the entry under its key. Entries under other
    /// keys are passed over.
    open spec fn decode(n: Node) -> Option<PermissionsView> {
        match n {
            Node::Dict(e) => {
                let actions = opt_field::<PermissionLevel>(e, "actions"@);
                let contents = opt_field::<PermissionLevel>(e, "contents"@);
                let issues = opt_field::<PermissionLevel>(e, "issues"@);
                let pull_requests = opt_field::<PermissionLevel>(e, "pull-requests"@);
                let deployments = opt_field::<PermissionLevel>(e, "deployments"@);
                let checks = opt_field::<PermissionLevel>(e, "checks"@);
                let statuses = opt_field::<PermissionLevel>(e, "statuses"@);
                let packages = opt_field::<PermissionLevel>(e, "packages"@);
                let pages = opt_field::<PermissionLevel>(e, "pages"@);
                let id_token = opt_field::<PermissionLevel>(e, "id-token"@);
                if {
                    &&& actions is Some
                    &&& contents is Some
                    &&& issues is Some
                    &&& pull_requests is Some
                    &&& deployments is Some
                    &&& checks is Some
                    &&& statuses is Some
                    &&& packages is Some
                    &&& pages is Some
                    &&& id_token is Some
                } {
                    Some(
                        PermissionsView {
                            actions: actions->Some_0,
                            contents: contents->Some_0,
                            issues: issues->Some_0,
                            pull_requests: pull_requests->Some_0,
                            deployments: deployments->Some_0,
                            checks: checks->Some_0,
                            statuses: statuses->Some_0,
                            packages: packages->Some_0,
                            pages: pages->Some_0,
                            id_token: id_token->Some_0,
                        },
                    )
                } else {
                    None
                }
            },
            _ => None,
        }
    }

    open spec fn valid(v: PermissionsView) -> bool {
        &&& opt_valid::<PermissionLevel>(v.actions)
        &&& opt_valid::<PermissionLevel>(v.contents)
        &&& opt_valid::<PermissionLevel>(v.issues)
        &&& opt_valid::<PermissionLevel>(v.pull_requests)
        &&& opt_valid::<PermissionLevel>(v.deployments)
        &&& opt_valid::<PermissionLevel>(v.checks)
        &&& opt_valid::<PermissionLevel>(v.statuses)
        &&& opt_valid::<PermissionLevel>(v.packages)
        &&& opt_valid::<PermissionLevel>(v.pages)
        &&& opt_valid::<PermissionLevel>(v.id_token)
    }

    proof fn lemma_round_trip(v: PermissionsView) {
        Self::lemma_fields(v);
        let e = Self::entries(v);
        lemma_opt_field::<PermissionLevel>(e, "actions"@, v.actions);
        lemma_opt_field::<PermissionLevel>(e, "contents"@, v.contents);
        lemma_opt_field::<PermissionLevel>(e, "issues"@, v.issues);
        lemma_opt_field::<PermissionLevel>(e, "pull-requests"@, v.pull_requests);
        lemma_opt_field::<PermissionLevel>(e, "deployments"@, v.deployments);
        lemma_opt_field::<PermissionLevel>(e, "checks"@, v.checks);
        lemma_opt_field::<PermissionLevel>(e, "statuses"@, v.statuses);
        lemma_opt_field::<PermissionLevel>(e, "packages"@, v.packages);
        lemma_opt_field::<PermissionLevel>(e, "pages"@, v.pages);
        lemma_opt_field::<PermissionLevel>(e, "id-token"@, v.id_token);
    }

    fn to_tree(&self) -> (t: Tree) {
        broadcast use {lemma_record_empty, lemma_record_push};

        let m = record();
        let m = put_opt(m, "actions", &self.actions);
        let m = put_opt(m, "contents", &self.contents);
        let m = put_opt(m, "issues", &self.issues);
        let m = put_opt(m, "pull-requests", &self.pull_requests);
        let m = put_opt(m, "deployments", &self.deployments);
        let m = put_opt(m, "checks", &self.checks);
        let m = put_opt(m, "statuses", &self.statuses);
        let m = put_opt(m, "packages", &self.packages);
        let m = put_opt(m, "pages", &self.pages);
        let m = put_opt(m, "id-token", &self.id_token);
        mapping(m)
    }

    fn from_tree(t: &Tree) -> (r: Result<Self, WorkflowError>) {
        match entries_of(t) {
            Some(m) => {
                let actions = get_opt::<PermissionLevel>(m, "actions")?;
                let contents = get_opt::<PermissionLevel>(m, "contents")?;
                let issues = get_opt::<PermissionLevel>(m, "issues")?;
                let pull_requests = get_opt::<PermissionLevel>(m, "pull-requests")?;
                let deployments = get_opt::<PermissionLevel>(m, "deployments")?;
                let checks = get_opt::<PermissionLevel>(m, "checks")?;
                let statuses = get_opt::<PermissionLevel>(m, "statuses")?;
                let packages = get_opt::<PermissionLevel>(m, "packages")?;
                let pages = get_opt::<PermissionLevel>(m, "pages")?;
                let id_token = get_opt::<PermissionLevel>(m, "id-token")?;
                Ok(
                    Permissions {
                        actions,
                        contents,
                        issues,
                        pull_requests,
                        deployments,
                        checks,
                        statuses,
                        packages,
                        pages,
                        id_token,
                    },
                )
            },
            None => Err(WorkflowError::Parse),
        }
    }
}

impl Default for Permissions {
    /// The entity with no field set.
    fn default() -> (r: Self)
        ensures
            r.deep_view() == Self::blank(),
    {
        let r = Permissions {
            actions: None,
            contents: None,
            issues: None,
            pull_requests: None,
            deployments: None,
            checks: None,
            statuses: None,
            packages: None,
            pages: None,
            id_token: None,
        };
        r
    }
}

impl Permissions {
    /// Permissions that let the contents be read, and say nothing else.
    pub fn read() -> (r: Self)
        ensures
            r.deep_view() == (PermissionsView {
                contents: Some(PermissionLevel::Read),
                ..Permissions::blank()
            }),
    {
        Permissions { contents: Some(PermissionLevel::Read), ..Permissions::default() }
    }

    /// Permissions that let the contents be written, and say nothing else.
    pub fn write() -> (r: Self)
        ensures
            r.deep_view() == (PermissionsView {
                contents: Some(PermissionLevel::Write),
                ..Permissions::blank()
            }),
    {
        Permissions { contents: Some(PermissionLevel::Write), ..Permissions::default() }
    }
}

/// How a job fans out over a matrix.
#[derive(Debug, Clone, PartialEq, Eq)]
pub struct Strategy {
    /// The matrix: a mapping from each variable to its values.
    pub matrix: Option<Tree>,
    /// Whether one failing run cancels the others.
    pub fail_fast: Option<bool>,
    /// How many runs of the matrix may run at once.
    pub max_parallel: Option<u32>,
}

/// The model of `Strategy`: every field as its own model.
pub struct StrategyView {
    pub matrix: Option<Node>,
    pub fail_fast: Option<bool>,
    pub max_parallel: Option<u32>,
}

impl DeepView for Strategy {
    type V = StrategyView;

    open spec fn deep_view(&self) -> StrategyView {
        StrategyView {
            matrix: self.matrix.deep_view(),
            fail_fast: self.fail_fast.deep_view(),
            max_parallel: self.max_parallel.deep_view(),
        }
    }
}

impl Strategy {
    /// The model of the entity with no field set: a field that is always
    /// there is empty.
    pub open spec fn blank() -> StrategyView {
        StrategyView {
            matrix: None,
            fail_fast: None,
            max_parallel: None,
        }
    }

    /// The fields with their keys, in the order in which they are written.
    pub open spec fn fields(v: StrategyView) -> Fields {
        Seq::empty()
            .push(("matrix"@, opt_node::<Tree>(v.matrix)))
            .push(("fail-fast"@, opt_node::<bool>(v.fail_fast)))
            .push(("max-parallel"@, opt_node::<u32>(v.max_parallel)))
    }

    /// The entries of the record: one for each field that is set.
    pub open spec fn entries(v: StrategyView) -> Seq<(Seq<char>, Node)> {
        record_entries(Self::fields(v))
    }

    /// The place of a key among the fields, told by the length of the key
    /// and as many of its characters as it takes.
    pub open spec fn key_rank(k: Seq<char>) -> int {
        if k.len() == 6 {
            0
        } else if k.len() == 9 {
            1
        } else if k.len() == 12 {
            2
        } else {
            3
        }
    }

    /// In the entries of the record each key leads to its own field: to
    /// the field's tree where the field is set, and nowhere where it is not.
    /// The entries are plain where the trees of the fields are.
    pub proof fn lemma_fields(v: StrategyView)
        ensures
            lookup(Self::entries(v), "matrix"@) == opt_node::<Tree>(v.matrix),
            lookup(Self::entries(v), "fail-fast"@) == opt_node::<bool>(v.fail_fast),
            lookup(Self::entries(v), "max-parallel"@) == opt_node::<u32>(v.max_parallel),
            ({
                &&& plain_opt(opt_node::<Tree>(v.matrix))
                &&& plain_opt(opt_node::<bool>(v.fail_fast))
                &&& plain_opt(opt_node::<u32>(v.max_parallel))
            }) ==> all_plain(Self::entries(v)),
    {
        reveal_strlit("matrix");
        reveal_strlit("fail-fast");
        reveal_strlit("max-parallel");
        assert("matrix"@.len() == 6);
        assert("fail-fast"@.len() == 9);
        assert("max-parallel"@.len() == 12);
        let fields = Self::fields(v);
        assert(fields.len() == 3);
        assert(fields[0].0 == "matrix"@ && Self::key_rank(fields[0].0) == 0);
        assert(fields[1].0 == "fail-fast"@ && Self::key_rank(fields[1].0) == 1);
        assert(fields[2].0 == "max-parallel"@ && Self::key_rank(fields[2].0) == 2);
        lemma_record(fields, |k: Seq<char>| Self::key_rank(k));
        assert(fields[0].1 == opt_node::<Tree>(v.matrix));
        assert(fields[1].1 == opt_node::<bool>(v.fail_fast));
        assert(fields[2].1 == opt_node::<u32>(v.max_parallel));
    }

    /// Omission: the key of a field is among the entries of the record
    /// exactly where the field is set. A field that is always there is
    /// always set; a list, a text or a map is set where it is not empty, and
    /// a flag where it is up.
    pub proof fn lemma_omission(v: StrategyView)
        ensures
            has_key(Self::entries(v), "matrix"@) <==> v.matrix is Some,
            has_key(Self::entries(v), "fail-fast"@) <==> v.fail_fast is Some,
            has_key(Self::entries(v), "max-parallel"@) <==> v.max_parallel is Some,
    {
        Self::lemma_fields(v);
        lemma_position(Self::entries(v), "matrix"@);
        lemma_position(Self::entries(v), "fail-fast"@);
        lemma_position(Self::entries(v), "max-parallel"@);
    }

    /// Sets `matrix` and leaves the other fields as they are.
    pub fn matrix(self, value: Tree) -> (r: Self)
        ensures
            r == (Strategy { matrix: Some(value), ..self }),
    {
        let mut r = self;
        r.matrix = Some(value);
        r
    }

    /// Sets `fail_fast` and leaves the other fields as they are.
    pub fn fail_fast(self, value: bool) -> (r: Self)
        ensures
            r == (Strategy { fail_fast: Some(value), ..self }),
    {
        let mut r = self;
        r.fail_fast = Some(value);
        r
    }

    /// Sets `max_parallel` and leaves the other fields as they are.
    pub fn max_parallel(self, value: u32) -> (r: Self)
        ensures
            r == (Strategy { max_parallel: Some(value), ..self }),
    {
        let mut r = self;
        r.max_parallel = Some(value);
        r
    }
}

impl Codec for Strategy {
    /// A mapping with one entry for each field that is set, in the order
    /// of the fields.
    open spec fn encode(v: StrategyView) -> Node {
        Node::Dict(Self::entries(v))
    }

    /// Reads each field from the entry under its key. Entries under other
    /// keys are passed over.
    open spec fn decode(n: Node) -> Option<StrategyView> {
        match n {
            Node::Dict(e) => {
                let matrix = opt_field::<Tree>(e, "matrix"@);
                let fail_fast = opt_field::<bool>(e, "fail-fast"@);
                let max_parallel = opt_field::<u32>(e, "max-parallel"@);
                if {
                    &&& matrix is Some
                    &&& fail_fast is Some
                    &&& max_parallel is Some
                } {
                    Some(
                        StrategyView {
                            matrix: matrix->Some_0,
                            fail_fast: fail_fast->Some_0,
                            max_parallel: max_parallel->Some_0,
                        },
                    )
                } else {
                    None
                }
            },
            _ => None,
        }
    }

    open spec fn valid(v: StrategyView) -> bool {
        &&& opt_valid::<Tree>(v.matrix)
        &&& opt_valid::<bool>(v.fail_fast)
        &&& opt_valid::<u32>(v.max_parallel)
    }

    proof fn lemma_round_trip(v: StrategyView) {
        Self::lemma_fields(v);
        let e = Self::entries(v);
        lemma_opt_field::<Tree>(e, "matrix"@, v.matrix);
        lemma_opt_field::<bool>(e, "fail-fast"@, v.fail_fast);
        lemma_opt_field::<u32>(e, "max-parallel"@, v.max_parallel);
    }

    fn to_tree(&self) -> (t: Tree) {
        broadcast use {lemma_record_empty, lemma_record_push};

        let m = record();
        let m = put_opt(m, "matrix", &self.matrix);
        let m = put_opt(m, "fail-fast", &self.fail_fast);
        let m = put_opt(m, "max-parallel", &self.max_parallel);
        mapping(m)
    }

    fn from_tree(t: &Tree) -> (r: Result<Self, WorkflowError>) {
        match entries_of(t) {
            Some(m) => {
                let matrix = get_opt::<Tree>(m, "matrix")?;
                let fail_fast = get_opt::<bool>(m, "fail-fast")?;
                let max_parallel = get_opt::<u32>(m, "max-parallel")?;
                Ok(Strategy { matrix, fail_fast, max_parallel })
            },
            None => Err(WorkflowError::Parse),
        }
    }
}

impl Default for Strategy {
    /// The entity with no field set.
    fn default() -> (r: Self)
        ensures
            r.deep_view() == Self::blank(),
    {
        let r = Strategy {
            matrix: None,
            fail_fast: None,
            max_parallel: None,
        };
        r
    }
}

/// The deployment environment that a job refers to.
#[derive(Debug, Clone, PartialEq, Eq)]
pub struct Environment {
    /// The name of the environment.
    pub name: String,
    /// The address of the deployment.
    pub url: Option<String>,
}

/// The model of `Environment`: every field as its own model.
pub struct EnvironmentView {
    pub name: Seq<char>,
    pub url: Option<Seq<char>>,
}

impl DeepView for Environment {
    type V = EnvironmentView;

    open spec fn deep_view(&self) -> EnvironmentView {
        EnvironmentView {
            name: self.name.deep_view(),
            url: self.url.deep_view(),
        }
    }
}

impl Environment {
    /// The model of the entity with no field set: a field that is always
    /// there is empty.
    pub open spec fn blank() -> EnvironmentView {
        EnvironmentView {
            name: Seq::empty(),
            url: None,
        }
    }

    /// The fields with their keys, in the order in which they are written.
    pub open spec fn fields(v: EnvironmentView) -> Fields {
        Seq::empty()
            .push(("name"@, Some(String::encode(v.name))))
            .push(("url"@, opt_node::<String>(v.url)))
    }

    /// The entries of the record: one for each field that is set.
    pub open spec fn entries(v: EnvironmentView) -> Seq<(Seq<char>, Node)> {
        record_entries(Self::fields(v))
    }

    /// The place of a key among the fields, told by the length of the key
    /// and as many of its characters as it takes.
    pub open spec fn key_rank(k: Seq<char>) -> int {
        if k.len() == 4 {
            0
        } else if k.len() == 3 {
            1
        } else {
            2
        }
    }

    /// In the entries of the record each key leads to its own field: to
    /// the field's tree where the field is set, and nowhere where it is not.
    /// The entries are plain where the trees of the fields are.
    pub proof fn lemma_fields(v: EnvironmentView)
        ensures
            lookup(Self::entries(v), "name"@) == Some(String::encode(v.name)),
            lookup(Self::entries(v), "url"@) == opt_node::<String>(v.url),
            ({
                &&& plain_opt(Some(String::encode(v.name)))
                &&& plain_opt(opt_node::<String>(v.url))
            }) ==> all_plain(Self::entries(v)),
    {
        reveal_strlit("name");
        reveal_strlit("url");
        assert("name"@.len() == 4);
        assert("url"@.len() == 3);
        let fields = Self::fields(v);
        assert(fields.len() == 2);
        assert(fields[0].0 == "name"@ && Self::key_rank(fields[0].0) == 0);
        assert(fields[1].0 == "url"@ && Self::key_rank(fields[1].0) == 1);
        lemma_record(fields, |k: Seq<char>| Self::key_rank(k));
        assert(fields[0].1 == Some(String::encode(v.name)));
        assert(fields[1].1 == opt_node::<String>(v.url));
    }

    /// Omission: the key of a field is among the entries of the record
    /// exactly where the field is set. A field that is always there is
    /// always set; a list, a text or a map is set where it is not empty, and
    /// a flag where it is up.
    pub proof fn lemma_omission(v: EnvironmentView)
        ensures
            has_key(Self::entries(v), "name"@),
            has_key(Self::entries(v), "url"@) <==> v.url is Some,
    {
        Self::lemma_fields(v);
        lemma_position(Self::entries(v), "name"@);
        lemma_position(Self::entries(v), "url"@);
    }

    /// Sets `name` and leaves the other fields as they are.
    pub fn name(self, value: &str) -> (r: Self)
        ensures
            r.deep_view() == (EnvironmentView { name: value@, ..self.deep_view() }),
    {
        let mut r = self;
        r.name = value.to_owned();
        r
    }

    /// Sets `url` and leaves the other fields as they are.
    pub fn url(self, value: &str) -> (r: Self)
        ensures
            r.deep_view() == (EnvironmentView { url: Some(value@), ..self.deep_view() }),
    {
        let mut r = self;
        r.url = Some(value.to_owned());
        r
    }
}

impl Codec for Environment {
    /// A mapping with one entry for each field that is set, in the order
    /// of the fields.
    open spec fn encode(v: EnvironmentView) -> Node {
        Node::Dict(Self::entries(v))
    }

    /// Reads each field from the entry under its key. Entries under other
    /// keys are passed over.
    open spec fn decode(n: Node) -> Option<EnvironmentView> {
        match n {
            Node::Dict(e) => {
                let name = req_field::<String>(e, "name"@);
                let url = opt_field::<String>(e, "url"@);
                if {
                    &&& name is Some
                    &&& url is Some
                } {
                    Some(
                        EnvironmentView {
                            name: name->Some_0,
                            url: url->Some_0,
                        },
                    )
                } else {
                    None
                }
            },
            _ => None,
        }
    }

    open spec fn valid(v: EnvironmentView) -> bool {
        &&& String::valid(v.name)
        &&& opt_valid::<String>(v.url)
    }

    proof fn lemma_round_trip(v: EnvironmentView) {
        Self::lemma_fields(v);
        let e = Self::entries(v);
        lemma_req_field::<String>(e, "name"@, v.name);
        lemma_opt_field::<String>(e, "url"@, v.url);
    }

    fn to_tree(&self) -> (t: Tree) {
        broadcast use {lemma_record_empty, lemma_record_push};

        let m = record();
        let m = put_req(m, "name", &self.name);
        let m = put_opt(m, "url", &self.url);
        mapping(m)
    }

    fn from_tree(t: &Tree) -> (r: Result<Self, WorkflowError>) {
        match entries_of(t) {
            Some(m) => {
                let name = get_req::<String>(m, "name")?;
                let url = get_opt::<String>(m, "url")?;
                Ok(Environment { name, url })
            },
            None => Err(WorkflowError::Parse),
        }
    }
}

impl Default for Environment {
    /// The entity with no field set.
    fn default() -> (r: Self)
        ensures
            r.deep_view() == Self::blank(),
    {
        let r = Environment {
            name: String::new(),
            url: None,
        };
        r
    }
}

/// Defaults for the steps that run a command.
#[derive(Debug, Clone, PartialEq, Eq)]
pub struct RunDefaults {
    /// The shell that runs the commands.
    pub shell: Option<String>,
    /// The directory in which the commands run.
    pub working_directory: Option<String>,
}

/// The model of `RunDefaults`: every field as its own model.
pub struct RunDefaultsView {
    pub shell: Option<Seq<char>>,
    pub working_directory: Option<Seq<char>>,
}

impl DeepView for RunDefaults {
    type V = RunDefaultsView;

    open spec fn deep_view(&self) -> RunDefaultsView {
        RunDefaultsView {
            shell: self.shell.deep_view(),
            working_directory: self.working_directory.deep_view(),
        }
    }
}

impl RunDefaults {
    /// The model of the entity with no field set: a field that is always
    /// there is empty.
    pub open spec fn blank() -> RunDefaultsView {
        RunDefaultsView {
            shell: None,
            working_directory: None,
        }
    }

    /// The fields with their keys, in the order in which they are written.
    pub open spec fn fields(v: RunDefaultsView) -> Fields {
        Seq::empty()
            .push(("shell"@, opt_node::<String>(v.shell)))
            .push(("working-directory"@, opt_node::<String>(v.working_directory)))
    }

    /// The entries of the record: one for each field that is set.
    pub open spec fn entries(v: RunDefaultsView) -> Seq<(Seq<char>, Node)> {
        record_entries(Self::fields(v))
    }

    /// The place of a key among the fields, told by the length of the key
    /// and as many of its characters as it takes.
    pub open spec fn key_rank(k: Seq<char>) -> int {
        if k.len() == 5 {
            0
        } else if k.len() == 17 {
            1
        } else {
            2
        }
    }

    /// In the entries of the record each key leads to its own field: to
    /// the field's tree where the field is set, and nowhere where it is not.
    /// The entries are plain where the trees of the fields are.
    pub proof fn lemma_fields(v: RunDefaultsView)
        ensures
            lookup(Self::entries(v), "shell"@) == opt_node::<String>(v.shell),
            lookup(Self::entries(v), "working-directory"@)
                == opt_node::<String>(v.working_directory),
            ({
                &&& plain_opt(opt_node::<String>(v.shell))
                &&& plain_opt(opt_node::<String>(v.working_directory))
            }) ==> all_plain(Self::entries(v)),
    {
        reveal_strlit("shell");
        reveal_strlit("working-directory");
        assert("shell"@.len() == 5);
        assert("working-directory"@.len() == 17);
        let fields = Self::fields(v);
        assert(fields.len() == 2);
        assert(fields[0].0 == "shell"@ && Self::key_rank(fields[0].0) == 0);
        assert(fields[1].0 == "working-directory"@ && Self::key_rank(fields[1].0) == 1);
        lemma_record(fields, |k: Seq<char>| Self::key_rank(k));
        assert(fields[0].1 == opt_node::<String>(v.shell));
        assert(fields[1].1 == opt_node::<String>(v.working_directory));
    }

    /// Omission: the key of a field is among the entries of the record
    /// exactly where the field is set. A field that is always there is
    /// always set; a list, a text or a map is set where it is not empty, and
    /// a flag where it is up.
    pub proof fn lemma_omission(v: RunDefaultsView)
        ensures
            has_key(Self::entries(v), "shell"@) <==> v.shell is Some,
            has_key(Self::entries(v), "working-directory"@) <==> v.working_directory is Some,
    {
        Self::lemma_fields(v);
        lemma_position(Self::entries(v), "shell"@);
        lemma_position(Self::entries(v), "working-directory"@);
    }

    /// Sets `shell` and leaves the other fields as they are.
    pub fn shell(self, value: &str) -> (r: Self)
        ensures
            r.deep_view() == (RunDefaultsView { shell: Some(value@), ..self.deep_view() }),
    {
        let mut r = self;
        r.shell = Some(value.to_owned());
        r
    }

    /// Sets `working_directory` and leaves the other fields as they are.
    pub fn working_directory(self, value: &str) -> (r: Self)
        ensures
            r.deep_view() ==
                (RunDefaultsView { working_directory: Some(value@), ..self.deep_view() }),
    {
        let mut r = self;
        r.working_directory = Some(value.to_owned());
        r
    }
}

impl Codec for RunDefaults {
    /// A mapping with one entry for each field that is set, in the order
    /// of the fields.
    open spec fn encode(v: RunDefaultsView) -> Node {
        Node::Dict(Self::entries(v))
    }

    /// Reads each field from the entry under its key. Entries under other
    /// keys are passed over.
    open spec fn decode(n: Node) -> Option<RunDefaultsView> {
        match n {
            Node::Dict(e) => {
                let shell = opt_field::<String>(e, "shell"@);
                let working_directory = opt_field::<String>(e, "working-directory"@);
                if {
                    &&& shell is Some
                    &&& working_directory is Some
                } {
                    Some(
                        RunDefaultsView {
                            shell: shell->Some_0,
                            working_directory: working_directory->Some_0,
                        },
                    )
                } else {
                    None
                }
            },
            _ => None,
        }
    }

    open spec fn valid(v: RunDefaultsView) -> bool {
        &&& opt_valid::<String>(v.shell)
        &&& opt_valid::<String>(v.working_directory)
    }

    proof fn lemma_round_trip(v: RunDefaultsView) {
        Self::lemma_fields(v);
        let e = Self::entries(v);
        lemma_opt_field::<String>(e, "shell"@, v.shell);
        lemma_opt_field::<String>(e, "working-directory"@, v.working_directory);
    }

    fn to_tree(&self) -> (t: Tree) {
        broadcast use {lemma_record_empty, lemma_record_push};

        let m = record();
        let m = put_opt(m, "shell", &self.shell);
        let m = put_opt(m, "working-directory", &self.working_directory);
        mapping(m)
    }

    fn from_tree(t: &Tree) -> (r: Result<Self, WorkflowError>) {
        match entries_of(t) {
            Some(m) => {
                let shell = get_opt::<String>(m, "shell")?;
                let working_directory = get_opt::<String>(m, "working-directory")?;
                Ok(RunDefaults { shell, working_directory })
            },
            None => Err(WorkflowError::Parse),
        }
    }
}

impl Default for RunDefaults {
    /// The entity with no field set.
    fn default() -> (r: Self)
        ensures
            r.deep_view() == Self::blank(),
    {
        let r = RunDefaults {
            shell: None,
            working_directory: None,
        };
        r
    }
}

/// Defaults for retrying.
#[derive(Debug, Clone, PartialEq, Eq)]
pub struct RetryDefaults {
    /// How often a step is tried at most.
    pub max_attempts: Option<u32>,
}

/// The model of `RetryDefaults`: every field as its own model.
pub struct RetryDefaultsView {
    pub max_attempts: Option<u32>,
}

impl DeepView for RetryDefaults {
    type V = RetryDefaultsView;

    open spec fn deep_view(&self) -> RetryDefaultsView {
        RetryDefaultsView {
            max_attempts: self.max_attempts.deep_view(),
        }
    }
}

impl RetryDefaults {
    /// The model of the entity with no field set: a field that is always
    /// there is empty.
    pub open spec fn blank() -> RetryDefaultsView {
        RetryDefaultsView {
            max_attempts: None,
        }
    }

    /// The fields with their keys, in the order in which they are written.
    pub open spec fn fields(v: RetryDefaultsView) -> Fields {
        Seq::empty()
            .push(("max-attempts"@, opt_node::<u32>(v.max_attempts)))
    }

    /// The entries of the record: one for each field that is set.
    pub open spec fn entries(v: RetryDefaultsView) -> Seq<(Seq<char>, Node)> {
        record_entries(Self::fields(v))
    }

    /// The place of a key among the fields, told by the length of the key
    /// and as many of its characters as it takes.
    pub open spec fn key_rank(k: Seq<char>) -> int {
        if k.len() == 12 {
            0
        } else {
            1
        }
    }

    /// In the entries of the record each key leads to its own field: to
    /// the field's tree where the field is set, and nowhere where it is not.
    /// The entries are plain where the trees of the fields are.
    pub proof fn lemma_fields(v: RetryDefaultsView)
        ensures
            lookup(Self::entries(v), "max-attempts"@) == opt_node::<u32>(v.max_attempts),
            ({
                &&& plain_opt(opt_node::<u32>(v.max_attempts))
            }) ==> all_plain(Self::entries(v)),
    {
        reveal_strlit("max-attempts");
        assert("max-attempts"@.len() == 12);
        let fields = Self::fields(v);
        assert(fields.len() == 1);
        assert(fields[0].0 == "max-attempts"@ && Self::key_rank(fields[0].0) == 0);
        lemma_record(fields, |k: Seq<char>| Self::key_rank(k));
        assert(fields[0].1 == opt_node::<u32>(v.max_attempts));
    }

    /// Omission: the key of a field is among the entries of the record
    /// exactly where the field is set. A field that is always there is
    /// always set; a list, a text or a map is set where it is not empty, and
    /// a flag where it is up.
    pub proof fn lemma_omission(v: RetryDefaultsView)
        ensures
            has_key(Self::entries(v), "max-attempts"@) <==> v.max_attempts is Some,
    {
        Self::lemma_fields(v);
        lemma_position(Self::entries(v), "max-attempts"@);
    }

    /// Sets `max_attempts` and leaves the other fields as they are.
    pub fn max_attempts(self, value: u32) -> (r: Self)
        ensures
            r == (RetryDefaults { max_attempts: Some(value), ..self }),
    {
        let mut r = self;
        r.max_attempts = Some(value);
        r
    }
}

impl Codec for RetryDefaults {
    /// A mapping with one entry for each field that is set, in the order
    /// of the fields.
    open spec fn encode(v: RetryDefaultsView) -> Node {
        Node::Dict(Self::entries(v))
    }

    /// Reads each field from the entry under its key. Entries under other
    /// keys are passed over.
    open spec fn decode(n: Node) -> Option<RetryDefaultsView> {
        match n {
            Node::Dict(e) => {
                let max_attempts = opt_field::<u32>(e, "max-attempts"@);
                if {
                    &&& max_attempts is Some
                } {
                    Some(
                        RetryDefaultsView {
                            max_attempts: max_attempts->Some_0,
                        },
                    )
                } else {
                    None
                }
            },
            _ => None,
        }
    }

    open spec fn valid(v: RetryDefaultsView) -> bool {
        opt_valid::<u32>(v.max_attempts)
    }

    proof fn lemma_round_trip(v: RetryDefaultsView) {
        Self::lemma_fields(v);
        let e = Self::entries(v);
        lemma_opt_field::<u32>(e, "max-attempts"@, v.max_attempts);
    }

    fn to_tree(&self) -> (t: Tree) {
        broadcast use {lemma_record_empty, lemma_record_push};

        let m = record();
        let m = put_opt(m, "max-attempts", &self.max_attempts);
        mapping(m)
    }

    fn from_tree(t: &Tree) -> (r: Result<Self, WorkflowError>) {
        match entries_of(t) {
            Some(m) => {
                let max_attempts = get_opt::<u32>(m, "max-attempts")?;
                Ok(RetryDefaults { max_attempts })
            },
            None => Err(WorkflowError::Parse),
        }
    }
}

impl Default for RetryDefaults {
    /// The entity with no field set.
    fn default() -> (r: Self)
        ensures
            r.deep_view() == Self::blank(),
    {
        let r = RetryDefaults {
            max_attempts: None,
        };
        r
    }
}

/// Settings that hold for every job of a workflow, or every step of a job.
#[derive(Debug, Clone, PartialEq, Eq)]
pub struct Defaults {
    /// Defaults for the steps that run a command.
    pub run: Option<RunDefaults>,
    /// Defaults for retrying.
    pub retry: Option<RetryDefaults>,
    /// The concurrency group.
    pub concurrency: Option<Concurrency>,
}

/// The model of `Defaults`: every field as its own model.
pub struct DefaultsView {
    pub run: Option<RunDefaultsView>,
    pub retry: Option<RetryDefaultsView>,
    pub concurrency: Option<ConcurrencyView>,
}

impl DeepView for Defaults {
    type V = DefaultsView;

    open spec fn deep_view(&self) -> DefaultsView {
        DefaultsView {
            run: self.run.deep_view(),
            retry: self.retry.deep_view(),
            concurrency: self.concurrency.deep_view(),
        }
    }
}

impl Defaults {
    /// The model of the entity with no field set: a field that is always
    /// there is empty.
    pub open spec fn blank() -> DefaultsView {
        DefaultsView {
            run: None,
            retry: None,
            concurrency: None,
        }
    }

    /// The fields with their keys, in the order in which they are written.
    pub open spec fn fields(v: DefaultsView) -> Fields {
        Seq::empty()
            .push(("run"@, opt_node::<RunDefaults>(v.run)))
            .push(("retry"@, opt_node::<RetryDefaults>(v.retry)))
            .push(("concurrency"@, opt_node::<Concurrency>(v.concurrency)))
    }

    /// The entries of the record: one for each field that is set.
    pub open spec fn entries(v: DefaultsView) -> Seq<(Seq<char>, Node)> {
        record_entries(Self::fields(v))
    }

    /// The place of a key among the fields, told by the length of the key
    /// and as many of its characters as it takes.
    pub open spec fn key_rank(k: Seq<char>) -> int {
        if k.len() == 3 {
            0
        } else if k.len() == 5 {
            1
        } else if k.len() == 11 {
            2
        } else {
            3
        }
    }

    /// In the entries of the record each key leads to its own field: to
    /// the field's tree where the field is set, and nowhere where it is not.
    /// The entries are plain where the trees of the fields are.
    pub proof fn lemma_fields(v: DefaultsView)
        ensures
            lookup(Self::entries(v), "run"@) == opt_node::<RunDefaults>(v.run),
            lookup(Self::entries(v), "retry"@) == opt_node::<RetryDefaults>(v.retry),
            lookup(Self::entries(v), "concurrency"@) == opt_node::<Concurrency>(v.concurrency),
            ({
                &&& plain_opt(opt_node::<RunDefaults>(v.run))
                &&& plain_opt(opt_node::<RetryDefaults>(v.retry))
                &&& plain_opt(opt_node::<Concurrency>(v.concurrency))
            }) ==> all_plain(Self::entries(v)),
    {
        reveal_strlit("run");
        reveal_strlit("retry");
        reveal_strlit("concurrency");
        assert("run"@.len() == 3);
        assert("retry"@.len() == 5);
        assert("concurrency"@.len() == 11);
        let fields = Self::fields(v);
        assert(fields.len() == 3);
        assert(fields[0].0 == "run"@ && Self::key_rank(fields[0].0) == 0);
        assert(fields[1].0 == "retry"@ && Self::key_rank(fields[1].0) == 1);
        assert(fields[2].0 == "concurrency"@ && Self::key_rank(fields[2].0) == 2);
        lemma_record(fields, |k: Seq<char>| Self::key_rank(k));
        assert(fields[0].1 == opt_node::<RunDefaults>(v.run));
        assert(fields[1].1 == opt_node::<RetryDefaults>(v.retry));
        assert(fields[2].1 == opt_node::<Concurrency>(v.concurrency));
    }

    /// Omission: the key of a field is among the entries of the record
    /// exactly where the field is set. A field that is always there is
    /// always set; a list, a text or a map is set where it is not empty, and
    /// a flag where it is up.
    pub proof fn lemma_omission(v: DefaultsView)
        ensures
            has_key(Self::entries(v), "run"@) <==> v.run is Some,
            has_key(Self::entries(v), "retry"@) <==> v.retry is Some,
            has_key(Self::entries(v), "concurrency"@) <==> v.concurrency is Some,
    {
        Self::lemma_fields(v);
        lemma_position(Self::entries(v), "run"@);
        lemma_position(Self::entries(v), "retry"@);
        lemma_position(Self::entries(v), "concurrency"@);
    }

    /// Sets `run` and leaves the other fields as they are.
    pub fn run(self, value: RunDefaults) -> (r: Self)
        ensures
            r == (Defaults { run: Some(value), ..self }),
    {
        let mut r = self;
        r.run = Some(value);
        r
    }

    /// Sets `retry` and leaves the other fields as they are.
    pub fn retry(self, value: RetryDefaults) -> (r: Self)
        ensures
            r == (Defaults { retry: Some(value), ..self }),
    {
        let mut r = self;
        r.retry = Some(value);
        r
    }

    /// Sets `concurrency` and leaves the other fields as they are.
    pub fn concurrency(self, value: Concurrency) -> (r: Self)
        ensures
            r == (Defaults { concurrency: Some(value), ..self }),
    {
        let mut r = self;
        r.concurrency = Some(value);
        r
    }
}

impl Codec for Defaults {
    /// A mapping with one entry for each field that is set, in the order
    /// of the fields.
    open spec fn encode(v: DefaultsView) -> Node {
        Node::Dict(Self::entries(v))
    }

    /// Reads each field from the entry under its key. Entries under other
    /// keys are passed over.
    open spec fn decode(n: Node) -> Option<DefaultsView> {
        match n {
            Node::Dict(e) => {
                let run = opt_field::<RunDefaults>(e, "run"@);
                let retry = opt_field::<RetryDefaults>(e, "retry"@);
                let concurrency = opt_field::<Concurrency>(e, "concurrency"@);
                if {
                    &&& run is Some
                    &&& retry is Some
                    &&& concurrency is Some
                } {
                    Some(
                        DefaultsView {
                            run: run->Some_0,
                            retry: retry->Some_0,
                            concurrency: concurrency->Some_0,
                        },
                    )
                } else {
                    None
                }
            },
            _ => None,
        }
    }

    open spec fn valid(v: DefaultsView) -> bool {
        &&& opt_valid::<RunDefaults>(v.run)
        &&& opt_valid::<RetryDefaults>(v.retry)
        &&& opt_valid::<Concurrency>(v.concurrency)
    }

    proof fn lemma_round_trip(v: DefaultsView) {
        Self::lemma_fields(v);
        let e = Self::entries(v);
        lemma_opt_field::<RunDefaults>(e, "run"@, v.run);
        lemma_opt_field::<RetryDefaults>(e, "retry"@, v.retry);
        lemma_opt_field::<Concurrency>(e, "concurrency"@, v.concurrency);
    }

    fn to_tree(&self) -> (t: Tree) {
        broadcast use {lemma_record_empty, lemma_record_push};

        let m = record();
        let m = put_opt(m, "run", &self.run);
        let m = put_opt(m, "retry", &self.retry);
        let m = put_opt(m, "concurrency", &self.concurrency);
        mapping(m)
    }

    fn from_tree(t: &Tree) -> (r: Result<Self, WorkflowError>) {
        match entries_of(t) {
            Some(m) => {
                let run = get_opt::<RunDefaults>(m, "run")?;
                let retry = get_opt::<RetryDefaults>(m, "retry")?;
                let concurrency = get_opt::<Concurrency>(m, "concurrency")?;
                Ok(Defaults { run, retry, concurrency })
            },
            None => Err(WorkflowError::Parse),
        }
    }
}

impl Default for Defaults {
    /// The entity with no field set.
    fn default() -> (r: Self)
        ensures
            r.deep_view() == Self::blank(),
    {
        let r = Defaults {
            run: None,
            retry: None,
            concurrency: None,
        };
        r
    }
}

/// A secret that a workflow declares.
#[derive(Debug, Clone, PartialEq, Eq)]
pub struct Secret {
    /// Whether a caller must supply the secret.
    pub required: bool,
    /// What the secret is for.
    pub description: Option<String>,
}

/// The model of `Secret`: every field as its own model.
pub struct SecretView {
    pub required: bool,
    pub description: Option<Seq<char>>,
}

impl DeepView for Secret {
    type V = SecretView;

    open spec fn deep_view(&self) -> SecretView {
        SecretView {
            required: self.required.deep_view(),
            description: self.description.deep_view(),
        }
    }
}

impl Secret {
    /// The model of the entity with no field set: a field that is always
    /// there is empty.
    pub open spec fn blank() -> SecretView {
        SecretView {
            required: false,
            description: None,
        }
    }

    /// The fields with their keys, in the order in which they are written.
    pub open spec fn fields(v: SecretView) -> Fields {
        Seq::empty()
            .push(("required"@, Some(bool::encode(v.required))))
            .push(("description"@, opt_node::<String>(v.description)))
    }

    /// The entries of the record: one for each field that is set.
    pub open spec fn entries(v: SecretView) -> Seq<(Seq<char>, Node)> {
        record_entries(Self::fields(v))
    }

    /// The place of a key among the fields, told by the length of the key
    /// and as many of its characters as it takes.
    pub open spec fn key_rank(k: Seq<char>) -> int {
        if k.len() == 8 {
            0
        } else if k.len() == 11 {
            1
        } else {
            2
        }
    }

    /// In the entries of the record each key leads to its own field: to
    /// the field's tree where the field is set, and nowhere where it is not.
    /// The entries are plain where the trees of the fields are.
    pub proof fn lemma_fields(v: SecretView)
        ensures
            lookup(Self::entries(v), "required"@) == Some(bool::encode(v.required)),
            lookup(Self::entries(v), "description"@) == opt_node::<String>(v.description),
            ({
                &&& plain_opt(Some(bool::encode(v.required)))
                &&& plain_opt(opt_node::<String>(v.description))
            }) ==> all_plain(Self::entries(v)),
    {
        reveal_strlit("required");
        reveal_strlit("description");
        assert("required"@.len() == 8);
        assert("description"@.len() == 11);
        let fields = Self::fields(v);
        assert(fields.len() == 2);
        assert(fields[0].0 == "required"@ && Self::key_rank(fields[0].0) == 0);
        assert(fields[1].0 == "description"@ && Self::key_rank(fields[1].0) == 1);
        lemma_record(fields, |k: Seq<char>| Self::key_rank(k));
        assert(fields[0].1 == Some(bool::encode(v.required)));
        assert(fields[1].1 == opt_node::<String>(v.description));
    }

    /// Omission: the key of a field is among the entries of the record
    /// exactly where the field is set. A field that is always there is
    /// always set; a list, a text or a map is set where it is not empty, and
    /// a flag where it is up.
    pub proof fn lemma_omission(v: SecretView)
        ensures
            has_key(Self::entries(v), "required"@),
            has_key(Self::entries(v), "description"@) <==> v.description is Some,
    {
        Self::lemma_fields(v);
        lemma_position(Self::entries(v), "required"@);
        lemma_position(Self::entries(v), "description"@);
    }

    /// Sets `required` and leaves the other fields as they are.
    pub fn required(self, value: bool) -> (r: Self)
        ensures
            r == (Secret { required: value, ..self }),
    {
        let mut r = self;
        r.required = value;
        r
    }

    /// Sets `description` and leaves the other fields as they are.
    pub fn description(self, value: &str) -> (r: Self)
        ensures
            r.deep_view() == (SecretView { description: Some(value@), ..self.deep_view() }),
    {
        let mut r = self;
        r.description = Some(value.to_owned());
        r
    }
}

impl Codec for Secret {
    /// A mapping with one entry for each field that is set, in the order
    /// of the fields.
    open spec fn encode(v: SecretView) -> Node {
        Node::Dict(Self::entries(v))
    }

    /// Reads each field from the entry under its key. Entries under other
    /// keys are passed over.
    open spec fn decode(n: Node) -> Option<SecretView> {
        match n {
            Node::Dict(e) => {
                let required = req_field::<bool>(e, "required"@);
                let description = opt_field::<String>(e, "description"@);
                if {
                    &&& required is Some
                    &&& description is Some
                } {
                    Some(
                        SecretView {
                            required: required->Some_0,
                            description: description->Some_0,
                        },
                    )
                } else {
                    None
                }
            },
            _ => None,
        }
    }

    open spec fn valid(v: SecretView) -> bool {
        &&& bool::valid(v.required)
        &&& opt_valid::<String>(v.description)
    }

    proof fn lemma_round_trip(v: SecretView) {
        Self::lemma_fields(v);
        let e = Self::entries(v);
        lemma_req_field::<bool>(e, "required"@, v.required);
        lemma_opt_field::<String>(e, "description"@, v.description);
    }

    fn to_tree(&self) -> (t: Tree) {
        broadcast use {lemma_record_empty, lemma_record_push};

        let m = record();
        let m = put_req(m, "required", &self.required);
        let m = put_opt(m, "description", &self.description);
        mapping(m)
    }

    fn from_tree(t: &Tree) -> (r: Result<Self, WorkflowError>) {
        match entries_of(t) {
            Some(m) => {
                let required = get_req::<bool>(m, "required")?;
                let description = get_opt::<String>(m, "description")?;
                Ok(Secret { required, description })
            },
            None => Err(WorkflowError::Parse),
        }
    }
}

impl Default for Secret {
    /// The entity with no field set.
    fn default() -> (r: Self)
        ensures
            r.deep_view() == Self::blank(),
    {
        let r = Secret {
            required: false,
            description: None,
        };
        r
    }
}

/// How often a job or step is tried again.
#[derive(Debug, Clone, PartialEq, Eq)]
pub struct RetryStrategy {
    /// How often it is tried at most.
    pub max_attempts: Option<u32>,
}

/// The model of `RetryStrategy`: every field as its own model.
pub struct RetryStrategyView {
    pub max_attempts: Option<u32>,
}

impl DeepView for RetryStrategy {
    type V = RetryStrategyView;

    open spec fn deep_view(&self) -> RetryStrategyView {
        RetryStrategyView {
            max_attempts: self.max_attempts.deep_view(),
        }
    }
}

impl RetryStrategy {
    /// The model of the entity with no field set: a field that is always
    /// there is empty.
    pub open spec fn blank() -> RetryStrategyView {
        RetryStrategyView {
            max_attempts: None,
        }
    }

    /// The fields with their keys, in the order in which they are written.
    pub open spec fn fields(v: RetryStrategyView) -> Fields {
        Seq::empty()
            .push(("max-attempts"@, opt_node::<u32>(v.max_attempts)))
    }

    /// The entries of the record: one for each field that is set.
    pub open spec fn entries(v: RetryStrategyView) -> Seq<(Seq<char>, Node)> {
        record_entries(Self::fields(v))
    }

    /// The place of a key among the fields, told by the length of the key
    /// and as many of its characters as it takes.
    pub open spec fn key_rank(k: Seq<char>) -> int {
        if k.len() == 12 {
            0
        } else {
            1
        }
    }

    /// In the entries of the record each key leads to its own field: to
    /// the field's tree where the field is set, and nowhere where it is not.
    /// The entries are plain where the trees of the fields are.
    pub proof fn lemma_fields(v: RetryStrategyView)
        ensures
            lookup(Self::entries(v), "max-attempts"@) == opt_node::<u32>(v.max_attempts),
            ({
                &&& plain_opt(opt_node::<u32>(v.max_attempts))
            }) ==> all_plain(Self::entries(v)),
    {
        reveal_strlit("max-attempts");
        assert("max-attempts"@.len() == 12);
        let fields = Self::fields(v);
        assert(fields.len() == 1);
        assert(fields[0].0 == "max-attempts"@ && Self::key_rank(fields[0].0) == 0);
        lemma_record(fields, |k: Seq<char>| Self::key_rank(k));
        assert(fields[0].1 == opt_node::<u32>(v.max_attempts));
    }

    /// Omission: the key of a field is among the entries of the record
    /// exactly where the field is set. A field that is always there is
    /// always set; a list, a text or a map is set where it is not empty, and
    /// a flag where it is up.
    pub proof fn lemma_omission(v: RetryStrategyView)
        ensures
            has_key(Self::entries(v), "max-attempts"@) <==> v.max_attempts is Some,
    {
        Self::lemma_fields(v);
        lemma_position(Self::entries(v), "max-attempts"@);
    }

    /// Sets `max_attempts` and leaves the other fields as they are.
    pub fn max_attempts(self, value: u32) -> (r: Self)
        ensures
            r == (RetryStrategy { max_attempts: Some(value), ..self }),
    {
        let mut r = self;
        r.max_attempts = Some(value);
        r
    }
}

impl Codec for RetryStrategy {
    /// A mapping with one entry for each field that is set, in the order
    /// of the fields.
    open spec fn encode(v: RetryStrategyView) -> Node {
        Node::Dict(Self::entries(v))
    }

    /// Reads each field from the entry under its key. Entries under other
    /// keys are passed over.
    open spec fn decode(n: Node) -> Option<RetryStrategyView> {
        match n {
            Node::Dict(e) => {
                let max_attempts = opt_field::<u32>(e, "max-attempts"@);
                if {
                    &&& max_attempts is Some
                } {
                    Some(
                        RetryStrategyView {
                            max_attempts: max_attempts->Some_0,
                        },
                    )
                } else {
                    None
                }
            },
            _ => None,
        }
    }

    open spec fn valid(v: RetryStrategyView) -> bool {
        opt_valid::<u32>(v.max_attempts)
    }

    proof fn lemma_round_trip(v: RetryStrategyView) {
        Self::lemma_fields(v);
        let e = Self::entries(v);
        lemma_opt_field::<u32>(e, "max-attempts"@, v.max_attempts);
    }

    fn to_tree(&self) -> (t: Tree) {
        broadcast use {lemma_record_empty, lemma_record_push};

        let m = record();
        let m = put_opt(m, "max-attempts", &self.max_attempts);
        mapping(m)
    }

    fn from_tree(t: &Tree) -> (r: Result<Self, WorkflowError>) {
        match entries_of(t) {
            Some(m) => {
                let max_attempts = get_opt::<u32>(m, "max-attempts")?;
                Ok(RetryStrategy { max_attempts })
            },
            None => Err(WorkflowError::Parse),
        }
    }
}

impl Default for RetryStrategy {
    /// The entity with no field set.
    fn default() -> (r: Self)
        ensures
            r.deep_view() == Self::blank(),
    {
        let r = RetryStrategy {
            max_attempts: None,
        };
        r
    }
}

/// A file or directory that is kept after a run or fetched before one.
#[derive(Debug, Clone, PartialEq, Eq)]
pub struct Artifact {
    /// The name of the artifact.
    pub name: String,
    /// The path of the file or directory.
    pub path: String,
    /// For how many days the artifact is kept.
    pub retention_days: Option<u32>,
}

/// The model of `Artifact`: every field as its own model.
pub struct ArtifactView {
    pub name: Seq<char>,
    pub path: Seq<char>,
    pub retention_days: Option<u32>,
}

impl DeepView for Artifact {
    type V = ArtifactView;

    open spec fn deep_view(&self) -> ArtifactView {
        ArtifactView {
            name: self.name.deep_view(),
            path: self.path.deep_view(),
            retention_days: self.retention_days.deep_view(),
        }
    }
}

impl Artifact {
    /// The model of the entity with no field set: a field that is always
    /// there is empty.
    pub open spec fn blank() -> ArtifactView {
        ArtifactView {
            name: Seq::empty(),
            path: Seq::empty(),
            retention_days: None,
        }
    }

    /// The fields with their keys, in the order in which they are written.
    pub open spec fn fields(v: ArtifactView) -> Fields {
        Seq::empty()
            .push(("name"@, Some(String::encode(v.name))))
            .push(("path"@, Some(String::encode(v.path))))
            .push(("retention-days"@, opt_node::<u32>(v.retention_days)))
    }

    /// The entries of the record: one for each field that is set.
    pub open spec fn entries(v: ArtifactView) -> Seq<(Seq<char>, Node)> {
        record_entries(Self::fields(v))
    }

    /// The place of a key among the fields, told by the length of the key
    /// and as many of its characters as it takes.
    pub open spec fn key_rank(k: Seq<char>) -> int {
        if k.len() == 4 && k[0] == 'n' {
            0
        } else if k.len() == 4 && k[0] == 'p' {
            1
        } else if k.len() == 14 {
            2
        } else {
            3
        }
    }

    /// In the entries of the record each key leads to its own field: to
    /// the field's tree where the field is set, and nowhere where it is not.
    /// The entries are plain where the trees of the fields are.
    pub proof fn lemma_fields(v: ArtifactView)
        ensures
            lookup(Self::entries(v), "name"@) == Some(String::encode(v.name)),
            lookup(Self::entries(v), "path"@) == Some(String::encode(v.path)),
            lookup(Self::entries(v), "retention-days"@) == opt_node::<u32>(v.retention_days),
            ({
                &&& plain_opt(Some(String::encode(v.name)))
                &&& plain_opt(Some(String::encode(v.path)))
                &&& plain_opt(opt_node::<u32>(v.retention_days))
            }) ==> all_plain(Self::entries(v)),
    {
        reveal_strlit("name");
        reveal_strlit("path");
        reveal_strlit("retention-days");
        assert("name"@.len() == 4);
        assert("path"@.len() == 4);
        assert("retention-days"@.len() == 14);
        assert("name"@[0] == 'n');
        assert("path"@[0] == 'p');
        let fields = Self::fields(v);
        assert(fields.len() == 3);
        assert(fields[0].0 == "name"@ && Self::key_rank(fields[0].0) == 0);
        assert(fields[1].0 == "path"@ && Self::key_rank(fields[1].0) == 1);
        assert(fields[2].0 == "retention-days"@ && Self::key_rank(fields[2].0) == 2);
        lemma_record(fields, |k: Seq<char>| Self::key_rank(k));
        assert(fields[0].1 == Some(String::encode(v.name)));
        assert(fields[1].1 == Some(String::encode(v.path)));
        assert(fields[2].1 == opt_node::<u32>(v.retention_days));
    }

    /// Omission: the key of a field is among the entries of the record
    /// exactly where the field is set. A field that is always there is
    /// always set; a list, a text or a map is set where it is not empty, and
    /// a flag where it is up.
    pub proof fn lemma_omission(v: ArtifactView)
        ensures
            has_key(Self::entries(v), "name"@),
            has_key(Self::entries(v), "path"@),
            has_key(Self::entries(v), "retention-days"@) <==> v.retention_days is Some,
    {
        Self::lemma_fields(v);
        lemma_position(Self::entries(v), "name"@);
        lemma_position(Self::entries(v), "path"@);
        lemma_position(Self::entries(v), "retention-days"@);
    }

    /// Sets `name` and leaves the other fields as they are.
    pub fn name(self, value: &str) -> (r: Self)
        ensures
            r.deep_view() == (ArtifactView { name: value@, ..self.deep_view() }),
    {
        let mut r = self;
        r.name = value.to_owned();
        r
    }

    /// Sets `path` and leaves the other fields as they are.
    pub fn path(self, value: &str) -> (r: Self)
        ensures
            r.deep_view() == (ArtifactView { path: value@, ..self.deep_view() }),
    {
        let mut r = self;
        r.path = value.to_owned();
        r
    }

    /// Sets `retention_days` and leaves the other fields as they are.
    pub fn retention_days(self, value: u32) -> (r: Self)
        ensures
            r == (Artifact { retention_days: Some(value), ..self }),
    {
        let mut r = self;
        r.retention_days = Some(value);
        r
    }
}

impl Codec for Artifact {
    /// A mapping with one entry for each field that is set, in the order
    /// of the fields.
    open spec fn encode(v: ArtifactView) -> Node {
        Node::Dict(Self::entries(v))
    }

    /// Reads each field from the entry under its key. Entries under other
    /// keys are passed over.
    open spec fn decode(n: Node) -> Option<ArtifactView> {
        match n {
            Node::Dict(e) => {
                let name = req_field::<String>(e, "name"@);
                let path = req_field::<String>(e, "path"@);
                let retention_days = opt_field::<u32>(e, "retention-days"@);
                if {
                    &&& name is Some
                    &&& path is Some
                    &&& retention_days is Some
                } {
                    Some(
                        ArtifactView {
                            name: name->Some_0,
                            path: path->Some_0,
                            retention_days: retention_days->Some_0,
                        },
                    )
                } else {
                    None
                }
            },
            _ => None,
        }
    }

    open spec fn valid(v: ArtifactView) -> bool {
        &&& String::valid(v.name)
        &&& String::valid(v.path)
        &&& opt_valid::<u32>(v.retention_days)
    }

    proof fn lemma_round_trip(v: ArtifactView) {
        Self::lemma_fields(v);
        let e = Self::entries(v);
        lemma_req_field::<String>(e, "name"@, v.name);
        lemma_req_field::<String>(e, "path"@, v.path);
        lemma_opt_field::<u32>(e, "retention-days"@, v.retention_days);
    }

    fn to_tree(&self) -> (t: Tree) {
        broadcast use {lemma_record_empty, lemma_record_push};

        let m = record();
        let m = put_req(m, "name", &self.name);
        let m = put_req(m, "path", &self.path);
        let m = put_opt(m, "retention-days", &self.retention_days);
        mapping(m)
    }

    fn from_tree(t: &Tree) -> (r: Result<Self, WorkflowError>) {
        match entries_of(t) {
            Some(m) => {
                let name = get_req::<String>(m, "name")?;
                let path = get_req::<String>(m, "path")?;
                let retention_days = get_opt::<u32>(m, "retention-days")?;
                Ok(Artifact { name, path, retention_days })
            },
            None => Err(WorkflowError::Parse),
        }
    }
}

impl Default for Artifact {
    /// The entity with no field set.
    fn default() -> (r: Self)
        ensures
            r.deep_view() == Self::blank(),
    {
        let r = Artifact {
            name: String::new(),
            path: String::new(),
            retention_days: None,
        };
        r
    }
}

/// The artifacts that a job or step uploads and downloads.
#[derive(Debug, Clone, PartialEq, Eq)]
pub struct Artifacts {
    /// The artifacts to upload.
    pub upload: Option<Vec<Artifact>>,
    /// The artifacts to download.
    pub download: Option<Vec<Artifact>>,
}

/// The model of `Artifacts`: every field as its own model.
pub struct ArtifactsView {
    pub upload: Option<Seq<ArtifactView>>,
    pub download: Option<Seq<ArtifactView>>,
}

impl DeepView for Artifacts {
    type V = ArtifactsView;

    open spec fn deep_view(&self) -> ArtifactsView {
        ArtifactsView {
            upload: self.upload.deep_view(),
            download: self.download.deep_view(),
        }
    }
}

impl Artifacts {
    /// The model of the entity with no field set: a field that is always
    /// there is empty.
    pub open spec fn blank() -> ArtifactsView {
        ArtifactsView {
            upload: None,
            download: None,
        }
    }

    /// The fields with their keys, in the order in which they are written.
    pub open spec fn fields(v: ArtifactsView) -> Fields {
        Seq::empty()
            .push(("upload"@, opt_node::<Vec<Artifact>>(v.upload)))
            .push(("download"@, opt_node::<Vec<Artifact>>(v.download)))
    }

    /// The entries of the record: one for each field that is set.
    pub open spec fn entries(v: ArtifactsView) -> Seq<(Seq<char>, Node)> {
        record_entries(Self::fields(v))
    }

    /// The place of a key among the fields, told by the length of the key
    /// and as many of its characters as it takes.
    pub open spec fn key_rank(k: Seq<char>) -> int {
        if k.len() == 6 {
            0
        } else if k.len() == 8 {
            1
        } else {
            2
        }
    }

    /// In the entries of the record each key leads to its own field: to
    /// the field's tree where the field is set, and nowhere where it is not.
    /// The entries are plain where the trees of the fields are.
    pub proof fn lemma_fields(v: ArtifactsView)
        ensures
            lookup(Self::entries(v), "upload"@) == opt_node::<Vec<Artifact>>(v.upload),
            lookup(Self::entries(v), "download"@) == opt_node::<Vec<Artifact>>(v.download),
            ({
                &&& plain_opt(opt_node::<Vec<Artifact>>(v.upload))
                &&& plain_opt(opt_node::<Vec<Artifact>>(v.download))
            }) ==> all_plain(Self::entries(v)),
    {
        reveal_strlit("upload");
        reveal_strlit("download");
        assert("upload"@.len() == 6);
        assert("download"@.len() == 8);
        let fields = Self::fields(v);
        assert(fields.len() == 2);
        assert(fields[0].0 == "upload"@ && Self::key_rank(fields[0].0) == 0);
        assert(fields[1].0 == "download"@ && Self::key_rank(fields[1].0) == 1);
        lemma_record(fields, |k: Seq<char>| Self::key_rank(k));
        assert(fields[0].1 == opt_node::<Vec<Artifact>>(v.upload));
        assert(fields[1].1 == opt_node::<Vec<Artifact>>(v.download));
    }

    /// Omission: the key of a field is among the entries of the record
    /// exactly where the field is set. A field that is always there is
    /// always set; a list, a text or a map is set where it is not empty, and
    /// a flag where it is up.
    pub proof fn lemma_omission(v: ArtifactsView)
        ensures
            has_key(Self::entries(v), "upload"@) <==> v.upload is Some,
            has_key(Self::entries(v), "download"@) <==> v.download is Some,
    {
        Self::lemma_fields(v);
        lemma_position(Self::entries(v), "upload"@);
        lemma_position(Self::entries(v), "download"@);
    }

    /// Sets `upload` and leaves the other fields as they are.
    pub fn upload(self, value: Vec<Artifact>) -> (r: Self)
        ensures
            r == (Artifacts { upload: Some(value), ..self }),
    {
        let mut r = self;
        r.upload = Some(value);
        r
    }

    /// Sets `download` and leaves the other fields as they are.
    pub fn download(self, value: Vec<Artifact>) -> (r: Self)
        ensures
            r == (Artifacts { download: Some(value), ..self }),
    {
        let mut r = self;
        r.download = Some(value);
        r
    }
}

impl Codec for Artifacts {
    /// A mapping with one entry for each field that is set, in the order
    /// of the fields.
    open spec fn encode(v: ArtifactsView) -> Node {
        Node::Dict(Self::entries(v))
    }

    /// Reads each field from the entry under its key. Entries under other
    /// keys are passed over.
    open spec fn decode(n: Node) -> Option<ArtifactsView> {
        match n {
            Node::Dict(e) => {
                let upload = opt_field::<Vec<Artifact>>(e, "upload"@);
                let download = opt_field::<Vec<Artifact>>(e, "download"@);
                if {
                    &&& upload is Some
                    &&& download is Some
                } {
                    Some(
                        ArtifactsView {
                            upload: upload->Some_0,
                            download: download->Some_0,
                        },
                    )
                } else {
                    None
                }
            },
            _ => None,
        }
    }

    open spec fn valid(v: ArtifactsView) -> bool {
        &&& opt_valid::<Vec<Artifact>>(v.upload)
        &&& opt_valid::<Vec<Artifact>>(v.download)
    }

    proof fn lemma_round_trip(v: ArtifactsView) {
        Self::lemma_fields(v);
        let e = Self::entries(v);
        lemma_opt_field::<Vec<Artifact>>(e, "upload"@, v.upload);
        lemma_opt_field::<Vec<Artifact>>(e, "download"@, v.download);
    }

    fn to_tree(&self) -> (t: Tree) {
        broadcast use {lemma_record_empty, lemma_record_push};

        let m = record();
        let m = put_opt(m, "upload", &self.upload);
        let m = put_opt(m, "download", &self.download);
        mapping(m)
    }

    fn from_tree(t: &Tree) -> (r: Result<Self, WorkflowError>) {
        match entries_of(t) {
            Some(m) => {
                let upload = get_opt::<Vec<Artifact>>(m, "upload")?;
                let download = get_opt::<Vec<Artifact>>(m, "download")?;
                Ok(Artifacts { upload, download })
            },
            None => Err(WorkflowError::Parse),
        }
    }
}

impl Default for Artifacts {
    /// The entity with no field set.
    fn default() -> (r: Self)
        ensures
            r.deep_view() == Self::blank(),
    {
        let r = Artifacts {
            upload: None,
            download: None,
        };
        r
    }
}

} // verus!
