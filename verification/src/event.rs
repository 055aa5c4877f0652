//! The events that start a workflow, in typed form.

use crate::codec::all_plain;
use crate::codec::entries_of;
use crate::codec::flag_field;
use crate::codec::flag_node;
use crate::codec::get_flag;
use crate::codec::get_map;
use crate::codec::get_text;
use crate::codec::lemma_flag_field;
use crate::codec::lemma_map_field;
use crate::codec::lemma_text_field;
use crate::codec::map_field;
use crate::codec::map_node;
use crate::codec::put_flag;
use crate::codec::put_map;
use crate::codec::put_text;
use crate::codec::text_field;
use crate::codec::text_node;
use crate::codec::get_list;
use crate::codec::get_opt;
use crate::codec::get_req;
use crate::codec::lemma_list_field;
use crate::codec::lemma_opt_field;
use crate::codec::lemma_record;
use crate::codec::lemma_record_empty;
use crate::codec::lemma_record_push;
use crate::codec::lemma_req_field;
use crate::codec::list_field;
use crate::codec::list_node;
use crate::codec::mapping;
use crate::codec::opt_field;
use crate::codec::opt_node;
use crate::codec::opt_valid;
use crate::codec::plain_opt;
use crate::codec::put_list;
use crate::codec::put_opt;
use crate::codec::put_req;
use crate::codec::record;
use crate::codec::record_entries;
use crate::codec::req_field;
use crate::codec::Codec;
use crate::codec::Fields;
use crate::error::WorkflowError;
use crate::ordered_map::has_key;
use crate::ordered_map::lemma_position;
use crate::ordered_map::lookup;
use crate::ordered_map::OrderedMap;
use crate::text::same;
use crate::tree::plain;
use crate::tree::Node;
use crate::tree::Tree;
use vstd::prelude::*;

verus! {

/// The events that start a workflow, each with what it is limited to. An event
/// that is not set does not start the workflow.
#[derive(Debug, Clone, PartialEq, Eq)]
pub struct Event {
    /// A branch protection rule changed.
    pub branch_protection_rule: Option<BranchProtectionRule>,
    /// A check run changed.
    pub check_run: Option<CheckRun>,
    /// A check suite changed.
    pub check_suite: Option<CheckSuite>,
    /// A branch or a tag was created.
    pub create: Option<Create>,
    /// A branch or a tag was deleted.
    pub delete: Option<Delete>,
    /// A deployment was created.
    pub deployment: Option<Deployment>,
    /// The status of a deployment changed.
    pub deployment_status: Option<DeploymentStatus>,
    /// A discussion changed.
    pub discussion: Option<Discussion>,
    /// A comment on a discussion changed.
    pub discussion_comment: Option<DiscussionComment>,
    /// Someone forked the repository.
    pub fork: Option<bool>,
    /// Someone changed a page of the wiki.
    pub gollum: Option<bool>,
    /// A comment on an issue changed.
    pub issue_comment: Option<IssueComment>,
    /// An issue changed.
    pub issues: Option<Issues>,
    /// A label changed.
    pub label: Option<Label>,
    /// A merge group changed.
    pub merge_group: Option<MergeGroup>,
    /// A milestone changed.
    pub milestone: Option<Milestone>,
    /// Someone pushed to the branch that the pages are built from.
    pub page_build: Option<bool>,
    /// The repository became public.
    pub public: Option<bool>,
    /// A pull request changed.
    pub pull_request: Option<PullRequest>,
    /// A review of a pull request changed.
    pub pull_request_review: Option<PullRequestReview>,
    /// A comment on a review of a pull request changed.
    pub pull_request_review_comment: Option<PullRequestReviewComment>,
    /// A pull request changed, seen from the branch that it targets.
    pub pull_request_target: Option<PullRequestTarget>,
    /// Commits or tags were pushed.
    pub push: Option<Push>,
    /// A package of the registry changed.
    pub registry_package: Option<RegistryPackage>,
    /// A release changed.
    pub release: Option<Release>,
    /// An event that someone sent to the repository from outside.
    pub repository_dispatch: Option<RepositoryDispatch>,
    /// A time of the clock.
    pub schedule: Option<Schedule>,
    /// The status of a commit changed.
    pub status: Option<bool>,
    /// Someone starred the repository.
    pub watch: Option<Watch>,
    /// Another workflow called this one.
    pub workflow_call: Option<WorkflowCall>,
    /// Someone started the workflow by hand.
    pub workflow_dispatch: Option<WorkflowDispatch>,
    /// A run of another workflow changed.
    pub workflow_run: Option<WorkflowRun>,
}

/// The model of `Event`: every field as its own model.
pub struct EventView {
    pub branch_protection_rule: Option<BranchProtectionRuleView>,
    pub check_run: Option<CheckRunView>,
    pub check_suite: Option<CheckSuiteView>,
    pub create: Option<CreateView>,
    pub delete: Option<DeleteView>,
    pub deployment: Option<DeploymentView>,
    pub deployment_status: Option<DeploymentStatusView>,
    pub discussion: Option<DiscussionView>,
    pub discussion_comment: Option<DiscussionCommentView>,
    pub fork: Option<bool>,
    pub gollum: Option<bool>,
    pub issue_comment: Option<IssueCommentView>,
    pub issues: Option<IssuesView>,
    pub label: Option<LabelView>,
    pub merge_group: Option<MergeGroupView>,
    pub milestone: Option<MilestoneView>,
    pub page_build: Option<bool>,
    pub public: Option<bool>,
    pub pull_request: Option<PullRequestView>,
    pub pull_request_review: Option<PullRequestReviewView>,
    pub pull_request_review_comment: Option<PullRequestReviewCommentView>,
    pub pull_request_target: Option<PullRequestTargetView>,
    pub push: Option<PushView>,
    pub registry_package: Option<RegistryPackageView>,
    pub release: Option<ReleaseView>,
    pub repository_dispatch: Option<RepositoryDispatchView>,
    pub schedule: Option<ScheduleView>,
    pub status: Option<bool>,
    pub watch: Option<WatchView>,
    pub workflow_call: Option<WorkflowCallView>,
    pub workflow_dispatch: Option<WorkflowDispatchView>,
    pub workflow_run: Option<WorkflowRunView>,
}

impl DeepView for Event {
    type V = EventView;

    open spec fn deep_view(&self) -> EventView {
        EventView {
            branch_protection_rule: self.branch_protection_rule.deep_view(),
            check_run: self.check_run.deep_view(),
            check_suite: self.check_suite.deep_view(),
            create: self.create.deep_view(),
            delete: self.delete.deep_view(),
            deployment: self.deployment.deep_view(),
            deployment_status: self.deployment_status.deep_view(),
            discussion: self.discussion.deep_view(),
            discussion_comment: self.discussion_comment.deep_view(),
            fork: self.fork.deep_view(),
            gollum: self.gollum.deep_view(),
            issue_comment: self.issue_comment.deep_view(),
            issues: self.issues.deep_view(),
            label: self.label.deep_view(),
            merge_group: self.merge_group.deep_view(),
            milestone: self.milestone.deep_view(),
            page_build: self.page_build.deep_view(),
            public: self.public.deep_view(),
            pull_request: self.pull_request.deep_view(),
            pull_request_review: self.pull_request_review.deep_view(),
            pull_request_review_comment: self.pull_request_review_comment.deep_view(),
            pull_request_target: self.pull_request_target.deep_view(),
            push: self.push.deep_view(),
            registry_package: self.registry_package.deep_view(),
            release: self.release.deep_view(),
            repository_dispatch: self.repository_dispatch.deep_view(),
            schedule: self.schedule.deep_view(),
            status: self.status.deep_view(),
            watch: self.watch.deep_view(),
            workflow_call: self.workflow_call.deep_view(),
            workflow_dispatch: self.workflow_dispatch.deep_view(),
            workflow_run: self.workflow_run.deep_view(),
        }
    }
}

impl Event {
    /// The model of the entity with no field set: a field that is always
    /// there is empty.
    pub open spec fn blank() -> EventView {
        EventView {
            branch_protection_rule: None,
            check_run: None,
            check_suite: None,
            create: None,
            delete: None,
            deployment: None,
            deployment_status: None,
            discussion: None,
            discussion_comment: None,
            fork: None,
            gollum: None,
            issue_comment: None,
            issues: None,
            label: None,
            merge_group: None,
            milestone: None,
            page_build: None,
            public: None,
            pull_request: None,
            pull_request_review: None,
            pull_request_review_comment: None,
            pull_request_target: None,
            push: None,
            registry_package: None,
            release: None,
            repository_dispatch: None,
            schedule: None,
            status: None,
            watch: None,
            workflow_call: None,
            workflow_dispatch: None,
            workflow_run: None,
        }
    }

    /// The fields with their keys, in the order in which they are written.
    pub open spec fn fields(v: EventView) -> Fields {
        Seq::empty()
            .push(
                ("branch_protection_rule"@, opt_node::<BranchProtectionRule>(v.branch_protection_rule)),
            )
            .push(("check_run"@, opt_node::<CheckRun>(v.check_run)))
            .push(("check_suite"@, opt_node::<CheckSuite>(v.check_suite)))
            .push(("create"@, opt_node::<Create>(v.create)))
            .push(("delete"@, opt_node::<Delete>(v.delete)))
            .push(("deployment"@, opt_node::<Deployment>(v.deployment)))
            .push(("deployment_status"@, opt_node::<DeploymentStatus>(v.deployment_status)))
            .push(("discussion"@, opt_node::<Discussion>(v.discussion)))
            .push(("discussion_comment"@, opt_node::<DiscussionComment>(v.discussion_comment)))
            .push(("fork"@, opt_node::<bool>(v.fork)))
            .push(("gollum"@, opt_node::<bool>(v.gollum)))
            .push(("issue_comment"@, opt_node::<IssueComment>(v.issue_comment)))
            .push(("issues"@, opt_node::<Issues>(v.issues)))
            .push(("label"@, opt_node::<Label>(v.label)))
            .push(("merge_group"@, opt_node::<MergeGroup>(v.merge_group)))
            .push(("milestone"@, opt_node::<Milestone>(v.milestone)))
            .push(("page_build"@, opt_node::<bool>(v.page_build)))
            .push(("public"@, opt_node::<bool>(v.public)))
            .push(("pull_request"@, opt_node::<PullRequest>(v.pull_request)))
            .push(("pull_request_review"@, opt_node::<PullRequestReview>(v.pull_request_review)))
            .push(
                ("pull_request_review_comment"@, opt_node::<PullRequestReviewComment>(v.pull_request_review_comment)),
            )
            .push(("pull_request_target"@, opt_node::<PullRequestTarget>(v.pull_request_target)))
            .push(("push"@, opt_node::<Push>(v.push)))
            .push(("registry_package"@, opt_node::<RegistryPackage>(v.registry_package)))
            .push(("release"@, opt_node::<Release>(v.release)))
            .push(("repository_dispatch"@, opt_node::<RepositoryDispatch>(v.repository_dispatch)))
            .push(("schedule"@, opt_node::<Schedule>(v.schedule)))
            .push(("status"@, opt_node::<bool>(v.status)))
            .push(("watch"@, opt_node::<Watch>(v.watch)))
            .push(("workflow_call"@, opt_node::<WorkflowCall>(v.workflow_call)))
            .push(("workflow_dispatch"@, opt_node::<WorkflowDispatch>(v.workflow_dispatch)))
            .push(("workflow_run"@, opt_node::<WorkflowRun>(v.workflow_run)))
    }

    /// The entries of the record: one for each field that is set.
    pub open spec fn entries(v: EventView) -> Seq<(Seq<char>, Node)> {
        record_entries(Self::fields(v))
    }

    /// The place of a key among the fields, told by the length of the key
    /// and as many of its characters as it takes.
    pub open spec fn key_rank(k: Seq<char>) -> int {
        if k.len() == 22 {
            0
        } else if k.len() == 9 && k[0] == 'c' {
            1
        } else if k.len() == 11 && k[0] == 'c' {
            2
        } else if k.len() == 6 && k[0] == 'c' {
            3
        } else if k.len() == 6 && k[0] == 'd' {
            4
        } else if k.len() == 10 && k[1] == 'e' {
            5
        } else if k.len() == 17 && k[0] == 'd' {
            6
        } else if k.len() == 10 && k[1] == 'i' {
            7
        } else if k.len() == 18 {
            8
        } else if k.len() == 4 && k[0] == 'f' {
            9
        } else if k.len() == 6 && k[0] == 'g' {
            10
        } else if k.len() == 13 && k[0] == 'i' {
            11
        } else if k.len() == 6 && k[0] == 'i' {
            12
        } else if k.len() == 5 && k[0] == 'l' {
            13
        } else if k.len() == 11 && k[0] == 'm' {
            14
        } else if k.len() == 9 && k[0] == 'm' {
            15
        } else if k.len() == 10 && k[0] == 'p' {
            16
        } else if k.len() == 6 && k[0] == 'p' {
            17
        } else if k.len() == 12 && k[0] == 'p' {
            18
        } else if k.len() == 19 && k[13] == 'r' {
            19
        } else if k.len() == 27 {
            20
        } else if k.len() == 19 && k[13] == 't' {
            21
        } else if k.len() == 4 && k[0] == 'p' {
            22
        } else if k.len() == 16 {
            23
        } else if k.len() == 7 {
            24
        } else if k.len() == 19 && k[0] == 'r' {
            25
        } else if k.len() == 8 {
            26
        } else if k.len() == 6 && k[0] == 's' {
            27
        } else if k.len() == 5 && k[0] == 'w' {
            28
        } else if k.len() == 13 && k[0] == 'w' {
            29
        } else if k.len() == 17 && k[0] == 'w' {
            30
        } else if k.len() == 12 && k[0] == 'w' {
            31
        } else {
            32
        }
    }

    /// In the entries of the record each key leads to its own field: to
    /// the field's tree where the field is set, and nowhere where it is not.
    /// The entries are plain where the trees of the fields are.
    pub proof fn lemma_fields(v: EventView)
        ensures
            lookup(Self::entries(v), "branch_protection_rule"@)
                == opt_node::<BranchProtectionRule>(v.branch_protection_rule),
            lookup(Self::entries(v), "check_run"@) == opt_node::<CheckRun>(v.check_run),
            lookup(Self::entries(v), "check_suite"@) == opt_node::<CheckSuite>(v.check_suite),
            lookup(Self::entries(v), "create"@) == opt_node::<Create>(v.create),
            lookup(Self::entries(v), "delete"@) == opt_node::<Delete>(v.delete),
            lookup(Self::entries(v), "deployment"@) == opt_node::<Deployment>(v.deployment),
            lookup(Self::entries(v), "deployment_status"@)
                == opt_node::<DeploymentStatus>(v.deployment_status),
            lookup(Self::entries(v), "discussion"@) == opt_node::<Discussion>(v.discussion),
            lookup(Self::entries(v), "discussion_comment"@)
                == opt_node::<DiscussionComment>(v.discussion_comment),
            lookup(Self::entries(v), "fork"@) == opt_node::<bool>(v.fork),
            lookup(Self::entries(v), "gollum"@) == opt_node::<bool>(v.gollum),
            lookup(Self::entries(v), "issue_comment"@) == opt_node::<IssueComment>(v.issue_comment),
            lookup(Self::entries(v), "issues"@) == opt_node::<Issues>(v.issues),
            lookup(Self::entries(v), "label"@) == opt_node::<Label>(v.label),
            lookup(Self::entries(v), "merge_group"@) == opt_node::<MergeGroup>(v.merge_group),
            lookup(Self::entries(v), "milestone"@) == opt_node::<Milestone>(v.milestone),
            lookup(Self::entries(v), "page_build"@) == opt_node::<bool>(v.page_build),
            lookup(Self::entries(v), "public"@) == opt_node::<bool>(v.public),
            lookup(Self::entries(v), "pull_request"@) == opt_node::<PullRequest>(v.pull_request),
            lookup(Self::entries(v), "pull_request_review"@)
                == opt_node::<PullRequestReview>(v.pull_request_review),
            lookup(Self::entries(v), "pull_request_review_comment"@)
                == opt_node::<PullRequestReviewComment>(v.pull_request_review_comment),
            lookup(Self::entries(v), "pull_request_target"@)
                == opt_node::<PullRequestTarget>(v.pull_request_target),
            lookup(Self::entries(v), "push"@) == opt_node::<Push>(v.push),
            lookup(Self::entries(v), "registry_package"@)
                == opt_node::<RegistryPackage>(v.registry_package),
            lookup(Self::entries(v), "release"@) == opt_node::<Release>(v.release),
            lookup(Self::entries(v), "repository_dispatch"@)
                == opt_node::<RepositoryDispatch>(v.repository_dispatch),
            lookup(Self::entries(v), "schedule"@) == opt_node::<Schedule>(v.schedule),
            lookup(Self::entries(v), "status"@) == opt_node::<bool>(v.status),
            lookup(Self::entries(v), "watch"@) == opt_node::<Watch>(v.watch),
            lookup(Self::entries(v), "workflow_call"@) == opt_node::<WorkflowCall>(v.workflow_call),
            lookup(Self::entries(v), "workflow_dispatch"@)
                == opt_node::<WorkflowDispatch>(v.workflow_dispatch),
            lookup(Self::entries(v), "workflow_run"@) == opt_node::<WorkflowRun>(v.workflow_run),
            ({
                &&& plain_opt(opt_node::<BranchProtectionRule>(v.branch_protection_rule))
                &&& plain_opt(opt_node::<CheckRun>(v.check_run))
                &&& plain_opt(opt_node::<CheckSuite>(v.check_suite))
                &&& plain_opt(opt_node::<Create>(v.create))
                &&& plain_opt(opt_node::<Delete>(v.delete))
                &&& plain_opt(opt_node::<Deployment>(v.deployment))
                &&& plain_opt(opt_node::<DeploymentStatus>(v.deployment_status))
                &&& plain_opt(opt_node::<Discussion>(v.discussion))
                &&& plain_opt(opt_node::<DiscussionComment>(v.discussion_comment))
                &&& plain_opt(opt_node::<bool>(v.fork))
                &&& plain_opt(opt_node::<bool>(v.gollum))
                &&& plain_opt(opt_node::<IssueComment>(v.issue_comment))
                &&& plain_opt(opt_node::<Issues>(v.issues))
                &&& plain_opt(opt_node::<Label>(v.label))
                &&& plain_opt(opt_node::<MergeGroup>(v.merge_group))
                &&& plain_opt(opt_node::<Milestone>(v.milestone))
                &&& plain_opt(opt_node::<bool>(v.page_build))
                &&& plain_opt(opt_node::<bool>(v.public))
                &&& plain_opt(opt_node::<PullRequest>(v.pull_request))
                &&& plain_opt(opt_node::<PullRequestReview>(v.pull_request_review))
                &&& plain_opt(opt_node::<PullRequestReviewComment>(v.pull_request_review_comment))
                &&& plain_opt(opt_node::<PullRequestTarget>(v.pull_request_target))
                &&& plain_opt(opt_node::<Push>(v.push))
                &&& plain_opt(opt_node::<RegistryPackage>(v.registry_package))
                &&& plain_opt(opt_node::<Release>(v.release))
                &&& plain_opt(opt_node::<RepositoryDispatch>(v.repository_dispatch))
                &&& plain_opt(opt_node::<Schedule>(v.schedule))
                &&& plain_opt(opt_node::<bool>(v.status))
                &&& plain_opt(opt_node::<Watch>(v.watch))
                &&& plain_opt(opt_node::<WorkflowCall>(v.workflow_call))
                &&& plain_opt(opt_node::<WorkflowDispatch>(v.workflow_dispatch))
                &&& plain_opt(opt_node::<WorkflowRun>(v.workflow_run))
            }) ==> all_plain(Self::entries(v)),
    {
        reveal_strlit("branch_protection_rule");
        reveal_strlit("check_run");
        reveal_strlit("check_suite");
        reveal_strlit("create");
        reveal_strlit("delete");
        reveal_strlit("deployment");
        reveal_strlit("deployment_status");
        reveal_strlit("discussion");
        reveal_strlit("discussion_comment");
        reveal_strlit("fork");
        reveal_strlit("gollum");
        reveal_strlit("issue_comment");
        reveal_strlit("issues");
        reveal_strlit("label");
        reveal_strlit("merge_group");
        reveal_strlit("milestone");
        reveal_strlit("page_build");
        reveal_strlit("public");
        reveal_strlit("pull_request");
        reveal_strlit("pull_request_review");
        reveal_strlit("pull_request_review_comment");
        reveal_strlit("pull_request_target");
        reveal_strlit("push");
        reveal_strlit("registry_package");
        reveal_strlit("release");
        reveal_strlit("repository_dispatch");
        reveal_strlit("schedule");
        reveal_strlit("status");
        reveal_strlit("watch");
        reveal_strlit("workflow_call");
        reveal_strlit("workflow_dispatch");
        reveal_strlit("workflow_run");
        assert("branch_protection_rule"@.len() == 22);
        assert("check_run"@.len() == 9);
        assert("check_suite"@.len() == 11);
        assert("create"@.len() == 6);
        assert("delete"@.len() == 6);
        assert("deployment"@.len() == 10);
        assert("deployment_status"@.len() == 17);
        assert("discussion"@.len() == 10);
        assert("discussion_comment"@.len() == 18);
        assert("fork"@.len() == 4);
        assert("gollum"@.len() == 6);
        assert("issue_comment"@.len() == 13);
        assert("issues"@.len() == 6);
        assert("label"@.len() == 5);
        assert("merge_group"@.len() == 11);
        assert("milestone"@.len() == 9);
        assert("page_build"@.len() == 10);
        assert("public"@.len() == 6);
        assert("pull_request"@.len() == 12);
        assert("pull_request_review"@.len() == 19);
        assert("pull_request_review_comment"@.len() == 27);
        assert("pull_request_target"@.len() == 19);
        assert("push"@.len() == 4);
        assert("registry_package"@.len() == 16);
        assert("release"@.len() == 7);
        assert("repository_dispatch"@.len() == 19);
        assert("schedule"@.len() == 8);
        assert("status"@.len() == 6);
        assert("watch"@.len() == 5);
        assert("workflow_call"@.len() == 13);
        assert("workflow_dispatch"@.len() == 17);
        assert("workflow_run"@.len() == 12);
        assert("check_run"@[0] == 'c');
        assert("check_suite"@[0] == 'c');
        assert("create"@[0] == 'c');
        assert("delete"@[0] == 'd');
        assert("deployment"@[0] == 'd');
        assert("deployment"@[1] == 'e');
        assert("deployment_status"@[0] == 'd');
        assert("discussion"@[0] == 'd');
        assert("discussion"@[1] == 'i');
        assert("fork"@[0] == 'f');
        assert("gollum"@[0] == 'g');
        assert("issue_comment"@[0] == 'i');
        assert("issues"@[0] == 'i');
        assert("label"@[0] == 'l');
        assert("merge_group"@[0] == 'm');
        assert("milestone"@[0] == 'm');
        assert("page_build"@[0] == 'p');
        assert("page_build"@[1] == 'a');
        assert("public"@[0] == 'p');
        assert("pull_request"@[0] == 'p');
        assert("pull_request_review"@[0] == 'p');
        assert("pull_request_review"@[13] == 'r');
        assert("pull_request_target"@[0] == 'p');
        assert("pull_request_target"@[13] == 't');
        assert("push"@[0] == 'p');
        assert("repository_dispatch"@[0] == 'r');
        assert("repository_dispatch"@[13] == 's');
        assert("status"@[0] == 's');
        assert("watch"@[0] == 'w');
        assert("workflow_call"@[0] == 'w');
        assert("workflow_dispatch"@[0] == 'w');
        assert("workflow_run"@[0] == 'w');
        let fields = Self::fields(v);
        assert(fields.len() == 32);
        assert(fields[0].0 == "branch_protection_rule"@ && Self::key_rank(fields[0].0) == 0);
        assert(fields[1].0 == "check_run"@ && Self::key_rank(fields[1].0) == 1);
        assert(fields[2].0 == "check_suite"@ && Self::key_rank(fields[2].0) == 2);
        assert(fields[3].0 == "create"@ && Self::key_rank(fields[3].0) == 3);
        assert(fields[4].0 == "delete"@ && Self::key_rank(fields[4].0) == 4);
        assert(fields[5].0 == "deployment"@ && Self::key_rank(fields[5].0) == 5);
        assert(fields[6].0 == "deployment_status"@ && Self::key_rank(fields[6].0) == 6);
        assert(fields[7].0 == "discussion"@ && Self::key_rank(fields[7].0) == 7);
        assert(fields[8].0 == "discussion_comment"@ && Self::key_rank(fields[8].0) == 8);
        assert(fields[9].0 == "fork"@ && Self::key_rank(fields[9].0) == 9);
        assert(fields[10].0 == "gollum"@ && Self::key_rank(fields[10].0) == 10);
        assert(fields[11].0 == "issue_comment"@ && Self::key_rank(fields[11].0) == 11);
        assert(fields[12].0 == "issues"@ && Self::key_rank(fields[12].0) == 12);
        assert(fields[13].0 == "label"@ && Self::key_rank(fields[13].0) == 13);
        assert(fields[14].0 == "merge_group"@ && Self::key_rank(fields[14].0) == 14);
        assert(fields[15].0 == "milestone"@ && Self::key_rank(fields[15].0) == 15);
        assert(fields[16].0 == "page_build"@ && Self::key_rank(fields[16].0) == 16);
        assert(fields[17].0 == "public"@ && Self::key_rank(fields[17].0) == 17);
        assert(fields[18].0 == "pull_request"@ && Self::key_rank(fields[18].0) == 18);
        assert(fields[19].0 == "pull_request_review"@ && Self::key_rank(fields[19].0) == 19);
        assert(fields[20].0 == "pull_request_review_comment"@
            && Self::key_rank(fields[20].0) == 20);
        assert(fields[21].0 == "pull_request_target"@ && Self::key_rank(fields[21].0) == 21);
        assert(fields[22].0 == "push"@ && Self::key_rank(fields[22].0) == 22);
        assert(fields[23].0 == "registry_package"@ && Self::key_rank(fields[23].0) == 23);
        assert(fields[24].0 == "release"@ && Self::key_rank(fields[24].0) == 24);
        assert(fields[25].0 == "repository_dispatch"@ && Self::key_rank(fields[25].0) == 25);
        assert(fields[26].0 == "schedule"@ && Self::key_rank(fields[26].0) == 26);
        assert(fields[27].0 == "status"@ && Self::key_rank(fields[27].0) == 27);
        assert(fields[28].0 == "watch"@ && Self::key_rank(fields[28].0) == 28);
        assert(fields[29].0 == "workflow_call"@ && Self::key_rank(fields[29].0) == 29);
        assert(fields[30].0 == "workflow_dispatch"@ && Self::key_rank(fields[30].0) == 30);
        assert(fields[31].0 == "workflow_run"@ && Self::key_rank(fields[31].0) == 31);
        lemma_record(fields, |k: Seq<char>| Self::key_rank(k));
        assert(fields[0].1 == opt_node::<BranchProtectionRule>(v.branch_protection_rule));
        assert(fields[1].1 == opt_node::<CheckRun>(v.check_run));
        assert(fields[2].1 == opt_node::<CheckSuite>(v.check_suite));
        assert(fields[3].1 == opt_node::<Create>(v.create));
        assert(fields[4].1 == opt_node::<Delete>(v.delete));
        assert(fields[5].1 == opt_node::<Deployment>(v.deployment));
        assert(fields[6].1 == opt_node::<DeploymentStatus>(v.deployment_status));
        assert(fields[7].1 == opt_node::<Discussion>(v.discussion));
        assert(fields[8].1 == opt_node::<DiscussionComment>(v.discussion_comment));
        assert(fields[9].1 == opt_node::<bool>(v.fork));
        assert(fields[10].1 == opt_node::<bool>(v.gollum));
        assert(fields[11].1 == opt_node::<IssueComment>(v.issue_comment));
        assert(fields[12].1 == opt_node::<Issues>(v.issues));
        assert(fields[13].1 == opt_node::<Label>(v.label));
        assert(fields[14].1 == opt_node::<MergeGroup>(v.merge_group));
        assert(fields[15].1 == opt_node::<Milestone>(v.milestone));
        assert(fields[16].1 == opt_node::<bool>(v.page_build));
        assert(fields[17].1 == opt_node::<bool>(v.public));
        assert(fields[18].1 == opt_node::<PullRequest>(v.pull_request));
        assert(fields[19].1 == opt_node::<PullRequestReview>(v.pull_request_review));
        assert(fields[20].1 == opt_node::<PullRequestReviewComment>(v.pull_request_review_comment));
        assert(fields[21].1 == opt_node::<PullRequestTarget>(v.pull_request_target));
        assert(fields[22].1 == opt_node::<Push>(v.push));
        assert(fields[23].1 == opt_node::<RegistryPackage>(v.registry_package));
        assert(fields[24].1 == opt_node::<Release>(v.release));
        assert(fields[25].1 == opt_node::<RepositoryDispatch>(v.repository_dispatch));
        assert(fields[26].1 == opt_node::<Schedule>(v.schedule));
        assert(fields[27].1 == opt_node::<bool>(v.status));
        assert(fields[28].1 == opt_node::<Watch>(v.watch));
        assert(fields[29].1 == opt_node::<WorkflowCall>(v.workflow_call));
        assert(fields[30].1 == opt_node::<WorkflowDispatch>(v.workflow_dispatch));
        assert(fields[31].1 == opt_node::<WorkflowRun>(v.workflow_run));
    }

    /// Omission: the key of a field is among the entries of the record
    /// exactly where the field is set. A field that is always there is
    /// always set; a list, a text or a map is set where it is not empty, and
    /// a flag where it is up.
    pub proof fn lemma_omission(v: EventView)
        ensures
            has_key(Self::entries(v), "branch_protection_rule"@)
                <==> v.branch_protection_rule is Some,
            has_key(Self::entries(v), "check_run"@) <==> v.check_run is Some,
            has_key(Self::entries(v), "check_suite"@) <==> v.check_suite is Some,
            has_key(Self::entries(v), "create"@) <==> v.create is Some,
            has_key(Self::entries(v), "delete"@) <==> v.delete is Some,
            has_key(Self::entries(v), "deployment"@) <==> v.deployment is Some,
            has_key(Self::entries(v), "deployment_status"@) <==> v.deployment_status is Some,
            has_key(Self::entries(v), "discussion"@) <==> v.discussion is Some,
            has_key(Self::entries(v), "discussion_comment"@) <==> v.discussion_comment is Some,
            has_key(Self::entries(v), "fork"@) <==> v.fork is Some,
            has_key(Self::entries(v), "gollum"@) <==> v.gollum is Some,
            has_key(Self::entries(v), "issue_comment"@) <==> v.issue_comment is Some,
            has_key(Self::entries(v), "issues"@) <==> v.issues is Some,
            has_key(Self::entries(v), "label"@) <==> v.label is Some,
            has_key(Self::entries(v), "merge_group"@) <==> v.merge_group is Some,
            has_key(Self::entries(v), "milestone"@) <==> v.milestone is Some,
            has_key(Self::entries(v), "page_build"@) <==> v.page_build is Some,
            has_key(Self::entries(v), "public"@) <==> v.public is Some,
            has_key(Self::entries(v), "pull_request"@) <==> v.pull_request is Some,
            has_key(Self::entries(v), "pull_request_review"@) <==> v.pull_request_review is Some,
            has_key(Self::entries(v), "pull_request_review_comment"@)
                <==> v.pull_request_review_comment is Some,
            has_key(Self::entries(v), "pull_request_target"@) <==> v.pull_request_target is Some,
            has_key(Self::entries(v), "push"@) <==> v.push is Some,
            has_key(Self::entries(v), "registry_package"@) <==> v.registry_package is Some,
            has_key(Self::entries(v), "release"@) <==> v.release is Some,
            has_key(Self::entries(v), "repository_dispatch"@) <==> v.repository_dispatch is Some,
            has_key(Self::entries(v), "schedule"@) <==> v.schedule is Some,
            has_key(Self::entries(v), "status"@) <==> v.status is Some,
            has_key(Self::entries(v), "watch"@) <==> v.watch is Some,
            has_key(Self::entries(v), "workflow_call"@) <==> v.workflow_call is Some,
            has_key(Self::entries(v), "workflow_dispatch"@) <==> v.workflow_dispatch is Some,
            has_key(Self::entries(v), "workflow_run"@) <==> v.workflow_run is Some,
    {
        Self::lemma_fields(v);
        lemma_position(Self::entries(v), "branch_protection_rule"@);
        lemma_position(Self::entries(v), "check_run"@);
        lemma_position(Self::entries(v), "check_suite"@);
        lemma_position(Self::entries(v), "create"@);
        lemma_position(Self::entries(v), "delete"@);
        lemma_position(Self::entries(v), "deployment"@);
        lemma_position(Self::entries(v), "deployment_status"@);
        lemma_position(Self::entries(v), "discussion"@);
        lemma_position(Self::entries(v), "discussion_comment"@);
        lemma_position(Self::entries(v), "fork"@);
        lemma_position(Self::entries(v), "gollum"@);
        lemma_position(Self::entries(v), "issue_comment"@);
        lemma_position(Self::entries(v), "issues"@);
        lemma_position(Self::entries(v), "label"@);
        lemma_position(Self::entries(v), "merge_group"@);
        lemma_position(Self::entries(v), "milestone"@);
        lemma_position(Self::entries(v), "page_build"@);
        lemma_position(Self::entries(v), "public"@);
        lemma_position(Self::entries(v), "pull_request"@);
        lemma_position(Self::entries(v), "pull_request_review"@);
        lemma_position(Self::entries(v), "pull_request_review_comment"@);
        lemma_position(Self::entries(v), "pull_request_target"@);
        lemma_position(Self::entries(v), "push"@);
        lemma_position(Self::entries(v), "registry_package"@);
        lemma_position(Self::entries(v), "release"@);
        lemma_position(Self::entries(v), "repository_dispatch"@);
        lemma_position(Self::entries(v), "schedule"@);
        lemma_position(Self::entries(v), "status"@);
        lemma_position(Self::entries(v), "watch"@);
        lemma_position(Self::entries(v), "workflow_call"@);
        lemma_position(Self::entries(v), "workflow_dispatch"@);
        lemma_position(Self::entries(v), "workflow_run"@);
    }

    /// Sets `branch_protection_rule` and leaves the other fields as they are.
    pub fn branch_protection_rule(self, value: BranchProtectionRule) -> (r: Self)
        ensures
            r == (Event { branch_protection_rule: Some(value), ..self }),
    {
        let mut r = self;
        r.branch_protection_rule = Some(value);
        r
    }

    /// Sets `check_run` and leaves the other fields as they are.
    pub fn check_run(self, value: CheckRun) -> (r: Self)
        ensures
            r == (Event { check_run: Some(value), ..self }),
    {
        let mut r = self;
        r.check_run = Some(value);
        r
    }

    /// Sets `check_suite` and leaves the other fields as they are.
    pub fn check_suite(self, value: CheckSuite) -> (r: Self)
        ensures
            r == (Event { check_suite: Some(value), ..self }),
    {
        let mut r = self;
        r.check_suite = Some(value);
        r
    }

    /// Sets `create` and leaves the other fields as they are.
    pub fn create(self, value: Create) -> (r: Self)
        ensures
            r == (Event { create: Some(value), ..self }),
    {
        let mut r = self;
        r.create = Some(value);
        r
    }

    /// Sets `delete` and leaves the other fields as they are.
    pub fn delete(self, value: Delete) -> (r: Self)
        ensures
            r == (Event { delete: Some(value), ..self }),
    {
        let mut r = self;
        r.delete = Some(value);
        r
    }

    /// Sets `deployment` and leaves the other fields as they are.
    pub fn deployment(self, value: Deployment) -> (r: Self)
        ensures
            r == (Event { deployment: Some(value), ..self }),
    {
        let mut r = self;
        r.deployment = Some(value);
        r
    }

    /// Sets `deployment_status` and leaves the other fields as they are.
    pub fn deployment_status(self, value: DeploymentStatus) -> (r: Self)
        ensures
            r == (Event { deployment_status: Some(value), ..self }),
    {
        let mut r = self;
        r.deployment_status = Some(value);
        r
    }

    /// Sets `discussion` and leaves the other fields as they are.
    pub fn discussion(self, value: Discussion) -> (r: Self)
        ensures
            r == (Event { discussion: Some(value), ..self }),
    {
        let mut r = self;
        r.discussion = Some(value);
        r
    }

    /// Sets `discussion_comment` and leaves the other fields as they are.
    pub fn discussion_comment(self, value: DiscussionComment) -> (r: Self)
        ensures
            r == (Event { discussion_comment: Some(value), ..self }),
    {
        let mut r = self;
        r.discussion_comment = Some(value);
        r
    }

    /// Sets `fork` and leaves the other fields as they are.
    pub fn fork(self, value: bool) -> (r: Self)
        ensures
            r == (Event { fork: Some(value), ..self }),
    {
        let mut r = self;
        r.fork = Some(value);
        r
    }

    /// Sets `gollum` and leaves the other fields as they are.
    pub fn gollum(self, value: bool) -> (r: Self)
        ensures
            r == (Event { gollum: Some(value), ..self }),
    {
        let mut r = self;
        r.gollum = Some(value);
        r
    }

    /// Sets `issue_comment` and leaves the other fields as they are.
    pub fn issue_comment(self, value: IssueComment) -> (r: Self)
        ensures
            r == (Event { issue_comment: Some(value), ..self }),
    {
        let mut r = self;
        r.issue_comment = Some(value);
        r
    }

    /// Sets `issues` and leaves the other fields as they are.
    pub fn issues(self, value: Issues) -> (r: Self)
        ensures
            r == (Event { issues: Some(value), ..self }),
    {
        let mut r = self;
        r.issues = Some(value);
        r
    }

    /// Sets `label` and leaves the other fields as they are.
    pub fn label(self, value: Label) -> (r: Self)
        ensures
            r == (Event { label: Some(value), ..self }),
    {
        let mut r = self;
        r.label = Some(value);
        r
    }

    /// Sets `merge_group` and leaves the other fields as they are.
    pub fn merge_group(self, value: MergeGroup) -> (r: Self)
        ensures
            r == (Event { merge_group: Some(value), ..self }),
    {
        let mut r = self;
        r.merge_group = Some(value);
        r
    }

    /// Sets `milestone` and leaves the other fields as they are.
    pub fn milestone(self, value: Milestone) -> (r: Self)
        ensures
            r == (Event { milestone: Some(value), ..self }),
    {
        let mut r = self;
        r.milestone = Some(value);
        r
    }

    /// Sets `page_build` and leaves the other fields as they are.
    pub fn page_build(self, value: bool) -> (r: Self)
        ensures
            r == (Event { page_build: Some(value), ..self }),
    {
        let mut r = self;
        r.page_build = Some(value);
        r
    }

    /// Sets `public` and leaves the other fields as they are.
    pub fn public(self, value: bool) -> (r: Self)
        ensures
            r == (Event { public: Some(value), ..self }),
    {
        let mut r = self;
        r.public = Some(value);
        r
    }

    /// Sets `pull_request` and leaves the other fields as they are.
    pub fn pull_request(self, value: PullRequest) -> (r: Self)
        ensures
            r == (Event { pull_request: Some(value), ..self }),
    {
        let mut r = self;
        r.pull_request = Some(value);
        r
    }

    /// Sets `pull_request_review` and leaves the other fields as they are.
    pub fn pull_request_review(self, value: PullRequestReview) -> (r: Self)
        ensures
            r == (Event { pull_request_review: Some(value), ..self }),
    {
        let mut r = self;
        r.pull_request_review = Some(value);
        r
    }

    /// Sets `pull_request_review_comment` and leaves the other fields as they are.
    pub fn pull_request_review_comment(self, value: PullRequestReviewComment) -> (r: Self)
        ensures
            r == (Event { pull_request_review_comment: Some(value), ..self }),
    {
        let mut r = self;
        r.pull_request_review_comment = Some(value);
        r
    }

    /// Sets `pull_request_target` and leaves the other fields as they are.
    pub fn pull_request_target(self, value: PullRequestTarget) -> (r: Self)
        ensures
            r == (Event { pull_request_target: Some(value), ..self }),
    {
        let mut r = self;
        r.pull_request_target = Some(value);
        r
    }

    /// Sets `push` and leaves the other fields as they are.
    pub fn push(self, value: Push) -> (r: Self)
        ensures
            r == (Event { push: Some(value), ..self }),
    {
        let mut r = self;
        r.push = Some(value);
        r
    }

    /// Sets `registry_package` and leaves the other fields as they are.
    pub fn registry_package(self, value: RegistryPackage) -> (r: Self)
        ensures
            r == (Event { registry_package: Some(value), ..self }),
    {
        let mut r = self;
        r.registry_package = Some(value);
        r
    }

    /// Sets `release` and leaves the other fields as they are.
    pub fn release(self, value: Release) -> (r: Self)
        ensures
            r == (Event { release: Some(value), ..self }),
    {
        let mut r = self;
        r.release = Some(value);
        r
    }

    /// Sets `repository_dispatch` and leaves the other fields as they are.
    pub fn repository_dispatch(self, value: RepositoryDispatch) -> (r: Self)
        ensures
            r == (Event { repository_dispatch: Some(value), ..self }),
    {
        let mut r = self;
        r.repository_dispatch = Some(value);
        r
    }

    /// Sets `schedule` and leaves the other fields as they are.
    pub fn schedule(self, value: Schedule) -> (r: Self)
        ensures
            r == (Event { schedule: Some(value), ..self }),
    {
        let mut r = self;
        r.schedule = Some(value);
        r
    }

    /// Sets `status` and leaves the other fields as they are.
    pub fn status(self, value: bool) -> (r: Self)
        ensures
            r == (Event { status: Some(value), ..self }),
    {
        let mut r = self;
        r.status = Some(value);
        r
    }

    /// Sets `watch` and leaves the other fields as they are.
    pub fn watch(self, value: Watch) -> (r: Self)
        ensures
            r == (Event { watch: Some(value), ..self }),
    {
        let mut r = self;
        r.watch = Some(value);
        r
    }

    /// Sets `workflow_call` and leaves the other fields as they are.
    pub fn workflow_call(self, value: WorkflowCall) -> (r: Self)
        ensures
            r == (Event { workflow_call: Some(value), ..self }),
    {
        let mut r = self;
        r.workflow_call = Some(value);
        r
    }

    /// Sets `workflow_dispatch` and leaves the other fields as they are.
    pub fn workflow_dispatch(self, value: WorkflowDispatch) -> (r: Self)
        ensures
            r == (Event { workflow_dispatch: Some(value), ..self }),
    {
        let mut r = self;
        r.workflow_dispatch = Some(value);
        r
    }

    /// Sets `workflow_run` and leaves the other fields as they are.
    pub fn workflow_run(self, value: WorkflowRun) -> (r: Self)
        ensures
            r == (Event { workflow_run: Some(value), ..self }),
    {
        let mut r = self;
        r.workflow_run = Some(value);
        r
    }
}

impl Codec for Event {
    /// A mapping with one entry for each field that is set, in the order
    /// of the fields.
    open spec fn encode(v: EventView) -> Node {
        Node::Dict(Self::entries(v))
    }

    /// Reads each field from the entry under its key. Entries under other
    /// keys are passed over.
    open spec fn decode(n: Node) -> Option<EventView> {
        match n {
            Node::Dict(e) => {
                let branch_protection_rule =
                    opt_field::<BranchProtectionRule>(e, "branch_protection_rule"@);
                let check_run = opt_field::<CheckRun>(e, "check_run"@);
                let check_suite = opt_field::<CheckSuite>(e, "check_suite"@);
                let create = opt_field::<Create>(e, "create"@);
                let delete = opt_field::<Delete>(e, "delete"@);
                let deployment = opt_field::<Deployment>(e, "deployment"@);
                let deployment_status = opt_field::<DeploymentStatus>(e, "deployment_status"@);
                let discussion = opt_field::<Discussion>(e, "discussion"@);
                let discussion_comment = opt_field::<DiscussionComment>(e, "discussion_comment"@);
                let fork = opt_field::<bool>(e, "fork"@);
                let gollum = opt_field::<bool>(e, "gollum"@);
                let issue_comment = opt_field::<IssueComment>(e, "issue_comment"@);
                let issues = opt_field::<Issues>(e, "issues"@);
                let label = opt_field::<Label>(e, "label"@);
                let merge_group = opt_field::<MergeGroup>(e, "merge_group"@);
                let milestone = opt_field::<Milestone>(e, "milestone"@);
                let page_build = opt_field::<bool>(e, "page_build"@);
                let public = opt_field::<bool>(e, "public"@);
                let pull_request = opt_field::<PullRequest>(e, "pull_request"@);
                let pull_request_review = opt_field::<PullRequestReview>(e, "pull_request_review"@);
                let pull_request_review_comment =
                    opt_field::<PullRequestReviewComment>(e, "pull_request_review_comment"@);
                let pull_request_target = opt_field::<PullRequestTarget>(e, "pull_request_target"@);
                let push = opt_field::<Push>(e, "push"@);
                let registry_package = opt_field::<RegistryPackage>(e, "registry_package"@);
                let release = opt_field::<Release>(e, "release"@);
                let repository_dispatch =
                    opt_field::<RepositoryDispatch>(e, "repository_dispatch"@);
                let schedule = opt_field::<Schedule>(e, "schedule"@);
                let status = opt_field::<bool>(e, "status"@);
                let watch = opt_field::<Watch>(e, "watch"@);
                let workflow_call = opt_field::<WorkflowCall>(e, "workflow_call"@);
                let workflow_dispatch = opt_field::<WorkflowDispatch>(e, "workflow_dispatch"@);
                let workflow_run = opt_field::<WorkflowRun>(e, "workflow_run"@);
                if {
                    &&& branch_protection_rule is Some
                    &&& check_run is Some
                    &&& check_suite is Some
                    &&& create is Some
                    &&& delete is Some
                    &&& deployment is Some
                    &&& deployment_status is Some
                    &&& discussion is Some
                    &&& discussion_comment is Some
                    &&& fork is Some
                    &&& gollum is Some
                    &&& issue_comment is Some
                    &&& issues is Some
                    &&& label is Some
                    &&& merge_group is Some
                    &&& milestone is Some
                    &&& page_build is Some
                    &&& public is Some
                    &&& pull_request is Some
                    &&& pull_request_review is Some
                    &&& pull_request_review_comment is Some
                    &&& pull_request_target is Some
                    &&& push is Some
                    &&& registry_package is Some
                    &&& release is Some
                    &&& repository_dispatch is Some
                    &&& schedule is Some
                    &&& status is Some
                    &&& watch is Some
                    &&& workflow_call is Some
                    &&& workflow_dispatch is Some
                    &&& workflow_run is Some
                } {
                    Some(
                        EventView {
                            branch_protection_rule: branch_protection_rule->Some_0,
                            check_run: check_run->Some_0,
                            check_suite: check_suite->Some_0,
                            create: create->Some_0,
                            delete: delete->Some_0,
                            deployment: deployment->Some_0,
                            deployment_status: deployment_status->Some_0,
                            discussion: discussion->Some_0,
                            discussion_comment: discussion_comment->Some_0,
                            fork: fork->Some_0,
                            gollum: gollum->Some_0,
                            issue_comment: issue_comment->Some_0,
                            issues: issues->Some_0,
                            label: label->Some_0,
                            merge_group: merge_group->Some_0,
                            milestone: milestone->Some_0,
                            page_build: page_build->Some_0,
                            public: public->Some_0,
                            pull_request: pull_request->Some_0,
                            pull_request_review: pull_request_review->Some_0,
                            pull_request_review_comment: pull_request_review_comment->Some_0,
                            pull_request_target: pull_request_target->Some_0,
                            push: push->Some_0,
                            registry_package: registry_package->Some_0,
                            release: release->Some_0,
                            repository_dispatch: repository_dispatch->Some_0,
                            schedule: schedule->Some_0,
                            status: status->Some_0,
                            watch: watch->Some_0,
                            workflow_call: workflow_call->Some_0,
                            workflow_dispatch: workflow_dispatch->Some_0,
                            workflow_run: workflow_run->Some_0,
                        },
                    )
                } else {
                    None
                }
            },
            _ => None,
        }
    }

    open spec fn valid(v: EventView) -> bool {
        &&& opt_valid::<BranchProtectionRule>(v.branch_protection_rule)
        &&& opt_valid::<CheckRun>(v.check_run)
        &&& opt_valid::<CheckSuite>(v.check_suite)
        &&& opt_valid::<Create>(v.create)
        &&& opt_valid::<Delete>(v.delete)
        &&& opt_valid::<Deployment>(v.deployment)
        &&& opt_valid::<DeploymentStatus>(v.deployment_status)
        &&& opt_valid::<Discussion>(v.discussion)
        &&& opt_valid::<DiscussionComment>(v.discussion_comment)
        &&& opt_valid::<bool>(v.fork)
        &&& opt_valid::<bool>(v.gollum)
        &&& opt_valid::<IssueComment>(v.issue_comment)
        &&& opt_valid::<Issues>(v.issues)
        &&& opt_valid::<Label>(v.label)
        &&& opt_valid::<MergeGroup>(v.merge_group)
        &&& opt_valid::<Milestone>(v.milestone)
        &&& opt_valid::<bool>(v.page_build)
        &&& opt_valid::<bool>(v.public)
        &&& opt_valid::<PullRequest>(v.pull_request)
        &&& opt_valid::<PullRequestReview>(v.pull_request_review)
        &&& opt_valid::<PullRequestReviewComment>(v.pull_request_review_comment)
        &&& opt_valid::<PullRequestTarget>(v.pull_request_target)
        &&& opt_valid::<Push>(v.push)
        &&& opt_valid::<RegistryPackage>(v.registry_package)
        &&& opt_valid::<Release>(v.release)
        &&& opt_valid::<RepositoryDispatch>(v.repository_dispatch)
        &&& opt_valid::<Schedule>(v.schedule)
        &&& opt_valid::<bool>(v.status)
        &&& opt_valid::<Watch>(v.watch)
        &&& opt_valid::<WorkflowCall>(v.workflow_call)
        &&& opt_valid::<WorkflowDispatch>(v.workflow_dispatch)
        &&& opt_valid::<WorkflowRun>(v.workflow_run)
    }

    proof fn lemma_round_trip(v: EventView) {
        Self::lemma_fields(v);
        let e = Self::entries(v);
        lemma_opt_field::<BranchProtectionRule>(
            e,
            "branch_protection_rule"@,
            v.branch_protection_rule,
        );
        lemma_opt_field::<CheckRun>(e, "check_run"@, v.check_run);
        lemma_opt_field::<CheckSuite>(e, "check_suite"@, v.check_suite);
        lemma_opt_field::<Create>(e, "create"@, v.create);
        lemma_opt_field::<Delete>(e, "delete"@, v.delete);
        lemma_opt_field::<Deployment>(e, "deployment"@, v.deployment);
        lemma_opt_field::<DeploymentStatus>(e, "deployment_status"@, v.deployment_status);
        lemma_opt_field::<Discussion>(e, "discussion"@, v.discussion);
        lemma_opt_field::<DiscussionComment>(e, "discussion_comment"@, v.discussion_comment);
        lemma_opt_field::<bool>(e, "fork"@, v.fork);
        lemma_opt_field::<bool>(e, "gollum"@, v.gollum);
        lemma_opt_field::<IssueComment>(e, "issue_comment"@, v.issue_comment);
        lemma_opt_field::<Issues>(e, "issues"@, v.issues);
        lemma_opt_field::<Label>(e, "label"@, v.label);
        lemma_opt_field::<MergeGroup>(e, "merge_group"@, v.merge_group);
        lemma_opt_field::<Milestone>(e, "milestone"@, v.milestone);
        lemma_opt_field::<bool>(e, "page_build"@, v.page_build);
        lemma_opt_field::<bool>(e, "public"@, v.public);
        lemma_opt_field::<PullRequest>(e, "pull_request"@, v.pull_request);
        lemma_opt_field::<PullRequestReview>(e, "pull_request_review"@, v.pull_request_review);
        lemma_opt_field::<PullRequestReviewComment>(
            e,
            "pull_request_review_comment"@,
            v.pull_request_review_comment,
        );
        lemma_opt_field::<PullRequestTarget>(e, "pull_request_target"@, v.pull_request_target);
        lemma_opt_field::<Push>(e, "push"@, v.push);
        lemma_opt_field::<RegistryPackage>(e, "registry_package"@, v.registry_package);
        lemma_opt_field::<Release>(e, "release"@, v.release);
        lemma_opt_field::<RepositoryDispatch>(e, "repository_dispatch"@, v.repository_dispatch);
        lemma_opt_field::<Schedule>(e, "schedule"@, v.schedule);
        lemma_opt_field::<bool>(e, "status"@, v.status);
        lemma_opt_field::<Watch>(e, "watch"@, v.watch);
        lemma_opt_field::<WorkflowCall>(e, "workflow_call"@, v.workflow_call);
        lemma_opt_field::<WorkflowDispatch>(e, "workflow_dispatch"@, v.workflow_dispatch);
        lemma_opt_field::<WorkflowRun>(e, "workflow_run"@, v.workflow_run);
    }

    fn to_tree(&self) -> (t: Tree) {
        broadcast use {lemma_record_empty, lemma_record_push};

        let m = record();
        let m = put_opt(m, "branch_protection_rule", &self.branch_protection_rule);
        let m = put_opt(m, "check_run", &self.check_run);
        let m = put_opt(m, "check_suite", &self.check_suite);
        let m = put_opt(m, "create", &self.create);
        let m = put_opt(m, "delete", &self.delete);
        let m = put_opt(m, "deployment", &self.deployment);
        let m = put_opt(m, "deployment_status", &self.deployment_status);
        let m = put_opt(m, "discussion", &self.discussion);
        let m = put_opt(m, "discussion_comment", &self.discussion_comment);
        let m = put_opt(m, "fork", &self.fork);
        let m = put_opt(m, "gollum", &self.gollum);
        let m = put_opt(m, "issue_comment", &self.issue_comment);
        let m = put_opt(m, "issues", &self.issues);
        let m = put_opt(m, "label", &self.label);
        let m = put_opt(m, "merge_group", &self.merge_group);
        let m = put_opt(m, "milestone", &self.milestone);
        let m = put_opt(m, "page_build", &self.page_build);
        let m = put_opt(m, "public", &self.public);
        let m = put_opt(m, "pull_request", &self.pull_request);
        let m = put_opt(m, "pull_request_review", &self.pull_request_review);
        let m = put_opt(m, "pull_request_review_comment", &self.pull_request_review_comment);
        let m = put_opt(m, "pull_request_target", &self.pull_request_target);
        let m = put_opt(m, "push", &self.push);
        let m = put_opt(m, "registry_package", &self.registry_package);
        let m = put_opt(m, "release", &self.release);
        let m = put_opt(m, "repository_dispatch", &self.repository_dispatch);
        let m = put_opt(m, "schedule", &self.schedule);
        let m = put_opt(m, "status", &self.status);
        let m = put_opt(m, "watch", &self.watch);
        let m = put_opt(m, "workflow_call", &self.workflow_call);
        let m = put_opt(m, "workflow_dispatch", &self.workflow_dispatch);
        let m = put_opt(m, "workflow_run", &self.workflow_run);
        mapping(m)
    }

    fn from_tree(t: &Tree) -> (r: Result<Self, WorkflowError>) {
        match entries_of(t) {
            Some(m) => {
                let branch_protection_rule =
                    get_opt::<BranchProtectionRule>(m, "branch_protection_rule")?;
                let check_run = get_opt::<CheckRun>(m, "check_run")?;
                let check_suite = get_opt::<CheckSuite>(m, "check_suite")?;
                let create = get_opt::<Create>(m, "create")?;
                let delete = get_opt::<Delete>(m, "delete")?;
                let deployment = get_opt::<Deployment>(m, "deployment")?;
                let deployment_status = get_opt::<DeploymentStatus>(m, "deployment_status")?;
                let discussion = get_opt::<Discussion>(m, "discussion")?;
                let discussion_comment = get_opt::<DiscussionComment>(m, "discussion_comment")?;
                let fork = get_opt::<bool>(m, "fork")?;
                let gollum = get_opt::<bool>(m, "gollum")?;
                let issue_comment = get_opt::<IssueComment>(m, "issue_comment")?;
                let issues = get_opt::<Issues>(m, "issues")?;
                let label = get_opt::<Label>(m, "label")?;
                let merge_group = get_opt::<MergeGroup>(m, "merge_group")?;
                let milestone = get_opt::<Milestone>(m, "milestone")?;
                let page_build = get_opt::<bool>(m, "page_build")?;
                let public = get_opt::<bool>(m, "public")?;
                let pull_request = get_opt::<PullRequest>(m, "pull_request")?;
                let pull_request_review = get_opt::<PullRequestReview>(m, "pull_request_review")?;
                let pull_request_review_comment =
                    get_opt::<PullRequestReviewComment>(m, "pull_request_review_comment")?;
                let pull_request_target = get_opt::<PullRequestTarget>(m, "pull_request_target")?;
                let push = get_opt::<Push>(m, "push")?;
                let registry_package = get_opt::<RegistryPackage>(m, "registry_package")?;
                let release = get_opt::<Release>(m, "release")?;
                let repository_dispatch = get_opt::<RepositoryDispatch>(m, "repository_dispatch")?;
                let schedule = get_opt::<Schedule>(m, "schedule")?;
                let status = get_opt::<bool>(m, "status")?;
                let watch = get_opt::<Watch>(m, "watch")?;
                let workflow_call = get_opt::<WorkflowCall>(m, "workflow_call")?;
                let workflow_dispatch = get_opt::<WorkflowDispatch>(m, "workflow_dispatch")?;
                let workflow_run = get_opt::<WorkflowRun>(m, "workflow_run")?;
                Ok(
                    Event {
                        branch_protection_rule,
                        check_run,
                        check_suite,
                        create,
                        delete,
                        deployment,
                        deployment_status,
                        discussion,
                        discussion_comment,
                        fork,
                        gollum,
                        issue_comment,
                        issues,
                        label,
                        merge_group,
                        milestone,
                        page_build,
                        public,
                        pull_request,
                        pull_request_review,
                        pull_request_review_comment,
                        pull_request_target,
                        push,
                        registry_package,
                        release,
                        repository_dispatch,
                        schedule,
                        status,
                        watch,
                        workflow_call,
                        workflow_dispatch,
                        workflow_run,
                    },
                )
            },
            None => Err(WorkflowError::Parse),
        }
    }
}

impl Default for Event {
    /// The entity with no field set.
    fn default() -> (r: Self)
        ensures
            r.deep_view() == Self::blank(),
    {
        let r = Event {
            branch_protection_rule: None,
            check_run: None,
            check_suite: None,
            create: None,
            delete: None,
            deployment: None,
            deployment_status: None,
            discussion: None,
            discussion_comment: None,
            fork: None,
            gollum: None,
            issue_comment: None,
            issues: None,
            label: None,
            merge_group: None,
            milestone: None,
            page_build: None,
            public: None,
            pull_request: None,
            pull_request_review: None,
            pull_request_review_comment: None,
            pull_request_target: None,
            push: None,
            registry_package: None,
            release: None,
            repository_dispatch: None,
            schedule: None,
            status: None,
            watch: None,
            workflow_call: None,
            workflow_dispatch: None,
            workflow_run: None,
        };
        r
    }
}

/// What happened to a branch protection rule.
#[derive(Debug, Clone, Copy, PartialEq, Eq, Structural)]
pub enum BranchProtectionRuleType {
    Created,
    Edited,
    Deleted,
}

impl DeepView for BranchProtectionRuleType {
    type V = BranchProtectionRuleType;

    open spec fn deep_view(&self) -> BranchProtectionRuleType {
        *self
    }
}

impl BranchProtectionRuleType {
    /// The word that is written for the variant.
    pub open spec fn word(self) -> Seq<char> {
        match self {
            BranchProtectionRuleType::Created => "created"@,
            BranchProtectionRuleType::Edited => "edited"@,
            BranchProtectionRuleType::Deleted => "deleted"@,
        }
    }

    /// The variant that a word stands for.
    pub open spec fn of_word(w: Seq<char>) -> Option<BranchProtectionRuleType> {
        if w == "created"@ {
            Some(BranchProtectionRuleType::Created)
        } else if w == "edited"@ {
            Some(BranchProtectionRuleType::Edited)
        } else if w == "deleted"@ {
            Some(BranchProtectionRuleType::Deleted)
        } else {
            None
        }
    }

    /// Each variant is the one that its own word stands for.
    pub proof fn lemma_words(self)
        ensures
            Self::of_word(self.word()) == Some(self),
    {
        reveal_strlit("created");
        reveal_strlit("edited");
        reveal_strlit("deleted");
        assert("created"@.len() == 7);
        assert("edited"@.len() == 6);
        assert("deleted"@.len() == 7);
        assert("created"@[0] == 'c');
        assert("deleted"@[0] == 'd');
    }

    /// The word that is written for the variant.
    pub fn as_str(&self) -> (s: &'static str)
        ensures
            s@ == self.word(),
    {
        match self {
            BranchProtectionRuleType::Created => "created",
            BranchProtectionRuleType::Edited => "edited",
            BranchProtectionRuleType::Deleted => "deleted",
        }
    }

    /// The variant that a word stands for.
    pub fn from_word(w: &str) -> (r: Option<BranchProtectionRuleType>)
        ensures
            r == Self::of_word(w@),
    {
        if same(w, "created") {
            Some(BranchProtectionRuleType::Created)
        } else if same(w, "edited") {
            Some(BranchProtectionRuleType::Edited)
        } else if same(w, "deleted") {
            Some(BranchProtectionRuleType::Deleted)
        } else {
            None
        }
    }
}

impl Codec for BranchProtectionRuleType {
    /// The word of the variant, as a string.
    open spec fn encode(v: BranchProtectionRuleType) -> Node {
        Node::Str(v.word())
    }

    open spec fn decode(n: Node) -> Option<BranchProtectionRuleType> {
        match n {
            Node::Str(w) => Self::of_word(w),
            _ => None,
        }
    }

    open spec fn valid(v: BranchProtectionRuleType) -> bool {
        true
    }

    proof fn lemma_round_trip(v: BranchProtectionRuleType) {
        v.lemma_words();
    }

    fn to_tree(&self) -> (t: Tree) {
        Tree::String(self.as_str().to_owned())
    }

    fn from_tree(t: &Tree) -> (r: Result<Self, WorkflowError>) {
        match t {
            Tree::String(w) => match Self::from_word(w.as_str()) {
                Some(v) => Ok(v),
                None => Err(WorkflowError::Parse),
            },
            _ => Err(WorkflowError::Parse),
        }
    }
}

/// A branch protection rule changed.
#[derive(Debug, Clone, PartialEq, Eq)]
pub struct BranchProtectionRule {
    /// The kinds of activity that count.
    pub types: Vec<BranchProtectionRuleType>,
}

/// The model of `BranchProtectionRule`: every field as its own model.
pub struct BranchProtectionRuleView {
    pub types: Seq<BranchProtectionRuleType>,
}

impl DeepView for BranchProtectionRule {
    type V = BranchProtectionRuleView;

    open spec fn deep_view(&self) -> BranchProtectionRuleView {
        BranchProtectionRuleView {
            types: self.types.deep_view(),
        }
    }
}

impl BranchProtectionRule {
    /// The model of the entity with no field set: a field that is always
    /// there is empty.
    pub open spec fn blank() -> BranchProtectionRuleView {
        BranchProtectionRuleView {
            types: Seq::empty(),
        }
    }

    /// The fields with their keys, in the order in which they are written.
    pub open spec fn fields(v: BranchProtectionRuleView) -> Fields {
        Seq::empty()
            .push(("types"@, list_node::<BranchProtectionRuleType>(v.types)))
    }

    /// The entries of the record: one for each field that is set.
    pub open spec fn entries(v: BranchProtectionRuleView) -> Seq<(Seq<char>, Node)> {
        record_entries(Self::fields(v))
    }

    /// The place of a key among the fields, told by the length of the key
    /// and as many of its characters as it takes.
    pub open spec fn key_rank(k: Seq<char>) -> int {
        if k.len() == 5 {
            0
        } else {
            1
        }
    }

    /// In the entries of the record each key leads to its own field: to
    /// the field's tree where the field is set, and nowhere where it is not.
    /// The entries are plain where the trees of the fields are.
    pub proof fn lemma_fields(v: BranchProtectionRuleView)
        ensures
            lookup(Self::entries(v), "types"@) == list_node::<BranchProtectionRuleType>(v.types),
            ({
                &&& plain_opt(list_node::<BranchProtectionRuleType>(v.types))
            }) ==> all_plain(Self::entries(v)),
    {
        reveal_strlit("types");
        assert("types"@.len() == 5);
        let fields = Self::fields(v);
        assert(fields.len() == 1);
        assert(fields[0].0 == "types"@ && Self::key_rank(fields[0].0) == 0);
        lemma_record(fields, |k: Seq<char>| Self::key_rank(k));
        assert(fields[0].1 == list_node::<BranchProtectionRuleType>(v.types));
    }

    /// Omission: the key of a field is among the entries of the record
    /// exactly where the field is set. A field that is always there is
    /// always set; a list, a text or a map is set where it is not empty, and
    /// a flag where it is up.
    pub proof fn lemma_omission(v: BranchProtectionRuleView)
        ensures
            has_key(Self::entries(v), "types"@) <==> v.types.len() > 0,
    {
        Self::lemma_fields(v);
        lemma_position(Self::entries(v), "types"@);
    }

    /// Sets `types` and leaves the other fields as they are.
    pub fn types(self, value: Vec<BranchProtectionRuleType>) -> (r: Self)
        ensures
            r == (BranchProtectionRule { types: value, ..self }),
    {
        let mut r = self;
        r.types = value;
        r
    }

    /// Puts `type_` after the types.
    pub fn add_type(self, type_: BranchProtectionRuleType) -> (r: Self)
        ensures
            r.deep_view() == (BranchProtectionRuleView {
                types: self.deep_view().types.push(type_),
                ..self.deep_view()
            }),
    {
        let mut r = self;
        r.types.push(type_);
        assert(r.types.deep_view() =~= self.types.deep_view().push(type_));
        r
    }
}

impl Codec for BranchProtectionRule {
    /// A mapping with one entry for each field that is set, in the order
    /// of the fields.
    open spec fn encode(v: BranchProtectionRuleView) -> Node {
        Node::Dict(Self::entries(v))
    }

    /// Reads each field from the entry under its key. Entries under other
    /// keys are passed over.
    open spec fn decode(n: Node) -> Option<BranchProtectionRuleView> {
        match n {
            Node::Dict(e) => {
                let types = list_field::<BranchProtectionRuleType>(e, "types"@);
                if {
                    &&& types is Some
                } {
                    Some(
                        BranchProtectionRuleView {
                            types: types->Some_0,
                        },
                    )
                } else {
                    None
                }
            },
            _ => None,
        }
    }

    open spec fn valid(v: BranchProtectionRuleView) -> bool {
        Vec::<BranchProtectionRuleType>::valid(v.types)
    }

    proof fn lemma_round_trip(v: BranchProtectionRuleView) {
        Self::lemma_fields(v);
        let e = Self::entries(v);
        lemma_list_field::<BranchProtectionRuleType>(e, "types"@, v.types);
    }

    fn to_tree(&self) -> (t: Tree) {
        broadcast use {lemma_record_empty, lemma_record_push};

        let m = record();
        let m = put_list(m, "types", &self.types);
        mapping(m)
    }

    fn from_tree(t: &Tree) -> (r: Result<Self, WorkflowError>) {
        match entries_of(t) {
            Some(m) => {
                let types = get_list::<BranchProtectionRuleType>(m, "types")?;
                Ok(BranchProtectionRule { types })
            },
            None => Err(WorkflowError::Parse),
        }
    }
}

impl Default for BranchProtectionRule {
    /// The entity with no field set.
    fn default() -> (r: Self)
        ensures
            r.deep_view() == Self::blank(),
    {
        let r = BranchProtectionRule {
            types: Vec::new(),
        };
        assert(r.types.deep_view() =~= Seq::empty());
        r
    }
}

/// What happened to a check run.
#[derive(Debug, Clone, Copy, PartialEq, Eq, Structural)]
pub enum CheckRunType {
    Created,
    Rerequested,
    Completed,
    RequestedAction,
}

impl DeepView for CheckRunType {
    type V = CheckRunType;

    open spec fn deep_view(&self) -> CheckRunType {
        *self
    }
}

impl CheckRunType {
    /// The word that is written for the variant.
    pub open spec fn word(self) -> Seq<char> {
        match self {
            CheckRunType::Created => "created"@,
            CheckRunType::Rerequested => "rerequested"@,
            CheckRunType::Completed => "completed"@,
            CheckRunType::RequestedAction => "requested_action"@,
        }
    }

    /// The variant that a word stands for.
    pub open spec fn of_word(w: Seq<char>) -> Option<CheckRunType> {
        if w == "created"@ {
            Some(CheckRunType::Created)
        } else if w == "rerequested"@ {
            Some(CheckRunType::Rerequested)
        } else if w == "completed"@ {
            Some(CheckRunType::Completed)
        } else if w == "requested_action"@ {
            Some(CheckRunType::RequestedAction)
        } else {
            None
        }
    }

    /// Each variant is the one that its own word stands for.
    pub proof fn lemma_words(self)
        ensures
            Self::of_word(self.word()) == Some(self),
    {
        reveal_strlit("created");
        reveal_strlit("rerequested");
        reveal_strlit("completed");
        reveal_strlit("requested_action");
        assert("created"@.len() == 7);
        assert("rerequested"@.len() == 11);
        assert("completed"@.len() == 9);
        assert("requested_action"@.len() == 16);
    }

    /// The word that is written for the variant.
    pub fn as_str(&self) -> (s: &'static str)
        ensures
            s@ == self.word(),
    {
        match self {
            CheckRunType::Created => "created",
            CheckRunType::Rerequested => "rerequested",
            CheckRunType::Completed => "completed",
            CheckRunType::RequestedAction => "requested_action",
        }
    }

    /// The variant that a word stands for.
    pub fn from_word(w: &str) -> (r: Option<CheckRunType>)
        ensures
            r == Self::of_word(w@),
    {
        if same(w, "created") {
            Some(CheckRunType::Created)
        } else if same(w, "rerequested") {
            Some(CheckRunType::Rerequested)
        } else if same(w, "completed") {
            Some(CheckRunType::Completed)
        } else if same(w, "requested_action") {
            Some(CheckRunType::RequestedAction)
        } else {
            None
        }
    }
}

impl Codec for CheckRunType {
    /// The word of the variant, as a string.
    open spec fn encode(v: CheckRunType) -> Node {
        Node::Str(v.word())
    }

    open spec fn decode(n: Node) -> Option<CheckRunType> {
        match n {
            Node::Str(w) => Self::of_word(w),
            _ => None,
        }
    }

    open spec fn valid(v: CheckRunType) -> bool {
        true
    }

    proof fn lemma_round_trip(v: CheckRunType) {
        v.lemma_words();
    }

    fn to_tree(&self) -> (t: Tree) {
        Tree::String(self.as_str().to_owned())
    }

    fn from_tree(t: &Tree) -> (r: Result<Self, WorkflowError>) {
        match t {
            Tree::String(w) => match Self::from_word(w.as_str()) {
                Some(v) => Ok(v),
                None => Err(WorkflowError::Parse),
            },
            _ => Err(WorkflowError::Parse),
        }
    }
}

/// A check run changed.
#[derive(Debug, Clone, PartialEq, Eq)]
pub struct CheckRun {
    /// The kinds of activity that count.
    pub types: Vec<CheckRunType>,
}

/// The model of `CheckRun`: every field as its own model.
pub struct CheckRunView {
    pub types: Seq<CheckRunType>,
}

impl DeepView for CheckRun {
    type V = CheckRunView;

    open spec fn deep_view(&self) -> CheckRunView {
        CheckRunView {
            types: self.types.deep_view(),
        }
    }
}

impl CheckRun {
    /// The model of the entity with no field set: a field that is always
    /// there is empty.
    pub open spec fn blank() -> CheckRunView {
        CheckRunView {
            types: Seq::empty(),
        }
    }

    /// The fields with their keys, in the order in which they are written.
    pub open spec fn fields(v: CheckRunView) -> Fields {
        Seq::empty()
            .push(("types"@, list_node::<CheckRunType>(v.types)))
    }

    /// The entries of the record: one for each field that is set.
    pub open spec fn entries(v: CheckRunView) -> Seq<(Seq<char>, Node)> {
        record_entries(Self::fields(v))
    }

    /// The place of a key among the fields, told by the length of the key
    /// and as many of its characters as it takes.
    pub open spec fn key_rank(k: Seq<char>) -> int {
        if k.len() == 5 {
            0
        } else {
            1
        }
    }

    /// In the entries of the record each key leads to its own field: to
    /// the field's tree where the field is set, and nowhere where it is not.
    /// The entries are plain where the trees of the fields are.
    pub proof fn lemma_fields(v: CheckRunView)
        ensures
            lookup(Self::entries(v), "types"@) == list_node::<CheckRunType>(v.types),
            ({
                &&& plain_opt(list_node::<CheckRunType>(v.types))
            }) ==> all_plain(Self::entries(v)),
    {
        reveal_strlit("types");
        assert("types"@.len() == 5);
        let fields = Self::fields(v);
        assert(fields.len() == 1);
        assert(fields[0].0 == "types"@ && Self::key_rank(fields[0].0) == 0);
        lemma_record(fields, |k: Seq<char>| Self::key_rank(k));
        assert(fields[0].1 == list_node::<CheckRunType>(v.types));
    }

    /// Omission: the key of a field is among the entries of the record
    /// exactly where the field is set. A field that is always there is
    /// always set; a list, a text or a map is set where it is not empty, and
    /// a flag where it is up.
    pub proof fn lemma_omission(v: CheckRunView)
        ensures
            has_key(Self::entries(v), "types"@) <==> v.types.len() > 0,
    {
        Self::lemma_fields(v);
        lemma_position(Self::entries(v), "types"@);
    }

    /// Sets `types` and leaves the other fields as they are.
    pub fn types(self, value: Vec<CheckRunType>) -> (r: Self)
        ensures
            r == (CheckRun { types: value, ..self }),
    {
        let mut r = self;
        r.types = value;
        r
    }

    /// Puts `type_` after the types.
    pub fn add_type(self, type_: CheckRunType) -> (r: Self)
        ensures
            r.deep_view() == (CheckRunView {
                types: self.deep_view().types.push(type_),
                ..self.deep_view()
            }),
    {
        let mut r = self;
        r.types.push(type_);
        assert(r.types.deep_view() =~= self.types.deep_view().push(type_));
        r
    }
}

impl Codec for CheckRun {
    /// A mapping with one entry for each field that is set, in the order
    /// of the fields.
    open spec fn encode(v: CheckRunView) -> Node {
        Node::Dict(Self::entries(v))
    }

    /// Reads each field from the entry under its key. Entries under other
    /// keys are passed over.
    open spec fn decode(n: Node) -> Option<CheckRunView> {
        match n {
            Node::Dict(e) => {
                let types = list_field::<CheckRunType>(e, "types"@);
                if {
                    &&& types is Some
                } {
                    Some(
                        CheckRunView {
                            types: types->Some_0,
                        },
                    )
                } else {
                    None
                }
            },
            _ => None,
        }
    }

    open spec fn valid(v: CheckRunView) -> bool {
        Vec::<CheckRunType>::valid(v.types)
    }

    proof fn lemma_round_trip(v: CheckRunView) {
        Self::lemma_fields(v);
        let e = Self::entries(v);
        lemma_list_field::<CheckRunType>(e, "types"@, v.types);
    }

    fn to_tree(&self) -> (t: Tree) {
        broadcast use {lemma_record_empty, lemma_record_push};

        let m = record();
        let m = put_list(m, "types", &self.types);
        mapping(m)
    }

    fn from_tree(t: &Tree) -> (r: Result<Self, WorkflowError>) {
        match entries_of(t) {
            Some(m) => {
                let types = get_list::<CheckRunType>(m, "types")?;
                Ok(CheckRun { types })
            },
            None => Err(WorkflowError::Parse),
        }
    }
}

impl Default for CheckRun {
    /// The entity with no field set.
    fn default() -> (r: Self)
        ensures
            r.deep_view() == Self::blank(),
    {
        let r = CheckRun {
            types: Vec::new(),
        };
        assert(r.types.deep_view() =~= Seq::empty());
        r
    }
}

/// What happened to a check suite.
#[derive(Debug, Clone, Copy, PartialEq, Eq, Structural)]
pub enum CheckSuiteType {
    Completed,
}

impl DeepView for CheckSuiteType {
    type V = CheckSuiteType;

    open spec fn deep_view(&self) -> CheckSuiteType {
        *self
    }
}

impl CheckSuiteType {
    /// The word that is written for the variant.
    pub open spec fn word(self) -> Seq<char> {
        match self {
            CheckSuiteType::Completed => "completed"@,
        }
    }

    /// The variant that a word stands for.
    pub open spec fn of_word(w: Seq<char>) -> Option<CheckSuiteType> {
        if w == "completed"@ {
            Some(CheckSuiteType::Completed)
        } else {
            None
        }
    }

    /// Each variant is the one that its own word stands for.
    pub proof fn lemma_words(self)
        ensures
            Self::of_word(self.word()) == Some(self),
    {
        reveal_strlit("completed");
        assert("completed"@.len() == 9);
    }

    /// The word that is written for the variant.
    pub fn as_str(&self) -> (s: &'static str)
        ensures
            s@ == self.word(),
    {
        match self {
            CheckSuiteType::Completed => "completed",
        }
    }

    /// The variant that a word stands for.
    pub fn from_word(w: &str) -> (r: Option<CheckSuiteType>)
        ensures
            r == Self::of_word(w@),
    {
        if same(w, "completed") {
            Some(CheckSuiteType::Completed)
        } else {
            None
        }
    }
}

impl Codec for CheckSuiteType {
    /// The word of the variant, as a string.
    open spec fn encode(v: CheckSuiteType) -> Node {
        Node::Str(v.word())
    }

    open spec fn decode(n: Node) -> Option<CheckSuiteType> {
        match n {
            Node::Str(w) => Self::of_word(w),
            _ => None,
        }
    }

    open spec fn valid(v: CheckSuiteType) -> bool {
        true
    }

    proof fn lemma_round_trip(v: CheckSuiteType) {
        v.lemma_words();
    }

    fn to_tree(&self) -> (t: Tree) {
        Tree::String(self.as_str().to_owned())
    }

    fn from_tree(t: &Tree) -> (r: Result<Self, WorkflowError>) {
        match t {
            Tree::String(w) => match Self::from_word(w.as_str()) {
                Some(v) => Ok(v),
                None => Err(WorkflowError::Parse),
            },
            _ => Err(WorkflowError::Parse),
        }
    }
}

/// A check suite changed.
#[derive(Debug, Clone, PartialEq, Eq)]
pub struct CheckSuite {
    /// The kinds of activity that count.
    pub types: Vec<CheckSuiteType>,
}

/// The model of `CheckSuite`: every field as its own model.
pub struct CheckSuiteView {
    pub types: Seq<CheckSuiteType>,
}

impl DeepView for CheckSuite {
    type V = CheckSuiteView;

    open spec fn deep_view(&self) -> CheckSuiteView {
        CheckSuiteView {
            types: self.types.deep_view(),
        }
    }
}

impl CheckSuite {
    /// The model of the entity with no field set: a field that is always
    /// there is empty.
    pub open spec fn blank() -> CheckSuiteView {
        CheckSuiteView {
            types: Seq::empty(),
        }
    }

    /// The fields with their keys, in the order in which they are written.
    pub open spec fn fields(v: CheckSuiteView) -> Fields {
        Seq::empty()
            .push(("types"@, list_node::<CheckSuiteType>(v.types)))
    }

    /// The entries of the record: one for each field that is set.
    pub open spec fn entries(v: CheckSuiteView) -> Seq<(Seq<char>, Node)> {
        record_entries(Self::fields(v))
    }

    /// The place of a key among the fields, told by the length of the key
    /// and as many of its characters as it takes.
    pub open spec fn key_rank(k: Seq<char>) -> int {
        if k.len() == 5 {
            0
        } else {
            1
        }
    }

    /// In the entries of the record each key leads to its own field: to
    /// the field's tree where the field is set, and nowhere where it is not.
    /// The entries are plain where the trees of the fields are.
    pub proof fn lemma_fields(v: CheckSuiteView)
        ensures
            lookup(Self::entries(v), "types"@) == list_node::<CheckSuiteType>(v.types),
            ({
                &&& plain_opt(list_node::<CheckSuiteType>(v.types))
            }) ==> all_plain(Self::entries(v)),
    {
        reveal_strlit("types");
        assert("types"@.len() == 5);
        let fields = Self::fields(v);
        assert(fields.len() == 1);
        assert(fields[0].0 == "types"@ && Self::key_rank(fields[0].0) == 0);
        lemma_record(fields, |k: Seq<char>| Self::key_rank(k));
        assert(fields[0].1 == list_node::<CheckSuiteType>(v.types));
    }

    /// Omission: the key of a field is among the entries of the record
    /// exactly where the field is set. A field that is always there is
    /// always set; a list, a text or a map is set where it is not empty, and
    /// a flag where it is up.
    pub proof fn lemma_omission(v: CheckSuiteView)
        ensures
            has_key(Self::entries(v), "types"@) <==> v.types.len() > 0,
    {
        Self::lemma_fields(v);
        lemma_position(Self::entries(v), "types"@);
    }

    /// Sets `types` and leaves the other fields as they are.
    pub fn types(self, value: Vec<CheckSuiteType>) -> (r: Self)
        ensures
            r == (CheckSuite { types: value, ..self }),
    {
        let mut r = self;
        r.types = value;
        r
    }

    /// Puts `type_` after the types.
    pub fn add_type(self, type_: CheckSuiteType) -> (r: Self)
        ensures
            r.deep_view() == (CheckSuiteView {
                types: self.deep_view().types.push(type_),
                ..self.deep_view()
            }),
    {
        let mut r = self;
        r.types.push(type_);
        assert(r.types.deep_view() =~= self.types.deep_view().push(type_));
        r
    }
}

impl Codec for CheckSuite {
    /// A mapping with one entry for each field that is set, in the order
    /// of the fields.
    open spec fn encode(v: CheckSuiteView) -> Node {
        Node::Dict(Self::entries(v))
    }

    /// Reads each field from the entry under its key. Entries under other
    /// keys are passed over.
    open spec fn decode(n: Node) -> Option<CheckSuiteView> {
        match n {
            Node::Dict(e) => {
                let types = list_field::<CheckSuiteType>(e, "types"@);
                if {
                    &&& types is Some
                } {
                    Some(
                        CheckSuiteView {
                            types: types->Some_0,
                        },
                    )
                } else {
                    None
                }
            },
            _ => None,
        }
    }

    open spec fn valid(v: CheckSuiteView) -> bool {
        Vec::<CheckSuiteType>::valid(v.types)
    }

    proof fn lemma_round_trip(v: CheckSuiteView) {
        Self::lemma_fields(v);
        let e = Self::entries(v);
        lemma_list_field::<CheckSuiteType>(e, "types"@, v.types);
    }

    fn to_tree(&self) -> (t: Tree) {
        broadcast use {lemma_record_empty, lemma_record_push};

        let m = record();
        let m = put_list(m, "types", &self.types);
        mapping(m)
    }

    fn from_tree(t: &Tree) -> (r: Result<Self, WorkflowError>) {
        match entries_of(t) {
            Some(m) => {
                let types = get_list::<CheckSuiteType>(m, "types")?;
                Ok(CheckSuite { types })
            },
            None => Err(WorkflowError::Parse),
        }
    }
}

impl Default for CheckSuite {
    /// The entity with no field set.
    fn default() -> (r: Self)
        ensures
            r.deep_view() == Self::blank(),
    {
        let r = CheckSuite {
            types: Vec::new(),
        };
        assert(r.types.deep_view() =~= Seq::empty());
        r
    }
}

/// A branch or a tag was created.
#[derive(Debug, Clone, PartialEq, Eq)]
pub struct Create {
    /// The branches on which the event counts.
    pub branches: Vec<String>,
    /// The tags on which the event counts.
    pub tags: Vec<String>,
}

/// The model of `Create`: every field as its own model.
pub struct CreateView {
    pub branches: Seq<Seq<char>>,
    pub tags: Seq<Seq<char>>,
}

impl DeepView for Create {
    type V = CreateView;

    open spec fn deep_view(&self) -> CreateView {
        CreateView {
            branches: self.branches.deep_view(),
            tags: self.tags.deep_view(),
        }
    }
}

impl Create {
    /// The model of the entity with no field set: a field that is always
    /// there is empty.
    pub open spec fn blank() -> CreateView {
        CreateView {
            branches: Seq::empty(),
            tags: Seq::empty(),
        }
    }

    /// The fields with their keys, in the order in which they are written.
    pub open spec fn fields(v: CreateView) -> Fields {
        Seq::empty()
            .push(("branches"@, list_node::<String>(v.branches)))
            .push(("tags"@, list_node::<String>(v.tags)))
    }

    /// The entries of the record: one for each field that is set.
    pub open spec fn entries(v: CreateView) -> Seq<(Seq<char>, Node)> {
        record_entries(Self::fields(v))
    }

    /// The place of a key among the fields, told by the length of the key
    /// and as many of its characters as it takes.
    pub open spec fn key_rank(k: Seq<char>) -> int {
        if k.len() == 8 {
            0
        } else if k.len() == 4 {
            1
        } else {
            2
        }
    }

    /// In the entries of the record each key leads to its own field: to
    /// the field's tree where the field is set, and nowhere where it is not.
    /// The entries are plain where the trees of the fields are.
    pub proof fn lemma_fields(v: CreateView)
        ensures
            lookup(Self::entries(v), "branches"@) == list_node::<String>(v.branches),
            lookup(Self::entries(v), "tags"@) == list_node::<String>(v.tags),
            ({
                &&& plain_opt(list_node::<String>(v.branches))
                &&& plain_opt(list_node::<String>(v.tags))
            }) ==> all_plain(Self::entries(v)),
    {
        reveal_strlit("branches");
        reveal_strlit("tags");
        assert("branches"@.len() == 8);
        assert("tags"@.len() == 4);
        let fields = Self::fields(v);
        assert(fields.len() == 2);
        assert(fields[0].0 == "branches"@ && Self::key_rank(fields[0].0) == 0);
        assert(fields[1].0 == "tags"@ && Self::key_rank(fields[1].0) == 1);
        lemma_record(fields, |k: Seq<char>| Self::key_rank(k));
        assert(fields[0].1 == list_node::<String>(v.branches));
        assert(fields[1].1 == list_node::<String>(v.tags));
    }

    /// Omission: the key of a field is among the entries of the record
    /// exactly where the field is set. A field that is always there is
    /// always set; a list, a text or a map is set where it is not empty, and
    /// a flag where it is up.
    pub proof fn lemma_omission(v: CreateView)
        ensures
            has_key(Self::entries(v), "branches"@) <==> v.branches.len() > 0,
            has_key(Self::entries(v), "tags"@) <==> v.tags.len() > 0,
    {
        Self::lemma_fields(v);
        lemma_position(Self::entries(v), "branches"@);
        lemma_position(Self::entries(v), "tags"@);
    }

    /// Sets `branches` and leaves the other fields as they are.
    pub fn branches(self, value: Vec<String>) -> (r: Self)
        ensures
            r == (Create { branches: value, ..self }),
    {
        let mut r = self;
        r.branches = value;
        r
    }

    /// Sets `tags` and leaves the other fields as they are.
    pub fn tags(self, value: Vec<String>) -> (r: Self)
        ensures
            r == (Create { tags: value, ..self }),
    {
        let mut r = self;
        r.tags = value;
        r
    }

    /// Puts `branch` after the branches.
    pub fn add_branch(self, branch: &str) -> (r: Self)
        ensures
            r.deep_view() == (CreateView {
                branches: self.deep_view().branches.push(branch@),
                ..self.deep_view()
            }),
    {
        let mut r = self;
        r.branches.push(branch.to_owned());
        assert(r.branches.deep_view() =~= self.branches.deep_view().push(branch@));
        r
    }

    /// Puts `tag` after the tags.
    pub fn add_tag(self, tag: &str) -> (r: Self)
        ensures
            r.deep_view() == (CreateView {
                tags: self.deep_view().tags.push(tag@),
                ..self.deep_view()
            }),
    {
        let mut r = self;
        r.tags.push(tag.to_owned());
        assert(r.tags.deep_view() =~= self.tags.deep_view().push(tag@));
        r
    }
}

impl Codec for Create {
    /// A mapping with one entry for each field that is set, in the order
    /// of the fields.
    open spec fn encode(v: CreateView) -> Node {
        Node::Dict(Self::entries(v))
    }

    /// Reads each field from the entry under its key. Entries under other
    /// keys are passed over.
    open spec fn decode(n: Node) -> Option<CreateView> {
        match n {
            Node::Dict(e) => {
                let branches = list_field::<String>(e, "branches"@);
                let tags = list_field::<String>(e, "tags"@);
                if {
                    &&& branches is Some
                    &&& tags is Some
                } {
                    Some(
                        CreateView {
                            branches: branches->Some_0,
                            tags: tags->Some_0,
                        },
                    )
                } else {
                    None
                }
            },
            _ => None,
        }
    }

    open spec fn valid(v: CreateView) -> bool {
        &&& Vec::<String>::valid(v.branches)
        &&& Vec::<String>::valid(v.tags)
    }

    proof fn lemma_round_trip(v: CreateView) {
        Self::lemma_fields(v);
        let e = Self::entries(v);
        lemma_list_field::<String>(e, "branches"@, v.branches);
        lemma_list_field::<String>(e, "tags"@, v.tags);
    }

    fn to_tree(&self) -> (t: Tree) {
        broadcast use {lemma_record_empty, lemma_record_push};

        let m = record();
        let m = put_list(m, "branches", &self.branches);
        let m = put_list(m, "tags", &self.tags);
        mapping(m)
    }

    fn from_tree(t: &Tree) -> (r: Result<Self, WorkflowError>) {
        match entries_of(t) {
            Some(m) => {
                let branches = get_list::<String>(m, "branches")?;
                let tags = get_list::<String>(m, "tags")?;
                Ok(Create { branches, tags })
            },
            None => Err(WorkflowError::Parse),
        }
    }
}

impl Default for Create {
    /// The entity with no field set.
    fn default() -> (r: Self)
        ensures
            r.deep_view() == Self::blank(),
    {
        let r = Create {
            branches: Vec::new(),
            tags: Vec::new(),
        };
        assert(r.branches.deep_view() =~= Seq::empty());
        assert(r.tags.deep_view() =~= Seq::empty());
        r
    }
}

/// A branch or a tag was deleted.
#[derive(Debug, Clone, PartialEq, Eq)]
pub struct Delete {
    /// The branches on which the event counts.
    pub branches: Vec<String>,
    /// The tags on which the event counts.
    pub tags: Vec<String>,
}

/// The model of `Delete`: every field as its own model.
pub struct DeleteView {
    pub branches: Seq<Seq<char>>,
    pub tags: Seq<Seq<char>>,
}

impl DeepView for Delete {
    type V = DeleteView;

    open spec fn deep_view(&self) -> DeleteView {
        DeleteView {
            branches: self.branches.deep_view(),
            tags: self.tags.deep_view(),
        }
    }
}

impl Delete {
    /// The model of the entity with no field set: a field that is always
    /// there is empty.
    pub open spec fn blank() -> DeleteView {
        DeleteView {
            branches: Seq::empty(),
            tags: Seq::empty(),
        }
    }

    /// The fields with their keys, in the order in which they are written.
    pub open spec fn fields(v: DeleteView) -> Fields {
        Seq::empty()
            .push(("branches"@, list_node::<String>(v.branches)))
            .push(("tags"@, list_node::<String>(v.tags)))
    }

    /// The entries of the record: one for each field that is set.
    pub open spec fn entries(v: DeleteView) -> Seq<(Seq<char>, Node)> {
        record_entries(Self::fields(v))
    }

    /// The place of a key among the fields, told by the length of the key
    /// and as many of its characters as it takes.
    pub open spec fn key_rank(k: Seq<char>) -> int {
        if k.len() == 8 {
            0
        } else if k.len() == 4 {
            1
        } else {
            2
        }
    }

    /// In the entries of the record each key leads to its own field: to
    /// the field's tree where the field is set, and nowhere where it is not.
    /// The entries are plain where the trees of the fields are.
    pub proof fn lemma_fields(v: DeleteView)
        ensures
            lookup(Self::entries(v), "branches"@) == list_node::<String>(v.branches),
            lookup(Self::entries(v), "tags"@) == list_node::<String>(v.tags),
            ({
                &&& plain_opt(list_node::<String>(v.branches))
                &&& plain_opt(list_node::<String>(v.tags))
            }) ==> all_plain(Self::entries(v)),
    {
        reveal_strlit("branches");
        reveal_strlit("tags");
        assert("branches"@.len() == 8);
        assert("tags"@.len() == 4);
        let fields = Self::fields(v);
        assert(fields.len() == 2);
        assert(fields[0].0 == "branches"@ && Self::key_rank(fields[0].0) == 0);
        assert(fields[1].0 == "tags"@ && Self::key_rank(fields[1].0) == 1);
        lemma_record(fields, |k: Seq<char>| Self::key_rank(k));
        assert(fields[0].1 == list_node::<String>(v.branches));
        assert(fields[1].1 == list_node::<String>(v.tags));
    }

    /// Omission: the key of a field is among the entries of the record
    /// exactly where the field is set. A field that is always there is
    /// always set; a list, a text or a map is set where it is not empty, and
    /// a flag where it is up.
    pub proof fn lemma_omission(v: DeleteView)
        ensures
            has_key(Self::entries(v), "branches"@) <==> v.branches.len() > 0,
            has_key(Self::entries(v), "tags"@) <==> v.tags.len() > 0,
    {
        Self::lemma_fields(v);
        lemma_position(Self::entries(v), "branches"@);
        lemma_position(Self::entries(v), "tags"@);
    }

    /// Sets `branches` and leaves the other fields as they are.
    pub fn branches(self, value: Vec<String>) -> (r: Self)
        ensures
            r == (Delete { branches: value, ..self }),
    {
        let mut r = self;
        r.branches = value;
        r
    }

    /// Sets `tags` and leaves the other fields as they are.
    pub fn tags(self, value: Vec<String>) -> (r: Self)
        ensures
            r == (Delete { tags: value, ..self }),
    {
        let mut r = self;
        r.tags = value;
        r
    }

    /// Puts `branch` after the branches.
    pub fn add_branch(self, branch: &str) -> (r: Self)
        ensures
            r.deep_view() == (DeleteView {
                branches: self.deep_view().branches.push(branch@),
                ..self.deep_view()
            }),
    {
        let mut r = self;
        r.branches.push(branch.to_owned());
        assert(r.branches.deep_view() =~= self.branches.deep_view().push(branch@));
        r
    }

    /// Puts `tag` after the tags.
    pub fn add_tag(self, tag: &str) -> (r: Self)
        ensures
            r.deep_view() == (DeleteView {
                tags: self.deep_view().tags.push(tag@),
                ..self.deep_view()
            }),
    {
        let mut r = self;
        r.tags.push(tag.to_owned());
        assert(r.tags.deep_view() =~= self.tags.deep_view().push(tag@));
        r
    }
}

impl Codec for Delete {
    /// A mapping with one entry for each field that is set, in the order
    /// of the fields.
    open spec fn encode(v: DeleteView) -> Node {
        Node::Dict(Self::entries(v))
    }

    /// Reads each field from the entry under its key. Entries under other
    /// keys are passed over.
    open spec fn decode(n: Node) -> Option<DeleteView> {
        match n {
            Node::Dict(e) => {
                let branches = list_field::<String>(e, "branches"@);
                let tags = list_field::<String>(e, "tags"@);
                if {
                    &&& branches is Some
                    &&& tags is Some
                } {
                    Some(
                        DeleteView {
                            branches: branches->Some_0,
                            tags: tags->Some_0,
                        },
                    )
                } else {
                    None
                }
            },
            _ => None,
        }
    }

    open spec fn valid(v: DeleteView) -> bool {
        &&& Vec::<String>::valid(v.branches)
        &&& Vec::<String>::valid(v.tags)
    }

    proof fn lemma_round_trip(v: DeleteView) {
        Self::lemma_fields(v);
        let e = Self::entries(v);
        lemma_list_field::<String>(e, "branches"@, v.branches);
        lemma_list_field::<String>(e, "tags"@, v.tags);
    }

    fn to_tree(&self) -> (t: Tree) {
        broadcast use {lemma_record_empty, lemma_record_push};

        let m = record();
        let m = put_list(m, "branches", &self.branches);
        let m = put_list(m, "tags", &self.tags);
        mapping(m)
    }

    fn from_tree(t: &Tree) -> (r: Result<Self, WorkflowError>) {
        match entries_of(t) {
            Some(m) => {
                let branches = get_list::<String>(m, "branches")?;
                let tags = get_list::<String>(m, "tags")?;
                Ok(Delete { branches, tags })
            },
            None => Err(WorkflowError::Parse),
        }
    }
}

impl Default for Delete {
    /// The entity with no field set.
    fn default() -> (r: Self)
        ensures
            r.deep_view() == Self::blank(),
    {
        let r = Delete {
            branches: Vec::new(),
            tags: Vec::new(),
        };
        assert(r.branches.deep_view() =~= Seq::empty());
        assert(r.tags.deep_view() =~= Seq::empty());
        r
    }
}

/// A deployment was created.
#[derive(Debug, Clone, PartialEq, Eq)]
pub struct Deployment {
    /// The branches on which the event counts.
    pub branches: Vec<String>,
}

/// The model of `Deployment`: every field as its own model.
pub struct DeploymentView {
    pub branches: Seq<Seq<char>>,
}

impl DeepView for Deployment {
    type V = DeploymentView;

    open spec fn deep_view(&self) -> DeploymentView {
        DeploymentView {
            branches: self.branches.deep_view(),
        }
    }
}

impl Deployment {
    /// The model of the entity with no field set: a field that is always
    /// there is empty.
    pub open spec fn blank() -> DeploymentView {
        DeploymentView {
            branches: Seq::empty(),
        }
    }

    /// The fields with their keys, in the order in which they are written.
    pub open spec fn fields(v: DeploymentView) -> Fields {
        Seq::empty()
            .push(("branches"@, list_node::<String>(v.branches)))
    }

    /// The entries of the record: one for each field that is set.
    pub open spec fn entries(v: DeploymentView) -> Seq<(Seq<char>, Node)> {
        record_entries(Self::fields(v))
    }

    /// The place of a key among the fields, told by the length of the key
    /// and as many of its characters as it takes.
    pub open spec fn key_rank(k: Seq<char>) -> int {
        if k.len() == 8 {
            0
        } else {
            1
        }
    }

    /// In the entries of the record each key leads to its own field: to
    /// the field's tree where the field is set, and nowhere where it is not.
    /// The entries are plain where the trees of the fields are.
    pub proof fn lemma_fields(v: DeploymentView)
        ensures
            lookup(Self::entries(v), "branches"@) == list_node::<String>(v.branches),
            ({
                &&& plain_opt(list_node::<String>(v.branches))
            }) ==> all_plain(Self::entries(v)),
    {
        reveal_strlit("branches");
        assert("branches"@.len() == 8);
        let fields = Self::fields(v);
        assert(fields.len() == 1);
        assert(fields[0].0 == "branches"@ && Self::key_rank(fields[0].0) == 0);
        lemma_record(fields, |k: Seq<char>| Self::key_rank(k));
        assert(fields[0].1 == list_node::<String>(v.branches));
    }

    /// Omission: the key of a field is among the entries of the record
    /// exactly where the field is set. A field that is always there is
    /// always set; a list, a text or a map is set where it is not empty, and
    /// a flag where it is up.
    pub proof fn lemma_omission(v: DeploymentView)
        ensures
            has_key(Self::entries(v), "branches"@) <==> v.branches.len() > 0,
    {
        Self::lemma_fields(v);
        lemma_position(Self::entries(v), "branches"@);
    }

    /// Sets `branches` and leaves the other fields as they are.
    pub fn branches(self, value: Vec<String>) -> (r: Self)
        ensures
            r == (Deployment { branches: value, ..self }),
    {
        let mut r = self;
        r.branches = value;
        r
    }

    /// Puts `branch` after the branches.
    pub fn add_branch(self, branch: &str) -> (r: Self)
        ensures
            r.deep_view() == (DeploymentView {
                branches: self.deep_view().branches.push(branch@),
                ..self.deep_view()
            }),
    {
        let mut r = self;
        r.branches.push(branch.to_owned());
        assert(r.branches.deep_view() =~= self.branches.deep_view().push(branch@));
        r
    }
}

impl Codec for Deployment {
    /// A mapping with one entry for each field that is set, in the order
    /// of the fields.
    open spec fn encode(v: DeploymentView) -> Node {
        Node::Dict(Self::entries(v))
    }

    /// Reads each field from the entry under its key. Entries under other
    /// keys are passed over.
    open spec fn decode(n: Node) -> Option<DeploymentView> {
        match n {
            Node::Dict(e) => {
                let branches = list_field::<String>(e, "branches"@);
                if {
                    &&& branches is Some
                } {
                    Some(
                        DeploymentView {
                            branches: branches->Some_0,
                        },
                    )
                } else {
                    None
                }
            },
            _ => None,
        }
    }

    open spec fn valid(v: DeploymentView) -> bool {
        Vec::<String>::valid(v.branches)
    }

    proof fn lemma_round_trip(v: DeploymentView) {
        Self::lemma_fields(v);
        let e = Self::entries(v);
        lemma_list_field::<String>(e, "branches"@, v.branches);
    }

    fn to_tree(&self) -> (t: Tree) {
        broadcast use {lemma_record_empty, lemma_record_push};

        let m = record();
        let m = put_list(m, "branches", &self.branches);
        mapping(m)
    }

    fn from_tree(t: &Tree) -> (r: Result<Self, WorkflowError>) {
        match entries_of(t) {
            Some(m) => {
                let branches = get_list::<String>(m, "branches")?;
                Ok(Deployment { branches })
            },
            None => Err(WorkflowError::Parse),
        }
    }
}

impl Default for Deployment {
    /// The entity with no field set.
    fn default() -> (r: Self)
        ensures
            r.deep_view() == Self::blank(),
    {
        let r = Deployment {
            branches: Vec::new(),
        };
        assert(r.branches.deep_view() =~= Seq::empty());
        r
    }
}

/// The status of a deployment changed.
#[derive(Debug, Clone, PartialEq, Eq)]
pub struct DeploymentStatus {
    /// The states that count.
    pub states: Vec<String>,
}

/// The model of `DeploymentStatus`: every field as its own model.
pub struct DeploymentStatusView {
    pub states: Seq<Seq<char>>,
}

impl DeepView for DeploymentStatus {
    type V = DeploymentStatusView;

    open spec fn deep_view(&self) -> DeploymentStatusView {
        DeploymentStatusView {
            states: self.states.deep_view(),
        }
    }
}

impl DeploymentStatus {
    /// The model of the entity with no field set: a field that is always
    /// there is empty.
    pub open spec fn blank() -> DeploymentStatusView {
        DeploymentStatusView {
            states: Seq::empty(),
        }
    }

    /// The fields with their keys, in the order in which they are written.
    pub open spec fn fields(v: DeploymentStatusView) -> Fields {
        Seq::empty()
            .push(("states"@, list_node::<String>(v.states)))
    }

    /// The entries of the record: one for each field that is set.
    pub open spec fn entries(v: DeploymentStatusView) -> Seq<(Seq<char>, Node)> {
        record_entries(Self::fields(v))
    }

    /// The place of a key among the fields, told by the length of the key
    /// and as many of its characters as it takes.
    pub open spec fn key_rank(k: Seq<char>) -> int {
        if k.len() == 6 {
            0
        } else {
            1
        }
    }

    /// In the entries of the record each key leads to its own field: to
    /// the field's tree where the field is set, and nowhere where it is not.
    /// The entries are plain where the trees of the fields are.
    pub proof fn lemma_fields(v: DeploymentStatusView)
        ensures
            lookup(Self::entries(v), "states"@) == list_node::<String>(v.states),
            ({
                &&& plain_opt(list_node::<String>(v.states))
            }) ==> all_plain(Self::entries(v)),
    {
        reveal_strlit("states");
        assert("states"@.len() == 6);
        let fields = Self::fields(v);
        assert(fields.len() == 1);
        assert(fields[0].0 == "states"@ && Self::key_rank(fields[0].0) == 0);
        lemma_record(fields, |k: Seq<char>| Self::key_rank(k));
        assert(fields[0].1 == list_node::<String>(v.states));
    }

    /// Omission: the key of a field is among the entries of the record
    /// exactly where the field is set. A field that is always there is
    /// always set; a list, a text or a map is set where it is not empty, and
    /// a flag where it is up.
    pub proof fn lemma_omission(v: DeploymentStatusView)
        ensures
            has_key(Self::entries(v), "states"@) <==> v.states.len() > 0,
    {
        Self::lemma_fields(v);
        lemma_position(Self::entries(v), "states"@);
    }

    /// Sets `states` and leaves the other fields as they are.
    pub fn states(self, value: Vec<String>) -> (r: Self)
        ensures
            r == (DeploymentStatus { states: value, ..self }),
    {
        let mut r = self;
        r.states = value;
        r
    }

    /// Puts `state` after the states.
    pub fn add_state(self, state: &str) -> (r: Self)
        ensures
            r.deep_view() == (DeploymentStatusView {
                states: self.deep_view().states.push(state@),
                ..self.deep_view()
            }),
    {
        let mut r = self;
        r.states.push(state.to_owned());
        assert(r.states.deep_view() =~= self.states.deep_view().push(state@));
        r
    }
}

impl Codec for DeploymentStatus {
    /// A mapping with one entry for each field that is set, in the order
    /// of the fields.
    open spec fn encode(v: DeploymentStatusView) -> Node {
        Node::Dict(Self::entries(v))
    }

    /// Reads each field from the entry under its key. Entries under other
    /// keys are passed over.
    open spec fn decode(n: Node) -> Option<DeploymentStatusView> {
        match n {
            Node::Dict(e) => {
                let states = list_field::<String>(e, "states"@);
                if {
                    &&& states is Some
                } {
                    Some(
                        DeploymentStatusView {
                            states: states->Some_0,
                        },
                    )
                } else {
                    None
                }
            },
            _ => None,
        }
    }

    open spec fn valid(v: DeploymentStatusView) -> bool {
        Vec::<String>::valid(v.states)
    }

    proof fn lemma_round_trip(v: DeploymentStatusView) {
        Self::lemma_fields(v);
        let e = Self::entries(v);
        lemma_list_field::<String>(e, "states"@, v.states);
    }

    fn to_tree(&self) -> (t: Tree) {
        broadcast use {lemma_record_empty, lemma_record_push};

        let m = record();
        let m = put_list(m, "states", &self.states);
        mapping(m)
    }

    fn from_tree(t: &Tree) -> (r: Result<Self, WorkflowError>) {
        match entries_of(t) {
            Some(m) => {
                let states = get_list::<String>(m, "states")?;
                Ok(DeploymentStatus { states })
            },
            None => Err(WorkflowError::Parse),
        }
    }
}

impl Default for DeploymentStatus {
    /// The entity with no field set.
    fn default() -> (r: Self)
        ensures
            r.deep_view() == Self::blank(),
    {
        let r = DeploymentStatus {
            states: Vec::new(),
        };
        assert(r.states.deep_view() =~= Seq::empty());
        r
    }
}

/// What happened to a discussion.
#[derive(Debug, Clone, Copy, PartialEq, Eq, Structural)]
pub enum DiscussionType {
    Created,
    Edited,
    Deleted,
    Transferred,
    Pinned,
    Unpinned,
    Labeled,
    Unlabeled,
    Locked,
    Unlocked,
    CategoryChanged,
    Answered,
    Unanswered,
}

impl DeepView for DiscussionType {
    type V = DiscussionType;

    open spec fn deep_view(&self) -> DiscussionType {
        *self
    }
}

impl DiscussionType {
    /// The word that is written for the variant.
    pub open spec fn word(self) -> Seq<char> {
        match self {
            DiscussionType::Created => "created"@,
            DiscussionType::Edited => "edited"@,
            DiscussionType::Deleted => "deleted"@,
            DiscussionType::Transferred => "transferred"@,
            DiscussionType::Pinned => "pinned"@,
            DiscussionType::Unpinned => "unpinned"@,
            DiscussionType::Labeled => "labeled"@,
            DiscussionType::Unlabeled => "unlabeled"@,
            DiscussionType::Locked => "locked"@,
            DiscussionType::Unlocked => "unlocked"@,
            DiscussionType::CategoryChanged => "category_changed"@,
            DiscussionType::Answered => "answered"@,
            DiscussionType::Unanswered => "unanswered"@,
        }
    }

    /// The variant that a word stands for.
    pub open spec fn of_word(w: Seq<char>) -> Option<DiscussionType> {
        if w == "created"@ {
            Some(DiscussionType::Created)
        } else if w == "edited"@ {
            Some(DiscussionType::Edited)
        } else if w == "deleted"@ {
            Some(DiscussionType::Deleted)
        } else if w == "transferred"@ {
            Some(DiscussionType::Transferred)
        } else if w == "pinned"@ {
            Some(DiscussionType::Pinned)
        } else if w == "unpinned"@ {
            Some(DiscussionType::Unpinned)
        } else if w == "labeled"@ {
            Some(DiscussionType::Labeled)
        } else if w == "unlabeled"@ {
            Some(DiscussionType::Unlabeled)
        } else if w == "locked"@ {
            Some(DiscussionType::Locked)
        } else if w == "unlocked"@ {
            Some(DiscussionType::Unlocked)
        } else if w == "category_changed"@ {
            Some(DiscussionType::CategoryChanged)
        } else if w == "answered"@ {
            Some(DiscussionType::Answered)
        } else if w == "unanswered"@ {
            Some(DiscussionType::Unanswered)
        } else {
            None
        }
    }

    /// Each variant is the one that its own word stands for.
    pub proof fn lemma_words(self)
        ensures
            Self::of_word(self.word()) == Some(self),
    {
        reveal_strlit("created");
        reveal_strlit("edited");
        reveal_strlit("deleted");
        reveal_strlit("transferred");
        reveal_strlit("pinned");
        reveal_strlit("unpinned");
        reveal_strlit("labeled");
        reveal_strlit("unlabeled");
        reveal_strlit("locked");
        reveal_strlit("unlocked");
        reveal_strlit("category_changed");
        reveal_strlit("answered");
        reveal_strlit("unanswered");
        assert("created"@.len() == 7);
        assert("edited"@.len() == 6);
        assert("deleted"@.len() == 7);
        assert("transferred"@.len() == 11);
        assert("pinned"@.len() == 6);
        assert("unpinned"@.len() == 8);
        assert("labeled"@.len() == 7);
        assert("unlabeled"@.len() == 9);
        assert("locked"@.len() == 6);
        assert("unlocked"@.len() == 8);
        assert("category_changed"@.len() == 16);
        assert("answered"@.len() == 8);
        assert("unanswered"@.len() == 10);
        assert("created"@[0] == 'c');
        assert("edited"@[0] == 'e');
        assert("deleted"@[0] == 'd');
        assert("pinned"@[0] == 'p');
        assert("unpinned"@[0] == 'u');
        assert("unpinned"@[2] == 'p');
        assert("labeled"@[0] == 'l');
        assert("locked"@[0] == 'l');
        assert("unlocked"@[0] == 'u');
        assert("unlocked"@[2] == 'l');
        assert("answered"@[0] == 'a');
        assert("answered"@[2] == 's');
    }

    /// The word that is written for the variant.
    pub fn as_str(&self) -> (s: &'static str)
        ensures
            s@ == self.word(),
    {
        match self {
            DiscussionType::Created => "created",
            DiscussionType::Edited => "edited",
            DiscussionType::Deleted => "deleted",
            DiscussionType::Transferred => "transferred",
            DiscussionType::Pinned => "pinned",
            DiscussionType::Unpinned => "unpinned",
            DiscussionType::Labeled => "labeled",
            DiscussionType::Unlabeled => "unlabeled",
            DiscussionType::Locked => "locked",
            DiscussionType::Unlocked => "unlocked",
            DiscussionType::CategoryChanged => "category_changed",
            DiscussionType::Answered => "answered",
            DiscussionType::Unanswered => "unanswered",
        }
    }

    /// The variant that a word stands for.
    pub fn from_word(w: &str) -> (r: Option<DiscussionType>)
        ensures
            r == Self::of_word(w@),
    {
        if same(w, "created") {
            Some(DiscussionType::Created)
        } else if same(w, "edited") {
            Some(DiscussionType::Edited)
        } else if same(w, "deleted") {
            Some(DiscussionType::Deleted)
        } else if same(w, "transferred") {
            Some(DiscussionType::Transferred)
        } else if same(w, "pinned") {
            Some(DiscussionType::Pinned)
        } else if same(w, "unpinned") {
            Some(DiscussionType::Unpinned)
        } else if same(w, "labeled") {
            Some(DiscussionType::Labeled)
        } else if same(w, "unlabeled") {
            Some(DiscussionType::Unlabeled)
        } else if same(w, "locked") {
            Some(DiscussionType::Locked)
        } else if same(w, "unlocked") {
            Some(DiscussionType::Unlocked)
        } else if same(w, "category_changed") {
            Some(DiscussionType::CategoryChanged)
        } else if same(w, "answered") {
            Some(DiscussionType::Answered)
        } else if same(w, "unanswered") {
            Some(DiscussionType::Unanswered)
        } else {
            None
        }
    }
}

impl Codec for DiscussionType {
    /// The word of the variant, as a string.
    open spec fn encode(v: DiscussionType) -> Node {
        Node::Str(v.word())
    }

    open spec fn decode(n: Node) -> Option<DiscussionType> {
        match n {
            Node::Str(w) => Self::of_word(w),
            _ => None,
        }
    }

    open spec fn valid(v: DiscussionType) -> bool {
        true
    }

    proof fn lemma_round_trip(v: DiscussionType) {
        v.lemma_words();
    }

    fn to_tree(&self) -> (t: Tree) {
        Tree::String(self.as_str().to_owned())
    }

    fn from_tree(t: &Tree) -> (r: Result<Self, WorkflowError>) {
        match t {
            Tree::String(w) => match Self::from_word(w.as_str()) {
                Some(v) => Ok(v),
                None => Err(WorkflowError::Parse),
            },
            _ => Err(WorkflowError::Parse),
        }
    }
}

/// A discussion changed.
#[derive(Debug, Clone, PartialEq, Eq)]
pub struct Discussion {
    /// The kinds of activity that count.
    pub types: Vec<DiscussionType>,
}

/// The model of `Discussion`: every field as its own model.
pub struct DiscussionView {
    pub types: Seq<DiscussionType>,
}

impl DeepView for Discussion {
    type V = DiscussionView;

    open spec fn deep_view(&self) -> DiscussionView {
        DiscussionView {
            types: self.types.deep_view(),
        }
    }
}

impl Discussion {
    /// The model of the entity with no field set: a field that is always
    /// there is empty.
    pub open spec fn blank() -> DiscussionView {
        DiscussionView {
            types: Seq::empty(),
        }
    }

    /// The fields with their keys, in the order in which they are written.
    pub open spec fn fields(v: DiscussionView) -> Fields {
        Seq::empty()
            .push(("types"@, list_node::<DiscussionType>(v.types)))
    }

    /// The entries of the record: one for each field that is set.
    pub open spec fn entries(v: DiscussionView) -> Seq<(Seq<char>, Node)> {
        record_entries(Self::fields(v))
    }

    /// The place of a key among the fields, told by the length of the key
    /// and as many of its characters as it takes.
    pub open spec fn key_rank(k: Seq<char>) -> int {
        if k.len() == 5 {
            0
        } else {
            1
        }
    }

    /// In the entries of the record each key leads to its own field: to
    /// the field's tree where the field is set, and nowhere where it is not.
    /// The entries are plain where the trees of the fields are.
    pub proof fn lemma_fields(v: DiscussionView)
        ensures
            lookup(Self::entries(v), "types"@) == list_node::<DiscussionType>(v.types),
            ({
                &&& plain_opt(list_node::<DiscussionType>(v.types))
            }) ==> all_plain(Self::entries(v)),
    {
        reveal_strlit("types");
        assert("types"@.len() == 5);
        let fields = Self::fields(v);
        assert(fields.len() == 1);
        assert(fields[0].0 == "types"@ && Self::key_rank(fields[0].0) == 0);
        lemma_record(fields, |k: Seq<char>| Self::key_rank(k));
        assert(fields[0].1 == list_node::<DiscussionType>(v.types));
    }

    /// Omission: the key of a field is among the entries of the record
    /// exactly where the field is set. A field that is always there is
    /// always set; a list, a text or a map is set where it is not empty, and
    /// a flag where it is up.
    pub proof fn lemma_omission(v: DiscussionView)
        ensures
            has_key(Self::entries(v), "types"@) <==> v.types.len() > 0,
    {
        Self::lemma_fields(v);
        lemma_position(Self::entries(v), "types"@);
    }

    /// Sets `types` and leaves the other fields as they are.
    pub fn types(self, value: Vec<DiscussionType>) -> (r: Self)
        ensures
            r == (Discussion { types: value, ..self }),
    {
        let mut r = self;
        r.types = value;
        r
    }

    /// Puts `type_` after the types.
    pub fn add_type(self, type_: DiscussionType) -> (r: Self)
        ensures
            r.deep_view() == (DiscussionView {
                types: self.deep_view().types.push(type_),
                ..self.deep_view()
            }),
    {
        let mut r = self;
        r.types.push(type_);
        assert(r.types.deep_view() =~= self.types.deep_view().push(type_));
        r
    }
}

impl Codec for Discussion {
    /// A mapping with one entry for each field that is set, in the order
    /// of the fields.
    open spec fn encode(v: DiscussionView) -> Node {
        Node::Dict(Self::entries(v))
    }

    /// Reads each field from the entry under its key. Entries under other
    /// keys are passed over.
    open spec fn decode(n: Node) -> Option<DiscussionView> {
        match n {
            Node::Dict(e) => {
                let types = list_field::<DiscussionType>(e, "types"@);
                if {
                    &&& types is Some
                } {
                    Some(
                        DiscussionView {
                            types: types->Some_0,
                        },
                    )
                } else {
                    None
                }
            },
            _ => None,
        }
    }

    open spec fn valid(v: DiscussionView) -> bool {
        Vec::<DiscussionType>::valid(v.types)
    }

    proof fn lemma_round_trip(v: DiscussionView) {
        Self::lemma_fields(v);
        let e = Self::entries(v);
        lemma_list_field::<DiscussionType>(e, "types"@, v.types);
    }

    fn to_tree(&self) -> (t: Tree) {
        broadcast use {lemma_record_empty, lemma_record_push};

        let m = record();
        let m = put_list(m, "types", &self.types);
        mapping(m)
    }

    fn from_tree(t: &Tree) -> (r: Result<Self, WorkflowError>) {
        match entries_of(t) {
            Some(m) => {
                let types = get_list::<DiscussionType>(m, "types")?;
                Ok(Discussion { types })
            },
            None => Err(WorkflowError::Parse),
        }
    }
}

impl Default for Discussion {
    /// The entity with no field set.
    fn default() -> (r: Self)
        ensures
            r.deep_view() == Self::blank(),
    {
        let r = Discussion {
            types: Vec::new(),
        };
        assert(r.types.deep_view() =~= Seq::empty());
        r
    }
}

/// What happened to a comment on a discussion.
#[derive(Debug, Clone, Copy, PartialEq, Eq, Structural)]
pub enum DiscussionCommentType {
    Created,
    Edited,
    Deleted,
}

impl DeepView for DiscussionCommentType {
    type V = DiscussionCommentType;

    open spec fn deep_view(&self) -> DiscussionCommentType {
        *self
    }
}

impl DiscussionCommentType {
    /// The word that is written for the variant.
    pub open spec fn word(self) -> Seq<char> {
        match self {
            DiscussionCommentType::Created => "created"@,
            DiscussionCommentType::Edited => "edited"@,
            DiscussionCommentType::Deleted => "deleted"@,
        }
    }

    /// The variant that a word stands for.
    pub open spec fn of_word(w: Seq<char>) -> Option<DiscussionCommentType> {
        if w == "created"@ {
            Some(DiscussionCommentType::Created)
        } else if w == "edited"@ {
            Some(DiscussionCommentType::Edited)
        } else if w == "deleted"@ {
            Some(DiscussionCommentType::Deleted)
        } else {
            None
        }
    }

    /// Each variant is the one that its own word stands for.
    pub proof fn lemma_words(self)
        ensures
            Self::of_word(self.word()) == Some(self),
    {
        reveal_strlit("created");
        reveal_strlit("edited");
        reveal_strlit("deleted");
        assert("created"@.len() == 7);
        assert("edited"@.len() == 6);
        assert("deleted"@.len() == 7);
        assert("created"@[0] == 'c');
        assert("deleted"@[0] == 'd');
    }

    /// The word that is written for the variant.
    pub fn as_str(&self) -> (s: &'static str)
        ensures
            s@ == self.word(),
    {
        match self {
            DiscussionCommentType::Created => "created",
            DiscussionCommentType::Edited => "edited",
            DiscussionCommentType::Deleted => "deleted",
        }
    }

    /// The variant that a word stands for.
    pub fn from_word(w: &str) -> (r: Option<DiscussionCommentType>)
        ensures
            r == Self::of_word(w@),
    {
        if same(w, "created") {
            Some(DiscussionCommentType::Created)
        } else if same(w, "edited") {
            Some(DiscussionCommentType::Edited)
        } else if same(w, "deleted") {
            Some(DiscussionCommentType::Deleted)
        } else {
            None
        }
    }
}

impl Codec for DiscussionCommentType {
    /// The word of the variant, as a string.
    open spec fn encode(v: DiscussionCommentType) -> Node {
        Node::Str(v.word())
    }

    open spec fn decode(n: Node) -> Option<DiscussionCommentType> {
        match n {
            Node::Str(w) => Self::of_word(w),
            _ => None,
        }
    }

    open spec fn valid(v: DiscussionCommentType) -> bool {
        true
    }

    proof fn lemma_round_trip(v: DiscussionCommentType) {
        v.lemma_words();
    }

    fn to_tree(&self) -> (t: Tree) {
        Tree::String(self.as_str().to_owned())
    }

    fn from_tree(t: &Tree) -> (r: Result<Self, WorkflowError>) {
        match t {
            Tree::String(w) => match Self::from_word(w.as_str()) {
                Some(v) => Ok(v),
                None => Err(WorkflowError::Parse),
            },
            _ => Err(WorkflowError::Parse),
        }
    }
}

/// A comment on a discussion changed.
#[derive(Debug, Clone, PartialEq, Eq)]
pub struct DiscussionComment {
    /// The kinds of activity that count.
    pub types: Vec<DiscussionCommentType>,
}

/// The model of `DiscussionComment`: every field as its own model.
pub struct DiscussionCommentView {
    pub types: Seq<DiscussionCommentType>,
}

impl DeepView for DiscussionComment {
    type V = DiscussionCommentView;

    open spec fn deep_view(&self) -> DiscussionCommentView {
        DiscussionCommentView {
            types: self.types.deep_view(),
        }
    }
}

impl DiscussionComment {
    /// The model of the entity with no field set: a field that is always
    /// there is empty.
    pub open spec fn blank() -> DiscussionCommentView {
        DiscussionCommentView {
            types: Seq::empty(),
        }
    }

    /// The fields with their keys, in the order in which they are written.
    pub open spec fn fields(v: DiscussionCommentView) -> Fields {
        Seq::empty()
            .push(("types"@, list_node::<DiscussionCommentType>(v.types)))
    }

    /// The entries of the record: one for each field that is set.
    pub open spec fn entries(v: DiscussionCommentView) -> Seq<(Seq<char>, Node)> {
        record_entries(Self::fields(v))
    }

    /// The place of a key among the fields, told by the length of the key
    /// and as many of its characters as it takes.
    pub open spec fn key_rank(k: Seq<char>) -> int {
        if k.len() == 5 {
            0
        } else {
            1
        }
    }

    /// In the entries of the record each key leads to its own field: to
    /// the field's tree where the field is set, and nowhere where it is not.
    /// The entries are plain where the trees of the fields are.
    pub proof fn lemma_fields(v: DiscussionCommentView)
        ensures
            lookup(Self::entries(v), "types"@) == list_node::<DiscussionCommentType>(v.types),
            ({
                &&& plain_opt(list_node::<DiscussionCommentType>(v.types))
            }) ==> all_plain(Self::entries(v)),
    {
        reveal_strlit("types");
        assert("types"@.len() == 5);
        let fields = Self::fields(v);
        assert(fields.len() == 1);
        assert(fields[0].0 == "types"@ && Self::key_rank(fields[0].0) == 0);
        lemma_record(fields, |k: Seq<char>| Self::key_rank(k));
        assert(fields[0].1 == list_node::<DiscussionCommentType>(v.types));
    }

    /// Omission: the key of a field is among the entries of the record
    /// exactly where the field is set. A field that is always there is
    /// always set; a list, a text or a map is set where it is not empty, and
    /// a flag where it is up.
    pub proof fn lemma_omission(v: DiscussionCommentView)
        ensures
            has_key(Self::entries(v), "types"@) <==> v.types.len() > 0,
    {
        Self::lemma_fields(v);
        lemma_position(Self::entries(v), "types"@);
    }

    /// Sets `types` and leaves the other fields as they are.
    pub fn types(self, value: Vec<DiscussionCommentType>) -> (r: Self)
        ensures
            r == (DiscussionComment { types: value, ..self }),
    {
        let mut r = self;
        r.types = value;
        r
    }

    /// Puts `type_` after the types.
    pub fn add_type(self, type_: DiscussionCommentType) -> (r: Self)
        ensures
            r.deep_view() == (DiscussionCommentView {
                types: self.deep_view().types.push(type_),
                ..self.deep_view()
            }),
    {
        let mut r = self;
        r.types.push(type_);
        assert(r.types.deep_view() =~= self.types.deep_view().push(type_));
        r
    }
}

impl Codec for DiscussionComment {
    /// A mapping with one entry for each field that is set, in the order
    /// of the fields.
    open spec fn encode(v: DiscussionCommentView) -> Node {
        Node::Dict(Self::entries(v))
    }

    /// Reads each field from the entry under its key. Entries under other
    /// keys are passed over.
    open spec fn decode(n: Node) -> Option<DiscussionCommentView> {
        match n {
            Node::Dict(e) => {
                let types = list_field::<DiscussionCommentType>(e, "types"@);
                if {
                    &&& types is Some
                } {
                    Some(
                        DiscussionCommentView {
                            types: types->Some_0,
                        },
                    )
                } else {
                    None
                }
            },
            _ => None,
        }
    }

    open spec fn valid(v: DiscussionCommentView) -> bool {
        Vec::<DiscussionCommentType>::valid(v.types)
    }

    proof fn lemma_round_trip(v: DiscussionCommentView) {
        Self::lemma_fields(v);
        let e = Self::entries(v);
        lemma_list_field::<DiscussionCommentType>(e, "types"@, v.types);
    }

    fn to_tree(&self) -> (t: Tree) {
        broadcast use {lemma_record_empty, lemma_record_push};

        let m = record();
        let m = put_list(m, "types", &self.types);
        mapping(m)
    }

    fn from_tree(t: &Tree) -> (r: Result<Self, WorkflowError>) {
        match entries_of(t) {
            Some(m) => {
                let types = get_list::<DiscussionCommentType>(m, "types")?;
                Ok(DiscussionComment { types })
            },
            None => Err(WorkflowError::Parse),
        }
    }
}

impl Default for DiscussionComment {
    /// The entity with no field set.
    fn default() -> (r: Self)
        ensures
            r.deep_view() == Self::blank(),
    {
        let r = DiscussionComment {
            types: Vec::new(),
        };
        assert(r.types.deep_view() =~= Seq::empty());
        r
    }
}

/// What happened to a comment on an issue.
#[derive(Debug, Clone, Copy, PartialEq, Eq, Structural)]
pub enum IssueCommentType {
    Created,
    Edited,
    Deleted,
}

impl DeepView for IssueCommentType {
    type V = IssueCommentType;

    open spec fn deep_view(&self) -> IssueCommentType {
        *self
    }
}

impl IssueCommentType {
    /// The word that is written for the variant.
    pub open spec fn word(self) -> Seq<char> {
        match self {
            IssueCommentType::Created => "created"@,
            IssueCommentType::Edited => "edited"@,
            IssueCommentType::Deleted => "deleted"@,
        }
    }

    /// The variant that a word stands for.
    pub open spec fn of_word(w: Seq<char>) -> Option<IssueCommentType> {
        if w == "created"@ {
            Some(IssueCommentType::Created)
        } else if w == "edited"@ {
            Some(IssueCommentType::Edited)
        } else if w == "deleted"@ {
            Some(IssueCommentType::Deleted)
        } else {
            None
        }
    }

    /// Each variant is the one that its own word stands for.
    pub proof fn lemma_words(self)
        ensures
            Self::of_word(self.word()) == Some(self),
    {
        reveal_strlit("created");
        reveal_strlit("edited");
        reveal_strlit("deleted");
        assert("created"@.len() == 7);
        assert("edited"@.len() == 6);
        assert("deleted"@.len() == 7);
        assert("created"@[0] == 'c');
        assert("deleted"@[0] == 'd');
    }

    /// The word that is written for the variant.
    pub fn as_str(&self) -> (s: &'static str)
        ensures
            s@ == self.word(),
    {
        match self {
            IssueCommentType::Created => "created",
            IssueCommentType::Edited => "edited",
            IssueCommentType::Deleted => "deleted",
        }
    }

    /// The variant that a word stands for.
    pub fn from_word(w: &str) -> (r: Option<IssueCommentType>)
        ensures
            r == Self::of_word(w@),
    {
        if same(w, "created") {
            Some(IssueCommentType::Created)
        } else if same(w, "edited") {
            Some(IssueCommentType::Edited)
        } else if same(w, "deleted") {
            Some(IssueCommentType::Deleted)
        } else {
            None
        }
    }
}

impl Codec for IssueCommentType {
    /// The word of the variant, as a string.
    open spec fn encode(v: IssueCommentType) -> Node {
        Node::Str(v.word())
    }

    open spec fn decode(n: Node) -> Option<IssueCommentType> {
        match n {
            Node::Str(w) => Self::of_word(w),
            _ => None,
        }
    }

    open spec fn valid(v: IssueCommentType) -> bool {
        true
    }

    proof fn lemma_round_trip(v: IssueCommentType) {
        v.lemma_words();
    }

    fn to_tree(&self) -> (t: Tree) {
        Tree::String(self.as_str().to_owned())
    }

    fn from_tree(t: &Tree) -> (r: Result<Self, WorkflowError>) {
        match t {
            Tree::String(w) => match Self::from_word(w.as_str()) {
                Some(v) => Ok(v),
                None => Err(WorkflowError::Parse),
            },
            _ => Err(WorkflowError::Parse),
        }
    }
}

/// A comment on an issue changed.
#[derive(Debug, Clone, PartialEq, Eq)]
pub struct IssueComment {
    /// The kinds of activity that count.
    pub types: Vec<IssueCommentType>,
}

/// The model of `IssueComment`: every field as its own model.
pub struct IssueCommentView {
    pub types: Seq<IssueCommentType>,
}

impl DeepView for IssueComment {
    type V = IssueCommentView;

    open spec fn deep_view(&self) -> IssueCommentView {
        IssueCommentView {
            types: self.types.deep_view(),
        }
    }
}

impl IssueComment {
    /// The model of the entity with no field set: a field that is always
    /// there is empty.
    pub open spec fn blank() -> IssueCommentView {
        IssueCommentView {
            types: Seq::empty(),
        }
    }

    /// The fields with their keys, in the order in which they are written.
    pub open spec fn fields(v: IssueCommentView) -> Fields {
        Seq::empty()
            .push(("types"@, list_node::<IssueCommentType>(v.types)))
    }

    /// The entries of the record: one for each field that is set.
    pub open spec fn entries(v: IssueCommentView) -> Seq<(Seq<char>, Node)> {
        record_entries(Self::fields(v))
    }

    /// The place of a key among the fields, told by the length of the key
    /// and as many of its characters as it takes.
    pub open spec fn key_rank(k: Seq<char>) -> int {
        if k.len() == 5 {
            0
        } else {
            1
        }
    }

    /// In the entries of the record each key leads to its own field: to
    /// the field's tree where the field is set, and nowhere where it is not.
    /// The entries are plain where the trees of the fields are.
    pub proof fn lemma_fields(v: IssueCommentView)
        ensures
            lookup(Self::entries(v), "types"@) == list_node::<IssueCommentType>(v.types),
            ({
                &&& plain_opt(list_node::<IssueCommentType>(v.types))
            }) ==> all_plain(Self::entries(v)),
    {
        reveal_strlit("types");
        assert("types"@.len() == 5);
        let fields = Self::fields(v);
        assert(fields.len() == 1);
        assert(fields[0].0 == "types"@ && Self::key_rank(fields[0].0) == 0);
        lemma_record(fields, |k: Seq<char>| Self::key_rank(k));
        assert(fields[0].1 == list_node::<IssueCommentType>(v.types));
    }

    /// Omission: the key of a field is among the entries of the record
    /// exactly where the field is set. A field that is always there is
    /// always set; a list, a text or a map is set where it is not empty, and
    /// a flag where it is up.
    pub proof fn lemma_omission(v: IssueCommentView)
        ensures
            has_key(Self::entries(v), "types"@) <==> v.types.len() > 0,
    {
        Self::lemma_fields(v);
        lemma_position(Self::entries(v), "types"@);
    }

    /// Sets `types` and leaves the other fields as they are.
    pub fn types(self, value: Vec<IssueCommentType>) -> (r: Self)
        ensures
            r == (IssueComment { types: value, ..self }),
    {
        let mut r = self;
        r.types = value;
        r
    }

    /// Puts `type_` after the types.
    pub fn add_type(self, type_: IssueCommentType) -> (r: Self)
        ensures
            r.deep_view() == (IssueCommentView {
                types: self.deep_view().types.push(type_),
                ..self.deep_view()
            }),
    {
        let mut r = self;
        r.types.push(type_);
        assert(r.types.deep_view() =~= self.types.deep_view().push(type_));
        r
    }
}

impl Codec for IssueComment {
    /// A mapping with one entry for each field that is set, in the order
    /// of the fields.
    open spec fn encode(v: IssueCommentView) -> Node {
        Node::Dict(Self::entries(v))
    }

    /// Reads each field from the entry under its key. Entries under other
    /// keys are passed over.
    open spec fn decode(n: Node) -> Option<IssueCommentView> {
        match n {
            Node::Dict(e) => {
                let types = list_field::<IssueCommentType>(e, "types"@);
                if {
                    &&& types is Some
                } {
                    Some(
                        IssueCommentView {
                            types: types->Some_0,
                        },
                    )
                } else {
                    None
                }
            },
            _ => None,
        }
    }

    open spec fn valid(v: IssueCommentView) -> bool {
        Vec::<IssueCommentType>::valid(v.types)
    }

    proof fn lemma_round_trip(v: IssueCommentView) {
        Self::lemma_fields(v);
        let e = Self::entries(v);
        lemma_list_field::<IssueCommentType>(e, "types"@, v.types);
    }

    fn to_tree(&self) -> (t: Tree) {
        broadcast use {lemma_record_empty, lemma_record_push};

        let m = record();
        let m = put_list(m, "types", &self.types);
        mapping(m)
    }

    fn from_tree(t: &Tree) -> (r: Result<Self, WorkflowError>) {
        match entries_of(t) {
            Some(m) => {
                let types = get_list::<IssueCommentType>(m, "types")?;
                Ok(IssueComment { types })
            },
            None => Err(WorkflowError::Parse),
        }
    }
}

impl Default for IssueComment {
    /// The entity with no field set.
    fn default() -> (r: Self)
        ensures
            r.deep_view() == Self::blank(),
    {
        let r = IssueComment {
            types: Vec::new(),
        };
        assert(r.types.deep_view() =~= Seq::empty());
        r
    }
}

/// What happened to an issue.
#[derive(Debug, Clone, Copy, PartialEq, Eq, Structural)]
pub enum IssuesType {
    Opened,
    Edited,
    Deleted,
    Transferred,
    Pinned,
    Unpinned,
    Closed,
    Reopened,
    Assigned,
    Unassigned,
    Labeled,
    Unlabeled,
    Locked,
    Unlocked,
    Milestoned,
    Demilestoned,
}

impl DeepView for IssuesType {
    type V = IssuesType;

    open spec fn deep_view(&self) -> IssuesType {
        *self
    }
}

impl IssuesType {
    /// The word that is written for the variant.
    pub open spec fn word(self) -> Seq<char> {
        match self {
            IssuesType::Opened => "opened"@,
            IssuesType::Edited => "edited"@,
            IssuesType::Deleted => "deleted"@,
            IssuesType::Transferred => "transferred"@,
            IssuesType::Pinned => "pinned"@,
            IssuesType::Unpinned => "unpinned"@,
            IssuesType::Closed => "closed"@,
            IssuesType::Reopened => "reopened"@,
            IssuesType::Assigned => "assigned"@,
            IssuesType::Unassigned => "unassigned"@,
            IssuesType::Labeled => "labeled"@,
            IssuesType::Unlabeled => "unlabeled"@,
            IssuesType::Locked => "locked"@,
            IssuesType::Unlocked => "unlocked"@,
            IssuesType::Milestoned => "milestoned"@,
            IssuesType::Demilestoned => "demilestoned"@,
        }
    }

    /// The variant that a word stands for.
    pub open spec fn of_word(w: Seq<char>) -> Option<IssuesType> {
        if w == "opened"@ {
            Some(IssuesType::Opened)
        } else if w == "edited"@ {
            Some(IssuesType::Edited)
        } else if w == "deleted"@ {
            Some(IssuesType::Deleted)
        } else if w == "transferred"@ {
            Some(IssuesType::Transferred)
        } else if w == "pinned"@ {
            Some(IssuesType::Pinned)
        } else if w == "unpinned"@ {
            Some(IssuesType::Unpinned)
        } else if w == "closed"@ {
            Some(IssuesType::Closed)
        } else if w == "reopened"@ {
            Some(IssuesType::Reopened)
        } else if w == "assigned"@ {
            Some(IssuesType::Assigned)
        } else if w == "unassigned"@ {
            Some(IssuesType::Unassigned)
        } else if w == "labeled"@ {
            Some(IssuesType::Labeled)
        } else if w == "unlabeled"@ {
            Some(IssuesType::Unlabeled)
        } else if w == "locked"@ {
            Some(IssuesType::Locked)
        } else if w == "unlocked"@ {
            Some(IssuesType::Unlocked)
        } else if w == "milestoned"@ {
            Some(IssuesType::Milestoned)
        } else if w == "demilestoned"@ {
            Some(IssuesType::Demilestoned)
        } else {
            None
        }
    }

    /// Each variant is the one that its own word stands for.
    pub proof fn lemma_words(self)
        ensures
            Self::of_word(self.word()) == Some(self),
    {
        reveal_strlit("opened");
        reveal_strlit("edited");
        reveal_strlit("deleted");
        reveal_strlit("transferred");
        reveal_strlit("pinned");
        reveal_strlit("unpinned");
        reveal_strlit("closed");
        reveal_strlit("reopened");
        reveal_strlit("assigned");
        reveal_strlit("unassigned");
        reveal_strlit("labeled");
        reveal_strlit("unlabeled");
        reveal_strlit("locked");
        reveal_strlit("unlocked");
        reveal_strlit("milestoned");
        reveal_strlit("demilestoned");
        assert("opened"@.len() == 6);
        assert("edited"@.len() == 6);
        assert("deleted"@.len() == 7);
        assert("transferred"@.len() == 11);
        assert("pinned"@.len() == 6);
        assert("unpinned"@.len() == 8);
        assert("closed"@.len() == 6);
        assert("reopened"@.len() == 8);
        assert("assigned"@.len() == 8);
        assert("unassigned"@.len() == 10);
        assert("labeled"@.len() == 7);
        assert("unlabeled"@.len() == 9);
        assert("locked"@.len() == 6);
        assert("unlocked"@.len() == 8);
        assert("milestoned"@.len() == 10);
        assert("demilestoned"@.len() == 12);
        assert("opened"@[0] == 'o');
        assert("edited"@[0] == 'e');
        assert("deleted"@[0] == 'd');
        assert("pinned"@[0] == 'p');
        assert("unpinned"@[0] == 'u');
        assert("unpinned"@[2] == 'p');
        assert("closed"@[0] == 'c');
        assert("reopened"@[0] == 'r');
        assert("reopened"@[2] == 'o');
        assert("assigned"@[0] == 'a');
        assert("assigned"@[2] == 's');
        assert("unassigned"@[0] == 'u');
        assert("labeled"@[0] == 'l');
        assert("locked"@[0] == 'l');
        assert("unlocked"@[0] == 'u');
        assert("unlocked"@[2] == 'l');
        assert("milestoned"@[0] == 'm');
    }

    /// The word that is written for the variant.
    pub fn as_str(&self) -> (s: &'static str)
        ensures
            s@ == self.word(),
    {
        match self {
            IssuesType::Opened => "opened",
            IssuesType::Edited => "edited",
            IssuesType::Deleted => "deleted",
            IssuesType::Transferred => "transferred",
            IssuesType::Pinned => "pinned",
            IssuesType::Unpinned => "unpinned",
            IssuesType::Closed => "closed",
            IssuesType::Reopened => "reopened",
            IssuesType::Assigned => "assigned",
            IssuesType::Unassigned => "unassigned",
            IssuesType::Labeled => "labeled",
            IssuesType::Unlabeled => "unlabeled",
            IssuesType::Locked => "locked",
            IssuesType::Unlocked => "unlocked",
            IssuesType::Milestoned => "milestoned",
            IssuesType::Demilestoned => "demilestoned",
        }
    }

    /// The variant that a word stands for.
    pub fn from_word(w: &str) -> (r: Option<IssuesType>)
        ensures
            r == Self::of_word(w@),
    {
        if same(w, "opened") {
            Some(IssuesType::Opened)
        } else if same(w, "edited") {
            Some(IssuesType::Edited)
        } else if same(w, "deleted") {
            Some(IssuesType::Deleted)
        } else if same(w, "transferred") {
            Some(IssuesType::Transferred)
        } else if same(w, "pinned") {
            Some(IssuesType::Pinned)
        } else if same(w, "unpinned") {
            Some(IssuesType::Unpinned)
        } else if same(w, "closed") {
            Some(IssuesType::Closed)
        } else if same(w, "reopened") {
            Some(IssuesType::Reopened)
        } else if same(w, "assigned") {
            Some(IssuesType::Assigned)
        } else if same(w, "unassigned") {
            Some(IssuesType::Unassigned)
        } else if same(w, "labeled") {
            Some(IssuesType::Labeled)
        } else if same(w, "unlabeled") {
            Some(IssuesType::Unlabeled)
        } else if same(w, "locked") {
            Some(IssuesType::Locked)
        } else if same(w, "unlocked") {
            Some(IssuesType::Unlocked)
        } else if same(w, "milestoned") {
            Some(IssuesType::Milestoned)
        } else if same(w, "demilestoned") {
            Some(IssuesType::Demilestoned)
        } else {
            None
        }
    }
}

impl Codec for IssuesType {
    /// The word of the variant, as a string.
    open spec fn encode(v: IssuesType) -> Node {
        Node::Str(v.word())
    }

    open spec fn decode(n: Node) -> Option<IssuesType> {
        match n {
            Node::Str(w) => Self::of_word(w),
            _ => None,
        }
    }

    open spec fn valid(v: IssuesType) -> bool {
        true
    }

    proof fn lemma_round_trip(v: IssuesType) {
        v.lemma_words();
    }

    fn to_tree(&self) -> (t: Tree) {
        Tree::String(self.as_str().to_owned())
    }

    fn from_tree(t: &Tree) -> (r: Result<Self, WorkflowError>) {
        match t {
            Tree::String(w) => match Self::from_word(w.as_str()) {
                Some(v) => Ok(v),
                None => Err(WorkflowError::Parse),
            },
            _ => Err(WorkflowError::Parse),
        }
    }
}

/// An issue changed.
#[derive(Debug, Clone, PartialEq, Eq)]
pub struct Issues {
    /// The kinds of activity that count.
    pub types: Vec<IssuesType>,
}

/// The model of `Issues`: every field as its own model.
pub struct IssuesView {
    pub types: Seq<IssuesType>,
}

impl DeepView for Issues {
    type V = IssuesView;

    open spec fn deep_view(&self) -> IssuesView {
        IssuesView {
            types: self.types.deep_view(),
        }
    }
}

impl Issues {
    /// The model of the entity with no field set: a field that is always
    /// there is empty.
    pub open spec fn blank() -> IssuesView {
        IssuesView {
            types: Seq::empty(),
        }
    }

    /// The fields with their keys, in the order in which they are written.
    pub open spec fn fields(v: IssuesView) -> Fields {
        Seq::empty()
            .push(("types"@, list_node::<IssuesType>(v.types)))
    }

    /// The entries of the record: one for each field that is set.
    pub open spec fn entries(v: IssuesView) -> Seq<(Seq<char>, Node)> {
        record_entries(Self::fields(v))
    }

    /// The place of a key among the fields, told by the length of the key
    /// and as many of its characters as it takes.
    pub open spec fn key_rank(k: Seq<char>) -> int {
        if k.len() == 5 {
            0
        } else {
            1
        }
    }

    /// In the entries of the record each key leads to its own field: to
    /// the field's tree where the field is set, and nowhere where it is not.
    /// The entries are plain where the trees of the fields are.
    pub proof fn lemma_fields(v: IssuesView)
        ensures
            lookup(Self::entries(v), "types"@) == list_node::<IssuesType>(v.types),
            ({
                &&& plain_opt(list_node::<IssuesType>(v.types))
            }) ==> all_plain(Self::entries(v)),
    {
        reveal_strlit("types");
        assert("types"@.len() == 5);
        let fields = Self::fields(v);
        assert(fields.len() == 1);
        assert(fields[0].0 == "types"@ && Self::key_rank(fields[0].0) == 0);
        lemma_record(fields, |k: Seq<char>| Self::key_rank(k));
        assert(fields[0].1 == list_node::<IssuesType>(v.types));
    }

    /// Omission: the key of a field is among the entries of the record
    /// exactly where the field is set. A field that is always there is
    /// always set; a list, a text or a map is set where it is not empty, and
    /// a flag where it is up.
    pub proof fn lemma_omission(v: IssuesView)
        ensures
            has_key(Self::entries(v), "types"@) <==> v.types.len() > 0,
    {
        Self::lemma_fields(v);
        lemma_position(Self::entries(v), "types"@);
    }

    /// Sets `types` and leaves the other fields as they are.
    pub fn types(self, value: Vec<IssuesType>) -> (r: Self)
        ensures
            r == (Issues { types: value, ..self }),
    {
        let mut r = self;
        r.types = value;
        r
    }

    /// Puts `type_` after the types.
    pub fn add_type(self, type_: IssuesType) -> (r: Self)
        ensures
            r.deep_view() == (IssuesView {
                types: self.deep_view().types.push(type_),
                ..self.deep_view()
            }),
    {
        let mut r = self;
        r.types.push(type_);
        assert(r.types.deep_view() =~= self.types.deep_view().push(type_));
        r
    }
}

impl Codec for Issues {
    /// A mapping with one entry for each field that is set, in the order
    /// of the fields.
    open spec fn encode(v: IssuesView) -> Node {
        Node::Dict(Self::entries(v))
    }

    /// Reads each field from the entry under its key. Entries under other
    /// keys are passed over.
    open spec fn decode(n: Node) -> Option<IssuesView> {
        match n {
            Node::Dict(e) => {
                let types = list_field::<IssuesType>(e, "types"@);
                if {
                    &&& types is Some
                } {
                    Some(
                        IssuesView {
                            types: types->Some_0,
                        },
                    )
                } else {
                    None
                }
            },
            _ => None,
        }
    }

    open spec fn valid(v: IssuesView) -> bool {
        Vec::<IssuesType>::valid(v.types)
    }

    proof fn lemma_round_trip(v: IssuesView) {
        Self::lemma_fields(v);
        let e = Self::entries(v);
        lemma_list_field::<IssuesType>(e, "types"@, v.types);
    }

    fn to_tree(&self) -> (t: Tree) {
        broadcast use {lemma_record_empty, lemma_record_push};

        let m = record();
        let m = put_list(m, "types", &self.types);
        mapping(m)
    }

    fn from_tree(t: &Tree) -> (r: Result<Self, WorkflowError>) {
        match entries_of(t) {
            Some(m) => {
                let types = get_list::<IssuesType>(m, "types")?;
                Ok(Issues { types })
            },
            None => Err(WorkflowError::Parse),
        }
    }
}

impl Default for Issues {
    /// The entity with no field set.
    fn default() -> (r: Self)
        ensures
            r.deep_view() == Self::blank(),
    {
        let r = Issues {
            types: Vec::new(),
        };
        assert(r.types.deep_view() =~= Seq::empty());
        r
    }
}

/// What happened to a label.
#[derive(Debug, Clone, Copy, PartialEq, Eq, Structural)]
pub enum LabelType {
    Created,
    Edited,
    Deleted,
}

impl DeepView for LabelType {
    type V = LabelType;

    open spec fn deep_view(&self) -> LabelType {
        *self
    }
}

impl LabelType {
    /// The word that is written for the variant.
    pub open spec fn word(self) -> Seq<char> {
        match self {
            LabelType::Created => "created"@,
            LabelType::Edited => "edited"@,
            LabelType::Deleted => "deleted"@,
        }
    }

    /// The variant that a word stands for.
    pub open spec fn of_word(w: Seq<char>) -> Option<LabelType> {
        if w == "created"@ {
            Some(LabelType::Created)
        } else if w == "edited"@ {
            Some(LabelType::Edited)
        } else if w == "deleted"@ {
            Some(LabelType::Deleted)
        } else {
            None
        }
    }

    /// Each variant is the one that its own word stands for.
    pub proof fn lemma_words(self)
        ensures
            Self::of_word(self.word()) == Some(self),
    {
        reveal_strlit("created");
        reveal_strlit("edited");
        reveal_strlit("deleted");
        assert("created"@.len() == 7);
        assert("edited"@.len() == 6);
        assert("deleted"@.len() == 7);
        assert("created"@[0] == 'c');
        assert("deleted"@[0] == 'd');
    }

    /// The word that is written for the variant.
    pub fn as_str(&self) -> (s: &'static str)
        ensures
            s@ == self.word(),
    {
        match self {
            LabelType::Created => "created",
            LabelType::Edited => "edited",
            LabelType::Deleted => "deleted",
        }
    }

    /// The variant that a word stands for.
    pub fn from_word(w: &str) -> (r: Option<LabelType>)
        ensures
            r == Self::of_word(w@),
    {
        if same(w, "created") {
            Some(LabelType::Created)
        } else if same(w, "edited") {
            Some(LabelType::Edited)
        } else if same(w, "deleted") {
            Some(LabelType::Deleted)
        } else {
            None
        }
    }
}

impl Codec for LabelType {
    /// The word of the variant, as a string.
    open spec fn encode(v: LabelType) -> Node {
        Node::Str(v.word())
    }

    open spec fn decode(n: Node) -> Option<LabelType> {
        match n {
            Node::Str(w) => Self::of_word(w),
            _ => None,
        }
    }

    open spec fn valid(v: LabelType) -> bool {
        true
    }

    proof fn lemma_round_trip(v: LabelType) {
        v.lemma_words();
    }

    fn to_tree(&self) -> (t: Tree) {
        Tree::String(self.as_str().to_owned())
    }

    fn from_tree(t: &Tree) -> (r: Result<Self, WorkflowError>) {
        match t {
            Tree::String(w) => match Self::from_word(w.as_str()) {
                Some(v) => Ok(v),
                None => Err(WorkflowError::Parse),
            },
            _ => Err(WorkflowError::Parse),
        }
    }
}

/// A label changed.
#[derive(Debug, Clone, PartialEq, Eq)]
pub struct Label {
    /// The kinds of activity that count.
    pub types: Vec<LabelType>,
}

/// The model of `Label`: every field as its own model.
pub struct LabelView {
    pub types: Seq<LabelType>,
}

impl DeepView for Label {
    type V = LabelView;

    open spec fn deep_view(&self) -> LabelView {
        LabelView {
            types: self.types.deep_view(),
        }
    }
}

impl Label {
    /// The model of the entity with no field set: a field that is always
    /// there is empty.
    pub open spec fn blank() -> LabelView {
        LabelView {
            types: Seq::empty(),
        }
    }

    /// The fields with their keys, in the order in which they are written.
    pub open spec fn fields(v: LabelView) -> Fields {
        Seq::empty()
            .push(("types"@, list_node::<LabelType>(v.types)))
    }

    /// The entries of the record: one for each field that is set.
    pub open spec fn entries(v: LabelView) -> Seq<(Seq<char>, Node)> {
        record_entries(Self::fields(v))
    }

    /// The place of a key among the fields, told by the length of the key
    /// and as many of its characters as it takes.
    pub open spec fn key_rank(k: Seq<char>) -> int {
        if k.len() == 5 {
            0
        } else {
            1
        }
    }

    /// In the entries of the record each key leads to its own field: to
    /// the field's tree where the field is set, and nowhere where it is not.
    /// The entries are plain where the trees of the fields are.
    pub proof fn lemma_fields(v: LabelView)
        ensures
            lookup(Self::entries(v), "types"@) == list_node::<LabelType>(v.types),
            ({
                &&& plain_opt(list_node::<LabelType>(v.types))
            }) ==> all_plain(Self::entries(v)),
    {
        reveal_strlit("types");
        assert("types"@.len() == 5);
        let fields = Self::fields(v);
        assert(fields.len() == 1);
        assert(fields[0].0 == "types"@ && Self::key_rank(fields[0].0) == 0);
        lemma_record(fields, |k: Seq<char>| Self::key_rank(k));
        assert(fields[0].1 == list_node::<LabelType>(v.types));
    }

    /// Omission: the key of a field is among the entries of the record
    /// exactly where the field is set. A field that is always there is
    /// always set; a list, a text or a map is set where it is not empty, and
    /// a flag where it is up.
    pub proof fn lemma_omission(v: LabelView)
        ensures
            has_key(Self::entries(v), "types"@) <==> v.types.len() > 0,
    {
        Self::lemma_fields(v);
        lemma_position(Self::entries(v), "types"@);
    }

    /// Sets `types` and leaves the other fields as they are.
    pub fn types(self, value: Vec<LabelType>) -> (r: Self)
        ensures
            r == (Label { types: value, ..self }),
    {
        let mut r = self;
        r.types = value;
        r
    }

    /// Puts `type_` after the types.
    pub fn add_type(self, type_: LabelType) -> (r: Self)
        ensures
            r.deep_view() == (LabelView {
                types: self.deep_view().types.push(type_),
                ..self.deep_view()
            }),
    {
        let mut r = self;
        r.types.push(type_);
        assert(r.types.deep_view() =~= self.types.deep_view().push(type_));
        r
    }
}

impl Codec for Label {
    /// A mapping with one entry for each field that is set, in the order
    /// of the fields.
    open spec fn encode(v: LabelView) -> Node {
        Node::Dict(Self::entries(v))
    }

    /// Reads each field from the entry under its key. Entries under other
    /// keys are passed over.
    open spec fn decode(n: Node) -> Option<LabelView> {
        match n {
            Node::Dict(e) => {
                let types = list_field::<LabelType>(e, "types"@);
                if {
                    &&& types is Some
                } {
                    Some(
                        LabelView {
                            types: types->Some_0,
                        },
                    )
                } else {
                    None
                }
            },
            _ => None,
        }
    }

    open spec fn valid(v: LabelView) -> bool {
        Vec::<LabelType>::valid(v.types)
    }

    proof fn lemma_round_trip(v: LabelView) {
        Self::lemma_fields(v);
        let e = Self::entries(v);
        lemma_list_field::<LabelType>(e, "types"@, v.types);
    }

    fn to_tree(&self) -> (t: Tree) {
        broadcast use {lemma_record_empty, lemma_record_push};

        let m = record();
        let m = put_list(m, "types", &self.types);
        mapping(m)
    }

    fn from_tree(t: &Tree) -> (r: Result<Self, WorkflowError>) {
        match entries_of(t) {
            Some(m) => {
                let types = get_list::<LabelType>(m, "types")?;
                Ok(Label { types })
            },
            None => Err(WorkflowError::Parse),
        }
    }
}

impl Default for Label {
    /// The entity with no field set.
    fn default() -> (r: Self)
        ensures
            r.deep_view() == Self::blank(),
    {
        let r = Label {
            types: Vec::new(),
        };
        assert(r.types.deep_view() =~= Seq::empty());
        r
    }
}

/// What happened to a merge group.
#[derive(Debug, Clone, Copy, PartialEq, Eq, Structural)]
pub enum MergeGroupType {
    ChecksRequested,
}

impl DeepView for MergeGroupType {
    type V = MergeGroupType;

    open spec fn deep_view(&self) -> MergeGroupType {
        *self
    }
}

impl MergeGroupType {
    /// The word that is written for the variant.
    pub open spec fn word(self) -> Seq<char> {
        match self {
            MergeGroupType::ChecksRequested => "checks_requested"@,
        }
    }

    /// The variant that a word stands for.
    pub open spec fn of_word(w: Seq<char>) -> Option<MergeGroupType> {
        if w == "checks_requested"@ {
            Some(MergeGroupType::ChecksRequested)
        } else {
            None
        }
    }

    /// Each variant is the one that its own word stands for.
    pub proof fn lemma_words(self)
        ensures
            Self::of_word(self.word()) == Some(self),
    {
        reveal_strlit("checks_requested");
        assert("checks_requested"@.len() == 16);
    }

    /// The word that is written for the variant.
    pub fn as_str(&self) -> (s: &'static str)
        ensures
            s@ == self.word(),
    {
        match self {
            MergeGroupType::ChecksRequested => "checks_requested",
        }
    }

    /// The variant that a word stands for.
    pub fn from_word(w: &str) -> (r: Option<MergeGroupType>)
        ensures
            r == Self::of_word(w@),
    {
        if same(w, "checks_requested") {
            Some(MergeGroupType::ChecksRequested)
        } else {
            None
        }
    }
}

impl Codec for MergeGroupType {
    /// The word of the variant, as a string.
    open spec fn encode(v: MergeGroupType) -> Node {
        Node::Str(v.word())
    }

    open spec fn decode(n: Node) -> Option<MergeGroupType> {
        match n {
            Node::Str(w) => Self::of_word(w),
            _ => None,
        }
    }

    open spec fn valid(v: MergeGroupType) -> bool {
        true
    }

    proof fn lemma_round_trip(v: MergeGroupType) {
        v.lemma_words();
    }

    fn to_tree(&self) -> (t: Tree) {
        Tree::String(self.as_str().to_owned())
    }

    fn from_tree(t: &Tree) -> (r: Result<Self, WorkflowError>) {
        match t {
            Tree::String(w) => match Self::from_word(w.as_str()) {
                Some(v) => Ok(v),
                None => Err(WorkflowError::Parse),
            },
            _ => Err(WorkflowError::Parse),
        }
    }
}

/// A merge group changed.
#[derive(Debug, Clone, PartialEq, Eq)]
pub struct MergeGroup {
    /// The kinds of activity that count.
    pub types: Vec<MergeGroupType>,
}

/// The model of `MergeGroup`: every field as its own model.
pub struct MergeGroupView {
    pub types: Seq<MergeGroupType>,
}

impl DeepView for MergeGroup {
    type V = MergeGroupView;

    open spec fn deep_view(&self) -> MergeGroupView {
        MergeGroupView {
            types: self.types.deep_view(),
        }
    }
}

impl MergeGroup {
    /// The model of the entity with no field set: a field that is always
    /// there is empty.
    pub open spec fn blank() -> MergeGroupView {
        MergeGroupView {
            types: Seq::empty(),
        }
    }

    /// The fields with their keys, in the order in which they are written.
    pub open spec fn fields(v: MergeGroupView) -> Fields {
        Seq::empty()
            .push(("types"@, list_node::<MergeGroupType>(v.types)))
    }

    /// The entries of the record: one for each field that is set.
    pub open spec fn entries(v: MergeGroupView) -> Seq<(Seq<char>, Node)> {
        record_entries(Self::fields(v))
    }

    /// The place of a key among the fields, told by the length of the key
    /// and as many of its characters as it takes.
    pub open spec fn key_rank(k: Seq<char>) -> int {
        if k.len() == 5 {
            0
        } else {
            1
        }
    }

    /// In the entries of the record each key leads to its own field: to
    /// the field's tree where the field is set, and nowhere where it is not.
    /// The entries are plain where the trees of the fields are.
    pub proof fn lemma_fields(v: MergeGroupView)
        ensures
            lookup(Self::entries(v), "types"@) == list_node::<MergeGroupType>(v.types),
            ({
                &&& plain_opt(list_node::<MergeGroupType>(v.types))
            }) ==> all_plain(Self::entries(v)),
    {
        reveal_strlit("types");
        assert("types"@.len() == 5);
        let fields = Self::fields(v);
        assert(fields.len() == 1);
        assert(fields[0].0 == "types"@ && Self::key_rank(fields[0].0) == 0);
        lemma_record(fields, |k: Seq<char>| Self::key_rank(k));
        assert(fields[0].1 == list_node::<MergeGroupType>(v.types));
    }

    /// Omission: the key of a field is among the entries of the record
    /// exactly where the field is set. A field that is always there is
    /// always set; a list, a text or a map is set where it is not empty, and
    /// a flag where it is up.
    pub proof fn lemma_omission(v: MergeGroupView)
        ensures
            has_key(Self::entries(v), "types"@) <==> v.types.len() > 0,
    {
        Self::lemma_fields(v);
        lemma_position(Self::entries(v), "types"@);
    }

    /// Sets `types` and leaves the other fields as they are.
    pub fn types(self, value: Vec<MergeGroupType>) -> (r: Self)
        ensures
            r == (MergeGroup { types: value, ..self }),
    {
        let mut r = self;
        r.types = value;
        r
    }

    /// Puts `type_` after the types.
    pub fn add_type(self, type_: MergeGroupType) -> (r: Self)
        ensures
            r.deep_view() == (MergeGroupView {
                types: self.deep_view().types.push(type_),
                ..self.deep_view()
            }),
    {
        let mut r = self;
        r.types.push(type_);
        assert(r.types.deep_view() =~= self.types.deep_view().push(type_));
        r
    }
}

impl Codec for MergeGroup {
    /// A mapping with one entry for each field that is set, in the order
    /// of the fields.
    open spec fn encode(v: MergeGroupView) -> Node {
        Node::Dict(Self::entries(v))
    }

    /// Reads each field from the entry under its key. Entries under other
    /// keys are passed over.
    open spec fn decode(n: Node) -> Option<MergeGroupView> {
        match n {
            Node::Dict(e) => {
                let types = list_field::<MergeGroupType>(e, "types"@);
                if {
                    &&& types is Some
                } {
                    Some(
                        MergeGroupView {
                            types: types->Some_0,
                        },
                    )
                } else {
                    None
                }
            },
            _ => None,
        }
    }

    open spec fn valid(v: MergeGroupView) -> bool {
        Vec::<MergeGroupType>::valid(v.types)
    }

    proof fn lemma_round_trip(v: MergeGroupView) {
        Self::lemma_fields(v);
        let e = Self::entries(v);
        lemma_list_field::<MergeGroupType>(e, "types"@, v.types);
    }

    fn to_tree(&self) -> (t: Tree) {
        broadcast use {lemma_record_empty, lemma_record_push};

        let m = record();
        let m = put_list(m, "types", &self.types);
        mapping(m)
    }

    fn from_tree(t: &Tree) -> (r: Result<Self, WorkflowError>) {
        match entries_of(t) {
            Some(m) => {
                let types = get_list::<MergeGroupType>(m, "types")?;
                Ok(MergeGroup { types })
            },
            None => Err(WorkflowError::Parse),
        }
    }
}

impl Default for MergeGroup {
    /// The entity with no field set.
    fn default() -> (r: Self)
        ensures
            r.deep_view() == Self::blank(),
    {
        let r = MergeGroup {
            types: Vec::new(),
        };
        assert(r.types.deep_view() =~= Seq::empty());
        r
    }
}

/// What happened to a milestone.
#[derive(Debug, Clone, Copy, PartialEq, Eq, Structural)]
pub enum MilestoneType {
    Created,
    Closed,
    Opened,
    Edited,
    Deleted,
}

impl DeepView for MilestoneType {
    type V = MilestoneType;

    open spec fn deep_view(&self) -> MilestoneType {
        *self
    }
}

impl MilestoneType {
    /// The word that is written for the variant.
    pub open spec fn word(self) -> Seq<char> {
        match self {
            MilestoneType::Created => "created"@,
            MilestoneType::Closed => "closed"@,
            MilestoneType::Opened => "opened"@,
            MilestoneType::Edited => "edited"@,
            MilestoneType::Deleted => "deleted"@,
        }
    }

    /// The variant that a word stands for.
    pub open spec fn of_word(w: Seq<char>) -> Option<MilestoneType> {
        if w == "created"@ {
            Some(MilestoneType::Created)
        } else if w == "closed"@ {
            Some(MilestoneType::Closed)
        } else if w == "opened"@ {
            Some(MilestoneType::Opened)
        } else if w == "edited"@ {
            Some(MilestoneType::Edited)
        } else if w == "deleted"@ {
            Some(MilestoneType::Deleted)
        } else {
            None
        }
    }

    /// Each variant is the one that its own word stands for.
    pub proof fn lemma_words(self)
        ensures
            Self::of_word(self.word()) == Some(self),
    {
        reveal_strlit("created");
        reveal_strlit("closed");
        reveal_strlit("opened");
        reveal_strlit("edited");
        reveal_strlit("deleted");
        assert("created"@.len() == 7);
        assert("closed"@.len() == 6);
        assert("opened"@.len() == 6);
        assert("edited"@.len() == 6);
        assert("deleted"@.len() == 7);
        assert("created"@[0] == 'c');
        assert("closed"@[0] == 'c');
        assert("opened"@[0] == 'o');
        assert("edited"@[0] == 'e');
        assert("deleted"@[0] == 'd');
    }

    /// The word that is written for the variant.
    pub fn as_str(&self) -> (s: &'static str)
        ensures
            s@ == self.word(),
    {
        match self {
            MilestoneType::Created => "created",
            MilestoneType::Closed => "closed",
            MilestoneType::Opened => "opened",
            MilestoneType::Edited => "edited",
            MilestoneType::Deleted => "deleted",
        }
    }

    /// The variant that a word stands for.
    pub fn from_word(w: &str) -> (r: Option<MilestoneType>)
        ensures
            r == Self::of_word(w@),
    {
        if same(w, "created") {
            Some(MilestoneType::Created)
        } else if same(w, "closed") {
            Some(MilestoneType::Closed)
        } else if same(w, "opened") {
            Some(MilestoneType::Opened)
        } else if same(w, "edited") {
            Some(MilestoneType::Edited)
        } else if same(w, "deleted") {
            Some(MilestoneType::Deleted)
        } else {
            None
        }
    }
}

impl Codec for MilestoneType {
    /// The word of the variant, as a string.
    open spec fn encode(v: MilestoneType) -> Node {
        Node::Str(v.word())
    }

    open spec fn decode(n: Node) -> Option<MilestoneType> {
        match n {
            Node::Str(w) => Self::of_word(w),
            _ => None,
        }
    }

    open spec fn valid(v: MilestoneType) -> bool {
        true
    }

    proof fn lemma_round_trip(v: MilestoneType) {
        v.lemma_words();
    }

    fn to_tree(&self) -> (t: Tree) {
        Tree::String(self.as_str().to_owned())
    }

    fn from_tree(t: &Tree) -> (r: Result<Self, WorkflowError>) {
        match t {
            Tree::String(w) => match Self::from_word(w.as_str()) {
                Some(v) => Ok(v),
                None => Err(WorkflowError::Parse),
            },
            _ => Err(WorkflowError::Parse),
        }
    }
}

/// A milestone changed.
#[derive(Debug, Clone, PartialEq, Eq)]
pub struct Milestone {
    /// The kinds of activity that count.
    pub types: Vec<MilestoneType>,
}

/// The model of `Milestone`: every field as its own model.
pub struct MilestoneView {
    pub types: Seq<MilestoneType>,
}

impl DeepView for Milestone {
    type V = MilestoneView;

    open spec fn deep_view(&self) -> MilestoneView {
        MilestoneView {
            types: self.types.deep_view(),
        }
    }
}

impl Milestone {
    /// The model of the entity with no field set: a field that is always
    /// there is empty.
    pub open spec fn blank() -> MilestoneView {
        MilestoneView {
            types: Seq::empty(),
        }
    }

    /// The fields with their keys, in the order in which they are written.
    pub open spec fn fields(v: MilestoneView) -> Fields {
        Seq::empty()
            .push(("types"@, list_node::<MilestoneType>(v.types)))
    }

    /// The entries of the record: one for each field that is set.
    pub open spec fn entries(v: MilestoneView) -> Seq<(Seq<char>, Node)> {
        record_entries(Self::fields(v))
    }

    /// The place of a key among the fields, told by the length of the key
    /// and as many of its characters as it takes.
    pub open spec fn key_rank(k: Seq<char>) -> int {
        if k.len() == 5 {
            0
        } else {
            1
        }
    }

    /// In the entries of the record each key leads to its own field: to
    /// the field's tree where the field is set, and nowhere where it is not.
    /// The entries are plain where the trees of the fields are.
    pub proof fn lemma_fields(v: MilestoneView)
        ensures
            lookup(Self::entries(v), "types"@) == list_node::<MilestoneType>(v.types),
            ({
                &&& plain_opt(list_node::<MilestoneType>(v.types))
            }) ==> all_plain(Self::entries(v)),
    {
        reveal_strlit("types");
        assert("types"@.len() == 5);
        let fields = Self::fields(v);
        assert(fields.len() == 1);
        assert(fields[0].0 == "types"@ && Self::key_rank(fields[0].0) == 0);
        lemma_record(fields, |k: Seq<char>| Self::key_rank(k));
        assert(fields[0].1 == list_node::<MilestoneType>(v.types));
    }

    /// Omission: the key of a field is among the entries of the record
    /// exactly where the field is set. A field that is always there is
    /// always set; a list, a text or a map is set where it is not empty, and
    /// a flag where it is up.
    pub proof fn lemma_omission(v: MilestoneView)
        ensures
            has_key(Self::entries(v), "types"@) <==> v.types.len() > 0,
    {
        Self::lemma_fields(v);
        lemma_position(Self::entries(v), "types"@);
    }

    /// Sets `types` and leaves the other fields as they are.
    pub fn types(self, value: Vec<MilestoneType>) -> (r: Self)
        ensures
            r == (Milestone { types: value, ..self }),
    {
        let mut r = self;
        r.types = value;
        r
    }

    /// Puts `type_` after the types.
    pub fn add_type(self, type_: MilestoneType) -> (r: Self)
        ensures
            r.deep_view() == (MilestoneView {
                types: self.deep_view().types.push(type_),
                ..self.deep_view()
            }),
    {
        let mut r = self;
        r.types.push(type_);
        assert(r.types.deep_view() =~= self.types.deep_view().push(type_));
        r
    }
}

impl Codec for Milestone {
    /// A mapping with one entry for each field that is set, in the order
    /// of the fields.
    open spec fn encode(v: MilestoneView) -> Node {
        Node::Dict(Self::entries(v))
    }

    /// Reads each field from the entry under its key. Entries under other
    /// keys are passed over.
    open spec fn decode(n: Node) -> Option<MilestoneView> {
        match n {
            Node::Dict(e) => {
                let types = list_field::<MilestoneType>(e, "types"@);
                if {
                    &&& types is Some
                } {
                    Some(
                        MilestoneView {
                            types: types->Some_0,
                        },
                    )
                } else {
                    None
                }
            },
            _ => None,
        }
    }

    open spec fn valid(v: MilestoneView) -> bool {
        Vec::<MilestoneType>::valid(v.types)
    }

    proof fn lemma_round_trip(v: MilestoneView) {
        Self::lemma_fields(v);
        let e = Self::entries(v);
        lemma_list_field::<MilestoneType>(e, "types"@, v.types);
    }

    fn to_tree(&self) -> (t: Tree) {
        broadcast use {lemma_record_empty, lemma_record_push};

        let m = record();
        let m = put_list(m, "types", &self.types);
        mapping(m)
    }

    fn from_tree(t: &Tree) -> (r: Result<Self, WorkflowError>) {
        match entries_of(t) {
            Some(m) => {
                let types = get_list::<MilestoneType>(m, "types")?;
                Ok(Milestone { types })
            },
            None => Err(WorkflowError::Parse),
        }
    }
}

impl Default for Milestone {
    /// The entity with no field set.
    fn default() -> (r: Self)
        ensures
            r.deep_view() == Self::blank(),
    {
        let r = Milestone {
            types: Vec::new(),
        };
        assert(r.types.deep_view() =~= Seq::empty());
        r
    }
}

/// What happened to a pull request.
#[derive(Debug, Clone, Copy, PartialEq, Eq, Structural)]
pub enum PullRequestType {
    Assigned,
    Unassigned,
    Labeled,
    Unlabeled,
    Opened,
    Edited,
    Closed,
    Reopened,
    Synchronize,
    ReadyForReview,
    Locked,
    Unlocked,
    ReviewRequested,
    ReviewRequestRemoved,
}

impl DeepView for PullRequestType {
    type V = PullRequestType;

    open spec fn deep_view(&self) -> PullRequestType {
        *self
    }
}

impl PullRequestType {
    /// The word that is written for the variant.
    pub open spec fn word(self) -> Seq<char> {
        match self {
            PullRequestType::Assigned => "assigned"@,
            PullRequestType::Unassigned => "unassigned"@,
            PullRequestType::Labeled => "labeled"@,
            PullRequestType::Unlabeled => "unlabeled"@,
            PullRequestType::Opened => "opened"@,
            PullRequestType::Edited => "edited"@,
            PullRequestType::Closed => "closed"@,
            PullRequestType::Reopened => "reopened"@,
            PullRequestType::Synchronize => "synchronize"@,
            PullRequestType::ReadyForReview => "ready_for_review"@,
            PullRequestType::Locked => "locked"@,
            PullRequestType::Unlocked => "unlocked"@,
            PullRequestType::ReviewRequested => "review_requested"@,
            PullRequestType::ReviewRequestRemoved => "review_request_removed"@,
        }
    }

    /// The variant that a word stands for.
    pub open spec fn of_word(w: Seq<char>) -> Option<PullRequestType> {
        if w == "assigned"@ {
            Some(PullRequestType::Assigned)
        } else if w == "unassigned"@ {
            Some(PullRequestType::Unassigned)
        } else if w == "labeled"@ {
            Some(PullRequestType::Labeled)
        } else if w == "unlabeled"@ {
            Some(PullRequestType::Unlabeled)
        } else if w == "opened"@ {
            Some(PullRequestType::Opened)
        } else if w == "edited"@ {
            Some(PullRequestType::Edited)
        } else if w == "closed"@ {
            Some(PullRequestType::Closed)
        } else if w == "reopened"@ {
            Some(PullRequestType::Reopened)
        } else if w == "synchronize"@ {
            Some(PullRequestType::Synchronize)
        } else if w == "ready_for_review"@ {
            Some(PullRequestType::ReadyForReview)
        } else if w == "locked"@ {
            Some(PullRequestType::Locked)
        } else if w == "unlocked"@ {
            Some(PullRequestType::Unlocked)
        } else if w == "review_requested"@ {
            Some(PullRequestType::ReviewRequested)
        } else if w == "review_request_removed"@ {
            Some(PullRequestType::ReviewRequestRemoved)
        } else {
            None
        }
    }

    /// Each variant is the one that its own word stands for.
    pub proof fn lemma_words(self)
        ensures
            Self::of_word(self.word()) == Some(self),
    {
        reveal_strlit("assigned");
        reveal_strlit("unassigned");
        reveal_strlit("labeled");
        reveal_strlit("unlabeled");
        reveal_strlit("opened");
        reveal_strlit("edited");
        reveal_strlit("closed");
        reveal_strlit("reopened");
        reveal_strlit("synchronize");
        reveal_strlit("ready_for_review");
        reveal_strlit("locked");
        reveal_strlit("unlocked");
        reveal_strlit("review_requested");
        reveal_strlit("review_request_removed");
        assert("assigned"@.len() == 8);
        assert("unassigned"@.len() == 10);
        assert("labeled"@.len() == 7);
        assert("unlabeled"@.len() == 9);
        assert("opened"@.len() == 6);
        assert("edited"@.len() == 6);
        assert("closed"@.len() == 6);
        assert("reopened"@.len() == 8);
        assert("synchronize"@.len() == 11);
        assert("ready_for_review"@.len() == 16);
        assert("locked"@.len() == 6);
        assert("unlocked"@.len() == 8);
        assert("review_requested"@.len() == 16);
        assert("review_request_removed"@.len() == 22);
        assert("assigned"@[0] == 'a');
        assert("opened"@[0] == 'o');
        assert("edited"@[0] == 'e');
        assert("closed"@[0] == 'c');
        assert("reopened"@[0] == 'r');
        assert("ready_for_review"@[2] == 'a');
        assert("locked"@[0] == 'l');
        assert("unlocked"@[0] == 'u');
        assert("review_requested"@[2] == 'v');
    }

    /// The word that is written for the variant.
    pub fn as_str(&self) -> (s: &'static str)
        ensures
            s@ == self.word(),
    {
        match self {
            PullRequestType::Assigned => "assigned",
            PullRequestType::Unassigned => "unassigned",
            PullRequestType::Labeled => "labeled",
            PullRequestType::Unlabeled => "unlabeled",
            PullRequestType::Opened => "opened",
            PullRequestType::Edited => "edited",
            PullRequestType::Closed => "closed",
            PullRequestType::Reopened => "reopened",
            PullRequestType::Synchronize => "synchronize",
            PullRequestType::ReadyForReview => "ready_for_review",
            PullRequestType::Locked => "locked",
            PullRequestType::Unlocked => "unlocked",
            PullRequestType::ReviewRequested => "review_requested",
            PullRequestType::ReviewRequestRemoved => "review_request_removed",
        }
    }

    /// The variant that a word stands for.
    pub fn from_word(w: &str) -> (r: Option<PullRequestType>)
        ensures
            r == Self::of_word(w@),
    {
        if same(w, "assigned") {
            Some(PullRequestType::Assigned)
        } else if same(w, "unassigned") {
            Some(PullRequestType::Unassigned)
        } else if same(w, "labeled") {
            Some(PullRequestType::Labeled)
        } else if same(w, "unlabeled") {
            Some(PullRequestType::Unlabeled)
        } else if same(w, "opened") {
            Some(PullRequestType::Opened)
        } else if same(w, "edited") {
            Some(PullRequestType::Edited)
        } else if same(w, "closed") {
            Some(PullRequestType::Closed)
        } else if same(w, "reopened") {
            Some(PullRequestType::Reopened)
        } else if same(w, "synchronize") {
            Some(PullRequestType::Synchronize)
        } else if same(w, "ready_for_review") {
            Some(PullRequestType::ReadyForReview)
        } else if same(w, "locked") {
            Some(PullRequestType::Locked)
        } else if same(w, "unlocked") {
            Some(PullRequestType::Unlocked)
        } else if same(w, "review_requested") {
            Some(PullRequestType::ReviewRequested)
        } else if same(w, "review_request_removed") {
            Some(PullRequestType::ReviewRequestRemoved)
        } else {
            None
        }
    }
}

impl Codec for PullRequestType {
    /// The word of the variant, as a string.
    open spec fn encode(v: PullRequestType) -> Node {
        Node::Str(v.word())
    }

    open spec fn decode(n: Node) -> Option<PullRequestType> {
        match n {
            Node::Str(w) => Self::of_word(w),
            _ => None,
        }
    }

    open spec fn valid(v: PullRequestType) -> bool {
        true
    }

    proof fn lemma_round_trip(v: PullRequestType) {
        v.lemma_words();
    }

    fn to_tree(&self) -> (t: Tree) {
        Tree::String(self.as_str().to_owned())
    }

    fn from_tree(t: &Tree) -> (r: Result<Self, WorkflowError>) {
        match t {
            Tree::String(w) => match Self::from_word(w.as_str()) {
                Some(v) => Ok(v),
                None => Err(WorkflowError::Parse),
            },
            _ => Err(WorkflowError::Parse),
        }
    }
}

/// A pull request changed.
#[derive(Debug, Clone, PartialEq, Eq)]
pub struct PullRequest {
    /// The kinds of activity that count.
    pub types: Vec<PullRequestType>,
    /// The branches on which the event counts.
    pub branches: Vec<String>,
    /// The paths whose change makes the event count.
    pub paths: Vec<String>,
}

/// The model of `PullRequest`: every field as its own model.
pub struct PullRequestView {
    pub types: Seq<PullRequestType>,
    pub branches: Seq<Seq<char>>,
    pub paths: Seq<Seq<char>>,
}

impl DeepView for PullRequest {
    type V = PullRequestView;

    open spec fn deep_view(&self) -> PullRequestView {
        PullRequestView {
            types: self.types.deep_view(),
            branches: self.branches.deep_view(),
            paths: self.paths.deep_view(),
        }
    }
}

impl PullRequest {
    /// The model of the entity with no field set: a field that is always
    /// there is empty.
    pub open spec fn blank() -> PullRequestView {
        PullRequestView {
            types: Seq::empty(),
            branches: Seq::empty(),
            paths: Seq::empty(),
        }
    }

    /// The fields with their keys, in the order in which they are written.
    pub open spec fn fields(v: PullRequestView) -> Fields {
        Seq::empty()
            .push(("types"@, list_node::<PullRequestType>(v.types)))
            .push(("branches"@, list_node::<String>(v.branches)))
            .push(("paths"@, list_node::<String>(v.paths)))
    }

    /// The entries of the record: one for each field that is set.
    pub open spec fn entries(v: PullRequestView) -> Seq<(Seq<char>, Node)> {
        record_entries(Self::fields(v))
    }

    /// The place of a key among the fields, told by the length of the key
    /// and as many of its characters as it takes.
    pub open spec fn key_rank(k: Seq<char>) -> int {
        if k.len() == 5 && k[0] == 't' {
            0
        } else if k.len() == 8 {
            1
        } else if k.len() == 5 && k[0] == 'p' {
            2
        } else {
            3
        }
    }

    /// In the entries of the record each key leads to its own field: to
    /// the field's tree where the field is set, and nowhere where it is not.
    /// The entries are plain where the trees of the fields are.
    pub proof fn lemma_fields(v: PullRequestView)
        ensures
            lookup(Self::entries(v), "types"@) == list_node::<PullRequestType>(v.types),
            lookup(Self::entries(v), "branches"@) == list_node::<String>(v.branches),
            lookup(Self::entries(v), "paths"@) == list_node::<String>(v.paths),
            ({
                &&& plain_opt(list_node::<PullRequestType>(v.types))
                &&& plain_opt(list_node::<String>(v.branches))
                &&& plain_opt(list_node::<String>(v.paths))
            }) ==> all_plain(Self::entries(v)),
    {
        reveal_strlit("types");
        reveal_strlit("branches");
        reveal_strlit("paths");
        assert("types"@.len() == 5);
        assert("branches"@.len() == 8);
        assert("paths"@.len() == 5);
        assert("types"@[0] == 't');
        assert("paths"@[0] == 'p');
        let fields = Self::fields(v);
        assert(fields.len() == 3);
        assert(fields[0].0 == "types"@ && Self::key_rank(fields[0].0) == 0);
        assert(fields[1].0 == "branches"@ && Self::key_rank(fields[1].0) == 1);
        assert(fields[2].0 == "paths"@ && Self::key_rank(fields[2].0) == 2);
        lemma_record(fields, |k: Seq<char>| Self::key_rank(k));
        assert(fields[0].1 == list_node::<PullRequestType>(v.types));
        assert(fields[1].1 == list_node::<String>(v.branches));
        assert(fields[2].1 == list_node::<String>(v.paths));
    }

    /// Omission: the key of a field is among the entries of the record
    /// exactly where the field is set. A field that is always there is
    /// always set; a list, a text or a map is set where it is not empty, and
    /// a flag where it is up.
    pub proof fn lemma_omission(v: PullRequestView)
        ensures
            has_key(Self::entries(v), "types"@) <==> v.types.len() > 0,
            has_key(Self::entries(v), "branches"@) <==> v.branches.len() > 0,
            has_key(Self::entries(v), "paths"@) <==> v.paths.len() > 0,
    {
        Self::lemma_fields(v);
        lemma_position(Self::entries(v), "types"@);
        lemma_position(Self::entries(v), "branches"@);
        lemma_position(Self::entries(v), "paths"@);
    }

    /// Sets `types` and leaves the other fields as they are.
    pub fn types(self, value: Vec<PullRequestType>) -> (r: Self)
        ensures
            r == (PullRequest { types: value, ..self }),
    {
        let mut r = self;
        r.types = value;
        r
    }

    /// Sets `branches` and leaves the other fields as they are.
    pub fn branches(self, value: Vec<String>) -> (r: Self)
        ensures
            r == (PullRequest { branches: value, ..self }),
    {
        let mut r = self;
        r.branches = value;
        r
    }

    /// Sets `paths` and leaves the other fields as they are.
    pub fn paths(self, value: Vec<String>) -> (r: Self)
        ensures
            r == (PullRequest { paths: value, ..self }),
    {
        let mut r = self;
        r.paths = value;
        r
    }

    /// Puts `type_` after the types.
    pub fn add_type(self, type_: PullRequestType) -> (r: Self)
        ensures
            r.deep_view() == (PullRequestView {
                types: self.deep_view().types.push(type_),
                ..self.deep_view()
            }),
    {
        let mut r = self;
        r.types.push(type_);
        assert(r.types.deep_view() =~= self.types.deep_view().push(type_));
        r
    }

    /// Puts `branch` after the branches.
    pub fn add_branch(self, branch: &str) -> (r: Self)
        ensures
            r.deep_view() == (PullRequestView {
                branches: self.deep_view().branches.push(branch@),
                ..self.deep_view()
            }),
    {
        let mut r = self;
        r.branches.push(branch.to_owned());
        assert(r.branches.deep_view() =~= self.branches.deep_view().push(branch@));
        r
    }

    /// Puts `path` after the paths.
    pub fn add_path(self, path: &str) -> (r: Self)
        ensures
            r.deep_view() == (PullRequestView {
                paths: self.deep_view().paths.push(path@),
                ..self.deep_view()
            }),
    {
        let mut r = self;
        r.paths.push(path.to_owned());
        assert(r.paths.deep_view() =~= self.paths.deep_view().push(path@));
        r
    }
}

impl Codec for PullRequest {
    /// A mapping with one entry for each field that is set, in the order
    /// of the fields.
    open spec fn encode(v: PullRequestView) -> Node {
        Node::Dict(Self::entries(v))
    }

    /// Reads each field from the entry under its key. Entries under other
    /// keys are passed over.
    open spec fn decode(n: Node) -> Option<PullRequestView> {
        match n {
            Node::Dict(e) => {
                let types = list_field::<PullRequestType>(e, "types"@);
                let branches = list_field::<String>(e, "branches"@);
                let paths = list_field::<String>(e, "paths"@);
                if {
                    &&& types is Some
                    &&& branches is Some
                    &&& paths is Some
                } {
                    Some(
                        PullRequestView {
                            types: types->Some_0,
                            branches: branches->Some_0,
                            paths: paths->Some_0,
                        },
                    )
                } else {
                    None
                }
            },
            _ => None,
        }
    }

    open spec fn valid(v: PullRequestView) -> bool {
        &&& Vec::<PullRequestType>::valid(v.types)
        &&& Vec::<String>::valid(v.branches)
        &&& Vec::<String>::valid(v.paths)
    }

    proof fn lemma_round_trip(v: PullRequestView) {
        Self::lemma_fields(v);
        let e = Self::entries(v);
        lemma_list_field::<PullRequestType>(e, "types"@, v.types);
        lemma_list_field::<String>(e, "branches"@, v.branches);
        lemma_list_field::<String>(e, "paths"@, v.paths);
    }

    fn to_tree(&self) -> (t: Tree) {
        broadcast use {lemma_record_empty, lemma_record_push};

        let m = record();
        let m = put_list(m, "types", &self.types);
        let m = put_list(m, "branches", &self.branches);
        let m = put_list(m, "paths", &self.paths);
        mapping(m)
    }

    fn from_tree(t: &Tree) -> (r: Result<Self, WorkflowError>) {
        match entries_of(t) {
            Some(m) => {
                let types = get_list::<PullRequestType>(m, "types")?;
                let branches = get_list::<String>(m, "branches")?;
                let paths = get_list::<String>(m, "paths")?;
                Ok(PullRequest { types, branches, paths })
            },
            None => Err(WorkflowError::Parse),
        }
    }
}

impl Default for PullRequest {
    /// The entity with no field set.
    fn default() -> (r: Self)
        ensures
            r.deep_view() == Self::blank(),
    {
        let r = PullRequest {
            types: Vec::new(),
            branches: Vec::new(),
            paths: Vec::new(),
        };
        assert(r.types.deep_view() =~= Seq::empty());
        assert(r.branches.deep_view() =~= Seq::empty());
        assert(r.paths.deep_view() =~= Seq::empty());
        r
    }
}

/// What happened to a review of a pull request.
#[derive(Debug, Clone, Copy, PartialEq, Eq, Structural)]
pub enum PullRequestReviewType {
    Submitted,
    Edited,
    Dismissed,
}

impl DeepView for PullRequestReviewType {
    type V = PullRequestReviewType;

    open spec fn deep_view(&self) -> PullRequestReviewType {
        *self
    }
}

impl PullRequestReviewType {
    /// The word that is written for the variant.
    pub open spec fn word(self) -> Seq<char> {
        match self {
            PullRequestReviewType::Submitted => "submitted"@,
            PullRequestReviewType::Edited => "edited"@,
            PullRequestReviewType::Dismissed => "dismissed"@,
        }
    }

    /// The variant that a word stands for.
    pub open spec fn of_word(w: Seq<char>) -> Option<PullRequestReviewType> {
        if w == "submitted"@ {
            Some(PullRequestReviewType::Submitted)
        } else if w == "edited"@ {
            Some(PullRequestReviewType::Edited)
        } else if w == "dismissed"@ {
            Some(PullRequestReviewType::Dismissed)
        } else {
            None
        }
    }

    /// Each variant is the one that its own word stands for.
    pub proof fn lemma_words(self)
        ensures
            Self::of_word(self.word()) == Some(self),
    {
        reveal_strlit("submitted");
        reveal_strlit("edited");
        reveal_strlit("dismissed");
        assert("submitted"@.len() == 9);
        assert("edited"@.len() == 6);
        assert("dismissed"@.len() == 9);
        assert("submitted"@[0] == 's');
        assert("dismissed"@[0] == 'd');
    }

    /// The word that is written for the variant.
    pub fn as_str(&self) -> (s: &'static str)
        ensures
            s@ == self.word(),
    {
        match self {
            PullRequestReviewType::Submitted => "submitted",
            PullRequestReviewType::Edited => "edited",
            PullRequestReviewType::Dismissed => "dismissed",
        }
    }

    /// The variant that a word stands for.
    pub fn from_word(w: &str) -> (r: Option<PullRequestReviewType>)
        ensures
            r == Self::of_word(w@),
    {
        if same(w, "submitted") {
            Some(PullRequestReviewType::Submitted)
        } else if same(w, "edited") {
            Some(PullRequestReviewType::Edited)
        } else if same(w, "dismissed") {
            Some(PullRequestReviewType::Dismissed)
        } else {
            None
        }
    }
}

impl Codec for PullRequestReviewType {
    /// The word of the variant, as a string.
    open spec fn encode(v: PullRequestReviewType) -> Node {
        Node::Str(v.word())
    }

    open spec fn decode(n: Node) -> Option<PullRequestReviewType> {
        match n {
            Node::Str(w) => Self::of_word(w),
            _ => None,
        }
    }

    open spec fn valid(v: PullRequestReviewType) -> bool {
        true
    }

    proof fn lemma_round_trip(v: PullRequestReviewType) {
        v.lemma_words();
    }

    fn to_tree(&self) -> (t: Tree) {
        Tree::String(self.as_str().to_owned())
    }

    fn from_tree(t: &Tree) -> (r: Result<Self, WorkflowError>) {
        match t {
            Tree::String(w) => match Self::from_word(w.as_str()) {
                Some(v) => Ok(v),
                None => Err(WorkflowError::Parse),
            },
            _ => Err(WorkflowError::Parse),
        }
    }
}

/// A review of a pull request changed.
#[derive(Debug, Clone, PartialEq, Eq)]
pub struct PullRequestReview {
    /// The kinds of activity that count.
    pub types: Vec<PullRequestReviewType>,
}

/// The model of `PullRequestReview`: every field as its own model.
pub struct PullRequestReviewView {
    pub types: Seq<PullRequestReviewType>,
}

impl DeepView for PullRequestReview {
    type V = PullRequestReviewView;

    open spec fn deep_view(&self) -> PullRequestReviewView {
        PullRequestReviewView {
            types: self.types.deep_view(),
        }
    }
}

impl PullRequestReview {
    /// The model of the entity with no field set: a field that is always
    /// there is empty.
    pub open spec fn blank() -> PullRequestReviewView {
        PullRequestReviewView {
            types: Seq::empty(),
        }
    }

    /// The fields with their keys, in the order in which they are written.
    pub open spec fn fields(v: PullRequestReviewView) -> Fields {
        Seq::empty()
            .push(("types"@, list_node::<PullRequestReviewType>(v.types)))
    }

    /// The entries of the record: one for each field that is set.
    pub open spec fn entries(v: PullRequestReviewView) -> Seq<(Seq<char>, Node)> {
        record_entries(Self::fields(v))
    }

    /// The place of a key among the fields, told by the length of the key
    /// and as many of its characters as it takes.
    pub open spec fn key_rank(k: Seq<char>) -> int {
        if k.len() == 5 {
            0
        } else {
            1
        }
    }

    /// In the entries of the record each key leads to its own field: to
    /// the field's tree where the field is set, and nowhere where it is not.
    /// The entries are plain where the trees of the fields are.
    pub proof fn lemma_fields(v: PullRequestReviewView)
        ensures
            lookup(Self::entries(v), "types"@) == list_node::<PullRequestReviewType>(v.types),
            ({
                &&& plain_opt(list_node::<PullRequestReviewType>(v.types))
            }) ==> all_plain(Self::entries(v)),
    {
        reveal_strlit("types");
        assert("types"@.len() == 5);
        let fields = Self::fields(v);
        assert(fields.len() == 1);
        assert(fields[0].0 == "types"@ && Self::key_rank(fields[0].0) == 0);
        lemma_record(fields, |k: Seq<char>| Self::key_rank(k));
        assert(fields[0].1 == list_node::<PullRequestReviewType>(v.types));
    }

    /// Omission: the key of a field is among the entries of the record
    /// exactly where the field is set. A field that is always there is
    /// always set; a list, a text or a map is set where it is not empty, and
    /// a flag where it is up.
    pub proof fn lemma_omission(v: PullRequestReviewView)
        ensures
            has_key(Self::entries(v), "types"@) <==> v.types.len() > 0,
    {
        Self::lemma_fields(v);
        lemma_position(Self::entries(v), "types"@);
    }

    /// Sets `types` and leaves the other fields as they are.
    pub fn types(self, value: Vec<PullRequestReviewType>) -> (r: Self)
        ensures
            r == (PullRequestReview { types: value, ..self }),
    {
        let mut r = self;
        r.types = value;
        r
    }

    /// Puts `type_` after the types.
    pub fn add_type(self, type_: PullRequestReviewType) -> (r: Self)
        ensures
            r.deep_view() == (PullRequestReviewView {
                types: self.deep_view().types.push(type_),
                ..self.deep_view()
            }),
    {
        let mut r = self;
        r.types.push(type_);
        assert(r.types.deep_view() =~= self.types.deep_view().push(type_));
        r
    }
}

impl Codec for PullRequestReview {
    /// A mapping with one entry for each field that is set, in the order
    /// of the fields.
    open spec fn encode(v: PullRequestReviewView) -> Node {
        Node::Dict(Self::entries(v))
    }

    /// Reads each field from the entry under its key. Entries under other
    /// keys are passed over.
    open spec fn decode(n: Node) -> Option<PullRequestReviewView> {
        match n {
            Node::Dict(e) => {
                let types = list_field::<PullRequestReviewType>(e, "types"@);
                if {
                    &&& types is Some
                } {
                    Some(
                        PullRequestReviewView {
                            types: types->Some_0,
                        },
                    )
                } else {
                    None
                }
            },
            _ => None,
        }
    }

    open spec fn valid(v: PullRequestReviewView) -> bool {
        Vec::<PullRequestReviewType>::valid(v.types)
    }

    proof fn lemma_round_trip(v: PullRequestReviewView) {
        Self::lemma_fields(v);
        let e = Self::entries(v);
        lemma_list_field::<PullRequestReviewType>(e, "types"@, v.types);
    }

    fn to_tree(&self) -> (t: Tree) {
        broadcast use {lemma_record_empty, lemma_record_push};

        let m = record();
        let m = put_list(m, "types", &self.types);
        mapping(m)
    }

    fn from_tree(t: &Tree) -> (r: Result<Self, WorkflowError>) {
        match entries_of(t) {
            Some(m) => {
                let types = get_list::<PullRequestReviewType>(m, "types")?;
                Ok(PullRequestReview { types })
            },
            None => Err(WorkflowError::Parse),
        }
    }
}

impl Default for PullRequestReview {
    /// The entity with no field set.
    fn default() -> (r: Self)
        ensures
            r.deep_view() == Self::blank(),
    {
        let r = PullRequestReview {
            types: Vec::new(),
        };
        assert(r.types.deep_view() =~= Seq::empty());
        r
    }
}

/// What happened to a comment on a review.
#[derive(Debug, Clone, Copy, PartialEq, Eq, Structural)]
pub enum PullRequestReviewCommentType {
    Created,
    Edited,
    Deleted,
}

impl DeepView for PullRequestReviewCommentType {
    type V = PullRequestReviewCommentType;

    open spec fn deep_view(&self) -> PullRequestReviewCommentType {
        *self
    }
}

impl PullRequestReviewCommentType {
    /// The word that is written for the variant.
    pub open spec fn word(self) -> Seq<char> {
        match self {
            PullRequestReviewCommentType::Created => "created"@,
            PullRequestReviewCommentType::Edited => "edited"@,
            PullRequestReviewCommentType::Deleted => "deleted"@,
        }
    }

    /// The variant that a word stands for.
    pub open spec fn of_word(w: Seq<char>) -> Option<PullRequestReviewCommentType> {
        if w == "created"@ {
            Some(PullRequestReviewCommentType::Created)
        } else if w == "edited"@ {
            Some(PullRequestReviewCommentType::Edited)
        } else if w == "deleted"@ {
            Some(PullRequestReviewCommentType::Deleted)
        } else {
            None
        }
    }

    /// Each variant is the one that its own word stands for.
    pub proof fn lemma_words(self)
        ensures
            Self::of_word(self.word()) == Some(self),
    {
        reveal_strlit("created");
        reveal_strlit("edited");
        reveal_strlit("deleted");
        assert("created"@.len() == 7);
        assert("edited"@.len() == 6);
        assert("deleted"@.len() == 7);
        assert("created"@[0] == 'c');
        assert("deleted"@[0] == 'd');
    }

    /// The word that is written for the variant.
    pub fn as_str(&self) -> (s: &'static str)
        ensures
            s@ == self.word(),
    {
        match self {
            PullRequestReviewCommentType::Created => "created",
            PullRequestReviewCommentType::Edited => "edited",
            PullRequestReviewCommentType::Deleted => "deleted",
        }
    }

    /// The variant that a word stands for.
    pub fn from_word(w: &str) -> (r: Option<PullRequestReviewCommentType>)
        ensures
            r == Self::of_word(w@),
    {
        if same(w, "created") {
            Some(PullRequestReviewCommentType::Created)
        } else if same(w, "edited") {
            Some(PullRequestReviewCommentType::Edited)
        } else if same(w, "deleted") {
            Some(PullRequestReviewCommentType::Deleted)
        } else {
            None
        }
    }
}

impl Codec for PullRequestReviewCommentType {
    /// The word of the variant, as a string.
    open spec fn encode(v: PullRequestReviewCommentType) -> Node {
        Node::Str(v.word())
    }

    open spec fn decode(n: Node) -> Option<PullRequestReviewCommentType> {
        match n {
            Node::Str(w) => Self::of_word(w),
            _ => None,
        }
    }

    open spec fn valid(v: PullRequestReviewCommentType) -> bool {
        true
    }

    proof fn lemma_round_trip(v: PullRequestReviewCommentType) {
        v.lemma_words();
    }

    fn to_tree(&self) -> (t: Tree) {
        Tree::String(self.as_str().to_owned())
    }

    fn from_tree(t: &Tree) -> (r: Result<Self, WorkflowError>) {
        match t {
            Tree::String(w) => match Self::from_word(w.as_str()) {
                Some(v) => Ok(v),
                None => Err(WorkflowError::Parse),
            },
            _ => Err(WorkflowError::Parse),
        }
    }
}

/// A comment on a review of a pull request changed.
#[derive(Debug, Clone, PartialEq, Eq)]
pub struct PullRequestReviewComment {
    /// The kinds of activity that count.
    pub types: Vec<PullRequestReviewCommentType>,
}

/// The model of `PullRequestReviewComment`: every field as its own model.
pub struct PullRequestReviewCommentView {
    pub types: Seq<PullRequestReviewCommentType>,
}

impl DeepView for PullRequestReviewComment {
    type V = PullRequestReviewCommentView;

    open spec fn deep_view(&self) -> PullRequestReviewCommentView {
        PullRequestReviewCommentView {
            types: self.types.deep_view(),
        }
    }
}

impl PullRequestReviewComment {
    /// The model of the entity with no field set: a field that is always
    /// there is empty.
    pub open spec fn blank() -> PullRequestReviewCommentView {
        PullRequestReviewCommentView {
            types: Seq::empty(),
        }
    }

    /// The fields with their keys, in the order in which they are written.
    pub open spec fn fields(v: PullRequestReviewCommentView) -> Fields {
        Seq::empty()
            .push(("types"@, list_node::<PullRequestReviewCommentType>(v.types)))
    }

    /// The entries of the record: one for each field that is set.
    pub open spec fn entries(v: PullRequestReviewCommentView) -> Seq<(Seq<char>, Node)> {
        record_entries(Self::fields(v))
    }

    /// The place of a key among the fields, told by the length of the key
    /// and as many of its characters as it takes.
    pub open spec fn key_rank(k: Seq<char>) -> int {
        if k.len() == 5 {
            0
        } else {
            1
        }
    }

    /// In the entries of the record each key leads to its own field: to
    /// the field's tree where the field is set, and nowhere where it is not.
    /// The entries are plain where the trees of the fields are.
    pub proof fn lemma_fields(v: PullRequestReviewCommentView)
        ensures
            lookup(Self::entries(v), "types"@)
                == list_node::<PullRequestReviewCommentType>(v.types),
            ({
                &&& plain_opt(list_node::<PullRequestReviewCommentType>(v.types))
            }) ==> all_plain(Self::entries(v)),
    {
        reveal_strlit("types");
        assert("types"@.len() == 5);
        let fields = Self::fields(v);
        assert(fields.len() == 1);
        assert(fields[0].0 == "types"@ && Self::key_rank(fields[0].0) == 0);
        lemma_record(fields, |k: Seq<char>| Self::key_rank(k));
        assert(fields[0].1 == list_node::<PullRequestReviewCommentType>(v.types));
    }

    /// Omission: the key of a field is among the entries of the record
    /// exactly where the field is set. A field that is always there is
    /// always set; a list, a text or a map is set where it is not empty, and
    /// a flag where it is up.
    pub proof fn lemma_omission(v: PullRequestReviewCommentView)
        ensures
            has_key(Self::entries(v), "types"@) <==> v.types.len() > 0,
    {
        Self::lemma_fields(v);
        lemma_position(Self::entries(v), "types"@);
    }

    /// Sets `types` and leaves the other fields as they are.
    pub fn types(self, value: Vec<PullRequestReviewCommentType>) -> (r: Self)
        ensures
            r == (PullRequestReviewComment { types: value, ..self }),
    {
        let mut r = self;
        r.types = value;
        r
    }

    /// Puts `type_` after the types.
    pub fn add_type(self, type_: PullRequestReviewCommentType) -> (r: Self)
        ensures
            r.deep_view() == (PullRequestReviewCommentView {
                types: self.deep_view().types.push(type_),
                ..self.deep_view()
            }),
    {
        let mut r = self;
        r.types.push(type_);
        assert(r.types.deep_view() =~= self.types.deep_view().push(type_));
        r
    }
}

impl Codec for PullRequestReviewComment {
    /// A mapping with one entry for each field that is set, in the order
    /// of the fields.
    open spec fn encode(v: PullRequestReviewCommentView) -> Node {
        Node::Dict(Self::entries(v))
    }

    /// Reads each field from the entry under its key. Entries under other
    /// keys are passed over.
    open spec fn decode(n: Node) -> Option<PullRequestReviewCommentView> {
        match n {
            Node::Dict(e) => {
                let types = list_field::<PullRequestReviewCommentType>(e, "types"@);
                if {
                    &&& types is Some
                } {
                    Some(
                        PullRequestReviewCommentView {
                            types: types->Some_0,
                        },
                    )
                } else {
                    None
                }
            },
            _ => None,
        }
    }

    open spec fn valid(v: PullRequestReviewCommentView) -> bool {
        Vec::<PullRequestReviewCommentType>::valid(v.types)
    }

    proof fn lemma_round_trip(v: PullRequestReviewCommentView) {
        Self::lemma_fields(v);
        let e = Self::entries(v);
        lemma_list_field::<PullRequestReviewCommentType>(e, "types"@, v.types);
    }

    fn to_tree(&self) -> (t: Tree) {
        broadcast use {lemma_record_empty, lemma_record_push};

        let m = record();
        let m = put_list(m, "types", &self.types);
        mapping(m)
    }

    fn from_tree(t: &Tree) -> (r: Result<Self, WorkflowError>) {
        match entries_of(t) {
            Some(m) => {
                let types = get_list::<PullRequestReviewCommentType>(m, "types")?;
                Ok(PullRequestReviewComment { types })
            },
            None => Err(WorkflowError::Parse),
        }
    }
}

impl Default for PullRequestReviewComment {
    /// The entity with no field set.
    fn default() -> (r: Self)
        ensures
            r.deep_view() == Self::blank(),
    {
        let r = PullRequestReviewComment {
            types: Vec::new(),
        };
        assert(r.types.deep_view() =~= Seq::empty());
        r
    }
}

/// A pull request changed, seen from the branch that it targets.
#[derive(Debug, Clone, PartialEq, Eq)]
pub struct PullRequestTarget {
    /// The kinds of activity that count.
    pub types: Vec<PullRequestType>,
    /// The branches on which the event counts.
    pub branches: Vec<String>,
}

/// The model of `PullRequestTarget`: every field as its own model.
pub struct PullRequestTargetView {
    pub types: Seq<PullRequestType>,
    pub branches: Seq<Seq<char>>,
}

impl DeepView for PullRequestTarget {
    type V = PullRequestTargetView;

    open spec fn deep_view(&self) -> PullRequestTargetView {
        PullRequestTargetView {
            types: self.types.deep_view(),
            branches: self.branches.deep_view(),
        }
    }
}

impl PullRequestTarget {
    /// The model of the entity with no field set: a field that is always
    /// there is empty.
    pub open spec fn blank() -> PullRequestTargetView {
        PullRequestTargetView {
            types: Seq::empty(),
            branches: Seq::empty(),
        }
    }

    /// The fields with their keys, in the order in which they are written.
    pub open spec fn fields(v: PullRequestTargetView) -> Fields {
        Seq::empty()
            .push(("types"@, list_node::<PullRequestType>(v.types)))
            .push(("branches"@, list_node::<String>(v.branches)))
    }

    /// The entries of the record: one for each field that is set.
    pub open spec fn entries(v: PullRequestTargetView) -> Seq<(Seq<char>, Node)> {
        record_entries(Self::fields(v))
    }

    /// The place of a key among the fields, told by the length of the key
    /// and as many of its characters as it takes.
    pub open spec fn key_rank(k: Seq<char>) -> int {
        if k.len() == 5 {
            0
        } else if k.len() == 8 {
            1
        } else {
            2
        }
    }

    /// In the entries of the record each key leads to its own field: to
    /// the field's tree where the field is set, and nowhere where it is not.
    /// The entries are plain where the trees of the fields are.
    pub proof fn lemma_fields(v: PullRequestTargetView)
        ensures
            lookup(Self::entries(v), "types"@) == list_node::<PullRequestType>(v.types),
            lookup(Self::entries(v), "branches"@) == list_node::<String>(v.branches),
            ({
                &&& plain_opt(list_node::<PullRequestType>(v.types))
                &&& plain_opt(list_node::<String>(v.branches))
            }) ==> all_plain(Self::entries(v)),
    {
        reveal_strlit("types");
        reveal_strlit("branches");
        assert("types"@.len() == 5);
        assert("branches"@.len() == 8);
        let fields = Self::fields(v);
        assert(fields.len() == 2);
        assert(fields[0].0 == "types"@ && Self::key_rank(fields[0].0) == 0);
        assert(fields[1].0 == "branches"@ && Self::key_rank(fields[1].0) == 1);
        lemma_record(fields, |k: Seq<char>| Self::key_rank(k));
        assert(fields[0].1 == list_node::<PullRequestType>(v.types));
        assert(fields[1].1 == list_node::<String>(v.branches));
    }

    /// Omission: the key of a field is among the entries of the record
    /// exactly where the field is set. A field that is always there is
    /// always set; a list, a text or a map is set where it is not empty, and
    /// a flag where it is up.
    pub proof fn lemma_omission(v: PullRequestTargetView)
        ensures
            has_key(Self::entries(v), "types"@) <==> v.types.len() > 0,
            has_key(Self::entries(v), "branches"@) <==> v.branches.len() > 0,
    {
        Self::lemma_fields(v);
        lemma_position(Self::entries(v), "types"@);
        lemma_position(Self::entries(v), "branches"@);
    }

    /// Sets `types` and leaves the other fields as they are.
    pub fn types(self, value: Vec<PullRequestType>) -> (r: Self)
        ensures
            r == (PullRequestTarget { types: value, ..self }),
    {
        let mut r = self;
        r.types = value;
        r
    }

    /// Sets `branches` and leaves the other fields as they are.
    pub fn branches(self, value: Vec<String>) -> (r: Self)
        ensures
            r == (PullRequestTarget { branches: value, ..self }),
    {
        let mut r = self;
        r.branches = value;
        r
    }

    /// Puts `type_` after the types.
    pub fn add_type(self, type_: PullRequestType) -> (r: Self)
        ensures
            r.deep_view() == (PullRequestTargetView {
                types: self.deep_view().types.push(type_),
                ..self.deep_view()
            }),
    {
        let mut r = self;
        r.types.push(type_);
        assert(r.types.deep_view() =~= self.types.deep_view().push(type_));
        r
    }

    /// Puts `branch` after the branches.
    pub fn add_branch(self, branch: &str) -> (r: Self)
        ensures
            r.deep_view() == (PullRequestTargetView {
                branches: self.deep_view().branches.push(branch@),
                ..self.deep_view()
            }),
    {
        let mut r = self;
        r.branches.push(branch.to_owned());
        assert(r.branches.deep_view() =~= self.branches.deep_view().push(branch@));
        r
    }
}

impl Codec for PullRequestTarget {
    /// A mapping with one entry for each field that is set, in the order
    /// of the fields.
    open spec fn encode(v: PullRequestTargetView) -> Node {
        Node::Dict(Self::entries(v))
    }

    /// Reads each field from the entry under its key. Entries under other
    /// keys are passed over.
    open spec fn decode(n: Node) -> Option<PullRequestTargetView> {
        match n {
            Node::Dict(e) => {
                let types = list_field::<PullRequestType>(e, "types"@);
                let branches = list_field::<String>(e, "branches"@);
                if {
                    &&& types is Some
                    &&& branches is Some
                } {
                    Some(
                        PullRequestTargetView {
                            types: types->Some_0,
                            branches: branches->Some_0,
                        },
                    )
                } else {
                    None
                }
            },
            _ => None,
        }
    }

    open spec fn valid(v: PullRequestTargetView) -> bool {
        &&& Vec::<PullRequestType>::valid(v.types)
        &&& Vec::<String>::valid(v.branches)
    }

    proof fn lemma_round_trip(v: PullRequestTargetView) {
        Self::lemma_fields(v);
        let e = Self::entries(v);
        lemma_list_field::<PullRequestType>(e, "types"@, v.types);
        lemma_list_field::<String>(e, "branches"@, v.branches);
    }

    fn to_tree(&self) -> (t: Tree) {
        broadcast use {lemma_record_empty, lemma_record_push};

        let m = record();
        let m = put_list(m, "types", &self.types);
        let m = put_list(m, "branches", &self.branches);
        mapping(m)
    }

    fn from_tree(t: &Tree) -> (r: Result<Self, WorkflowError>) {
        match entries_of(t) {
            Some(m) => {
                let types = get_list::<PullRequestType>(m, "types")?;
                let branches = get_list::<String>(m, "branches")?;
                Ok(PullRequestTarget { types, branches })
            },
            None => Err(WorkflowError::Parse),
        }
    }
}

impl Default for PullRequestTarget {
    /// The entity with no field set.
    fn default() -> (r: Self)
        ensures
            r.deep_view() == Self::blank(),
    {
        let r = PullRequestTarget {
            types: Vec::new(),
            branches: Vec::new(),
        };
        assert(r.types.deep_view() =~= Seq::empty());
        assert(r.branches.deep_view() =~= Seq::empty());
        r
    }
}

/// Commits or tags were pushed.
#[derive(Debug, Clone, PartialEq, Eq)]
pub struct Push {
    /// The branches on which the event counts.
    pub branches: Vec<String>,
    /// The paths whose change makes the event count.
    pub paths: Vec<String>,
}

/// The model of `Push`: every field as its own model.
pub struct PushView {
    pub branches: Seq<Seq<char>>,
    pub paths: Seq<Seq<char>>,
}

impl DeepView for Push {
    type V = PushView;

    open spec fn deep_view(&self) -> PushView {
        PushView {
            branches: self.branches.deep_view(),
            paths: self.paths.deep_view(),
        }
    }
}

impl Push {
    /// The model of the entity with no field set: a field that is always
    /// there is empty.
    pub open spec fn blank() -> PushView {
        PushView {
            branches: Seq::empty(),
            paths: Seq::empty(),
        }
    }

    /// The fields with their keys, in the order in which they are written.
    pub open spec fn fields(v: PushView) -> Fields {
        Seq::empty()
            .push(("branches"@, list_node::<String>(v.branches)))
            .push(("paths"@, list_node::<String>(v.paths)))
    }

    /// The entries of the record: one for each field that is set.
    pub open spec fn entries(v: PushView) -> Seq<(Seq<char>, Node)> {
        record_entries(Self::fields(v))
    }

    /// The place of a key among the fields, told by the length of the key
    /// and as many of its characters as it takes.
    pub open spec fn key_rank(k: Seq<char>) -> int {
        if k.len() == 8 {
            0
        } else if k.len() == 5 {
            1
        } else {
            2
        }
    }

    /// In the entries of the record each key leads to its own field: to
    /// the field's tree where the field is set, and nowhere where it is not.
    /// The entries are plain where the trees of the fields are.
    pub proof fn lemma_fields(v: PushView)
        ensures
            lookup(Self::entries(v), "branches"@) == list_node::<String>(v.branches),
            lookup(Self::entries(v), "paths"@) == list_node::<String>(v.paths),
            ({
                &&& plain_opt(list_node::<String>(v.branches))
                &&& plain_opt(list_node::<String>(v.paths))
            }) ==> all_plain(Self::entries(v)),
    {
        reveal_strlit("branches");
        reveal_strlit("paths");
        assert("branches"@.len() == 8);
        assert("paths"@.len() == 5);
        let fields = Self::fields(v);
        assert(fields.len() == 2);
        assert(fields[0].0 == "branches"@ && Self::key_rank(fields[0].0) == 0);
        assert(fields[1].0 == "paths"@ && Self::key_rank(fields[1].0) == 1);
        lemma_record(fields, |k: Seq<char>| Self::key_rank(k));
        assert(fields[0].1 == list_node::<String>(v.branches));
        assert(fields[1].1 == list_node::<String>(v.paths));
    }

    /// Omission: the key of a field is among the entries of the record
    /// exactly where the field is set. A field that is always there is
    /// always set; a list, a text or a map is set where it is not empty, and
    /// a flag where it is up.
    pub proof fn lemma_omission(v: PushView)
        ensures
            has_key(Self::entries(v), "branches"@) <==> v.branches.len() > 0,
            has_key(Self::entries(v), "paths"@) <==> v.paths.len() > 0,
    {
        Self::lemma_fields(v);
        lemma_position(Self::entries(v), "branches"@);
        lemma_position(Self::entries(v), "paths"@);
    }

    /// Sets `branches` and leaves the other fields as they are.
    pub fn branches(self, value: Vec<String>) -> (r: Self)
        ensures
            r == (Push { branches: value, ..self }),
    {
        let mut r = self;
        r.branches = value;
        r
    }

    /// Sets `paths` and leaves the other fields as they are.
    pub fn paths(self, value: Vec<String>) -> (r: Self)
        ensures
            r == (Push { paths: value, ..self }),
    {
        let mut r = self;
        r.paths = value;
        r
    }

    /// Puts `branch` after the branches.
    pub fn add_branch(self, branch: &str) -> (r: Self)
        ensures
            r.deep_view() == (PushView {
                branches: self.deep_view().branches.push(branch@),
                ..self.deep_view()
            }),
    {
        let mut r = self;
        r.branches.push(branch.to_owned());
        assert(r.branches.deep_view() =~= self.branches.deep_view().push(branch@));
        r
    }

    /// Puts `path` after the paths.
    pub fn add_path(self, path: &str) -> (r: Self)
        ensures
            r.deep_view() == (PushView {
                paths: self.deep_view().paths.push(path@),
                ..self.deep_view()
            }),
    {
        let mut r = self;
        r.paths.push(path.to_owned());
        assert(r.paths.deep_view() =~= self.paths.deep_view().push(path@));
        r
    }
}

impl Codec for Push {
    /// A mapping with one entry for each field that is set, in the order
    /// of the fields.
    open spec fn encode(v: PushView) -> Node {
        Node::Dict(Self::entries(v))
    }

    /// Reads each field from the entry under its key. Entries under other
    /// keys are passed over.
    open spec fn decode(n: Node) -> Option<PushView> {
        match n {
            Node::Dict(e) => {
                let branches = list_field::<String>(e, "branches"@);
                let paths = list_field::<String>(e, "paths"@);
                if {
                    &&& branches is Some
                    &&& paths is Some
                } {
                    Some(
                        PushView {
                            branches: branches->Some_0,
                            paths: paths->Some_0,
                        },
                    )
                } else {
                    None
                }
            },
            _ => None,
        }
    }

    open spec fn valid(v: PushView) -> bool {
        &&& Vec::<String>::valid(v.branches)
        &&& Vec::<String>::valid(v.paths)
    }

    proof fn lemma_round_trip(v: PushView) {
        Self::lemma_fields(v);
        let e = Self::entries(v);
        lemma_list_field::<String>(e, "branches"@, v.branches);
        lemma_list_field::<String>(e, "paths"@, v.paths);
    }

    fn to_tree(&self) -> (t: Tree) {
        broadcast use {lemma_record_empty, lemma_record_push};

        let m = record();
        let m = put_list(m, "branches", &self.branches);
        let m = put_list(m, "paths", &self.paths);
        mapping(m)
    }

    fn from_tree(t: &Tree) -> (r: Result<Self, WorkflowError>) {
        match entries_of(t) {
            Some(m) => {
                let branches = get_list::<String>(m, "branches")?;
                let paths = get_list::<String>(m, "paths")?;
                Ok(Push { branches, paths })
            },
            None => Err(WorkflowError::Parse),
        }
    }
}

impl Default for Push {
    /// The entity with no field set.
    fn default() -> (r: Self)
        ensures
            r.deep_view() == Self::blank(),
    {
        let r = Push {
            branches: Vec::new(),
            paths: Vec::new(),
        };
        assert(r.branches.deep_view() =~= Seq::empty());
        assert(r.paths.deep_view() =~= Seq::empty());
        r
    }
}

/// What happened to a package.
#[derive(Debug, Clone, Copy, PartialEq, Eq, Structural)]
pub enum RegistryPackageType {
    Published,
    Updated,
}

impl DeepView for RegistryPackageType {
    type V = RegistryPackageType;

    open spec fn deep_view(&self) -> RegistryPackageType {
        *self
    }
}

impl RegistryPackageType {
    /// The word that is written for the variant.
    pub open spec fn word(self) -> Seq<char> {
        match self {
            RegistryPackageType::Published => "published"@,
            RegistryPackageType::Updated => "updated"@,
        }
    }

    /// The variant that a word stands for.
    pub open spec fn of_word(w: Seq<char>) -> Option<RegistryPackageType> {
        if w == "published"@ {
            Some(RegistryPackageType::Published)
        } else if w == "updated"@ {
            Some(RegistryPackageType::Updated)
        } else {
            None
        }
    }

    /// Each variant is the one that its own word stands for.
    pub proof fn lemma_words(self)
        ensures
            Self::of_word(self.word()) == Some(self),
    {
        reveal_strlit("published");
        reveal_strlit("updated");
        assert("published"@.len() == 9);
        assert("updated"@.len() == 7);
    }

    /// The word that is written for the variant.
    pub fn as_str(&self) -> (s: &'static str)
        ensures
            s@ == self.word(),
    {
        match self {
            RegistryPackageType::Published => "published",
            RegistryPackageType::Updated => "updated",
        }
    }

    /// The variant that a word stands for.
    pub fn from_word(w: &str) -> (r: Option<RegistryPackageType>)
        ensures
            r == Self::of_word(w@),
    {
        if same(w, "published") {
            Some(RegistryPackageType::Published)
        } else if same(w, "updated") {
            Some(RegistryPackageType::Updated)
        } else {
            None
        }
    }
}

impl Codec for RegistryPackageType {
    /// The word of the variant, as a string.
    open spec fn encode(v: RegistryPackageType) -> Node {
        Node::Str(v.word())
    }

    open spec fn decode(n: Node) -> Option<RegistryPackageType> {
        match n {
            Node::Str(w) => Self::of_word(w),
            _ => None,
        }
    }

    open spec fn valid(v: RegistryPackageType) -> bool {
        true
    }

    proof fn lemma_round_trip(v: RegistryPackageType) {
        v.lemma_words();
    }

    fn to_tree(&self) -> (t: Tree) {
        Tree::String(self.as_str().to_owned())
    }

    fn from_tree(t: &Tree) -> (r: Result<Self, WorkflowError>) {
        match t {
            Tree::String(w) => match Self::from_word(w.as_str()) {
                Some(v) => Ok(v),
                None => Err(WorkflowError::Parse),
            },
            _ => Err(WorkflowError::Parse),
        }
    }
}

/// A package of the registry changed.
#[derive(Debug, Clone, PartialEq, Eq)]
pub struct RegistryPackage {
    /// The kinds of activity that count.
    pub types: Vec<RegistryPackageType>,
}

/// The model of `RegistryPackage`: every field as its own model.
pub struct RegistryPackageView {
    pub types: Seq<RegistryPackageType>,
}

impl DeepView for RegistryPackage {
    type V = RegistryPackageView;

    open spec fn deep_view(&self) -> RegistryPackageView {
        RegistryPackageView {
            types: self.types.deep_view(),
        }
    }
}

impl RegistryPackage {
    /// The model of the entity with no field set: a field that is always
    /// there is empty.
    pub open spec fn blank() -> RegistryPackageView {
        RegistryPackageView {
            types: Seq::empty(),
        }
    }

    /// The fields with their keys, in the order in which they are written.
    pub open spec fn fields(v: RegistryPackageView) -> Fields {
        Seq::empty()
            .push(("types"@, list_node::<RegistryPackageType>(v.types)))
    }

    /// The entries of the record: one for each field that is set.
    pub open spec fn entries(v: RegistryPackageView) -> Seq<(Seq<char>, Node)> {
        record_entries(Self::fields(v))
    }

    /// The place of a key among the fields, told by the length of the key
    /// and as many of its characters as it takes.
    pub open spec fn key_rank(k: Seq<char>) -> int {
        if k.len() == 5 {
            0
        } else {
            1
        }
    }

    /// In the entries of the record each key leads to its own field: to
    /// the field's tree where the field is set, and nowhere where it is not.
    /// The entries are plain where the trees of the fields are.
    pub proof fn lemma_fields(v: RegistryPackageView)
        ensures
            lookup(Self::entries(v), "types"@) == list_node::<RegistryPackageType>(v.types),
            ({
                &&& plain_opt(list_node::<RegistryPackageType>(v.types))
            }) ==> all_plain(Self::entries(v)),
    {
        reveal_strlit("types");
        assert("types"@.len() == 5);
        let fields = Self::fields(v);
        assert(fields.len() == 1);
        assert(fields[0].0 == "types"@ && Self::key_rank(fields[0].0) == 0);
        lemma_record(fields, |k: Seq<char>| Self::key_rank(k));
        assert(fields[0].1 == list_node::<RegistryPackageType>(v.types));
    }

    /// Omission: the key of a field is among the entries of the record
    /// exactly where the field is set. A field that is always there is
    /// always set; a list, a text or a map is set where it is not empty, and
    /// a flag where it is up.
    pub proof fn lemma_omission(v: RegistryPackageView)
        ensures
            has_key(Self::entries(v), "types"@) <==> v.types.len() > 0,
    {
        Self::lemma_fields(v);
        lemma_position(Self::entries(v), "types"@);
    }

    /// Sets `types` and leaves the other fields as they are.
    pub fn types(self, value: Vec<RegistryPackageType>) -> (r: Self)
        ensures
            r == (RegistryPackage { types: value, ..self }),
    {
        let mut r = self;
        r.types = value;
        r
    }

    /// Puts `type_` after the types.
    pub fn add_type(self, type_: RegistryPackageType) -> (r: Self)
        ensures
            r.deep_view() == (RegistryPackageView {
                types: self.deep_view().types.push(type_),
                ..self.deep_view()
            }),
    {
        let mut r = self;
        r.types.push(type_);
        assert(r.types.deep_view() =~= self.types.deep_view().push(type_));
        r
    }
}

impl Codec for RegistryPackage {
    /// A mapping with one entry for each field that is set, in the order
    /// of the fields.
    open spec fn encode(v: RegistryPackageView) -> Node {
        Node::Dict(Self::entries(v))
    }

    /// Reads each field from the entry under its key. Entries under other
    /// keys are passed over.
    open spec fn decode(n: Node) -> Option<RegistryPackageView> {
        match n {
            Node::Dict(e) => {
                let types = list_field::<RegistryPackageType>(e, "types"@);
                if {
                    &&& types is Some
                } {
                    Some(
                        RegistryPackageView {
                            types: types->Some_0,
                        },
                    )
                } else {
                    None
                }
            },
            _ => None,
        }
    }

    open spec fn valid(v: RegistryPackageView) -> bool {
        Vec::<RegistryPackageType>::valid(v.types)
    }

    proof fn lemma_round_trip(v: RegistryPackageView) {
        Self::lemma_fields(v);
        let e = Self::entries(v);
        lemma_list_field::<RegistryPackageType>(e, "types"@, v.types);
    }

    fn to_tree(&self) -> (t: Tree) {
        broadcast use {lemma_record_empty, lemma_record_push};

        let m = record();
        let m = put_list(m, "types", &self.types);
        mapping(m)
    }

    fn from_tree(t: &Tree) -> (r: Result<Self, WorkflowError>) {
        match entries_of(t) {
            Some(m) => {
                let types = get_list::<RegistryPackageType>(m, "types")?;
                Ok(RegistryPackage { types })
            },
            None => Err(WorkflowError::Parse),
        }
    }
}

impl Default for RegistryPackage {
    /// The entity with no field set.
    fn default() -> (r: Self)
        ensures
            r.deep_view() == Self::blank(),
    {
        let r = RegistryPackage {
            types: Vec::new(),
        };
        assert(r.types.deep_view() =~= Seq::empty());
        r
    }
}

/// What happened to a release.
#[derive(Debug, Clone, Copy, PartialEq, Eq, Structural)]
pub enum ReleaseType {
    Published,
    Unpublished,
    Created,
    Edited,
    Deleted,
    Prereleased,
    Released,
}

impl DeepView for ReleaseType {
    type V = ReleaseType;

    open spec fn deep_view(&self) -> ReleaseType {
        *self
    }
}

impl ReleaseType {
    /// The word that is written for the variant.
    pub open spec fn word(self) -> Seq<char> {
        match self {
            ReleaseType::Published => "published"@,
            ReleaseType::Unpublished => "unpublished"@,
            ReleaseType::Created => "created"@,
            ReleaseType::Edited => "edited"@,
            ReleaseType::Deleted => "deleted"@,
            ReleaseType::Prereleased => "prereleased"@,
            ReleaseType::Released => "released"@,
        }
    }

    /// The variant that a word stands for.
    pub open spec fn of_word(w: Seq<char>) -> Option<ReleaseType> {
        if w == "published"@ {
            Some(ReleaseType::Published)
        } else if w == "unpublished"@ {
            Some(ReleaseType::Unpublished)
        } else if w == "created"@ {
            Some(ReleaseType::Created)
        } else if w == "edited"@ {
            Some(ReleaseType::Edited)
        } else if w == "deleted"@ {
            Some(ReleaseType::Deleted)
        } else if w == "prereleased"@ {
            Some(ReleaseType::Prereleased)
        } else if w == "released"@ {
            Some(ReleaseType::Released)
        } else {
            None
        }
    }

    /// Each variant is the one that its own word stands for.
    pub proof fn lemma_words(self)
        ensures
            Self::of_word(self.word()) == Some(self),
    {
        reveal_strlit("published");
        reveal_strlit("unpublished");
        reveal_strlit("created");
        reveal_strlit("edited");
        reveal_strlit("deleted");
        reveal_strlit("prereleased");
        reveal_strlit("released");
        assert("published"@.len() == 9);
        assert("unpublished"@.len() == 11);
        assert("created"@.len() == 7);
        assert("edited"@.len() == 6);
        assert("deleted"@.len() == 7);
        assert("prereleased"@.len() == 11);
        assert("released"@.len() == 8);
        assert("unpublished"@[0] == 'u');
        assert("created"@[0] == 'c');
        assert("deleted"@[0] == 'd');
        assert("prereleased"@[0] == 'p');
    }

    /// The word that is written for the variant.
    pub fn as_str(&self) -> (s: &'static str)
        ensures
            s@ == self.word(),
    {
        match self {
            ReleaseType::Published => "published",
            ReleaseType::Unpublished => "unpublished",
            ReleaseType::Created => "created",
            ReleaseType::Edited => "edited",
            ReleaseType::Deleted => "deleted",
            ReleaseType::Prereleased => "prereleased",
            ReleaseType::Released => "released",
        }
    }

    /// The variant that a word stands for.
    pub fn from_word(w: &str) -> (r: Option<ReleaseType>)
        ensures
            r == Self::of_word(w@),
    {
        if same(w, "published") {
            Some(ReleaseType::Published)
        } else if same(w, "unpublished") {
            Some(ReleaseType::Unpublished)
        } else if same(w, "created") {
            Some(ReleaseType::Created)
        } else if same(w, "edited") {
            Some(ReleaseType::Edited)
        } else if same(w, "deleted") {
            Some(ReleaseType::Deleted)
        } else if same(w, "prereleased") {
            Some(ReleaseType::Prereleased)
        } else if same(w, "released") {
            Some(ReleaseType::Released)
        } else {
            None
        }
    }
}

impl Codec for ReleaseType {
    /// The word of the variant, as a string.
    open spec fn encode(v: ReleaseType) -> Node {
        Node::Str(v.word())
    }

    open spec fn decode(n: Node) -> Option<ReleaseType> {
        match n {
            Node::Str(w) => Self::of_word(w),
            _ => None,
        }
    }

    open spec fn valid(v: ReleaseType) -> bool {
        true
    }

    proof fn lemma_round_trip(v: ReleaseType) {
        v.lemma_words();
    }

    fn to_tree(&self) -> (t: Tree) {
        Tree::String(self.as_str().to_owned())
    }

    fn from_tree(t: &Tree) -> (r: Result<Self, WorkflowError>) {
        match t {
            Tree::String(w) => match Self::from_word(w.as_str()) {
                Some(v) => Ok(v),
                None => Err(WorkflowError::Parse),
            },
            _ => Err(WorkflowError::Parse),
        }
    }
}

/// A release changed.
#[derive(Debug, Clone, PartialEq, Eq)]
pub struct Release {
    /// The kinds of activity that count.
    pub types: Vec<ReleaseType>,
}

/// The model of `Release`: every field as its own model.
pub struct ReleaseView {
    pub types: Seq<ReleaseType>,
}

impl DeepView for Release {
    type V = ReleaseView;

    open spec fn deep_view(&self) -> ReleaseView {
        ReleaseView {
            types: self.types.deep_view(),
        }
    }
}

impl Release {
    /// The model of the entity with no field set: a field that is always
    /// there is empty.
    pub open spec fn blank() -> ReleaseView {
        ReleaseView {
            types: Seq::empty(),
        }
    }

    /// The fields with their keys, in the order in which they are written.
    pub open spec fn fields(v: ReleaseView) -> Fields {
        Seq::empty()
            .push(("types"@, list_node::<ReleaseType>(v.types)))
    }

    /// The entries of the record: one for each field that is set.
    pub open spec fn entries(v: ReleaseView) -> Seq<(Seq<char>, Node)> {
        record_entries(Self::fields(v))
    }

    /// The place of a key among the fields, told by the length of the key
    /// and as many of its characters as it takes.
    pub open spec fn key_rank(k: Seq<char>) -> int {
        if k.len() == 5 {
            0
        } else {
            1
        }
    }

    /// In the entries of the record each key leads to its own field: to
    /// the field's tree where the field is set, and nowhere where it is not.
    /// The entries are plain where the trees of the fields are.
    pub proof fn lemma_fields(v: ReleaseView)
        ensures
            lookup(Self::entries(v), "types"@) == list_node::<ReleaseType>(v.types),
            ({
                &&& plain_opt(list_node::<ReleaseType>(v.types))
            }) ==> all_plain(Self::entries(v)),
    {
        reveal_strlit("types");
        assert("types"@.len() == 5);
        let fields = Self::fields(v);
        assert(fields.len() == 1);
        assert(fields[0].0 == "types"@ && Self::key_rank(fields[0].0) == 0);
        lemma_record(fields, |k: Seq<char>| Self::key_rank(k));
        assert(fields[0].1 == list_node::<ReleaseType>(v.types));
    }

    /// Omission: the key of a field is among the entries of the record
    /// exactly where the field is set. A field that is always there is
    /// always set; a list, a text or a map is set where it is not empty, and
    /// a flag where it is up.
    pub proof fn lemma_omission(v: ReleaseView)
        ensures
            has_key(Self::entries(v), "types"@) <==> v.types.len() > 0,
    {
        Self::lemma_fields(v);
        lemma_position(Self::entries(v), "types"@);
    }

    /// Sets `types` and leaves the other fields as they are.
    pub fn types(self, value: Vec<ReleaseType>) -> (r: Self)
        ensures
            r == (Release { types: value, ..self }),
    {
        let mut r = self;
        r.types = value;
        r
    }

    /// Puts `type_` after the types.
    pub fn add_type(self, type_: ReleaseType) -> (r: Self)
        ensures
            r.deep_view() == (ReleaseView {
                types: self.deep_view().types.push(type_),
                ..self.deep_view()
            }),
    {
        let mut r = self;
        r.types.push(type_);
        assert(r.types.deep_view() =~= self.types.deep_view().push(type_));
        r
    }
}

impl Codec for Release {
    /// A mapping with one entry for each field that is set, in the order
    /// of the fields.
    open spec fn encode(v: ReleaseView) -> Node {
        Node::Dict(Self::entries(v))
    }

    /// Reads each field from the entry under its key. Entries under other
    /// keys are passed over.
    open spec fn decode(n: Node) -> Option<ReleaseView> {
        match n {
            Node::Dict(e) => {
                let types = list_field::<ReleaseType>(e, "types"@);
                if {
                    &&& types is Some
                } {
                    Some(
                        ReleaseView {
                            types: types->Some_0,
                        },
                    )
                } else {
                    None
                }
            },
            _ => None,
        }
    }

    open spec fn valid(v: ReleaseView) -> bool {
        Vec::<ReleaseType>::valid(v.types)
    }

    proof fn lemma_round_trip(v: ReleaseView) {
        Self::lemma_fields(v);
        let e = Self::entries(v);
        lemma_list_field::<ReleaseType>(e, "types"@, v.types);
    }

    fn to_tree(&self) -> (t: Tree) {
        broadcast use {lemma_record_empty, lemma_record_push};

        let m = record();
        let m = put_list(m, "types", &self.types);
        mapping(m)
    }

    fn from_tree(t: &Tree) -> (r: Result<Self, WorkflowError>) {
        match entries_of(t) {
            Some(m) => {
                let types = get_list::<ReleaseType>(m, "types")?;
                Ok(Release { types })
            },
            None => Err(WorkflowError::Parse),
        }
    }
}

impl Default for Release {
    /// The entity with no field set.
    fn default() -> (r: Self)
        ensures
            r.deep_view() == Self::blank(),
    {
        let r = Release {
            types: Vec::new(),
        };
        assert(r.types.deep_view() =~= Seq::empty());
        r
    }
}

/// An event that someone sent to the repository from outside.
#[derive(Debug, Clone, PartialEq, Eq)]
pub struct RepositoryDispatch {
    /// The kinds of event that count.
    pub types: Vec<String>,
}

/// The model of `RepositoryDispatch`: every field as its own model.
pub struct RepositoryDispatchView {
    pub types: Seq<Seq<char>>,
}

impl DeepView for RepositoryDispatch {
    type V = RepositoryDispatchView;

    open spec fn deep_view(&self) -> RepositoryDispatchView {
        RepositoryDispatchView {
            types: self.types.deep_view(),
        }
    }
}

impl RepositoryDispatch {
    /// The model of the entity with no field set: a field that is always
    /// there is empty.
    pub open spec fn blank() -> RepositoryDispatchView {
        RepositoryDispatchView {
            types: Seq::empty(),
        }
    }

    /// The fields with their keys, in the order in which they are written.
    pub open spec fn fields(v: RepositoryDispatchView) -> Fields {
        Seq::empty()
            .push(("types"@, list_node::<String>(v.types)))
    }

    /// The entries of the record: one for each field that is set.
    pub open spec fn entries(v: RepositoryDispatchView) -> Seq<(Seq<char>, Node)> {
        record_entries(Self::fields(v))
    }

    /// The place of a key among the fields, told by the length of the key
    /// and as many of its characters as it takes.
    pub open spec fn key_rank(k: Seq<char>) -> int {
        if k.len() == 5 {
            0
        } else {
            1
        }
    }

    /// In the entries of the record each key leads to its own field: to
    /// the field's tree where the field is set, and nowhere where it is not.
    /// The entries are plain where the trees of the fields are.
    pub proof fn lemma_fields(v: RepositoryDispatchView)
        ensures
            lookup(Self::entries(v), "types"@) == list_node::<String>(v.types),
            ({
                &&& plain_opt(list_node::<String>(v.types))
            }) ==> all_plain(Self::entries(v)),
    {
        reveal_strlit("types");
        assert("types"@.len() == 5);
        let fields = Self::fields(v);
        assert(fields.len() == 1);
        assert(fields[0].0 == "types"@ && Self::key_rank(fields[0].0) == 0);
        lemma_record(fields, |k: Seq<char>| Self::key_rank(k));
        assert(fields[0].1 == list_node::<String>(v.types));
    }

    /// Omission: the key of a field is among the entries of the record
    /// exactly where the field is set. A field that is always there is
    /// always set; a list, a text or a map is set where it is not empty, and
    /// a flag where it is up.
    pub proof fn lemma_omission(v: RepositoryDispatchView)
        ensures
            has_key(Self::entries(v), "types"@) <==> v.types.len() > 0,
    {
        Self::lemma_fields(v);
        lemma_position(Self::entries(v), "types"@);
    }

    /// Sets `types` and leaves the other fields as they are.
    pub fn types(self, value: Vec<String>) -> (r: Self)
        ensures
            r == (RepositoryDispatch { types: value, ..self }),
    {
        let mut r = self;
        r.types = value;
        r
    }

    /// Puts `type_` after the types.
    pub fn add_type(self, type_: &str) -> (r: Self)
        ensures
            r.deep_view() == (RepositoryDispatchView {
                types: self.deep_view().types.push(type_@),
                ..self.deep_view()
            }),
    {
        let mut r = self;
        r.types.push(type_.to_owned());
        assert(r.types.deep_view() =~= self.types.deep_view().push(type_@));
        r
    }
}

impl Codec for RepositoryDispatch {
    /// A mapping with one entry for each field that is set, in the order
    /// of the fields.
    open spec fn encode(v: RepositoryDispatchView) -> Node {
        Node::Dict(Self::entries(v))
    }

    /// Reads each field from the entry under its key. Entries under other
    /// keys are passed over.
    open spec fn decode(n: Node) -> Option<RepositoryDispatchView> {
        match n {
            Node::Dict(e) => {
                let types = list_field::<String>(e, "types"@);
                if {
                    &&& types is Some
                } {
                    Some(
                        RepositoryDispatchView {
                            types: types->Some_0,
                        },
                    )
                } else {
                    None
                }
            },
            _ => None,
        }
    }

    open spec fn valid(v: RepositoryDispatchView) -> bool {
        Vec::<String>::valid(v.types)
    }

    proof fn lemma_round_trip(v: RepositoryDispatchView) {
        Self::lemma_fields(v);
        let e = Self::entries(v);
        lemma_list_field::<String>(e, "types"@, v.types);
    }

    fn to_tree(&self) -> (t: Tree) {
        broadcast use {lemma_record_empty, lemma_record_push};

        let m = record();
        let m = put_list(m, "types", &self.types);
        mapping(m)
    }

    fn from_tree(t: &Tree) -> (r: Result<Self, WorkflowError>) {
        match entries_of(t) {
            Some(m) => {
                let types = get_list::<String>(m, "types")?;
                Ok(RepositoryDispatch { types })
            },
            None => Err(WorkflowError::Parse),
        }
    }
}

impl Default for RepositoryDispatch {
    /// The entity with no field set.
    fn default() -> (r: Self)
        ensures
            r.deep_view() == Self::blank(),
    {
        let r = RepositoryDispatch {
            types: Vec::new(),
        };
        assert(r.types.deep_view() =~= Seq::empty());
        r
    }
}

/// A time of the clock.
#[derive(Debug, Clone, PartialEq, Eq)]
pub struct Schedule {
    /// The times, in the notation of cron.
    pub cron: Vec<String>,
}

/// The model of `Schedule`: every field as its own model.
pub struct ScheduleView {
    pub cron: Seq<Seq<char>>,
}

impl DeepView for Schedule {
    type V = ScheduleView;

    open spec fn deep_view(&self) -> ScheduleView {
        ScheduleView {
            cron: self.cron.deep_view(),
        }
    }
}

impl Schedule {
    /// The model of the entity with no field set: a field that is always
    /// there is empty.
    pub open spec fn blank() -> ScheduleView {
        ScheduleView {
            cron: Seq::empty(),
        }
    }

    /// The fields with their keys, in the order in which they are written.
    pub open spec fn fields(v: ScheduleView) -> Fields {
        Seq::empty()
            .push(("cron"@, list_node::<String>(v.cron)))
    }

    /// The entries of the record: one for each field that is set.
    pub open spec fn entries(v: ScheduleView) -> Seq<(Seq<char>, Node)> {
        record_entries(Self::fields(v))
    }

    /// The place of a key among the fields, told by the length of the key
    /// and as many of its characters as it takes.
    pub open spec fn key_rank(k: Seq<char>) -> int {
        if k.len() == 4 {
            0
        } else {
            1
        }
    }

    /// In the entries of the record each key leads to its own field: to
    /// the field's tree where the field is set, and nowhere where it is not.
    /// The entries are plain where the trees of the fields are.
    pub proof fn lemma_fields(v: ScheduleView)
        ensures
            lookup(Self::entries(v), "cron"@) == list_node::<String>(v.cron),
            ({
                &&& plain_opt(list_node::<String>(v.cron))
            }) ==> all_plain(Self::entries(v)),
    {
        reveal_strlit("cron");
        assert("cron"@.len() == 4);
        let fields = Self::fields(v);
        assert(fields.len() == 1);
        assert(fields[0].0 == "cron"@ && Self::key_rank(fields[0].0) == 0);
        lemma_record(fields, |k: Seq<char>| Self::key_rank(k));
        assert(fields[0].1 == list_node::<String>(v.cron));
    }

    /// Omission: the key of a field is among the entries of the record
    /// exactly where the field is set. A field that is always there is
    /// always set; a list, a text or a map is set where it is not empty, and
    /// a flag where it is up.
    pub proof fn lemma_omission(v: ScheduleView)
        ensures
            has_key(Self::entries(v), "cron"@) <==> v.cron.len() > 0,
    {
        Self::lemma_fields(v);
        lemma_position(Self::entries(v), "cron"@);
    }

    /// Sets `cron` and leaves the other fields as they are.
    pub fn cron(self, value: Vec<String>) -> (r: Self)
        ensures
            r == (Schedule { cron: value, ..self }),
    {
        let mut r = self;
        r.cron = value;
        r
    }

    /// Puts `cron` after the cron.
    pub fn add_cron(self, cron: &str) -> (r: Self)
        ensures
            r.deep_view() == (ScheduleView {
                cron: self.deep_view().cron.push(cron@),
                ..self.deep_view()
            }),
    {
        let mut r = self;
        r.cron.push(cron.to_owned());
        assert(r.cron.deep_view() =~= self.cron.deep_view().push(cron@));
        r
    }
}

impl Codec for Schedule {
    /// A mapping with one entry for each field that is set, in the order
    /// of the fields.
    open spec fn encode(v: ScheduleView) -> Node {
        Node::Dict(Self::entries(v))
    }

    /// Reads each field from the entry under its key. Entries under other
    /// keys are passed over.
    open spec fn decode(n: Node) -> Option<ScheduleView> {
        match n {
            Node::Dict(e) => {
                let cron = list_field::<String>(e, "cron"@);
                if {
                    &&& cron is Some
                } {
                    Some(
                        ScheduleView {
                            cron: cron->Some_0,
                        },
                    )
                } else {
                    None
                }
            },
            _ => None,
        }
    }

    open spec fn valid(v: ScheduleView) -> bool {
        Vec::<String>::valid(v.cron)
    }

    proof fn lemma_round_trip(v: ScheduleView) {
        Self::lemma_fields(v);
        let e = Self::entries(v);
        lemma_list_field::<String>(e, "cron"@, v.cron);
    }

    fn to_tree(&self) -> (t: Tree) {
        broadcast use {lemma_record_empty, lemma_record_push};

        let m = record();
        let m = put_list(m, "cron", &self.cron);
        mapping(m)
    }

    fn from_tree(t: &Tree) -> (r: Result<Self, WorkflowError>) {
        match entries_of(t) {
            Some(m) => {
                let cron = get_list::<String>(m, "cron")?;
                Ok(Schedule { cron })
            },
            None => Err(WorkflowError::Parse),
        }
    }
}

impl Default for Schedule {
    /// The entity with no field set.
    fn default() -> (r: Self)
        ensures
            r.deep_view() == Self::blank(),
    {
        let r = Schedule {
            cron: Vec::new(),
        };
        assert(r.cron.deep_view() =~= Seq::empty());
        r
    }
}

/// Someone starred the repository.
#[derive(Debug, Clone, PartialEq, Eq)]
pub struct Watch {
    /// The kinds of activity that count.
    pub types: Vec<String>,
}

/// The model of `Watch`: every field as its own model.
pub struct WatchView {
    pub types: Seq<Seq<char>>,
}

impl DeepView for Watch {
    type V = WatchView;

    open spec fn deep_view(&self) -> WatchView {
        WatchView {
            types: self.types.deep_view(),
        }
    }
}

impl Watch {
    /// The model of the entity with no field set: a field that is always
    /// there is empty.
    pub open spec fn blank() -> WatchView {
        WatchView {
            types: Seq::empty(),
        }
    }

    /// The fields with their keys, in the order in which they are written.
    pub open spec fn fields(v: WatchView) -> Fields {
        Seq::empty()
            .push(("types"@, list_node::<String>(v.types)))
    }

    /// The entries of the record: one for each field that is set.
    pub open spec fn entries(v: WatchView) -> Seq<(Seq<char>, Node)> {
        record_entries(Self::fields(v))
    }

    /// The place of a key among the fields, told by the length of the key
    /// and as many of its characters as it takes.
    pub open spec fn key_rank(k: Seq<char>) -> int {
        if k.len() == 5 {
            0
        } else {
            1
        }
    }

    /// In the entries of the record each key leads to its own field: to
    /// the field's tree where the field is set, and nowhere where it is not.
    /// The entries are plain where the trees of the fields are.
    pub proof fn lemma_fields(v: WatchView)
        ensures
            lookup(Self::entries(v), "types"@) == list_node::<String>(v.types),
            ({
                &&& plain_opt(list_node::<String>(v.types))
            }) ==> all_plain(Self::entries(v)),
    {
        reveal_strlit("types");
        assert("types"@.len() == 5);
        let fields = Self::fields(v);
        assert(fields.len() == 1);
        assert(fields[0].0 == "types"@ && Self::key_rank(fields[0].0) == 0);
        lemma_record(fields, |k: Seq<char>| Self::key_rank(k));
        assert(fields[0].1 == list_node::<String>(v.types));
    }

    /// Omission: the key of a field is among the entries of the record
    /// exactly where the field is set. A field that is always there is
    /// always set; a list, a text or a map is set where it is not empty, and
    /// a flag where it is up.
    pub proof fn lemma_omission(v: WatchView)
        ensures
            has_key(Self::entries(v), "types"@) <==> v.types.len() > 0,
    {
        Self::lemma_fields(v);
        lemma_position(Self::entries(v), "types"@);
    }

    /// Sets `types` and leaves the other fields as they are.
    pub fn types(self, value: Vec<String>) -> (r: Self)
        ensures
            r == (Watch { types: value, ..self }),
    {
        let mut r = self;
        r.types = value;
        r
    }

    /// Puts `type_` after the types.
    pub fn add_type(self, type_: &str) -> (r: Self)
        ensures
            r.deep_view() == (WatchView {
                types: self.deep_view().types.push(type_@),
                ..self.deep_view()
            }),
    {
        let mut r = self;
        r.types.push(type_.to_owned());
        assert(r.types.deep_view() =~= self.types.deep_view().push(type_@));
        r
    }
}

impl Codec for Watch {
    /// A mapping with one entry for each field that is set, in the order
    /// of the fields.
    open spec fn encode(v: WatchView) -> Node {
        Node::Dict(Self::entries(v))
    }

    /// Reads each field from the entry under its key. Entries under other
    /// keys are passed over.
    open spec fn decode(n: Node) -> Option<WatchView> {
        match n {
            Node::Dict(e) => {
                let types = list_field::<String>(e, "types"@);
                if {
                    &&& types is Some
                } {
                    Some(
                        WatchView {
                            types: types->Some_0,
                        },
                    )
                } else {
                    None
                }
            },
            _ => None,
        }
    }

    open spec fn valid(v: WatchView) -> bool {
        Vec::<String>::valid(v.types)
    }

    proof fn lemma_round_trip(v: WatchView) {
        Self::lemma_fields(v);
        let e = Self::entries(v);
        lemma_list_field::<String>(e, "types"@, v.types);
    }

    fn to_tree(&self) -> (t: Tree) {
        broadcast use {lemma_record_empty, lemma_record_push};

        let m = record();
        let m = put_list(m, "types", &self.types);
        mapping(m)
    }

    fn from_tree(t: &Tree) -> (r: Result<Self, WorkflowError>) {
        match entries_of(t) {
            Some(m) => {
                let types = get_list::<String>(m, "types")?;
                Ok(Watch { types })
            },
            None => Err(WorkflowError::Parse),
        }
    }
}

impl Default for Watch {
    /// The entity with no field set.
    fn default() -> (r: Self)
        ensures
            r.deep_view() == Self::blank(),
    {
        let r = Watch {
            types: Vec::new(),
        };
        assert(r.types.deep_view() =~= Seq::empty());
        r
    }
}

/// An input that a called workflow takes.
#[derive(Debug, Clone, PartialEq, Eq)]
pub struct WorkflowCallInput {
    /// What the input is for.
    pub description: String,
    /// Whether the caller must give the input.
    pub required: bool,
    /// The type of the input.
    pub input_type: String,
    /// The value of the input where the caller gives none.
    pub default: Option<String>,
}

/// The model of `WorkflowCallInput`: every field as its own model.
pub struct WorkflowCallInputView {
    pub description: Seq<char>,
    pub required: bool,
    pub input_type: Seq<char>,
    pub default: Option<Seq<char>>,
}

impl DeepView for WorkflowCallInput {
    type V = WorkflowCallInputView;

    open spec fn deep_view(&self) -> WorkflowCallInputView {
        WorkflowCallInputView {
            description: self.description.deep_view(),
            required: self.required.deep_view(),
            input_type: self.input_type.deep_view(),
            default: self.default.deep_view(),
        }
    }
}

impl WorkflowCallInput {
    /// The model of the entity with no field set: a field that is always
    /// there is empty.
    pub open spec fn blank() -> WorkflowCallInputView {
        WorkflowCallInputView {
            description: Seq::empty(),
            required: false,
            input_type: Seq::empty(),
            default: None,
        }
    }

    /// The fields with their keys, in the order in which they are written.
    pub open spec fn fields(v: WorkflowCallInputView) -> Fields {
        Seq::empty()
            .push(("description"@, text_node(v.description)))
            .push(("required"@, flag_node(v.required)))
            .push(("type"@, Some(String::encode(v.input_type))))
            .push(("default"@, opt_node::<String>(v.default)))
    }

    /// The entries of the record: one for each field that is set.
    pub open spec fn entries(v: WorkflowCallInputView) -> Seq<(Seq<char>, Node)> {
        record_entries(Self::fields(v))
    }

    /// The place of a key among the fields, told by the length of the key
    /// and as many of its characters as it takes.
    pub open spec fn key_rank(k: Seq<char>) -> int {
        if k.len() == 11 {
            0
        } else if k.len() == 8 {
            1
        } else if k.len() == 4 {
            2
        } else if k.len() == 7 {
            3
        } else {
            4
        }
    }

    /// In the entries of the record each key leads to its own field: to
    /// the field's tree where the field is set, and nowhere where it is not.
    /// The entries are plain where the trees of the fields are.
    pub proof fn lemma_fields(v: WorkflowCallInputView)
        ensures
            lookup(Self::entries(v), "description"@) == text_node(v.description),
            lookup(Self::entries(v), "required"@) == flag_node(v.required),
            lookup(Self::entries(v), "type"@) == Some(String::encode(v.input_type)),
            lookup(Self::entries(v), "default"@) == opt_node::<String>(v.default),
            ({
                &&& plain_opt(text_node(v.description))
                &&& plain_opt(flag_node(v.required))
                &&& plain_opt(Some(String::encode(v.input_type)))
                &&& plain_opt(opt_node::<String>(v.default))
            }) ==> all_plain(Self::entries(v)),
    {
        reveal_strlit("description");
        reveal_strlit("required");
        reveal_strlit("type");
        reveal_strlit("default");
        assert("description"@.len() == 11);
        assert("required"@.len() == 8);
        assert("type"@.len() == 4);
        assert("default"@.len() == 7);
        let fields = Self::fields(v);
        assert(fields.len() == 4);
        assert(fields[0].0 == "description"@ && Self::key_rank(fields[0].0) == 0);
        assert(fields[1].0 == "required"@ && Self::key_rank(fields[1].0) == 1);
        assert(fields[2].0 == "type"@ && Self::key_rank(fields[2].0) == 2);
        assert(fields[3].0 == "default"@ && Self::key_rank(fields[3].0) == 3);
        lemma_record(fields, |k: Seq<char>| Self::key_rank(k));
        assert(fields[0].1 == text_node(v.description));
        assert(fields[1].1 == flag_node(v.required));
        assert(fields[2].1 == Some(String::encode(v.input_type)));
        assert(fields[3].1 == opt_node::<String>(v.default));
    }

    /// Omission: the key of a field is among the entries of the record
    /// exactly where the field is set. A field that is always there is
    /// always set; a list, a text or a map is set where it is not empty, and
    /// a flag where it is up.
    pub proof fn lemma_omission(v: WorkflowCallInputView)
        ensures
            has_key(Self::entries(v), "description"@) <==> v.description.len() > 0,
            has_key(Self::entries(v), "required"@) <==> v.required,
            has_key(Self::entries(v), "type"@),
            has_key(Self::entries(v), "default"@) <==> v.default is Some,
    {
        Self::lemma_fields(v);
        lemma_position(Self::entries(v), "description"@);
        lemma_position(Self::entries(v), "required"@);
        lemma_position(Self::entries(v), "type"@);
        lemma_position(Self::entries(v), "default"@);
    }

    /// Sets `description` and leaves the other fields as they are.
    pub fn description(self, value: &str) -> (r: Self)
        ensures
            r.deep_view() == (WorkflowCallInputView { description: value@, ..self.deep_view() }),
    {
        let mut r = self;
        r.description = value.to_owned();
        r
    }

    /// Sets `required` and leaves the other fields as they are.
    pub fn required(self, value: bool) -> (r: Self)
        ensures
            r == (WorkflowCallInput { required: value, ..self }),
    {
        let mut r = self;
        r.required = value;
        r
    }

    /// Sets `input_type` and leaves the other fields as they are.
    pub fn input_type(self, value: &str) -> (r: Self)
        ensures
            r.deep_view() == (WorkflowCallInputView { input_type: value@, ..self.deep_view() }),
    {
        let mut r = self;
        r.input_type = value.to_owned();
        r
    }

    /// Sets `default` and leaves the other fields as they are.
    pub fn default_value(self, value: &str) -> (r: Self)
        ensures
            r.deep_view() == (WorkflowCallInputView { default: Some(value@), ..self.deep_view() }),
    {
        let mut r = self;
        r.default = Some(value.to_owned());
        r
    }
}

impl Codec for WorkflowCallInput {
    /// A mapping with one entry for each field that is set, in the order
    /// of the fields.
    open spec fn encode(v: WorkflowCallInputView) -> Node {
        Node::Dict(Self::entries(v))
    }

    /// Reads each field from the entry under its key. Entries under other
    /// keys are passed over.
    open spec fn decode(n: Node) -> Option<WorkflowCallInputView> {
        match n {
            Node::Dict(e) => {
                let description = text_field(e, "description"@);
                let required = flag_field(e, "required"@);
                let input_type = req_field::<String>(e, "type"@);
                let default = opt_field::<String>(e, "default"@);
                if {
                    &&& description is Some
                    &&& required is Some
                    &&& input_type is Some
                    &&& default is Some
                } {
                    Some(
                        WorkflowCallInputView {
                            description: description->Some_0,
                            required: required->Some_0,
                            input_type: input_type->Some_0,
                            default: default->Some_0,
                        },
                    )
                } else {
                    None
                }
            },
            _ => None,
        }
    }

    open spec fn valid(v: WorkflowCallInputView) -> bool {
        &&& String::valid(v.input_type)
        &&& opt_valid::<String>(v.default)
    }

    proof fn lemma_round_trip(v: WorkflowCallInputView) {
        Self::lemma_fields(v);
        let e = Self::entries(v);
        lemma_text_field(e, "description"@, v.description);
        lemma_flag_field(e, "required"@, v.required);
        lemma_req_field::<String>(e, "type"@, v.input_type);
        lemma_opt_field::<String>(e, "default"@, v.default);
    }

    fn to_tree(&self) -> (t: Tree) {
        broadcast use {lemma_record_empty, lemma_record_push};

        let m = record();
        let m = put_text(m, "description", &self.description);
        let m = put_flag(m, "required", &self.required);
        let m = put_req(m, "type", &self.input_type);
        let m = put_opt(m, "default", &self.default);
        mapping(m)
    }

    fn from_tree(t: &Tree) -> (r: Result<Self, WorkflowError>) {
        match entries_of(t) {
            Some(m) => {
                let description = get_text(m, "description")?;
                let required = get_flag(m, "required")?;
                let input_type = get_req::<String>(m, "type")?;
                let default = get_opt::<String>(m, "default")?;
                Ok(WorkflowCallInput { description, required, input_type, default })
            },
            None => Err(WorkflowError::Parse),
        }
    }
}

impl Default for WorkflowCallInput {
    /// The entity with no field set.
    fn default() -> (r: Self)
        ensures
            r.deep_view() == Self::blank(),
    {
        let r = WorkflowCallInput {
            description: String::new(),
            required: false,
            input_type: String::new(),
            default: None,
        };
        r
    }
}

/// An output that a called workflow gives.
#[derive(Debug, Clone, PartialEq, Eq)]
pub struct WorkflowCallOutput {
    /// What the output is.
    pub description: String,
    /// The expression that gives the value.
    pub value: String,
}

/// The model of `WorkflowCallOutput`: every field as its own model.
pub struct WorkflowCallOutputView {
    pub description: Seq<char>,
    pub value: Seq<char>,
}

impl DeepView for WorkflowCallOutput {
    type V = WorkflowCallOutputView;

    open spec fn deep_view(&self) -> WorkflowCallOutputView {
        WorkflowCallOutputView {
            description: self.description.deep_view(),
            value: self.value.deep_view(),
        }
    }
}

impl WorkflowCallOutput {
    /// The model of the entity with no field set: a field that is always
    /// there is empty.
    pub open spec fn blank() -> WorkflowCallOutputView {
        WorkflowCallOutputView {
            description: Seq::empty(),
            value: Seq::empty(),
        }
    }

    /// The fields with their keys, in the order in which they are written.
    pub open spec fn fields(v: WorkflowCallOutputView) -> Fields {
        Seq::empty()
            .push(("description"@, text_node(v.description)))
            .push(("value"@, text_node(v.value)))
    }

    /// The entries of the record: one for each field that is set.
    pub open spec fn entries(v: WorkflowCallOutputView) -> Seq<(Seq<char>, Node)> {
        record_entries(Self::fields(v))
    }

    /// The place of a key among the fields, told by the length of the key
    /// and as many of its characters as it takes.
    pub open spec fn key_rank(k: Seq<char>) -> int {
        if k.len() == 11 {
            0
        } else if k.len() == 5 {
            1
        } else {
            2
        }
    }

    /// In the entries of the record each key leads to its own field: to
    /// the field's tree where the field is set, and nowhere where it is not.
    /// The entries are plain where the trees of the fields are.
    pub proof fn lemma_fields(v: WorkflowCallOutputView)
        ensures
            lookup(Self::entries(v), "description"@) == text_node(v.description),
            lookup(Self::entries(v), "value"@) == text_node(v.value),
            ({
                &&& plain_opt(text_node(v.description))
                &&& plain_opt(text_node(v.value))
            }) ==> all_plain(Self::entries(v)),
    {
        reveal_strlit("description");
        reveal_strlit("value");
        assert("description"@.len() == 11);
        assert("value"@.len() == 5);
        let fields = Self::fields(v);
        assert(fields.len() == 2);
        assert(fields[0].0 == "description"@ && Self::key_rank(fields[0].0) == 0);
        assert(fields[1].0 == "value"@ && Self::key_rank(fields[1].0) == 1);
        lemma_record(fields, |k: Seq<char>| Self::key_rank(k));
        assert(fields[0].1 == text_node(v.description));
        assert(fields[1].1 == text_node(v.value));
    }

    /// Omission: the key of a field is among the entries of the record
    /// exactly where the field is set. A field that is always there is
    /// always set; a list, a text or a map is set where it is not empty, and
    /// a flag where it is up.
    pub proof fn lemma_omission(v: WorkflowCallOutputView)
        ensures
            has_key(Self::entries(v), "description"@) <==> v.description.len() > 0,
            has_key(Self::entries(v), "value"@) <==> v.value.len() > 0,
    {
        Self::lemma_fields(v);
        lemma_position(Self::entries(v), "description"@);
        lemma_position(Self::entries(v), "value"@);
    }

    /// Sets `description` and leaves the other fields as they are.
    pub fn description(self, value: &str) -> (r: Self)
        ensures
            r.deep_view() == (WorkflowCallOutputView { description: value@, ..self.deep_view() }),
    {
        let mut r = self;
        r.description = value.to_owned();
        r
    }

    /// Sets `value` and leaves the other fields as they are.
    pub fn value(self, value: &str) -> (r: Self)
        ensures
            r.deep_view() == (WorkflowCallOutputView { value: value@, ..self.deep_view() }),
    {
        let mut r = self;
        r.value = value.to_owned();
        r
    }
}

impl Codec for WorkflowCallOutput {
    /// A mapping with one entry for each field that is set, in the order
    /// of the fields.
    open spec fn encode(v: WorkflowCallOutputView) -> Node {
        Node::Dict(Self::entries(v))
    }

    /// Reads each field from the entry under its key. Entries under other
    /// keys are passed over.
    open spec fn decode(n: Node) -> Option<WorkflowCallOutputView> {
        match n {
            Node::Dict(e) => {
                let description = text_field(e, "description"@);
                let value = text_field(e, "value"@);
                if {
                    &&& description is Some
                    &&& value is Some
                } {
                    Some(
                        WorkflowCallOutputView {
                            description: description->Some_0,
                            value: value->Some_0,
                        },
                    )
                } else {
                    None
                }
            },
            _ => None,
        }
    }

    open spec fn valid(v: WorkflowCallOutputView) -> bool {
        true
    }

    proof fn lemma_round_trip(v: WorkflowCallOutputView) {
        Self::lemma_fields(v);
        let e = Self::entries(v);
        lemma_text_field(e, "description"@, v.description);
        lemma_text_field(e, "value"@, v.value);
    }

    fn to_tree(&self) -> (t: Tree) {
        broadcast use {lemma_record_empty, lemma_record_push};

        let m = record();
        let m = put_text(m, "description", &self.description);
        let m = put_text(m, "value", &self.value);
        mapping(m)
    }

    fn from_tree(t: &Tree) -> (r: Result<Self, WorkflowError>) {
        match entries_of(t) {
            Some(m) => {
                let description = get_text(m, "description")?;
                let value = get_text(m, "value")?;
                Ok(WorkflowCallOutput { description, value })
            },
            None => Err(WorkflowError::Parse),
        }
    }
}

impl Default for WorkflowCallOutput {
    /// The entity with no field set.
    fn default() -> (r: Self)
        ensures
            r.deep_view() == Self::blank(),
    {
        let r = WorkflowCallOutput {
            description: String::new(),
            value: String::new(),
        };
        r
    }
}

/// A secret that a called workflow takes.
#[derive(Debug, Clone, PartialEq, Eq)]
pub struct WorkflowCallSecret {
    /// What the secret is for.
    pub description: String,
    /// Whether the caller must give the secret.
    pub required: bool,
}

/// The model of `WorkflowCallSecret`: every field as its own model.
pub struct WorkflowCallSecretView {
    pub description: Seq<char>,
    pub required: bool,
}

impl DeepView for WorkflowCallSecret {
    type V = WorkflowCallSecretView;

    open spec fn deep_view(&self) -> WorkflowCallSecretView {
        WorkflowCallSecretView {
            description: self.description.deep_view(),
            required: self.required.deep_view(),
        }
    }
}

impl WorkflowCallSecret {
    /// The model of the entity with no field set: a field that is always
    /// there is empty.
    pub open spec fn blank() -> WorkflowCallSecretView {
        WorkflowCallSecretView {
            description: Seq::empty(),
            required: false,
        }
    }

    /// The fields with their keys, in the order in which they are written.
    pub open spec fn fields(v: WorkflowCallSecretView) -> Fields {
        Seq::empty()
            .push(("description"@, text_node(v.description)))
            .push(("required"@, flag_node(v.required)))
    }

    /// The entries of the record: one for each field that is set.
    pub open spec fn entries(v: WorkflowCallSecretView) -> Seq<(Seq<char>, Node)> {
        record_entries(Self::fields(v))
    }

    /// The place of a key among the fields, told by the length of the key
    /// and as many of its characters as it takes.
    pub open spec fn key_rank(k: Seq<char>) -> int {
        if k.len() == 11 {
            0
        } else if k.len() == 8 {
            1
        } else {
            2
        }
    }

    /// In the entries of the record each key leads to its own field: to
    /// the field's tree where the field is set, and nowhere where it is not.
    /// The entries are plain where the trees of the fields are.
    pub proof fn lemma_fields(v: WorkflowCallSecretView)
        ensures
            lookup(Self::entries(v), "description"@) == text_node(v.description),
            lookup(Self::entries(v), "required"@) == flag_node(v.required),
            ({
                &&& plain_opt(text_node(v.description))
                &&& plain_opt(flag_node(v.required))
            }) ==> all_plain(Self::entries(v)),
    {
        reveal_strlit("description");
        reveal_strlit("required");
        assert("description"@.len() == 11);
        assert("required"@.len() == 8);
        let fields = Self::fields(v);
        assert(fields.len() == 2);
        assert(fields[0].0 == "description"@ && Self::key_rank(fields[0].0) == 0);
        assert(fields[1].0 == "required"@ && Self::key_rank(fields[1].0) == 1);
        lemma_record(fields, |k: Seq<char>| Self::key_rank(k));
        assert(fields[0].1 == text_node(v.description));
        assert(fields[1].1 == flag_node(v.required));
    }

    /// Omission: the key of a field is among the entries of the record
    /// exactly where the field is set. A field that is always there is
    /// always set; a list, a text or a map is set where it is not empty, and
    /// a flag where it is up.
    pub proof fn lemma_omission(v: WorkflowCallSecretView)
        ensures
            has_key(Self::entries(v), "description"@) <==> v.description.len() > 0,
            has_key(Self::entries(v), "required"@) <==> v.required,
    {
        Self::lemma_fields(v);
        lemma_position(Self::entries(v), "description"@);
        lemma_position(Self::entries(v), "required"@);
    }

    /// Sets `description` and leaves the other fields as they are.
    pub fn description(self, value: &str) -> (r: Self)
        ensures
            r.deep_view() == (WorkflowCallSecretView { description: value@, ..self.deep_view() }),
    {
        let mut r = self;
        r.description = value.to_owned();
        r
    }

    /// Sets `required` and leaves the other fields as they are.
    pub fn required(self, value: bool) -> (r: Self)
        ensures
            r == (WorkflowCallSecret { required: value, ..self }),
    {
        let mut r = self;
        r.required = value;
        r
    }
}

impl Codec for WorkflowCallSecret {
    /// A mapping with one entry for each field that is set, in the order
    /// of the fields.
    open spec fn encode(v: WorkflowCallSecretView) -> Node {
        Node::Dict(Self::entries(v))
    }

    /// Reads each field from the entry under its key. Entries under other
    /// keys are passed over.
    open spec fn decode(n: Node) -> Option<WorkflowCallSecretView> {
        match n {
            Node::Dict(e) => {
                let description = text_field(e, "description"@);
                let required = flag_field(e, "required"@);
                if {
                    &&& description is Some
                    &&& required is Some
                } {
                    Some(
                        WorkflowCallSecretView {
                            description: description->Some_0,
                            required: required->Some_0,
                        },
                    )
                } else {
                    None
                }
            },
            _ => None,
        }
    }

    open spec fn valid(v: WorkflowCallSecretView) -> bool {
        true
    }

    proof fn lemma_round_trip(v: WorkflowCallSecretView) {
        Self::lemma_fields(v);
        let e = Self::entries(v);
        lemma_text_field(e, "description"@, v.description);
        lemma_flag_field(e, "required"@, v.required);
    }

    fn to_tree(&self) -> (t: Tree) {
        broadcast use {lemma_record_empty, lemma_record_push};

        let m = record();
        let m = put_text(m, "description", &self.description);
        let m = put_flag(m, "required", &self.required);
        mapping(m)
    }

    fn from_tree(t: &Tree) -> (r: Result<Self, WorkflowError>) {
        match entries_of(t) {
            Some(m) => {
                let description = get_text(m, "description")?;
                let required = get_flag(m, "required")?;
                Ok(WorkflowCallSecret { description, required })
            },
            None => Err(WorkflowError::Parse),
        }
    }
}

impl Default for WorkflowCallSecret {
    /// The entity with no field set.
    fn default() -> (r: Self)
        ensures
            r.deep_view() == Self::blank(),
    {
        let r = WorkflowCallSecret {
            description: String::new(),
            required: false,
        };
        r
    }
}

/// Another workflow called this one.
#[derive(Debug, Clone, PartialEq, Eq)]
pub struct WorkflowCall {
    /// The inputs, by name.
    pub inputs: OrderedMap<WorkflowCallInput>,
    /// The outputs, by name.
    pub outputs: OrderedMap<WorkflowCallOutput>,
    /// The secrets, by name.
    pub secrets: OrderedMap<WorkflowCallSecret>,
}

/// The model of `WorkflowCall`: every field as its own model.
pub struct WorkflowCallView {
    pub inputs: Seq<(Seq<char>, WorkflowCallInputView)>,
    pub outputs: Seq<(Seq<char>, WorkflowCallOutputView)>,
    pub secrets: Seq<(Seq<char>, WorkflowCallSecretView)>,
}

impl DeepView for WorkflowCall {
    type V = WorkflowCallView;

    open spec fn deep_view(&self) -> WorkflowCallView {
        WorkflowCallView {
            inputs: self.inputs.deep_view(),
            outputs: self.outputs.deep_view(),
            secrets: self.secrets.deep_view(),
        }
    }
}

impl WorkflowCall {
    /// The model of the entity with no field set: a field that is always
    /// there is empty.
    pub open spec fn blank() -> WorkflowCallView {
        WorkflowCallView {
            inputs: Seq::empty(),
            outputs: Seq::empty(),
            secrets: Seq::empty(),
        }
    }

    /// The fields with their keys, in the order in which they are written.
    pub open spec fn fields(v: WorkflowCallView) -> Fields {
        Seq::empty()
            .push(("inputs"@, map_node::<WorkflowCallInput>(v.inputs)))
            .push(("outputs"@, map_node::<WorkflowCallOutput>(v.outputs)))
            .push(("secrets"@, map_node::<WorkflowCallSecret>(v.secrets)))
    }

    /// The entries of the record: one for each field that is set.
    pub open spec fn entries(v: WorkflowCallView) -> Seq<(Seq<char>, Node)> {
        record_entries(Self::fields(v))
    }

    /// The place of a key among the fields, told by the length of the key
    /// and as many of its characters as it takes.
    pub open spec fn key_rank(k: Seq<char>) -> int {
        if k.len() == 6 {
            0
        } else if k.len() == 7 && k[0] == 'o' {
            1
        } else if k.len() == 7 && k[0] == 's' {
            2
        } else {
            3
        }
    }

    /// In the entries of the record each key leads to its own field: to
    /// the field's tree where the field is set, and nowhere where it is not.
    /// The entries are plain where the trees of the fields are.
    pub proof fn lemma_fields(v: WorkflowCallView)
        ensures
            lookup(Self::entries(v), "inputs"@) == map_node::<WorkflowCallInput>(v.inputs),
            lookup(Self::entries(v), "outputs"@) == map_node::<WorkflowCallOutput>(v.outputs),
            lookup(Self::entries(v), "secrets"@) == map_node::<WorkflowCallSecret>(v.secrets),
            ({
                &&& plain_opt(map_node::<WorkflowCallInput>(v.inputs))
                &&& plain_opt(map_node::<WorkflowCallOutput>(v.outputs))
                &&& plain_opt(map_node::<WorkflowCallSecret>(v.secrets))
            }) ==> all_plain(Self::entries(v)),
    {
        reveal_strlit("inputs");
        reveal_strlit("outputs");
        reveal_strlit("secrets");
        assert("inputs"@.len() == 6);
        assert("outputs"@.len() == 7);
        assert("secrets"@.len() == 7);
        assert("outputs"@[0] == 'o');
        assert("secrets"@[0] == 's');
        let fields = Self::fields(v);
        assert(fields.len() == 3);
        assert(fields[0].0 == "inputs"@ && Self::key_rank(fields[0].0) == 0);
        assert(fields[1].0 == "outputs"@ && Self::key_rank(fields[1].0) == 1);
        assert(fields[2].0 == "secrets"@ && Self::key_rank(fields[2].0) == 2);
        lemma_record(fields, |k: Seq<char>| Self::key_rank(k));
        assert(fields[0].1 == map_node::<WorkflowCallInput>(v.inputs));
        assert(fields[1].1 == map_node::<WorkflowCallOutput>(v.outputs));
        assert(fields[2].1 == map_node::<WorkflowCallSecret>(v.secrets));
    }

    /// Omission: the key of a field is among the entries of the record
    /// exactly where the field is set. A field that is always there is
    /// always set; a list, a text or a map is set where it is not empty, and
    /// a flag where it is up.
    pub proof fn lemma_omission(v: WorkflowCallView)
        ensures
            has_key(Self::entries(v), "inputs"@) <==> v.inputs.len() > 0,
            has_key(Self::entries(v), "outputs"@) <==> v.outputs.len() > 0,
            has_key(Self::entries(v), "secrets"@) <==> v.secrets.len() > 0,
    {
        Self::lemma_fields(v);
        lemma_position(Self::entries(v), "inputs"@);
        lemma_position(Self::entries(v), "outputs"@);
        lemma_position(Self::entries(v), "secrets"@);
    }

    /// Sets `inputs` and leaves the other fields as they are.
    pub fn inputs(self, value: OrderedMap<WorkflowCallInput>) -> (r: Self)
        ensures
            r == (WorkflowCall { inputs: value, ..self }),
    {
        let mut r = self;
        r.inputs = value;
        r
    }

    /// Sets `outputs` and leaves the other fields as they are.
    pub fn outputs(self, value: OrderedMap<WorkflowCallOutput>) -> (r: Self)
        ensures
            r == (WorkflowCall { outputs: value, ..self }),
    {
        let mut r = self;
        r.outputs = value;
        r
    }

    /// Sets `secrets` and leaves the other fields as they are.
    pub fn secrets(self, value: OrderedMap<WorkflowCallSecret>) -> (r: Self)
        ensures
            r == (WorkflowCall { secrets: value, ..self }),
    {
        let mut r = self;
        r.secrets = value;
        r
    }
}

impl Codec for WorkflowCall {
    /// A mapping with one entry for each field that is set, in the order
    /// of the fields.
    open spec fn encode(v: WorkflowCallView) -> Node {
        Node::Dict(Self::entries(v))
    }

    /// Reads each field from the entry under its key. Entries under other
    /// keys are passed over.
    open spec fn decode(n: Node) -> Option<WorkflowCallView> {
        match n {
            Node::Dict(e) => {
                let inputs = map_field::<WorkflowCallInput>(e, "inputs"@);
                let outputs = map_field::<WorkflowCallOutput>(e, "outputs"@);
                let secrets = map_field::<WorkflowCallSecret>(e, "secrets"@);
                if {
                    &&& inputs is Some
                    &&& outputs is Some
                    &&& secrets is Some
                } {
                    Some(
                        WorkflowCallView {
                            inputs: inputs->Some_0,
                            outputs: outputs->Some_0,
                            secrets: secrets->Some_0,
                        },
                    )
                } else {
                    None
                }
            },
            _ => None,
        }
    }

    open spec fn valid(v: WorkflowCallView) -> bool {
        &&& OrderedMap::<WorkflowCallInput>::valid(v.inputs)
        &&& OrderedMap::<WorkflowCallOutput>::valid(v.outputs)
        &&& OrderedMap::<WorkflowCallSecret>::valid(v.secrets)
    }

    proof fn lemma_round_trip(v: WorkflowCallView) {
        Self::lemma_fields(v);
        let e = Self::entries(v);
        lemma_map_field::<WorkflowCallInput>(e, "inputs"@, v.inputs);
        lemma_map_field::<WorkflowCallOutput>(e, "outputs"@, v.outputs);
        lemma_map_field::<WorkflowCallSecret>(e, "secrets"@, v.secrets);
    }

    fn to_tree(&self) -> (t: Tree) {
        broadcast use {lemma_record_empty, lemma_record_push};

        let m = record();
        let m = put_map(m, "inputs", &self.inputs);
        let m = put_map(m, "outputs", &self.outputs);
        let m = put_map(m, "secrets", &self.secrets);
        mapping(m)
    }

    fn from_tree(t: &Tree) -> (r: Result<Self, WorkflowError>) {
        match entries_of(t) {
            Some(m) => {
                let inputs = get_map::<WorkflowCallInput>(m, "inputs")?;
                let outputs = get_map::<WorkflowCallOutput>(m, "outputs")?;
                let secrets = get_map::<WorkflowCallSecret>(m, "secrets")?;
                Ok(WorkflowCall { inputs, outputs, secrets })
            },
            None => Err(WorkflowError::Parse),
        }
    }
}

impl Default for WorkflowCall {
    /// The entity with no field set.
    fn default() -> (r: Self)
        ensures
            r.deep_view() == Self::blank(),
    {
        let r = WorkflowCall {
            inputs: OrderedMap::empty(),
            outputs: OrderedMap::empty(),
            secrets: OrderedMap::empty(),
        };
        assert(r.inputs.deep_view() =~= Seq::empty());
        assert(r.outputs.deep_view() =~= Seq::empty());
        assert(r.secrets.deep_view() =~= Seq::empty());
        r
    }
}

/// An input that someone who starts the workflow by hand may give.
#[derive(Debug, Clone, PartialEq, Eq)]
pub struct WorkflowDispatchInput {
    /// What the input is for.
    pub description: String,
    /// Whether the input must be given.
    pub required: bool,
    /// The type of the input.
    pub input_type: String,
    /// The value of the input where none is given.
    pub default: Option<String>,
}

/// The model of `WorkflowDispatchInput`: every field as its own model.
pub struct WorkflowDispatchInputView {
    pub description: Seq<char>,
    pub required: bool,
    pub input_type: Seq<char>,
    pub default: Option<Seq<char>>,
}

impl DeepView for WorkflowDispatchInput {
    type V = WorkflowDispatchInputView;

    open spec fn deep_view(&self) -> WorkflowDispatchInputView {
        WorkflowDispatchInputView {
            description: self.description.deep_view(),
            required: self.required.deep_view(),
            input_type: self.input_type.deep_view(),
            default: self.default.deep_view(),
        }
    }
}

impl WorkflowDispatchInput {
    /// The model of the entity with no field set: a field that is always
    /// there is empty.
    pub open spec fn blank() -> WorkflowDispatchInputView {
        WorkflowDispatchInputView {
            description: Seq::empty(),
            required: false,
            input_type: Seq::empty(),
            default: None,
        }
    }

    /// The fields with their keys, in the order in which they are written.
    pub open spec fn fields(v: WorkflowDispatchInputView) -> Fields {
        Seq::empty()
            .push(("description"@, text_node(v.description)))
            .push(("required"@, flag_node(v.required)))
            .push(("type"@, Some(String::encode(v.input_type))))
            .push(("default"@, opt_node::<String>(v.default)))
    }

    /// The entries of the record: one for each field that is set.
    pub open spec fn entries(v: WorkflowDispatchInputView) -> Seq<(Seq<char>, Node)> {
        record_entries(Self::fields(v))
    }

    /// The place of a key among the fields, told by the length of the key
    /// and as many of its characters as it takes.
    pub open spec fn key_rank(k: Seq<char>) -> int {
        if k.len() == 11 {
            0
        } else if k.len() == 8 {
            1
        } else if k.len() == 4 {
            2
        } else if k.len() == 7 {
            3
        } else {
            4
        }
    }

    /// In the entries of the record each key leads to its own field: to
    /// the field's tree where the field is set, and nowhere where it is not.
    /// The entries are plain where the trees of the fields are.
    pub proof fn lemma_fields(v: WorkflowDispatchInputView)
        ensures
            lookup(Self::entries(v), "description"@) == text_node(v.description),
            lookup(Self::entries(v), "required"@) == flag_node(v.required),
            lookup(Self::entries(v), "type"@) == Some(String::encode(v.input_type)),
            lookup(Self::entries(v), "default"@) == opt_node::<String>(v.default),
            ({
                &&& plain_opt(text_node(v.description))
                &&& plain_opt(flag_node(v.required))
                &&& plain_opt(Some(String::encode(v.input_type)))
                &&& plain_opt(opt_node::<String>(v.default))
            }) ==> all_plain(Self::entries(v)),
    {
        reveal_strlit("description");
        reveal_strlit("required");
        reveal_strlit("type");
        reveal_strlit("default");
        assert("description"@.len() == 11);
        assert("required"@.len() == 8);
        assert("type"@.len() == 4);
        assert("default"@.len() == 7);
        let fields = Self::fields(v);
        assert(fields.len() == 4);
        assert(fields[0].0 == "description"@ && Self::key_rank(fields[0].0) == 0);
        assert(fields[1].0 == "required"@ && Self::key_rank(fields[1].0) == 1);
        assert(fields[2].0 == "type"@ && Self::key_rank(fields[2].0) == 2);
        assert(fields[3].0 == "default"@ && Self::key_rank(fields[3].0) == 3);
        lemma_record(fields, |k: Seq<char>| Self::key_rank(k));
        assert(fields[0].1 == text_node(v.description));
        assert(fields[1].1 == flag_node(v.required));
        assert(fields[2].1 == Some(String::encode(v.input_type)));
        assert(fields[3].1 == opt_node::<String>(v.default));
    }

    /// Omission: the key of a field is among the entries of the record
    /// exactly where the field is set. A field that is always there is
    /// always set; a list, a text or a map is set where it is not empty, and
    /// a flag where it is up.
    pub proof fn lemma_omission(v: WorkflowDispatchInputView)
        ensures
            has_key(Self::entries(v), "description"@) <==> v.description.len() > 0,
            has_key(Self::entries(v), "required"@) <==> v.required,
            has_key(Self::entries(v), "type"@),
            has_key(Self::entries(v), "default"@) <==> v.default is Some,
    {
        Self::lemma_fields(v);
        lemma_position(Self::entries(v), "description"@);
        lemma_position(Self::entries(v), "required"@);
        lemma_position(Self::entries(v), "type"@);
        lemma_position(Self::entries(v), "default"@);
    }

    /// Sets `description` and leaves the other fields as they are.
    pub fn description(self, value: &str) -> (r: Self)
        ensures
            r.deep_view() ==
                (WorkflowDispatchInputView { description: value@, ..self.deep_view() }),
    {
        let mut r = self;
        r.description = value.to_owned();
        r
    }

    /// Sets `required` and leaves the other fields as they are.
    pub fn required(self, value: bool) -> (r: Self)
        ensures
            r == (WorkflowDispatchInput { required: value, ..self }),
    {
        let mut r = self;
        r.required = value;
        r
    }

    /// Sets `input_type` and leaves the other fields as they are.
    pub fn input_type(self, value: &str) -> (r: Self)
        ensures
            r.deep_view() == (WorkflowDispatchInputView { input_type: value@, ..self.deep_view() }),
    {
        let mut r = self;
        r.input_type = value.to_owned();
        r
    }

    /// Sets `default` and leaves the other fields as they are.
    pub fn default_value(self, value: &str) -> (r: Self)
        ensures
            r.deep_view() ==
                (WorkflowDispatchInputView { default: Some(value@), ..self.deep_view() }),
    {
        let mut r = self;
        r.default = Some(value.to_owned());
        r
    }
}

impl Codec for WorkflowDispatchInput {
    /// A mapping with one entry for each field that is set, in the order
    /// of the fields.
    open spec fn encode(v: WorkflowDispatchInputView) -> Node {
        Node::Dict(Self::entries(v))
    }

    /// Reads each field from the entry under its key. Entries under other
    /// keys are passed over.
    open spec fn decode(n: Node) -> Option<WorkflowDispatchInputView> {
        match n {
            Node::Dict(e) => {
                let description = text_field(e, "description"@);
                let required = flag_field(e, "required"@);
                let input_type = req_field::<String>(e, "type"@);
                let default = opt_field::<String>(e, "default"@);
                if {
                    &&& description is Some
                    &&& required is Some
                    &&& input_type is Some
                    &&& default is Some
                } {
                    Some(
                        WorkflowDispatchInputView {
                            description: description->Some_0,
                            required: required->Some_0,
                            input_type: input_type->Some_0,
                            default: default->Some_0,
                        },
                    )
                } else {
                    None
                }
            },
            _ => None,
        }
    }

    open spec fn valid(v: WorkflowDispatchInputView) -> bool {
        &&& String::valid(v.input_type)
        &&& opt_valid::<String>(v.default)
    }

    proof fn lemma_round_trip(v: WorkflowDispatchInputView) {
        Self::lemma_fields(v);
        let e = Self::entries(v);
        lemma_text_field(e, "description"@, v.description);
        lemma_flag_field(e, "required"@, v.required);
        lemma_req_field::<String>(e, "type"@, v.input_type);
        lemma_opt_field::<String>(e, "default"@, v.default);
    }

    fn to_tree(&self) -> (t: Tree) {
        broadcast use {lemma_record_empty, lemma_record_push};

        let m = record();
        let m = put_text(m, "description", &self.description);
        let m = put_flag(m, "required", &self.required);
        let m = put_req(m, "type", &self.input_type);
        let m = put_opt(m, "default", &self.default);
        mapping(m)
    }

    fn from_tree(t: &Tree) -> (r: Result<Self, WorkflowError>) {
        match entries_of(t) {
            Some(m) => {
                let description = get_text(m, "description")?;
                let required = get_flag(m, "required")?;
                let input_type = get_req::<String>(m, "type")?;
                let default = get_opt::<String>(m, "default")?;
                Ok(WorkflowDispatchInput { description, required, input_type, default })
            },
            None => Err(WorkflowError::Parse),
        }
    }
}

impl Default for WorkflowDispatchInput {
    /// The entity with no field set.
    fn default() -> (r: Self)
        ensures
            r.deep_view() == Self::blank(),
    {
        let r = WorkflowDispatchInput {
            description: String::new(),
            required: false,
            input_type: String::new(),
            default: None,
        };
        r
    }
}

/// Someone started the workflow by hand.
#[derive(Debug, Clone, PartialEq, Eq)]
pub struct WorkflowDispatch {
    /// The inputs, by name.
    pub inputs: OrderedMap<WorkflowDispatchInput>,
}

/// The model of `WorkflowDispatch`: every field as its own model.
pub struct WorkflowDispatchView {
    pub inputs: Seq<(Seq<char>, WorkflowDispatchInputView)>,
}

impl DeepView for WorkflowDispatch {
    type V = WorkflowDispatchView;

    open spec fn deep_view(&self) -> WorkflowDispatchView {
        WorkflowDispatchView {
            inputs: self.inputs.deep_view(),
        }
    }
}

impl WorkflowDispatch {
    /// The model of the entity with no field set: a field that is always
    /// there is empty.
    pub open spec fn blank() -> WorkflowDispatchView {
        WorkflowDispatchView {
            inputs: Seq::empty(),
        }
    }

    /// The fields with their keys, in the order in which they are written.
    pub open spec fn fields(v: WorkflowDispatchView) -> Fields {
        Seq::empty()
            .push(("inputs"@, map_node::<WorkflowDispatchInput>(v.inputs)))
    }

    /// The entries of the record: one for each field that is set.
    pub open spec fn entries(v: WorkflowDispatchView) -> Seq<(Seq<char>, Node)> {
        record_entries(Self::fields(v))
    }

    /// The place of a key among the fields, told by the length of the key
    /// and as many of its characters as it takes.
    pub open spec fn key_rank(k: Seq<char>) -> int {
        if k.len() == 6 {
            0
        } else {
            1
        }
    }

    /// In the entries of the record each key leads to its own field: to
    /// the field's tree where the field is set, and nowhere where it is not.
    /// The entries are plain where the trees of the fields are.
    pub proof fn lemma_fields(v: WorkflowDispatchView)
        ensures
            lookup(Self::entries(v), "inputs"@) == map_node::<WorkflowDispatchInput>(v.inputs),
            ({
                &&& plain_opt(map_node::<WorkflowDispatchInput>(v.inputs))
            }) ==> all_plain(Self::entries(v)),
    {
        reveal_strlit("inputs");
        assert("inputs"@.len() == 6);
        let fields = Self::fields(v);
        assert(fields.len() == 1);
        assert(fields[0].0 == "inputs"@ && Self::key_rank(fields[0].0) == 0);
        lemma_record(fields, |k: Seq<char>| Self::key_rank(k));
        assert(fields[0].1 == map_node::<WorkflowDispatchInput>(v.inputs));
    }

    /// Omission: the key of a field is among the entries of the record
    /// exactly where the field is set. A field that is always there is
    /// always set; a list, a text or a map is set where it is not empty, and
    /// a flag where it is up.
    pub proof fn lemma_omission(v: WorkflowDispatchView)
        ensures
            has_key(Self::entries(v), "inputs"@) <==> v.inputs.len() > 0,
    {
        Self::lemma_fields(v);
        lemma_position(Self::entries(v), "inputs"@);
    }

    /// Sets `inputs` and leaves the other fields as they are.
    pub fn inputs(self, value: OrderedMap<WorkflowDispatchInput>) -> (r: Self)
        ensures
            r == (WorkflowDispatch { inputs: value, ..self }),
    {
        let mut r = self;
        r.inputs = value;
        r
    }
}

impl Codec for WorkflowDispatch {
    /// A mapping with one entry for each field that is set, in the order
    /// of the fields.
    open spec fn encode(v: WorkflowDispatchView) -> Node {
        Node::Dict(Self::entries(v))
    }

    /// Reads each field from the entry under its key. Entries under other
    /// keys are passed over.
    open spec fn decode(n: Node) -> Option<WorkflowDispatchView> {
        match n {
            Node::Dict(e) => {
                let inputs = map_field::<WorkflowDispatchInput>(e, "inputs"@);
                if {
                    &&& inputs is Some
                } {
                    Some(
                        WorkflowDispatchView {
                            inputs: inputs->Some_0,
                        },
                    )
                } else {
                    None
                }
            },
            _ => None,
        }
    }

    open spec fn valid(v: WorkflowDispatchView) -> bool {
        OrderedMap::<WorkflowDispatchInput>::valid(v.inputs)
    }

    proof fn lemma_round_trip(v: WorkflowDispatchView) {
        Self::lemma_fields(v);
        let e = Self::entries(v);
        lemma_map_field::<WorkflowDispatchInput>(e, "inputs"@, v.inputs);
    }

    fn to_tree(&self) -> (t: Tree) {
        broadcast use {lemma_record_empty, lemma_record_push};

        let m = record();
        let m = put_map(m, "inputs", &self.inputs);
        mapping(m)
    }

    fn from_tree(t: &Tree) -> (r: Result<Self, WorkflowError>) {
        match entries_of(t) {
            Some(m) => {
                let inputs = get_map::<WorkflowDispatchInput>(m, "inputs")?;
                Ok(WorkflowDispatch { inputs })
            },
            None => Err(WorkflowError::Parse),
        }
    }
}

impl Default for WorkflowDispatch {
    /// The entity with no field set.
    fn default() -> (r: Self)
        ensures
            r.deep_view() == Self::blank(),
    {
        let r = WorkflowDispatch {
            inputs: OrderedMap::empty(),
        };
        assert(r.inputs.deep_view() =~= Seq::empty());
        r
    }
}

/// What happened to a run of a workflow.
#[derive(Debug, Clone, Copy, PartialEq, Eq, Structural)]
pub enum WorkflowRunType {
    Completed,
    Requested,
    InProgress,
}

impl DeepView for WorkflowRunType {
    type V = WorkflowRunType;

    open spec fn deep_view(&self) -> WorkflowRunType {
        *self
    }
}

impl WorkflowRunType {
    /// The word that is written for the variant.
    pub open spec fn word(self) -> Seq<char> {
        match self {
            WorkflowRunType::Completed => "completed"@,
            WorkflowRunType::Requested => "requested"@,
            WorkflowRunType::InProgress => "in_progress"@,
        }
    }

    /// The variant that a word stands for.
    pub open spec fn of_word(w: Seq<char>) -> Option<WorkflowRunType> {
        if w == "completed"@ {
            Some(WorkflowRunType::Completed)
        } else if w == "requested"@ {
            Some(WorkflowRunType::Requested)
        } else if w == "in_progress"@ {
            Some(WorkflowRunType::InProgress)
        } else {
            None
        }
    }

    /// Each variant is the one that its own word stands for.
    pub proof fn lemma_words(self)
        ensures
            Self::of_word(self.word()) == Some(self),
    {
        reveal_strlit("completed");
        reveal_strlit("requested");
        reveal_strlit("in_progress");
        assert("completed"@.len() == 9);
        assert("requested"@.len() == 9);
        assert("in_progress"@.len() == 11);
        assert("completed"@[0] == 'c');
        assert("requested"@[0] == 'r');
    }

    /// The word that is written for the variant.
    pub fn as_str(&self) -> (s: &'static str)
        ensures
            s@ == self.word(),
    {
        match self {
            WorkflowRunType::Completed => "completed",
            WorkflowRunType::Requested => "requested",
            WorkflowRunType::InProgress => "in_progress",
        }
    }

    /// The variant that a word stands for.
    pub fn from_word(w: &str) -> (r: Option<WorkflowRunType>)
        ensures
            r == Self::of_word(w@),
    {
        if same(w, "completed") {
            Some(WorkflowRunType::Completed)
        } else if same(w, "requested") {
            Some(WorkflowRunType::Requested)
        } else if same(w, "in_progress") {
            Some(WorkflowRunType::InProgress)
        } else {
            None
        }
    }
}

impl Codec for WorkflowRunType {
    /// The word of the variant, as a string.
    open spec fn encode(v: WorkflowRunType) -> Node {
        Node::Str(v.word())
    }

    open spec fn decode(n: Node) -> Option<WorkflowRunType> {
        match n {
            Node::Str(w) => Self::of_word(w),
            _ => None,
        }
    }

    open spec fn valid(v: WorkflowRunType) -> bool {
        true
    }

    proof fn lemma_round_trip(v: WorkflowRunType) {
        v.lemma_words();
    }

    fn to_tree(&self) -> (t: Tree) {
        Tree::String(self.as_str().to_owned())
    }

    fn from_tree(t: &Tree) -> (r: Result<Self, WorkflowError>) {
        match t {
            Tree::String(w) => match Self::from_word(w.as_str()) {
                Some(v) => Ok(v),
                None => Err(WorkflowError::Parse),
            },
            _ => Err(WorkflowError::Parse),
        }
    }
}

/// A run of another workflow changed.
#[derive(Debug, Clone, PartialEq, Eq)]
pub struct WorkflowRun {
    /// The kinds of activity that count.
    pub types: Vec<WorkflowRunType>,
    /// The workflows whose runs count.
    pub workflows: Vec<String>,
    /// The branches on which the event counts.
    pub branches: Vec<String>,
}

/// The model of `WorkflowRun`: every field as its own model.
pub struct WorkflowRunView {
    pub types: Seq<WorkflowRunType>,
    pub workflows: Seq<Seq<char>>,
    pub branches: Seq<Seq<char>>,
}

impl DeepView for WorkflowRun {
    type V = WorkflowRunView;

    open spec fn deep_view(&self) -> WorkflowRunView {
        WorkflowRunView {
            types: self.types.deep_view(),
            workflows: self.workflows.deep_view(),
            branches: self.branches.deep_view(),
        }
    }
}

impl WorkflowRun {
    /// The model of the entity with no field set: a field that is always
    /// there is empty.
    pub open spec fn blank() -> WorkflowRunView {
        WorkflowRunView {
            types: Seq::empty(),
            workflows: Seq::empty(),
            branches: Seq::empty(),
        }
    }

    /// The fields with their keys, in the order in which they are written.
    pub open spec fn fields(v: WorkflowRunView) -> Fields {
        Seq::empty()
            .push(("types"@, list_node::<WorkflowRunType>(v.types)))
            .push(("workflows"@, list_node::<String>(v.workflows)))
            .push(("branches"@, list_node::<String>(v.branches)))
    }

    /// The entries of the record: one for each field that is set.
    pub open spec fn entries(v: WorkflowRunView) -> Seq<(Seq<char>, Node)> {
        record_entries(Self::fields(v))
    }

    /// The place of a key among the fields, told by the length of the key
    /// and as many of its characters as it takes.
    pub open spec fn key_rank(k: Seq<char>) -> int {
        if k.len() == 5 {
            0
        } else if k.len() == 9 {
            1
        } else if k.len() == 8 {
            2
        } else {
            3
        }
    }

    /// In the entries of the record each key leads to its own field: to
    /// the field's tree where the field is set, and nowhere where it is not.
    /// The entries are plain where the trees of the fields are.
    pub proof fn lemma_fields(v: WorkflowRunView)
        ensures
            lookup(Self::entries(v), "types"@) == list_node::<WorkflowRunType>(v.types),
            lookup(Self::entries(v), "workflows"@) == list_node::<String>(v.workflows),
            lookup(Self::entries(v), "branches"@) == list_node::<String>(v.branches),
            ({
                &&& plain_opt(list_node::<WorkflowRunType>(v.types))
                &&& plain_opt(list_node::<String>(v.workflows))
                &&& plain_opt(list_node::<String>(v.branches))
            }) ==> all_plain(Self::entries(v)),
    {
        reveal_strlit("types");
        reveal_strlit("workflows");
        reveal_strlit("branches");
        assert("types"@.len() == 5);
        assert("workflows"@.len() == 9);
        assert("branches"@.len() == 8);
        let fields = Self::fields(v);
        assert(fields.len() == 3);
        assert(fields[0].0 == "types"@ && Self::key_rank(fields[0].0) == 0);
        assert(fields[1].0 == "workflows"@ && Self::key_rank(fields[1].0) == 1);
        assert(fields[2].0 == "branches"@ && Self::key_rank(fields[2].0) == 2);
        lemma_record(fields, |k: Seq<char>| Self::key_rank(k));
        assert(fields[0].1 == list_node::<WorkflowRunType>(v.types));
        assert(fields[1].1 == list_node::<String>(v.workflows));
        assert(fields[2].1 == list_node::<String>(v.branches));
    }

    /// Omission: the key of a field is among the entries of the record
    /// exactly where the field is set. A field that is always there is
    /// always set; a list, a text or a map is set where it is not empty, and
    /// a flag where it is up.
    pub proof fn lemma_omission(v: WorkflowRunView)
        ensures
            has_key(Self::entries(v), "types"@) <==> v.types.len() > 0,
            has_key(Self::entries(v), "workflows"@) <==> v.workflows.len() > 0,
            has_key(Self::entries(v), "branches"@) <==> v.branches.len() > 0,
    {
        Self::lemma_fields(v);
        lemma_position(Self::entries(v), "types"@);
        lemma_position(Self::entries(v), "workflows"@);
        lemma_position(Self::entries(v), "branches"@);
    }

    /// Sets `types` and leaves the other fields as they are.
    pub fn types(self, value: Vec<WorkflowRunType>) -> (r: Self)
        ensures
            r == (WorkflowRun { types: value, ..self }),
    {
        let mut r = self;
        r.types = value;
        r
    }

    /// Sets `workflows` and leaves the other fields as they are.
    pub fn workflows(self, value: Vec<String>) -> (r: Self)
        ensures
            r == (WorkflowRun { workflows: value, ..self }),
    {
        let mut r = self;
        r.workflows = value;
        r
    }

    /// Sets `branches` and leaves the other fields as they are.
    pub fn branches(self, value: Vec<String>) -> (r: Self)
        ensures
            r == (WorkflowRun { branches: value, ..self }),
    {
        let mut r = self;
        r.branches = value;
        r
    }

    /// Puts `type_` after the types.
    pub fn add_type(self, type_: WorkflowRunType) -> (r: Self)
        ensures
            r.deep_view() == (WorkflowRunView {
                types: self.deep_view().types.push(type_),
                ..self.deep_view()
            }),
    {
        let mut r = self;
        r.types.push(type_);
        assert(r.types.deep_view() =~= self.types.deep_view().push(type_));
        r
    }

    /// Puts `workflow` after the workflows.
    pub fn add_workflow(self, workflow: &str) -> (r: Self)
        ensures
            r.deep_view() == (WorkflowRunView {
                workflows: self.deep_view().workflows.push(workflow@),
                ..self.deep_view()
            }),
    {
        let mut r = self;
        r.workflows.push(workflow.to_owned());
        assert(r.workflows.deep_view() =~= self.workflows.deep_view().push(workflow@));
        r
    }

    /// Puts `branch` after the branches.
    pub fn add_branch(self, branch: &str) -> (r: Self)
        ensures
            r.deep_view() == (WorkflowRunView {
                branches: self.deep_view().branches.push(branch@),
                ..self.deep_view()
            }),
    {
        let mut r = self;
        r.branches.push(branch.to_owned());
        assert(r.branches.deep_view() =~= self.branches.deep_view().push(branch@));
        r
    }
}

impl Codec for WorkflowRun {
    /// A mapping with one entry for each field that is set, in the order
    /// of the fields.
    open spec fn encode(v: WorkflowRunView) -> Node {
        Node::Dict(Self::entries(v))
    }

    /// Reads each field from the entry under its key. Entries under other
    /// keys are passed over.
    open spec fn decode(n: Node) -> Option<WorkflowRunView> {
        match n {
            Node::Dict(e) => {
                let types = list_field::<WorkflowRunType>(e, "types"@);
                let workflows = list_field::<String>(e, "workflows"@);
                let branches = list_field::<String>(e, "branches"@);
                if {
                    &&& types is Some
                    &&& workflows is Some
                    &&& branches is Some
                } {
                    Some(
                        WorkflowRunView {
                            types: types->Some_0,
                            workflows: workflows->Some_0,
                            branches: branches->Some_0,
                        },
                    )
                } else {
                    None
                }
            },
            _ => None,
        }
    }

    open spec fn valid(v: WorkflowRunView) -> bool {
        &&& Vec::<WorkflowRunType>::valid(v.types)
        &&& Vec::<String>::valid(v.workflows)
        &&& Vec::<String>::valid(v.branches)
    }

    proof fn lemma_round_trip(v: WorkflowRunView) {
        Self::lemma_fields(v);
        let e = Self::entries(v);
        lemma_list_field::<WorkflowRunType>(e, "types"@, v.types);
        lemma_list_field::<String>(e, "workflows"@, v.workflows);
        lemma_list_field::<String>(e, "branches"@, v.branches);
    }

    fn to_tree(&self) -> (t: Tree) {
        broadcast use {lemma_record_empty, lemma_record_push};

        let m = record();
        let m = put_list(m, "types", &self.types);
        let m = put_list(m, "workflows", &self.workflows);
        let m = put_list(m, "branches", &self.branches);
        mapping(m)
    }

    fn from_tree(t: &Tree) -> (r: Result<Self, WorkflowError>) {
        match entries_of(t) {
            Some(m) => {
                let types = get_list::<WorkflowRunType>(m, "types")?;
                let workflows = get_list::<String>(m, "workflows")?;
                let branches = get_list::<String>(m, "branches")?;
                Ok(WorkflowRun { types, workflows, branches })
            },
            None => Err(WorkflowError::Parse),
        }
    }
}

impl Default for WorkflowRun {
    /// The entity with no field set.
    fn default() -> (r: Self)
        ensures
            r.deep_view() == Self::blank(),
    {
        let r = WorkflowRun {
            types: Vec::new(),
            workflows: Vec::new(),
            branches: Vec::new(),
        };
        assert(r.types.deep_view() =~= Seq::empty());
        assert(r.workflows.deep_view() =~= Seq::empty());
        assert(r.branches.deep_view() =~= Seq::empty());
        r
    }
}

} // verus!
