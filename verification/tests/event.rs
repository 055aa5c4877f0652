use gh_workflow::error::WorkflowError;
use gh_workflow::event::BranchProtectionRule;
use gh_workflow::event::BranchProtectionRuleType;
use gh_workflow::event::CheckRun;
use gh_workflow::event::CheckRunType;
use gh_workflow::event::CheckSuite;
use gh_workflow::event::CheckSuiteType;
use gh_workflow::event::Create;
use gh_workflow::event::Delete;
use gh_workflow::event::Deployment;
use gh_workflow::event::DeploymentStatus;
use gh_workflow::event::Discussion;
use gh_workflow::event::DiscussionComment;
use gh_workflow::event::DiscussionCommentType;
use gh_workflow::event::DiscussionType;
use gh_workflow::event::Event;
use gh_workflow::event::IssueComment;
use gh_workflow::event::IssueCommentType;
use gh_workflow::event::Issues;
use gh_workflow::event::IssuesType;
use gh_workflow::event::Label;
use gh_workflow::event::LabelType;
use gh_workflow::event::MergeGroup;
use gh_workflow::event::MergeGroupType;
use gh_workflow::event::Milestone;
use gh_workflow::event::MilestoneType;
use gh_workflow::event::PullRequest;
use gh_workflow::event::PullRequestReview;
use gh_workflow::event::PullRequestReviewComment;
use gh_workflow::event::PullRequestReviewCommentType;
use gh_workflow::event::PullRequestReviewType;
use gh_workflow::event::PullRequestTarget;
use gh_workflow::event::PullRequestType;
use gh_workflow::event::Push;
use gh_workflow::event::RegistryPackage;
use gh_workflow::event::RegistryPackageType;
use gh_workflow::event::Release;
use gh_workflow::event::ReleaseType;
use gh_workflow::event::RepositoryDispatch;
use gh_workflow::event::Schedule;
use gh_workflow::event::Watch;
use gh_workflow::event::WorkflowCall;
use gh_workflow::event::WorkflowCallInput;
use gh_workflow::event::WorkflowCallOutput;
use gh_workflow::event::WorkflowCallSecret;
use gh_workflow::event::WorkflowDispatch;
use gh_workflow::event::WorkflowDispatchInput;
use gh_workflow::event::WorkflowRun;
use gh_workflow::event::WorkflowRunType;
use gh_workflow::step::Env;
use gh_workflow::tree::Tree;
use gh_workflow::workflow::EventValue;
use gh_workflow::workflow::Workflow;
use gh_workflow::Codec;
use gh_workflow::OrderedMap;

fn every_event() -> Event {
    Event::default()
        .branch_protection_rule(BranchProtectionRule::default().add_type(BranchProtectionRuleType::Edited))
        .check_run(CheckRun::default().add_type(CheckRunType::RequestedAction).add_type(CheckRunType::Rerequested))
        .check_suite(CheckSuite::default().add_type(CheckSuiteType::Completed))
        .create(Create::default().add_branch("main").add_tag("v*"))
        .delete(Delete::default().add_branch("old").add_tag("v0"))
        .deployment(Deployment::default().add_branch("main"))
        .deployment_status(DeploymentStatus::default().add_state("success"))
        .discussion(Discussion::default().add_type(DiscussionType::CategoryChanged).add_type(DiscussionType::Unanswered))
        .discussion_comment(DiscussionComment::default().add_type(DiscussionCommentType::Created))
        .fork(true)
        .gollum(false)
        .issue_comment(IssueComment::default().add_type(IssueCommentType::Deleted))
        .issues(Issues::default().add_type(IssuesType::Demilestoned).add_type(IssuesType::Unpinned))
        .label(Label::default().add_type(LabelType::Created))
        .merge_group(MergeGroup::default().add_type(MergeGroupType::ChecksRequested))
        .milestone(Milestone::default().add_type(MilestoneType::Closed).add_type(MilestoneType::Opened))
        .page_build(true)
        .public(true)
        .pull_request(
            PullRequest::default()
                .add_type(PullRequestType::ReviewRequestRemoved)
                .add_type(PullRequestType::ReadyForReview)
                .add_branch("main")
                .add_path("src/**"),
        )
        .pull_request_review(PullRequestReview::default().add_type(PullRequestReviewType::Dismissed))
        .pull_request_review_comment(
            PullRequestReviewComment::default().add_type(PullRequestReviewCommentType::Edited),
        )
        .pull_request_target(PullRequestTarget::default().add_type(PullRequestType::Unlocked).add_branch("main"))
        .push(Push::default().add_branch("main").add_path("Cargo.toml"))
        .registry_package(RegistryPackage::default().add_type(RegistryPackageType::Updated))
        .release(Release::default().add_type(ReleaseType::Prereleased).add_type(ReleaseType::Unpublished))
        .repository_dispatch(RepositoryDispatch::default().add_type("deploy"))
        .schedule(Schedule::default().add_cron("0 0 * * *"))
        .status(true)
        .watch(Watch::default().add_type("started"))
        .workflow_call(
            WorkflowCall::default()
                .inputs(
                    OrderedMap::new()
                        .insert(
                            "target".to_string(),
                            WorkflowCallInput::default()
                                .description("where to")
                                .required(true)
                                .input_type("string")
                                .default_value("prod"),
                        )
                        .insert("plain".to_string(), WorkflowCallInput::default().input_type("boolean")),
                )
                .outputs(OrderedMap::new().insert(
                    "url".to_string(),
                    WorkflowCallOutput::default().description("the address").value("${{ jobs.a.outputs.url }}"),
                ))
                .secrets(
                    OrderedMap::new()
                        .insert("token".to_string(), WorkflowCallSecret::default().required(true))
                        .insert("other".to_string(), WorkflowCallSecret::default().description("optional")),
                ),
        )
        .workflow_dispatch(WorkflowDispatch::default().inputs(OrderedMap::new().insert(
            "level".to_string(),
            WorkflowDispatchInput::default().input_type("choice").default_value("info"),
        )))
        .workflow_run(
            WorkflowRun::default()
                .add_type(WorkflowRunType::InProgress)
                .add_workflow("CI")
                .add_branch("main"),
        )
}

#[test]
fn every_event_comes_back_from_its_tree_and_its_text() {
    let event = every_event();
    let tree = event.to_tree();
    assert_eq!(Event::from_tree(&tree).unwrap(), event);
    let text = tree.render().unwrap();
    assert_eq!(Event::from_tree(&Tree::parse(&text).unwrap()).unwrap(), event);

    let workflow = Workflow::new("all").on(EventValue(tree));
    let back = Workflow::parse(&workflow.to_string().unwrap()).unwrap();
    assert_eq!(back, workflow);
}

#[test]
fn events_write_their_words_with_underscores() {
    let event = Event::default()
        .check_run(CheckRun::default().add_type(CheckRunType::RequestedAction))
        .pull_request(PullRequest::default().add_type(PullRequestType::ReviewRequestRemoved))
        .workflow_call(WorkflowCall::default().inputs(OrderedMap::new().insert(
            "target".to_string(),
            WorkflowCallInput::default().required(true).input_type("string"),
        )))
        .fork(true);
    assert_eq!(
        event.to_tree().render().unwrap(),
        "check_run:\n  types:\n  - requested_action\nfork: true\npull_request:\n  types:\n  - review_request_removed\nworkflow_call:\n  inputs:\n    target:\n      required: true\n      type: string\n"
    );
}

#[test]
fn empty_lists_texts_and_maps_and_lowered_flags_are_left_out() {
    assert_eq!(Push::default().to_tree().render().unwrap(), "{}\n");
    assert_eq!(WorkflowCall::default().to_tree().render().unwrap(), "{}\n");
    assert_eq!(WorkflowCallSecret::default().to_tree().render().unwrap(), "{}\n");
    assert_eq!(WorkflowCallOutput::default().value("v").to_tree().render().unwrap(), "value: v\n");
    assert_eq!(Push::from_tree(&Tree::parse("{}").unwrap()).unwrap(), Push::default());
    assert_eq!(
        WorkflowCallSecret::from_tree(&Tree::parse("required: false").unwrap()).unwrap(),
        WorkflowCallSecret::default()
    );
}

#[test]
fn events_refuse_what_has_not_their_shape() {
    for text in [
        "push: main",
        "push:\n  branches: main",
        "push:\n  branches:\n  - 1",
        "issues:\n  types:\n  - exploded",
        "fork: yes please",
        "workflow_call:\n  inputs:\n    a:\n      required: true",
        "workflow_call:\n  inputs:\n    a:\n      type: string\n      required: 1",
        "workflow_call:\n  inputs:\n  - a",
        "workflow_call:\n  outputs:\n    a:\n      value: [v]",
        "- push",
    ] {
        let tree = Tree::parse(text).unwrap();
        assert!(matches!(Event::from_tree(&tree), Err(WorkflowError::Parse)), "{}", text);
    }
    assert_eq!(Event::from_tree(&Tree::parse("push: null").unwrap()).unwrap(), Event::default());
}

#[test]
fn triggers_merge_with_the_first_keeping_what_it_has() {
    let first = EventValue::mapping(
        Env::new().add("push", Tree::String("mine".to_string())).add("fork", Tree::Bool(true)),
    );
    let second = EventValue::mapping(
        Env::new()
            .add("watch", Tree::Null)
            .add("push", Tree::String("yours".to_string()))
            .add("label", Tree::Null),
    );
    let merged = first.clone().merge(second.clone());
    assert_eq!(
        merged,
        EventValue::mapping(
            Env::new()
                .add("push", Tree::String("mine".to_string()))
                .add("fork", Tree::Bool(true))
                .add("watch", Tree::Null)
                .add("label", Tree::Null)
        )
    );
    assert_eq!(EventValue::default().merge(second.clone()), second);
    assert_eq!(EventValue::single("push").merge(second.clone()), EventValue::single("push"));
    assert_eq!(first.clone().merge(EventValue::single("push")), first);

    let workflow = Workflow::default().add_event(first.clone()).add_event(second);
    assert_eq!(workflow.on, Some(merged));
}
