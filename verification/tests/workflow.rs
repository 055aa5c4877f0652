use gh_workflow::error::WorkflowError;
use gh_workflow::event::Event;
use gh_workflow::event::PullRequest;
use gh_workflow::event::PullRequestType;
use gh_workflow::event::Push;
use gh_workflow::generate::validate;
use gh_workflow::generate::Action;
use gh_workflow::generate::Generate;
use gh_workflow::generate::Worker;
use gh_workflow::job::Job;
use gh_workflow::settings::Concurrency;
use gh_workflow::settings::PermissionLevel;
use gh_workflow::settings::Permissions;
use gh_workflow::settings::Secret;
use gh_workflow::step::Container;
use gh_workflow::step::Env;
use gh_workflow::step::Input;
use gh_workflow::step::Port;
use gh_workflow::step::Step;
use gh_workflow::step::Use;
use gh_workflow::step::Volume;
use gh_workflow::tree::Shape;
use gh_workflow::tree::Tree;
use gh_workflow::workflow::EventValue;
use gh_workflow::workflow::Workflow;
use gh_workflow::Codec;

fn minimal() -> Workflow {
    let job = Job::new("build").add_step(Step::run("echo hello"));
    Workflow::new("CI").add_job("build", job).unwrap()
}

fn rich() -> Workflow {
    let event = Event::default()
        .push(Push::default().add_branch("main"))
        .pull_request(
            PullRequest::default()
                .add_type(PullRequestType::Opened)
                .add_type(PullRequestType::Synchronize)
                .add_branch("main"),
        );
    let build = Job::new("Build and Test")
        .add_step(Step::checkout())
        .add_step(
            Step::<Use>::uses("actions", "cache", 3)
                .with(Input::from_pair("path", "target"))
                .timeout_minutes(5),
        )
        .add_step(
            Step::run("cargo test")
                .id("test")
                .env(Env::from_pair("RUST_LOG", "debug"))
                .continue_on_error(true),
        )
        .add_needs("lint")
        .add_output("version", "${{ steps.test.outputs.version }}")
        .add_service(
            "db",
            Container::default()
                .image("postgres:16")
                .ports(vec![Port::Number(5432), Port::Name("5433:5433".to_string())])
                .volumes(vec![Volume::new("data:/var/lib/postgresql").unwrap()]),
        )
        .add_secret("token", Secret::default().required(true).description("the token"))
        .permissions(Permissions::read().issues(PermissionLevel::Write))
        .timeout_minutes(30);
    let lint = Job::new("Lint").add_step(Step::run("cargo clippy"));
    Workflow::new("CI")
        .run_name("run of ${{ github.actor }}")
        .on(EventValue(event.to_tree()))
        .add_env(Env::from_pair("RUSTFLAGS", "-Dwarnings"))
        .concurrency(Concurrency::default().group("ci").cancel_in_progress(true))
        .timeout_minutes(60)
        .add_job("lint", lint)
        .unwrap()
        .add_job("build", build)
        .unwrap()
}

#[test]
fn minimal_workflow_renders_its_keys_and_nothing_unset() {
    let text = minimal().to_string().unwrap();
    assert_eq!(
        text,
        "name: CI\njobs:\n  build:\n    name: build\n    runs-on: ubuntu-latest\n    steps:\n    - run: echo hello\n"
    );
    assert!(!text.contains("permissions"));
    assert!(!text.contains("env"));
    assert!(!text.contains("timeout-minutes"));
}

#[test]
fn minimal_workflow_comes_back_from_its_text() {
    let workflow = minimal();
    let text = workflow.to_string().unwrap();
    let back = Workflow::parse(&text).unwrap();
    assert_eq!(back, workflow);
}

#[test]
fn rich_workflow_comes_back_from_its_text() {
    let workflow = rich();
    let text = workflow.to_string().unwrap();
    let back = Workflow::parse(&text).unwrap();
    assert_eq!(back, workflow);
    assert_eq!(back.to_string().unwrap(), text);
}

#[test]
fn rich_workflow_renders_fields_in_their_order_with_hyphenated_keys() {
    let text = rich().to_string().unwrap();
    assert_eq!(
        text,
        "name: CI\n\
         env:\n  RUSTFLAGS: -Dwarnings\n\
         run-name: run of ${{ github.actor }}\n\
         on:\n  pull_request:\n    types:\n    - opened\n    - synchronize\n    branches:\n    - main\n  push:\n    branches:\n    - main\n\
         jobs:\n  lint:\n    name: Lint\n    runs-on: ubuntu-latest\n    steps:\n    - run: cargo clippy\n  build:\n    needs:\n    - lint\n    name: Build and Test\n    runs-on: ubuntu-latest\n    permissions:\n      contents: read\n      issues: write\n    outputs:\n      version: ${{ steps.test.outputs.version }}\n    timeout-minutes: 30\n    services:\n      db:\n        image: postgres:16\n        ports:\n        - 5432\n        - 5433:5433\n        volumes:\n        - source: data\n          destination: /var/lib/postgresql\n    steps:\n    - name: Checkout Code\n      uses: actions/checkout@v4\n    - uses: actions/cache@v3\n      with:\n        path: target\n      timeout-minutes: 5\n    - id: test\n      run: cargo test\n      env:\n        RUST_LOG: debug\n      continue-on-error: true\n    secrets:\n      token:\n        required: true\n        description: the token\n\
         concurrency:\n  group: ci\n  cancel-in-progress: true\n\
         timeout-minutes: 60\n"
    );
}

#[test]
fn unset_fields_leave_no_key_in_the_tree() {
    let tree = minimal().to_tree();
    let Tree::Object(entries) = tree else { panic!("a workflow is a mapping") };
    assert!(entries.contains_key("name"));
    assert!(entries.contains_key("jobs"));
    assert_eq!(entries.len(), 2);
    for key in ["env", "run-name", "on", "permissions", "concurrency", "defaults", "secrets", "timeout-minutes"] {
        assert!(!entries.contains_key(key));
    }
}

#[test]
fn second_job_under_one_identifier_is_refused() {
    let mut workflow = minimal();
    let before = workflow.clone();
    let result = workflow.insert_job("build", Job::new("other"));
    assert!(matches!(result, Err(WorkflowError::JobIdAlreadyExists(id)) if id == "build"));
    assert_eq!(workflow, before);
    assert_eq!(workflow.jobs.as_ref().unwrap().0.len(), 1);
    assert_eq!(workflow.jobs.as_ref().unwrap().0.get("build").unwrap().name.as_deref(), Some("build"));
}

#[test]
fn add_job_reports_the_identifier_that_is_taken() {
    let result = minimal().add_job("build", Job::new("again"));
    assert!(matches!(result, Err(WorkflowError::JobIdAlreadyExists(id)) if id == "build"));
    let two = minimal().add_job("test", Job::new("test")).unwrap();
    let jobs = two.jobs.unwrap();
    assert_eq!(jobs.0.key_at(0), "build");
    assert_eq!(jobs.0.key_at(1), "test");
}

#[test]
fn trigger_shapes_render_apart_and_come_back() {
    let single = EventValue::single("push");
    let list = EventValue::list(&vec!["push".to_string(), "pull_request".to_string()]);
    let mapping = EventValue::mapping(Env::new().add("push", Tree::Null));
    assert_eq!(single.shape(), Shape::Single);
    assert_eq!(list.shape(), Shape::List);
    assert_eq!(mapping.shape(), Shape::Mapping);

    let texts: Vec<String> = [&single, &list, &mapping]
        .iter()
        .map(|t| Workflow::default().on((*t).clone()).to_string().unwrap())
        .collect();
    assert_eq!(texts[0], "on: push\n");
    assert_eq!(texts[1], "on:\n- push\n- pull_request\n");
    assert_eq!(texts[2], "on:\n  push: null\n");

    for (text, trigger) in texts.iter().zip([single, list, mapping]) {
        let back = Workflow::parse(text).unwrap();
        assert_eq!(back.on.as_ref().unwrap().shape(), trigger.shape());
        assert_eq!(back.on, Some(trigger));
    }
}

#[test]
fn parse_refuses_text_that_is_no_yaml() {
    assert!(matches!(Workflow::parse("name: [unclosed"), Err(WorkflowError::Yaml(_))));
}

#[test]
fn parse_refuses_yaml_that_is_no_workflow() {
    assert!(matches!(Workflow::parse("- a\n- b\n"), Err(WorkflowError::Parse)));
    assert!(matches!(Workflow::parse("name: [a, b]\n"), Err(WorkflowError::Parse)));
    assert!(matches!(Workflow::parse("timeout-minutes: -1\n"), Err(WorkflowError::Parse)));
    assert!(matches!(Workflow::parse("timeout-minutes: 1.5\n"), Err(WorkflowError::Parse)));
    assert!(matches!(
        Workflow::parse("jobs:\n  build:\n    steps:\n    - name: neither\n"),
        Err(WorkflowError::Parse)
    ));
}

#[test]
fn parse_passes_over_keys_that_it_does_not_know() {
    let workflow = Workflow::parse("name: CI\nunknown: 1\n").unwrap();
    assert_eq!(workflow, Workflow::new("CI"));
}

#[test]
fn parse_tells_steps_that_run_from_steps_that_use() {
    let workflow =
        Workflow::parse("jobs:\n  a:\n    steps:\n    - run: make\n    - uses: actions/checkout@v4\n").unwrap();
    let job = workflow.jobs.unwrap().0.get("a").unwrap().clone();
    let steps = job.steps.unwrap();
    assert_eq!(steps[0], Step::run("make").into_value());
    assert_eq!(steps[1], Step::<Use>::uses("actions", "checkout", 4).into_value());
}

#[test]
fn validation_fails_only_on_a_differing_file_under_ci() {
    assert!(validate("a", Some("a"), true).is_ok());
    assert!(validate("a", None, true).is_ok());
    assert!(validate("a", Some("b"), false).is_ok());
    assert!(matches!(validate("a", Some("b"), true), Err(WorkflowError::GitHubWorkflowMismatch)));
}

#[test]
fn drift_is_reported_and_nothing_is_written() {
    let generate = Generate { workflow: minimal(), name: "ci.yml".to_string() };
    let content = generate.content("# generated").unwrap();
    assert!(content.starts_with("# generated\nname: CI\n"));

    let same = Generate::plan(true, "ci.yml", content.clone(), Some(&content));
    assert!(matches!(same, Ok(Action::UpToDate)));

    let other = Generate { workflow: Workflow::new("Different"), name: "ci.yml".to_string() };
    let drifted = Generate::plan(true, "ci.yml", other.content("# generated").unwrap(), Some(&content));
    assert!(matches!(drifted, Err(WorkflowError::OutdatedWorkflow)));

    let missing = Generate::plan(true, "ci.yml", content.clone(), None);
    assert!(matches!(missing, Err(WorkflowError::MissingWorkflowFile(path)) if path == "ci.yml"));

    let write = Generate::plan(false, "ci.yml", content.clone(), Some("old"));
    assert_eq!(write.unwrap(), Action::Write(content));
}

#[test]
fn test_worker_new() {
    let worker = Worker::new(worker_workflow("Test Workflow"));
    let generated = worker.generate().unwrap();
    assert_eq!(generated, WORKER_TEXT);
    assert_eq!(worker.file, "./.github/workflows/ci.yml");
}

#[test]
fn test_worker_generate() {
    let worker = Worker::new(worker_workflow("Test Workflow"));
    let generated = worker.generate().unwrap();
    assert_eq!(generated, WORKER_TEXT);
}

#[test]
fn test_worker_compare() {
    let workflow = worker_workflow("Test Workflow");
    let worker = Worker::new(workflow.clone());
    let result = worker.compare(&workflow);
    assert!(result.is_ok());
}

#[test]
fn test_worker_compare_mismatch() {
    let workflow_1 = worker_workflow("Test Workflow");
    let workflow_2 = worker_workflow("Different Workflow");
    let worker = Worker::new(workflow_1.clone());
    let result = worker.compare(&workflow_2);
    assert!(result.is_err());
    assert!(matches!(result, Err(WorkflowError::WorkflowMismatch)));
}

const WORKER_TEXT: &str = "name: Test Workflow\non:\n  pull_request:\n    branches:\n    - main\n  push:\n    branches:\n    - main\njobs:\n  build:\n    runs-on: ubuntu-latest\n    steps: []\n";

fn worker_workflow(name: &str) -> Workflow {
    let event = Event::default()
        .push(Push::default().add_branch("main"))
        .pull_request(PullRequest::default().add_branch("main"));
    Workflow::new(name)
        .on(EventValue(event.to_tree()))
        .add_job("build", Job::default().steps(vec![]))
        .unwrap()
}
