use gh_workflow::error::WorkflowError;
use gh_workflow::job::Job;
use gh_workflow::job::RunsOn;
use gh_workflow::settings::Artifact;
use gh_workflow::settings::Artifacts;
use gh_workflow::settings::Concurrency;
use gh_workflow::settings::Defaults;
use gh_workflow::settings::Environment;
use gh_workflow::settings::Expression;
use gh_workflow::settings::RetryDefaults;
use gh_workflow::settings::RetryStrategy;
use gh_workflow::settings::RunDefaults;
use gh_workflow::settings::Secret;
use gh_workflow::settings::Strategy;
use gh_workflow::step::Container;
use gh_workflow::step::Credentials;
use gh_workflow::step::Env;
use gh_workflow::step::Input;
use gh_workflow::step::Run;
use gh_workflow::step::Step;
use gh_workflow::step::StepValue;
use gh_workflow::step::Use;
use gh_workflow::tree::Tree;
use gh_workflow::workflow::Jobs;
use gh_workflow::workflow::Workflow;
use gh_workflow::Codec;
use gh_workflow::OrderedMap;

#[test]
fn a_job_with_every_field_comes_back_from_its_text() {
    let matrix = Tree::Object(OrderedMap::new().insert(
        "os".to_string(),
        Tree::Array(vec![Tree::String("linux".to_string()), Tree::String("macos".to_string())]),
    ));
    let job = Job::new("all")
        .needs(vec!["a".to_string(), "b".to_string()])
        .if_condition(Expression::new("always()"))
        .runs_on(RunsOn::labels(&vec!["self-hosted".to_string(), "linux".to_string()]))
        .strategy(Strategy::default().matrix(matrix).fail_fast(false).max_parallel(2))
        .add_step(Step::run("make").working_directory("sub").retry(RetryStrategy::default().max_attempts(3)))
        .add_step(
            Step::<Use>::uses("actions", "upload-artifact", 4).artifacts(
                Artifacts::default()
                    .upload(vec![Artifact::default().name("bin").path("target").retention_days(7)])
                    .download(vec![]),
            ),
        )
        .uses("org/repo/.github/workflows/reuse.yml@main")
        .container(
            Container::default()
                .image("rust:1")
                .credentials(Credentials::default().username("u").password("p"))
                .env(Env::from_pair("A", "1"))
                .options("--cpus 1")
                .hostname("box"),
        )
        .environment(Environment::default().name("production").url("https://example.com"))
        .concurrency(Concurrency::default().group("g").limit(1))
        .defaults(
            Defaults::default()
                .run(RunDefaults::default().shell("bash").working_directory("."))
                .retry(RetryDefaults::default().max_attempts(2))
                .concurrency(Concurrency::default().group("inner")),
        )
        .add_env(Env::from_pair("B", "2"))
        .add_env(Env::new().add("C", Tree::Number(3)).add("B", Tree::Bool(false)))
        .continue_on_error(true)
        .retry(RetryStrategy::default())
        .artifacts(Artifacts::default())
        .add_secret("s", Secret::default())
        .add_output("o", "v")
        .add_output("o", "w")
        .timeout_minutes(4294967295);

    let env = job.env.as_ref().unwrap();
    assert_eq!(env.0.len(), 2);
    assert_eq!(env.0.key_at(0), "B");
    assert_eq!(env.0.value_at(0), &Tree::Bool(false));
    assert_eq!(env.0.get("C"), Some(&Tree::Number(3)));
    assert_eq!(job.outputs.as_ref().unwrap().get("o").map(String::as_str), Some("w"));
    assert_eq!(job.outputs.as_ref().unwrap().len(), 1);

    let text = job.to_tree().render().unwrap();
    assert_eq!(Job::from_tree(&Tree::parse(&text).unwrap()).unwrap(), job);

    let workflow = Workflow::default().add_job("all", job).unwrap();
    assert_eq!(Workflow::parse(&workflow.to_string().unwrap()).unwrap(), workflow);
}

#[test]
fn jobs_collect_what_is_added_to_them() {
    let job = Job::default().add_needs("a").add_needs("b");
    assert_eq!(job.needs, Some(vec!["a".to_string(), "b".to_string()]));
    let job = Job::default().add_service("db", Container::default().image("postgres"));
    assert_eq!(job.services.unwrap().get("db").unwrap().image, "postgres");
    let job = Job::default().add_step(Step::run("a")).add_step(Step::checkout());
    assert_eq!(job.steps, Some(vec![StepValue::Run(Step::run("a")), StepValue::Use(Step::checkout())]));
    assert_eq!(StepValue::from(Step::run("a")), Step::run("a").into_value());
    assert_eq!(Step::<Run>::run("a").retyped::<Use>().run.as_deref(), Some("a"));
}

#[test]
fn inputs_and_environments_keep_their_order() {
    let input = Input::from_pair("b", "1").add("a", Tree::Number(2)).add("b", Tree::Null);
    assert_eq!(input.0.key_at(0), "b");
    assert_eq!(input.0.value_at(0), &Tree::Null);
    assert_eq!(input.0.key_at(1), "a");
    assert_eq!(Input::new().extend(input.clone()), input);
    assert_eq!(Input::from(input.0.clone()), input);
    assert_eq!(Env::default(), Env::new());
    assert_eq!(Environment::default().name("prod").url("https://example.com").to_tree().render().unwrap(), "name: prod\nurl: https://example.com\n");
}

#[test]
fn jobs_overwrite_where_they_are_inserted_under_a_taken_identifier() {
    let mut jobs = Jobs::new();
    jobs.insert("a".to_string(), Job::new("first"));
    jobs.insert("b".to_string(), Job::new("second"));
    jobs.insert("a".to_string(), Job::new("third"));
    assert_eq!(jobs.0.len(), 2);
    assert_eq!(jobs.0.key_at(0), "a");
    assert_eq!(jobs.0.value_at(0).name.as_deref(), Some("third"));
    assert!(jobs.contains("b"));
    assert!(!jobs.contains("c"));
}

#[test]
fn records_refuse_what_has_not_their_shape() {
    for text in [
        "image: 1",
        "ports: 80",
        "ports:\n- 70000",
        "ports:\n- true",
        "image: x\nenv:\n- a",
        "image: x\ncredentials:\n  username: u",
        "image: x\nvolumes:\n- source: s",
        "options: o",
    ] {
        let tree = Tree::parse(text).unwrap();
        assert!(matches!(Container::from_tree(&tree), Err(WorkflowError::Parse)), "{}", text);
    }
    for text in ["steps:\n- run: [a]", "needs: a", "timeout-minutes: 4294967296", "continue-on-error: 1", "outputs:\n  a: 1"] {
        let tree = Tree::parse(text).unwrap();
        assert!(matches!(Job::from_tree(&tree), Err(WorkflowError::Parse)), "{}", text);
    }
    let unset = Job::from_tree(&Tree::parse("name: null\nruns-on: x").unwrap()).unwrap();
    assert_eq!(unset.name, None);
    assert_eq!(unset.runs_on, Some(RunsOn::label("x")));
}

#[test]
fn entities_with_one_field_set_render_that_key_alone() {
    assert_eq!(Workflow::default().to_string().unwrap(), "{}\n");
    assert_eq!(Workflow::default().timeout_minutes(1).to_string().unwrap(), "timeout-minutes: 1\n");
    assert_eq!(Job::default().to_tree().render().unwrap(), "runs-on: ubuntu-latest\n");
    assert_eq!(Step::run("x").to_tree().render().unwrap(), "run: x\n");
    assert_eq!(Step::<Use>::default().to_tree().render().unwrap(), "{}\n");
    assert_eq!(Container::default().image("i").to_tree().render().unwrap(), "image: i\n");
    assert_eq!(Strategy::default().to_tree().render().unwrap(), "{}\n");
    assert_eq!(Strategy::default().fail_fast(true).to_tree().render().unwrap(), "fail-fast: true\n");
    assert_eq!(Concurrency::default().group("g").to_tree().render().unwrap(), "group: g\n");
    assert_eq!(Defaults::default().to_tree().render().unwrap(), "{}\n");
    assert_eq!(
        Defaults::default().run(RunDefaults::default()).to_tree().render().unwrap(),
        "run: {}\n"
    );
    assert_eq!(RetryStrategy::default().to_tree().render().unwrap(), "{}\n");
    assert_eq!(Secret::default().to_tree().render().unwrap(), "required: false\n");
}

fn holds_null(tree: &Tree) -> bool {
    match tree {
        Tree::Null => true,
        Tree::Array(items) => items.iter().any(holds_null),
        Tree::Object(entries) => (0..entries.len()).any(|i| holds_null(entries.value_at(i))),
        _ => false,
    }
}

fn keys_of(tree: &Tree) -> Vec<String> {
    match tree {
        Tree::Object(entries) => (0..entries.len()).map(|i| entries.key_at(i).clone()).collect(),
        _ => Vec::new(),
    }
}

#[test]
fn unset_fields_of_nested_entities_leave_no_key_and_no_null() {
    let job = Job::new("j")
        .add_step(Step::run("make").name("Make"))
        .container(Container::default().image("i").hostname("h"))
        .strategy(Strategy::default().max_parallel(2))
        .concurrency(Concurrency::default().group("g"))
        .defaults(Defaults::default().retry(RetryDefaults::default().max_attempts(1)));
    let tree = job.to_tree();
    assert!(!holds_null(&tree));
    assert_eq!(
        keys_of(&tree),
        ["name", "runs-on", "concurrency", "defaults", "container", "strategy", "steps"]
    );
    let Tree::Object(entries) = &tree else { panic!("a job is a mapping") };
    assert_eq!(keys_of(entries.get("container").unwrap()), ["image", "hostname"]);
    assert_eq!(keys_of(entries.get("strategy").unwrap()), ["max-parallel"]);
    assert_eq!(keys_of(entries.get("concurrency").unwrap()), ["group"]);
    assert_eq!(keys_of(entries.get("defaults").unwrap()), ["retry"]);
    let Tree::Array(steps) = entries.get("steps").unwrap() else { panic!("steps are a list") };
    assert_eq!(keys_of(&steps[0]), ["name", "run"]);

    let text = tree.render().unwrap();
    assert_eq!(
        text,
        "name: j\nruns-on: ubuntu-latest\nconcurrency:\n  group: g\ndefaults:\n  retry:\n    max-attempts: 1\ncontainer:\n  image: i\n  hostname: h\nstrategy:\n  max-parallel: 2\nsteps:\n- name: Make\n  run: make\n"
    );
    for gap in ["null", "~", "[]", "{}"] {
        assert!(!text.contains(gap), "{}", gap);
    }
}
