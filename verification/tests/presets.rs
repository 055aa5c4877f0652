use gh_workflow::error::WorkflowError;
use gh_workflow::generate::Generate;
use gh_workflow::job::Job;
use gh_workflow::rust_flag::RustFlags;
use gh_workflow::step::Step;
use gh_workflow::step::StepValue;
use gh_workflow::step::Use;
use gh_workflow::toolchain::AddStep;
use gh_workflow::toolchain::Component;
use gh_workflow::toolchain::Toolchain;
use gh_workflow::toolchain::ToolchainStep;
use gh_workflow::workflow::Workflow;
use gh_workflow::Codec;

#[test]
fn the_rust_workflow_renders_as_expected() {
    let text = Workflow::setup_rust().to_string().unwrap();
    assert_eq!(
        text,
        "name: Build and Test\n\
         env:\n  RUSTFLAGS: -Dwarnings\n\
         on:\n  pull_request_target:\n    types:\n    - opened\n    - synchronize\n    - reopened\n    branches:\n    - main\n  push:\n    branches:\n    - main\n\
         permissions:\n  contents: read\n\
         jobs:\n  build:\n    name: Build and Test\n    runs-on: ubuntu-latest\n    steps:\n    - name: Checkout Code\n      uses: actions/checkout@v4\n    - uses: actions-rust-lang/setup-rust-toolchain@v1\n      with:\n        toolchain: stable, nightly\n        components: clippy, rustfmt\n    - name: Cargo Test\n      run: cargo test --all-features --workspace\n    - name: Cargo Fmt\n      run: cargo +nightly fmt --check\n    - name: Cargo Clippy\n      run: cargo +nightly clippy --all-features --workspace -- -D warnings\n"
    );
    assert_eq!(Workflow::parse(&text).unwrap(), Workflow::setup_rust());
}

#[test]
fn the_toolchain_step_names_releases_and_components() {
    let bare = ToolchainStep::default().to_step();
    assert_eq!(
        bare.to_tree().render().unwrap(),
        "uses: actions-rust-lang/setup-rust-toolchain@v1\nwith:\n  toolchain: ''\n"
    );
    let full = Step::<Use>::setup_rust()
        .add_toolchain(Toolchain::new(1, 80, 1))
        .components(vec![Component::RustDoc])
        .to_step();
    assert_eq!(
        full.to_tree().render().unwrap(),
        "uses: actions-rust-lang/setup-rust-toolchain@v1\nwith:\n  toolchain: 1.80.1\n  components: rust-docs\n"
    );
}

#[test]
fn the_toolchain_steps_follow_what_is_asked_for() {
    let plain = ToolchainStep::default().add_toolchain(Toolchain::Stable).steps();
    assert_eq!(plain.len(), 3);
    assert_eq!(plain[0], StepValue::Use(Step::checkout()));
    let StepValue::Run(test) = &plain[2] else { panic!("the last step runs the tests") };
    assert_eq!(test.run.as_deref(), Some("cargo test --all-features --workspace"));
    assert_eq!(test.name.as_deref(), Some("Run Tests"));

    let full = ToolchainStep::default()
        .add_toolchain(Toolchain::Stable)
        .add_toolchain(Toolchain::Nightly)
        .override_setup(true)
        .matcher(true)
        .rust_flags(RustFlags::deny("warnings"))
        .target("wasm32-unknown-unknown")
        .steps();
    let text = full.to_tree().render().unwrap();
    assert_eq!(
        text,
        "- name: Checkout Code\n  uses: actions/checkout@v4\n\
         - uses: actions-rust-lang/setup-rust-toolchain@v1\n  with: {}\n\
         - name: Add Rust Error Matcher\n  run: echo \"::add-matcher::${{ github.workspace }}/rust-error-matcher.json\"\n\
         - uses: actions-rust-lang/setup-rust-toolchain@v1\n  with:\n    toolchain: stable, nightly\n\
         - name: Run Tests\n  run: RUSTFLAGS=-Dwarnings cargo test --all-features --workspace --target wasm32-unknown-unknown\n\
         - name: Remove Rust Error Matcher\n  if: always()\n  run: echo \"::remove-matcher owner=rust-error\"\n"
    );
}

#[test]
fn applying_a_toolchain_step_hands_the_job_back() {
    let job = Job::new("build").add_step(Step::run("make"));
    let applied = ToolchainStep::default().add_toolchain(Toolchain::Stable).apply(job.clone());
    assert_eq!(applied, job);
}

#[test]
fn the_release_jobs_are_attached_after_the_others() {
    let base = Workflow::new("CI").add_job("build", Job::new("build")).unwrap();
    let generate = Generate::new(base).unwrap();
    assert_eq!(generate.name, "ci.yml");
    let jobs = generate.workflow.jobs.as_ref().unwrap();
    assert_eq!(jobs.0.len(), 3);
    assert_eq!(jobs.0.key_at(0), "build");
    assert_eq!(jobs.0.key_at(1), "draft_release");
    assert_eq!(jobs.0.key_at(2), "release");

    let draft = jobs.0.get("draft_release").unwrap();
    assert_eq!(
        draft.to_tree().render().unwrap(),
        "if: github.event_name == 'push' && github.ref == 'refs/heads/main'\n\
         name: Draft release\n\
         runs-on: ubuntu-latest\n\
         permissions:\n  contents: write\n\
         outputs:\n  create_release_id: ${{ steps.set_output.outputs.create_release_id }}\n\
         steps:\n\
         - name: Checkout Code\n  uses: actions/checkout@v4\n\
         - id: create_release\n  uses: release-drafter/release-drafter@v6\n  with:\n    config-name: release-drafter.yml\n  env:\n    GITHUB_TOKEN: ${{ secrets.GITHUB_TOKEN }}\n\
         - id: set_output\n  name: Set Output for Later Jobs\n  run: echo \"create_release_name=${{ steps.create_release.outputs.name }}\" >> $GITHUB_OUTPUT && echo \"create_release_id=${{ steps.create_release.outputs.id }}\" >> $GITHUB_OUTPUT\n"
    );

    let release = jobs.0.get("release").unwrap();
    let steps = release.steps.as_ref().unwrap();
    assert_eq!(steps.len(), 8);
    let runs: Vec<Option<&str>> = steps
        .iter()
        .map(|s| match s {
            StepValue::Run(s) => s.run.as_deref(),
            StepValue::Use(s) => s.uses.as_deref(),
        })
        .collect();
    assert_eq!(
        runs,
        [
            Some("actions/checkout@v4"),
            Some("actions-rust-lang/setup-rust-toolchain@v1"),
            Some("cargo fetch"),
            Some("superfly/flyctl-actions/setup-flyctl@master"),
            Some("sed -i.bak \"s/version = \\\".*\\\"/version = \\\"$NEW_VERSION\\\"/\" Cargo.toml"),
            Some("echo $CRATES_TOKEN | cargo login"),
            Some("cargo publish --token $CRATES_TOKEN"),
            Some("flyctl deploy --remote-only"),
        ]
    );

    let text = generate.workflow.to_string().unwrap();
    assert_eq!(Workflow::parse(&text).unwrap(), generate.workflow);
}

#[test]
fn the_release_jobs_are_refused_where_their_identifiers_are_taken() {
    let taken = Workflow::new("CI").add_job("release", Job::new("mine")).unwrap();
    assert!(matches!(Generate::new(taken), Err(WorkflowError::JobIdAlreadyExists(id)) if id == "release"));
    let both = Workflow::new("CI")
        .add_job("release", Job::new("mine"))
        .unwrap()
        .add_job("draft_release", Job::new("mine"))
        .unwrap();
    assert!(matches!(Generate::new(both), Err(WorkflowError::JobIdAlreadyExists(id)) if id == "draft_release"));
}
