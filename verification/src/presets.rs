//! Workflows, jobs and steps that come ready-made.

use crate::codec::Codec;
use crate::cargo::cargo_line;
use crate::cargo::with_flag;
use crate::cargo::Cargo;
use crate::cargo::Command;
use crate::error::WorkflowError;
use crate::event::Event;
use crate::event::EventView;
use crate::event::PullRequestTarget;
use crate::event::PullRequestTargetView;
use crate::event::PullRequestType;
use crate::event::Push;
use crate::event::PushView;
use crate::generate::Generate;
use crate::job::Job;
use crate::job::JobView;
use crate::ordered_map::has_key;
use crate::ordered_map::OrderedMap;
use crate::rust_flag::RustFlags;
use crate::settings::Expression;
use crate::settings::PermissionLevel;
use crate::settings::Permissions;
use crate::settings::PermissionsView;
use crate::step::action_ref;
use crate::step::Env;
use crate::step::Input;
use crate::step::Run;
use crate::step::Step;
use crate::step::StepValue;
use crate::step::StepValueView;
use crate::step::StepView;
use crate::step::Use;
use crate::text::concat;
use crate::text::join;
use crate::text::joined;
use crate::text::texts;
use crate::toolchain::Component;
use crate::toolchain::Toolchain;
use crate::toolchain::ToolchainStep;
use crate::tree::Node;
use crate::tree::Tree;
use crate::workflow::jobs_of;
use crate::workflow::EventValue;
use crate::workflow::Workflow;
use crate::workflow::WorkflowView;
use vstd::prelude::*;
use vstd::string::StringExecFns;

verus! {

/// The names of a list of releases.
pub open spec fn release_names(toolchain: Seq<Toolchain>) -> Seq<Seq<char>> {
    Seq::new(toolchain.len(), |i: int| toolchain[i].text())
}

/// The name of a component, as the action takes it.
pub open spec fn component_name(c: Component) -> Seq<char> {
    match c {
        Component::Clippy => "clippy"@,
        Component::Rustfmt => "rustfmt"@,
        Component::RustDoc => "rust-docs"@,
    }
}

/// The names of a list of components.
pub open spec fn component_names(components: Seq<Component>) -> Seq<Seq<char>> {
    Seq::new(components.len(), |i: int| component_name(components[i]))
}

/// The inputs of the step that sets the toolchain up: the releases under
/// `toolchain`, and the components under `components` where there are any,
/// each list with `, ` between its names.
pub open spec fn toolchain_inputs(toolchain: Seq<Toolchain>, components: Seq<Component>) -> Seq<
    (Seq<char>, Node),
> {
    let first = seq![("toolchain"@, Node::Str(joined(release_names(toolchain), ", "@)))];
    if components.len() == 0 {
        first
    } else {
        first.push(("components"@, Node::Str(joined(component_names(components), ", "@))))
    }
}

/// The step that sets the toolchain up.
pub open spec fn toolchain_step(toolchain: Seq<Toolchain>, components: Seq<Component>) -> StepView {
    StepView {
        uses: Some(action_ref("actions-rust-lang"@, "setup-rust-toolchain"@, 1)),
        with: Some(toolchain_inputs(toolchain, components)),
        ..Step::<Use>::blank()
    }
}

/// The words of the command that runs the tests: the flags of the compiler
/// where there are any, the command, and the target where there is one.
pub open spec fn test_words(rust_flags: Option<RustFlags>, target: Option<String>) -> Seq<
    Seq<char>,
> {
    let flags = match rust_flags {
        Some(f) => seq!["RUSTFLAGS="@ + f.text()],
        None => Seq::empty(),
    };
    let command = seq!["cargo"@, "test"@, "--all-features"@, "--workspace"@];
    let target = match target {
        Some(t) => seq!["--target"@, t@],
        None => Seq::empty(),
    };
    flags + command + target
}

/// The steps by which a job sets the toolchain up and runs the tests.
pub open spec fn toolchain_steps(s: ToolchainStep) -> Seq<StepValueView> {
    let checkout = seq![
        StepValueView::Use(
            StepView {
                uses: Some(action_ref("actions"@, "checkout"@, 4)),
                name: Some("Checkout Code"@),
                ..Step::<Use>::blank()
            },
        ),
    ];
    let setup = if s.override_setup {
        seq![
            StepValueView::Use(
                StepView {
                    uses: Some(action_ref("actions-rust-lang"@, "setup-rust-toolchain"@, 1)),
                    with: Some(Seq::empty()),
                    ..Step::<Use>::blank()
                },
            ),
        ]
    } else {
        Seq::empty()
    };
    let matcher_on = if s.matcher {
        seq![
            StepValueView::Run(
                StepView {
                    run: Some(
                        "echo \"::add-matcher::${{ github.workspace }}/rust-error-matcher.json\""@,
                    ),
                    name: Some("Add Rust Error Matcher"@),
                    ..Step::<Run>::blank()
                },
            ),
        ]
    } else {
        Seq::empty()
    };
    let rust = seq![
        StepValueView::Use(
            StepView {
                uses: Some(action_ref("actions-rust-lang"@, "setup-rust-toolchain"@, 1)),
                with: Some(
                    seq![("toolchain"@, Node::Str(joined(release_names(s.toolchain@), ", "@)))],
                ),
                ..Step::<Use>::blank()
            },
        ),
    ];
    let test = seq![
        StepValueView::Run(
            StepView {
                run: Some(joined(test_words(s.rust_flags, s.target), " "@)),
                name: Some("Run Tests"@),
                ..Step::<Run>::blank()
            },
        ),
    ];
    let matcher_off = if s.matcher {
        seq![
            StepValueView::Run(
                StepView {
                    run: Some("echo \"::remove-matcher owner=rust-error\""@),
                    name: Some("Remove Rust Error Matcher"@),
                    if_condition: Some("always()"@),
                    ..Step::<Run>::blank()
                },
            ),
        ]
    } else {
        Seq::empty()
    };
    checkout + setup + matcher_on + rust + test + matcher_off
}

/// The names of the releases of `toolchain`.
fn names_of(toolchain: &Vec<Toolchain>) -> (r: Vec<String>)
    ensures
        texts(r@) == release_names(toolchain@),
{
    let mut out: Vec<String> = Vec::new();
    let mut i: usize = 0;
    while i < toolchain.len()
        invariant
            i <= toolchain.len(),
            out@.len() == i,
            forall|k: int| 0 <= k < i ==> (#[trigger] out@[k])@ == toolchain@[k].text(),
        decreases toolchain.len() - i,
    {
        out.push(toolchain[i].to_string());
        i = i + 1;
    }
    assert(texts(out@) =~= release_names(toolchain@));
    out
}

/// The names of the components of `components`.
fn component_names_of(components: &Vec<Component>) -> (r: Vec<String>)
    ensures
        texts(r@) == component_names(components@),
{
    let mut out: Vec<String> = Vec::new();
    let mut i: usize = 0;
    while i < components.len()
        invariant
            i <= components.len(),
            out@.len() == i,
            forall|k: int| 0 <= k < i ==> (#[trigger] out@[k])@ == component_name(components@[k]),
        decreases components.len() - i,
    {
        let name = match components[i] {
            Component::Clippy => "clippy",
            Component::Rustfmt => "rustfmt",
            Component::RustDoc => "rust-docs",
        };
        out.push(name.to_owned());
        i = i + 1;
    }
    assert(texts(out@) =~= component_names(components@));
    out
}

impl ToolchainStep {
    /// The step that sets up the releases and the components asked for.
    pub fn to_step(&self) -> (r: Step<Use>)
        ensures
            r.deep_view() == toolchain_step(self.toolchain@, self.components@),
    {
        let toolchain = join(&names_of(&self.toolchain), ", ");
        let mut inputs = Input::from_pair("toolchain", toolchain.as_str());
        if self.components.len() > 0 {
            let components = join(&component_names_of(&self.components), ", ");
            let ghost before = inputs.deep_view();
            inputs = inputs.add("components", Tree::String(components));
            proof {
                reveal_strlit("toolchain");
                reveal_strlit("components");
                assert("toolchain"@.len() == 9);
                assert("components"@.len() == 10);
                assert forall|i: int| 0 <= i < before.len() implies (#[trigger] before[i]).0
                    != "components"@ by {}
                crate::ordered_map::lemma_stored_fresh(
                    before,
                    "components"@,
                    Node::Str(joined(component_names(self.components@), ", "@)),
                );
            }
        }
        Step::<Use>::uses("actions-rust-lang", "setup-rust-toolchain", 1).with(inputs)
    }

    /// The steps by which a job checks the repository out, sets up the
    /// releases asked for and runs the tests, with the matcher for compiler
    /// messages around them where it is switched on.
    pub fn steps(&self) -> (r: Vec<StepValue>)
        ensures
            r.deep_view() == toolchain_steps(*self),
    {
        let mut steps: Vec<StepValue> = Vec::new();
        steps.push(StepValue::Use(Step::checkout()));
        let ghost checkout = steps.deep_view();
        assert(checkout =~= seq![
            StepValueView::Use(
                StepView {
                    uses: Some(action_ref("actions"@, "checkout"@, 4)),
                    name: Some("Checkout Code"@),
                    ..Step::<Use>::blank()
                },
            ),
        ]);

        if self.override_setup {
            let setup = Step::<Use>::uses("actions-rust-lang", "setup-rust-toolchain", 1).with(
                Input::new(),
            );
            let ghost before = steps.deep_view();
            steps.push(StepValue::Use(setup));
            assert(steps.deep_view() =~= before.push(StepValueView::Use(setup.deep_view())));
        }
        let ghost after_setup = steps.deep_view();

        if self.matcher {
            let matcher = Step::run(
                "echo \"::add-matcher::${{ github.workspace }}/rust-error-matcher.json\"",
            ).name("Add Rust Error Matcher");
            let ghost before = steps.deep_view();
            steps.push(StepValue::Run(matcher));
            assert(steps.deep_view() =~= before.push(StepValueView::Run(matcher.deep_view())));
        }
        let ghost after_matcher = steps.deep_view();

        let toolchain = join(&names_of(&self.toolchain), ", ");
        let rust = Step::<Use>::uses("actions-rust-lang", "setup-rust-toolchain", 1).with(
            Input::from_pair("toolchain", toolchain.as_str()),
        );
        steps.push(StepValue::Use(rust));
        let ghost after_rust = steps.deep_view();
        assert(after_rust =~= after_matcher.push(StepValueView::Use(rust.deep_view())));

        let mut command: Vec<String> = Vec::new();
        match &self.rust_flags {
            Some(flags) => {
                command.push(concat("RUSTFLAGS=", flags.to_string().as_str()));
            },
            None => {},
        }
        command.push("cargo".to_owned());
        command.push("test".to_owned());
        command.push("--all-features".to_owned());
        command.push("--workspace".to_owned());
        match &self.target {
            Some(target) => {
                command.push("--target".to_owned());
                command.push(target.clone());
            },
            None => {},
        }
        assert(texts(command@) =~= test_words(self.rust_flags, self.target));
        let test = Step::run(join(&command, " ").as_str()).name("Run Tests");
        steps.push(StepValue::Run(test));
        let ghost after_test = steps.deep_view();
        assert(after_test =~= after_rust.push(StepValueView::Run(test.deep_view())));

        if self.matcher {
            let matcher = Step::run("echo \"::remove-matcher owner=rust-error\"").name(
                "Remove Rust Error Matcher",
            ).if_condition(Expression::new("always()"));
            let ghost before = steps.deep_view();
            steps.push(StepValue::Run(matcher));
            assert(steps.deep_view() =~= before.push(StepValueView::Run(matcher.deep_view())));
        }
        assert(steps.deep_view() =~= toolchain_steps(*self));
        steps
    }
}

impl Step<Use> {
    /// What the step that sets the toolchain up is asked for, with nothing
    /// asked for yet.
    pub fn setup_rust() -> (r: ToolchainStep)
        ensures
            r.toolchain@.len() == 0,
            r.target is None,
            r.components@.len() == 0,
            !r.cache,
            r.cache_directories@.len() == 0,
            r.cache_workspaces@.len() == 0,
            !r.cache_on_failure,
            r.cache_key is None,
            !r.matcher,
            r.rust_flags is None,
            !r.override_setup,
    {
        ToolchainStep::default()
    }
}

/// The job of the workflow for a Rust project: it checks the repository
/// out, sets up the stable and the nightly toolchain with Clippy and
/// Rustfmt, runs the tests, checks the formatting and runs Clippy.
pub open spec fn rust_build_job() -> JobView {
    JobView {
        name: Some("Build and Test"@),
        runs_on: Some(Node::Str("ubuntu-latest"@)),
        steps: Some(
            seq![
                StepValueView::Use(
                    StepView {
                        uses: Some(action_ref("actions"@, "checkout"@, 4)),
                        name: Some("Checkout Code"@),
                        ..Step::<Use>::blank()
                    },
                ),
                StepValueView::Use(
                    toolchain_step(
                        seq![Toolchain::Stable, Toolchain::Nightly],
                        seq![Component::Clippy, Component::Rustfmt],
                    ),
                ),
                StepValueView::Run(
                    StepView {
                        run: Some(
                            cargo_line(
                                None,
                                Command::Test,
                                with_flag(
                                    with_flag(Seq::empty(), "--all-features"@),
                                    "--workspace"@,
                                ),
                            ),
                        ),
                        name: Some("Cargo Test"@),
                        ..Step::<Run>::blank()
                    },
                ),
                StepValueView::Run(
                    StepView {
                        run: Some(
                            cargo_line(
                                Some("+nightly"@),
                                Command::Fmt,
                                with_flag(Seq::empty(), "--check"@),
                            ),
                        ),
                        name: Some("Cargo Fmt"@),
                        ..Step::<Run>::blank()
                    },
                ),
                StepValueView::Run(
                    StepView {
                        run: Some(
                            cargo_line(
                                Some("+nightly"@),
                                Command::Clippy,
                                with_flag(
                                    with_flag(Seq::empty(), "--all-features"@),
                                    "--workspace"@,
                                ).push("--"@).push("-D warnings"@),
                            ),
                        ),
                        name: Some("Cargo Clippy"@),
                        ..Step::<Run>::blank()
                    },
                ),
            ],
        ),
        ..Job::blank()
    }
}

/// The events of the workflow for a Rust project: a push to `main`, and a
/// pull request against `main` that is opened, synchronized or reopened.
pub open spec fn rust_events() -> EventView {
    EventView {
        push: Some(PushView { branches: seq!["main"@], ..Push::blank() }),
        pull_request_target: Some(
            PullRequestTargetView {
                types: seq![
                    PullRequestType::Opened,
                    PullRequestType::Synchronize,
                    PullRequestType::Reopened,
                ],
                branches: seq!["main"@],
            },
        ),
        ..Event::blank()
    }
}

/// The workflow for a Rust project: warnings are denied, the contents may
/// be read, and the one job `build` builds and tests.
pub open spec fn rust_workflow() -> WorkflowView {
    WorkflowView {
        name: Some("Build and Test"@),
        env: Some(seq![("RUSTFLAGS"@, Node::Str("-D"@ + "warnings"@))]),
        permissions: Some(
            PermissionsView { contents: Some(PermissionLevel::Read), ..Permissions::blank() },
        ),
        on: Some(Event::encode(rust_events())),
        jobs: Some(seq![("build"@, rust_build_job())]),
        ..Workflow::blank()
    }
}

impl Workflow {
    /// The workflow for a Rust project.
    pub fn setup_rust() -> (r: Self)
        ensures
            r.deep_view() == rust_workflow(),
    {
        let toolchain = Step::<Use>::setup_rust().add_toolchain(Toolchain::Stable).add_toolchain(
            Toolchain::Nightly,
        );
        let mut components: Vec<Component> = Vec::new();
        components.push(Component::Clippy);
        components.push(Component::Rustfmt);
        let toolchain = toolchain.components(components);
        assert(toolchain.toolchain@ =~= seq![Toolchain::Stable, Toolchain::Nightly]);
        assert(toolchain.components@ =~= seq![Component::Clippy, Component::Rustfmt]);

        let test = Step::cargo(Cargo::test().all_features().workspace()).name("Cargo Test");
        let fmt = Step::cargo_nightly(Cargo::fmt().check()).name("Cargo Fmt");
        let clippy = Step::cargo_nightly(
            Cargo::clippy().all_features().workspace().add_arg("--").add_arg("-D warnings"),
        ).name("Cargo Clippy");
        proof {
            assert(texts(Seq::<String>::empty()) =~= Seq::<Seq<char>>::empty());
        }

        let build_job = Job::new("Build and Test").add_step(Step::checkout()).add_step(
            toolchain.to_step(),
        ).add_step(test).add_step(fmt).add_step(clippy);
        assert(build_job.deep_view().steps->Some_0 =~= rust_build_job().steps->Some_0);

        let push = Push::default().add_branch("main");
        let pull_request = PullRequestTarget::default().add_type(PullRequestType::Opened).add_type(
            PullRequestType::Synchronize,
        ).add_type(PullRequestType::Reopened).add_branch("main");
        assert(push.deep_view().branches =~= seq!["main"@]);
        assert(pull_request.deep_view().branches =~= seq!["main"@]);
        assert(pull_request.deep_view().types =~= seq![
            PullRequestType::Opened,
            PullRequestType::Synchronize,
            PullRequestType::Reopened,
        ]);
        let event = Event::default().push(push).pull_request_target(pull_request);

        let workflow = Workflow::new("Build and Test").env(
            RustFlags::deny("warnings").to_env(),
        ).permissions(Permissions::read()).on(EventValue(event.to_tree()));
        match workflow.add_job("build", build_job) {
            Ok(w) => {
                assert(w.deep_view().jobs->Some_0 =~= seq![("build"@, rust_build_job())]);
                w
            },
            Err(_) => {
                proof {
                    assert(jobs_of(workflow.deep_view()).len() == 0);
                    assert(!has_key(jobs_of(workflow.deep_view()), "build"@));
                }
                unreached()
            },
        }
    }
}

/// The job that drafts a release on a push to `main` and hands the name
/// and the number of the draft on.
pub open spec fn draft_release_job() -> JobView {
    JobView {
        name: Some("Draft release"@),
        runs_on: Some(Node::Str("ubuntu-latest"@)),
        if_condition: Some("github.event_name == 'push' && github.ref == 'refs/heads/main'"@),
        permissions: Some(
            PermissionsView { contents: Some(PermissionLevel::Write), ..Permissions::blank() },
        ),
        steps: Some(
            seq![
                StepValueView::Use(
                    StepView {
                        uses: Some(action_ref("actions"@, "checkout"@, 4)),
                        name: Some("Checkout Code"@),
                        ..Step::<Use>::blank()
                    },
                ),
                StepValueView::Use(
                    StepView {
                        uses: Some(action_ref("release-drafter"@, "release-drafter"@, 6)),
                        id: Some("create_release"@),
                        env: Some(
                            seq![("GITHUB_TOKEN"@, Node::Str("${{ secrets.GITHUB_TOKEN }}"@))],
                        ),
                        with: Some(seq![("config-name"@, Node::Str("release-drafter.yml"@))]),
                        ..Step::<Use>::blank()
                    },
                ),
                StepValueView::Run(
                    StepView {
                        run: Some(
                            "echo \"create_release_name=${{ steps.create_release.outputs.name }}\" >> $GITHUB_OUTPUT && echo \"create_release_id=${{ steps.create_release.outputs.id }}\" >> $GITHUB_OUTPUT"@,
                        ),
                        id: Some("set_output"@),
                        name: Some("Set Output for Later Jobs"@),
                        ..Step::<Run>::blank()
                    },
                ),
            ],
        ),
        outputs: Some(
            seq![
                ("create_release_id"@, "${{ steps.set_output.outputs.create_release_id }}"@),
            ],
        ),
        ..Job::blank()
    }
}

/// The job that publishes the crate under the name of the draft and
/// deploys it.
pub open spec fn release_job() -> JobView {
    JobView {
        name: Some("Create release"@),
        runs_on: Some(Node::Str("ubuntu-latest"@)),
        steps: Some(
            seq![
                StepValueView::Use(
                    StepView {
                        uses: Some(action_ref("actions"@, "checkout"@, 4)),
                        name: Some("Checkout Code"@),
                        ..Step::<Use>::blank()
                    },
                ),
                StepValueView::Use(toolchain_step(seq![Toolchain::Stable], Seq::empty())),
                StepValueView::Run(
                    StepView { run: Some("cargo fetch"@), ..Step::<Run>::blank() },
                ),
                StepValueView::Use(
                    StepView {
                        uses: Some("superfly/flyctl-actions/setup-flyctl@master"@),
                        ..Step::<Use>::blank()
                    },
                ),
                StepValueView::Run(
                    StepView {
                        run: Some(
                            "sed -i.bak \"s/version = \\\".*\\\"/version = \\\"$NEW_VERSION\\\"/\" Cargo.toml"@,
                        ),
                        env: Some(
                            seq![
                                (
                                    "NEW_VERSION"@,
                                    Node::Str(
                                        "${{ needs.draft_release.outputs.create_release_name }}"@,
                                    ),
                                ),
                            ],
                        ),
                        ..Step::<Run>::blank()
                    },
                ),
                StepValueView::Run(
                    StepView {
                        run: Some("echo $CRATES_TOKEN | cargo login"@),
                        env: Some(
                            seq![("CRATES_TOKEN"@, Node::Str("${{ secrets.CRATES_TOKEN }}"@))],
                        ),
                        ..Step::<Run>::blank()
                    },
                ),
                StepValueView::Run(
                    StepView {
                        run: Some("cargo publish --token $CRATES_TOKEN"@),
                        env: Some(
                            seq![("CRATES_TOKEN"@, Node::Str("${{ secrets.CRATES_TOKEN }}"@))],
                        ),
                        ..Step::<Run>::blank()
                    },
                ),
                StepValueView::Run(
                    StepView {
                        run: Some("flyctl deploy --remote-only"@),
                        env: Some(
                            seq![("FLY_API_TOKEN"@, Node::Str("${{ secrets.FLY_API_TOKEN }}"@))],
                        ),
                        ..Step::<Run>::blank()
                    },
                ),
            ],
        ),
        ..Job::blank()
    }
}

/// The jobs of a workflow with the two jobs of a release after them.
pub open spec fn with_release_jobs(jobs: Seq<(Seq<char>, JobView)>) -> Seq<(Seq<char>, JobView)> {
    jobs.push(("draft_release"@, draft_release_job())).push(("release"@, release_job()))
}

impl Generate {
    /// `workflow` with the jobs `draft_release` and `release` attached, on
    /// its way to the file `ci.yml`.
    ///
    /// Fails where the workflow has a job under one of the two identifiers
    /// already, and names the first that is taken.
    pub fn new(workflow: Workflow) -> (r: Result<Self, WorkflowError>)
        ensures
            match r {
                Ok(g) => {
                    &&& !has_key(jobs_of(workflow.deep_view()), "draft_release"@)
                    &&& !has_key(jobs_of(workflow.deep_view()), "release"@)
                    &&& g.name@ == "ci.yml"@
                    &&& g.workflow.deep_view() == (WorkflowView {
                        jobs: Some(with_release_jobs(jobs_of(workflow.deep_view()))),
                        ..workflow.deep_view()
                    })
                },
                Err(WorkflowError::JobIdAlreadyExists(id)) => if has_key(
                    jobs_of(workflow.deep_view()),
                    "draft_release"@,
                ) {
                    id@ == "draft_release"@
                } else {
                    has_key(jobs_of(workflow.deep_view()), "release"@) && id@ == "release"@
                },
                Err(_) => false,
            },
    {
        let draft_release = Job::new("Draft release").if_condition(
            Expression::new("github.event_name == 'push' && github.ref == 'refs/heads/main'"),
        ).permissions(Permissions::write()).add_step(Step::checkout()).add_step(
            Step::<Use>::uses("release-drafter", "release-drafter", 6).id("create_release").env(
                Env::from_pair("GITHUB_TOKEN", "${{ secrets.GITHUB_TOKEN }}"),
            ).with(Input::from_pair("config-name", "release-drafter.yml")),
        ).add_step(
            Step::run(
                "echo \"create_release_name=${{ steps.create_release.outputs.name }}\" >> $GITHUB_OUTPUT && echo \"create_release_id=${{ steps.create_release.outputs.id }}\" >> $GITHUB_OUTPUT",
            ).id("set_output").name("Set Output for Later Jobs"),
        ).outputs(
            OrderedMap::empty().put(
                "create_release_name",
                "${{ steps.set_output.outputs.create_release_name }}".to_owned(),
            ),
        ).outputs(
            OrderedMap::empty().put(
                "create_release_id",
                "${{ steps.set_output.outputs.create_release_id }}".to_owned(),
            ),
        );
        proof {
            crate::ordered_map::lemma_stored_fresh(
                Seq::<(Seq<char>, Seq<char>)>::empty(),
                "create_release_id"@,
                "${{ steps.set_output.outputs.create_release_id }}"@,
            );
            assert(draft_release.deep_view().steps->Some_0 =~= draft_release_job().steps->Some_0);
            assert(draft_release.deep_view().outputs->Some_0
                =~= draft_release_job().outputs->Some_0);
        }

        let mut flyctl = Step::<Use>::default();
        flyctl.uses = Some("superfly/flyctl-actions/setup-flyctl@master".to_owned());
        let release = Job::new("Create release").add_step(Step::checkout()).add_step(
            Step::<Use>::setup_rust().add_toolchain(Toolchain::Stable).to_step(),
        ).add_step(Step::run("cargo fetch")).add_step(flyctl).add_step(
            Step::run(
                "sed -i.bak \"s/version = \\\".*\\\"/version = \\\"$NEW_VERSION\\\"/\" Cargo.toml",
            ).env(
                Env::from_pair(
                    "NEW_VERSION",
                    "${{ needs.draft_release.outputs.create_release_name }}",
                ),
            ),
        ).add_step(
            Step::run("echo $CRATES_TOKEN | cargo login").env(
                Env::from_pair("CRATES_TOKEN", "${{ secrets.CRATES_TOKEN }}"),
            ),
        ).add_step(
            Step::run("cargo publish --token $CRATES_TOKEN").env(
                Env::from_pair("CRATES_TOKEN", "${{ secrets.CRATES_TOKEN }}"),
            ),
        ).add_step(
            Step::run("flyctl deploy --remote-only").env(
                Env::from_pair("FLY_API_TOKEN", "${{ secrets.FLY_API_TOKEN }}"),
            ),
        );
        proof {
            assert(release.deep_view().steps->Some_0 =~= release_job().steps->Some_0);
        }

        proof {
            reveal_strlit("draft_release");
            reveal_strlit("release");
            assert("draft_release"@.len() == 13);
            assert("release"@.len() == 7);
            crate::ordered_map::lemma_position(jobs_of(workflow.deep_view()), "release"@);
        }
        let ghost before = jobs_of(workflow.deep_view());
        let workflow = match workflow.add_job("draft_release", draft_release) {
            Ok(w) => w,
            Err(e) => {
                return Err(e);
            },
        };
        proof {
            let after = jobs_of(workflow.deep_view());
            if has_key(after, "release"@) {
                let i = choose|i: int| 0 <= i < after.len() && #[trigger] after[i].0 == "release"@;
                assert(i < before.len());
                assert(before[i].0 == "release"@);
            }
            if has_key(before, "release"@) {
                let i = choose|i: int|
                    0 <= i < before.len() && #[trigger] before[i].0 == "release"@;
                assert(after[i].0 == "release"@);
            }
        }
        let workflow = match workflow.add_job("release", release) {
            Ok(w) => w,
            Err(e) => {
                return Err(e);
            },
        };
        Ok(Generate { workflow, name: "ci.yml".to_owned() })
    }
}

} // verus!
