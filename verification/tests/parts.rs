use gh_workflow::auto_commit::AutoCommit;
use gh_workflow::auto_commit::SkipBranches;
use gh_workflow::cargo::Cargo;
use gh_workflow::cargo::Check;
use gh_workflow::cargo::Command;
use gh_workflow::cargo_step::Cargo as CargoStep;
use gh_workflow::expr::Expr;
use gh_workflow::job::Job;
use gh_workflow::job::RunsOn;
use gh_workflow::rust_flag::RustFlags;
use gh_workflow::settings::Expression;
use gh_workflow::settings::PermissionLevel;
use gh_workflow::settings::Permissions;
use gh_workflow::step::Env;
use gh_workflow::step::Runner;
use gh_workflow::step::Step;
use gh_workflow::step::Use;
use gh_workflow::step::Volume;
use gh_workflow::text;
use gh_workflow::toolchain::Toolchain;
use gh_workflow::toolchain::ToolchainStep;
use gh_workflow::tree::Tree;
use gh_workflow::version::Version;
use gh_workflow::Codec;
use gh_workflow::OrderedMap;

#[test]
fn test_job_default_sets_runs_on() {
    let job = Job::default();
    assert!(job.runs_on.is_some());

    if let Some(runs_on) = job.runs_on {
        assert_eq!(runs_on.0, Tree::String("ubuntu-latest".to_string()));
    }
}

#[test]
fn test_expr() {
    let github = Expr::github();

    assert_eq!(github.to_string(), "{{ github }}");

    let action = github.action();
    assert_eq!(action.to_string(), "{{ github.action }}");

    let action_path = github.action_path();
    assert_eq!(action_path.to_string(), "{{ github.action_path }}");
}

#[test]
fn test_cargo() {
    let cargo = CargoStep::new("fmt")
        .add_args("--all")
        .add_args("--check")
        .nightly()
        .add_env(Env::from_pair("GITHUB_TOKEN", "${{ secrets.GITHUB_TOKEN }}"));

    let step = cargo.to_step();

    assert_eq!(
        step.to_tree().render().unwrap(),
        "run: cargo +nightly fmt --all --check\nenv:\n  GITHUB_TOKEN: ${{ secrets.GITHUB_TOKEN }}\n"
    );
}

#[test]
fn cargo_step_splits_and_trims_its_arguments() {
    let step = CargoStep::new("test")
        .add_args("  --all-features \t --workspace\n")
        .add_args_when(false, "--release")
        .add_args_when(true, "-- --nocapture")
        .to_step();
    assert_eq!(step.run.as_deref(), Some("cargo test --all-features --workspace -- --nocapture"));

    let padded = CargoStep::new("build").args("  --release  ").to_step();
    assert_eq!(padded.run.as_deref(), Some("cargo build --release"));

    let blank = CargoStep::new("build").args("   ").to_step();
    assert_eq!(blank.run.as_deref(), Some("cargo build"));

    let named = CargoStep::new("doc")
        .id("doc")
        .name("Docs")
        .if_condition("always()")
        .toolchain(Version::new("1.80"))
        .to_step();
    assert_eq!(named.run.as_deref(), Some("cargo +1.80 doc"));
    assert_eq!(named.id.as_deref(), Some("doc"));
    assert_eq!(named.name.as_deref(), Some("Docs"));
    assert_eq!(named.if_condition, Some(Expression::new("always()")));
}

#[test]
fn typed_cargo_commands_render_their_command_lines() {
    let test = Step::cargo(Cargo::test().all_features().workspace().all_features());
    assert_eq!(test.run.as_deref(), Some("cargo test --all-features --workspace"));

    let fmt = Step::cargo_nightly(Cargo::fmt().check().all().check());
    assert_eq!(fmt.run.as_deref(), Some("cargo +nightly fmt --check --all"));

    let clippy = Step::cargo_nightly(
        Cargo::clippy().all_features().workspace().add_arg("--").add_arg("-D warnings"),
    );
    assert_eq!(
        clippy.run.as_deref(),
        Some("cargo +nightly clippy --all-features --workspace -- -D warnings")
    );

    assert_eq!(Step::cargo(Cargo::clean()).run.as_deref(), Some("cargo clean "));
    assert_eq!(Step::cargo(Cargo::<Check>::check()).run.as_deref(), Some("cargo check "));
}

#[test]
fn commands_have_their_words() {
    assert_eq!(Command::GenerateLockfile.as_str(), "generate-lockfile");
    assert_eq!(Command::GenerateLockfile.lower_str(), "generatelockfile");
    assert_eq!(Command::from_word("verify-project"), Some(Command::VerifyProject));
    assert_eq!(Command::from_word("verifyproject"), None);
    assert_eq!(Command::Fmt.to_tree(), Tree::String("fmt".to_string()));
    assert_eq!(Command::from_tree(&Tree::String("yank".to_string())).unwrap(), Command::Yank);
}

#[test]
fn rust_flags_are_written_with_their_letters() {
    assert_eq!(RustFlags::allow("a").to_string(), "-Aa");
    assert_eq!(RustFlags::warn("w").to_string(), "-Ww");
    assert_eq!(RustFlags::deny("warnings").to_string(), "-Dwarnings");
    assert_eq!(RustFlags::forbid("f").to_string(), "-Ff");
    assert_eq!(RustFlags::codegen("opt-level=3").to_string(), "-Copt-level=3");
    let both = RustFlags::deny("warnings").combine(RustFlags::allow("unused"));
    assert_eq!(both.to_string(), "-Dwarnings -Aunused");
    assert_eq!(both.clone().to_string(), "-Dwarnings -Aunused");
    let env = both.to_env();
    assert_eq!(env.0.get("RUSTFLAGS"), Some(&Tree::String("-Dwarnings -Aunused".to_string())));
    assert_eq!(env.0.len(), 1);
}

#[test]
fn toolchains_and_versions_have_their_names() {
    assert_eq!(Toolchain::Stable.to_string(), "stable");
    assert_eq!(Toolchain::Nightly.to_string(), "nightly");
    assert_eq!(Toolchain::new(1, 80, 0).to_string(), "1.80.0");
    assert_eq!(Toolchain::new(0, 0, 18446744073709551615).to_string(), "0.0.18446744073709551615");
    assert_eq!(Version::Stable.to_string(), "stable");
    assert_eq!(Version::Nightly.to_string(), "nightly");
    assert_eq!(Version::new("beta").to_string(), "beta");
    let step = ToolchainStep::default().add_toolchain(Toolchain::Stable).add_toolchain(Toolchain::Nightly);
    assert_eq!(step.toolchain, vec![Toolchain::Stable, Toolchain::Nightly]);
}

#[test]
fn numbers_are_written_in_decimal() {
    assert_eq!(text::to_decimal(0), "0");
    assert_eq!(text::to_decimal(7), "7");
    assert_eq!(text::to_decimal(10), "10");
    assert_eq!(text::to_decimal(4096), "4096");
    assert_eq!(text::to_decimal(u64::MAX), "18446744073709551615");
}

#[test]
fn texts_are_joined_split_and_trimmed() {
    let parts = vec!["a".to_string(), "b".to_string(), "c".to_string()];
    assert_eq!(text::join(&parts, ", "), "a, b, c");
    assert_eq!(text::join(&parts[..1].to_vec(), ", "), "a");
    assert_eq!(text::join(&vec![], ", "), "");
    assert_eq!(text::split_words(" a\tbc \u{3000} d "), vec!["a", "bc", "d"]);
    assert_eq!(text::split_words(""), Vec::<String>::new());
    assert_eq!(text::split_words(" \n "), Vec::<String>::new());
    assert_eq!(text::trim("  a b \n"), "a b");
    assert_eq!(text::trim("x"), "x");
    assert_eq!(text::trim(" \t "), "");
    assert_eq!(text::trim(""), "");
    assert!(text::same("a", "a"));
    assert!(!text::same("a", "b"));
    assert_eq!(text::find("a:b:c", ':', 0), Some(1));
    assert_eq!(text::find("a:b:c", ':', 2), Some(3));
    assert_eq!(text::find("a:b:c", ':', 4), None);
    assert_eq!(text::concat("ab", "cd"), "abcd");
    for c in ['\t', '\n', ' ', '\u{85}', '\u{a0}', '\u{1680}', '\u{2003}', '\u{2028}', '\u{202f}', '\u{205f}', '\u{3000}', 'a', '\u{200b}', '0'] {
        assert_eq!(text::space(c), c.is_whitespace());
    }
}

#[test]
fn steps_that_use_an_action_name_its_release() {
    let step = Step::<Use>::uses("actions", "checkout", 4);
    assert_eq!(step.uses.as_deref(), Some("actions/checkout@v4"));
    assert_eq!(step.run, None);
    let checkout = Step::checkout();
    assert_eq!(checkout.uses.as_deref(), Some("actions/checkout@v4"));
    assert_eq!(checkout.name.as_deref(), Some("Checkout Code"));
    let big = Step::<Use>::uses("o", "r", 12345);
    assert_eq!(big.uses.as_deref(), Some("o/r@v12345"));
}

#[test]
fn volumes_are_read_from_source_and_destination() {
    let volume = Volume::new("data:/var/lib").unwrap();
    assert_eq!(volume.source, "data");
    assert_eq!(volume.destination, "/var/lib");
    assert_eq!(Volume::new(":").unwrap(), Volume::default());
    assert_eq!(Volume::new("nocolon"), None);
    assert_eq!(Volume::new("a:b:c"), None);
    assert_eq!(Volume::new(""), None);
    let wide = Volume::new("dätä:ü").unwrap();
    assert_eq!(wide.source, "dätä");
    assert_eq!(wide.destination, "ü");
}

#[test]
fn permissions_read_and_write_the_contents() {
    assert_eq!(Permissions::read().contents, Some(PermissionLevel::Read));
    assert_eq!(Permissions::write().contents, Some(PermissionLevel::Write));
    assert_eq!(Permissions::read().contents(PermissionLevel::NoAccess).to_tree().render().unwrap(), "contents: none\n");
    assert_eq!(Permissions::read().actions, None);
    assert_eq!(Expression::new("always()").as_str(), "always()");
}

#[test]
fn auto_commit_builds_its_script() {
    let step = AutoCommit::default().to_step();
    assert_eq!(
        step.run.as_deref(),
        Some(
            "[[ ! $GITHUB_REF =~ ^refs/heads/(main)$ ]] || (echo 'Skipping auto-commit on protected branch' && exit 0) && \
             git config --global user.name 'github-actions' && \
             git config --global user.email 'github-actions@github.com' && \
             git add . && \
             git commit -m \"lint changes.\" || echo 'No changes to commit'"
        )
    );
    assert_eq!(step.name.as_deref(), Some("Auto Commit"));
    assert_eq!(step.id, None);

    let step = AutoCommit::new("fix")
        .id("commit")
        .user_name("bot")
        .user_email("bot@example.com")
        .files(vec!["a.rs".to_string(), "b.rs".to_string()])
        .push(true)
        .skip_branches(SkipBranches::from(vec!["main".to_string(), "release".to_string()]))
        .to_step();
    assert_eq!(
        step.run.as_deref(),
        Some(
            "[[ ! $GITHUB_REF =~ ^refs/heads/(main|release)$ ]] || (echo 'Skipping auto-commit on protected branch' && exit 0) && \
             git config --global user.name 'bot' && \
             git config --global user.email 'bot@example.com' && \
             git add a.rs b.rs && \
             git commit -m \"fix\" || echo 'No changes to commit' && \
             git push"
        )
    );
    assert_eq!(step.id.as_deref(), Some("commit"));

    let empty_files = AutoCommit::new("m").files(vec![]).push(false).to_step();
    assert!(empty_files.run.as_deref().unwrap().contains("&& git add . &&"));
    assert!(!empty_files.run.as_deref().unwrap().contains("git push"));
}

#[test]
fn skip_branches_know_what_they_hold() {
    let branches = SkipBranches::from(vec!["main".to_string(), "dev".to_string()]);
    assert!(branches.contains("main"));
    assert!(branches.contains("dev"));
    assert!(!branches.contains("mai"));
    assert!(!SkipBranches::default().contains("main"));
}

#[test]
fn ordered_maps_keep_the_order_of_arrival() {
    let map = OrderedMap::new().insert("b".to_string(), 1).insert("a".to_string(), 2).insert("b".to_string(), 3);
    assert_eq!(map.len(), 2);
    assert_eq!(map.key_at(0), "b");
    assert_eq!(map.value_at(0), &3);
    assert_eq!(map.key_at(1), "a");
    assert_eq!(map.index_of("a"), Some(1));
    assert_eq!(map.index_of("c"), None);
    assert_eq!(map.get("b"), Some(&3));
    assert_eq!(map.get("c"), None);
    assert!(map.contains_key("a"));
    assert!(!map.contains_key("ab"));
    assert_eq!(map.clone(), map);
    assert_ne!(map, OrderedMap::new().insert("b".to_string(), 3));
    assert_eq!(OrderedMap::<u8>::new().len(), 0);
}

#[test]
fn runners_are_labels() {
    assert_eq!(RunsOn::label("macos-14").0, Tree::String("macos-14".to_string()));
    assert_eq!(Job::new("x").runs_on(RunsOn::label("macos-14")).to_tree().render().unwrap(), "name: x\nruns-on: macos-14\n");
}

#[test]
fn runners_are_written_as_words_or_under_custom() {
    assert_eq!(Runner::default(), Runner::Linux);
    assert_eq!(Runner::Linux.to_tree().render().unwrap(), "linux\n");
    assert_eq!(Runner::MacOS.to_tree().render().unwrap(), "mac-o-s\n");
    assert_eq!(Runner::Windows.to_tree().render().unwrap(), "windows\n");
    assert_eq!(Runner::Custom("arm".to_string()).to_tree().render().unwrap(), "custom: arm\n");
    for runner in [Runner::Linux, Runner::MacOS, Runner::Windows, Runner::Custom("arm".to_string())] {
        assert_eq!(Runner::from_tree(&runner.to_tree()).unwrap(), runner);
    }
    for text in ["macos", "custom: 1", "custom: a\nother: b", "other: a", "[linux]"] {
        assert!(Runner::from_tree(&Tree::parse(text).unwrap()).is_err(), "{}", text);
    }
}
