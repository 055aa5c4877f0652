use gh_workflow::workflow::Workflow;

fn split(content: &str) -> (String, String) {
    let parsed = Workflow::parse(content).unwrap();
    let actual = parsed.to_string().unwrap();
    let expected =
        serde_yaml::to_string(&serde_yaml::from_str::<serde_json::Value>(content).unwrap()).unwrap();

    (actual, expected)
}

const BENCH: &str = "\
name: Benchmark
on:
  pull_request:
    types: [opened, synchronize, labeled]
    branches: [main]
  push:
    branches: [main]
permissions:
  contents: write
  pull-requests: write
jobs:
  bench:
    if: \"contains(github.event.pull_request.labels.*.name, 'ci: benchmark')\"
    name: Run benchmarks
    runs-on: [self-hosted, linux, x64]
    concurrency:
      group: bench-${{ github.ref }}
      cancel-in-progress: true
    timeout-minutes: 45
    steps:
      - name: Checkout
        uses: actions/checkout@v4
      - id: bench
        name: Run
        run: |
          cargo bench --no-fail-fast -- --save-baseline new
          critcmp main new
        env:
          RUSTFLAGS: -C target-cpu=native
        timeout-minutes: 30
        continue-on-error: false
";

const CI: &str = "\
name: CI
env:
  CARGO_TERM_COLOR: always
  RUST_BACKTRACE: 1
  VERBOSE: true
on:
  pull_request:
    types: [opened, synchronize, reopened]
    branches: [main]
    paths: ['src/**', Cargo.toml]
  push:
    branches: [main]
  schedule:
    cron: ['0 3 * * 1']
  workflow_dispatch:
    inputs:
      level:
        description: How loud
        type: choice
        default: info
jobs:
  lint:
    name: Lint
    runs-on: ubuntu-latest
    steps:
      - uses: actions/checkout@v4
      - name: Clippy
        run: cargo clippy --all-targets -- -D warnings
  test:
    needs: [lint]
    name: Test
    runs-on: ${{ matrix.os }}
    strategy:
      matrix:
        os: [ubuntu-latest, macos-latest, windows-latest]
        toolchain: [stable, nightly]
        include:
          - os: ubuntu-latest
            toolchain: beta
      fail-fast: false
      max-parallel: 4
    steps:
      - uses: actions/checkout@v4
      - uses: actions-rust-lang/setup-rust-toolchain@v1
        with:
          toolchain: ${{ matrix.toolchain }}
          cache: false
      - run: cargo test --all-features --workspace
        working-directory: crates
concurrency:
  group: ci-${{ github.workflow }}
defaults:
  run:
    shell: bash
    working-directory: .
";

const DEMO: &str = "\
name: Demo
run-name: Deploy of ${{ github.actor }}
on: [push, workflow_dispatch]
jobs:
  deploy:
    name: Deploy
    runs-on: ubuntu-latest
    permissions:
      contents: read
      deployments: write
      id-token: write
    environment:
      name: production
      url: https://example.com
    outputs:
      url: ${{ steps.publish.outputs.url }}
    env:
      STAGE: prod
    container:
      image: node:20
      credentials:
        username: ${{ github.actor }}
        password: ${{ secrets.REGISTRY }}
      env:
        CI: true
      ports: [80, '8080:80']
      volumes:
        - source: cache
          destination: /cache
      options: --cpus 2
    services:
      redis:
        image: redis:7
        ports: [6379]
    steps:
      - id: publish
        name: Publish
        run: ./publish.sh
    secrets:
      token:
        required: true
        description: The token of the registry
timeout-minutes: 20
";

const RUST: &str = "\
name: Build and Test
env:
  RUSTFLAGS: -Dwarnings
on: push
permissions:
  contents: read
jobs:
  build:
    name: Build and Test
    runs-on: ubuntu-latest
    steps:
      - name: Checkout Code
        uses: actions/checkout@v4
      - uses: actions-rust-lang/setup-rust-toolchain@v1
        with:
          toolchain: stable, nightly
          components: clippy, rustfmt
      - name: Cargo Test
        run: cargo test --all-features --workspace
      - name: Cargo Fmt
        run: cargo +nightly fmt --check
      - name: Cargo Clippy
        run: cargo +nightly clippy --all-features --workspace -- -D warnings
        retry:
          max-attempts: 2
        artifacts:
          upload:
            - name: report
              path: target/report
              retention-days: 3
";

#[test]
fn test_workflow_bench() {
    let (actual, expected) = split(BENCH);
    assert_eq!(actual, expected);
}

#[test]
fn test_workflow_ci() {
    let (actual, expected) = split(CI);
    assert_eq!(actual, expected);
}

#[test]
fn test_workflow_demo() {
    let (actual, expected) = split(DEMO);
    assert_eq!(actual, expected);
}

#[test]
fn test_workflow_rust() {
    let (actual, expected) = split(RUST);
    assert_eq!(actual, expected);
}
