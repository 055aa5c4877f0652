//! The step that sets the Rust toolchain up, in typed form.

use crate::job::Job;
use crate::rust_flag::RustFlags;
use crate::text::decimal;
use crate::text::to_decimal;
use vstd::prelude::*;
use vstd::string::StringExecFns;

verus! {

/// A release of the toolchain, by channel or by number.
#[derive(Debug, Clone, Copy, PartialEq, Eq)]
pub enum Toolchain {
    Stable,
    Nightly,
    Custom((u64, u64, u64)),
}

impl Toolchain {
    /// The release with the number `major.minor.patch`.
    pub fn new(major: u64, minor: u64, patch: u64) -> (r: Self)
        ensures
            r == Toolchain::Custom((major, minor, patch)),
    {
        Toolchain::Custom((major, minor, patch))
    }

    /// The name of the release: of a channel its name, else the three
    /// numbers with dots between.
    pub open spec fn text(self) -> Seq<char> {
        match self {
            Toolchain::Stable => "stable"@,
            Toolchain::Nightly => "nightly"@,
            Toolchain::Custom(n) => decimal(n.0 as nat) + "."@ + decimal(n.1 as nat) + "."@
                + decimal(n.2 as nat),
        }
    }

    /// The name of the release.
    pub fn to_string(&self) -> (r: String)
        ensures
            r@ == self.text(),
    {
        match self {
            Toolchain::Stable => "stable".to_owned(),
            Toolchain::Nightly => "nightly".to_owned(),
            Toolchain::Custom(n) => {
                let mut out = to_decimal(n.0);
                out.append(".");
                out.append(to_decimal(n.1).as_str());
                out.append(".");
                out.append(to_decimal(n.2).as_str());
                out
            },
        }
    }
}

/// A part of the toolchain that is installed on top of the compiler.
#[derive(Debug, Clone, Copy, PartialEq, Eq, Structural)]
pub enum Component {
    Clippy,
    Rustfmt,
    RustDoc,
}

/// What the step that sets the toolchain up is asked for.
#[derive(Debug, Clone)]
pub struct ToolchainStep {
    /// The releases to install.
    pub toolchain: Vec<Toolchain>,
    /// The target to build for.
    pub target: Option<String>,
    /// The components to install.
    pub components: Vec<Component>,
    /// Whether the build is cached.
    pub cache: bool,
    /// Further directories to cache.
    pub cache_directories: Vec<String>,
    /// The workspaces to cache.
    pub cache_workspaces: Vec<String>,
    /// Whether the cache is kept when the build fails.
    pub cache_on_failure: bool,
    /// A further key for the cache.
    pub cache_key: Option<String>,
    /// Whether the matcher for compiler messages is switched on.
    pub matcher: bool,
    /// The flags for the compiler.
    pub rust_flags: Option<RustFlags>,
    /// Whether a toolchain file of the repository is overridden.
    pub override_setup: bool,
}

impl Default for ToolchainStep {
    /// Nothing asked for.
    fn default() -> (r: Self)
        ensures
            r.toolchain@.len() == 0,
            r.target is None,
            r.components@.len() == 0,
            !r.cache,
            r.cache_directories@.len() == 0,
            r.cache_workspaces@.len() == 0,
            !r.cache_on_failure,
            r.cache_key is None,
            !r.matcher,
            r.rust_flags is None,
            !r.override_setup,
    {
        ToolchainStep {
            toolchain: Vec::new(),
            target: None,
            components: Vec::new(),
            cache: false,
            cache_directories: Vec::new(),
            cache_workspaces: Vec::new(),
            cache_on_failure: false,
            cache_key: None,
            matcher: false,
            rust_flags: None,
            override_setup: false,
        }
    }
}

/// What can be applied to a job.
pub trait AddStep {
    /// The job after this was applied to it.
    fn apply(self, job: Job) -> Job;
}

impl AddStep for ToolchainStep {
    /// Hands the job back as it came.
    fn apply(self, job: Job) -> (r: Job)
        ensures
            r == job,
    {
        job
    }
}

impl ToolchainStep {
    /// Puts `version` after the releases to install.
    pub fn add_toolchain(self, version: Toolchain) -> (r: Self)
        ensures
            r == (ToolchainStep { toolchain: r.toolchain, ..self }),
            r.toolchain@ == self.toolchain@.push(version),
    {
        let mut r = self;
        r.toolchain.push(version);
        r
    }

    /// Sets the releases to install.
    pub fn toolchain(self, value: Vec<Toolchain>) -> (r: Self)
        ensures
            r == (ToolchainStep { toolchain: value, ..self }),
    {
        let mut r = self;
        r.toolchain = value;
        r
    }

    /// Sets the target to build for.
    pub fn target(self, value: &str) -> (r: Self)
        ensures
            r == (ToolchainStep { target: r.target, ..self }),
            r.target matches Some(s) && s@ == value@,
    {
        let mut r = self;
        r.target = Some(value.to_owned());
        r
    }

    /// Sets the components to install.
    pub fn components(self, value: Vec<Component>) -> (r: Self)
        ensures
            r == (ToolchainStep { components: value, ..self }),
    {
        let mut r = self;
        r.components = value;
        r
    }

    /// Sets whether the build is cached.
    pub fn cache(self, value: bool) -> (r: Self)
        ensures
            r == (ToolchainStep { cache: value, ..self }),
    {
        let mut r = self;
        r.cache = value;
        r
    }

    /// Sets the further directories to cache.
    pub fn cache_directories(self, value: Vec<String>) -> (r: Self)
        ensures
            r == (ToolchainStep { cache_directories: value, ..self }),
    {
        let mut r = self;
        r.cache_directories = value;
        r
    }

    /// Sets the workspaces to cache.
    pub fn cache_workspaces(self, value: Vec<String>) -> (r: Self)
        ensures
            r == (ToolchainStep { cache_workspaces: value, ..self }),
    {
        let mut r = self;
        r.cache_workspaces = value;
        r
    }

    /// Sets whether the cache is kept when the build fails.
    pub fn cache_on_failure(self, value: bool) -> (r: Self)
        ensures
            r == (ToolchainStep { cache_on_failure: value, ..self }),
    {
        let mut r = self;
        r.cache_on_failure = value;
        r
    }

    /// Sets the further key for the cache.
    pub fn cache_key(self, value: &str) -> (r: Self)
        ensures
            r == (ToolchainStep { cache_key: r.cache_key, ..self }),
            r.cache_key matches Some(s) && s@ == value@,
    {
        let mut r = self;
        r.cache_key = Some(value.to_owned());
        r
    }

    /// Sets whether the matcher for compiler messages is switched on.
    pub fn matcher(self, value: bool) -> (r: Self)
        ensures
            r == (ToolchainStep { matcher: value, ..self }),
    {
        let mut r = self;
        r.matcher = value;
        r
    }

    /// Sets the flags for the compiler.
    pub fn rust_flags(self, value: RustFlags) -> (r: Self)
        ensures
            r == (ToolchainStep { rust_flags: Some(value), ..self }),
    {
        let mut r = self;
        r.rust_flags = Some(value);
        r
    }

    /// Sets whether a toolchain file of the repository is overridden.
    pub fn override_setup(self, value: bool) -> (r: Self)
        ensures
            r == (ToolchainStep { override_setup: value, ..self }),
    {
        let mut r = self;
        r.override_setup = value;
        r
    }
}

} // verus!
