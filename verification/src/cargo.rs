//! Commands of `cargo`, in typed form, and the steps that run them.

use crate::codec::Codec;
use crate::error::WorkflowError;
use crate::step::Run;
use crate::step::Step;
use crate::step::StepView;
use crate::text::joined;
use crate::text::join;
use crate::text::same;
use crate::text::texts;
use crate::tree::Node;
use crate::tree::Tree;
use vstd::prelude::*;
use vstd::string::StringExecFns;

verus! {

/// A command of `cargo`.
#[derive(Debug, Clone, Copy, PartialEq, Eq, Structural)]
pub enum Command {
    Add,
    Bench,
    Build,
    Check,
    Chef,
    Clean,
    Clippy,
    Component,
    Config,
    Criterion,
    Doc,
    Expand,
    Fetch,
    Fix,
    Flamegraph,
    Fmt,
    Generate,
    GenerateLockfile,
    GitCheckout,
    Help,
    Info,
    Init,
    Insta,
    Install,
    LocateProject,
    Login,
    Logout,
    Make,
    Metadata,
    Miri,
    New,
    Owner,
    Package,
    ReadManifest,
    Remove,
    Report,
    Run,
    Rustc,
    Rustdoc,
    Search,
    Test,
    Tree,
    Udeps,
    Uninstall,
    Update,
    Vendor,
    VerifyProject,
    Version,
    Watch,
    Yank,
}

impl DeepView for Command {
    type V = Command;

    open spec fn deep_view(&self) -> Command {
        *self
    }
}

impl Command {
    /// The word that is written for the variant.
    pub open spec fn word(self) -> Seq<char> {
        match self {
            Command::Add => "add"@,
            Command::Bench => "bench"@,
            Command::Build => "build"@,
            Command::Check => "check"@,
            Command::Chef => "chef"@,
            Command::Clean => "clean"@,
            Command::Clippy => "clippy"@,
            Command::Component => "component"@,
            Command::Config => "config"@,
            Command::Criterion => "criterion"@,
            Command::Doc => "doc"@,
            Command::Expand => "expand"@,
            Command::Fetch => "fetch"@,
            Command::Fix => "fix"@,
            Command::Flamegraph => "flamegraph"@,
            Command::Fmt => "fmt"@,
            Command::Generate => "generate"@,
            Command::GenerateLockfile => "generate-lockfile"@,
            Command::GitCheckout => "git-checkout"@,
            Command::Help => "help"@,
            Command::Info => "info"@,
            Command::Init => "init"@,
            Command::Insta => "insta"@,
            Command::Install => "install"@,
            Command::LocateProject => "locate-project"@,
            Command::Login => "login"@,
            Command::Logout => "logout"@,
            Command::Make => "make"@,
            Command::Metadata => "metadata"@,
            Command::Miri => "miri"@,
            Command::New => "new"@,
            Command::Owner => "owner"@,
            Command::Package => "package"@,
            Command::ReadManifest => "read-manifest"@,
            Command::Remove => "remove"@,
            Command::Report => "report"@,
            Command::Run => "run"@,
            Command::Rustc => "rustc"@,
            Command::Rustdoc => "rustdoc"@,
            Command::Search => "search"@,
            Command::Test => "test"@,
            Command::Tree => "tree"@,
            Command::Udeps => "udeps"@,
            Command::Uninstall => "uninstall"@,
            Command::Update => "update"@,
            Command::Vendor => "vendor"@,
            Command::VerifyProject => "verify-project"@,
            Command::Version => "version"@,
            Command::Watch => "watch"@,
            Command::Yank => "yank"@,
        }
    }

    /// The variant that a word stands for.
    pub open spec fn of_word(w: Seq<char>) -> Option<Command> {
        if w == "add"@ {
            Some(Command::Add)
        } else if w == "bench"@ {
            Some(Command::Bench)
        } else if w == "build"@ {
            Some(Command::Build)
        } else if w == "check"@ {
            Some(Command::Check)
        } else if w == "chef"@ {
            Some(Command::Chef)
        } else if w == "clean"@ {
            Some(Command::Clean)
        } else if w == "clippy"@ {
            Some(Command::Clippy)
        } else if w == "component"@ {
            Some(Command::Component)
        } else if w == "config"@ {
            Some(Command::Config)
        } else if w == "criterion"@ {
            Some(Command::Criterion)
        } else if w == "doc"@ {
            Some(Command::Doc)
        } else if w == "expand"@ {
            Some(Command::Expand)
        } else if w == "fetch"@ {
            Some(Command::Fetch)
        } else if w == "fix"@ {
            Some(Command::Fix)
        } else if w == "flamegraph"@ {
            Some(Command::Flamegraph)
        } else if w == "fmt"@ {
            Some(Command::Fmt)
        } else if w == "generate"@ {
            Some(Command::Generate)
        } else if w == "generate-lockfile"@ {
            Some(Command::GenerateLockfile)
        } else if w == "git-checkout"@ {
            Some(Command::GitCheckout)
        } else if w == "help"@ {
            Some(Command::Help)
        } else if w == "info"@ {
            Some(Command::Info)
        } else if w == "init"@ {
            Some(Command::Init)
        } else if w == "insta"@ {
            Some(Command::Insta)
        } else if w == "install"@ {
            Some(Command::Install)
        } else if w == "locate-project"@ {
            Some(Command::LocateProject)
        } else if w == "login"@ {
            Some(Command::Login)
        } else if w == "logout"@ {
            Some(Command::Logout)
        } else if w == "make"@ {
            Some(Command::Make)
        } else if w == "metadata"@ {
            Some(Command::Metadata)
        } else if w == "miri"@ {
            Some(Command::Miri)
        } else if w == "new"@ {
            Some(Command::New)
        } else if w == "owner"@ {
            Some(Command::Owner)
        } else if w == "package"@ {
            Some(Command::Package)
        } else if w == "read-manifest"@ {
            Some(Command::ReadManifest)
        } else if w == "remove"@ {
            Some(Command::Remove)
        } else if w == "report"@ {
            Some(Command::Report)
        } else if w == "run"@ {
            Some(Command::Run)
        } else if w == "rustc"@ {
            Some(Command::Rustc)
        } else if w == "rustdoc"@ {
            Some(Command::Rustdoc)
        } else if w == "search"@ {
            Some(Command::Search)
        } else if w == "test"@ {
            Some(Command::Test)
        } else if w == "tree"@ {
            Some(Command::Tree)
        } else if w == "udeps"@ {
            Some(Command::Udeps)
        } else if w == "uninstall"@ {
            Some(Command::Uninstall)
        } else if w == "update"@ {
            Some(Command::Update)
        } else if w == "vendor"@ {
            Some(Command::Vendor)
        } else if w == "verify-project"@ {
            Some(Command::VerifyProject)
        } else if w == "version"@ {
            Some(Command::Version)
        } else if w == "watch"@ {
            Some(Command::Watch)
        } else if w == "yank"@ {
            Some(Command::Yank)
        } else {
            None
        }
    }

    /// Each variant is the one that its own word stands for.
    pub proof fn lemma_words(self)
        ensures
            Self::of_word(self.word()) == Some(self),
    {
        reveal_strlit("add");
        reveal_strlit("bench");
        reveal_strlit("build");
        reveal_strlit("check");
        reveal_strlit("chef");
        reveal_strlit("clean");
        reveal_strlit("clippy");
        reveal_strlit("component");
        reveal_strlit("config");
        reveal_strlit("criterion");
        reveal_strlit("doc");
        reveal_strlit("expand");
        reveal_strlit("fetch");
        reveal_strlit("fix");
        reveal_strlit("flamegraph");
        reveal_strlit("fmt");
        reveal_strlit("generate");
        reveal_strlit("generate-lockfile");
        reveal_strlit("git-checkout");
        reveal_strlit("help");
        reveal_strlit("info");
        reveal_strlit("init");
        reveal_strlit("insta");
        reveal_strlit("install");
        reveal_strlit("locate-project");
        reveal_strlit("login");
        reveal_strlit("logout");
        reveal_strlit("make");
        reveal_strlit("metadata");
        reveal_strlit("miri");
        reveal_strlit("new");
        reveal_strlit("owner");
        reveal_strlit("package");
        reveal_strlit("read-manifest");
        reveal_strlit("remove");
        reveal_strlit("report");
        reveal_strlit("run");
        reveal_strlit("rustc");
        reveal_strlit("rustdoc");
        reveal_strlit("search");
        reveal_strlit("test");
        reveal_strlit("tree");
        reveal_strlit("udeps");
        reveal_strlit("uninstall");
        reveal_strlit("update");
        reveal_strlit("vendor");
        reveal_strlit("verify-project");
        reveal_strlit("version");
        reveal_strlit("watch");
        reveal_strlit("yank");
        assert("add"@.len() == 3);
        assert("bench"@.len() == 5);
        assert("build"@.len() == 5);
        assert("check"@.len() == 5);
        assert("chef"@.len() == 4);
        assert("clean"@.len() == 5);
        assert("clippy"@.len() == 6);
        assert("component"@.len() == 9);
        assert("config"@.len() == 6);
        assert("criterion"@.len() == 9);
        assert("doc"@.len() == 3);
        assert("expand"@.len() == 6);
        assert("fetch"@.len() == 5);
        assert("fix"@.len() == 3);
        assert("flamegraph"@.len() == 10);
        assert("fmt"@.len() == 3);
        assert("generate"@.len() == 8);
        assert("generate-lockfile"@.len() == 17);
        assert("git-checkout"@.len() == 12);
        assert("help"@.len() == 4);
        assert("info"@.len() == 4);
        assert("init"@.len() == 4);
        assert("insta"@.len() == 5);
        assert("install"@.len() == 7);
        assert("locate-project"@.len() == 14);
        assert("login"@.len() == 5);
        assert("logout"@.len() == 6);
        assert("make"@.len() == 4);
        assert("metadata"@.len() == 8);
        assert("miri"@.len() == 4);
        assert("new"@.len() == 3);
        assert("owner"@.len() == 5);
        assert("package"@.len() == 7);
        assert("read-manifest"@.len() == 13);
        assert("remove"@.len() == 6);
        assert("report"@.len() == 6);
        assert("run"@.len() == 3);
        assert("rustc"@.len() == 5);
        assert("rustdoc"@.len() == 7);
        assert("search"@.len() == 6);
        assert("test"@.len() == 4);
        assert("tree"@.len() == 4);
        assert("udeps"@.len() == 5);
        assert("uninstall"@.len() == 9);
        assert("update"@.len() == 6);
        assert("vendor"@.len() == 6);
        assert("verify-project"@.len() == 14);
        assert("version"@.len() == 7);
        assert("watch"@.len() == 5);
        assert("yank"@.len() == 4);
        assert("add"@[0] == 'a');
        assert("add"@[1] == 'd');
        assert("bench"@[0] == 'b');
        assert("bench"@[1] == 'e');
        assert("bench"@[2] == 'n');
        assert("build"@[0] == 'b');
        assert("build"@[1] == 'u');
        assert("build"@[2] == 'i');
        assert("check"@[0] == 'c');
        assert("check"@[1] == 'h');
        assert("check"@[2] == 'e');
        assert("chef"@[0] == 'c');
        assert("chef"@[1] == 'h');
        assert("chef"@[2] == 'e');
        assert("clean"@[0] == 'c');
        assert("clean"@[1] == 'l');
        assert("clean"@[2] == 'e');
        assert("clippy"@[0] == 'c');
        assert("clippy"@[1] == 'l');
        assert("clippy"@[2] == 'i');
        assert("clippy"@[3] == 'p');
        assert("clippy"@[4] == 'p');
        assert("component"@[0] == 'c');
        assert("component"@[1] == 'o');
        assert("config"@[0] == 'c');
        assert("config"@[1] == 'o');
        assert("config"@[2] == 'n');
        assert("config"@[3] == 'f');
        assert("config"@[4] == 'i');
        assert("criterion"@[0] == 'c');
        assert("criterion"@[1] == 'r');
        assert("doc"@[0] == 'd');
        assert("doc"@[1] == 'o');
        assert("expand"@[0] == 'e');
        assert("expand"@[1] == 'x');
        assert("expand"@[2] == 'p');
        assert("expand"@[3] == 'a');
        assert("expand"@[4] == 'n');
        assert("fetch"@[0] == 'f');
        assert("fetch"@[1] == 'e');
        assert("fetch"@[2] == 't');
        assert("fix"@[0] == 'f');
        assert("fix"@[1] == 'i');
        assert("fmt"@[0] == 'f');
        assert("fmt"@[1] == 'm');
        assert("generate"@[0] == 'g');
        assert("help"@[0] == 'h');
        assert("help"@[1] == 'e');
        assert("help"@[2] == 'l');
        assert("info"@[0] == 'i');
        assert("info"@[1] == 'n');
        assert("info"@[2] == 'f');
        assert("init"@[0] == 'i');
        assert("init"@[1] == 'n');
        assert("init"@[2] == 'i');
        assert("insta"@[0] == 'i');
        assert("insta"@[1] == 'n');
        assert("insta"@[2] == 's');
        assert("install"@[0] == 'i');
        assert("locate-project"@[0] == 'l');
        assert("login"@[0] == 'l');
        assert("login"@[1] == 'o');
        assert("login"@[2] == 'g');
        assert("logout"@[0] == 'l');
        assert("logout"@[1] == 'o');
        assert("logout"@[2] == 'g');
        assert("logout"@[3] == 'o');
        assert("logout"@[4] == 'u');
        assert("make"@[0] == 'm');
        assert("make"@[1] == 'a');
        assert("make"@[2] == 'k');
        assert("metadata"@[0] == 'm');
        assert("miri"@[0] == 'm');
        assert("miri"@[1] == 'i');
        assert("miri"@[2] == 'r');
        assert("new"@[0] == 'n');
        assert("new"@[1] == 'e');
        assert("owner"@[0] == 'o');
        assert("owner"@[1] == 'w');
        assert("owner"@[2] == 'n');
        assert("package"@[0] == 'p');
        assert("remove"@[0] == 'r');
        assert("remove"@[1] == 'e');
        assert("remove"@[2] == 'm');
        assert("remove"@[3] == 'o');
        assert("remove"@[4] == 'v');
        assert("report"@[0] == 'r');
        assert("report"@[1] == 'e');
        assert("report"@[2] == 'p');
        assert("report"@[3] == 'o');
        assert("report"@[4] == 'r');
        assert("run"@[0] == 'r');
        assert("run"@[1] == 'u');
        assert("rustc"@[0] == 'r');
        assert("rustc"@[1] == 'u');
        assert("rustc"@[2] == 's');
        assert("rustdoc"@[0] == 'r');
        assert("search"@[0] == 's');
        assert("search"@[1] == 'e');
        assert("search"@[2] == 'a');
        assert("search"@[3] == 'r');
        assert("search"@[4] == 'c');
        assert("test"@[0] == 't');
        assert("test"@[1] == 'e');
        assert("test"@[2] == 's');
        assert("tree"@[0] == 't');
        assert("tree"@[1] == 'r');
        assert("tree"@[2] == 'e');
        assert("udeps"@[0] == 'u');
        assert("udeps"@[1] == 'd');
        assert("udeps"@[2] == 'e');
        assert("uninstall"@[0] == 'u');
        assert("uninstall"@[1] == 'n');
        assert("update"@[0] == 'u');
        assert("update"@[1] == 'p');
        assert("update"@[2] == 'd');
        assert("update"@[3] == 'a');
        assert("update"@[4] == 't');
        assert("vendor"@[0] == 'v');
        assert("vendor"@[1] == 'e');
        assert("vendor"@[2] == 'n');
        assert("vendor"@[3] == 'd');
        assert("vendor"@[4] == 'o');
        assert("verify-project"@[0] == 'v');
        assert("version"@[0] == 'v');
        assert("watch"@[0] == 'w');
        assert("watch"@[1] == 'a');
        assert("watch"@[2] == 't');
        assert("yank"@[0] == 'y');
        assert("yank"@[1] == 'a');
        assert("yank"@[2] == 'n');
    }

    /// The word that is written for the variant.
    pub fn as_str(&self) -> (s: &'static str)
        ensures
            s@ == self.word(),
    {
        match self {
            Command::Add => "add",
            Command::Bench => "bench",
            Command::Build => "build",
            Command::Check => "check",
            Command::Chef => "chef",
            Command::Clean => "clean",
            Command::Clippy => "clippy",
            Command::Component => "component",
            Command::Config => "config",
            Command::Criterion => "criterion",
            Command::Doc => "doc",
            Command::Expand => "expand",
            Command::Fetch => "fetch",
            Command::Fix => "fix",
            Command::Flamegraph => "flamegraph",
            Command::Fmt => "fmt",
            Command::Generate => "generate",
            Command::GenerateLockfile => "generate-lockfile",
            Command::GitCheckout => "git-checkout",
            Command::Help => "help",
            Command::Info => "info",
            Command::Init => "init",
            Command::Insta => "insta",
            Command::Install => "install",
            Command::LocateProject => "locate-project",
            Command::Login => "login",
            Command::Logout => "logout",
            Command::Make => "make",
            Command::Metadata => "metadata",
            Command::Miri => "miri",
            Command::New => "new",
            Command::Owner => "owner",
            Command::Package => "package",
            Command::ReadManifest => "read-manifest",
            Command::Remove => "remove",
            Command::Report => "report",
            Command::Run => "run",
            Command::Rustc => "rustc",
            Command::Rustdoc => "rustdoc",
            Command::Search => "search",
            Command::Test => "test",
            Command::Tree => "tree",
            Command::Udeps => "udeps",
            Command::Uninstall => "uninstall",
            Command::Update => "update",
            Command::Vendor => "vendor",
            Command::VerifyProject => "verify-project",
            Command::Version => "version",
            Command::Watch => "watch",
            Command::Yank => "yank",
        }
    }

    /// The variant that a word stands for.
    pub fn from_word(w: &str) -> (r: Option<Command>)
        ensures
            r == Self::of_word(w@),
    {
        if same(w, "add") {
            Some(Command::Add)
        } else if same(w, "bench") {
            Some(Command::Bench)
        } else if same(w, "build") {
            Some(Command::Build)
        } else if same(w, "check") {
            Some(Command::Check)
        } else if same(w, "chef") {
            Some(Command::Chef)
        } else if same(w, "clean") {
            Some(Command::Clean)
        } else if same(w, "clippy") {
            Some(Command::Clippy)
        } else if same(w, "component") {
            Some(Command::Component)
        } else if same(w, "config") {
            Some(Command::Config)
        } else if same(w, "criterion") {
            Some(Command::Criterion)
        } else if same(w, "doc") {
            Some(Command::Doc)
        } else if same(w, "expand") {
            Some(Command::Expand)
        } else if same(w, "fetch") {
            Some(Command::Fetch)
        } else if same(w, "fix") {
            Some(Command::Fix)
        } else if same(w, "flamegraph") {
            Some(Command::Flamegraph)
        } else if same(w, "fmt") {
            Some(Command::Fmt)
        } else if same(w, "generate") {
            Some(Command::Generate)
        } else if same(w, "generate-lockfile") {
            Some(Command::GenerateLockfile)
        } else if same(w, "git-checkout") {
            Some(Command::GitCheckout)
        } else if same(w, "help") {
            Some(Command::Help)
        } else if same(w, "info") {
            Some(Command::Info)
        } else if same(w, "init") {
            Some(Command::Init)
        } else if same(w, "insta") {
            Some(Command::Insta)
        } else if same(w, "install") {
            Some(Command::Install)
        } else if same(w, "locate-project") {
            Some(Command::LocateProject)
        } else if same(w, "login") {
            Some(Command::Login)
        } else if same(w, "logout") {
            Some(Command::Logout)
        } else if same(w, "make") {
            Some(Command::Make)
        } else if same(w, "metadata") {
            Some(Command::Metadata)
        } else if same(w, "miri") {
            Some(Command::Miri)
        } else if same(w, "new") {
            Some(Command::New)
        } else if same(w, "owner") {
            Some(Command::Owner)
        } else if same(w, "package") {
            Some(Command::Package)
        } else if same(w, "read-manifest") {
            Some(Command::ReadManifest)
        } else if same(w, "remove") {
            Some(Command::Remove)
        } else if same(w, "report") {
            Some(Command::Report)
        } else if same(w, "run") {
            Some(Command::Run)
        } else if same(w, "rustc") {
            Some(Command::Rustc)
        } else if same(w, "rustdoc") {
            Some(Command::Rustdoc)
        } else if same(w, "search") {
            Some(Command::Search)
        } else if same(w, "test") {
            Some(Command::Test)
        } else if same(w, "tree") {
            Some(Command::Tree)
        } else if same(w, "udeps") {
            Some(Command::Udeps)
        } else if same(w, "uninstall") {
            Some(Command::Uninstall)
        } else if same(w, "update") {
            Some(Command::Update)
        } else if same(w, "vendor") {
            Some(Command::Vendor)
        } else if same(w, "verify-project") {
            Some(Command::VerifyProject)
        } else if same(w, "version") {
            Some(Command::Version)
        } else if same(w, "watch") {
            Some(Command::Watch)
        } else if same(w, "yank") {
            Some(Command::Yank)
        } else {
            None
        }
    }
}

impl Codec for Command {
    /// The word of the variant, as a string.
    open spec fn encode(v: Command) -> Node {
        Node::Str(v.word())
    }

    open spec fn decode(n: Node) -> Option<Command> {
        match n {
            Node::Str(w) => Self::of_word(w),
            _ => None,
        }
    }

    open spec fn valid(v: Command) -> bool {
        true
    }

    proof fn lemma_round_trip(v: Command) {
        v.lemma_words();
    }

    fn to_tree(&self) -> (t: Tree) {
        Tree::String(self.as_str().to_owned())
    }

    fn from_tree(t: &Tree) -> (r: Result<Self, WorkflowError>) {
        match t {
            Tree::String(w) => match Self::from_word(w.as_str()) {
                Some(v) => Ok(v),
                None => Err(WorkflowError::Parse),
            },
            _ => Err(WorkflowError::Parse),
        }
    }
}

impl Command {
    /// The name of the command in small letters, as it goes into a
    /// command line.
    pub open spec fn lower(self) -> Seq<char> {
        match self {
            Command::Add => "add"@,
            Command::Bench => "bench"@,
            Command::Build => "build"@,
            Command::Check => "check"@,
            Command::Chef => "chef"@,
            Command::Clean => "clean"@,
            Command::Clippy => "clippy"@,
            Command::Component => "component"@,
            Command::Config => "config"@,
            Command::Criterion => "criterion"@,
            Command::Doc => "doc"@,
            Command::Expand => "expand"@,
            Command::Fetch => "fetch"@,
            Command::Fix => "fix"@,
            Command::Flamegraph => "flamegraph"@,
            Command::Fmt => "fmt"@,
            Command::Generate => "generate"@,
            Command::GenerateLockfile => "generatelockfile"@,
            Command::GitCheckout => "gitcheckout"@,
            Command::Help => "help"@,
            Command::Info => "info"@,
            Command::Init => "init"@,
            Command::Insta => "insta"@,
            Command::Install => "install"@,
            Command::LocateProject => "locateproject"@,
            Command::Login => "login"@,
            Command::Logout => "logout"@,
            Command::Make => "make"@,
            Command::Metadata => "metadata"@,
            Command::Miri => "miri"@,
            Command::New => "new"@,
            Command::Owner => "owner"@,
            Command::Package => "package"@,
            Command::ReadManifest => "readmanifest"@,
            Command::Remove => "remove"@,
            Command::Report => "report"@,
            Command::Run => "run"@,
            Command::Rustc => "rustc"@,
            Command::Rustdoc => "rustdoc"@,
            Command::Search => "search"@,
            Command::Test => "test"@,
            Command::Tree => "tree"@,
            Command::Udeps => "udeps"@,
            Command::Uninstall => "uninstall"@,
            Command::Update => "update"@,
            Command::Vendor => "vendor"@,
            Command::VerifyProject => "verifyproject"@,
            Command::Version => "version"@,
            Command::Watch => "watch"@,
            Command::Yank => "yank"@,
        }
    }

    /// The name of the command in small letters.
    pub fn lower_str(&self) -> (s: &'static str)
        ensures
            s@ == self.lower(),
    {
        match self {
            Command::Add => "add",
            Command::Bench => "bench",
            Command::Build => "build",
            Command::Check => "check",
            Command::Chef => "chef",
            Command::Clean => "clean",
            Command::Clippy => "clippy",
            Command::Component => "component",
            Command::Config => "config",
            Command::Criterion => "criterion",
            Command::Doc => "doc",
            Command::Expand => "expand",
            Command::Fetch => "fetch",
            Command::Fix => "fix",
            Command::Flamegraph => "flamegraph",
            Command::Fmt => "fmt",
            Command::Generate => "generate",
            Command::GenerateLockfile => "generatelockfile",
            Command::GitCheckout => "gitcheckout",
            Command::Help => "help",
            Command::Info => "info",
            Command::Init => "init",
            Command::Insta => "insta",
            Command::Install => "install",
            Command::LocateProject => "locateproject",
            Command::Login => "login",
            Command::Logout => "logout",
            Command::Make => "make",
            Command::Metadata => "metadata",
            Command::Miri => "miri",
            Command::New => "new",
            Command::Owner => "owner",
            Command::Package => "package",
            Command::ReadManifest => "readmanifest",
            Command::Remove => "remove",
            Command::Report => "report",
            Command::Run => "run",
            Command::Rustc => "rustc",
            Command::Rustdoc => "rustdoc",
            Command::Search => "search",
            Command::Test => "test",
            Command::Tree => "tree",
            Command::Udeps => "udeps",
            Command::Uninstall => "uninstall",
            Command::Update => "update",
            Command::Vendor => "vendor",
            Command::VerifyProject => "verifyproject",
            Command::Version => "version",
            Command::Watch => "watch",
            Command::Yank => "yank",
        }
    }
}

/// Marks the command `cargo test`.
#[derive(Debug, Clone, Copy, PartialEq, Eq, Structural)]
pub struct Test;

/// Marks the command `cargo clippy`.
#[derive(Debug, Clone, Copy, PartialEq, Eq, Structural)]
pub struct Clippy;

/// Marks the command `cargo fmt`.
#[derive(Debug, Clone, Copy, PartialEq, Eq, Structural)]
pub struct Fmt;

/// Marks the command `cargo check`.
#[derive(Debug, Clone, Copy, PartialEq, Eq, Structural)]
pub struct Check;

/// Marks the command `cargo clean`.
#[derive(Debug, Clone, Copy, PartialEq, Eq, Structural)]
pub struct Clean;

/// A command of `cargo` with its arguments. The parameter says which
/// command it is, and so which arguments it offers.
#[derive(Debug, PartialEq, Eq)]
pub struct Cargo<T> {
    /// The command.
    pub command: Command,
    /// The arguments, in their order.
    pub args: Vec<String>,
    /// The mark of the command.
    pub marker: T,
}

/// `args` with `flag` after them, unless `flag` is among them.
pub open spec fn with_flag(args: Seq<Seq<char>>, flag: Seq<char>) -> Seq<Seq<char>> {
    if args.contains(flag) {
        args
    } else {
        args.push(flag)
    }
}

/// Puts `flag` after `args`, unless it is among them.
fn add_flag(args: Vec<String>, flag: &str) -> (r: Vec<String>)
    ensures
        texts(r@) == with_flag(texts(args@), flag@),
{
    let mut i: usize = 0;
    while i < args.len()
        invariant
            i <= args.len(),
            forall|k: int| 0 <= k < i ==> args@[k]@ != flag@,
        decreases args.len() - i,
    {
        if same(args[i].as_str(), flag) {
            assert(texts(args@)[i as int] == flag@);
            return args;
        }
        i = i + 1;
    }
    proof {
        if texts(args@).contains(flag@) {
            let k = choose|k: int| 0 <= k < texts(args@).len() && texts(args@)[k] == flag@;
            assert(args@[k]@ != flag@);
        }
    }
    let mut out = args;
    out.push(flag.to_owned());
    assert(texts(out@) =~= texts(args@).push(flag@));
    out
}

impl<T> Cargo<T> {
    /// Puts `arg` after the arguments.
    pub fn add_arg(self, arg: &str) -> (r: Self)
        ensures
            r.command == self.command,
            r.marker == self.marker,
            texts(r.args@) == texts(self.args@).push(arg@),
    {
        let mut r = self;
        r.args.push(arg.to_owned());
        assert(texts(r.args@) =~= texts(self.args@).push(arg@));
        r
    }

    /// Puts `flag` after the arguments, unless it is among them.
    fn flag(self, flag: &str) -> (r: Self)
        ensures
            r.command == self.command,
            r.marker == self.marker,
            texts(r.args@) == with_flag(texts(self.args@), flag@),
    {
        Cargo { command: self.command, args: add_flag(self.args, flag), marker: self.marker }
    }
}

impl Cargo<Clean> {
    /// The command `cargo clean` without arguments.
    pub fn clean() -> (r: Cargo<Clean>)
        ensures
            r.command == Command::Clean,
            texts(r.args@) == Seq::<Seq<char>>::empty(),
    {
        let args: Vec<String> = Vec::new();
        assert(texts(args@) =~= Seq::<Seq<char>>::empty());
        Cargo { command: Command::Clean, args, marker: Clean }
    }
}

impl Cargo<Check> {
    /// The command `cargo check` without arguments.
    pub fn check() -> (r: Cargo<Check>)
        ensures
            r.command == Command::Check,
            texts(r.args@) == Seq::<Seq<char>>::empty(),
    {
        let args: Vec<String> = Vec::new();
        assert(texts(args@) =~= Seq::<Seq<char>>::empty());
        Cargo { command: Command::Check, args, marker: Check }
    }
}

impl Cargo<Test> {
    /// The command `cargo test` without arguments.
    pub fn test() -> (r: Cargo<Test>)
        ensures
            r.command == Command::Test,
            texts(r.args@) == Seq::<Seq<char>>::empty(),
    {
        let args: Vec<String> = Vec::new();
        assert(texts(args@) =~= Seq::<Seq<char>>::empty());
        Cargo { command: Command::Test, args, marker: Test }
    }

    /// Asks for all features, unless that is asked for already.
    pub fn all_features(self) -> (r: Self)
        ensures
            r.command == self.command,
            texts(r.args@) == with_flag(texts(self.args@), "--all-features"@),
    {
        self.flag("--all-features")
    }

    /// Asks for the whole workspace, unless that is asked for already.
    pub fn workspace(self) -> (r: Self)
        ensures
            r.command == self.command,
            texts(r.args@) == with_flag(texts(self.args@), "--workspace"@),
    {
        self.flag("--workspace")
    }
}

impl Cargo<Clippy> {
    /// The command `cargo clippy` without arguments.
    pub fn clippy() -> (r: Cargo<Clippy>)
        ensures
            r.command == Command::Clippy,
            texts(r.args@) == Seq::<Seq<char>>::empty(),
    {
        let args: Vec<String> = Vec::new();
        assert(texts(args@) =~= Seq::<Seq<char>>::empty());
        Cargo { command: Command::Clippy, args, marker: Clippy }
    }

    /// Asks for all features, unless that is asked for already.
    pub fn all_features(self) -> (r: Self)
        ensures
            r.command == self.command,
            texts(r.args@) == with_flag(texts(self.args@), "--all-features"@),
    {
        self.flag("--all-features")
    }

    /// Asks for the whole workspace, unless that is asked for already.
    pub fn workspace(self) -> (r: Self)
        ensures
            r.command == self.command,
            texts(r.args@) == with_flag(texts(self.args@), "--workspace"@),
    {
        self.flag("--workspace")
    }
}

impl Cargo<Fmt> {
    /// The command `cargo fmt` without arguments.
    pub fn fmt() -> (r: Cargo<Fmt>)
        ensures
            r.command == Command::Fmt,
            texts(r.args@) == Seq::<Seq<char>>::empty(),
    {
        let args: Vec<String> = Vec::new();
        assert(texts(args@) =~= Seq::<Seq<char>>::empty());
        Cargo { command: Command::Fmt, args, marker: Fmt }
    }

    /// Asks for all packages, unless that is asked for already.
    pub fn all(self) -> (r: Self)
        ensures
            r.command == self.command,
            texts(r.args@) == with_flag(texts(self.args@), "--all"@),
    {
        self.flag("--all")
    }

    /// Asks to check only, unless that is asked for already.
    pub fn check(self) -> (r: Self)
        ensures
            r.command == self.command,
            texts(r.args@) == with_flag(texts(self.args@), "--check"@),
    {
        self.flag("--check")
    }
}

/// The command line of a `cargo` command: `cargo`, the toolchain where one
/// is asked for, the command in small letters, and the arguments, each
/// after a blank.
pub open spec fn cargo_line(
    toolchain: Option<Seq<char>>,
    command: Command,
    args: Seq<Seq<char>>,
) -> Seq<char> {
    "cargo"@ + (match toolchain {
        Some(t) => " "@ + t,
        None => Seq::empty(),
    }) + " "@ + command.lower() + " "@ + joined(args, " "@)
}

/// The step that runs a `cargo` command, with the toolchain `toolchain`
/// where one is given.
fn cargo_command<T>(toolchain: Option<&str>, cargo: Cargo<T>) -> (r: Step<Run>)
    ensures
        r.deep_view() == (StepView {
            run: Some(
                cargo_line(
                    match toolchain {
                        Some(t) => Some(t@),
                        None => None,
                    },
                    cargo.command,
                    texts(cargo.args@),
                ),
            ),
            ..Step::<Run>::blank()
        }),
{
    let mut line = "cargo".to_owned();
    match toolchain {
        Some(t) => {
            line.append(" ");
            line.append(t);
            assert(line@ =~= "cargo"@ + (" "@ + t@));
        },
        None => {
            assert(line@ =~= "cargo"@ + Seq::<char>::empty());
        },
    }
    line.append(" ");
    line.append(cargo.command.lower_str());
    line.append(" ");
    line.append(join(&cargo.args, " ").as_str());
    Step::run(line.as_str())
}

impl Step<Run> {
    /// The step that runs the `cargo` command `cargo`.
    pub fn cargo<T>(cargo: Cargo<T>) -> (r: Self)
        ensures
            r.deep_view() == (StepView {
                run: Some(cargo_line(None, cargo.command, texts(cargo.args@))),
                ..Self::blank()
            }),
    {
        cargo_command(None, cargo)
    }

    /// The step that runs the `cargo` command `cargo` with the nightly
    /// toolchain.
    pub fn cargo_nightly<T>(cargo: Cargo<T>) -> (r: Self)
        ensures
            r.deep_view() == (StepView {
                run: Some(cargo_line(Some("+nightly"@), cargo.command, texts(cargo.args@))),
                ..Self::blank()
            }),
    {
        cargo_command(Some("+nightly"), cargo)
    }
}

} // verus!
