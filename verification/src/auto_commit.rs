//! The step that commits what the steps before it changed.

use crate::step::Run;
use crate::step::Step;
use crate::step::StepView;
use crate::text::concat;
use crate::text::join;
use crate::text::joined;
use crate::text::same;
use crate::text::texts;
use vstd::prelude::*;
use vstd::std_specs::convert::FromSpecImpl;
use vstd::string::StringExecFns;

verus! {

/// The branches on which nothing is committed.
#[derive(Debug, Clone, Default, PartialEq, Eq)]
pub struct SkipBranches(pub Vec<String>);

impl SkipBranches {
    /// Whether `branch` is among the branches.
    pub fn contains(&self, branch: &str) -> (r: bool)
        ensures
            r == texts(self.0@).contains(branch@),
    {
        let mut i: usize = 0;
        while i < self.0.len()
            invariant
                i <= self.0.len(),
                forall|k: int| 0 <= k < i ==> self.0@[k]@ != branch@,
            decreases self.0.len() - i,
        {
            if same(branch, self.0[i].as_str()) {
                assert(texts(self.0@)[i as int] == branch@);
                return true;
            }
            i = i + 1;
        }
        proof {
            if texts(self.0@).contains(branch@) {
                let k = choose|k: int|
                    0 <= k < texts(self.0@).len() && texts(self.0@)[k] == branch@;
                assert(self.0@[k]@ != branch@);
            }
        }
        false
    }

}

impl From<Vec<String>> for SkipBranches {
    fn from(branches: Vec<String>) -> (r: Self) {
        SkipBranches(branches)
    }
}

impl FromSpecImpl<Vec<String>> for SkipBranches {
    open spec fn obeys_from_spec() -> bool {
        true
    }

    open spec fn from_spec(branches: Vec<String>) -> Self {
        SkipBranches(branches)
    }
}

/// What the step that commits is asked for.
#[derive(Debug, Clone, PartialEq, Eq)]
pub struct AutoCommit {
    /// The message of the commit.
    pub message: String,
    /// The identifier of the step.
    pub id: Option<String>,
    /// The name of the step.
    pub name: Option<String>,
    /// The name of the one who commits; `github-actions` where unset.
    pub user_name: Option<String>,
    /// The address of the one who commits; `github-actions@github.com`
    /// where unset.
    pub user_email: Option<String>,
    /// The files to commit; every change where unset or empty.
    pub files: Option<Vec<String>>,
    /// Whether the commit is pushed; not where unset.
    pub push: Option<bool>,
    /// The branches on which nothing is committed; `main` where unset.
    pub skip_branches: Option<SkipBranches>,
}

/// The text of a field that is unset, or else its own.
pub open spec fn or_text(field: Option<String>, unset: Seq<char>) -> Seq<char> {
    match field {
        Some(s) => s@,
        None => unset,
    }
}

/// The branches on which nothing is committed.
pub open spec fn skipped(field: Option<SkipBranches>) -> Seq<Seq<char>> {
    match field {
        Some(branches) => texts(branches.0@),
        None => seq!["main"@],
    }
}

/// The command that stages the files.
pub open spec fn stage_command(files: Option<Vec<String>>) -> Seq<char> {
    match files {
        Some(files) => if files@.len() > 0 {
            "git add "@ + joined(texts(files@), " "@)
        } else {
            "git add ."@
        },
        None => "git add ."@,
    }
}

/// The commands of the step, in their order.
pub open spec fn commit_commands(c: AutoCommit) -> Seq<Seq<char>> {
    let first = seq![
        "[[ ! $GITHUB_REF =~ ^refs/heads/("@ + joined(skipped(c.skip_branches), "|"@)
            + ")$ ]] || (echo 'Skipping auto-commit on protected branch' && exit 0)"@,
        "git config --global user.name '"@ + or_text(c.user_name, "github-actions"@) + "'"@,
        "git config --global user.email '"@ + or_text(c.user_email, "github-actions@github.com"@)
            + "'"@,
        stage_command(c.files),
        "git commit -m \""@ + c.message@ + "\" || echo 'No changes to commit'"@,
    ];
    if c.push == Some(true) {
        first.push("git push"@)
    } else {
        first
    }
}

/// The script of the step: its commands, each run where the one before
/// went well.
pub open spec fn commit_script(c: AutoCommit) -> Seq<char> {
    joined(commit_commands(c), " && "@)
}

impl Default for AutoCommit {
    /// The commit of what a linter changed, by `github-actions`, on every
    /// branch but `main`.
    fn default() -> (r: Self)
        ensures
            r.message@ == "lint changes."@,
            r.id is None,
            r.name matches Some(s) && s@ == "Auto Commit"@,
            r.user_name matches Some(s) && s@ == "github-actions"@,
            r.user_email matches Some(s) && s@ == "github-actions@github.com"@,
            r.files is None,
            r.push is None,
            r.skip_branches matches Some(b) && texts(b.0@) == seq!["main"@],
    {
        let mut branches: Vec<String> = Vec::new();
        branches.push("main".to_owned());
        assert(texts(branches@) =~= seq!["main"@]);
        AutoCommit {
            message: "lint changes.".to_owned(),
            id: None,
            name: Some("Auto Commit".to_owned()),
            user_name: Some("github-actions".to_owned()),
            user_email: Some("github-actions@github.com".to_owned()),
            files: None,
            push: None,
            skip_branches: Some(SkipBranches(branches)),
        }
    }
}

impl AutoCommit {
    /// A commit with the message `msg` under the name `Auto Commit`, with
    /// nothing else set.
    pub fn new(msg: &str) -> (r: Self)
        ensures
            r.message@ == msg@,
            r.id is None,
            r.name matches Some(s) && s@ == "Auto Commit"@,
            r.user_name is None,
            r.user_email is None,
            r.files is None,
            r.push is None,
            r.skip_branches is None,
    {
        AutoCommit {
            message: msg.to_owned(),
            id: None,
            name: Some("Auto Commit".to_owned()),
            user_name: None,
            user_email: None,
            files: None,
            push: None,
            skip_branches: None,
        }
    }

    /// Sets the message of the commit.
    pub fn message(self, value: &str) -> (r: Self)
        ensures
            r == (AutoCommit { message: r.message, ..self }),
            r.message@ == value@,
    {
        let mut r = self;
        r.message = value.to_owned();
        r
    }

    /// Sets the identifier of the step.
    pub fn id(self, value: &str) -> (r: Self)
        ensures
            r == (AutoCommit { id: r.id, ..self }),
            r.id matches Some(s) && s@ == value@,
    {
        let mut r = self;
        r.id = Some(value.to_owned());
        r
    }

    /// Sets the name of the step.
    pub fn name(self, value: &str) -> (r: Self)
        ensures
            r == (AutoCommit { name: r.name, ..self }),
            r.name matches Some(s) && s@ == value@,
    {
        let mut r = self;
        r.name = Some(value.to_owned());
        r
    }

    /// Sets the name of the one who commits.
    pub fn user_name(self, value: &str) -> (r: Self)
        ensures
            r == (AutoCommit { user_name: r.user_name, ..self }),
            r.user_name matches Some(s) && s@ == value@,
    {
        let mut r = self;
        r.user_name = Some(value.to_owned());
        r
    }

    /// Sets the address of the one who commits.
    pub fn user_email(self, value: &str) -> (r: Self)
        ensures
            r == (AutoCommit { user_email: r.user_email, ..self }),
            r.user_email matches Some(s) && s@ == value@,
    {
        let mut r = self;
        r.user_email = Some(value.to_owned());
        r
    }

    /// Sets the files to commit.
    pub fn files(self, value: Vec<String>) -> (r: Self)
        ensures
            r == (AutoCommit { files: Some(value), ..self }),
    {
        let mut r = self;
        r.files = Some(value);
        r
    }

    /// Sets whether the commit is pushed.
    pub fn push(self, value: bool) -> (r: Self)
        ensures
            r == (AutoCommit { push: Some(value), ..self }),
    {
        let mut r = self;
        r.push = Some(value);
        r
    }

    /// Sets the branches on which nothing is committed.
    pub fn skip_branches(self, value: SkipBranches) -> (r: Self)
        ensures
            r == (AutoCommit { skip_branches: Some(value), ..self }),
    {
        let mut r = self;
        r.skip_branches = Some(value);
        r
    }

    /// The step that runs the script of this commit, under the identifier
    /// and the name of the commit where they are set.
    pub fn to_step(self) -> (r: Step<Run>)
        ensures
            r.deep_view() == (StepView {
                run: Some(commit_script(self)),
                id: self.id.deep_view(),
                name: self.name.deep_view(),
                ..Step::<Run>::blank()
            }),
    {
        let mut commands: Vec<String> = Vec::new();

        let branches = match &self.skip_branches {
            Some(branches) => join(&branches.0, "|"),
            None => {
                let mut main: Vec<String> = Vec::new();
                main.push("main".to_owned());
                assert(texts(main@) =~= seq!["main"@]);
                join(&main, "|")
            },
        };
        let mut guard = concat("[[ ! $GITHUB_REF =~ ^refs/heads/(", branches.as_str());
        guard.append(")$ ]] || (echo 'Skipping auto-commit on protected branch' && exit 0)");
        commands.push(guard);

        let mut user = "git config --global user.name '".to_owned();
        match &self.user_name {
            Some(name) => user.append(name.as_str()),
            None => user.append("github-actions"),
        }
        user.append("'");
        commands.push(user);

        let mut email = "git config --global user.email '".to_owned();
        match &self.user_email {
            Some(address) => email.append(address.as_str()),
            None => email.append("github-actions@github.com"),
        }
        email.append("'");
        commands.push(email);

        let stage = match &self.files {
            Some(files) => if files.len() > 0 {
                concat("git add ", join(files, " ").as_str())
            } else {
                "git add .".to_owned()
            },
            None => "git add .".to_owned(),
        };
        commands.push(stage);

        let mut commit = concat("git commit -m \"", self.message.as_str());
        commit.append("\" || echo 'No changes to commit'");
        commands.push(commit);

        let push = match self.push {
            Some(push) => push,
            None => false,
        };
        if push {
            commands.push("git push".to_owned());
        }
        assert(texts(commands@) =~= commit_commands(self));

        let mut step = Step::run(join(&commands, " && ").as_str());
        step.id = self.id;
        step.name = self.name;
        step
    }
}

} // verus!
