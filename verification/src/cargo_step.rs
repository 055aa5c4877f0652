//! A `cargo` command by its name, and the step that runs it.

use crate::settings::Expression;
use crate::step::extended;
use crate::step::Env;
use crate::step::Run;
use crate::step::Step;
use crate::step::StepView;
use crate::text::concat;
use crate::text::join;
use crate::text::joined;
use crate::text::split_words;
use crate::text::texts;
use crate::text::trim;
use crate::text::trimmed;
use crate::text::words;
use crate::tree::Node;
use crate::version::Version;
use vstd::prelude::*;

verus! {

/// A command of `cargo` and what it is run with.
#[derive(Debug, Clone)]
pub struct Cargo {
    /// The command, such as `fmt`, `clippy`, `build` or `test`.
    pub command: String,
    /// The identifier of the step.
    pub id: Option<String>,
    /// The name of the step.
    pub name: Option<String>,
    /// The toolchain that runs the command.
    pub toolchain: Option<Version>,
    /// The arguments of the command.
    pub args: Vec<String>,
    /// The environment variables of the step.
    pub env: Option<Env>,
    /// The condition under which the step runs.
    pub if_condition: Option<String>,
}

/// The arguments that go into the command line: each without the white
/// space around it, and none that is empty then.
pub open spec fn kept(args: Seq<Seq<char>>) -> Seq<Seq<char>>
    decreases args.len(),
{
    if args.len() == 0 {
        Seq::empty()
    } else if trimmed(args.last()).len() == 0 {
        kept(args.drop_last())
    } else {
        kept(args.drop_last()).push(trimmed(args.last()))
    }
}

/// The words of the command line: `cargo`, the toolchain after a plus
/// where one is set, the command, and the arguments that are kept.
pub open spec fn command_words(c: Cargo) -> Seq<Seq<char>> {
    let head = match c.toolchain {
        Some(t) => seq!["cargo"@, "+"@ + t.text(), c.command@],
        None => seq!["cargo"@, c.command@],
    };
    head + kept(texts(c.args@))
}

/// The environment of a field, or none.
pub open spec fn env_of(field: Option<Env>) -> Seq<(Seq<char>, Node)> {
    match field {
        Some(e) => e.deep_view(),
        None => Seq::empty(),
    }
}

impl Cargo {
    /// The command `cmd` with nothing else set.
    pub fn new(cmd: &str) -> (r: Cargo)
        ensures
            r.command@ == cmd@,
            r.id is None,
            r.name is None,
            r.toolchain is None,
            r.args@.len() == 0,
            r.env is None,
            r.if_condition is None,
    {
        Cargo {
            command: cmd.to_owned(),
            id: None,
            name: None,
            toolchain: None,
            args: Vec::new(),
            env: None,
            if_condition: None,
        }
    }

    /// Sets the command.
    pub fn command(self, value: &str) -> (r: Self)
        ensures
            r == (Cargo { command: r.command, ..self }),
            r.command@ == value@,
    {
        let mut r = self;
        r.command = value.to_owned();
        r
    }

    /// Sets the identifier of the step.
    pub fn id(self, value: &str) -> (r: Self)
        ensures
            r == (Cargo { id: r.id, ..self }),
            r.id matches Some(s) && s@ == value@,
    {
        let mut r = self;
        r.id = Some(value.to_owned());
        r
    }

    /// Sets the name of the step.
    pub fn name(self, value: &str) -> (r: Self)
        ensures
            r == (Cargo { name: r.name, ..self }),
            r.name matches Some(s) && s@ == value@,
    {
        let mut r = self;
        r.name = Some(value.to_owned());
        r
    }

    /// Sets the toolchain.
    pub fn toolchain(self, value: Version) -> (r: Self)
        ensures
            r == (Cargo { toolchain: Some(value), ..self }),
    {
        let mut r = self;
        r.toolchain = Some(value);
        r
    }

    /// Sets the environment variables of the step.
    pub fn env(self, value: Env) -> (r: Self)
        ensures
            r == (Cargo { env: Some(value), ..self }),
    {
        let mut r = self;
        r.env = Some(value);
        r
    }

    /// Sets the condition under which the step runs.
    pub fn if_condition(self, value: &str) -> (r: Self)
        ensures
            r == (Cargo { if_condition: r.if_condition, ..self }),
            r.if_condition matches Some(s) && s@ == value@,
    {
        let mut r = self;
        r.if_condition = Some(value.to_owned());
        r
    }

    /// The command with the variables of `new_env` added to its own: a name
    /// that is there already keeps its place and gets the new value.
    pub fn add_env(self, new_env: Env) -> (r: Self)
        ensures
            r == (Cargo { env: r.env, ..self }),
            r.env matches Some(e) && e.deep_view() == extended(
                env_of(self.env),
                new_env.deep_view(),
            ),
    {
        let mut r = self;
        let env = match r.env {
            Some(env) => env,
            None => Env::new(),
        };
        r.env = Some(env.extend(new_env));
        r
    }

    /// Asks for the nightly toolchain.
    pub fn nightly(self) -> (r: Self)
        ensures
            r == (Cargo { toolchain: Some(Version::Nightly), ..self }),
    {
        let mut r = self;
        r.toolchain = Some(Version::Nightly);
        r
    }

    /// Sets the arguments to the one argument `args`, in place of any that
    /// were set.
    pub fn args(self, args: &str) -> (r: Self)
        ensures
            r == (Cargo { args: r.args, ..self }),
            texts(r.args@) == seq![args@],
    {
        let mut r = self;
        let mut list: Vec<String> = Vec::new();
        list.push(args.to_owned());
        assert(texts(list@) =~= seq![args@]);
        r.args = list;
        r
    }

    /// Puts the words of `args` after the arguments.
    pub fn add_args(self, args: &str) -> (r: Self)
        ensures
            r == (Cargo { args: r.args, ..self }),
            texts(r.args@) == texts(self.args@) + words(args@),
    {
        let mut r = self;
        let mut more = split_words(args);
        let ghost before = r.args@;
        let ghost added = more@;
        r.args.append(&mut more);
        assert(texts(r.args@) =~= texts(before) + texts(added));
        r
    }

    /// Puts the words of `args` after the arguments where `when` holds, and
    /// leaves the command as it is where not.
    pub fn add_args_when(self, when: bool, args: &str) -> (r: Self)
        ensures
            r == (Cargo { args: r.args, ..self }),
            texts(r.args@) == if when {
                texts(self.args@) + words(args@)
            } else {
                texts(self.args@)
            },
    {
        if when {
            self.add_args(args)
        } else {
            self
        }
    }

    /// The step that runs the command: its command line is the words of
    /// the command with blanks between, and the identifier, the name, the
    /// environment and the condition are those of the command where they
    /// are set.
    pub fn to_step(self) -> (r: Step<Run>)
        ensures
            r.deep_view() == (StepView {
                run: Some(joined(command_words(self), " "@)),
                id: self.id.deep_view(),
                name: self.name.deep_view(),
                env: self.env.deep_view(),
                if_condition: self.if_condition.deep_view(),
                ..Step::<Run>::blank()
            }),
    {
        let mut command: Vec<String> = Vec::new();
        command.push("cargo".to_owned());
        match &self.toolchain {
            Some(toolchain) => {
                command.push(concat("+", toolchain.to_string().as_str()));
            },
            None => {},
        }
        command.push(self.command.clone());
        let ghost head = texts(command@);
        assert(head =~= match self.toolchain {
            Some(t) => seq!["cargo"@, "+"@ + t.text(), self.command@],
            None => seq!["cargo"@, self.command@],
        });

        let mut i: usize = 0;
        proof {
            assert(texts(self.args@).take(0) =~= Seq::<Seq<char>>::empty());
            assert(head + Seq::<Seq<char>>::empty() =~= head);
        }
        while i < self.args.len()
            invariant
                i <= self.args.len(),
                texts(command@) == head + kept(texts(self.args@).take(i as int)),
            decreases self.args.len() - i,
        {
            let arg = trim(self.args[i].as_str());
            proof {
                let before = texts(self.args@).take(i as int);
                let after = texts(self.args@).take(i + 1);
                assert(after.drop_last() =~= before);
                assert(after.last() == self.args@[i as int]@);
            }
            if !arg.as_str().is_empty() {
                let ghost sofar = texts(command@);
                command.push(arg);
                assert(texts(command@) =~= sofar.push(arg@));
                assert(texts(command@) =~= head + kept(texts(self.args@).take(i + 1)));
            }
            i = i + 1;
        }
        proof {
            assert(texts(self.args@).take(self.args@.len() as int) =~= texts(self.args@));
        }

        let mut step = Step::run(join(&command, " ").as_str());
        step.id = self.id;
        step.name = self.name;
        step.env = self.env;
        step.if_condition = match self.if_condition {
            Some(condition) => Some(Expression::new(condition.as_str())),
            None => None,
        };
        step
    }
}

} // verus!
