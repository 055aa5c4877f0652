//! Flags for the Rust compiler, as they go into `RUSTFLAGS`.

use crate::step::Env;
use crate::text::concat;
use crate::tree::Node;
use vstd::prelude::*;
use vstd::string::StringExecFns;

verus! {

/// What a flag asks of the compiler.
#[derive(Debug, Clone, Copy, PartialEq, Eq, Structural)]
pub enum Lint {
    Allow,
    Warn,
    Deny,
    Forbid,
    Codegen,
    Experiment,
}

impl Lint {
    /// The letters that a flag of this kind begins with.
    pub open spec fn prefix(self) -> Seq<char> {
        match self {
            Lint::Allow => "-A"@,
            Lint::Warn => "-W"@,
            Lint::Deny => "-D"@,
            Lint::Forbid => "-F"@,
            Lint::Codegen => "-C"@,
            Lint::Experiment => "-Z"@,
        }
    }

    /// The letters that a flag of this kind begins with.
    pub fn as_str(&self) -> (s: &'static str)
        ensures
            s@ == self.prefix(),
    {
        match self {
            Lint::Allow => "-A",
            Lint::Warn => "-W",
            Lint::Deny => "-D",
            Lint::Forbid => "-F",
            Lint::Codegen => "-C",
            Lint::Experiment => "-Z",
        }
    }
}

/// One flag, or two sets of flags put together.
#[derive(Debug)]
pub enum RustFlags {
    Lint(String, Lint),
    Combine(Box<RustFlags>, Box<RustFlags>),
}

impl Clone for RustFlags {
    fn clone(&self) -> (r: Self) {
        self.duplicate()
    }
}

impl RustFlags {
    /// The flags as they are written: a flag is its prefix and its name,
    /// and two sets are written one after the other with a blank between.
    pub open spec fn text(&self) -> Seq<char>
        decreases self,
    {
        match self {
            RustFlags::Lint(name, lint) => lint.prefix() + name@,
            RustFlags::Combine(lhs, rhs) => lhs.text() + " "@ + rhs.text(),
        }
    }

    /// A copy of the flags.
    pub fn duplicate(&self) -> (r: RustFlags)
        ensures
            r.text() == self.text(),
        decreases self,
    {
        match self {
            RustFlags::Lint(name, lint) => RustFlags::Lint(name.clone(), *lint),
            RustFlags::Combine(lhs, rhs) => RustFlags::Combine(
                Box::new(lhs.duplicate()),
                Box::new(rhs.duplicate()),
            ),
        }
    }

    /// The flag that allows the lint `name`.
    pub fn allow(name: &str) -> (r: Self)
        ensures
            r matches RustFlags::Lint(s, Lint::Allow) && s@ == name@,
    {
        RustFlags::Lint(name.to_owned(), Lint::Allow)
    }

    /// The flag that warns of the lint `name`.
    pub fn warn(name: &str) -> (r: Self)
        ensures
            r matches RustFlags::Lint(s, Lint::Warn) && s@ == name@,
    {
        RustFlags::Lint(name.to_owned(), Lint::Warn)
    }

    /// The flag that denies the lint `name`.
    pub fn deny(name: &str) -> (r: Self)
        ensures
            r matches RustFlags::Lint(s, Lint::Deny) && s@ == name@,
    {
        RustFlags::Lint(name.to_owned(), Lint::Deny)
    }

    /// The flag that forbids the lint `name`.
    pub fn forbid(name: &str) -> (r: Self)
        ensures
            r matches RustFlags::Lint(s, Lint::Forbid) && s@ == name@,
    {
        RustFlags::Lint(name.to_owned(), Lint::Forbid)
    }

    /// The flag that sets the code generation option `name`.
    pub fn codegen(name: &str) -> (r: Self)
        ensures
            r matches RustFlags::Lint(s, Lint::Codegen) && s@ == name@,
    {
        RustFlags::Lint(name.to_owned(), Lint::Codegen)
    }

    /// These flags with the flags `rhs` after them.
    pub fn combine(self, rhs: RustFlags) -> (r: Self)
        ensures
            r == RustFlags::Combine(Box::new(self), Box::new(rhs)),
    {
        RustFlags::Combine(Box::new(self), Box::new(rhs))
    }

    /// The flags as they are written.
    pub fn to_string(&self) -> (r: String)
        ensures
            r@ == self.text(),
        decreases self,
    {
        match self {
            RustFlags::Lint(name, lint) => concat(lint.as_str(), name.as_str()),
            RustFlags::Combine(lhs, rhs) => {
                let mut out = lhs.to_string();
                out.append(" ");
                out.append(rhs.to_string().as_str());
                out
            },
        }
    }

    /// The environment in which `RUSTFLAGS` holds these flags.
    pub fn to_env(&self) -> (r: Env)
        ensures
            r.deep_view() == seq![("RUSTFLAGS"@, Node::Str(self.text()))],
    {
        Env::from_pair("RUSTFLAGS", self.to_string().as_str())
    }
}

} // verus!
