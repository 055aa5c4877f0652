//! The release of the Rust toolchain that a command asks for.

use vstd::prelude::*;

verus! {

/// A release of the toolchain, by channel or by name.
#[derive(Debug, Clone, PartialEq, Eq)]
pub enum Version {
    Stable,
    Nightly,
    Custom(String),
}

impl Version {
    /// The release with the name `s`.
    pub fn new(s: &str) -> (r: Self)
        ensures
            r matches Version::Custom(name) && name@ == s@,
    {
        Version::Custom(s.to_owned())
    }

    /// The name of the release: of a channel its name, else the name given.
    pub open spec fn text(&self) -> Seq<char> {
        match self {
            Version::Stable => "stable"@,
            Version::Nightly => "nightly"@,
            Version::Custom(s) => s@,
        }
    }

    /// The name of the release.
    pub fn to_string(&self) -> (r: String)
        ensures
            r@ == self.text(),
    {
        match self {
            Version::Stable => "stable".to_owned(),
            Version::Nightly => "nightly".to_owned(),
            Version::Custom(s) => s.clone(),
        }
    }
}

} // verus!
