//! Expressions that point into the context of a run, such as
//! `{{ github.action }}`.

use crate::text::concat;
use crate::text::join;
use crate::text::joined;
use crate::text::texts;
use std::marker::PhantomData;
use vstd::prelude::*;
use vstd::string::StringExecFns;

verus! {

/// An expression that points at a value of the type `A`: the names on the
/// way from the root of the context to the value.
pub struct Expr<A> {
    marker: PhantomData<A>,
    path: Vec<String>,
}

/// The context `github` of a run.
pub struct Github {
    /// The name of the action that runs.
    pub action: String,
    /// The path of the action that runs.
    pub action_path: String,
}

impl<A> Expr<A> {
    /// The names on the way from the root to the value.
    pub closed spec fn path(&self) -> Seq<Seq<char>> {
        texts(self.path@)
    }

    /// The expression as it is written: the names with dots between,
    /// within double braces.
    pub open spec fn text(&self) -> Seq<char> {
        "{{ "@ + joined(self.path(), "."@) + " }}"@
    }

    /// The expression that points one name further, at a value of the
    /// type `B`.
    fn select<B>(&self, name: &str) -> (r: Expr<B>)
        ensures
            r.path() == self.path().push(name@),
    {
        let mut path = self.path.clone();
        assert(texts(path@) =~= texts(self.path@)) by {
            assert forall|i: int| 0 <= i < path@.len() implies path@[i]@ == self.path@[i]@ by {
                vstd::std_specs::vec::vec_clone_trigger(self.path, path);
            }
        }
        path.push(name.to_owned());
        assert(texts(path@) =~= texts(self.path@).push(name@));
        Expr { marker: PhantomData, path }
    }

    /// The expression as it is written.
    pub fn to_string(&self) -> (r: String)
        ensures
            r@ == self.text(),
    {
        let mut out = concat("{{ ", join(&self.path, ".").as_str());
        out.append(" }}");
        out
    }
}

impl Expr<Github> {
    /// The context `github`.
    pub fn github() -> (r: Self)
        ensures
            r.path() == seq!["github"@],
    {
        let mut path: Vec<String> = Vec::new();
        path.push("github".to_owned());
        assert(texts(path@) =~= seq!["github"@]);
        Expr { marker: PhantomData, path }
    }

    /// The name of the action that runs.
    pub fn action(&self) -> (r: Expr<String>)
        ensures
            r.path() == self.path().push("action"@),
    {
        self.select("action")
    }

    /// The path of the action that runs.
    pub fn action_path(&self) -> (r: Expr<String>)
        ensures
            r.path() == self.path().push("action_path"@),
    {
        self.select("action_path")
    }
}

} // verus!
