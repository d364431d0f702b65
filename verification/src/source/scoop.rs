//! Scoop: the apps under the scoop directory's `apps`, each with the version
//! its bucket offers.
use vstd::prelude::*;

use super::{arg, command_line, command_view, located_or, two, CommandLine};
use crate::model::{opt_view, SourceKind};

verus! {

pub struct Scoop {
    command: String,
    root: String,
}

/// A version or bucket name as read from a manifest: an empty one is none.
pub open spec fn present(v: Option<Seq<char>>) -> Option<Seq<char>> {
    match v {
        Some(s) => if s.len() > 0 {
            Some(s)
        } else {
            None
        },
        None => None,
    }
}

pub fn non_empty(v: Option<String>) -> (r: Option<String>)
    ensures
        opt_view(r) == present(opt_view(v)),
{
    match v {
        Some(s) => if s.as_str().is_empty() {
            None
        } else {
            Some(s)
        },
        None => None,
    }
}

impl Scoop {
    /// `located` is where the scoop program was found; `root` the scoop
    /// directory, when it has apps to read.
    pub fn new(located: Option<String>, root: Option<String>) -> (r: Result<Scoop, String>)
        ensures
            match r {
                Ok(s) => located is Some && root is Some && s.program() == located->0@ && s.apps_root()
                    == root->0@,
                Err(e) => (located is None && e@ == "scoop was not found on PATH"@) || (located is Some
                    && root is None && e@ == "the scoop directory has no apps to read"@),
            },
    {
        let command = located_or(located, "scoop was not found on PATH")?;
        let root = located_or(root, "the scoop directory has no apps to read")?;
        Ok(Scoop { command, root })
    }

    pub closed spec fn program(&self) -> Seq<char> {
        self.command@
    }

    pub closed spec fn apps_root(&self) -> Seq<char> {
        self.root@
    }

    pub fn root(&self) -> (r: String)
        ensures
            r@ == self.apps_root(),
    {
        self.root.clone()
    }

    pub fn kind(&self) -> (k: SourceKind)
        ensures
            k == SourceKind::Scoop,
    {
        SourceKind::Scoop
    }

    pub fn update_command(&self, name: &str) -> (c: Option<CommandLine>)
        ensures
            c matches Some(c) && c@ == command_view(self.program(), seq!["update"@, name@]),
    {
        Some(command_line(&self.command, two(arg("update"), arg(name))))
    }

    pub fn uninstall_command(&self, name: &str) -> (c: Option<CommandLine>)
        ensures
            c matches Some(c) && c@ == command_view(self.program(), seq!["uninstall"@, name@]),
    {
        Some(command_line(&self.command, two(arg("uninstall"), arg(name))))
    }
}

} // verus!
