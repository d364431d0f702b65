//! npm: the global packages `npm ls -g --json --depth=0` reports.
use vstd::prelude::*;

use super::{
    arg, at_latest, command_line, command_view, entry_views, keep_versioned, three,
    versioned, CommandLine,
};
use crate::model::{installed_views, Installed, InstalledView, SourceKind};

verus! {

pub struct Npm {
    command: String,
}

/// Where npm is found when the config names no usable `npm_cmd`: what the
/// config names if that is a file, else what the search of `PATH` found,
/// else npm's default install location.
pub open spec fn resolved(
    configured: Option<Seq<char>>,
    on_path: Option<Seq<char>>,
    default_location: Option<Seq<char>>,
) -> Option<Seq<char>> {
    if configured is Some {
        configured
    } else if on_path is Some {
        on_path
    } else {
        default_location
    }
}

pub open spec fn opt_chars(o: Option<String>) -> Option<Seq<char>> {
    crate::model::opt_view(o)
}

/// The first of the three places that holds npm.
pub fn resolve(
    configured: Option<String>,
    on_path: Option<String>,
    default_location: Option<String>,
) -> (r: Option<String>)
    ensures
        opt_chars(r) == resolved(opt_chars(configured), opt_chars(on_path), opt_chars(default_location)),
{
    match configured {
        Some(path) => Some(path),
        None => match on_path {
            Some(path) => Some(path),
            None => default_location,
        },
    }
}

/// The packages in npm's listing, given its `dependencies` as
/// `(name, version)` entries in the listing's order: those whose version is
/// present and semver, as npm packages.
pub open spec fn listing(dependencies: Seq<(Seq<char>, Option<Seq<char>>)>) -> Seq<InstalledView> {
    dependencies.filter_map(|e: (Seq<char>, Option<Seq<char>>)| versioned(e, SourceKind::Npm))
}

pub fn from_dependencies(dependencies: &Vec<(String, Option<String>)>) -> (r: Vec<Installed>)
    ensures
        installed_views(r@) == listing(entry_views(dependencies@)),
{
    keep_versioned(dependencies, SourceKind::Npm)
}

/// Why npm cannot be used, where `executable` is the file searched for
/// (`npm.cmd` on Windows, `npm` elsewhere).
pub open spec fn missing(executable: Seq<char>) -> Seq<char> {
    executable + " was not found on PATH; set \"npm_cmd\" in the config file"@
}

impl Npm {
    /// npm at `located`; `executable` is the file name that was searched
    /// for, which the error names when nothing was found.
    pub fn new(located: Option<String>, executable: &str) -> (r: Result<Npm, String>)
        ensures
            match r {
                Ok(s) => located is Some && s.program() == located->0@,
                Err(e) => located is None && e@ == missing(executable@),
            },
    {
        match located {
            Some(command) => Ok(Npm { command }),
            None => {
                let mut e = String::from_str(executable);
                e.append(" was not found on PATH; set \"npm_cmd\" in the config file");
                Err(e)
            },
        }
    }

    pub closed spec fn program(&self) -> Seq<char> {
        self.command@
    }

    pub fn kind(&self) -> (k: SourceKind)
        ensures
            k == SourceKind::Npm,
    {
        SourceKind::Npm
    }

    pub fn update_command(&self, name: &str) -> (c: Option<CommandLine>)
        ensures
            c matches Some(c) && c@ == command_view(
                self.program(),
                seq!["install"@, "-g"@, name@ + "@latest"@],
            ),
    {
        Some(command_line(&self.command, three(arg("install"), arg("-g"), at_latest(name))))
    }

    pub fn uninstall_command(&self, name: &str) -> (c: Option<CommandLine>)
        ensures
            c matches Some(c) && c@ == command_view(
                self.program(),
                seq!["uninstall"@, "-g"@, name@],
            ),
    {
        Some(command_line(&self.command, three(arg("uninstall"), arg("-g"), arg(name))))
    }
}


/// Where npm is taken from: the configured file whenever there is one; with
/// none, the one the search of `PATH` found whenever it found one; the
/// default install location only when neither is there.
pub proof fn lemma_path_wins_over_the_default_location(
    configured: Option<Seq<char>>,
    on_path: Option<Seq<char>>,
    default_location: Option<Seq<char>>,
)
    ensures
        configured is Some ==> resolved(configured, on_path, default_location) == configured,
        configured is None && on_path is Some ==> resolved(configured, on_path, default_location)
            == on_path,
        configured is None && on_path is None ==> resolved(configured, on_path, default_location)
            == default_location,
{
}

} // verus!
