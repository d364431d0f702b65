//! cargo: the crates `cargo install --list` prints as `name vX.Y.Z:` header
//! lines, each followed by the binaries it installed, indented.
use vstd::prelude::*;

use super::{arg, collect_lines, command_line, command_view, located_or, opt_installed, two, CommandLine};
use crate::model::{installed_view, installed_views, Installed, InstalledView, SourceKind};
use crate::text::{
    chars_of, is_whitespace, is_ws, lines, lines_of, split_once, split_once_at, strip_suffix,
    without_suffix,
};
use crate::version::{is_semver_chars, semver_accepts};

verus! {

pub struct Cargo {
    command: String,
}

/// A header line `name vVERSION:` whose version is one crates.io could
/// answer for; indented binary lines are not crates.
pub open spec fn header(line: Seq<char>) -> Option<InstalledView> {
    if line.len() > 0 && is_ws(line[0]) {
        None
    } else {
        match strip_suffix(line, ":"@) {
            None => None,
            Some(head) => match split_once(head, " v"@) {
                None => None,
                Some((name, version)) => if semver_accepts(version) {
                    Some(installed_view(name, version, SourceKind::Cargo, None))
                } else {
                    None
                },
            },
        }
    }
}

pub open spec fn listing(stdout: Seq<char>) -> Seq<InstalledView> {
    lines(stdout).filter_map(|l: Seq<char>| header(l))
}

fn header_line(line: &Vec<char>) -> (r: Option<Installed>)
    ensures
        opt_installed(r) == header(line@),
{
    if line.len() > 0 && is_whitespace(line[0]) {
        return None;
    }
    let colon = chars_of(":");
    let v = chars_of(" v");
    match without_suffix(line, &colon) {
        None => None,
        Some(head) => match split_once_at(&head, &v) {
            None => None,
            Some((name, version)) => if is_semver_chars(&version) {
                Some(Installed::from_chars(&name, &version, SourceKind::Cargo))
            } else {
                None
            },
        },
    }
}

pub fn parse_listing(stdout: &str) -> (r: Vec<Installed>)
    ensures
        installed_views(r@) == listing(stdout@),
{
    let text = chars_of(stdout);
    let ls = lines_of(&text);
    collect_lines(&ls, header_line, Ghost(|l: Seq<char>| header(l)))
}

impl Cargo {
    pub fn new(located: Option<String>) -> (r: Result<Cargo, String>)
        ensures
            match r {
                Ok(s) => located is Some && s.program() == located->0@,
                Err(e) => located is None && e@ == "cargo was not found on PATH"@,
            },
    {
        let command = located_or(located, "cargo was not found on PATH")?;
        Ok(Cargo { command })
    }

    pub closed spec fn program(&self) -> Seq<char> {
        self.command@
    }

    pub fn kind(&self) -> (k: SourceKind)
        ensures
            k == SourceKind::Cargo,
    {
        SourceKind::Cargo
    }

    /// Installing a crate again updates it to the newest release.
    pub fn update_command(&self, name: &str) -> (c: Option<CommandLine>)
        ensures
            c matches Some(c) && c@ == command_view(self.program(), seq!["install"@, name@]),
    {
        Some(command_line(&self.command, two(arg("install"), arg(name))))
    }

    pub fn uninstall_command(&self, name: &str) -> (c: Option<CommandLine>)
        ensures
            c matches Some(c) && c@ == command_view(self.program(), seq!["uninstall"@, name@]),
    {
        Some(command_line(&self.command, two(arg("uninstall"), arg(name))))
    }
}

} // verus!
