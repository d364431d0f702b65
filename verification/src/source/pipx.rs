//! pipx: the tools `pipx list --short` prints, one `name version` per line.
use vstd::prelude::*;

use super::{arg, collect_lines, command_line, command_view, located_or, two, word_pair, word_pair_of, CommandLine};
use crate::model::{installed_views, Installed, InstalledView, SourceKind};
use crate::text::{chars_of, lines, lines_of};

verus! {

pub struct Pipx {
    command: String,
}

/// The tools in what `pipx list --short` printed: every line of exactly two
/// words. Versions are kept as text, so calendar versions survive.
pub open spec fn listing(stdout: Seq<char>) -> Seq<InstalledView> {
    lines(stdout).filter_map(|l: Seq<char>| word_pair(l, SourceKind::Pipx))
}

pub fn parse_listing(stdout: &str) -> (r: Vec<Installed>)
    ensures
        installed_views(r@) == listing(stdout@),
{
    let text = chars_of(stdout);
    let ls = lines_of(&text);
    collect_lines(&ls, tool_line, Ghost(|l: Seq<char>| word_pair(l, SourceKind::Pipx)))
}

fn tool_line(line: &Vec<char>) -> (r: Option<Installed>)
    ensures
        super::opt_installed(r) == word_pair(line@, SourceKind::Pipx),
{
    word_pair_of(line, SourceKind::Pipx)
}

impl Pipx {
    pub fn new(located: Option<String>) -> (r: Result<Pipx, String>)
        ensures
            match r {
                Ok(s) => located is Some && s.program() == located->0@,
                Err(e) => located is None && e@ == "pipx was not found on PATH"@,
            },
    {
        let command = located_or(located, "pipx was not found on PATH")?;
        Ok(Pipx { command })
    }

    pub closed spec fn program(&self) -> Seq<char> {
        self.command@
    }

    pub fn kind(&self) -> (k: SourceKind)
        ensures
            k == SourceKind::Pipx,
    {
        SourceKind::Pipx
    }

    pub fn update_command(&self, name: &str) -> (c: Option<CommandLine>)
        ensures
            c matches Some(c) && c@ == command_view(self.program(), seq!["upgrade"@, name@]),
    {
        Some(command_line(&self.command, two(arg("upgrade"), arg(name))))
    }

    pub fn uninstall_command(&self, name: &str) -> (c: Option<CommandLine>)
        ensures
            c matches Some(c) && c@ == command_view(self.program(), seq!["uninstall"@, name@]),
    {
        Some(command_line(&self.command, two(arg("uninstall"), arg(name))))
    }
}

} // verus!
