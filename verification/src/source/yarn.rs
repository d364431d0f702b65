//! Yarn 1: the global packages live under the directory `yarn global dir`
//! prints; yarn 2 and later removed global installs.
use vstd::prelude::*;

use super::{arg, at_latest, command_line, command_view, located_or, three, CommandLine};
use crate::model::SourceKind;
use crate::text::{chars_of, has_prefix, lines, lines_of, starts_with, string_of, trim, trimmed};

verus! {

pub struct Yarn {
    command: String,
}

/// What Globlin records when `yarn global dir` does not answer.
pub const BERRY_NOTE: &'static str =
    "yarn: \"yarn global dir\" did not answer; yarn 2+ removed global installs\n\n";

/// The lines yarn prints around the answer.
pub open spec fn chatter(line: Seq<char>) -> bool {
    ||| starts_with(line, "yarn "@)
    ||| starts_with(line, "warning"@)
    ||| starts_with(line, "info"@)
    ||| starts_with(line, "success"@)
    ||| starts_with(line, "error"@)
    ||| starts_with(line, "Done in"@)
}

/// The last non-empty trimmed line that is not chatter.
pub open spec fn last_answer(ls: Seq<Seq<char>>) -> Option<Seq<char>>
    decreases ls.len(),
{
    if ls.len() == 0 {
        None
    } else {
        let t = trim(ls.last());
        if t.len() > 0 && !chatter(t) {
            Some(t)
        } else {
            last_answer(ls.drop_last())
        }
    }
}

/// The directory in what `yarn global dir` printed.
pub open spec fn global_dir(stdout: Seq<char>) -> Option<Seq<char>> {
    last_answer(lines(stdout))
}

fn is_chatter(line: &Vec<char>) -> (r: bool)
    ensures
        r == chatter(line@),
{
    has_prefix(line, &chars_of("yarn ")) || has_prefix(line, &chars_of("warning")) || has_prefix(
        line,
        &chars_of("info"),
    ) || has_prefix(line, &chars_of("success")) || has_prefix(line, &chars_of("error"))
        || has_prefix(line, &chars_of("Done in"))
}

/// The global directory in what `yarn global dir` printed: the last line
/// that is not yarn's own chatter, taken as written.
pub fn parse_global_dir(stdout: &str) -> (r: Option<String>)
    ensures
        match r {
            Some(d) => global_dir(stdout@) == Some(d@),
            None => global_dir(stdout@) is None,
        },
{
    let text = chars_of(stdout);
    let ls = lines_of(&text);
    let ghost dl = crate::text::deep(ls@);
    let mut n = ls.len();
    assert(dl.take(n as int) == dl);
    while n > 0
        invariant
            n <= ls.len(),
            dl == crate::text::deep(ls@),
            global_dir(stdout@) == last_answer(dl.take(n as int)),
        decreases n,
    {
        assert(dl.take(n as int).drop_last() == dl.take(n - 1));
        let t = trimmed(&ls[n - 1]);
        if t.len() > 0 && !is_chatter(&t) {
            return Some(string_of(&t));
        }
        n -= 1;
    }
    None
}

impl Yarn {
    pub fn new(located: Option<String>) -> (r: Result<Yarn, String>)
        ensures
            match r {
                Ok(s) => located is Some && s.program() == located->0@,
                Err(e) => located is None && e@ == "yarn was not found on PATH"@,
            },
    {
        let command = located_or(located, "yarn was not found on PATH")?;
        Ok(Yarn { command })
    }

    pub closed spec fn program(&self) -> Seq<char> {
        self.command@
    }

    pub fn kind(&self) -> (k: SourceKind)
        ensures
            k == SourceKind::Yarn,
    {
        SourceKind::Yarn
    }

    pub fn update_command(&self, name: &str) -> (c: Option<CommandLine>)
        ensures
            c matches Some(c) && c@ == command_view(
                self.program(),
                seq!["global"@, "add"@, name@ + "@latest"@],
            ),
    {
        Some(command_line(&self.command, three(arg("global"), arg("add"), at_latest(name))))
    }

    pub fn uninstall_command(&self, name: &str) -> (c: Option<CommandLine>)
        ensures
            c matches Some(c) && c@ == command_view(
                self.program(),
                seq!["global"@, "remove"@, name@],
            ),
    {
        Some(command_line(&self.command, three(arg("global"), arg("remove"), arg(name))))
    }
}

} // verus!
