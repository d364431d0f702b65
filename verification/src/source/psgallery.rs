//! The PowerShell Gallery: the modules `Get-InstalledModule` reports, one
//! `name version` per line, updated and removed through PowerShell itself.
use vstd::prelude::*;

use super::{
    arg, collect_lines, command_line, command_view, four, located_or, word_pair, word_pair_of,
    CommandLine,
};
use crate::model::{installed_views, Installed, InstalledView, SourceKind};
use crate::text::{chars_of, lines, lines_of, string_of};

verus! {

pub struct PsGallery {
    command: String,
}

/// The script that prints every installed module as `name version`.
pub const LISTING: &'static str =
    "Get-InstalledModule | ForEach-Object { $_.Name + ' ' + $_.Version.ToString() }";

/// Every single quote doubled, which is how a PowerShell single-quoted
/// string holds one.
pub open spec fn doubled_quotes(s: Seq<char>) -> Seq<char>
    decreases s.len(),
{
    if s.len() == 0 {
        Seq::empty()
    } else if s.last() == '\'' {
        doubled_quotes(s.drop_last()) + seq!['\'', '\'']
    } else {
        doubled_quotes(s.drop_last()).push(s.last())
    }
}

/// A module name as a PowerShell string literal, so that it can never become
/// script.
pub open spec fn quoted_name(name: Seq<char>) -> Seq<char> {
    seq!['\''] + doubled_quotes(name) + seq!['\'']
}

/// How PowerShell reads what follows the opening quote of a single-quoted
/// string: `''` stands for one quote and a lone `'` closes the string. The
/// value, where the closing quote is the last character; none where the
/// string never closes, or closes with text after it that PowerShell would
/// run as script.
pub open spec fn literal_value(s: Seq<char>) -> Option<Seq<char>>
    decreases s.len(),
{
    if s.len() == 0 {
        None
    } else if s[0] == '\'' {
        if s.len() == 1 {
            Some(Seq::empty())
        } else if s[1] == '\'' {
            match literal_value(s.skip(2)) {
                Some(v) => Some(seq!['\''] + v),
                None => None,
            }
        } else {
            None
        }
    } else {
        match literal_value(s.skip(1)) {
            Some(v) => Some(seq![s[0]] + v),
            None => None,
        }
    }
}

proof fn lemma_doubled_front(c: char, rest: Seq<char>)
    ensures
        doubled_quotes(seq![c] + rest) == (if c == '\'' {
            seq!['\'', '\'']
        } else {
            seq![c]
        }) + doubled_quotes(rest),
    decreases rest.len(),
{
    let s = seq![c] + rest;
    if rest.len() == 0 {
        assert(s.drop_last() =~= Seq::<char>::empty());
        assert(doubled_quotes(Seq::<char>::empty()) =~= Seq::<char>::empty());
        if c == '\'' {
            assert(doubled_quotes(s) =~= seq!['\'', '\'']);
        } else {
            assert(doubled_quotes(s) =~= seq![c]);
        }
    } else {
        assert(s.drop_last() =~= seq![c] + rest.drop_last());
        assert(s.last() == rest.last());
        lemma_doubled_front(c, rest.drop_last());
        let head = if c == '\'' {
            seq!['\'', '\'']
        } else {
            seq![c]
        };
        if rest.last() == '\'' {
            assert(doubled_quotes(s) =~= head + doubled_quotes(rest));
        } else {
            assert(doubled_quotes(s) =~= head + doubled_quotes(rest));
        }
    }
}

proof fn lemma_literal_value(name: Seq<char>)
    ensures
        literal_value(doubled_quotes(name) + seq!['\'']) == Some(name),
    decreases name.len(),
{
    if name.len() == 0 {
        assert(doubled_quotes(name) + seq!['\''] =~= seq!['\'']);
        assert(name =~= Seq::<char>::empty());
    } else {
        let c = name[0];
        let rest = name.skip(1);
        assert(name =~= seq![c] + rest);
        lemma_doubled_front(c, rest);
        lemma_literal_value(rest);
        let tail = doubled_quotes(rest) + seq!['\''];
        if c == '\'' {
            let s = seq!['\'', '\''] + tail;
            assert(doubled_quotes(name) + seq!['\''] =~= s);
            assert(s.skip(2) =~= tail);
            assert(seq!['\''] + rest =~= name);
        } else {
            let s = seq![c] + tail;
            assert(doubled_quotes(name) + seq!['\''] =~= s);
            assert(s.skip(1) =~= tail);
        }
    }
}

/// Whatever the name holds, its quoted form is one PowerShell string
/// literal and nothing else: it opens with a quote, and reading on closes
/// it exactly at the end with the name as its value, so no part of the name
/// can run as script.
pub proof fn lemma_quoted_name_is_one_literal(name: Seq<char>)
    ensures
        quoted_name(name)[0] == '\'',
        literal_value(quoted_name(name).skip(1)) == Some(name),
{
    assert(quoted_name(name).skip(1) =~= doubled_quotes(name) + seq!['\'']);
    lemma_literal_value(name);
}

pub open spec fn listing(stdout: Seq<char>) -> Seq<InstalledView> {
    lines(stdout).filter_map(|l: Seq<char>| word_pair(l, SourceKind::PsGallery))
}

pub open spec fn shell_args(script: Seq<char>) -> Seq<Seq<char>> {
    seq!["-NoProfile"@, "-NonInteractive"@, "-Command"@, script]
}

pub fn quoted(name: &str) -> (r: String)
    ensures
        r@ == quoted_name(name@),
{
    let text = chars_of(name);
    let mut out: Vec<char> = Vec::new();
    out.push('\'');
    let mut i: usize = 0;
    while i < text.len()
        invariant
            i <= text.len(),
            out@ == seq!['\''] + doubled_quotes(text@.take(i as int)),
        decreases text.len() - i,
    {
        assert(text@.take(i + 1).drop_last() == text@.take(i as int));
        if text[i] == '\'' {
            out.push('\'');
            out.push('\'');
        } else {
            out.push(text[i]);
        }
        i += 1;
    }
    assert(text@.take(text.len() as int) == text@);
    out.push('\'');
    string_of(&out)
}

fn module_line(line: &Vec<char>) -> (r: Option<Installed>)
    ensures
        super::opt_installed(r) == word_pair(line@, SourceKind::PsGallery),
{
    word_pair_of(line, SourceKind::PsGallery)
}

pub fn parse_listing(stdout: &str) -> (r: Vec<Installed>)
    ensures
        installed_views(r@) == listing(stdout@),
{
    let text = chars_of(stdout);
    let ls = lines_of(&text);
    collect_lines(&ls, module_line, Ghost(|l: Seq<char>| word_pair(l, SourceKind::PsGallery)))
}

impl PsGallery {
    pub fn new(located: Option<String>) -> (r: Result<PsGallery, String>)
        ensures
            match r {
                Ok(s) => located is Some && s.program() == located->0@,
                Err(e) => located is None && e@ == "no PowerShell was found on PATH"@,
            },
    {
        let command = located_or(located, "no PowerShell was found on PATH")?;
        Ok(PsGallery { command })
    }

    pub closed spec fn program(&self) -> Seq<char> {
        self.command@
    }

    pub fn kind(&self) -> (k: SourceKind)
        ensures
            k == SourceKind::PsGallery,
    {
        SourceKind::PsGallery
    }

    /// PowerShell, without a profile or prompts, running `script`.
    pub fn shell(&self, script: String) -> (c: CommandLine)
        ensures
            c@ == command_view(self.program(), shell_args(script@)),
    {
        command_line(
            &self.command,
            four(arg("-NoProfile"), arg("-NonInteractive"), arg("-Command"), script),
        )
    }

    pub fn update_command(&self, name: &str) -> (c: Option<CommandLine>)
        ensures
            c matches Some(c) && c@ == command_view(
                self.program(),
                shell_args(
                    "Update-Module -Name "@ + quoted_name(name@) + " -Scope CurrentUser -Force"@,
                ),
            ),
    {
        let mut script = String::from_str("Update-Module -Name ");
        script.append(quoted(name).as_str());
        script.append(" -Scope CurrentUser -Force");
        Some(self.shell(script))
    }

    pub fn uninstall_command(&self, name: &str) -> (c: Option<CommandLine>)
        ensures
            c matches Some(c) && c@ == command_view(
                self.program(),
                shell_args("Uninstall-Module -Name "@ + quoted_name(name@)),
            ),
    {
        let mut script = String::from_str("Uninstall-Module -Name ");
        script.append(quoted(name).as_str());
        Some(self.shell(script))
    }
}

} // verus!
