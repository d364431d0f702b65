//! .NET: the global tools `dotnet tool list --global` reports, as JSON on a
//! current SDK and as a table on an older one.
use vstd::prelude::*;

use super::{arg, command_line, command_view, four, located_or, CommandLine};
use crate::model::{installed_view, installed_views, Installed, InstalledView, SourceKind};
use crate::text::{chars_of, deep, lines, lines_of, trim, trimmed, words, words_of};

verus! {

pub struct Dotnet {
    command: String,
}

/// The dashes (and blanks) under the table's header.
pub open spec fn separator_line(line: Seq<char>) -> bool {
    let t = trim(line);
    t.len() > 0 && forall|i: int| 0 <= i < t.len() ==> (t[i] == '-' || t[i] == ' ')
}

pub open spec fn separator_from(ls: Seq<Seq<char>>, i: int) -> Option<int>
    decreases ls.len() - i,
{
    if i < 0 || i >= ls.len() {
        None
    } else if separator_line(ls[i]) {
        Some(i)
    } else {
        separator_from(ls, i + 1)
    }
}

pub open spec fn table_row(line: Seq<char>) -> Option<InstalledView> {
    let w = words(line);
    if w.len() >= 2 {
        Some(installed_view(w[0], w[1], SourceKind::Dotnet, None))
    } else {
        None
    }
}

/// The tools in the table an older SDK prints: every row of two or more
/// words under the line of dashes; the (localised) header above it never
/// counts.
pub open spec fn table(stdout: Seq<char>) -> Seq<InstalledView> {
    let ls = lines(stdout);
    match separator_from(ls, 0) {
        None => Seq::empty(),
        Some(sep) => ls.skip(sep + 1).filter_map(|l: Seq<char>| table_row(l)),
    }
}

/// The tools in the JSON listing, given its `(packageId, version)` entries:
/// those with both present.
pub open spec fn json_tools(entries: Seq<(Seq<char>, Seq<char>)>) -> Seq<InstalledView> {
    entries.filter_map(
        |e: (Seq<char>, Seq<char>)|
            if e.0.len() > 0 && e.1.len() > 0 {
                Some(installed_view(e.0, e.1, SourceKind::Dotnet, None))
            } else {
                None
            },
    )
}

fn is_separator(line: &Vec<char>) -> (r: bool)
    ensures
        r == separator_line(line@),
{
    let t = trimmed(line);
    if t.len() == 0 {
        return false;
    }
    let mut i: usize = 0;
    while i < t.len()
        invariant
            i <= t.len(),
            t@ == trim(line@),
            t.len() > 0,
            forall|j: int| 0 <= j < i ==> (t@[j] == '-' || t@[j] == ' '),
        decreases t.len() - i,
    {
        if t[i] != '-' && t[i] != ' ' {
            assert(!(t@[i as int] == '-' || t@[i as int] == ' '));
            return false;
        }
        i += 1;
    }
    true
}

pub fn parse_table(stdout: &str) -> (r: Vec<Installed>)
    ensures
        installed_views(r@) == table(stdout@),
{
    let text = chars_of(stdout);
    let ls = lines_of(&text);
    let ghost dl = deep(ls@);
    let mut sep: usize = 0;
    while sep < ls.len() && !is_separator(&ls[sep])
        invariant
            sep <= ls.len(),
            dl == deep(ls@),
            separator_from(dl, 0) == separator_from(dl, sep as int),
        decreases ls.len() - sep,
    {
        sep += 1;
    }
    let mut out: Vec<Installed> = Vec::new();
    if sep == ls.len() {
        return out;
    }
    let ghost rows = dl.skip(sep + 1);
    let ghost f = |l: Seq<char>| table_row(l);
    let mut k: usize = sep + 1;
    while k < ls.len()
        invariant
            sep + 1 <= k <= ls.len(),
            dl == deep(ls@),
            rows == dl.skip(sep + 1),
            f == (|l: Seq<char>| table_row(l)),
            installed_views(out@) == rows.take(k - (sep + 1)).filter_map(f),
        decreases ls.len() - k,
    {
        let w = words_of(&ls[k]);
        proof {
            crate::text::lemma_filter_map_step(rows, k - (sep + 1), f);
            assert(rows[k - (sep + 1)] == dl[k as int]);
        }
        if w.len() >= 2 {
            let item = Installed::from_chars(&w[0], &w[1], SourceKind::Dotnet);
            let ghost before = installed_views(out@);
            out.push(item);
            assert(installed_views(out@) == before.push(item@));
        }
        k += 1;
    }
    proof {
        crate::text::lemma_take_all(rows);
    }
    out
}

/// The tools in the JSON listing, from its `(packageId, version)` entries.
pub fn from_json_entries(entries: Vec<(String, String)>) -> (r: Vec<Installed>)
    ensures
        installed_views(r@) == json_tools(entries@.map_values(|e: (String, String)| (e.0@, e.1@))),
{
    let ghost es = entries@.map_values(|e: (String, String)| (e.0@, e.1@));
    let ghost f = |e: (Seq<char>, Seq<char>)|
        if e.0.len() > 0 && e.1.len() > 0 {
            Some(installed_view(e.0, e.1, SourceKind::Dotnet, None))
        } else {
            None
        };
    let mut out: Vec<Installed> = Vec::new();
    let mut i: usize = 0;
    while i < entries.len()
        invariant
            i <= entries.len(),
            es == entries@.map_values(|e: (String, String)| (e.0@, e.1@)),
            f == (|e: (Seq<char>, Seq<char>)|
                if e.0.len() > 0 && e.1.len() > 0 {
                    Some(installed_view(e.0, e.1, SourceKind::Dotnet, None))
                } else {
                    None
                }),
            installed_views(out@) == es.take(i as int).filter_map(f),
        decreases entries.len() - i,
    {
        proof {
            crate::text::lemma_filter_map_step(es, i as int, f);
        }
        let (id, version) = (&entries[i].0, &entries[i].1);
        if !id.as_str().is_empty() && !version.as_str().is_empty() {
            let item = Installed::new(id.clone(), version.clone(), SourceKind::Dotnet);
            let ghost before = installed_views(out@);
            out.push(item);
            assert(installed_views(out@) == before.push(item@));
        }
        i += 1;
    }
    proof {
        crate::text::lemma_take_all(es);
    }
    out
}

impl Dotnet {
    pub fn new(located: Option<String>) -> (r: Result<Dotnet, String>)
        ensures
            match r {
                Ok(s) => located is Some && s.program() == located->0@,
                Err(e) => located is None && e@ == "dotnet was not found on PATH"@,
            },
    {
        let command = located_or(located, "dotnet was not found on PATH")?;
        Ok(Dotnet { command })
    }

    pub closed spec fn program(&self) -> Seq<char> {
        self.command@
    }

    pub fn kind(&self) -> (k: SourceKind)
        ensures
            k == SourceKind::Dotnet,
    {
        SourceKind::Dotnet
    }

    pub fn update_command(&self, name: &str) -> (c: Option<CommandLine>)
        ensures
            c matches Some(c) && c@ == command_view(
                self.program(),
                seq!["tool"@, "update"@, "--global"@, name@],
            ),
    {
        Some(command_line(&self.command, four(arg("tool"), arg("update"), arg("--global"), arg(name))))
    }

    pub fn uninstall_command(&self, name: &str) -> (c: Option<CommandLine>)
        ensures
            c matches Some(c) && c@ == command_view(
                self.program(),
                seq!["tool"@, "uninstall"@, "--global"@, name@],
            ),
    {
        Some(
            command_line(&self.command, four(arg("tool"), arg("uninstall"), arg("--global"), arg(name))),
        )
    }
}

} // verus!
