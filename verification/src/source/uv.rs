//! uv: the tools `uv tool list` prints, with the upgrades that
//! `uv tool list --outdated` reports.
use vstd::prelude::*;

use super::{
    arg, collect_lines, collect_pairs, command_line, command_view, located_or, opt_installed,
    opt_pair, pair_views, resolve_all, resolved, three, CommandLine,
};
use crate::model::{installed_view, installed_views, Installed, InstalledView, SourceKind};
use crate::text::{
    chars_of, has_prefix, lines, lines_of, split_once, split_once_at, starts_with, strip_prefix, trim, trimmed,
    without_prefix, words, words_of,
};

verus! {

pub struct Uv {
    command: String,
}

/// A tool row: a name that is not an entry point (`- name`) and a
/// `v`-prefixed version.
pub open spec fn tool_row(line: Seq<char>) -> Option<(Seq<char>, Seq<char>)> {
    let w = words(line);
    if w.len() < 2 {
        None
    } else {
        match strip_prefix(w[1], "v"@) {
            None => None,
            Some(version) => if !starts_with(w[0], "-"@) && version.len() > 0 {
                Some((w[0], version))
            } else {
                None
            },
        }
    }
}

/// The version in a row's `[latest: …]` annotation.
pub open spec fn latest_marker(line: Seq<char>) -> Option<Seq<char>> {
    match split_once(line, "[latest: "@) {
        None => None,
        Some((_, rest)) => match split_once(rest, "]"@) {
            None => None,
            Some((version, _)) => if trim(version).len() > 0 {
                Some(trim(version))
            } else {
                None
            },
        },
    }
}

pub open spec fn tool_package(line: Seq<char>) -> Option<InstalledView> {
    match tool_row(line) {
        Some((name, version)) => Some(installed_view(name, version, SourceKind::Uv, None)),
        None => None,
    }
}

pub open spec fn upgrade_row(line: Seq<char>) -> Option<(Seq<char>, Seq<char>)> {
    match tool_row(line) {
        None => None,
        Some((name, _)) => match latest_marker(line) {
            Some(latest) => Some((name, latest)),
            None => None,
        },
    }
}

/// The tools in what `uv tool list` printed.
pub open spec fn listing(stdout: Seq<char>) -> Seq<InstalledView> {
    lines(stdout).filter_map(|l: Seq<char>| tool_package(l))
}

/// The upgrades in what `uv tool list --outdated` printed.
pub open spec fn upgrades(stdout: Seq<char>) -> Seq<(Seq<char>, Seq<char>)> {
    lines(stdout).filter_map(|l: Seq<char>| upgrade_row(l))
}

/// The listing with each tool's upgrade resolved: the version the outdated
/// report offers, the installed version where the report (which omits
/// current tools) does not name it, and nothing when the report failed.
pub open spec fn merged(listing_out: Seq<char>, outdated: Option<Seq<char>>) -> Seq<InstalledView> {
    let u = match outdated {
        Some(o) => Some(upgrades(o)),
        None => None,
    };
    listing(listing_out).map_values(|i: InstalledView| resolved(i, u))
}

fn row_of(line: &Vec<char>) -> (r: Option<(Vec<char>, Vec<char>)>)
    ensures
        opt_pair(r) == tool_row(line@),
{
    let w = words_of(line);
    if w.len() < 2 {
        return None;
    }
    let v = chars_of("v");
    let dash = chars_of("-");
    match without_prefix(&w[1], &v) {
        None => None,
        Some(version) => {
            if !has_prefix(&w[0], &dash) && version.len() > 0 {
                let name = w[0].clone();
                assert(name@ =~= w@[0]@);
                Some((name, version))
            } else {
                None
            }
        },
    }
}

fn latest_of(line: &Vec<char>) -> (r: Option<Vec<char>>)
    ensures
        match r {
            Some(v) => latest_marker(line@) == Some(v@),
            None => latest_marker(line@) is None,
        },
{
    let marker = chars_of("[latest: ");
    let close = chars_of("]");
    match split_once_at(line, &marker) {
        None => None,
        Some((_, rest)) => match split_once_at(&rest, &close) {
            None => None,
            Some((version, _)) => {
                let t = trimmed(&version);
                if t.len() > 0 {
                    Some(t)
                } else {
                    None
                }
            },
        },
    }
}

fn package_line(line: &Vec<char>) -> (r: Option<Installed>)
    ensures
        opt_installed(r) == tool_package(line@),
{
    match row_of(line) {
        Some((name, version)) => Some(Installed::from_chars(&name, &version, SourceKind::Uv)),
        None => None,
    }
}

fn upgrade_line(line: &Vec<char>) -> (r: Option<(Vec<char>, Vec<char>)>)
    ensures
        opt_pair(r) == upgrade_row(line@),
{
    match row_of(line) {
        None => None,
        Some((name, _)) => match latest_of(line) {
            Some(latest) => Some((name, latest)),
            None => None,
        },
    }
}

pub fn parse_listing(stdout: &str) -> (r: Vec<Installed>)
    ensures
        installed_views(r@) == listing(stdout@),
{
    let text = chars_of(stdout);
    let ls = lines_of(&text);
    collect_lines(&ls, package_line, Ghost(|l: Seq<char>| tool_package(l)))
}

pub fn parse_upgrades(stdout: &str) -> (r: Vec<(Vec<char>, Vec<char>)>)
    ensures
        pair_views(r@) == upgrades(stdout@),
{
    let text = chars_of(stdout);
    let ls = lines_of(&text);
    collect_pairs(&ls, upgrade_line, Ghost(|l: Seq<char>| upgrade_row(l)))
}

/// The tools from `uv tool list`, resolved against `uv tool list
/// --outdated` where that report was had.
pub fn merge(listing_out: &str, outdated: Option<&str>) -> (r: Vec<Installed>)
    ensures
        installed_views(r@) == merged(
            listing_out@,
            match outdated {
                Some(o) => Some(o@),
                None => None,
            },
        ),
{
    let items = parse_listing(listing_out);
    match outdated {
        Some(o) => {
            let u = parse_upgrades(o);
            resolve_all(items, Some(&u))
        },
        None => resolve_all(items, None),
    }
}

impl Uv {
    pub fn new(located: Option<String>) -> (r: Result<Uv, String>)
        ensures
            match r {
                Ok(s) => located is Some && s.program() == located->0@,
                Err(e) => located is None && e@ == "uv was not found on PATH"@,
            },
    {
        let command = located_or(located, "uv was not found on PATH")?;
        Ok(Uv { command })
    }

    pub closed spec fn program(&self) -> Seq<char> {
        self.command@
    }

    pub fn kind(&self) -> (k: SourceKind)
        ensures
            k == SourceKind::Uv,
    {
        SourceKind::Uv
    }

    pub fn update_command(&self, name: &str) -> (c: Option<CommandLine>)
        ensures
            c matches Some(c) && c@ == command_view(self.program(), seq!["tool"@, "upgrade"@, name@]),
    {
        Some(command_line(&self.command, three(arg("tool"), arg("upgrade"), arg(name))))
    }

    pub fn uninstall_command(&self, name: &str) -> (c: Option<CommandLine>)
        ensures
            c matches Some(c) && c@ == command_view(self.program(), seq!["tool"@, "uninstall"@, name@]),
    {
        Some(command_line(&self.command, three(arg("tool"), arg("uninstall"), arg(name))))
    }
}

} // verus!
