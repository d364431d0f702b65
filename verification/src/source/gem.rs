//! RubyGems: the gems `gem list --local` prints, with the upgrades that
//! `gem outdated` reports.
use vstd::prelude::*;

use super::{
    arg, collect_lines, collect_pairs, command_line, command_view, four, located_or, opt_installed,
    opt_pair, pair_views, resolve_all, resolved, two, CommandLine,
};
use crate::model::{installed_view, installed_views, Installed, InstalledView, SourceKind};
use crate::text::{
    chars_of, has_char, lines, lines_of, same, split_once, split_once_at, strip_prefix,
    strip_suffix, trim, trimmed, without_prefix, without_suffix, words, words_of,
};

verus! {

pub struct Gem {
    command: String,
}

/// `name (inside)`: a one-word name and a non-empty bracketed part.
pub open spec fn parenthesised(line: Seq<char>) -> Option<(Seq<char>, Seq<char>)> {
    match split_once(trim(line), " ("@) {
        None => None,
        Some((name, rest)) => match strip_suffix(rest, ")"@) {
            None => None,
            Some(inner) => if name.len() > 0 && !name.contains(' ') && inner.len() > 0 {
                Some((name, inner))
            } else {
                None
            },
        },
    }
}

/// The first item of a `, `-separated list.
pub open spec fn first_item(s: Seq<char>) -> Seq<char> {
    match split_once(s, ", "@) {
        Some((first, _)) => first,
        None => s,
    }
}

/// A listed gem: its newest installed version, without a `default: `
/// marker or a platform label.
pub open spec fn listed(line: Seq<char>) -> Option<InstalledView> {
    match parenthesised(line) {
        None => None,
        Some((name, versions)) => {
            let newest = first_item(versions);
            let newest = match strip_prefix(newest, "default: "@) {
                Some(rest) => rest,
                None => newest,
            };
            let w = words(newest);
            if w.len() == 0 {
                None
            } else {
                Some(installed_view(name, w[0], SourceKind::Gem, None))
            }
        },
    }
}

/// An outdated gem: `name (current < latest, …)` offers the first candidate,
/// unless it is the version already installed.
pub open spec fn outdated_row(line: Seq<char>) -> Option<(Seq<char>, Seq<char>)> {
    match parenthesised(line) {
        None => None,
        Some((name, versions)) => match split_once(versions, " < "@) {
            None => None,
            Some((current, remote)) => {
                let latest = trim(first_item(remote));
                if latest.len() > 0 && latest != trim(current) {
                    Some((name, latest))
                } else {
                    None
                }
            },
        },
    }
}

pub open spec fn listing(stdout: Seq<char>) -> Seq<InstalledView> {
    lines(stdout).filter_map(|l: Seq<char>| listed(l))
}

pub open spec fn upgrades(stdout: Seq<char>) -> Seq<(Seq<char>, Seq<char>)> {
    lines(stdout).filter_map(|l: Seq<char>| outdated_row(l))
}

/// The listing with each gem's upgrade resolved: what `gem outdated`
/// offers, the installed version where a successful report does not name
/// the gem, and nothing when the report failed.
pub open spec fn merged(listing_out: Seq<char>, outdated: Option<Seq<char>>) -> Seq<InstalledView> {
    let u = match outdated {
        Some(o) => Some(upgrades(o)),
        None => None,
    };
    listing(listing_out).map_values(|i: InstalledView| resolved(i, u))
}

fn parenthesised_of(line: &Vec<char>) -> (r: Option<(Vec<char>, Vec<char>)>)
    ensures
        opt_pair(r) == parenthesised(line@),
{
    let t = trimmed(line);
    let open = chars_of(" (");
    let close = chars_of(")");
    match split_once_at(&t, &open) {
        None => None,
        Some((name, rest)) => match without_suffix(&rest, &close) {
            None => None,
            Some(inner) => {
                if name.len() > 0 && !has_char(&name, ' ') && inner.len() > 0 {
                    Some((name, inner))
                } else {
                    None
                }
            },
        },
    }
}

fn first_item_of(s: &Vec<char>) -> (r: Vec<char>)
    ensures
        r@ == first_item(s@),
{
    let comma = chars_of(", ");
    match split_once_at(s, &comma) {
        Some((first, _)) => first,
        None => s.clone(),
    }
}

fn listed_line(line: &Vec<char>) -> (r: Option<Installed>)
    ensures
        opt_installed(r) == listed(line@),
{
    match parenthesised_of(line) {
        None => None,
        Some((name, versions)) => {
            let newest = first_item_of(&versions);
            let marker = chars_of("default: ");
            let newest = match without_prefix(&newest, &marker) {
                Some(rest) => rest,
                None => newest,
            };
            let w = words_of(&newest);
            if w.len() == 0 {
                None
            } else {
                Some(Installed::from_chars(&name, &w[0], SourceKind::Gem))
            }
        },
    }
}

fn outdated_line(line: &Vec<char>) -> (r: Option<(Vec<char>, Vec<char>)>)
    ensures
        opt_pair(r) == outdated_row(line@),
{
    match parenthesised_of(line) {
        None => None,
        Some((name, versions)) => {
            let less = chars_of(" < ");
            match split_once_at(&versions, &less) {
                None => None,
                Some((current, remote)) => {
                    let latest = trimmed(&first_item_of(&remote));
                    if latest.len() > 0 && !same(&latest, &trimmed(&current)) {
                        Some((name, latest))
                    } else {
                        None
                    }
                },
            }
        },
    }
}

pub fn parse_listing(stdout: &str) -> (r: Vec<Installed>)
    ensures
        installed_views(r@) == listing(stdout@),
{
    let text = chars_of(stdout);
    let ls = lines_of(&text);
    collect_lines(&ls, listed_line, Ghost(|l: Seq<char>| listed(l)))
}

pub fn parse_outdated(stdout: &str) -> (r: Vec<(Vec<char>, Vec<char>)>)
    ensures
        pair_views(r@) == upgrades(stdout@),
{
    let text = chars_of(stdout);
    let ls = lines_of(&text);
    collect_pairs(&ls, outdated_line, Ghost(|l: Seq<char>| outdated_row(l)))
}

/// The gems from `gem list --local`, resolved against `gem outdated` where
/// that report was had.
pub fn merge(listing_out: &str, outdated: Option<&str>) -> (r: Vec<Installed>)
    ensures
        installed_views(r@) == merged(
            listing_out@,
            match outdated {
                Some(o) => Some(o@),
                None => None,
            },
        ),
{
    let items = parse_listing(listing_out);
    match outdated {
        Some(o) => {
            let u = parse_outdated(o);
            resolve_all(items, Some(&u))
        },
        None => resolve_all(items, None),
    }
}

impl Gem {
    pub fn new(located: Option<String>) -> (r: Result<Gem, String>)
        ensures
            match r {
                Ok(s) => located is Some && s.program() == located->0@,
                Err(e) => located is None && e@ == "gem was not found on PATH"@,
            },
    {
        let command = located_or(located, "gem was not found on PATH")?;
        Ok(Gem { command })
    }

    pub closed spec fn program(&self) -> Seq<char> {
        self.command@
    }

    pub fn kind(&self) -> (k: SourceKind)
        ensures
            k == SourceKind::Gem,
    {
        SourceKind::Gem
    }

    pub fn update_command(&self, name: &str) -> (c: Option<CommandLine>)
        ensures
            c matches Some(c) && c@ == command_view(self.program(), seq!["update"@, name@]),
    {
        Some(command_line(&self.command, two(arg("update"), arg(name))))
    }

    /// Removes every installed version and its executables, so that gem never
    /// waits on a prompt nobody can see.
    pub fn uninstall_command(&self, name: &str) -> (c: Option<CommandLine>)
        ensures
            c matches Some(c) && c@ == command_view(
                self.program(),
                seq!["uninstall"@, name@, "--all"@, "--executables"@],
            ),
    {
        Some(
            command_line(
                &self.command,
                four(arg("uninstall"), arg(name), arg("--all"), arg("--executables")),
            ),
        )
    }
}

} // verus!
