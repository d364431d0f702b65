//! pnpm: the global packages `pnpm ls -g --json --depth=0` reports, as an
//! array of projects (or a single project object).
use vstd::prelude::*;

use super::{
    arg, at_latest, by_name, command_line, command_view, entry_views, keep_versioned, located_or,
    sorted_firsts, three, versioned, CommandLine,
};
use crate::model::{installed_views, Installed, InstalledView, SourceKind};
use crate::text::{chars_of, lemma_filter_map_concat, strip_bom, string_of, without_bom};

verus! {

pub struct Pnpm {
    command: String,
}

/// Every project's dependencies, one after the other.
pub open spec fn flattened(
    projects: Seq<Seq<(Seq<char>, Option<Seq<char>>)>>,
) -> Seq<(Seq<char>, Option<Seq<char>>)>
    decreases projects.len(),
{
    if projects.len() == 0 {
        Seq::empty()
    } else {
        flattened(projects.drop_last()) + projects.last()
    }
}

/// The dependencies of every project with a semver version, as pnpm
/// packages, before they are ordered.
pub open spec fn candidates(projects: Seq<Seq<(Seq<char>, Option<Seq<char>>)>>) -> Seq<InstalledView> {
    flattened(projects).filter_map(|e: (Seq<char>, Option<Seq<char>>)| versioned(e, SourceKind::Pnpm))
}

pub open spec fn project_views(
    projects: Seq<Vec<(String, Option<String>)>>,
) -> Seq<Seq<(Seq<char>, Option<Seq<char>>)>> {
    projects.map_values(|p: Vec<(String, Option<String>)>| entry_views(p@))
}

/// The packages of pnpm's listing, given each project's `dependencies` as
/// `(name, version)` entries: sorted by name, a package that two projects
/// list reported once.
pub fn from_projects(projects: &Vec<Vec<(String, Option<String>)>>) -> (r: Vec<Installed>)
    ensures
        sorted_firsts(installed_views(r@), candidates(project_views(projects@))),
{
    let ghost ps = project_views(projects@);
    let ghost f = |e: (Seq<char>, Option<Seq<char>>)| versioned(e, SourceKind::Pnpm);
    let mut all: Vec<Installed> = Vec::new();
    let mut i: usize = 0;
    while i < projects.len()
        invariant
            i <= projects.len(),
            ps == project_views(projects@),
            f == (|e: (Seq<char>, Option<Seq<char>>)| versioned(e, SourceKind::Pnpm)),
            installed_views(all@) == flattened(ps.take(i as int)).filter_map(f),
        decreases projects.len() - i,
    {
        let mut found = keep_versioned(&projects[i], SourceKind::Pnpm);
        let ghost before = installed_views(all@);
        let ghost added = installed_views(found@);
        all.append(&mut found);
        assert(installed_views(all@) =~= before + added);
        proof {
            assert(ps.take(i + 1).drop_last() == ps.take(i as int));
            lemma_filter_map_concat(flattened(ps.take(i as int)), ps[i as int], f);
        }
        i += 1;
    }
    assert(ps.take(projects.len() as int) == ps);
    by_name(&all)
}

/// pnpm's listing as the JSON to read: the leading byte order marks that
/// pnpm may print before it removed.
pub fn listing_text(stdout: &str) -> (r: String)
    ensures
        r@ == without_bom(stdout@),
{
    string_of(&strip_bom(&chars_of(stdout)))
}

impl Pnpm {
    pub fn new(located: Option<String>) -> (r: Result<Pnpm, String>)
        ensures
            match r {
                Ok(s) => located is Some && s.program() == located->0@,
                Err(e) => located is None && e@ == "pnpm was not found on PATH"@,
            },
    {
        let command = located_or(located, "pnpm was not found on PATH")?;
        Ok(Pnpm { command })
    }

    pub closed spec fn program(&self) -> Seq<char> {
        self.command@
    }

    pub fn kind(&self) -> (k: SourceKind)
        ensures
            k == SourceKind::Pnpm,
    {
        SourceKind::Pnpm
    }

    pub fn update_command(&self, name: &str) -> (c: Option<CommandLine>)
        ensures
            c matches Some(c) && c@ == command_view(
                self.program(),
                seq!["add"@, "-g"@, name@ + "@latest"@],
            ),
    {
        Some(command_line(&self.command, three(arg("add"), arg("-g"), at_latest(name))))
    }

    pub fn uninstall_command(&self, name: &str) -> (c: Option<CommandLine>)
        ensures
            c matches Some(c) && c@ == command_view(
                self.program(),
                seq!["remove"@, "-g"@, name@],
            ),
    {
        Some(command_line(&self.command, three(arg("remove"), arg("-g"), arg(name))))
    }
}

} // verus!
