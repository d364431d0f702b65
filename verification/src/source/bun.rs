//! Bun: the global packages named in bun's global `package.json`, with the
//! versions their own manifests under `node_modules` give.
use vstd::prelude::*;

use super::{
    arg, at_latest, command_line, command_view, entry_views, keep_versioned, located_or, strings,
    three, versioned, CommandLine,
};
use crate::model::{installed_views, opt_view, Installed, SourceKind};

verus! {

pub struct Bun {
    command: String,
    global_dir: Option<String>,
}

/// What was found at one candidate root: the dependency names of its
/// `package.json` when that file could be read and parsed, and whether a
/// bun lockfile sits beside it.
pub struct Probe {
    pub names: Option<Vec<String>>,
    pub lockfile: bool,
}

pub open spec fn probe_ok(p: Probe) -> bool {
    p.names is Some && p.lockfile
}

pub open spec fn probe_has_dependency(p: Probe) -> bool {
    match p.names {
        Some(n) => n@.len() > 0,
        None => false,
    }
}

/// The first probe at or after `i` that satisfies `pred`.
pub open spec fn first_from(probes: Seq<Probe>, pred: spec_fn(Probe) -> bool, i: int) -> Option<int>
    decreases probes.len() - i,
{
    if i < 0 || i >= probes.len() {
        None
    } else if pred(probes[i]) {
        Some(i)
    } else {
        first_from(probes, pred, i + 1)
    }
}

/// The global root: the first candidate whose manifest parses and that holds
/// a lockfile; failing that, the first whose manifest names a dependency.
pub open spec fn global_root(probes: Seq<Probe>) -> Option<int> {
    match first_from(probes, |p: Probe| probe_ok(p), 0) {
        Some(i) => Some(i),
        None => first_from(probes, |p: Probe| probe_has_dependency(p), 0),
    }
}

/// The path components of each candidate root, in the order they are
/// probed: `$BUN_INSTALL/install/global`, then `~/.bun/install/global`,
/// then the home directory itself.
pub open spec fn candidate_paths(install: Option<Seq<char>>, home: Option<Seq<char>>) -> Seq<Seq<Seq<char>>> {
    let first = match install {
        Some(root) => seq![seq![root, "install"@, "global"@]],
        None => Seq::empty(),
    };
    match home {
        Some(h) => first + seq![seq![h, ".bun"@, "install"@, "global"@], seq![h]],
        None => first,
    }
}

pub open spec fn paths_view(v: Seq<Vec<String>>) -> Seq<Seq<Seq<char>>> {
    v.map_values(|p: Vec<String>| strings(p@))
}

pub fn candidates_from(install: Option<String>, home: Option<String>) -> (r: Vec<Vec<String>>)
    ensures
        paths_view(r@) == candidate_paths(opt_view(install), opt_view(home)),
{
    let ghost i = opt_view(install);
    let ghost h = opt_view(home);
    let mut paths: Vec<Vec<String>> = Vec::new();
    if let Some(root) = install {
        paths.push(three(root, arg("install"), arg("global")));
    }
    assert(paths_view(paths@) =~= match i {
        Some(root) => seq![seq![root, "install"@, "global"@]],
        None => Seq::empty(),
    });
    if let Some(home) = home {
        let ghost before = paths_view(paths@);
        let mut dot_bun: Vec<String> = Vec::new();
        dot_bun.push(home.clone());
        dot_bun.push(arg(".bun"));
        dot_bun.push(arg("install"));
        dot_bun.push(arg("global"));
        assert(strings(dot_bun@) =~= seq![home@, ".bun"@, "install"@, "global"@]);
        let mut bare: Vec<String> = Vec::new();
        bare.push(home);
        assert(strings(bare@) =~= seq![h->0]);
        paths.push(dot_bun);
        paths.push(bare);
        assert(paths_view(paths@) =~= before + seq![seq![h->0, ".bun"@, "install"@, "global"@], seq![h->0]]);
    }
    paths
}

/// The candidate root to read packages from, if any.
pub fn resolve_global_dir(probes: &Vec<Probe>) -> (r: Option<usize>)
    ensures
        match r {
            Some(i) => global_root(probes@) == Some(i as int),
            None => global_root(probes@) is None,
        },
{
    let ghost ok = |p: Probe| probe_ok(p);
    let ghost dep = |p: Probe| probe_has_dependency(p);
    let mut i: usize = 0;
    while i < probes.len()
        invariant
            i <= probes.len(),
            ok == (|p: Probe| probe_ok(p)),
            first_from(probes@, ok, 0) == first_from(probes@, ok, i as int),
        decreases probes.len() - i,
    {
        if probes[i].names.is_some() && probes[i].lockfile {
            return Some(i);
        }
        i += 1;
    }
    let mut j: usize = 0;
    while j < probes.len()
        invariant
            j <= probes.len(),
            first_from(probes@, ok, 0) is None,
            ok == (|p: Probe| probe_ok(p)),
            dep == (|p: Probe| probe_has_dependency(p)),
            first_from(probes@, dep, 0) == first_from(probes@, dep, j as int),
        decreases probes.len() - j,
    {
        let found = match &probes[j].names {
            Some(names) => names.len() > 0,
            None => false,
        };
        if found {
            return Some(j);
        }
        j += 1;
    }
    None
}

/// What Globlin records when no candidate held a global manifest.
pub open spec fn report_of(candidates: Seq<Seq<char>>) -> Seq<char>
    decreases candidates.len(),
{
    if candidates.len() == 0 {
        "bun: no global package.json found; probed:\n"@
    } else {
        report_of(candidates.drop_last()) + "  "@ + candidates.last() + "\n"@
    }
}

pub fn missing_root_report(candidates: &Vec<String>) -> (r: String)
    ensures
        r@ == report_of(strings(candidates@)) + "\n"@,
{
    let ghost c = strings(candidates@);
    let mut report = String::from_str("bun: no global package.json found; probed:\n");
    let mut i: usize = 0;
    while i < candidates.len()
        invariant
            i <= candidates.len(),
            c == strings(candidates@),
            report@ == report_of(c.take(i as int)),
        decreases candidates.len() - i,
    {
        assert(c.take(i + 1).drop_last() == c.take(i as int));
        report.append("  ");
        report.append(candidates[i].as_str());
        report.append("\n");
        i += 1;
    }
    assert(c.take(candidates.len() as int) == c);
    report.append("\n");
    report
}

/// The packages of bun's global manifest, given each dependency's name and
/// the version its own manifest gives (if it could be read): those with a
/// semver version. A dependency missing from `node_modules` drops out
/// instead of failing the source.
pub fn from_manifest(found: &Vec<(String, Option<String>)>) -> (r: Vec<Installed>)
    ensures
        installed_views(r@) == entry_views(found@).filter_map(
            |e: (Seq<char>, Option<Seq<char>>)| versioned(e, SourceKind::Bun),
        ),
{
    keep_versioned(found, SourceKind::Bun)
}

impl Bun {
    pub fn new(located: Option<String>, global_dir: Option<String>) -> (r: Result<Bun, String>)
        ensures
            match r {
                Ok(s) => located is Some && s.program() == located->0@ && s.root() == opt_view(global_dir),
                Err(e) => located is None && e@ == "bun was not found on PATH"@,
            },
    {
        let command = located_or(located, "bun was not found on PATH")?;
        Ok(Bun { command, global_dir })
    }

    pub closed spec fn program(&self) -> Seq<char> {
        self.command@
    }

    pub closed spec fn root(&self) -> Option<Seq<char>> {
        opt_view(self.global_dir)
    }

    /// The global root packages are read from, if one was found.
    pub fn global_dir(&self) -> (r: Option<String>)
        ensures
            opt_view(r) == self.root(),
    {
        match &self.global_dir {
            Some(d) => Some(d.clone()),
            None => None,
        }
    }

    pub fn kind(&self) -> (k: SourceKind)
        ensures
            k == SourceKind::Bun,
    {
        SourceKind::Bun
    }

    pub fn update_command(&self, name: &str) -> (c: Option<CommandLine>)
        ensures
            c matches Some(c) && c@ == command_view(
                self.program(),
                seq!["add"@, "-g"@, name@ + "@latest"@],
            ),
    {
        Some(command_line(&self.command, three(arg("add"), arg("-g"), at_latest(name))))
    }

    pub fn uninstall_command(&self, name: &str) -> (c: Option<CommandLine>)
        ensures
            c matches Some(c) && c@ == command_view(
                self.program(),
                seq!["remove"@, "-g"@, name@],
            ),
    {
        Some(command_line(&self.command, three(arg("remove"), arg("-g"), arg(name))))
    }
}

} // verus!
