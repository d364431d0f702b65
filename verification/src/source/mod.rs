//! The package sources: how each one is found, how its listing is read, and
//! the command lines that update or remove one of its packages.
use vstd::prelude::*;

use crate::config::{switched_on, Config, Sources};
use crate::model::{installed_view, installed_views, opt_view, Installed, InstalledView, SourceKind};
use crate::text::{
    chars_of, deep, lemma_filter_map_step, lemma_precedes_irreflexive, lemma_precedes_total,
    lemma_precedes_transitive, lemma_take_all, less, precedes, same, string_of, words, words_of,
};
use crate::version::{is_semver, semver_accepts};

pub mod bun;
pub mod cargo;
pub mod choco;
pub mod dotnet;
pub mod gem;
pub mod golang;
pub mod npm;
pub mod pipx;
pub mod pnpm;
pub mod psgallery;
pub mod scoop;
pub mod uv;
pub mod winget;
pub mod yarn;

verus! {

/// A program to run and the arguments to hand it.
#[derive(Debug, Clone, PartialEq, Eq)]
pub struct CommandLine {
    pub program: String,
    pub args: Vec<String>,
}

pub struct CommandView {
    pub program: Seq<char>,
    pub args: Seq<Seq<char>>,
}

pub open spec fn strings(v: Seq<String>) -> Seq<Seq<char>> {
    v.map_values(|s: String| s@)
}

impl View for CommandLine {
    type V = CommandView;

    open spec fn view(&self) -> CommandView {
        CommandView { program: self.program@, args: strings(self.args@) }
    }
}

pub open spec fn command_view(program: Seq<char>, args: Seq<Seq<char>>) -> CommandView {
    CommandView { program, args }
}

/// The command line that runs `program` with `args`.
pub fn command_line(program: &String, args: Vec<String>) -> (c: CommandLine)
    ensures
        c@ == command_view(program@, strings(args@)),
{
    CommandLine { program: program.clone(), args }
}

/// The program a source runs, or the reason it cannot be used: `located` is
/// where the program was found, if it was.
pub fn located_or(located: Option<String>, missing: &str) -> (r: Result<String, String>)
    ensures
        match r {
            Ok(p) => located is Some && p@ == located->0@,
            Err(e) => located is None && e@ == missing@,
        },
{
    match located {
        Some(path) => Ok(path),
        None => Err(String::from_str(missing)),
    }
}


pub open spec fn opt_installed(r: Option<Installed>) -> Option<InstalledView> {
    match r {
        Some(i) => Some(i@),
        None => None,
    }
}

/// Runs `f` over every line and keeps the packages it finds, in order;
/// `g` is what `f` computes, stated over the line's characters.
pub fn collect_lines<F: Fn(&Vec<char>) -> Option<Installed>>(
    ls: &Vec<Vec<char>>,
    f: F,
    Ghost(g): Ghost<spec_fn(Seq<char>) -> Option<InstalledView>>,
) -> (out: Vec<Installed>)
    requires
        forall|l: &Vec<char>| #[trigger] f.requires((l,)),
        forall|l: &Vec<char>, r: Option<Installed>|
            #[trigger] f.ensures((l,), r) ==> opt_installed(r) == g(l@),
    ensures
        crate::model::installed_views(out@) == deep(ls@).filter_map(g),
{
    let ghost d = deep(ls@);
    let mut out: Vec<Installed> = Vec::new();
    let mut i: usize = 0;
    while i < ls.len()
        invariant
            i <= ls.len(),
            d == deep(ls@),
            forall|l: &Vec<char>| #[trigger] f.requires((l,)),
            forall|l: &Vec<char>, r: Option<Installed>|
                #[trigger] f.ensures((l,), r) ==> opt_installed(r) == g(l@),
            crate::model::installed_views(out@) == d.take(i as int).filter_map(g),
        decreases ls.len() - i,
    {
        let r = f(&ls[i]);
        proof {
            lemma_filter_map_step(d, i as int, g);
        }
        match r {
            Some(item) => {
                let ghost before = crate::model::installed_views(out@);
                out.push(item);
                assert(crate::model::installed_views(out@) == before.push(item@));
            },
            None => {},
        }
        i += 1;
    }
    proof {
        lemma_take_all(d);
    }
    out
}

/// A line of exactly two words: a package and its version.
pub open spec fn word_pair(line: Seq<char>, kind: SourceKind) -> Option<InstalledView> {
    let w = words(line);
    if w.len() == 2 {
        Some(installed_view(w[0], w[1], kind, None))
    } else {
        None
    }
}

pub fn word_pair_of(line: &Vec<char>, kind: SourceKind) -> (r: Option<Installed>)
    ensures
        opt_installed(r) == word_pair(line@, kind),
{
    let w = words_of(line);
    if w.len() == 2 {
        Some(Installed::from_chars(&w[0], &w[1], kind))
    } else {
        None
    }
}

/// The argument `text`.
pub fn arg(text: &str) -> (r: String)
    ensures
        r@ == text@,
{
    String::from_str(text)
}

/// `name@latest`, the argument that asks a node package manager for the
/// newest release.
pub fn at_latest(name: &str) -> (r: String)
    ensures
        r@ == name@ + "@latest"@,
{
    let mut r = String::from_str(name);
    r.append("@latest");
    r
}


pub fn two(a: String, b: String) -> (v: Vec<String>)
    ensures
        strings(v@) == seq![a@, b@],
{
    let mut v: Vec<String> = Vec::new();
    v.push(a);
    v.push(b);
    assert(strings(v@) =~= seq![a@, b@]);
    v
}

pub fn three(a: String, b: String, c: String) -> (v: Vec<String>)
    ensures
        strings(v@) == seq![a@, b@, c@],
{
    let mut v: Vec<String> = Vec::new();
    v.push(a);
    v.push(b);
    v.push(c);
    assert(strings(v@) =~= seq![a@, b@, c@]);
    v
}

pub fn four(a: String, b: String, c: String, d: String) -> (v: Vec<String>)
    ensures
        strings(v@) == seq![a@, b@, c@, d@],
{
    let mut v: Vec<String> = Vec::new();
    v.push(a);
    v.push(b);
    v.push(c);
    v.push(d);
    assert(strings(v@) =~= seq![a@, b@, c@, d@]);
    v
}


// ---------------------------------------------------------------- upgrades

/// A package name and the version a report offers for it.
pub open spec fn pair_views(v: Seq<(Vec<char>, Vec<char>)>) -> Seq<(Seq<char>, Seq<char>)> {
    v.map_values(|p: (Vec<char>, Vec<char>)| (p.0@, p.1@))
}

pub open spec fn opt_pair(r: Option<(Vec<char>, Vec<char>)>) -> Option<(Seq<char>, Seq<char>)> {
    match r {
        Some(p) => Some((p.0@, p.1@)),
        None => None,
    }
}

/// Runs `f` over every line and keeps the pairs it finds, in order.
pub fn collect_pairs<F: Fn(&Vec<char>) -> Option<(Vec<char>, Vec<char>)>>(
    ls: &Vec<Vec<char>>,
    f: F,
    Ghost(g): Ghost<spec_fn(Seq<char>) -> Option<(Seq<char>, Seq<char>)>>,
) -> (out: Vec<(Vec<char>, Vec<char>)>)
    requires
        forall|l: &Vec<char>| #[trigger] f.requires((l,)),
        forall|l: &Vec<char>, r: Option<(Vec<char>, Vec<char>)>|
            #[trigger] f.ensures((l,), r) ==> opt_pair(r) == g(l@),
    ensures
        pair_views(out@) == deep(ls@).filter_map(g),
{
    let ghost d = deep(ls@);
    let mut out: Vec<(Vec<char>, Vec<char>)> = Vec::new();
    let mut i: usize = 0;
    while i < ls.len()
        invariant
            i <= ls.len(),
            d == deep(ls@),
            forall|l: &Vec<char>| #[trigger] f.requires((l,)),
            forall|l: &Vec<char>, r: Option<(Vec<char>, Vec<char>)>|
                #[trigger] f.ensures((l,), r) ==> opt_pair(r) == g(l@),
            pair_views(out@) == d.take(i as int).filter_map(g),
        decreases ls.len() - i,
    {
        let r = f(&ls[i]);
        proof {
            lemma_filter_map_step(d, i as int, g);
        }
        match r {
            Some(p) => {
                let ghost before = pair_views(out@);
                let ghost pv = (p.0@, p.1@);
                out.push(p);
                assert(pair_views(out@) == before.push(pv));
            },
            None => {},
        }
        i += 1;
    }
    proof {
        lemma_take_all(d);
    }
    out
}

/// The version that the last pair naming `name` offers. Pairs collected into
/// a map keep the last value given for a key, so the last pair wins.
pub open spec fn lookup_last(pairs: Seq<(Seq<char>, Seq<char>)>, name: Seq<char>) -> Option<Seq<char>>
    decreases pairs.len(),
{
    if pairs.len() == 0 {
        None
    } else if pairs.last().0 == name {
        Some(pairs.last().1)
    } else {
        lookup_last(pairs.drop_last(), name)
    }
}

pub fn lookup(pairs: &Vec<(Vec<char>, Vec<char>)>, name: &Vec<char>) -> (r: Option<Vec<char>>)
    ensures
        match r {
            Some(v) => lookup_last(pair_views(pairs@), name@) == Some(v@),
            None => lookup_last(pair_views(pairs@), name@) is None,
        },
{
    let ghost all = pair_views(pairs@);
    let mut n = pairs.len();
    assert(all.take(n as int) == all);
    while n > 0
        invariant
            n <= pairs.len(),
            all == pair_views(pairs@),
            lookup_last(all, name@) == lookup_last(all.take(n as int), name@),
        decreases n,
    {
        assert(all.take(n as int).drop_last() == all.take(n - 1));
        if same(&pairs[n - 1].0, name) {
            let v = pairs[n - 1].1.clone();
            assert(v@ =~= pairs@[n - 1].1@);
            return Some(v);
        }
        n -= 1;
    }
    None
}

/// A package with its upgrade taken from a report: the version the report
/// offers, or, where the report names it not, the installed version itself.
/// With no report at all the package stays unresolved.
pub open spec fn resolved(i: InstalledView, upgrades: Option<Seq<(Seq<char>, Seq<char>)>>) -> InstalledView {
    let available = match upgrades {
        None => None,
        Some(u) => Some(
            match lookup_last(u, i.name) {
                Some(v) => v,
                None => i.version,
            },
        ),
    };
    installed_view(i.name, i.version, i.source, available)
}

pub fn resolve_all(items: Vec<Installed>, upgrades: Option<&Vec<(Vec<char>, Vec<char>)>>) -> (r: Vec<Installed>)
    ensures
        installed_views(r@) == installed_views(items@).map_values(
            |i: InstalledView|
                resolved(
                    i,
                    match upgrades {
                        Some(u) => Some(pair_views(u@)),
                        None => None,
                    },
                ),
        ),
{
    let ghost u = match upgrades {
        Some(u) => Some(pair_views(u@)),
        None => None,
    };
    let mut r: Vec<Installed> = Vec::new();
    let mut i: usize = 0;
    while i < items.len()
        invariant
            i <= items.len(),
            u == match upgrades {
                Some(u) => Some(pair_views(u@)),
                None => None,
            },
            installed_views(r@) == installed_views(items@).take(i as int).map_values(
                |i: InstalledView| resolved(i, u),
            ),
        decreases items.len() - i,
    {
        let item = &items[i];
        let available = match upgrades {
            None => None,
            Some(pairs) => {
                let name = chars_of(item.name.as_str());
                match lookup(pairs, &name) {
                    Some(v) => Some(string_of(&v)),
                    None => Some(item.version.clone()),
                }
            },
        };
        let next = Installed { name: item.name.clone(), version: item.version.clone(), source: item.source, available };
        let ghost before = installed_views(r@);
        r.push(next);
        assert(installed_views(r@) == before.push(next@));
        assert(installed_views(items@).take(i + 1) == installed_views(items@).take(i as int).push(items@[i as int]@));
        i += 1;
    }
    assert(installed_views(items@).take(items.len() as int) == installed_views(items@));
    r
}

/// A package with the version a report offers, if the report names it.
pub open spec fn offered(i: InstalledView, upgrades: Seq<(Seq<char>, Seq<char>)>) -> InstalledView {
    installed_view(i.name, i.version, i.source, lookup_last(upgrades, i.name))
}

pub fn offer_all(items: Vec<Installed>, upgrades: &Vec<(Vec<char>, Vec<char>)>) -> (r: Vec<Installed>)
    ensures
        installed_views(r@) == installed_views(items@).map_values(
            |i: InstalledView| offered(i, pair_views(upgrades@)),
        ),
{
    let ghost u = pair_views(upgrades@);
    let mut r: Vec<Installed> = Vec::new();
    let mut i: usize = 0;
    while i < items.len()
        invariant
            i <= items.len(),
            u == pair_views(upgrades@),
            installed_views(r@) == installed_views(items@).take(i as int).map_values(
                |i: InstalledView| offered(i, u),
            ),
        decreases items.len() - i,
    {
        let item = &items[i];
        let name = chars_of(item.name.as_str());
        let available = match lookup(upgrades, &name) {
            Some(v) => Some(string_of(&v)),
            None => None,
        };
        let next = Installed { name: item.name.clone(), version: item.version.clone(), source: item.source, available };
        let ghost before = installed_views(r@);
        r.push(next);
        assert(installed_views(r@) == before.push(next@));
        assert(installed_views(items@).take(i + 1) == installed_views(items@).take(i as int).push(items@[i as int]@));
        i += 1;
    }
    assert(installed_views(items@).take(items.len() as int) == installed_views(items@));
    r
}


// ---------------------------------------------------------------- node packages

/// A `(name, version)` entry of a node listing or manifest, kept when it has
/// a version that semver accepts.
pub open spec fn versioned(e: (Seq<char>, Option<Seq<char>>), kind: SourceKind) -> Option<InstalledView> {
    match e.1 {
        Some(v) => if semver_accepts(v) {
            Some(installed_view(e.0, v, kind, None))
        } else {
            None
        },
        None => None,
    }
}

pub open spec fn entry_views(v: Seq<(String, Option<String>)>) -> Seq<(Seq<char>, Option<Seq<char>>)> {
    v.map_values(|e: (String, Option<String>)| (e.0@, opt_view(e.1)))
}

/// The entries with a usable version, as packages of `kind`, in order.
pub fn keep_versioned(entries: &Vec<(String, Option<String>)>, kind: SourceKind) -> (r: Vec<Installed>)
    ensures
        installed_views(r@) == entry_views(entries@).filter_map(
            |e: (Seq<char>, Option<Seq<char>>)| versioned(e, kind),
        ),
{
    let ghost es = entry_views(entries@);
    let ghost f = |e: (Seq<char>, Option<Seq<char>>)| versioned(e, kind);
    let mut out: Vec<Installed> = Vec::new();
    let mut i: usize = 0;
    while i < entries.len()
        invariant
            i <= entries.len(),
            es == entry_views(entries@),
            f == (|e: (Seq<char>, Option<Seq<char>>)| versioned(e, kind)),
            installed_views(out@) == es.take(i as int).filter_map(f),
        decreases entries.len() - i,
    {
        proof {
            lemma_filter_map_step(es, i as int, f);
        }
        match &entries[i].1 {
            Some(version) => {
                if is_semver(version.as_str()) {
                    let item = Installed::new(entries[i].0.clone(), version.clone(), kind);
                    let ghost before = installed_views(out@);
                    out.push(item);
                    assert(installed_views(out@) == before.push(item@));
                }
            },
            None => {},
        }
        i += 1;
    }
    proof {
        lemma_take_all(es);
    }
    out
}

// ---------------------------------------------------------------- ordering by name

/// `c[k]` is the first package in `c` named `name`.
pub open spec fn first_named(c: Seq<InstalledView>, name: Seq<char>, k: int) -> bool {
    0 <= k < c.len() && c[k].name == name && forall|j: int| 0 <= j < k ==> c[j].name != name
}

/// Names strictly increase along `r`.
pub open spec fn ascending(r: Seq<InstalledView>) -> bool {
    forall|i: int, j: int| 0 <= i < j < r.len() ==> precedes(#[trigger] r[i].name, #[trigger] r[j].name)
}

/// `r` holds, in increasing order of name, the first package of each name in
/// `c`, and nothing else: a stable sort by name followed by removing every
/// package whose name the one before it already had.
#[verifier::opaque]
pub open spec fn sorted_firsts(r: Seq<InstalledView>, c: Seq<InstalledView>) -> bool {
    &&& ascending(r)
    &&& forall|i: int|
        #![trigger r[i]]
        0 <= i < r.len() ==> exists|k: int| #[trigger] first_named(c, r[i].name, k) && c[k] == r[i]
    &&& forall|k: int|
        #![trigger c[k]]
        0 <= k < c.len() ==> exists|i: int| #![trigger r[i]] 0 <= i < r.len() && r[i].name == c[k].name
}

/// `sorted_firsts` with its witnesses: `origin[i]` is where `r[i]` stands in
/// `c`, and `place[k]` is where the name of `c[k]` stands in `r`.
spec fn firsts_with(r: Seq<InstalledView>, c: Seq<InstalledView>, origin: Seq<int>, place: Seq<int>) -> bool {
    &&& ascending(r)
    &&& origin.len() == r.len()
    &&& place.len() == c.len()
    &&& forall|i: int|
        #![trigger origin[i]]
        0 <= i < r.len() ==> first_named(c, r[i].name, origin[i]) && c[origin[i]] == r[i]
    &&& forall|k: int|
        #![trigger place[k]]
        0 <= k < c.len() ==> 0 <= place[k] < r.len() && r[place[k]].name == c[k].name
}

proof fn lemma_firsts(r: Seq<InstalledView>, c: Seq<InstalledView>, origin: Seq<int>, place: Seq<int>)
    requires
        firsts_with(r, c, origin, place),
    ensures
        sorted_firsts(r, c),
{
    reveal(sorted_firsts);
    assert forall|i: int|
        #![trigger r[i]]
        0 <= i < r.len() implies exists|k: int| #[trigger] first_named(c, r[i].name, k) && c[k] == r[i] by {
        assert(first_named(c, r[i].name, origin[i]));
    }
    assert forall|k: int|
        #![trigger c[k]]
        0 <= k < c.len() implies exists|i: int| #![trigger r[i]] 0 <= i < r.len() && r[i].name == c[k].name by {
        let i = place[k];
        assert(0 <= i < r.len());
        assert(r[i].name == c[k].name);
    }
}

proof fn lemma_keep_step(
    r: Seq<InstalledView>,
    c: Seq<InstalledView>,
    k: int,
    p: int,
    origin: Seq<int>,
    place: Seq<int>,
)
    requires
        0 <= k < c.len(),
        firsts_with(r, c.take(k), origin, place),
        0 <= p < r.len(),
        r[p].name == c[k].name,
    ensures
        firsts_with(r, c.take(k + 1), origin, place.push(p)),
{
    let c0 = c.take(k);
    let c1 = c.take(k + 1);
    let place1 = place.push(p);
    assert forall|i: int| #![trigger origin[i]] 0 <= i < r.len() implies first_named(
        c1,
        r[i].name,
        origin[i],
    ) && c1[origin[i]] == r[i] by {
        assert(first_named(c0, r[i].name, origin[i]));
    }
    assert forall|m: int| #![trigger place1[m]] 0 <= m < c1.len() implies 0 <= place1[m] < r.len()
        && r[place1[m]].name == c1[m].name by {
        if m < k {
            assert(place1[m] == place[m]);
            assert(c1[m] == c0[m]);
        }
    }
}

proof fn lemma_insert_ascending(r: Seq<InstalledView>, x: InstalledView, p: int)
    requires
        ascending(r),
        0 <= p <= r.len(),
        forall|j: int| 0 <= j < p ==> precedes(#[trigger] r[j].name, x.name),
        forall|j: int| p <= j < r.len() ==> precedes(x.name, #[trigger] r[j].name),
    ensures
        ascending(r.insert(p, x)),
{
    let r1 = r.insert(p, x);
    assert forall|i: int, j: int| 0 <= i < j < r1.len() implies precedes(
        #[trigger] r1[i].name,
        #[trigger] r1[j].name,
    ) by {
        if i < p && j < p {
            assert(r1[i] == r[i] && r1[j] == r[j]);
        } else if i < p && j == p {
            assert(r1[i] == r[i]);
        } else if i < p {
            assert(r1[i] == r[i] && r1[j] == r[j - 1]);
        } else if i == p {
            assert(r1[j] == r[j - 1]);
        } else {
            assert(r1[i] == r[i - 1] && r1[j] == r[j - 1]);
        }
    }
}

spec fn shifted(place: Seq<int>, p: int) -> Seq<int> {
    place.map_values(|q: int| if q >= p { q + 1 } else { q })
}

proof fn lemma_insert_step(
    r: Seq<InstalledView>,
    c: Seq<InstalledView>,
    k: int,
    p: int,
    origin: Seq<int>,
    place: Seq<int>,
)
    requires
        0 <= k < c.len(),
        firsts_with(r, c.take(k), origin, place),
        0 <= p <= r.len(),
        forall|j: int| 0 <= j < p ==> precedes(#[trigger] r[j].name, c[k].name),
        p < r.len() ==> !precedes(r[p].name, c[k].name) && r[p].name != c[k].name,
    ensures
        firsts_with(r.insert(p, c[k]), c.take(k + 1), origin.insert(p, k), shifted(place, p).push(p)),
{
    let c0 = c.take(k);
    let c1 = c.take(k + 1);
    let x = c[k];
    let r1 = r.insert(p, x);
    let origin1 = origin.insert(p, k);
    let place1 = shifted(place, p).push(p);
    lemma_precedes_irreflexive(x.name);
    if p < r.len() {
        lemma_precedes_total(r[p].name, x.name);
    }
    assert forall|j: int| p <= j < r.len() implies precedes(x.name, #[trigger] r[j].name) by {
        if j > p {
            assert(precedes(r[p].name, r[j].name));
            lemma_precedes_transitive(x.name, r[p].name, r[j].name);
        }
    }
    lemma_insert_ascending(r, x, p);
    assert forall|j: int| 0 <= j < k implies #[trigger] c[j].name != x.name by {
        if c[j].name == x.name {
            assert(c0[j] == c[j]);
            let i = place[j];
            assert(r[i].name == c0[j].name);
            if i > p {
                assert(precedes(r[p].name, r[i].name));
            }
        }
    }
    assert(first_named(c1, x.name, k));
    assert forall|i: int| #![trigger origin1[i]] 0 <= i < r1.len() implies first_named(
        c1,
        r1[i].name,
        origin1[i],
    ) && c1[origin1[i]] == r1[i] by {
        if i == p {
            assert(c1[k] == x);
        } else {
            let o = if i < p {
                i
            } else {
                i - 1
            };
            assert(r1[i] == r[o]);
            assert(origin1[i] == origin[o]);
            assert(first_named(c0, r[o].name, origin[o]));
        }
    }
    assert forall|m: int| #![trigger place1[m]] 0 <= m < c1.len() implies 0 <= place1[m] < r1.len()
        && r1[place1[m]].name == c1[m].name by {
        if m < k {
            assert(c1[m] == c0[m]);
            let q = place[m];
            assert(place1[m] == if q >= p { q + 1 } else { q });
            if q < p {
                assert(r1[q] == r[q]);
            } else {
                assert(r1[q + 1] == r[q]);
            }
        } else {
            assert(r1[p] == x);
        }
    }
}

impl Installed {
    pub fn copy(&self) -> (r: Installed)
        ensures
            r@ == self@,
    {
        let available = match &self.available {
            Some(a) => Some(a.clone()),
            None => None,
        };
        Installed {
            name: self.name.clone(),
            version: self.version.clone(),
            source: self.source,
            available,
        }
    }
}

/// The packages in increasing order of name, the first of each name only.
pub fn by_name(items: &Vec<Installed>) -> (r: Vec<Installed>)
    ensures
        sorted_firsts(installed_views(r@), installed_views(items@)),
{
    let ghost c = installed_views(items@);
    let mut out: Vec<Installed> = Vec::new();
    let mut names: Vec<Vec<char>> = Vec::new();
    let ghost mut origin: Seq<int> = Seq::empty();
    let ghost mut place: Seq<int> = Seq::empty();
    let mut k: usize = 0;
    assert(c.take(0) =~= Seq::<InstalledView>::empty());
    while k < items.len()
        invariant
            k <= items.len(),
            c == installed_views(items@),
            firsts_with(installed_views(out@), c.take(k as int), origin, place),
            names@.len() == out@.len(),
            forall|i: int| 0 <= i < names@.len() ==> #[trigger] names@[i]@ == out@[i].name@,
        decreases items.len() - k,
    {
        let x = &items[k];
        let xn = chars_of(x.name.as_str());
        let ghost r = installed_views(out@);
        let mut p: usize = 0;
        while p < out.len() && less(&names[p], &xn)
            invariant
                p <= out.len(),
                r == installed_views(out@),
                names@.len() == out@.len(),
                forall|i: int| 0 <= i < names@.len() ==> #[trigger] names@[i]@ == out@[i].name@,
                forall|j: int| 0 <= j < p ==> precedes(#[trigger] r[j].name, xn@),
            decreases out.len() - p,
        {
            p += 1;
        }
        if p < out.len() && same(&names[p], &xn) {
            proof {
                lemma_keep_step(r, c, k as int, p as int, origin, place);
                place = place.push(p as int);
            }
        } else {
            let item = x.copy();
            proof {
                lemma_insert_step(r, c, k as int, p as int, origin, place);
                origin = origin.insert(p as int, k as int);
                place = shifted(place, p as int).push(p as int);
            }
            out.insert(p, item);
            names.insert(p, xn);
            assert(installed_views(out@) =~= r.insert(p as int, c[k as int]));
        }
        k += 1;
    }
    assert(c.take(items.len() as int) == c);
    proof {
        lemma_firsts(installed_views(out@), c, origin, place);
    }
    out
}


// ---------------------------------------------------------------- the enabled sources

/// A source Globlin can read from.
pub enum Source {
    Npm(npm::Npm),
    Bun(bun::Bun),
    Pnpm(pnpm::Pnpm),
    Yarn(yarn::Yarn),
    Pipx(pipx::Pipx),
    Uv(uv::Uv),
    Scoop(scoop::Scoop),
    Cargo(cargo::Cargo),
    Go(golang::Go),
    Dotnet(dotnet::Dotnet),
    PsGallery(psgallery::PsGallery),
    Gem(gem::Gem),
    Winget(winget::Winget),
    Choco(choco::Choco),
}

/// What the search for a source found: where its program is, and the
/// directory it keeps packages in, for the sources that need one (bun's
/// global root, the scoop directory).
pub struct Located {
    pub command: Option<String>,
    pub root: Option<String>,
}

/// The sources in the order `KINDS` lists them.
pub open spec fn kind_at(i: int) -> SourceKind {
    if i == 0 {
        SourceKind::Npm
    } else if i == 1 {
        SourceKind::Bun
    } else if i == 2 {
        SourceKind::Pnpm
    } else if i == 3 {
        SourceKind::Yarn
    } else if i == 4 {
        SourceKind::Pipx
    } else if i == 5 {
        SourceKind::Uv
    } else if i == 6 {
        SourceKind::Scoop
    } else if i == 7 {
        SourceKind::Cargo
    } else if i == 8 {
        SourceKind::Go
    } else if i == 9 {
        SourceKind::Dotnet
    } else if i == 10 {
        SourceKind::PsGallery
    } else if i == 11 {
        SourceKind::Gem
    } else if i == 12 {
        SourceKind::Winget
    } else {
        SourceKind::Choco
    }
}

pub fn kind_at_index(i: usize) -> (k: SourceKind)
    requires
        i < 14,
    ensures
        k == kind_at(i as int),
{
    crate::model::KINDS[i]
}

pub open spec fn kind_of(s: Source) -> SourceKind {
    match s {
        Source::Npm(_) => SourceKind::Npm,
        Source::Bun(_) => SourceKind::Bun,
        Source::Pnpm(_) => SourceKind::Pnpm,
        Source::Yarn(_) => SourceKind::Yarn,
        Source::Pipx(_) => SourceKind::Pipx,
        Source::Uv(_) => SourceKind::Uv,
        Source::Scoop(_) => SourceKind::Scoop,
        Source::Cargo(_) => SourceKind::Cargo,
        Source::Go(_) => SourceKind::Go,
        Source::Dotnet(_) => SourceKind::Dotnet,
        Source::PsGallery(_) => SourceKind::PsGallery,
        Source::Gem(_) => SourceKind::Gem,
        Source::Winget(_) => SourceKind::Winget,
        Source::Choco(_) => SourceKind::Choco,
    }
}

/// The program a source runs.
pub open spec fn program_of(s: Source) -> Seq<char> {
    match s {
        Source::Npm(x) => x.program(),
        Source::Bun(x) => x.program(),
        Source::Pnpm(x) => x.program(),
        Source::Yarn(x) => x.program(),
        Source::Pipx(x) => x.program(),
        Source::Uv(x) => x.program(),
        Source::Scoop(x) => x.program(),
        Source::Cargo(x) => x.program(),
        Source::Go(x) => x.program(),
        Source::Dotnet(x) => x.program(),
        Source::PsGallery(x) => x.program(),
        Source::Gem(x) => x.program(),
        Source::Winget(x) => x.program(),
        Source::Choco(x) => x.program(),
    }
}

/// A source set up from what was found: it runs the program found, and bun
/// and scoop read the directory found.
pub open spec fn set_up_from(s: Source, found: Located) -> bool {
    &&& found.command is Some
    &&& program_of(s) == found.command->0@
    &&& (s matches Source::Bun(x) ==> x.root() == crate::model::opt_view(found.root))
    &&& (s matches Source::Scoop(x) ==> found.root is Some && x.apps_root() == found.root->0@)
}

/// The place of `kind` in `KINDS`.
pub open spec fn kind_index(kind: SourceKind) -> int {
    match kind {
        SourceKind::Npm => 0,
        SourceKind::Bun => 1,
        SourceKind::Pnpm => 2,
        SourceKind::Yarn => 3,
        SourceKind::Pipx => 4,
        SourceKind::Uv => 5,
        SourceKind::Scoop => 6,
        SourceKind::Cargo => 7,
        SourceKind::Go => 8,
        SourceKind::Dotnet => 9,
        SourceKind::PsGallery => 10,
        SourceKind::Gem => 11,
        SourceKind::Winget => 12,
        SourceKind::Choco => 13,
    }
}

/// Whether what was found is enough to use the source.
pub open spec fn usable(kind: SourceKind, found: Located) -> bool {
    found.command is Some && (kind == SourceKind::Scoop ==> found.root is Some)
}

/// Why a source that is not usable cannot be used.
pub open spec fn failure(kind: SourceKind, found: Located, npm_executable: Seq<char>) -> Seq<char> {
    match kind {
        SourceKind::Npm => npm::missing(npm_executable),
        SourceKind::Bun => "bun was not found on PATH"@,
        SourceKind::Pnpm => "pnpm was not found on PATH"@,
        SourceKind::Yarn => "yarn was not found on PATH"@,
        SourceKind::Pipx => "pipx was not found on PATH"@,
        SourceKind::Uv => "uv was not found on PATH"@,
        SourceKind::Scoop => if found.command is None {
            "scoop was not found on PATH"@
        } else {
            "the scoop directory has no apps to read"@
        },
        SourceKind::Cargo => "cargo was not found on PATH"@,
        SourceKind::Go => "go was not found on PATH"@,
        SourceKind::Dotnet => "dotnet was not found on PATH"@,
        SourceKind::PsGallery => "no PowerShell was found on PATH"@,
        SourceKind::Gem => "gem was not found on PATH"@,
        SourceKind::Winget => "winget was not found on PATH"@,
        SourceKind::Choco => "choco was not found on PATH"@,
    }
}

/// The source of `kind`, from what the search for it found.
pub fn build(kind: SourceKind, found: Located, npm_executable: &str) -> (r: Result<Source, String>)
    ensures
        match r {
            Ok(s) => usable(kind, found) && kind_of(s) == kind && set_up_from(s, found),
            Err(e) => !usable(kind, found) && e@ == failure(kind, found, npm_executable@),
        },
{
    let ghost f = found;
    let Located { command, root } = found;
    match kind {
        SourceKind::Npm => Ok(Source::Npm(npm::Npm::new(command, npm_executable)?)),
        SourceKind::Bun => Ok(Source::Bun(bun::Bun::new(command, root)?)),
        SourceKind::Pnpm => Ok(Source::Pnpm(pnpm::Pnpm::new(command)?)),
        SourceKind::Yarn => Ok(Source::Yarn(yarn::Yarn::new(command)?)),
        SourceKind::Pipx => Ok(Source::Pipx(pipx::Pipx::new(command)?)),
        SourceKind::Uv => Ok(Source::Uv(uv::Uv::new(command)?)),
        SourceKind::Scoop => Ok(Source::Scoop(scoop::Scoop::new(command, root)?)),
        SourceKind::Cargo => Ok(Source::Cargo(cargo::Cargo::new(command)?)),
        SourceKind::Go => Ok(Source::Go(golang::Go::new(command)?)),
        SourceKind::Dotnet => Ok(Source::Dotnet(dotnet::Dotnet::new(command)?)),
        SourceKind::PsGallery => Ok(Source::PsGallery(psgallery::PsGallery::new(command)?)),
        SourceKind::Gem => Ok(Source::Gem(gem::Gem::new(command)?)),
        SourceKind::Winget => Ok(Source::Winget(winget::Winget::new(command)?)),
        SourceKind::Choco => Ok(Source::Choco(choco::Choco::new(command)?)),
    }
}

/// `parts` joined by `sep`.
pub open spec fn joined(parts: Seq<Seq<char>>, sep: Seq<char>) -> Seq<char>
    decreases parts.len(),
{
    if parts.len() == 0 {
        Seq::empty()
    } else if parts.len() == 1 {
        parts[0]
    } else {
        joined(parts.drop_last(), sep) + sep + parts.last()
    }
}

/// The sources among the first `n` that are switched on and usable.
pub open spec fn built_kinds(s: Sources, found: Seq<Located>, n: int) -> Seq<SourceKind>
    decreases n,
{
    if n <= 0 {
        Seq::empty()
    } else {
        let pre = built_kinds(s, found, n - 1);
        let k = kind_at(n - 1);
        if switched_on(s, k) && usable(k, found[n - 1]) {
            pre.push(k)
        } else {
            pre
        }
    }
}

/// Why each of the first `n` sources that is switched on is not usable.
pub open spec fn failures(s: Sources, found: Seq<Located>, n: int, npm_executable: Seq<char>) -> Seq<Seq<char>>
    decreases n,
{
    if n <= 0 {
        Seq::empty()
    } else {
        let pre = failures(s, found, n - 1, npm_executable);
        let k = kind_at(n - 1);
        if switched_on(s, k) && !usable(k, found[n - 1]) {
            pre.push(failure(k, found[n - 1], npm_executable))
        } else {
            pre
        }
    }
}

/// Why no source can be used: none is switched on, or the reasons the ones
/// that are cannot be used.
pub open spec fn nothing_enabled(s: Sources, found: Seq<Located>, npm_executable: Seq<char>) -> Seq<char> {
    if failures(s, found, 14, npm_executable).len() == 0 {
        "no package sources are enabled in the config"@
    } else {
        joined(failures(s, found, 14, npm_executable), "; "@)
    }
}

pub open spec fn source_kinds(v: Seq<Source>) -> Seq<SourceKind> {
    v.map_values(|s: Source| kind_of(s))
}

/// The sources the config switches on and that could be found, in `KINDS`
/// order; `found[i]` is what the search for the `i`-th source found. A
/// missing optional source does not stop the others; only when none is left
/// is that an error. `npm_executable` is the file the search for npm looked
/// for, which npm's error names.
pub fn enabled(config: &Config, found: Vec<Located>, npm_executable: &str) -> (r: Result<Vec<Source>, String>)
    requires
        found@.len() == 14,
    ensures
        match r {
            Ok(v) => {
                &&& source_kinds(v@) == built_kinds(config.sources, found@, 14)
                &&& v@.len() > 0
                &&& forall|j: int|
                    0 <= j < v@.len() ==> set_up_from(
                        #[trigger] v@[j],
                        found@[kind_index(kind_of(v@[j]))],
                    )
            },
            Err(e) => built_kinds(config.sources, found@, 14).len() == 0 && e@ == nothing_enabled(
                config.sources,
                found@,
                npm_executable@,
            ),
        },
{
    let ghost all = found@;
    let mut found = found;
    let mut rest: Vec<Located> = Vec::new();
    // reverse so that popping visits the sources in order
    while found.len() > 0
        invariant
            found@.len() + rest@.len() == 14,
            forall|j: int| 0 <= j < found@.len() ==> found@[j] == all[j],
            forall|j: int| 0 <= j < rest@.len() ==> rest@[j] == all[13 - j],
        decreases found@.len(),
    {
        let item = found.pop().unwrap();
        rest.push(item);
    }
    let mut sources: Vec<Source> = Vec::new();
    let mut reasons: Vec<String> = Vec::new();
    let mut i: usize = 0;
    while i < 14
        invariant
            i <= 14,
            rest@.len() == 14 - i,
            forall|j: int| 0 <= j < rest@.len() ==> rest@[j] == all[13 - j],
            source_kinds(sources@) == built_kinds(config.sources, all, i as int),
            crate::source::strings(reasons@) == failures(config.sources, all, i as int, npm_executable@),
            forall|j: int|
                0 <= j < sources@.len() ==> set_up_from(
                    #[trigger] sources@[j],
                    all[kind_index(kind_of(sources@[j]))],
                ),
        decreases 14 - i,
    {
        let item = rest.pop().unwrap();
        assert(item == all[i as int]);
        let kind = kind_at_index(i);
        if config.source_enabled(kind) {
            match build(kind, item, npm_executable) {
                Ok(source) => {
                    let ghost before = source_kinds(sources@);
                    assert(kind_index(kind_at(i as int)) == i);
                    sources.push(source);
                    assert(source_kinds(sources@) == before.push(kind));
                },
                Err(error) => {
                    let ghost before = strings(reasons@);
                    reasons.push(error);
                    assert(strings(reasons@) == before.push(error@));
                },
            }
        }
        i += 1;
    }
    if sources.len() == 0 {
        if reasons.len() == 0 {
            Err(String::from_str("no package sources are enabled in the config"))
        } else {
            Err(join(&reasons, "; "))
        }
    } else {
        Ok(sources)
    }
}

/// `parts` joined by `sep`.
pub fn join(parts: &Vec<String>, sep: &str) -> (r: String)
    ensures
        r@ == joined(strings(parts@), sep@),
{
    let ghost ps = strings(parts@);
    let mut out = String::new();
    let mut i: usize = 0;
    while i < parts.len()
        invariant
            i <= parts.len(),
            ps == strings(parts@),
            out@ == joined(ps.take(i as int), sep@),
        decreases parts.len() - i,
    {
        assert(ps.take(i + 1).drop_last() == ps.take(i as int));
        if i > 0 {
            out.append(sep);
        }
        out.append(parts[i].as_str());
        i += 1;
    }
    assert(ps.take(parts.len() as int) == ps);
    out
}

/// The command that updates `name` through `s`, if `s` updates packages.
pub open spec fn update_spec(s: Source, name: Seq<char>) -> Option<CommandView> {
    match s {
        Source::Npm(x) => Some(command_view(x.program(), seq!["install"@, "-g"@, name + "@latest"@])),
        Source::Bun(x) => Some(command_view(x.program(), seq!["add"@, "-g"@, name + "@latest"@])),
        Source::Pnpm(x) => Some(command_view(x.program(), seq!["add"@, "-g"@, name + "@latest"@])),
        Source::Yarn(x) => Some(command_view(x.program(), seq!["global"@, "add"@, name + "@latest"@])),
        Source::Pipx(x) => Some(command_view(x.program(), seq!["upgrade"@, name])),
        Source::Uv(x) => Some(command_view(x.program(), seq!["tool"@, "upgrade"@, name])),
        Source::Scoop(x) => Some(command_view(x.program(), seq!["update"@, name])),
        Source::Cargo(x) => Some(command_view(x.program(), seq!["install"@, name])),
        Source::Go(x) => Some(command_view(x.program(), seq!["install"@, name + "@latest"@])),
        Source::Dotnet(x) => Some(
            command_view(x.program(), seq!["tool"@, "update"@, "--global"@, name]),
        ),
        Source::PsGallery(x) => Some(
            command_view(
                x.program(),
                psgallery::shell_args(
                    "Update-Module -Name "@ + psgallery::quoted_name(name)
                        + " -Scope CurrentUser -Force"@,
                ),
            ),
        ),
        Source::Gem(x) => Some(command_view(x.program(), seq!["update"@, name])),
        Source::Winget(_) => None,
        Source::Choco(_) => None,
    }
}

/// The command that removes `name` through `s`, if `s` can remove packages.
pub open spec fn uninstall_spec(s: Source, name: Seq<char>) -> Option<CommandView> {
    match s {
        Source::Npm(x) => Some(command_view(x.program(), seq!["uninstall"@, "-g"@, name])),
        Source::Bun(x) => Some(command_view(x.program(), seq!["remove"@, "-g"@, name])),
        Source::Pnpm(x) => Some(command_view(x.program(), seq!["remove"@, "-g"@, name])),
        Source::Yarn(x) => Some(command_view(x.program(), seq!["global"@, "remove"@, name])),
        Source::Pipx(x) => Some(command_view(x.program(), seq!["uninstall"@, name])),
        Source::Uv(x) => Some(command_view(x.program(), seq!["tool"@, "uninstall"@, name])),
        Source::Scoop(x) => Some(command_view(x.program(), seq!["uninstall"@, name])),
        Source::Cargo(x) => Some(command_view(x.program(), seq!["uninstall"@, name])),
        Source::Go(_) => None,
        Source::Dotnet(x) => Some(
            command_view(x.program(), seq!["tool"@, "uninstall"@, "--global"@, name]),
        ),
        Source::PsGallery(x) => Some(
            command_view(
                x.program(),
                psgallery::shell_args("Uninstall-Module -Name "@ + psgallery::quoted_name(name)),
            ),
        ),
        Source::Gem(x) => Some(
            command_view(x.program(), seq!["uninstall"@, name, "--all"@, "--executables"@]),
        ),
        Source::Winget(_) => None,
        Source::Choco(_) => None,
    }
}

pub open spec fn opt_command(c: Option<CommandLine>) -> Option<CommandView> {
    match c {
        Some(c) => Some(c@),
        None => None,
    }
}

impl Source {
    pub fn kind(&self) -> (k: SourceKind)
        ensures
            k == kind_of(*self),
    {
        match self {
            Source::Npm(_) => SourceKind::Npm,
            Source::Bun(_) => SourceKind::Bun,
            Source::Pnpm(_) => SourceKind::Pnpm,
            Source::Yarn(_) => SourceKind::Yarn,
            Source::Pipx(_) => SourceKind::Pipx,
            Source::Uv(_) => SourceKind::Uv,
            Source::Scoop(_) => SourceKind::Scoop,
            Source::Cargo(_) => SourceKind::Cargo,
            Source::Go(_) => SourceKind::Go,
            Source::Dotnet(_) => SourceKind::Dotnet,
            Source::PsGallery(_) => SourceKind::PsGallery,
            Source::Gem(_) => SourceKind::Gem,
            Source::Winget(_) => SourceKind::Winget,
            Source::Choco(_) => SourceKind::Choco,
        }
    }

    pub fn update_command(&self, name: &str) -> (c: Option<CommandLine>)
        ensures
            opt_command(c) == update_spec(*self, name@),
    {
        match self {
            Source::Npm(x) => x.update_command(name),
            Source::Bun(x) => x.update_command(name),
            Source::Pnpm(x) => x.update_command(name),
            Source::Yarn(x) => x.update_command(name),
            Source::Pipx(x) => x.update_command(name),
            Source::Uv(x) => x.update_command(name),
            Source::Scoop(x) => x.update_command(name),
            Source::Cargo(x) => x.update_command(name),
            Source::Go(x) => x.update_command(name),
            Source::Dotnet(x) => x.update_command(name),
            Source::PsGallery(x) => x.update_command(name),
            Source::Gem(x) => x.update_command(name),
            Source::Winget(x) => x.update_command(name),
            Source::Choco(x) => x.update_command(name),
        }
    }

    /// The command that removes `name` through this source: none for Go,
    /// winget and Chocolatey.
    pub fn uninstall_command(&self, name: &str) -> (c: Option<CommandLine>)
        ensures
            opt_command(c) == uninstall_spec(*self, name@),
            c is Some <==> crate::model::is_removable(kind_of(*self)),
    {
        match self {
            Source::Npm(x) => x.uninstall_command(name),
            Source::Bun(x) => x.uninstall_command(name),
            Source::Pnpm(x) => x.uninstall_command(name),
            Source::Yarn(x) => x.uninstall_command(name),
            Source::Pipx(x) => x.uninstall_command(name),
            Source::Uv(x) => x.uninstall_command(name),
            Source::Scoop(x) => x.uninstall_command(name),
            Source::Cargo(x) => x.uninstall_command(name),
            Source::Go(x) => x.uninstall_command(name),
            Source::Dotnet(x) => x.uninstall_command(name),
            Source::PsGallery(x) => x.uninstall_command(name),
            Source::Gem(x) => x.uninstall_command(name),
            Source::Winget(x) => x.uninstall_command(name),
            Source::Choco(x) => x.uninstall_command(name),
        }
    }
}


/// A source is read only exactly when it has no update command: Globlin
/// never offers to update what it cannot update, and offers every source
/// that can.
pub proof fn lemma_read_only_means_no_update_command(s: Source, name: Seq<char>)
    ensures
        crate::model::is_read_only(kind_of(s)) <==> update_spec(s, name) is None,
{
}

/// A source offers removal exactly when it has an uninstall command.
pub proof fn lemma_removable_means_an_uninstall_command(s: Source, name: Seq<char>)
    ensures
        crate::model::is_removable(kind_of(s)) <==> uninstall_spec(s, name) is Some,
{
}

} // verus!
