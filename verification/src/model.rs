//! The data the rest of the library passes around: package sources, what a
//! source reports as installed, the packages the menu and window show, and
//! the state of a running batch of updates.
use vstd::prelude::*;

use crate::text::{chars_of, same, string_of};

verus! {

/// A package manager that Globlin reads from.
#[derive(Debug, Clone, Copy, PartialEq, Eq, Hash, Structural)]
pub enum SourceKind {
    Npm,
    Bun,
    Pnpm,
    Yarn,
    Pipx,
    Uv,
    Scoop,
    Cargo,
    Go,
    Dotnet,
    PsGallery,
    Gem,
    Winget,
    Choco,
}

/// Every source, in the order the menu, the window and the config list them.
pub const KINDS: [SourceKind; 14] = [
    SourceKind::Npm,
    SourceKind::Bun,
    SourceKind::Pnpm,
    SourceKind::Yarn,
    SourceKind::Pipx,
    SourceKind::Uv,
    SourceKind::Scoop,
    SourceKind::Cargo,
    SourceKind::Go,
    SourceKind::Dotnet,
    SourceKind::PsGallery,
    SourceKind::Gem,
    SourceKind::Winget,
    SourceKind::Choco,
];

/// The label of a source: its name in menu ids, the window and the config.
pub open spec fn label_of(kind: SourceKind) -> Seq<char> {
    match kind {
        SourceKind::Npm => "npm"@,
        SourceKind::Bun => "bun"@,
        SourceKind::Pnpm => "pnpm"@,
        SourceKind::Yarn => "yarn"@,
        SourceKind::Pipx => "pipx"@,
        SourceKind::Uv => "uv"@,
        SourceKind::Scoop => "scoop"@,
        SourceKind::Cargo => "cargo"@,
        SourceKind::Go => "go"@,
        SourceKind::Dotnet => "dotnet"@,
        SourceKind::PsGallery => "psgallery"@,
        SourceKind::Gem => "gem"@,
        SourceKind::Winget => "winget"@,
        SourceKind::Choco => "choco"@,
    }
}

/// The source whose label is `s`, if any.
pub open spec fn kind_labelled(s: Seq<char>) -> Option<SourceKind> {
    if s == label_of(SourceKind::Npm) {
        Some(SourceKind::Npm)
    } else if s == label_of(SourceKind::Bun) {
        Some(SourceKind::Bun)
    } else if s == label_of(SourceKind::Pnpm) {
        Some(SourceKind::Pnpm)
    } else if s == label_of(SourceKind::Yarn) {
        Some(SourceKind::Yarn)
    } else if s == label_of(SourceKind::Pipx) {
        Some(SourceKind::Pipx)
    } else if s == label_of(SourceKind::Uv) {
        Some(SourceKind::Uv)
    } else if s == label_of(SourceKind::Scoop) {
        Some(SourceKind::Scoop)
    } else if s == label_of(SourceKind::Cargo) {
        Some(SourceKind::Cargo)
    } else if s == label_of(SourceKind::Go) {
        Some(SourceKind::Go)
    } else if s == label_of(SourceKind::Dotnet) {
        Some(SourceKind::Dotnet)
    } else if s == label_of(SourceKind::PsGallery) {
        Some(SourceKind::PsGallery)
    } else if s == label_of(SourceKind::Gem) {
        Some(SourceKind::Gem)
    } else if s == label_of(SourceKind::Winget) {
        Some(SourceKind::Winget)
    } else if s == label_of(SourceKind::Choco) {
        Some(SourceKind::Choco)
    } else {
        None
    }
}

/// Sources that Globlin can list but never update or remove from.
pub open spec fn is_read_only(kind: SourceKind) -> bool {
    kind == SourceKind::Winget || kind == SourceKind::Choco
}

/// Sources that Globlin can uninstall a package from.
pub open spec fn is_removable(kind: SourceKind) -> bool {
    !(kind == SourceKind::Go || kind == SourceKind::Winget || kind == SourceKind::Choco)
}

/// What follows a package's name to tell its source apart: nothing for npm,
/// the label in brackets for every other source.
pub open spec fn suffix_of(kind: SourceKind) -> Seq<char> {
    if kind == SourceKind::Npm {
        Seq::empty()
    } else {
        " ("@ + label_of(kind) + ")"@
    }
}

/// Every label is a short lower-case word: no two are the same, and none
/// holds the `:` or `|` that menu ids are built with.
pub proof fn lemma_labels()
    ensures
        forall|a: SourceKind, b: SourceKind| a != b ==> label_of(a) != label_of(b),
        forall|a: SourceKind| !(#[trigger] label_of(a)).contains(':'),
        forall|a: SourceKind| !(#[trigger] label_of(a)).contains('|'),
        forall|a: SourceKind| (#[trigger] label_of(a)).len() > 0,
{
    reveal_strlit("npm");
    reveal_strlit("bun");
    reveal_strlit("pnpm");
    reveal_strlit("yarn");
    reveal_strlit("pipx");
    reveal_strlit("uv");
    reveal_strlit("scoop");
    reveal_strlit("cargo");
    reveal_strlit("go");
    reveal_strlit("dotnet");
    reveal_strlit("psgallery");
    reveal_strlit("gem");
    reveal_strlit("winget");
    reveal_strlit("choco");
    assert forall|a: SourceKind, b: SourceKind| a != b implies label_of(a) != label_of(b) by {
        if label_of(a) == label_of(b) {
            assert(label_of(a).len() == label_of(b).len());
            assert(label_of(a)[0] == label_of(b)[0]);
            assert(label_of(a)[label_of(a).len() - 1] == label_of(b)[label_of(b).len() - 1]);
            assert(label_of(a)[1] == label_of(b)[1]);
        }
    }
}

/// A source's label names it again: reading a label back gives the source.
pub proof fn lemma_label_round_trip(kind: SourceKind)
    ensures
        kind_labelled(label_of(kind)) == Some(kind),
{
    lemma_labels();
}

impl SourceKind {
    pub fn label(&self) -> (s: &'static str)
        ensures
            s@ == label_of(*self),
    {
        match self {
            SourceKind::Npm => "npm",
            SourceKind::Bun => "bun",
            SourceKind::Pnpm => "pnpm",
            SourceKind::Yarn => "yarn",
            SourceKind::Pipx => "pipx",
            SourceKind::Uv => "uv",
            SourceKind::Scoop => "scoop",
            SourceKind::Cargo => "cargo",
            SourceKind::Go => "go",
            SourceKind::Dotnet => "dotnet",
            SourceKind::PsGallery => "psgallery",
            SourceKind::Gem => "gem",
            SourceKind::Winget => "winget",
            SourceKind::Choco => "choco",
        }
    }

    /// The source a label names.
    pub fn from_label(label: &str) -> (r: Option<SourceKind>)
        ensures
            r == kind_labelled(label@),
    {
        let text = chars_of(label);
        Self::labelled(&text)
    }

    /// The source that the characters `text` name.
    pub fn labelled(text: &Vec<char>) -> (r: Option<SourceKind>)
        ensures
            r == kind_labelled(text@),
    {
        if Self::names(text, SourceKind::Npm) {
            Some(SourceKind::Npm)
        } else if Self::names(text, SourceKind::Bun) {
            Some(SourceKind::Bun)
        } else if Self::names(text, SourceKind::Pnpm) {
            Some(SourceKind::Pnpm)
        } else if Self::names(text, SourceKind::Yarn) {
            Some(SourceKind::Yarn)
        } else if Self::names(text, SourceKind::Pipx) {
            Some(SourceKind::Pipx)
        } else if Self::names(text, SourceKind::Uv) {
            Some(SourceKind::Uv)
        } else if Self::names(text, SourceKind::Scoop) {
            Some(SourceKind::Scoop)
        } else if Self::names(text, SourceKind::Cargo) {
            Some(SourceKind::Cargo)
        } else if Self::names(text, SourceKind::Go) {
            Some(SourceKind::Go)
        } else if Self::names(text, SourceKind::Dotnet) {
            Some(SourceKind::Dotnet)
        } else if Self::names(text, SourceKind::PsGallery) {
            Some(SourceKind::PsGallery)
        } else if Self::names(text, SourceKind::Gem) {
            Some(SourceKind::Gem)
        } else if Self::names(text, SourceKind::Winget) {
            Some(SourceKind::Winget)
        } else if Self::names(text, SourceKind::Choco) {
            Some(SourceKind::Choco)
        } else {
            None
        }
    }

    fn names(text: &Vec<char>, kind: SourceKind) -> (r: bool)
        ensures
            r == (text@ == label_of(kind)),
    {
        let label = chars_of(kind.label());
        same(text, &label)
    }

    pub fn read_only(&self) -> (r: bool)
        ensures
            r == is_read_only(*self),
    {
        matches!(self, SourceKind::Winget | SourceKind::Choco)
    }

    pub fn removable(&self) -> (r: bool)
        ensures
            r == is_removable(*self),
    {
        !matches!(self, SourceKind::Go | SourceKind::Winget | SourceKind::Choco)
    }

    pub fn suffix(&self) -> (s: String)
        ensures
            s@ == suffix_of(*self),
    {
        if matches!(self, SourceKind::Npm) {
            String::new()
        } else {
            let mut s = String::from_str(" (");
            s.append(self.label());
            s.append(")");
            s
        }
    }
}

pub open spec fn opt_view(o: Option<String>) -> Option<Seq<char>> {
    match o {
        Some(s) => Some(s@),
        None => None,
    }
}

/// A package as a source reports it: its name, the version installed, and
/// the newest version where the source itself says which one that is.
#[derive(Debug, Clone, PartialEq, Eq)]
pub struct Installed {
    pub name: String,
    pub version: String,
    pub source: SourceKind,
    pub available: Option<String>,
}

pub struct InstalledView {
    pub name: Seq<char>,
    pub version: Seq<char>,
    pub source: SourceKind,
    pub available: Option<Seq<char>>,
}

impl View for Installed {
    type V = InstalledView;

    open spec fn view(&self) -> InstalledView {
        InstalledView {
            name: self.name@,
            version: self.version@,
            source: self.source,
            available: opt_view(self.available),
        }
    }
}

pub open spec fn installed_view(
    name: Seq<char>,
    version: Seq<char>,
    source: SourceKind,
    available: Option<Seq<char>>,
) -> InstalledView {
    InstalledView { name, version, source, available }
}

/// The views of a sequence of reported packages.
pub open spec fn installed_views(v: Seq<Installed>) -> Seq<InstalledView> {
    v.map_values(|i: Installed| i@)
}

impl Installed {
    pub fn new(name: String, version: String, source: SourceKind) -> (r: Installed)
        ensures
            r@ == installed_view(name@, version@, source, None),
    {
        Installed { name, version, source, available: None }
    }

    /// The same package with `available` as the version its source offers.
    pub fn with_available(self, available: Option<String>) -> (r: Installed)
        ensures
            r@ == installed_view(self.name@, self.version@, self.source, opt_view(available)),
    {
        Installed { available, ..self }
    }

    /// A reported package made from the characters of its name and version.
    pub fn from_chars(name: &Vec<char>, version: &Vec<char>, source: SourceKind) -> (r: Installed)
        ensures
            r@ == installed_view(name@, version@, source, None),
    {
        Installed::new(string_of(name), string_of(version), source)
    }
}


// ------------------------------------------------------------------ packages

/// Where a package stands against the newest release its source knows of.
#[derive(Debug, Clone, PartialEq, Eq)]
pub enum Status {
    Outdated { latest: String },
    Current,
    /// The newest release could not be learned, so nothing is claimed.
    Unknown,
    /// The user asked not to hear about this package.
    Ignored,
}

/// The word the window shows for a status.
pub open spec fn status_label(s: Status) -> Seq<char> {
    match s {
        Status::Outdated { .. } => "outdated"@,
        Status::Current => "current"@,
        Status::Unknown => "unknown"@,
        Status::Ignored => "ignored"@,
    }
}

impl Status {
    pub fn label(&self) -> (s: &'static str)
        ensures
            s@ == status_label(*self),
    {
        match self {
            Status::Outdated { .. } => "outdated",
            Status::Current => "current",
            Status::Unknown => "unknown",
            Status::Ignored => "ignored",
        }
    }
}

/// A package Globlin watches: its name, the version installed, the source it
/// came from and how it compares with the newest release.
#[derive(Debug, Clone, PartialEq, Eq)]
pub struct Package {
    pub name: String,
    pub current: String,
    pub source: SourceKind,
    pub status: Status,
}

/// The newest release of a package, where it is known to be newer.
pub open spec fn latest_of(p: Package) -> Option<Seq<char>> {
    match p.status {
        Status::Outdated { latest } => Some(latest@),
        _ => None,
    }
}

/// A package that is behind and that Globlin can update.
pub open spec fn can_update(p: Package) -> bool {
    p.status is Outdated && !is_read_only(p.source)
}

impl Package {
    /// The newest release, where the package is behind it.
    pub fn latest(&self) -> (r: Option<&String>)
        ensures
            match r {
                Some(l) => latest_of(*self) == Some(l@),
                None => latest_of(*self) is None,
            },
    {
        match &self.status {
            Status::Outdated { latest } => Some(latest),
            _ => None,
        }
    }
}

/// How many packages of `ps` pass `keep`.
pub open spec fn tally(ps: Seq<Package>, keep: spec_fn(Package) -> bool) -> nat
    decreases ps.len(),
{
    if ps.len() == 0 {
        0
    } else {
        tally(ps.drop_last(), keep) + if keep(ps.last()) {
            1nat
        } else {
            0nat
        }
    }
}

pub proof fn lemma_tally_step(ps: Seq<Package>, i: int, keep: spec_fn(Package) -> bool)
    requires
        0 <= i < ps.len(),
    ensures
        tally(ps.take(i + 1), keep) == tally(ps.take(i), keep) + if keep(ps[i]) {
            1nat
        } else {
            0nat
        },
{
    assert(ps.take(i + 1).drop_last() == ps.take(i));
}

pub proof fn lemma_tally_bound(ps: Seq<Package>, keep: spec_fn(Package) -> bool)
    ensures
        tally(ps, keep) <= ps.len(),
    decreases ps.len(),
{
    if ps.len() > 0 {
        lemma_tally_bound(ps.drop_last(), keep);
    }
}

/// A tally is the length of the filtered sequence.
pub proof fn lemma_tally_is_filter_len(ps: Seq<Package>, keep: spec_fn(Package) -> bool)
    ensures
        tally(ps, keep) == ps.filter(keep).len(),
    decreases ps.len(),
{
    reveal(Seq::filter);
    if ps.len() > 0 {
        lemma_tally_is_filter_len(ps.drop_last(), keep);
    }
}

/// Two lists whose packages agree, place by place, on whether they are
/// behind have as many packages behind.
pub proof fn lemma_tally_behind_by_status(a: Seq<Package>, b: Seq<Package>)
    requires
        a.len() == b.len(),
        forall|i: int| 0 <= i < a.len() ==> (a[i].status is Outdated) == (b[i].status is Outdated),
    ensures
        tally(a, behind()) == tally(b, behind()),
    decreases a.len(),
{
    if a.len() > 0 {
        lemma_tally_behind_by_status(a.drop_last(), b.drop_last());
        assert(a.last() == a[a.len() - 1]);
        assert(b.last() == b[b.len() - 1]);
    }
}

/// Packages that are behind.
pub open spec fn behind() -> spec_fn(Package) -> bool {
    |p: Package| p.status is Outdated
}

/// Packages that are behind and that Globlin can update.
pub open spec fn updatable() -> spec_fn(Package) -> bool {
    |p: Package| can_update(p)
}

/// How many of `packages` are behind.
pub fn count_outdated(packages: &[Package]) -> (n: usize)
    ensures
        n == tally(packages@, behind()),
{
    let mut n: usize = 0;
    let mut i: usize = 0;
    while i < packages.len()
        invariant
            i <= packages@.len(),
            n == tally(packages@.take(i as int), behind()),
        decreases packages@.len() - i,
    {
        proof {
            lemma_tally_step(packages@, i as int, behind());
            lemma_tally_bound(packages@.take(i as int), behind());
        }
        if matches!(packages[i].status, Status::Outdated { .. }) {
            n = n + 1;
        }
        i = i + 1;
    }
    assert(packages@.take(packages@.len() as int) == packages@);
    n
}

/// How many of `packages` are behind and can be updated by Globlin: those of
/// a read-only source are left out.
pub fn count_updatable(packages: &[Package]) -> (n: usize)
    ensures
        n == tally(packages@, updatable()),
{
    let mut n: usize = 0;
    let mut i: usize = 0;
    while i < packages.len()
        invariant
            i <= packages@.len(),
            n == tally(packages@.take(i as int), updatable()),
        decreases packages@.len() - i,
    {
        proof {
            lemma_tally_step(packages@, i as int, updatable());
            lemma_tally_bound(packages@.take(i as int), updatable());
        }
        if matches!(packages[i].status, Status::Outdated { .. }) && !packages[i].source.read_only() {
            n = n + 1;
        }
        i = i + 1;
    }
    assert(packages@.take(packages@.len() as int) == packages@);
    n
}

/// A package named by the source it comes from.
#[derive(Debug, Clone, PartialEq, Eq)]
pub struct PackageRef {
    pub name: String,
    pub source: SourceKind,
}

/// One package to bring from one version to another.
#[derive(Debug, Clone, PartialEq, Eq)]
pub struct UpdateTarget {
    pub name: String,
    pub source: SourceKind,
    pub from: String,
    pub to: String,
}

impl UpdateTarget {
    /// A copy of this target.
    pub fn copy(&self) -> (r: UpdateTarget)
        ensures
            r == *self,
    {
        UpdateTarget {
            name: self.name.clone(),
            source: self.source,
            from: self.from.clone(),
            to: self.to.clone(),
        }
    }
}

/// One package to uninstall.
#[derive(Debug, Clone, PartialEq, Eq)]
pub struct RemoveTarget {
    pub name: String,
    pub source: SourceKind,
}

/// The target that updates `p` to its newest release.
pub open spec fn target_of(p: Package) -> (Seq<char>, SourceKind, Seq<char>, Seq<char>) {
    (p.name@, p.source, p.current@, latest_of(p).unwrap_or(Seq::empty()))
}

pub open spec fn target_view(t: UpdateTarget) -> (Seq<char>, SourceKind, Seq<char>, Seq<char>) {
    (t.name@, t.source, t.from@, t.to@)
}

/// The packages of `ps` that Globlin can update, as update targets, in order.
pub open spec fn update_targets_of(ps: Seq<Package>) -> Seq<(Seq<char>, SourceKind, Seq<char>, Seq<char>)>
    decreases ps.len(),
{
    if ps.len() == 0 {
        Seq::empty()
    } else if can_update(ps.last()) {
        update_targets_of(ps.drop_last()).push(target_of(ps.last()))
    } else {
        update_targets_of(ps.drop_last())
    }
}

/// What "Update all" works through: every package that is behind and that
/// Globlin can update, in the order given.
pub fn update_targets(packages: &[Package]) -> (r: Vec<UpdateTarget>)
    ensures
        r@.map_values(|t: UpdateTarget| target_view(t)) == update_targets_of(packages@),
{
    let mut r: Vec<UpdateTarget> = Vec::new();
    let mut i: usize = 0;
    while i < packages.len()
        invariant
            i <= packages@.len(),
            r@.map_values(|t: UpdateTarget| target_view(t)) == update_targets_of(packages@.take(i as int)),
        decreases packages@.len() - i,
    {
        let p = &packages[i];
        assert(packages@.take(i + 1).drop_last() == packages@.take(i as int));
        if let Status::Outdated { latest } = &p.status {
            if !p.source.read_only() {
                let t = UpdateTarget {
                    name: p.name.clone(),
                    source: p.source,
                    from: p.current.clone(),
                    to: latest.clone(),
                };
                r.push(t);
            }
        }
        assert(r@.map_values(|t: UpdateTarget| target_view(t)) == update_targets_of(packages@.take(i + 1)));
        i = i + 1;
    }
    assert(packages@.take(packages@.len() as int) == packages@);
    r
}

// ----------------------------------------------------------------- a batch

/// How one row of a running batch stands.
#[derive(Debug, Clone, Copy, PartialEq, Eq, Structural)]
pub enum RowState {
    Done,
    Failed,
    Active,
    Queued,
}

/// A batch of updates worked through one target at a time: which target is
/// running, and how each finished one went.
#[derive(Debug, Clone, PartialEq, Eq)]
pub struct Batch {
    pub targets: Vec<UpdateTarget>,
    pub index: usize,
    pub results: Vec<Option<bool>>,
}

/// How row `p` of `b` stands: a finished row by its result, the running one
/// as active, every other as queued.
pub open spec fn row_state(b: Batch, p: int) -> RowState {
    if 0 <= p < b.results@.len() && b.results@[p] == Some(true) {
        RowState::Done
    } else if 0 <= p < b.results@.len() && b.results@[p] == Some(false) {
        RowState::Failed
    } else if p == b.index {
        RowState::Active
    } else {
        RowState::Queued
    }
}

impl Batch {
    /// A batch over `targets` with nothing finished, at its first target.
    pub fn new(targets: Vec<UpdateTarget>) -> (b: Batch)
        ensures
            b.targets@ == targets@,
            b.index == 0,
            b.results@.len() == targets@.len(),
            forall|p: int| 0 <= p < b.results@.len() ==> #[trigger] b.results@[p] == None::<bool>,
    {
        let mut results: Vec<Option<bool>> = Vec::new();
        let mut i: usize = 0;
        while i < targets.len()
            invariant
                i <= targets@.len(),
                results@.len() == i,
                forall|p: int| 0 <= p < results@.len() ==> #[trigger] results@[p] == None::<bool>,
            decreases targets@.len() - i,
        {
            results.push(None);
            i = i + 1;
        }
        Batch { targets, index: 0, results }
    }

    /// How many targets the batch holds.
    pub fn total(&self) -> (n: usize)
        ensures
            n == self.targets@.len(),
    {
        self.targets.len()
    }

    /// Moves the batch on to target `position`.
    pub fn start(&mut self, position: usize)
        ensures
            final(self).index == position,
            final(self).targets@ == old(self).targets@,
            final(self).results@ == old(self).results@,
    {
        self.index = position;
    }

    /// Records how target `position` went; a position past the results
    /// changes nothing.
    pub fn finish(&mut self, position: usize, ok: bool)
        ensures
            final(self).index == old(self).index,
            final(self).targets@ == old(self).targets@,
            final(self).results@ == if position < old(self).results@.len() {
                old(self).results@.update(position as int, Some(ok))
            } else {
                old(self).results@
            },
    {
        if position < self.results.len() {
            self.results.set(position, Some(ok));
        }
    }

    /// How row `position` stands.
    pub fn state_of(&self, position: usize) -> (s: RowState)
        ensures
            s == row_state(*self, position as int),
    {
        if position < self.results.len() {
            match self.results[position] {
                Some(true) => {
                    return RowState::Done;
                },
                Some(false) => {
                    return RowState::Failed;
                },
                None => {},
            }
        }
        if position == self.index {
            RowState::Active
        } else {
            RowState::Queued
        }
    }

    /// The target that is running, if the batch has one at its position.
    pub fn current(&self) -> (r: Option<&UpdateTarget>)
        ensures
            match r {
                Some(t) => self.index < self.targets@.len() && *t == self.targets@[self.index as int],
                None => self.index >= self.targets@.len(),
            },
    {
        if self.index < self.targets.len() {
            Some(&self.targets[self.index])
        } else {
            None
        }
    }

    /// Target `position`, if the batch has one there.
    pub fn target(&self, position: usize) -> (r: Option<&UpdateTarget>)
        ensures
            match r {
                Some(t) => position < self.targets@.len() && *t == self.targets@[position as int],
                None => position >= self.targets@.len(),
            },
    {
        if position < self.targets.len() {
            Some(&self.targets[position])
        } else {
            None
        }
    }
}

/// A finished row keeps its result: recording a failure never shows the row
/// as done, recording a success always does, and no other row changes.
pub proof fn lemma_finish_rows(before: Batch, after: Batch, position: int, ok: bool)
    requires
        0 <= position < before.results@.len(),
        after.index == before.index,
        after.results@ == before.results@.update(position, Some(ok)),
    ensures
        row_state(after, position) == (if ok {
            RowState::Done
        } else {
            RowState::Failed
        }),
        forall|p: int| p != position ==> row_state(after, p) == row_state(before, p),
{
}

/// What Globlin is busy with, if anything.
#[derive(Debug, Clone, PartialEq, Eq)]
pub enum Activity {
    Checking,
    Updating { batch: Batch },
    Removing { target: RemoveTarget },
    SelfUpdate,
}


/// Whether target `j` of `ts` is the target of package `i` of `ps`, a
/// package that is behind, of a source that is not read only.
pub open spec fn comes_from(
    ts: Seq<(Seq<char>, SourceKind, Seq<char>, Seq<char>)>,
    j: int,
    ps: Seq<Package>,
    i: int,
) -> bool {
    0 <= i < ps.len() && ps[i].status is Outdated && !is_read_only(ps[i].source) && ts[j]
        == target_of(ps[i])
}

/// Target `j` of `ts` is the target of some package of `ps` that is behind,
/// of a source that is not read only.
pub open spec fn from_a_package(
    ts: Seq<(Seq<char>, SourceKind, Seq<char>, Seq<char>)>,
    j: int,
    ps: Seq<Package>,
) -> bool {
    exists|i: int| #[trigger] comes_from(ts, j, ps, i)
}

/// No update target comes from a source that cannot update: every target
/// "Update all" works through belongs to a package that is behind, of a
/// source that is not read only, and goes from its installed version to
/// its newest.
pub proof fn lemma_update_targets_can_update(ps: Seq<Package>)
    ensures
        forall|j: int|
            0 <= j < update_targets_of(ps).len() ==> #[trigger] from_a_package(
                update_targets_of(ps),
                j,
                ps,
            ),
    decreases ps.len(),
{
    if ps.len() > 0 {
        let pre = ps.drop_last();
        let ts = update_targets_of(ps);
        let tp = update_targets_of(pre);
        lemma_update_targets_can_update(pre);
        assert forall|j: int| 0 <= j < ts.len() implies #[trigger] from_a_package(ts, j, ps) by {
            if j < tp.len() {
                assert(from_a_package(tp, j, pre));
                let i = choose|i: int| #[trigger] comes_from(tp, j, pre, i);
                assert(ts[j] == tp[j]);
                assert(ps[i] == pre[i]);
                assert(comes_from(ts, j, ps, i));
            } else {
                assert(can_update(ps.last()));
                assert(ts[j] == target_of(ps.last()));
                assert(comes_from(ts, j, ps, ps.len() - 1));
            }
        }
    }
}

} // verus!
