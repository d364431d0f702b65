//! What the window shows, as plain data: one snapshot of the whole state
//! for a full render, and a smaller tick for each animation frame. The page
//! receives either as JSON through a script call.
use vstd::prelude::*;

use crate::config::{switched_on, Config};
use crate::model::{
    is_read_only, is_removable, label_of, latest_of, row_state, status_label, tally,
    Activity, Batch, Package, RowState, SourceKind, Status,
};
use crate::source::{kind_at, kind_at_index};
use crate::tray::menu::{
    action_of, lemma_ignore_id_round_trip, lemma_remove_id_round_trip, lemma_source_id_round_trip,
    lemma_update_id_round_trip, ActionView, active_batch_of, batch_row_text, headline, headline_of, ignore_id, key_of, key_spec,
    remove_id, row_text_of, source_id, update_id, SelfUpdate, TrayView, IGNORE_PREFIX,
    REMOVE_PREFIX, SOURCE_PREFIX, UPDATE_PREFIX,
};
use crate::VERSION;

verus! {

pub const TITLE: &'static str = "Globlin";

/// Everything the window renders.
#[derive(Debug, PartialEq, Eq)]
pub struct Snapshot {
    pub headline: String,
    pub busy: bool,
    pub version: &'static str,
    pub autostart: bool,
    pub auto_update: bool,
    /// The version of a newer build Globlin can install, if one is known.
    pub self_update: Option<String>,
    /// Who owns Globlin's updates when it is not Globlin.
    pub managed_by: Option<&'static str>,
    pub sources: Vec<SourceRow>,
    pub packages: Vec<Row>,
    pub batch: Vec<BatchRow>,
}

/// One package row, with the ids of the buttons that act on it.
#[derive(Debug, PartialEq, Eq)]
pub struct Row {
    pub key: String,
    pub name: String,
    pub source: &'static str,
    pub current: String,
    pub latest: Option<String>,
    pub status: &'static str,
    pub read_only: bool,
    pub removable: bool,
    pub update_id: String,
    pub ignore_id: String,
    pub remove_id: String,
}

/// One source in the sidebar.
#[derive(Debug, PartialEq, Eq)]
pub struct SourceRow {
    pub label: &'static str,
    pub id: String,
    pub enabled: bool,
    pub read_only: bool,
    pub total: usize,
    pub outdated: usize,
}

/// One row of a running batch.
#[derive(Debug, PartialEq, Eq)]
pub struct BatchRow {
    pub text: String,
    pub state: &'static str,
}

/// What changes from one animation frame to the next.
#[derive(Debug, PartialEq, Eq)]
pub struct Tick {
    pub headline: String,
    pub busy: bool,
    pub batch: Vec<BatchRow>,
}

/// `r` shows package `p`.
pub open spec fn shows_package(r: Row, p: Package) -> bool {
    &&& r.key@ == key_spec(p.source, p.name@)
    &&& r.name@ == p.name@
    &&& r.source@ == label_of(p.source)
    &&& r.current@ == p.current@
    &&& crate::model::opt_view(r.latest) == latest_of(p)
    &&& r.status@ == status_label(p.status)
    &&& r.read_only == is_read_only(p.source)
    &&& r.removable == is_removable(p.source)
    &&& r.update_id@ == UPDATE_PREFIX@ + key_spec(p.source, p.name@)
    &&& r.ignore_id@ == IGNORE_PREFIX@ + key_spec(p.source, p.name@)
    &&& r.remove_id@ == REMOVE_PREFIX@ + key_spec(p.source, p.name@)
}

/// Packages of source `kind`.
pub open spec fn from_source(kind: SourceKind) -> spec_fn(Package) -> bool {
    |p: Package| p.source == kind
}

/// Packages of source `kind` that are behind.
pub open spec fn behind_in(kind: SourceKind) -> spec_fn(Package) -> bool {
    |p: Package| p.source == kind && p.status is Outdated
}

/// `r` is the sidebar row of `kind`: its counts are those of its own
/// packages, whether or not the source is switched on.
pub open spec fn shows_source(r: SourceRow, kind: SourceKind, packages: Seq<Package>, config: Config) -> bool {
    &&& r.label@ == label_of(kind)
    &&& r.id@ == SOURCE_PREFIX@ + label_of(kind)
    &&& r.enabled == switched_on(config.sources, kind)
    &&& r.read_only == is_read_only(kind)
    &&& r.total == tally(packages, from_source(kind))
    &&& r.outdated == tally(packages, behind_in(kind))
}

/// The word for a row's state.
pub open spec fn state_word(s: RowState) -> Seq<char> {
    match s {
        RowState::Done => "done"@,
        RowState::Failed => "failed"@,
        RowState::Active => "active"@,
        RowState::Queued => "queued"@,
    }
}

/// `rows` are the rows of the running batch, one per target in order, or
/// none when no batch runs.
pub open spec fn shows_batch(rows: Seq<BatchRow>, view: TrayView) -> bool {
    match active_batch_of(view.activity) {
        Some(b) => {
            &&& rows.len() == b.targets@.len()
            &&& forall|p: int|
                0 <= p < rows.len() ==> {
                    &&& (#[trigger] rows[p]).text@ == row_text_of(view, b, p)
                    &&& rows[p].state@ == state_word(row_state(b, p))
                }
        },
        None => rows.len() == 0,
    }
}

fn row(package: &Package) -> (r: Row)
    ensures
        shows_package(r, *package),
{
    let latest = match package.latest() {
        Some(l) => Some(l.clone()),
        None => None,
    };
    Row {
        key: key_of(package),
        name: package.name.clone(),
        source: package.source.label(),
        current: package.current.clone(),
        latest,
        status: package.status.label(),
        read_only: package.source.read_only(),
        removable: package.source.removable(),
        update_id: update_id(package),
        ignore_id: ignore_id(package),
        remove_id: remove_id(package),
    }
}

fn package_rows(packages: &[Package]) -> (rows: Vec<Row>)
    ensures
        rows@.len() == packages@.len(),
        forall|i: int| 0 <= i < rows@.len() ==> shows_package(#[trigger] rows@[i], packages@[i]),
{
    let mut rows: Vec<Row> = Vec::new();
    let mut i: usize = 0;
    while i < packages.len()
        invariant
            i <= packages@.len(),
            rows@.len() == i,
            forall|k: int| 0 <= k < rows@.len() ==> shows_package(#[trigger] rows@[k], packages@[k]),
        decreases packages@.len() - i,
    {
        rows.push(row(&packages[i]));
        i = i + 1;
    }
    rows
}

fn source_row(kind: SourceKind, packages: &[Package], config: &Config) -> (r: SourceRow)
    ensures
        shows_source(r, kind, packages@, *config),
{
    let mut total: usize = 0;
    let mut outdated: usize = 0;
    let mut i: usize = 0;
    while i < packages.len()
        invariant
            i <= packages@.len(),
            total == tally(packages@.take(i as int), from_source(kind)),
            outdated == tally(packages@.take(i as int), behind_in(kind)),
        decreases packages@.len() - i,
    {
        proof {
            crate::model::lemma_tally_step(packages@, i as int, from_source(kind));
            crate::model::lemma_tally_step(packages@, i as int, behind_in(kind));
            crate::model::lemma_tally_bound(packages@.take(i as int), from_source(kind));
            crate::model::lemma_tally_bound(packages@.take(i as int), behind_in(kind));
        }
        if packages[i].source == kind {
            total = total + 1;
            if matches!(packages[i].status, Status::Outdated { .. }) {
                outdated = outdated + 1;
            }
        }
        i = i + 1;
    }
    assert(packages@.take(packages@.len() as int) == packages@);
    SourceRow {
        label: kind.label(),
        id: source_id(kind),
        enabled: config.source_enabled(kind),
        read_only: kind.read_only(),
        total,
        outdated,
    }
}

fn source_rows(packages: &[Package], config: &Config) -> (rows: Vec<SourceRow>)
    ensures
        rows@.len() == 14,
        forall|i: int|
            0 <= i < 14 ==> shows_source(#[trigger] rows@[i], kind_at(i), packages@, *config),
{
    let mut rows: Vec<SourceRow> = Vec::new();
    let mut i: usize = 0;
    while i < 14
        invariant
            i <= 14,
            rows@.len() == i,
            forall|k: int|
                0 <= k < rows@.len() ==> shows_source(#[trigger] rows@[k], kind_at(k), packages@, *config),
        decreases 14 - i,
    {
        rows.push(source_row(kind_at_index(i), packages, config));
        i = i + 1;
    }
    rows
}

/// The word for how row `position` of `batch` stands.
pub fn state_label(batch: &Batch, position: usize) -> (s: &'static str)
    ensures
        s@ == state_word(row_state(*batch, position as int)),
{
    match batch.state_of(position) {
        RowState::Done => "done",
        RowState::Failed => "failed",
        RowState::Active => "active",
        RowState::Queued => "queued",
    }
}

fn batch_rows(view: &TrayView) -> (rows: Vec<BatchRow>)
    ensures
        shows_batch(rows@, *view),
{
    let mut rows: Vec<BatchRow> = Vec::new();
    if let Some(Activity::Updating { batch }) = view.activity {
        let total = batch.total();
        let mut position: usize = 0;
        while position < total
            invariant
                position <= total,
                total == batch.targets@.len(),
                active_batch_of(view.activity) == Some(*batch),
                rows@.len() == position,
                forall|p: int|
                    0 <= p < rows@.len() ==> {
                        &&& (#[trigger] rows@[p]).text@ == row_text_of(*view, *batch, p)
                        &&& rows@[p].state@ == state_word(row_state(*batch, p))
                    },
            decreases total - position,
        {
            let text = match batch_row_text(view, position) {
                Some(t) => t,
                None => String::new(),
            };
            rows.push(BatchRow { text, state: state_label(batch, position) });
            position = position + 1;
        }
    }
    rows
}

/// The whole window for `view` and `config`.
pub fn snapshot(view: &TrayView, config: &Config) -> (s: Snapshot)
    ensures
        s.headline@ == headline_of(*view),
        s.busy == view.activity is Some,
        s.version@ == VERSION@,
        s.autostart == view.autostart,
        match view.self_update {
            SelfUpdate::Winget => {
                &&& s.self_update is None
                &&& !s.auto_update
                &&& s.managed_by matches Some(m) && m@ == "winget"@
            },
            SelfUpdate::Own { release, auto_update, .. } => {
                &&& crate::model::opt_view(s.self_update) == match release {
                    Some(r) => Some(r.version@),
                    None => None,
                }
                &&& s.auto_update == auto_update
                &&& s.managed_by is None
            },
        },
        s.sources@.len() == 14,
        forall|i: int|
            0 <= i < 14 ==> shows_source(#[trigger] s.sources@[i], kind_at(i), view.packages@, *config),
        s.packages@.len() == view.packages@.len(),
        forall|i: int|
            0 <= i < s.packages@.len() ==> shows_package(#[trigger] s.packages@[i], view.packages@[i]),
        shows_batch(s.batch@, *view),
{
    let (self_update, auto_update, managed_by) = match view.self_update {
        SelfUpdate::Winget => (None, false, Some("winget")),
        SelfUpdate::Own { release, auto_update, .. } => {
            let version = match release {
                Some(r) => Some(r.version.clone()),
                None => None,
            };
            (version, auto_update, None)
        },
    };
    Snapshot {
        headline: headline(view),
        busy: view.activity.is_some(),
        version: VERSION,
        autostart: view.autostart,
        auto_update,
        self_update,
        managed_by,
        sources: source_rows(view.packages, config),
        packages: package_rows(view.packages),
        batch: batch_rows(view),
    }
}

/// What the window needs on each animation frame.
pub fn tick(view: &TrayView) -> (t: Tick)
    ensures
        t.headline@ == headline_of(*view),
        t.busy == view.activity is Some,
        shows_batch(t.batch@, *view),
{
    Tick { headline: headline(view), busy: view.activity.is_some(), batch: batch_rows(view) }
}

/// The script that renders a snapshot, given the snapshot as JSON.
pub fn script(payload: &str) -> (s: String)
    ensures
        s@ == "window.globlin.render("@ + payload@ + ")"@,
{
    let mut s = String::from_str("window.globlin.render(");
    s.append(payload);
    s.append(")");
    s
}

/// The script that applies a tick, given the tick as JSON.
pub fn tick_script(body: &str) -> (s: String)
    ensures
        s@ == "window.globlin.tick("@ + body@ + ")"@,
{
    let mut s = String::from_str("window.globlin.tick(");
    s.append(body);
    s.append(")");
    s
}

/// The buttons of a package row send back ids that ask to update, ignore
/// and remove exactly that package, and a sidebar toggle's id asks to
/// switch exactly its source.
pub proof fn lemma_row_ids_act_on_their_package(r: Row, p: Package)
    requires
        shows_package(r, p),
        p.name@.len() > 0,
    ensures
        action_of(r.update_id@) == Some(ActionView::Update { name: p.name@, source: p.source }),
        action_of(r.ignore_id@) == Some(ActionView::ToggleIgnore { name: p.name@ }),
        action_of(r.remove_id@) == Some(ActionView::Remove { name: p.name@, source: p.source }),
{
    lemma_update_id_round_trip(p.source, p.name@);
    lemma_ignore_id_round_trip(p.source, p.name@);
    lemma_remove_id_round_trip(p.source, p.name@);
}

/// A sidebar row's toggle asks to switch the source the row shows.
pub proof fn lemma_source_row_toggles_its_source(
    r: SourceRow,
    kind: SourceKind,
    packages: Seq<Package>,
    config: Config,
)
    requires
        shows_source(r, kind, packages, config),
    ensures
        action_of(r.id@) == Some(ActionView::ToggleSource { kind }),
{
    lemma_source_id_round_trip(kind);
}

} // verus!
