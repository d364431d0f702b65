//! The tray menu as data: the ids its rows carry, what a clicked id asks
//! for, the headline, the rows of a running batch, and the whole menu for a
//! given state of the app.
use vstd::prelude::*;

use crate::model::{
    behind, count_outdated, count_updatable, kind_labelled, label_of, lemma_labels, row_state,
    suffix_of, tally, updatable, Activity, Batch, Package, PackageRef, RowState, SourceKind,
    UpdateTarget,
};
use crate::progress::{bar, bar_of, working, working_of};
use crate::selfupdate::Release;
use crate::text::{
    chars_of, decimal, decimal_string, deep, lemma_filter_map_step, lemma_split_once_char,
    lemma_strip_prefix, push_char, same, split, split_on, split_once, split_once_at, string_of,
    strip_prefix, without_prefix,
};
use crate::VERSION;

verus! {

broadcast use vstd::seq_lib::group_seq_properties;

pub const ID_UPDATE_ALL: &'static str = "update-all";
pub const ID_CHECK_NOW: &'static str = "check-now";
pub const ID_OPEN_WINDOW: &'static str = "open-window";
pub const ID_WINDOW_READY: &'static str = "window-ready";
pub const ID_AUTOSTART: &'static str = "autostart";
pub const ID_UPDATE_SELF: &'static str = "update-self";
pub const ID_AUTO_UPDATE: &'static str = "auto-update";
pub const ID_OPEN_LOG: &'static str = "open-log";
pub const ID_OPEN_SELF_LOG: &'static str = "open-self-log";
pub const ID_QUIT: &'static str = "quit";
pub const UPDATE_PREFIX: &'static str = "update:";
pub const UPDATE_MANY_PREFIX: &'static str = "update-many:";
pub const IGNORE_PREFIX: &'static str = "ignore:";
pub const REMOVE_PREFIX: &'static str = "remove:";
pub const SOURCE_PREFIX: &'static str = "source:";
pub const REF_SEPARATOR: char = '|';

/// The header's dots grow by one every `FRAMES_PER_DOT` frames and start
/// again after `DOT_CYCLE` steps.
pub const DOT_CYCLE: u32 = 4;
pub const FRAMES_PER_DOT: u32 = 2;

/// What a menu row or a window button asks for.
#[derive(Debug, Clone, PartialEq, Eq)]
pub enum Action {
    Update { name: String, source: SourceKind },
    UpdateMany { refs: Vec<PackageRef> },
    ToggleIgnore { name: String },
    Remove { name: String, source: SourceKind },
    ToggleSource { kind: SourceKind },
    UpdateAll,
    CheckNow,
    OpenWindow,
    WindowReady,
    ToggleAutostart,
    UpdateSelf,
    ToggleAutoUpdate,
    OpenLog,
    OpenSelfLog,
    Quit,
}

/// An action with its text as character sequences.
pub enum ActionView {
    Update { name: Seq<char>, source: SourceKind },
    UpdateMany { refs: Seq<(Seq<char>, SourceKind)> },
    ToggleIgnore { name: Seq<char> },
    Remove { name: Seq<char>, source: SourceKind },
    ToggleSource { kind: SourceKind },
    UpdateAll,
    CheckNow,
    OpenWindow,
    WindowReady,
    ToggleAutostart,
    UpdateSelf,
    ToggleAutoUpdate,
    OpenLog,
    OpenSelfLog,
    Quit,
}

pub open spec fn ref_view(r: PackageRef) -> (Seq<char>, SourceKind) {
    (r.name@, r.source)
}

pub open spec fn ref_views(refs: Seq<PackageRef>) -> Seq<(Seq<char>, SourceKind)> {
    refs.map_values(|r: PackageRef| ref_view(r))
}

impl View for Action {
    type V = ActionView;

    open spec fn view(&self) -> ActionView {
        match self {
            Action::Update { name, source } => ActionView::Update { name: name@, source: *source },
            Action::UpdateMany { refs } => ActionView::UpdateMany { refs: ref_views(refs@) },
            Action::ToggleIgnore { name } => ActionView::ToggleIgnore { name: name@ },
            Action::Remove { name, source } => ActionView::Remove { name: name@, source: *source },
            Action::ToggleSource { kind } => ActionView::ToggleSource { kind: *kind },
            Action::UpdateAll => ActionView::UpdateAll,
            Action::CheckNow => ActionView::CheckNow,
            Action::OpenWindow => ActionView::OpenWindow,
            Action::WindowReady => ActionView::WindowReady,
            Action::ToggleAutostart => ActionView::ToggleAutostart,
            Action::UpdateSelf => ActionView::UpdateSelf,
            Action::ToggleAutoUpdate => ActionView::ToggleAutoUpdate,
            Action::OpenLog => ActionView::OpenLog,
            Action::OpenSelfLog => ActionView::OpenSelfLog,
            Action::Quit => ActionView::Quit,
        }
    }
}

pub open spec fn action_opt(r: Option<Action>) -> Option<ActionView> {
    match r {
        Some(a) => Some(a@),
        None => None,
    }
}

// ------------------------------------------------------------------ ids

/// The key of a package: its source's label, a colon, its name.
pub open spec fn key_spec(kind: SourceKind, name: Seq<char>) -> Seq<char> {
    label_of(kind) + seq![':'] + name
}

/// `label:name` read back as a name and a source: the label must name a
/// source and the name must not be empty.
pub open spec fn ref_of(k: Seq<char>) -> Option<(Seq<char>, SourceKind)> {
    match split_once(k, seq![':']) {
        Some((label, name)) => if name.len() == 0 {
            None
        } else {
            match kind_labelled(label) {
                Some(kind) => Some((name, kind)),
                None => None,
            }
        },
        None => None,
    }
}

pub open spec fn ref_parser() -> spec_fn(Seq<char>) -> Option<(Seq<char>, SourceKind)> {
    |p: Seq<char>| ref_of(p)
}

/// The action of a fixed id.
pub open spec fn fixed_action(k: Seq<char>) -> Option<ActionView> {
    if k == ID_UPDATE_ALL@ {
        Some(ActionView::UpdateAll)
    } else if k == ID_CHECK_NOW@ {
        Some(ActionView::CheckNow)
    } else if k == ID_OPEN_WINDOW@ {
        Some(ActionView::OpenWindow)
    } else if k == ID_WINDOW_READY@ {
        Some(ActionView::WindowReady)
    } else if k == ID_AUTOSTART@ {
        Some(ActionView::ToggleAutostart)
    } else if k == ID_UPDATE_SELF@ {
        Some(ActionView::UpdateSelf)
    } else if k == ID_AUTO_UPDATE@ {
        Some(ActionView::ToggleAutoUpdate)
    } else if k == ID_OPEN_LOG@ {
        Some(ActionView::OpenLog)
    } else if k == ID_OPEN_SELF_LOG@ {
        Some(ActionView::OpenSelfLog)
    } else if k == ID_QUIT@ {
        Some(ActionView::Quit)
    } else {
        None
    }
}

pub open spec fn update_action(k: Seq<char>) -> Option<ActionView> {
    match strip_prefix(k, UPDATE_PREFIX@) {
        Some(rest) => match ref_of(rest) {
            Some((name, source)) => Some(ActionView::Update { name, source }),
            None => None,
        },
        None => None,
    }
}

/// The references of a bulk id: every `|`-separated piece that reads as
/// one; pieces that do not are dropped.
pub open spec fn bulk_refs(rest: Seq<char>) -> Seq<(Seq<char>, SourceKind)> {
    split_on(rest, REF_SEPARATOR).filter_map(ref_parser())
}

pub open spec fn many_action(k: Seq<char>) -> Option<ActionView> {
    match strip_prefix(k, UPDATE_MANY_PREFIX@) {
        Some(rest) => if bulk_refs(rest).len() > 0 {
            Some(ActionView::UpdateMany { refs: bulk_refs(rest) })
        } else {
            None
        },
        None => None,
    }
}

pub open spec fn ignore_action(k: Seq<char>) -> Option<ActionView> {
    match strip_prefix(k, IGNORE_PREFIX@) {
        Some(rest) => match ref_of(rest) {
            Some((name, _)) => Some(ActionView::ToggleIgnore { name }),
            None => None,
        },
        None => None,
    }
}

pub open spec fn remove_action(k: Seq<char>) -> Option<ActionView> {
    match strip_prefix(k, REMOVE_PREFIX@) {
        Some(rest) => match ref_of(rest) {
            Some((name, source)) => Some(ActionView::Remove { name, source }),
            None => None,
        },
        None => None,
    }
}

pub open spec fn source_action(k: Seq<char>) -> Option<ActionView> {
    match strip_prefix(k, SOURCE_PREFIX@) {
        Some(rest) => match kind_labelled(rest) {
            Some(kind) => Some(ActionView::ToggleSource { kind }),
            None => None,
        },
        None => None,
    }
}

/// What the id `k` asks for: a fixed id's action, else the first of an
/// update, a bulk update, an ignore toggle, a removal and a source toggle
/// that reads it; an id none of them reads asks for nothing.
pub open spec fn action_of(k: Seq<char>) -> Option<ActionView> {
    if fixed_action(k) is Some {
        fixed_action(k)
    } else if update_action(k) is Some {
        update_action(k)
    } else if many_action(k) is Some {
        many_action(k)
    } else if ignore_action(k) is Some {
        ignore_action(k)
    } else if remove_action(k) is Some {
        remove_action(k)
    } else {
        source_action(k)
    }
}

impl Action {
    /// The action a menu id or a window message names, if any.
    pub fn from_key(key: &str) -> (r: Option<Action>)
        ensures
            action_opt(r) == action_of(key@),
    {
        let k = chars_of(key);
        let fixed = Self::parse_fixed(&k);
        if fixed.is_some() {
            return fixed;
        }
        let update = Self::parse_update(&k);
        if update.is_some() {
            return update;
        }
        let many = Self::parse_update_many(&k);
        if many.is_some() {
            return many;
        }
        let ignore = Self::parse_ignore(&k);
        if ignore.is_some() {
            return ignore;
        }
        let remove = Self::parse_remove(&k);
        if remove.is_some() {
            return remove;
        }
        Self::parse_source(&k)
    }

    fn parse_fixed(k: &Vec<char>) -> (r: Option<Action>)
        ensures
            action_opt(r) == fixed_action(k@),
    {
        if same(k, &chars_of(ID_UPDATE_ALL)) {
            Some(Action::UpdateAll)
        } else if same(k, &chars_of(ID_CHECK_NOW)) {
            Some(Action::CheckNow)
        } else if same(k, &chars_of(ID_OPEN_WINDOW)) {
            Some(Action::OpenWindow)
        } else if same(k, &chars_of(ID_WINDOW_READY)) {
            Some(Action::WindowReady)
        } else if same(k, &chars_of(ID_AUTOSTART)) {
            Some(Action::ToggleAutostart)
        } else if same(k, &chars_of(ID_UPDATE_SELF)) {
            Some(Action::UpdateSelf)
        } else if same(k, &chars_of(ID_AUTO_UPDATE)) {
            Some(Action::ToggleAutoUpdate)
        } else if same(k, &chars_of(ID_OPEN_LOG)) {
            Some(Action::OpenLog)
        } else if same(k, &chars_of(ID_OPEN_SELF_LOG)) {
            Some(Action::OpenSelfLog)
        } else if same(k, &chars_of(ID_QUIT)) {
            Some(Action::Quit)
        } else {
            None
        }
    }

    fn parse_update(k: &Vec<char>) -> (r: Option<Action>)
        ensures
            action_opt(r) == update_action(k@),
    {
        match without_prefix(k, &chars_of(UPDATE_PREFIX)) {
            Some(rest) => match package_ref(&rest) {
                Some(reference) => Some(Action::Update { name: reference.name, source: reference.source }),
                None => None,
            },
            None => None,
        }
    }

    fn parse_update_many(k: &Vec<char>) -> (r: Option<Action>)
        ensures
            action_opt(r) == many_action(k@),
    {
        match without_prefix(k, &chars_of(UPDATE_MANY_PREFIX)) {
            Some(rest) => {
                let parts = split(&rest, REF_SEPARATOR);
                let ghost pieces = deep(parts@);
                let mut refs: Vec<PackageRef> = Vec::new();
                let mut i: usize = 0;
                while i < parts.len()
                    invariant
                        i <= parts@.len(),
                        pieces == deep(parts@),
                        ref_views(refs@) == pieces.take(i as int).filter_map(ref_parser()),
                    decreases parts@.len() - i,
                {
                    proof {
                        lemma_filter_map_step(pieces, i as int, ref_parser());
                    }
                    match package_ref(&parts[i]) {
                        Some(reference) => {
                            refs.push(reference);
                            assert(ref_views(refs@) =~= pieces.take(i as int).filter_map(ref_parser()).push(ref_view(reference)));
                        },
                        None => {},
                    }
                    i = i + 1;
                }
                assert(pieces.take(parts@.len() as int) == pieces);
                if refs.len() == 0 {
                    None
                } else {
                    Some(Action::UpdateMany { refs })
                }
            },
            None => None,
        }
    }

    fn parse_ignore(k: &Vec<char>) -> (r: Option<Action>)
        ensures
            action_opt(r) == ignore_action(k@),
    {
        match without_prefix(k, &chars_of(IGNORE_PREFIX)) {
            Some(rest) => match package_ref(&rest) {
                Some(reference) => Some(Action::ToggleIgnore { name: reference.name }),
                None => None,
            },
            None => None,
        }
    }

    fn parse_remove(k: &Vec<char>) -> (r: Option<Action>)
        ensures
            action_opt(r) == remove_action(k@),
    {
        match without_prefix(k, &chars_of(REMOVE_PREFIX)) {
            Some(rest) => match package_ref(&rest) {
                Some(reference) => Some(Action::Remove { name: reference.name, source: reference.source }),
                None => None,
            },
            None => None,
        }
    }

    fn parse_source(k: &Vec<char>) -> (r: Option<Action>)
        ensures
            action_opt(r) == source_action(k@),
    {
        match without_prefix(k, &chars_of(SOURCE_PREFIX)) {
            Some(rest) => match SourceKind::labelled(&rest) {
                Some(kind) => Some(Action::ToggleSource { kind }),
                None => None,
            },
            None => None,
        }
    }
}

/// `label:name` read back as a package reference.
fn package_ref(key: &Vec<char>) -> (r: Option<PackageRef>)
    ensures
        match r {
            Some(p) => ref_of(key@) == Some(ref_view(p)),
            None => ref_of(key@) is None,
        },
{
    let mut colon: Vec<char> = Vec::new();
    colon.push(':');
    assert(colon@ =~= seq![':']);
    match split_once_at(key, &colon) {
        Some((label, name)) => {
            if name.len() == 0 {
                return None;
            }
            match SourceKind::labelled(&label) {
                Some(source) => Some(PackageRef { name: string_of(&name), source }),
                None => None,
            }
        },
        None => None,
    }
}

/// `prefix` followed by a package's key.
fn prefixed_key(prefix: &str, package: &Package) -> (s: String)
    ensures
        s@ == prefix@ + key_spec(package.source, package.name@),
{
    let mut s = String::from_str(prefix);
    s.append(package.source.label());
    s.append(":");
    s.append(package.name.as_str());
    proof {
        reveal_strlit(":");
        assert(s@ =~= prefix@ + key_spec(package.source, package.name@));
    }
    s
}

/// The id of the row that updates `package`.
pub fn update_id(package: &Package) -> (s: String)
    ensures
        s@ == UPDATE_PREFIX@ + key_spec(package.source, package.name@),
{
    prefixed_key(UPDATE_PREFIX, package)
}

/// The id of the toggle that ignores `package`.
pub fn ignore_id(package: &Package) -> (s: String)
    ensures
        s@ == IGNORE_PREFIX@ + key_spec(package.source, package.name@),
{
    prefixed_key(IGNORE_PREFIX, package)
}

/// The id of the button that uninstalls `package`.
pub fn remove_id(package: &Package) -> (s: String)
    ensures
        s@ == REMOVE_PREFIX@ + key_spec(package.source, package.name@),
{
    prefixed_key(REMOVE_PREFIX, package)
}

/// The id of the toggle that switches a source on or off.
pub fn source_id(kind: SourceKind) -> (s: String)
    ensures
        s@ == SOURCE_PREFIX@ + label_of(kind),
{
    let mut s = String::from_str(SOURCE_PREFIX);
    s.append(kind.label());
    s
}

/// `label:name`: what tells a package apart from the same name in another
/// source.
pub fn key_of(package: &Package) -> (s: String)
    ensures
        s@ == key_spec(package.source, package.name@),
{
    let mut s = String::from_str(package.source.label());
    s.append(":");
    s.append(package.name.as_str());
    proof {
        reveal_strlit(":");
        assert(s@ =~= key_spec(package.source, package.name@));
    }
    s
}

// ------------------------------------------------------------------ laws

/// A key reads back as the name and the source it was made of, provided the
/// name is not empty.
pub proof fn lemma_key_round_trip(kind: SourceKind, name: Seq<char>)
    requires
        name.len() > 0,
    ensures
        ref_of(key_spec(kind, name)) == Some((name, kind)),
{
    lemma_labels();
    lemma_split_once_char(label_of(kind), ':', name);
    crate::model::lemma_label_round_trip(kind);
}

/// Two packages get the same key only when they have the same name and the
/// same source: the same name from two sources gets two keys.
pub proof fn lemma_keys_distinct(a: SourceKind, m: Seq<char>, b: SourceKind, n: Seq<char>)
    requires
        key_spec(a, m) == key_spec(b, n),
    ensures
        a == b,
        m == n,
{
    lemma_labels();
    lemma_split_once_char(label_of(a), ':', m);
    lemma_split_once_char(label_of(b), ':', n);
}

proof fn lemma_not_fixed(k: Seq<char>, c: char)
    requires
        k.len() > 7,
        k[0] == c,
        c != 'c' && c != 'o' && c != 'w' && c != 'a' && c != 'q',
        c == 'u' ==> k[6] == ':',
    ensures
        fixed_action(k) is None,
{
    reveal_strlit("update-all");
    reveal_strlit("check-now");
    reveal_strlit("open-window");
    reveal_strlit("window-ready");
    reveal_strlit("autostart");
    reveal_strlit("update-self");
    reveal_strlit("auto-update");
    reveal_strlit("open-log");
    reveal_strlit("open-self-log");
    reveal_strlit("quit");
    assert(k != ID_UPDATE_ALL@) by {
        if k == ID_UPDATE_ALL@ {
            assert(k[0] == ID_UPDATE_ALL@[0]);
            assert(k[6] == ID_UPDATE_ALL@[6]);
        }
    }
    assert(k != ID_UPDATE_SELF@) by {
        if k == ID_UPDATE_SELF@ {
            assert(k[0] == ID_UPDATE_SELF@[0]);
            assert(k[6] == ID_UPDATE_SELF@[6]);
        }
    }
    assert(k != ID_CHECK_NOW@) by {
        if k == ID_CHECK_NOW@ {
            assert(k[0] == ID_CHECK_NOW@[0]);
        }
    }
    assert(k != ID_OPEN_WINDOW@) by {
        if k == ID_OPEN_WINDOW@ {
            assert(k[0] == ID_OPEN_WINDOW@[0]);
        }
    }
    assert(k != ID_WINDOW_READY@) by {
        if k == ID_WINDOW_READY@ {
            assert(k[0] == ID_WINDOW_READY@[0]);
        }
    }
    assert(k != ID_AUTOSTART@) by {
        if k == ID_AUTOSTART@ {
            assert(k[0] == ID_AUTOSTART@[0]);
        }
    }
    assert(k != ID_AUTO_UPDATE@) by {
        if k == ID_AUTO_UPDATE@ {
            assert(k[0] == ID_AUTO_UPDATE@[0]);
        }
    }
    assert(k != ID_OPEN_LOG@) by {
        if k == ID_OPEN_LOG@ {
            assert(k[0] == ID_OPEN_LOG@[0]);
        }
    }
    assert(k != ID_OPEN_SELF_LOG@) by {
        if k == ID_OPEN_SELF_LOG@ {
            assert(k[0] == ID_OPEN_SELF_LOG@[0]);
        }
    }
    assert(k != ID_QUIT@) by {
        if k == ID_QUIT@ {
            assert(k[0] == ID_QUIT@[0]);
        }
    }
}

proof fn lemma_no_prefix(k: Seq<char>, pre: Seq<char>, i: int)
    requires
        0 <= i < pre.len(),
        i < k.len(),
        k[i] != pre[i],
    ensures
        strip_prefix(k, pre) is None,
{
    if k.len() >= pre.len() {
        assert(k.subrange(0, pre.len() as int)[i] == k[i]);
    }
}

/// Every fixed id the menu and the window carry asks for its own action.
pub proof fn lemma_fixed_ids()
    ensures
        action_of(ID_UPDATE_ALL@) == Some(ActionView::UpdateAll),
        action_of(ID_CHECK_NOW@) == Some(ActionView::CheckNow),
        action_of(ID_OPEN_WINDOW@) == Some(ActionView::OpenWindow),
        action_of(ID_WINDOW_READY@) == Some(ActionView::WindowReady),
        action_of(ID_AUTOSTART@) == Some(ActionView::ToggleAutostart),
        action_of(ID_UPDATE_SELF@) == Some(ActionView::UpdateSelf),
        action_of(ID_AUTO_UPDATE@) == Some(ActionView::ToggleAutoUpdate),
        action_of(ID_OPEN_LOG@) == Some(ActionView::OpenLog),
        action_of(ID_OPEN_SELF_LOG@) == Some(ActionView::OpenSelfLog),
        action_of(ID_QUIT@) == Some(ActionView::Quit),
{
    reveal_strlit("update-all");
    reveal_strlit("check-now");
    reveal_strlit("open-window");
    reveal_strlit("window-ready");
    reveal_strlit("autostart");
    reveal_strlit("update-self");
    reveal_strlit("auto-update");
    reveal_strlit("open-log");
    reveal_strlit("open-self-log");
    reveal_strlit("quit");
    assert(ID_UPDATE_ALL@[0] == 'u');
    assert(ID_CHECK_NOW@[0] == 'c');
    assert(ID_OPEN_WINDOW@[0] == 'o');
    assert(ID_WINDOW_READY@[0] == 'w');
    assert(ID_AUTOSTART@[0] == 'a');
    assert(ID_UPDATE_SELF@[0] == 'u');
    assert(ID_AUTO_UPDATE@[0] == 'a');
    assert(ID_OPEN_LOG@[0] == 'o');
    assert(ID_OPEN_SELF_LOG@[0] == 'o');
    assert(ID_QUIT@[0] == 'q');
}

/// The id of the row that updates a package asks for exactly that update.
pub proof fn lemma_update_id_round_trip(kind: SourceKind, name: Seq<char>)
    requires
        name.len() > 0,
    ensures
        action_of(UPDATE_PREFIX@ + key_spec(kind, name)) == Some(ActionView::Update { name, source: kind }),
{
    let k = UPDATE_PREFIX@ + key_spec(kind, name);
    reveal_strlit("update:");
    lemma_labels();
    assert(k[0] == 'u');
    assert(k[6] == ':');
    lemma_not_fixed(k, 'u');
    lemma_strip_prefix(UPDATE_PREFIX@, key_spec(kind, name));
    lemma_key_round_trip(kind, name);
}

/// The id of the toggle that ignores a package asks to toggle that name.
pub proof fn lemma_ignore_id_round_trip(kind: SourceKind, name: Seq<char>)
    requires
        name.len() > 0,
    ensures
        action_of(IGNORE_PREFIX@ + key_spec(kind, name)) == Some(ActionView::ToggleIgnore { name }),
{
    let k = IGNORE_PREFIX@ + key_spec(kind, name);
    reveal_strlit("ignore:");
    reveal_strlit("update:");
    reveal_strlit("update-many:");
    lemma_labels();
    assert(k[0] == 'i');
    lemma_not_fixed(k, 'i');
    lemma_no_prefix(k, UPDATE_PREFIX@, 0);
    lemma_no_prefix(k, UPDATE_MANY_PREFIX@, 0);
    lemma_strip_prefix(IGNORE_PREFIX@, key_spec(kind, name));
    lemma_key_round_trip(kind, name);
}

/// The id of the button that removes a package asks for exactly that
/// removal.
pub proof fn lemma_remove_id_round_trip(kind: SourceKind, name: Seq<char>)
    requires
        name.len() > 0,
    ensures
        action_of(REMOVE_PREFIX@ + key_spec(kind, name)) == Some(ActionView::Remove { name, source: kind }),
{
    let k = REMOVE_PREFIX@ + key_spec(kind, name);
    reveal_strlit("remove:");
    reveal_strlit("ignore:");
    reveal_strlit("update:");
    reveal_strlit("update-many:");
    lemma_labels();
    assert(k[0] == 'r');
    lemma_not_fixed(k, 'r');
    lemma_no_prefix(k, UPDATE_PREFIX@, 0);
    lemma_no_prefix(k, UPDATE_MANY_PREFIX@, 0);
    lemma_no_prefix(k, IGNORE_PREFIX@, 0);
    lemma_strip_prefix(REMOVE_PREFIX@, key_spec(kind, name));
    lemma_key_round_trip(kind, name);
}

/// Every source's toggle id asks to toggle that source.
pub proof fn lemma_source_id_round_trip(kind: SourceKind)
    ensures
        action_of(SOURCE_PREFIX@ + label_of(kind)) == Some(ActionView::ToggleSource { kind }),
{
    let k = SOURCE_PREFIX@ + label_of(kind);
    reveal_strlit("source:");
    reveal_strlit("remove:");
    reveal_strlit("ignore:");
    reveal_strlit("update:");
    reveal_strlit("update-many:");
    lemma_labels();
    assert(k[0] == 's');
    lemma_not_fixed(k, 's');
    lemma_no_prefix(k, UPDATE_PREFIX@, 0);
    lemma_no_prefix(k, UPDATE_MANY_PREFIX@, 0);
    lemma_no_prefix(k, IGNORE_PREFIX@, 0);
    lemma_no_prefix(k, REMOVE_PREFIX@, 0);
    lemma_strip_prefix(SOURCE_PREFIX@, label_of(kind));
    crate::model::lemma_label_round_trip(kind);
}

// ------------------------------------------------------------------ the state shown

/// How Globlin itself gets new builds.
#[derive(Clone, Copy)]
pub enum SelfUpdate<'a> {
    /// winget installed Globlin and owns its updates.
    Winget,
    /// Globlin replaces itself: `release` is a newer build where one is
    /// known, `log` says whether a self-update has left a log to open.
    Own { release: Option<&'a Release>, auto_update: bool, log: bool },
}

/// Everything the tray menu and the window show.
pub struct TrayView<'a> {
    pub packages: &'a [Package],
    pub activity: Option<&'a Activity>,
    pub autostart: bool,
    pub self_update: SelfUpdate<'a>,
    /// The version a downloaded build waits to be restarted into.
    pub pending_restart: Option<&'a str>,
    /// The animation frame.
    pub frame: u32,
    /// How long the running update has taken, in milliseconds.
    pub elapsed_ms: u64,
}

/// `frame`'s dots: one more every `FRAMES_PER_DOT` frames, starting again
/// after `DOT_CYCLE - 1`.
pub open spec fn dots_of(frame: nat) -> Seq<char> {
    Seq::new((frame / (FRAMES_PER_DOT as nat)) % (DOT_CYCLE as nat), |i: int| '.')
}

pub fn dots(frame: u32) -> (s: String)
    ensures
        s@ == dots_of(frame as nat),
{
    let count = frame / FRAMES_PER_DOT % DOT_CYCLE;
    let mut v: Vec<char> = Vec::new();
    let mut i: u32 = 0;
    while i < count
        invariant
            i <= count,
            count == (frame as nat / (FRAMES_PER_DOT as nat)) % (DOT_CYCLE as nat),
            v@ == Seq::new(i as nat, |j: int| '.'),
        decreases count - i,
    {
        v.push('.');
        i = i + 1;
        assert(v@ =~= Seq::new(i as nat, |j: int| '.'));
    }
    string_of(&v)
}

/// The dots come back to where they started after a full cycle.
pub proof fn lemma_dots_cycle(frame: nat)
    ensures
        dots_of(frame) == dots_of(frame + (DOT_CYCLE * FRAMES_PER_DOT) as nat),
{
    assert((frame + 8) / 2 == frame / 2 + 4);
    assert((frame / 2 + 4) % 4 == (frame / 2) % 4);
}

/// The spinner beside the running row.
pub open spec fn spinner_of(frame: nat) -> char {
    let i = frame % 4;
    if i == 0 {
        '◐'
    } else if i == 1 {
        '◓'
    } else if i == 2 {
        '◑'
    } else {
        '◒'
    }
}

pub fn spinner_tick(frame: u32) -> (c: char)
    ensures
        c == spinner_of(frame as nat),
{
    let i = frame % 4;
    if i == 0 {
        '◐'
    } else if i == 1 {
        '◓'
    } else if i == 2 {
        '◑'
    } else {
        '◒'
    }
}

/// The spinner moves on every frame, shows four different marks, and comes
/// back to the first after four frames.
pub proof fn lemma_spinner_cycle(frame: nat)
    ensures
        spinner_of(frame) == spinner_of(frame + 4),
        spinner_of(frame) != spinner_of(frame + 1),
        spinner_of(frame) != spinner_of(frame + 2),
        spinner_of(frame) != spinner_of(frame + 3),
{
}

/// The headline when nothing runs: how many packages are behind, or how
/// many are watched when none is.
pub open spec fn summary_of(packages: Seq<Package>) -> Seq<char> {
    if packages.len() == 0 {
        "Globlin — nothing found"@
    } else if tally(packages, behind()) == 0 {
        "Globlin — "@ + decimal(packages.len()) + " packages, up to date"@
    } else if tally(packages, behind()) == 1 {
        "Globlin — 1 update available"@
    } else {
        "Globlin — "@ + decimal(tally(packages, behind())) + " updates available"@
    }
}

/// `[position/total]` with a one-based position, for a batch of more than
/// one target.
pub open spec fn counter_of(batch: Batch) -> Seq<char> {
    if batch.targets@.len() > 1 {
        "  ["@ + decimal((batch.index + 1) as nat) + "/"@ + decimal(batch.targets@.len()) + "]"@
    } else {
        Seq::empty()
    }
}

/// The first row of the menu and the tooltip: what is running, or the
/// summary when nothing is.
pub open spec fn headline_of(view: TrayView) -> Seq<char> {
    let dots = dots_of(view.frame as nat);
    match view.activity {
        Some(activity) => match *activity {
            Activity::Checking => "Checking for updates"@ + dots,
            Activity::Updating { batch } => if batch.index < batch.targets@.len() {
                let t = batch.targets@[batch.index as int];
                "Updating "@ + t.name@ + " "@ + t.from@ + " → "@ + t.to@ + counter_of(batch) + dots
            } else {
                "Updating packages"@ + dots
            },
            Activity::Removing { target } => "Removing "@ + target.name@ + suffix_of(target.source)
                + dots,
            Activity::SelfUpdate => "Updating Globlin"@ + dots,
        },
        None => summary_of(view.packages@),
    }
}

fn summary(packages: &[Package]) -> (s: String)
    ensures
        s@ == summary_of(packages@),
{
    if packages.len() == 0 {
        return String::from_str("Globlin — nothing found");
    }
    let count = count_outdated(packages);
    if count == 0 {
        let mut s = String::from_str("Globlin — ");
        s.append(decimal_string(packages.len() as u64).as_str());
        s.append(" packages, up to date");
        s
    } else if count == 1 {
        String::from_str("Globlin — 1 update available")
    } else {
        let mut s = String::from_str("Globlin — ");
        s.append(decimal_string(count as u64).as_str());
        s.append(" updates available");
        s
    }
}

fn counter(batch: &Batch) -> (s: String)
    requires
        batch.index < batch.targets@.len(),
    ensures
        s@ == counter_of(*batch),
{
    if batch.total() > 1 {
        let mut s = String::from_str("  [");
        s.append(decimal_string((batch.index + 1) as u64).as_str());
        s.append("/");
        s.append(decimal_string(batch.total() as u64).as_str());
        s.append("]");
        s
    } else {
        String::new()
    }
}

/// The first row of the menu and the tooltip.
pub fn headline(view: &TrayView) -> (s: String)
    ensures
        s@ == headline_of(*view),
{
    let dots = dots(view.frame);
    match view.activity {
        Some(Activity::Checking) => {
            let mut s = String::from_str("Checking for updates");
            s.append(dots.as_str());
            s
        },
        Some(Activity::Updating { batch }) => match batch.current() {
            Some(target) => {
                let mut s = String::from_str("Updating ");
                s.append(target.name.as_str());
                s.append(" ");
                s.append(target.from.as_str());
                s.append(" → ");
                s.append(target.to.as_str());
                s.append(counter(batch).as_str());
                s.append(dots.as_str());
                s
            },
            None => {
                let mut s = String::from_str("Updating packages");
                s.append(dots.as_str());
                s
            },
        },
        Some(Activity::Removing { target }) => {
            let mut s = String::from_str("Removing ");
            s.append(target.name.as_str());
            s.append(target.source.suffix().as_str());
            s.append(dots.as_str());
            s
        },
        Some(Activity::SelfUpdate) => {
            let mut s = String::from_str("Updating Globlin");
            s.append(dots.as_str());
            s
        },
        None => summary(view.packages),
    }
}

// ------------------------------------------------------------------ batch rows

/// The batch being worked through, if an update runs.
pub open spec fn active_batch_of(activity: Option<&Activity>) -> Option<Batch> {
    match activity {
        Some(a) => match *a {
            Activity::Updating { batch } => Some(batch),
            _ => None,
        },
        None => None,
    }
}

/// A target's row: a mark, the name with its source, and both versions.
pub open spec fn target_label_of(t: UpdateTarget, marker: char) -> Seq<char> {
    seq![marker] + "  "@ + t.name@ + suffix_of(t.source) + "   "@ + t.from@ + " → "@ + t.to@
}

/// The text of row `p` of a running batch: a finished row says how it went,
/// a queued row says so, and the running row spins beside its progress bar.
pub open spec fn row_text_of(view: TrayView, batch: Batch, p: int) -> Seq<char> {
    let t = batch.targets@[p];
    match row_state(batch, p) {
        RowState::Done => target_label_of(t, '✓') + "   done"@,
        RowState::Failed => target_label_of(t, '✗') + "   failed"@,
        RowState::Queued => target_label_of(t, '·') + "   queued"@,
        RowState::Active => target_label_of(t, spinner_of(view.frame as nat)) + "   "@ + bar_of(
            working_of(view.elapsed_ms as nat),
        ),
    }
}

fn target_label(target: &UpdateTarget, marker: char) -> (s: String)
    ensures
        s@ == target_label_of(*target, marker),
{
    let mut s = String::new();
    push_char(&mut s, marker);
    s.append("  ");
    s.append(target.name.as_str());
    s.append(target.source.suffix().as_str());
    s.append("   ");
    s.append(target.from.as_str());
    s.append(" → ");
    s.append(target.to.as_str());
    s
}

/// The text of row `position` of the running batch; none where no batch
/// runs or the batch has no such row.
pub fn batch_row_text(view: &TrayView, position: usize) -> (r: Option<String>)
    ensures
        match active_batch_of(view.activity) {
            Some(b) => if position < b.targets@.len() {
                r is Some && r->0@ == row_text_of(*view, b, position as int)
            } else {
                r is None
            },
            None => r is None,
        },
{
    let batch = match view.activity {
        Some(Activity::Updating { batch }) => batch,
        _ => {
            return None;
        },
    };
    let target = match batch.target(position) {
        Some(t) => t,
        None => {
            return None;
        },
    };
    let text = match batch.state_of(position) {
        RowState::Done => {
            let mut s = target_label(target, '✓');
            s.append("   done");
            s
        },
        RowState::Failed => {
            let mut s = target_label(target, '✗');
            s.append("   failed");
            s
        },
        RowState::Queued => {
            let mut s = target_label(target, '·');
            s.append("   queued");
            s
        },
        RowState::Active => {
            let mut s = target_label(target, spinner_tick(view.frame));
            s.append("   ");
            s.append(bar(working(view.elapsed_ms)).as_str());
            s
        },
    };
    Some(text)
}

/// The row that offers a newer build of Globlin.
pub open spec fn self_update_text_of(release: Release) -> Seq<char> {
    "Update Globlin "@ + VERSION@ + " → "@ + release.version@
}

pub fn self_update_text(release: &Release) -> (s: String)
    ensures
        s@ == self_update_text_of(*release),
{
    let mut s = String::from_str("Update Globlin ");
    s.append(VERSION);
    s.append(" → ");
    s.append(release.version.as_str());
    s
}

// ------------------------------------------------------------------ the menu

/// One row of a menu or of a submenu.
#[derive(Debug, Clone, PartialEq, Eq)]
pub enum Item {
    /// A row of text; a row with an id can be clicked when enabled.
    Text { id: Option<String>, text: String, enabled: bool },
    /// A row with a tick box.
    Check { id: String, text: String, enabled: bool, checked: bool },
    Separator,
}

/// One row of the tray menu: a row, or a submenu of rows.
#[derive(Debug, Clone, PartialEq, Eq)]
pub enum Entry {
    Item(Item),
    Submenu { text: String, enabled: bool, items: Vec<Item> },
}

pub enum ItemView {
    Text { id: Option<Seq<char>>, text: Seq<char>, enabled: bool },
    Check { id: Seq<char>, text: Seq<char>, enabled: bool, checked: bool },
    Separator,
}

pub enum EntryView {
    Item(ItemView),
    Submenu { text: Seq<char>, enabled: bool, items: Seq<ItemView> },
}

impl View for Item {
    type V = ItemView;

    open spec fn view(&self) -> ItemView {
        match self {
            Item::Text { id, text, enabled } => ItemView::Text {
                id: crate::model::opt_view(*id),
                text: text@,
                enabled: *enabled,
            },
            Item::Check { id, text, enabled, checked } => ItemView::Check {
                id: id@,
                text: text@,
                enabled: *enabled,
                checked: *checked,
            },
            Item::Separator => ItemView::Separator,
        }
    }
}

pub open spec fn item_views(items: Seq<Item>) -> Seq<ItemView> {
    items.map_values(|i: Item| i@)
}

impl View for Entry {
    type V = EntryView;

    open spec fn view(&self) -> EntryView {
        match self {
            Entry::Item(item) => EntryView::Item(item@),
            Entry::Submenu { text, enabled, items } => EntryView::Submenu {
                text: text@,
                enabled: *enabled,
                items: item_views(items@),
            },
        }
    }
}

pub open spec fn entry_views(entries: Seq<Entry>) -> Seq<EntryView> {
    entries.map_values(|e: Entry| e@)
}

/// The tray menu, with the places of the rows that change while an update
/// runs: the header, and one row per target of the batch.
pub struct Built {
    pub menu: Vec<Entry>,
    pub header: usize,
    pub rows: Vec<usize>,
}

pub open spec fn text_of(id: Option<Seq<char>>, text: Seq<char>, enabled: bool) -> ItemView {
    ItemView::Text { id, text, enabled }
}

pub open spec fn entry_of(item: ItemView) -> EntryView {
    EntryView::Item(item)
}

/// The rows of the running batch, none when no batch runs.
pub open spec fn row_entries_of(view: TrayView) -> Seq<EntryView> {
    match active_batch_of(view.activity) {
        Some(b) => Seq::new(
            b.targets@.len(),
            |p: int| entry_of(text_of(None, row_text_of(view, b, p), false)),
        ),
        None => Seq::empty(),
    }
}

/// "Update all (n)", offered when Globlin can update at least one package.
pub open spec fn update_all_of(view: TrayView) -> Seq<EntryView> {
    let n = tally(view.packages@, updatable());
    if n > 0 {
        seq![
            entry_of(
                text_of(
                    Some(ID_UPDATE_ALL@),
                    "Update all ("@ + decimal(n) + ")"@,
                    view.activity is None,
                ),
            ),
        ]
    } else {
        Seq::empty()
    }
}

/// The rows that act on the app: open the window, update everything, check
/// now (both held back while something runs), start with Windows, open the
/// last log.
pub open spec fn controls_of(view: TrayView) -> Seq<EntryView> {
    seq![entry_of(text_of(Some(ID_OPEN_WINDOW@), "Open Globlin"@, true))] + update_all_of(view)
        + seq![
        entry_of(text_of(Some(ID_CHECK_NOW@), "Check now"@, view.activity is None)),
        entry_of(
            ItemView::Check {
                id: ID_AUTOSTART@,
                text: "Run at startup"@,
                enabled: true,
                checked: view.autostart,
            },
        ),
        entry_of(text_of(Some(ID_OPEN_LOG@), "Open last log"@, true)),
    ]
}

/// The rows of the submenu named after the running build: a note where
/// winget owns the updates, else the offer of a newer build (held back while
/// something runs), the build waiting for a restart, the auto-update toggle
/// and the self-update log.
pub open spec fn self_items_of(view: TrayView) -> Seq<ItemView> {
    match view.self_update {
        SelfUpdate::Winget => seq![
            text_of(None, "Installed with winget — run winget upgrade"@, false),
        ],
        SelfUpdate::Own { release, auto_update, log } => (match release {
            Some(r) => seq![
                text_of(Some(ID_UPDATE_SELF@), self_update_text_of(*r), view.activity is None),
            ],
            None => Seq::empty(),
        }) + (match view.pending_restart {
            Some(v) => seq![text_of(None, "Restart to finish the update to "@ + v@, false)],
            None => Seq::empty(),
        }) + seq![
            ItemView::Separator,
            ItemView::Check {
                id: ID_AUTO_UPDATE@,
                text: "Auto-update Globlin"@,
                enabled: true,
                checked: auto_update,
            },
        ] + (if log {
            seq![text_of(Some(ID_OPEN_SELF_LOG@), "Open Globlin-update log"@, true)]
        } else {
            Seq::empty()
        }),
    }
}

/// The whole tray menu: the headline; the rows of a running batch; the
/// controls; the submenu of the running build; quit. A separator stands
/// between two groups, and the batch rows, when there are none, bring no
/// separator of their own.
pub open spec fn menu_of(view: TrayView) -> Seq<EntryView> {
    let rows = row_entries_of(view);
    seq![entry_of(text_of(None, headline_of(view), false)), entry_of(ItemView::Separator)] + rows
        + (if rows.len() > 0 {
        seq![entry_of(ItemView::Separator)]
    } else {
        Seq::empty()
    }) + controls_of(view) + seq![
        entry_of(ItemView::Separator),
        EntryView::Submenu {
            text: "Globlin v"@ + VERSION@,
            enabled: true,
            items: self_items_of(view),
        },
        entry_of(ItemView::Separator),
        entry_of(text_of(Some(ID_QUIT@), "Quit"@, true)),
    ]
}

fn text_item(id: Option<&str>, text: String, enabled: bool) -> (e: Entry)
    ensures
        e@ == entry_of(
            text_of(
                match id {
                    Some(i) => Some(i@),
                    None => None,
                },
                text@,
                enabled,
            ),
        ),
{
    let id = match id {
        Some(i) => Some(String::from_str(i)),
        None => None,
    };
    Entry::Item(Item::Text { id, text, enabled })
}

fn push_entry(menu: &mut Vec<Entry>, e: Entry)
    ensures
        entry_views(final(menu)@) == entry_views(old(menu)@).push(e@),
        final(menu)@.len() == old(menu)@.len() + 1,
{
    let ghost before = entry_views(menu@);
    menu.push(e);
    assert(entry_views(menu@) =~= before.push(e@));
}

fn push_item(items: &mut Vec<Item>, i: Item)
    ensures
        item_views(final(items)@) == item_views(old(items)@).push(i@),
{
    let ghost before = item_views(items@);
    items.push(i);
    assert(item_views(items@) =~= before.push(i@));
}

fn self_items(view: &TrayView) -> (items: Vec<Item>)
    ensures
        item_views(items@) == self_items_of(*view),
{
    let mut items: Vec<Item> = Vec::new();
    let busy = view.activity.is_some();
    match view.self_update {
        SelfUpdate::Winget => {
            push_item(
                &mut items,
                Item::Text {
                    id: None,
                    text: String::from_str("Installed with winget — run winget upgrade"),
                    enabled: false,
                },
            );
            assert(item_views(items@) =~= self_items_of(*view));
        },
        SelfUpdate::Own { release, auto_update, log } => {
            let ghost first = match release {
                Some(r) => seq![
                    text_of(Some(ID_UPDATE_SELF@), self_update_text_of(*r), view.activity is None),
                ],
                None => Seq::<ItemView>::empty(),
            };
            let ghost second = match view.pending_restart {
                Some(v) => seq![text_of(None, "Restart to finish the update to "@ + v@, false)],
                None => Seq::<ItemView>::empty(),
            };
            if let Some(r) = release {
                push_item(
                    &mut items,
                    Item::Text {
                        id: Some(String::from_str(ID_UPDATE_SELF)),
                        text: self_update_text(r),
                        enabled: !busy,
                    },
                );
            }
            assert(item_views(items@) =~= first);
            if let Some(v) = view.pending_restart {
                let mut text = String::from_str("Restart to finish the update to ");
                text.append(v);
                push_item(&mut items, Item::Text { id: None, text, enabled: false });
            }
            assert(item_views(items@) =~= first + second);
            push_item(&mut items, Item::Separator);
            push_item(
                &mut items,
                Item::Check {
                    id: String::from_str(ID_AUTO_UPDATE),
                    text: String::from_str("Auto-update Globlin"),
                    enabled: true,
                    checked: auto_update,
                },
            );
            if log {
                push_item(
                    &mut items,
                    Item::Text {
                        id: Some(String::from_str(ID_OPEN_SELF_LOG)),
                        text: String::from_str("Open Globlin-update log"),
                        enabled: true,
                    },
                );
            }
            assert(item_views(items@) =~= self_items_of(*view));
        },
    }
    items
}

fn append_entries(menu: &mut Vec<Entry>, more: Vec<Entry>)
    ensures
        entry_views(final(menu)@) == entry_views(old(menu)@) + entry_views(more@),
        final(menu)@.len() == old(menu)@.len() + more@.len(),
{
    let ghost before = menu@;
    let mut more = more;
    let ghost added = more@;
    menu.append(&mut more);
    assert(entry_views(menu@) =~= entry_views(before) + entry_views(added));
}

/// One row per target of the running batch.
fn batch_entries(view: &TrayView) -> (entries: Vec<Entry>)
    ensures
        entry_views(entries@) == row_entries_of(*view),
{
    let ghost rows_spec = row_entries_of(*view);
    let mut entries: Vec<Entry> = Vec::new();
    if let Some(Activity::Updating { batch }) = view.activity {
        let total = batch.total();
        let mut position: usize = 0;
        while position < total
            invariant
                position <= total,
                total == batch.targets@.len(),
                active_batch_of(view.activity) == Some(*batch),
                rows_spec == row_entries_of(*view),
                rows_spec.len() == total,
                entry_views(entries@) == rows_spec.take(position as int),
            decreases total - position,
        {
            let text = match batch_row_text(view, position) {
                Some(t) => t,
                None => String::new(),
            };
            push_entry(&mut entries, text_item(None, text, false));
            assert(rows_spec.take(position + 1) =~= rows_spec.take(position as int).push(
                rows_spec[position as int],
            ));
            position = position + 1;
        }
        assert(rows_spec.take(total as int) =~= rows_spec);
    } else {
        assert(entry_views(entries@) =~= rows_spec);
    }
    entries
}

fn controls(view: &TrayView) -> (entries: Vec<Entry>)
    ensures
        entry_views(entries@) == controls_of(*view),
{
    let busy = view.activity.is_some();
    let mut entries: Vec<Entry> = Vec::new();
    push_entry(&mut entries, text_item(Some(ID_OPEN_WINDOW), String::from_str("Open Globlin"), true));
    let updatable = count_updatable(view.packages);
    if updatable > 0 {
        let mut text = String::from_str("Update all (");
        text.append(decimal_string(updatable as u64).as_str());
        text.append(")");
        push_entry(&mut entries, text_item(Some(ID_UPDATE_ALL), text, !busy));
    }
    push_entry(&mut entries, text_item(Some(ID_CHECK_NOW), String::from_str("Check now"), !busy));
    push_entry(
        &mut entries,
        Entry::Item(
            Item::Check {
                id: String::from_str(ID_AUTOSTART),
                text: String::from_str("Run at startup"),
                enabled: true,
                checked: view.autostart,
            },
        ),
    );
    push_entry(&mut entries, text_item(Some(ID_OPEN_LOG), String::from_str("Open last log"), true));
    assert(entry_views(entries@) =~= controls_of(*view));
    entries
}

/// The tray menu for `view`.
pub fn build(view: &TrayView) -> (built: Built)
    ensures
        entry_views(built.menu@) == menu_of(*view),
        built.header == 0,
        built.rows@.len() == row_entries_of(*view).len(),
        forall|i: int| 0 <= i < built.rows@.len() ==> #[trigger] built.rows@[i] == i + 2,
{
    let mut menu: Vec<Entry> = Vec::new();
    push_entry(&mut menu, text_item(None, headline(view), false));
    push_entry(&mut menu, Entry::Item(Item::Separator));
    let batch = batch_entries(view);
    let count = batch.len();
    append_entries(&mut menu, batch);
    let end = menu.len();
    let mut rows: Vec<usize> = Vec::new();
    let mut i: usize = 2;
    while i < end
        invariant
            2 <= i <= end,
            end == count + 2,
            rows@.len() == i - 2,
            forall|k: int| 0 <= k < rows@.len() ==> #[trigger] rows@[k] == k + 2,
        decreases end - i,
    {
        rows.push(i);
        i = i + 1;
    }
    if count > 0 {
        push_entry(&mut menu, Entry::Item(Item::Separator));
    }
    append_entries(&mut menu, controls(view));
    push_entry(&mut menu, Entry::Item(Item::Separator));
    let mut title = String::from_str("Globlin v");
    title.append(VERSION);
    push_entry(&mut menu, Entry::Submenu { text: title, enabled: true, items: self_items(view) });
    push_entry(&mut menu, Entry::Item(Item::Separator));
    push_entry(&mut menu, text_item(Some(ID_QUIT), String::from_str("Quit"), true));
    assert(entry_views(menu@) =~= menu_of(*view));
    Built { menu, header: 0, rows }
}

// ------------------------------------------------------------------ headline laws

/// Removing a package and checking for updates never show the same
/// headline.
pub proof fn lemma_removing_is_not_checking(removing: TrayView, checking: TrayView)
    requires
        removing.activity matches Some(a) && *a is Removing,
        checking.activity matches Some(a) && *a is Checking,
    ensures
        headline_of(removing) != headline_of(checking),
{
    reveal_strlit("Removing ");
    reveal_strlit("Checking for updates");
    let a = headline_of(removing);
    let b = headline_of(checking);
    assert(a[0] == 'R');
    assert(b[0] == 'C');
}

/// A batch of package updates and an update of Globlin itself never show
/// the same headline.
pub proof fn lemma_batch_is_not_self_update(updating: TrayView, itself: TrayView)
    requires
        active_batch_of(updating.activity) is Some,
        itself.activity matches Some(a) && *a is SelfUpdate,
    ensures
        headline_of(updating) != headline_of(itself),
{
    reveal_strlit("Updating Globlin");
    reveal_strlit("Updating packages");
    reveal_strlit("Updating ");
    reveal_strlit(" ");
    reveal_strlit(" → ");
    let batch = active_batch_of(updating.activity)->0;
    let a = headline_of(updating);
    let b = headline_of(itself);
    let dots = dots_of(itself.frame as nat);
    assert(b == "Updating Globlin"@ + dots);
    assert forall|q: int| 0 <= q < b.len() implies b[q] != '→' by {
        if q >= 16 {
            assert(b[q] == dots[q - 16]);
        }
    }
    if batch.index < batch.targets@.len() {
        let t = batch.targets@[batch.index as int];
        let p: int = 9int + t.name@.len() + 1 + t.from@.len() + 1;
        assert(a[p] == '→');
        if a == b {
            assert(b[p] == '→');
        }
    } else {
        assert(a[9] == 'p');
        assert(b[9] == 'G');
    }
}

// ------------------------------------------------------------------ menu laws

/// The id a row carries, if it carries one.
pub open spec fn item_id(i: ItemView) -> Option<Seq<char>> {
    match i {
        ItemView::Text { id, .. } => id,
        ItemView::Check { id, .. } => Some(id),
        ItemView::Separator => None,
    }
}

/// The id a top-level entry carries, if it carries one.
pub open spec fn entry_id(e: EntryView) -> Option<Seq<char>> {
    match e {
        EntryView::Item(i) => item_id(i),
        EntryView::Submenu { .. } => None,
    }
}

/// Every id the tray menu carries, at the top level or inside the submenu,
/// asks for an action: no row of the menu is a dead click.
pub proof fn lemma_menu_ids_parse(view: TrayView)
    ensures
        forall|i: int|
            0 <= i < menu_of(view).len() && (#[trigger] entry_id(menu_of(view)[i])) is Some
                ==> action_of(entry_id(menu_of(view)[i])->0) is Some,
        forall|i: int|
            0 <= i < self_items_of(view).len() && (#[trigger] item_id(self_items_of(view)[i])) is Some
                ==> action_of(item_id(self_items_of(view)[i])->0) is Some,
{
    lemma_fixed_ids();
    let rows = row_entries_of(view);
    assert forall|i: int| 0 <= i < rows.len() implies entry_id(#[trigger] rows[i]) is None by {
        match active_batch_of(view.activity) {
            Some(b) => {},
            None => {},
        }
    }
    let menu = menu_of(view);
    let head = seq![entry_of(text_of(None, headline_of(view), false)), entry_of(ItemView::Separator)];
    let gap = if rows.len() > 0 {
        seq![entry_of(ItemView::Separator)]
    } else {
        Seq::empty()
    };
    let controls = controls_of(view);
    let tail = seq![
        entry_of(ItemView::Separator),
        EntryView::Submenu {
            text: "Globlin v"@ + VERSION@,
            enabled: true,
            items: self_items_of(view),
        },
        entry_of(ItemView::Separator),
        entry_of(text_of(Some(ID_QUIT@), "Quit"@, true)),
    ];
    assert(menu == head + rows + gap + controls + tail);
    assert forall|i: int|
        0 <= i < menu.len() && (#[trigger] entry_id(menu[i])) is Some implies action_of(
        entry_id(menu[i])->0,
    ) is Some by {
        let a = head.len() as int;
        let b = a + rows.len();
        let c = b + gap.len();
        let d = c + controls.len();
        if i < a {
            assert(menu[i] == head[i]);
        } else if i < b {
            assert(menu[i] == rows[i - a]);
        } else if i < c {
            assert(menu[i] == gap[i - b]);
        } else if i < d {
            assert(menu[i] == controls[i - c]);
        } else {
            assert(menu[i] == tail[i - d]);
        }
    }
}

// ------------------------------------------------------------------ idle headline laws

/// With nothing running, the headline reads only the statuses of the
/// packages: two lists of as many packages that agree, place by place, on
/// which are behind give the same headline, whatever their names, versions
/// and sources (read-only sources included).
pub proof fn lemma_idle_headline_reads_only_statuses(a: TrayView, b: TrayView)
    requires
        a.activity is None,
        b.activity is None,
        a.packages@.len() == b.packages@.len(),
        forall|i: int|
            0 <= i < a.packages@.len() ==> (a.packages@[i].status is Outdated) == (
            b.packages@[i].status is Outdated),
    ensures
        headline_of(a) == headline_of(b),
{
    crate::model::lemma_tally_behind_by_status(a.packages@, b.packages@);
}

/// With nothing running and at least one package, the headline says the
/// packages are up to date when none is behind, and otherwise counts the
/// packages whose status is outdated, every one of them.
pub proof fn lemma_idle_headline_counts_the_outdated(view: TrayView)
    requires
        view.activity is None,
        view.packages@.len() > 0,
    ensures
        ({
            let behind_count = view.packages@.filter(|p: Package| p.status is Outdated).len();
            headline_of(view) == if behind_count == 0 {
                "Globlin — "@ + decimal(view.packages@.len()) + " packages, up to date"@
            } else if behind_count == 1 {
                "Globlin — 1 update available"@
            } else {
                "Globlin — "@ + decimal(behind_count) + " updates available"@
            }
        }),
{
    crate::model::lemma_tally_is_filter_len(view.packages@, behind());
    assert(behind() =~= (|p: Package| p.status is Outdated));
}

/// With nothing running, a list in which no package is behind is reported
/// up to date with its length, and a list in which every package is behind
/// has every one of them counted.
pub proof fn lemma_idle_headline_extremes(view: TrayView)
    requires
        view.activity is None,
        view.packages@.len() > 0,
    ensures
        (forall|i: int| 0 <= i < view.packages@.len() ==> !(view.packages@[i].status is Outdated))
            ==> headline_of(view) == "Globlin — "@ + decimal(view.packages@.len())
            + " packages, up to date"@,
        (forall|i: int| 0 <= i < view.packages@.len() ==> view.packages@[i].status is Outdated)
            ==> headline_of(view) == if view.packages@.len() == 1 {
            "Globlin — 1 update available"@
        } else {
            "Globlin — "@ + decimal(view.packages@.len()) + " updates available"@
        },
{
    let ps = view.packages@;
    lemma_idle_headline_counts_the_outdated(view);
    let f = |p: Package| p.status is Outdated;
    if forall|i: int| 0 <= i < ps.len() ==> !(ps[i].status is Outdated) {
        if ps.filter(f).len() > 0 {
            ps.lemma_filter_pred(f, 0);
            ps.lemma_filter_contains_rev(f, ps.filter(f)[0]);
        }
    }
    if forall|i: int| 0 <= i < ps.len() ==> ps[i].status is Outdated {
        assert(ps.filter(f) =~= ps) by {
            lemma_filter_keeps_all(ps, f);
        }
    }
}

proof fn lemma_filter_keeps_all(ps: Seq<Package>, f: spec_fn(Package) -> bool)
    requires
        forall|i: int| 0 <= i < ps.len() ==> f(ps[i]),
    ensures
        ps.filter(f) == ps,
    decreases ps.len(),
{
    reveal(Seq::filter);
    if ps.len() > 0 {
        lemma_filter_keeps_all(ps.drop_last(), f);
        assert(f(ps[ps.len() - 1]));
        assert(ps.drop_last().push(ps.last()) =~= ps);
    }
}

} // verus!
