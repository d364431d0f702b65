//! Working through a batch of updates. Running a command is the app's
//! part; this module decides everything around it: which command updates a
//! target, what each step announces, how a result is recorded, and what the
//! failure report says. A `Run` is the state between steps.
use vstd::prelude::*;

use crate::model::{label_of, UpdateTarget};
use crate::source::{kind_of, update_spec, CommandLine, Source};

verus! {

/// Which targets were updated and which failed, by name, in the order they
/// were worked through.
#[derive(Debug, Default, PartialEq, Eq)]
pub struct Outcome {
    pub updated: Vec<String>,
    pub failed: Vec<String>,
}

/// What a run announces as it goes.
#[derive(Debug, Clone, PartialEq, Eq)]
pub enum Step {
    Started { target: UpdateTarget, index: usize, total: usize },
    Finished { index: usize, ok: bool },
}

/// How running an update command ended.
#[derive(Debug, Clone, PartialEq, Eq)]
pub enum Exit {
    /// The command ran: whether it succeeded, its exit status as text, and
    /// what it printed.
    Ran { success: bool, status: String, stdout: String, stderr: String },
    /// The command could not be started, for the reason given.
    NotStarted { error: String },
}

/// What to do for the next target.
#[derive(Debug, Clone, PartialEq, Eq)]
pub enum Plan {
    /// Announce `started`, run `command`, and hand its exit to `finish`.
    Execute { started: Step, command: CommandLine },
    /// The target cannot be attempted; its failure is already recorded:
    /// announce both steps.
    Skipped { started: Step, finished: Step },
}

/// A batch of updates between two steps.
pub struct Run {
    pub sources: Vec<Source>,
    pub targets: Vec<UpdateTarget>,
    /// The target being worked on, or the number of targets once done.
    pub position: usize,
    /// Whether the command of the target at `position` is out.
    pub awaiting: bool,
    pub outcome: Outcome,
    pub report: String,
}

/// The first of `sources` of `kind`.
pub open spec fn source_of(sources: Seq<Source>, kind: crate::model::SourceKind) -> Option<int>
    decreases sources.len(),
{
    if sources.len() == 0 {
        None
    } else if kind_of(sources[0]) == kind {
        Some(0)
    } else {
        match source_of(sources.drop_first(), kind) {
            Some(i) => Some(i + 1),
            None => None,
        }
    }
}

/// The command that updates `t`, or why there is none: its source is not
/// among those available, or cannot update packages.
pub open spec fn plan_of(sources: Seq<Source>, t: UpdateTarget) -> Result<crate::source::CommandView, Seq<char>> {
    match source_of(sources, t.source) {
        Some(i) => match update_spec(sources[i], t.name@) {
            Some(c) => Ok(c),
            None => Err(t.name@ + ": the "@ + label_of(t.source) + " source cannot update packages\n"@),
        },
        None => Err(t.name@ + ": the "@ + label_of(t.source) + " source is not available\n"@),
    }
}

/// Whether an exit counts as a successful update.
pub open spec fn exit_ok(e: Exit) -> bool {
    match e {
        Exit::Ran { success, .. } => success,
        Exit::NotStarted { .. } => false,
    }
}

/// What the report says of a target whose command failed.
pub open spec fn failure_of(t: UpdateTarget, e: Exit) -> Seq<char> {
    match e {
        Exit::Ran { status, stdout, stderr, .. } => t.name@ + " "@ + t.from@ + " → "@ + t.to@
            + " via "@ + label_of(t.source) + " exited with "@ + status@ + "\n--- stdout ---\n"@
            + stdout@ + "\n--- stderr ---\n"@ + stderr@ + "\n\n"@,
        Exit::NotStarted { error } => t.name@ + ": could not start "@ + label_of(t.source) + ": "@
            + error@ + "\n"@,
    }
}

/// Every target worked through so far is either updated or failed.
pub open spec fn accounted(r: Run) -> bool {
    &&& r.position <= r.targets@.len()
    &&& r.outcome.updated@.len() + r.outcome.failed@.len() == r.position
    &&& r.awaiting ==> r.position < r.targets@.len()
}

fn find_source(sources: &Vec<Source>, kind: crate::model::SourceKind) -> (r: Option<usize>)
    ensures
        match r {
            Some(i) => source_of(sources@, kind) == Some(i as int) && i < sources@.len(),
            None => source_of(sources@, kind) is None,
        },
{
    let mut i: usize = 0;
    assert(sources@.skip(0) =~= sources@);
    while i < sources.len()
        invariant
            i <= sources@.len(),
            source_of(sources@, kind) == match source_of(sources@.skip(i as int), kind) {
                Some(j) => Some(j + i),
                None => None::<int>,
            },
        decreases sources@.len() - i,
    {
        assert(sources@.skip(i as int).drop_first() =~= sources@.skip(i + 1));
        if sources[i].kind() == kind {
            return Some(i);
        }
        i = i + 1;
    }
    assert(sources@.skip(i as int).len() == 0);
    None
}

/// The command that updates `target`, or the line the report gives it.
pub fn plan(sources: &Vec<Source>, target: &UpdateTarget) -> (r: Result<CommandLine, String>)
    ensures
        match r {
            Ok(c) => plan_of(sources@, *target) == Ok::<crate::source::CommandView, Seq<char>>(c@),
            Err(d) => plan_of(sources@, *target) == Err::<crate::source::CommandView, Seq<char>>(d@),
        },
{
    match find_source(sources, target.source) {
        Some(i) => match sources[i].update_command(target.name.as_str()) {
            Some(c) => Ok(c),
            None => {
                let mut d = target.name.clone();
                d.append(": the ");
                d.append(target.source.label());
                d.append(" source cannot update packages\n");
                Err(d)
            },
        },
        None => {
            let mut d = target.name.clone();
            d.append(": the ");
            d.append(target.source.label());
            d.append(" source is not available\n");
            Err(d)
        },
    }
}

/// What the report says of `target`, whose command ended as `exit`.
pub fn describe_failure(target: &UpdateTarget, exit: &Exit) -> (d: String)
    ensures
        d@ == failure_of(*target, *exit),
{
    match exit {
        Exit::Ran { status, stdout, stderr, .. } => {
            let mut d = target.name.clone();
            d.append(" ");
            d.append(target.from.as_str());
            d.append(" → ");
            d.append(target.to.as_str());
            d.append(" via ");
            d.append(target.source.label());
            d.append(" exited with ");
            d.append(status.as_str());
            d.append("\n--- stdout ---\n");
            d.append(stdout.as_str());
            d.append("\n--- stderr ---\n");
            d.append(stderr.as_str());
            d.append("\n\n");
            d
        },
        Exit::NotStarted { error } => {
            let mut d = target.name.clone();
            d.append(": could not start ");
            d.append(target.source.label());
            d.append(": ");
            d.append(error.as_str());
            d.append("\n");
            d
        },
    }
}

pub open spec fn names(targets: Seq<UpdateTarget>) -> Seq<Seq<char>> {
    targets.map_values(|t: UpdateTarget| t.name@)
}

/// The outcome when no source could be set up: every target failed, and
/// the report says why.
pub fn unavailable(error: &str, targets: &Vec<UpdateTarget>) -> (r: (Outcome, String))
    ensures
        r.0.updated@.len() == 0,
        crate::source::strings(r.0.failed@) == names(targets@),
        r.1@ == "no package source is available: "@ + error@ + "\n"@,
{
    let mut failed: Vec<String> = Vec::new();
    let mut i: usize = 0;
    while i < targets.len()
        invariant
            i <= targets@.len(),
            crate::source::strings(failed@) == names(targets@.take(i as int)),
        decreases targets@.len() - i,
    {
        failed.push(targets[i].name.clone());
        assert(names(targets@.take(i + 1)) =~= names(targets@.take(i as int)).push(targets@[i as int].name@));
        assert(crate::source::strings(failed@) =~= names(targets@.take(i + 1)));
        i = i + 1;
    }
    assert(targets@.take(targets@.len() as int) == targets@);
    let mut report = String::from_str("no package source is available: ");
    report.append(error);
    report.append("\n");
    (Outcome { updated: Vec::new(), failed }, report)
}

/// A run over `targets` with the sources that could be set up: nothing
/// worked through yet.
pub fn run(sources: Vec<Source>, targets: Vec<UpdateTarget>) -> (r: Run)
    ensures
        r.sources@ == sources@,
        r.targets@ == targets@,
        r.position == 0,
        !r.awaiting,
        r.outcome.updated@.len() == 0,
        r.outcome.failed@.len() == 0,
        r.report@.len() == 0,
        accounted(r),
{
    Run {
        sources,
        targets,
        position: 0,
        awaiting: false,
        outcome: Outcome { updated: Vec::new(), failed: Vec::new() },
        report: String::new(),
    }
}

impl Run {
    /// What to do for the next target: nothing once every target is done or
    /// while a command is out. A target that cannot be attempted is failed
    /// on the spot, its line added to the report.
    pub fn next(&mut self) -> (r: Option<Plan>)
        ensures
            accounted(*old(self)) ==> accounted(*final(self)),
            final(self).sources@ == old(self).sources@,
            final(self).targets@ == old(self).targets@,
            (old(self).awaiting || old(self).position >= old(self).targets@.len()) ==> {
                &&& r is None
                &&& final(self).position == old(self).position
                &&& final(self).awaiting == old(self).awaiting
                &&& final(self).outcome == old(self).outcome
                &&& final(self).report == old(self).report
            },
            (!old(self).awaiting && old(self).position < old(self).targets@.len()) ==> {
                let t = old(self).targets@[old(self).position as int];
                let started = Step::Started {
                    target: t,
                    index: old(self).position,
                    total: old(self).targets@.len() as usize,
                };
                match plan_of(old(self).sources@, t) {
                    Ok(c) => {
                        &&& r matches Some(Plan::Execute { started: s, command }) && s == started
                            && command@ == c
                        &&& final(self).awaiting
                        &&& final(self).position == old(self).position
                        &&& final(self).outcome == old(self).outcome
                        &&& final(self).report == old(self).report
                    },
                    Err(d) => {
                        &&& r == Some(
                            Plan::Skipped {
                                started,
                                finished: Step::Finished { index: old(self).position, ok: false },
                            },
                        )
                        &&& !final(self).awaiting
                        &&& final(self).position == old(self).position + 1
                        &&& final(self).outcome.updated@ == old(self).outcome.updated@
                        &&& crate::source::strings(final(self).outcome.failed@) == crate::source::strings(
                            old(self).outcome.failed@,
                        ).push(t.name@)
                        &&& final(self).report@ == old(self).report@ + d
                    },
                }
            },
    {
        if self.awaiting || self.position >= self.targets.len() {
            return None;
        }
        let index = self.position;
        let total = self.targets.len();
        let started = Step::Started { target: self.targets[index].copy(), index, total };
        match plan(&self.sources, &self.targets[index]) {
            Ok(command) => {
                self.awaiting = true;
                Some(Plan::Execute { started, command })
            },
            Err(details) => {
                let ghost failed_before = crate::source::strings(self.outcome.failed@);
                self.outcome.failed.push(self.targets[index].name.clone());
                assert(crate::source::strings(self.outcome.failed@) =~= failed_before.push(
                    self.targets@[index as int].name@,
                ));
                self.report.append(details.as_str());
                self.position = index + 1;
                Some(Plan::Skipped { started, finished: Step::Finished { index, ok: false } })
            },
        }
    }

    /// Records how the command of the running target ended, adds its line
    /// to the report when it failed, and moves on to the next target.
    pub fn finish(&mut self, exit: Exit) -> (step: Step)
        requires
            old(self).awaiting,
            old(self).position < old(self).targets@.len(),
        ensures
            accounted(*old(self)) ==> accounted(*final(self)),
            !final(self).awaiting,
            final(self).sources@ == old(self).sources@,
            final(self).targets@ == old(self).targets@,
            final(self).position == old(self).position + 1,
            step == (Step::Finished { index: old(self).position, ok: exit_ok(exit) }),
            exit_ok(exit) ==> {
                &&& crate::source::strings(final(self).outcome.updated@) == crate::source::strings(
                    old(self).outcome.updated@,
                ).push(old(self).targets@[old(self).position as int].name@)
                &&& final(self).outcome.failed@ == old(self).outcome.failed@
                &&& final(self).report == old(self).report
            },
            !exit_ok(exit) ==> {
                &&& final(self).outcome.updated@ == old(self).outcome.updated@
                &&& crate::source::strings(final(self).outcome.failed@) == crate::source::strings(
                    old(self).outcome.failed@,
                ).push(old(self).targets@[old(self).position as int].name@)
                &&& final(self).report@ == old(self).report@ + failure_of(
                    old(self).targets@[old(self).position as int],
                    exit,
                )
            },
    {
        let index = self.position;
        let len = self.targets.len();
        assert(index < len);
        let ok = match &exit {
            Exit::Ran { success, .. } => *success,
            Exit::NotStarted { .. } => false,
        };
        let name = self.targets[index].name.clone();
        if ok {
            let ghost before = crate::source::strings(self.outcome.updated@);
            self.outcome.updated.push(name);
            assert(crate::source::strings(self.outcome.updated@) =~= before.push(
                self.targets@[index as int].name@,
            ));
        } else {
            let ghost before = crate::source::strings(self.outcome.failed@);
            self.outcome.failed.push(name);
            assert(crate::source::strings(self.outcome.failed@) =~= before.push(
                self.targets@[index as int].name@,
            ));
            let details = describe_failure(&self.targets[index], &exit);
            self.report.append(details.as_str());
        }
        self.awaiting = false;
        self.position = index + 1;
        Step::Finished { index, ok }
    }
}

} // verus!
