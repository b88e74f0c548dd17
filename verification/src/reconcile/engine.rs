//! An apply run as a state machine. Each step takes what the scheduler
//! answered and says what to do next: every planned target is read before
//! anything is prepared, every mutation follows a precondition read and is
//! read back, and a failure compensates the applied changes in reverse
//! order, each only while its target still shows what the change left.
use vstd::prelude::*;

use crate::client::SecurityInformation;
use crate::error::{Error, ErrorKind, ErrorView};
use crate::manifest::TaskManifest;
use crate::model::SecurityDescriptor;
use crate::path::{FolderPath, TaskPath};
use crate::reconcile::recovery::{
    agrees_spec, agrees_with_inspection, change_information, confirmation_spec, confirmed_by,
    expected_after, information, observed_same, verification_conflict, Confirmation,
    ConfirmationView, Observed,
};
use crate::reconcile::{
    change_folder, change_task, change_text, copy_change, plan_outcome, plan_state, planned_views,
    replaces_existing_task, same_target, stop_targets, task_path, ApplyFailure, ApplyOptions,
    ApplyPhase, ApplyReport, ApplyStatus, Change, ChangeView, CurrentState, JournalEntry, Plan,
    PlanOptions, RollbackFailure, RollbackSafety, StepOutcome,
};

verus! {

/// Where an apply run stands.
#[derive(Clone, Copy, Debug, Eq, PartialEq, Structural)]
pub enum ApplyStage {
    /// Reading the target of planned change `i` before anything is prepared.
    Preflight(usize),
    /// Capturing rollback snapshots and credentials.
    Preparing,
    /// Reading the target of change `i` right before it is performed.
    Precondition(usize),
    /// Stopping the running instances of change `i`'s task.
    Stopping(usize),
    /// Performing change `i`.
    Executing(usize),
    /// Reading back the target of change `i` after it was performed.
    Verifying(usize),
    /// Reading the descriptor that confirms change `i`.
    Confirming(usize),
    /// Reading the target of applied change `k` before compensating it.
    RollbackCheck(usize),
    /// Compensating applied change `k`.
    RollbackRun(usize),
    /// Reading back the target of applied change `k` after compensating it.
    RollbackVerify(usize),
    /// Nothing more to do.
    Done,
}

/// What the caller does next for an apply run.
pub enum ApplyAction {
    /// Read the target of this change.
    Observe(Change),
    /// Read a task's descriptor with these sections.
    ReadTaskSecurity(TaskPath, SecurityInformation),
    /// Read a folder's descriptor with these sections.
    ReadFolderSecurity(FolderPath, SecurityInformation),
    /// Capture rollback snapshots and credentials for every planned change.
    Prepare,
    /// Stop the running instances of a task.
    Stop(TaskPath),
    /// Perform a change. A folder security change carries the descriptor
    /// read right before it, kept as its rollback snapshot unless one was
    /// captured while preparing.
    Execute(Change, Option<(SecurityDescriptor, SecurityInformation)>),
    /// Undo an applied change.
    Compensate(Change),
    /// The run is over: take its outcome with `finish`.
    Finish,
}

/// What the caller answers after an action.
pub enum ApplyEvent {
    /// The target read, or why it could not be read.
    Observed(Result<Observed, Error>),
    /// The descriptor read.
    SecurityRead(Result<SecurityDescriptor, Error>),
    /// Whether snapshots and credentials were captured.
    Prepared(Result<(), Error>),
    /// Whether the instances were stopped.
    Stopped(Result<(), Error>),
    /// Whether the change was performed, with the native operations it made.
    Executed(Result<(), Error>, Vec<JournalEntry>),
    /// Whether the change was undone, with the native operations it made.
    Compensated(Result<(), Error>, Vec<JournalEntry>),
}

/// An action with its paths, changes and descriptors taken as text.
pub enum ApplyActionView {
    /// Read a change's target.
    Observe(ChangeView),
    /// Read a task descriptor: path and sections.
    ReadTaskSecurity(Seq<char>, u32),
    /// Read a folder descriptor: path and sections.
    ReadFolderSecurity(Seq<char>, u32),
    /// Capture snapshots and credentials.
    Prepare,
    /// Stop a task's instances.
    Stop(Seq<char>),
    /// Perform a change, with a folder snapshot: descriptor and sections.
    Execute(ChangeView, Option<(Seq<char>, u32)>),
    /// Undo a change.
    Compensate(ChangeView),
    /// Take the outcome.
    Finish,
}

impl View for ApplyAction {
    type V = ApplyActionView;

    open spec fn view(&self) -> ApplyActionView {
        match self {
            ApplyAction::Observe(c) => ApplyActionView::Observe(c@),
            ApplyAction::ReadTaskSecurity(p, i) => ApplyActionView::ReadTaskSecurity(p@, i.value()),
            ApplyAction::ReadFolderSecurity(p, i) => ApplyActionView::ReadFolderSecurity(p@, i.value()),
            ApplyAction::Prepare => ApplyActionView::Prepare,
            ApplyAction::Stop(p) => ApplyActionView::Stop(p@),
            ApplyAction::Execute(c, s) => ApplyActionView::Execute(
                c@,
                match s {
                    Some((d, i)) => Some((d@, i.value())),
                    None => None,
                },
            ),
            ApplyAction::Compensate(c) => ApplyActionView::Compensate(c@),
            ApplyAction::Finish => ApplyActionView::Finish,
        }
    }
}

/// A journal entry with its texts, change and error taken by their views.
pub struct EntryView {
    /// Operation name.
    pub operation: Seq<char>,
    /// The change it belongs to.
    pub change: ChangeView,
    /// Its phase.
    pub phase: ApplyPhase,
    /// What was established.
    pub outcome: StepOutcome,
    /// The error, when one was returned.
    pub error: Option<ErrorView>,
}

/// The view of an optional error.
pub open spec fn opt_error(e: Option<Error>) -> Option<ErrorView> {
    match e {
        Some(x) => Some(x@),
        None => None,
    }
}

/// The view of a journal entry.
pub open spec fn entry_view(e: JournalEntry) -> EntryView {
    EntryView { operation: e.operation@, change: e.change@, phase: e.phase, outcome: e.outcome, error: opt_error(e.error) }
}

/// The views of journal entries.
pub open spec fn journal_view(s: Seq<JournalEntry>) -> Seq<EntryView> {
    s.map_values(|e: JournalEntry| entry_view(e))
}

/// The view of a compensation failure.
pub open spec fn failure_view(f: RollbackFailure) -> (ChangeView, ApplyPhase, ErrorView) {
    (f.change@, f.phase, f.error@)
}

/// An event with its errors, descriptors and journal entries taken by their views.
pub enum ApplyEventView {
    /// A target read.
    Observed(Result<Observed, ErrorView>),
    /// A descriptor read.
    SecurityRead(Result<Seq<char>, ErrorView>),
    /// Preparation, failed with the error when there is one.
    Prepared(Option<ErrorView>),
    /// Stopping, failed with the error when there is one.
    Stopped(Option<ErrorView>),
    /// Performing, with its native journal.
    Executed(Option<ErrorView>, Seq<EntryView>),
    /// Undoing, with its native journal.
    Compensated(Option<ErrorView>, Seq<EntryView>),
}

/// The error of a unit result.
pub open spec fn result_error(r: Result<(), Error>) -> Option<ErrorView> {
    match r {
        Ok(_) => None,
        Err(e) => Some(e@),
    }
}

impl View for ApplyEvent {
    type V = ApplyEventView;

    open spec fn view(&self) -> ApplyEventView {
        match self {
            ApplyEvent::Observed(r) => ApplyEventView::Observed(
                match r {
                    Ok(o) => Ok(*o),
                    Err(e) => Err(e@),
                },
            ),
            ApplyEvent::SecurityRead(r) => ApplyEventView::SecurityRead(
                match r {
                    Ok(d) => Ok(d@),
                    Err(e) => Err(e@),
                },
            ),
            ApplyEvent::Prepared(r) => ApplyEventView::Prepared(result_error(*r)),
            ApplyEvent::Stopped(r) => ApplyEventView::Stopped(result_error(*r)),
            ApplyEvent::Executed(r, j) => ApplyEventView::Executed(result_error(*r), journal_view(j@)),
            ApplyEvent::Compensated(r, j) => ApplyEventView::Compensated(result_error(*r), journal_view(j@)),
        }
    }
}

/// The state of an apply run.
pub struct ApplyRunView {
    /// Where the run stands.
    pub stage: ApplyStage,
    /// Its policy.
    pub options: ApplyOptions,
    /// The inspected state the plan was built from.
    pub state: CurrentState,
    /// The planned changes in apply order, with their rollback guarantees.
    pub planned: Seq<(ChangeView, RollbackSafety)>,
    /// The tasks whose instances the plan stops.
    pub stops: Seq<Seq<char>>,
    /// Every target read so far.
    pub observations: Seq<Observed>,
    /// For each planned change whose target was read, the read that its
    /// precondition must match.
    pub expected: Seq<int>,
    /// For each applied change: its plan index and the reads before and after it.
    pub undo: Seq<(int, int, int)>,
    /// Changes applied, in order.
    pub applied: Seq<ChangeView>,
    /// Applied changes compensated.
    pub rolled_back: Seq<ChangeView>,
    /// Changes whose final state could not be established or restored.
    pub unresolved: Seq<ChangeView>,
    /// Compensation failures.
    pub failures: Seq<(ChangeView, ApplyPhase, ErrorView)>,
    /// Every journal entry.
    pub journal: Seq<EntryView>,
    /// Tasks whose instances were asked to stop.
    pub irreversible: Seq<Seq<char>>,
    /// The error of the change being read back, when performing it failed.
    pub pending: Option<ErrorView>,
    /// The descriptor that confirms the change being read back.
    pub confirm: Option<Seq<char>>,
    /// What failed the run, once it failed.
    pub cause: Option<ErrorView>,
    /// Whether snapshots and credentials were captured.
    pub prepared: bool,
    /// Changes whose compensation was attempted, in order.
    pub compensated: Seq<ChangeView>,
}

/// The planned change at `i`.
pub open spec fn change_of(v: ApplyRunView, i: int) -> ChangeView {
    v.planned[i].0
}

/// The applied change that undo entry `k` compensates.
pub open spec fn undo_change(v: ApplyRunView, k: int) -> ChangeView {
    v.planned[v.undo[k].0].0
}

/// The name recorded for a phase.
pub open spec fn phase_text(phase: ApplyPhase) -> Seq<char> {
    match phase {
        ApplyPhase::Precondition => "Precondition"@,
        ApplyPhase::Stop => "Stop"@,
        ApplyPhase::Mutation => "Mutation"@,
        ApplyPhase::Verify => "Verify"@,
        ApplyPhase::Rollback => "Rollback"@,
    }
}

/// A run with one more journal entry for a phase of a change.
pub open spec fn with_entry(v: ApplyRunView, c: ChangeView, phase: ApplyPhase, outcome: StepOutcome, error: Option<ErrorView>) -> ApplyRunView {
    ApplyRunView {
        journal: v.journal.push(EntryView { operation: phase_text(phase), change: c, phase, outcome, error }),
        ..v
    }
}

/// An error with a kind and message and nothing else.
pub open spec fn fresh_error(kind: ErrorKind, message: Seq<char>) -> ErrorView {
    ErrorView {
        kind,
        message,
        operation: None,
        target: None,
        native_code: None,
        diagnostics: Seq::empty(),
        context: Seq::empty(),
    }
}

/// The error when the preflight reads disagree with the inspected state.
pub open spec fn preflight_conflict() -> ErrorView {
    fresh_error(ErrorKind::Conflict, "state changed between planning and preflight"@)
}

/// The error when a precondition read differs from the preflight read.
pub open spec fn precondition_conflict() -> ErrorView {
    fresh_error(ErrorKind::Conflict, "state changed during preflight"@)
}

/// The error when a target changed after its change was applied.
pub open spec fn foreign_change_conflict() -> ErrorView {
    fresh_error(ErrorKind::Conflict, "state changed after apply; refusing to overwrite external changes"@)
}

/// The error when compensation returned but the original state is not back.
pub open spec fn unconfirmed_rollback() -> ErrorView {
    fresh_error(ErrorKind::Irreversible, "rollback returned but original state is not confirmed"@)
}

/// The error recorded when a change's read-back does not show it.
pub open spec fn conflict_after(c: ChangeView) -> ErrorView {
    ErrorView {
        target: Some(change_text(c)),
        ..fresh_error(ErrorKind::Conflict, "state after the change does not match the desired state"@)
    }
}

/// Whether every preflight read agrees with the inspected state.
pub open spec fn all_agree(v: ApplyRunView) -> bool {
    forall|j: int| 0 <= j < v.planned.len() ==> agrees_spec(v.state, #[trigger] change_of(v, j), v.observations[v.expected[j]])
}

/// Whether two changes are about the same task, or the same folder.
pub open spec fn same_target_spec(a: ChangeView, b: ChangeView) -> bool {
    match (change_task(a), change_task(b)) {
        (Some(x), Some(y)) => x == y,
        (None, None) => change_folder(a) == change_folder(b),
        _ => false,
    }
}

/// Later changes to the target of change `i` now expect read `a`.
pub open spec fn retarget(v: ApplyRunView, i: int, a: int) -> Seq<int> {
    Seq::new(
        v.expected.len(),
        |j: int| if j > i && same_target_spec(change_of(v, i), change_of(v, j)) {
            a
        } else {
            v.expected[j]
        },
    )
}

/// Whether a change replaces, adopts, deletes or creates a task, or sets
/// its enabled state: the changes whose read-back decides them even when
/// the native call reported a failure.
pub open spec fn decided_by_read_back(c: ChangeView) -> bool {
    c is CreateTask || c is UpdateTask || c is AdoptTask || c is DeleteTask || c is SetEnabled
}

/// After the last applied change is compensated, or at the start of
/// compensation: move to applied change `k - 1`, or finish at the first.
pub open spec fn rollback_next(v: ApplyRunView, k: int) -> (ApplyRunView, ApplyActionView) {
    if k <= 0 {
        (ApplyRunView { stage: ApplyStage::Done, ..v }, ApplyActionView::Finish)
    } else {
        let c = undo_change(v, k - 1);
        (
            ApplyRunView {
                stage: ApplyStage::RollbackCheck((k - 1) as usize),
                ..with_entry(v, c, ApplyPhase::Rollback, StepOutcome::Attempted, None)
            },
            ApplyActionView::Observe(c),
        )
    }
}

/// Fails the run with `cause`: compensation starts at the last applied
/// change, or the run finishes when none was applied.
pub open spec fn begin_rollback(v: ApplyRunView, cause: ErrorView) -> (ApplyRunView, ApplyActionView) {
    rollback_next(ApplyRunView { cause: Some(cause), pending: None, confirm: None, ..v }, v.undo.len() as int)
}

/// Applied change `k` could not be compensated.
pub open spec fn rollback_failed(v: ApplyRunView, k: int, e: ErrorView) -> (ApplyRunView, ApplyActionView) {
    let c = undo_change(v, k);
    let v1 = with_entry(v, c, ApplyPhase::Rollback, StepOutcome::Unknown, Some(e));
    rollback_next(
        ApplyRunView {
            unresolved: v1.unresolved.push(c),
            failures: v1.failures.push((c, ApplyPhase::Rollback, e)),
            compensated: v1.compensated.push(c),
            ..v1
        },
        k,
    )
}

/// Applied change `k` was compensated and its original state read back.
pub open spec fn rollback_succeeded(v: ApplyRunView, k: int) -> (ApplyRunView, ApplyActionView) {
    let c = undo_change(v, k);
    let v1 = with_entry(v, c, ApplyPhase::Rollback, StepOutcome::Succeeded, None);
    rollback_next(ApplyRunView { rolled_back: v1.rolled_back.push(c), compensated: v1.compensated.push(c), ..v1 }, k)
}

/// Moves on from change `i`: the next change's precondition, or success.
pub open spec fn advance(v: ApplyRunView, i: int) -> (ApplyRunView, ApplyActionView) {
    if i + 1 < v.planned.len() {
        (ApplyRunView { stage: ApplyStage::Precondition((i + 1) as usize), ..v }, ApplyActionView::Observe(change_of(v, i + 1)))
    } else {
        (ApplyRunView { stage: ApplyStage::Done, ..v }, ApplyActionView::Finish)
    }
}

/// Change `i` is confirmed by its read-back, the last read: it is applied,
/// later changes to its target expect that read, and the run goes on unless
/// performing it reported a failure.
pub open spec fn accept(v: ApplyRunView, i: int) -> (ApplyRunView, ApplyActionView) {
    let c = change_of(v, i);
    let a = v.observations.len() - 1;
    let v1 = with_entry(v, c, ApplyPhase::Verify, StepOutcome::Succeeded, None);
    let v2 = ApplyRunView {
        applied: v1.applied.push(c),
        expected: retarget(v, i, a),
        undo: v1.undo.push((i, v.expected[i], a)),
        confirm: None,
        ..v1
    };
    match v.pending {
        Some(e) => begin_rollback(v2, e),
        None => advance(ApplyRunView { pending: None, ..v2 }, i),
    }
}

/// Change `i` is not confirmed: it is unresolved, and the run fails with
/// the error of performing it, or else with `error`.
pub open spec fn reject(v: ApplyRunView, i: int, error: ErrorView) -> (ApplyRunView, ApplyActionView) {
    let c = change_of(v, i);
    let v1 = with_entry(v, c, ApplyPhase::Verify, StepOutcome::Unknown, Some(error));
    begin_rollback(
        ApplyRunView { unresolved: v1.unresolved.push(c), ..v1 },
        match v.pending {
            Some(p) => p,
            None => error,
        },
    )
}

/// After change `i`'s precondition read matched: stop its task's instances
/// first when asked to and the change replaces or deletes the task, or else
/// perform it.
pub open spec fn perform(v: ApplyRunView, m: TaskManifest, i: int) -> (ApplyRunView, ApplyActionView) {
    let c = change_of(v, i);
    if v.options.stop_running && replaces_existing_task(c) {
        (
            ApplyRunView {
                stage: ApplyStage::Stopping(i as usize),
                irreversible: v.irreversible.push(change_task(c)->0),
                ..with_entry(v, c, ApplyPhase::Stop, StepOutcome::Attempted, None)
            },
            ApplyActionView::Stop(change_task(c)->0),
        )
    } else {
        let snapshot = match (c, v.observations[v.expected[i]]) {
            (ChangeView::SetFolderSecurity(_), Observed::Folder(Some(d))) => Some((d@, change_information(m, c))),
            _ => None,
        };
        (
            ApplyRunView {
                stage: ApplyStage::Executing(i as usize),
                ..with_entry(v, c, ApplyPhase::Mutation, StepOutcome::Attempted, None)
            },
            ApplyActionView::Execute(c, snapshot),
        )
    }
}

/// One step of the run: what the answer to the last action changes, and
/// what to do next.
pub open spec fn step_spec(v: ApplyRunView, m: TaskManifest, e: ApplyEventView) -> (ApplyRunView, ApplyActionView) {
    match (v.stage, e) {
        (ApplyStage::Preflight(i), ApplyEventView::Observed(Ok(o))) => {
            let v1 = ApplyRunView {
                observations: v.observations.push(o),
                expected: v.expected.push(v.observations.len() as int),
                ..v
            };
            if i + 1 < v.planned.len() {
                (ApplyRunView { stage: ApplyStage::Preflight((i + 1) as usize), ..v1 }, ApplyActionView::Observe(change_of(v, i + 1)))
            } else if all_agree(v1) {
                (ApplyRunView { stage: ApplyStage::Preparing, ..v1 }, ApplyActionView::Prepare)
            } else {
                (ApplyRunView { stage: ApplyStage::Done, cause: Some(preflight_conflict()), ..v1 }, ApplyActionView::Finish)
            }
        },
        (ApplyStage::Preflight(_), ApplyEventView::Observed(Err(err))) => (
            ApplyRunView { stage: ApplyStage::Done, cause: Some(err), ..v },
            ApplyActionView::Finish,
        ),
        (ApplyStage::Preparing, ApplyEventView::Prepared(r)) => match r {
            Some(err) => (ApplyRunView { stage: ApplyStage::Done, cause: Some(err), ..v }, ApplyActionView::Finish),
            None => if v.planned.len() > 0 {
                (
                    ApplyRunView { stage: ApplyStage::Precondition(0), prepared: true, ..v },
                    ApplyActionView::Observe(change_of(v, 0)),
                )
            } else {
                (ApplyRunView { stage: ApplyStage::Done, prepared: true, ..v }, ApplyActionView::Finish)
            },
        },
        (ApplyStage::Precondition(i), ApplyEventView::Observed(r)) => {
            let c = change_of(v, i as int);
            let failure = match r {
                Ok(live) => if observed_same(live, v.observations[v.expected[i as int]]) {
                    None
                } else {
                    Some(precondition_conflict())
                },
                Err(err) => Some(err),
            };
            match failure {
                Some(err) => begin_rollback(with_entry(v, c, ApplyPhase::Precondition, StepOutcome::Failed, Some(err)), err),
                None => perform(with_entry(v, c, ApplyPhase::Precondition, StepOutcome::Succeeded, None), m, i as int),
            }
        },
        (ApplyStage::Stopping(i), ApplyEventView::Stopped(r)) => {
            let c = change_of(v, i as int);
            match r {
                Some(err) => begin_rollback(with_entry(v, c, ApplyPhase::Stop, StepOutcome::Unknown, Some(err)), err),
                None => {
                    let v1 = with_entry(with_entry(v, c, ApplyPhase::Stop, StepOutcome::Succeeded, None), c, ApplyPhase::Mutation, StepOutcome::Attempted, None);
                    (ApplyRunView { stage: ApplyStage::Executing(i), ..v1 }, ApplyActionView::Execute(c, None))
                },
            }
        },
        (ApplyStage::Executing(i), ApplyEventView::Executed(r, native)) => {
            let c = change_of(v, i as int);
            let v1 = ApplyRunView { journal: v.journal + native, ..v };
            let outcome = if r is None { StepOutcome::Succeeded } else { StepOutcome::Unknown };
            (
                ApplyRunView { stage: ApplyStage::Verifying(i), pending: r, ..with_entry(v1, c, ApplyPhase::Mutation, outcome, r) },
                ApplyActionView::Observe(c),
            )
        },
        (ApplyStage::Verifying(i), ApplyEventView::Observed(r)) => {
            let c = change_of(v, i as int);
            let before = v.observations[v.expected[i as int]];
            match r {
                Err(err) => reject(v, i as int, err),
                Ok(after) => {
                    let v1 = ApplyRunView { observations: v.observations.push(after), ..v };
                    if observed_same(after, before) && v.pending is Some {
                        begin_rollback(with_entry(v1, c, ApplyPhase::Verify, StepOutcome::Succeeded, None), v.pending->0)
                    } else if v.pending is None || decided_by_read_back(c) {
                        match confirmation_spec(m, before, after, c) {
                            ConfirmationView::Decided(true) => accept(v1, i as int),
                            ConfirmationView::Decided(false) => reject(v1, i as int, conflict_after(c)),
                            ConfirmationView::TaskSecurity(p, sections, d) => (
                                ApplyRunView { stage: ApplyStage::Confirming(i), confirm: Some(d), ..v1 },
                                ApplyActionView::ReadTaskSecurity(p, sections),
                            ),
                            ConfirmationView::FolderSecurity(p, sections, d) => (
                                ApplyRunView { stage: ApplyStage::Confirming(i), confirm: Some(d), ..v1 },
                                ApplyActionView::ReadFolderSecurity(p, sections),
                            ),
                        }
                    } else {
                        reject(v1, i as int, conflict_after(c))
                    }
                },
            }
        },
        (ApplyStage::Confirming(i), ApplyEventView::SecurityRead(r)) => {
            let confirmed = match r {
                Ok(actual) => crate::model::access_key(actual) == crate::model::access_key(v.confirm->0),
                Err(_) => false,
            };
            if confirmed {
                accept(v, i as int)
            } else {
                reject(ApplyRunView { confirm: None, ..v }, i as int, conflict_after(change_of(v, i as int)))
            }
        },
        (ApplyStage::RollbackCheck(k), ApplyEventView::Observed(r)) => match r {
            Err(err) => rollback_failed(v, k as int, err),
            Ok(o) => if observed_same(o, v.observations[v.undo[k as int].2]) {
                (ApplyRunView { stage: ApplyStage::RollbackRun(k), ..v }, ApplyActionView::Compensate(undo_change(v, k as int)))
            } else {
                rollback_failed(v, k as int, foreign_change_conflict())
            },
        },
        (ApplyStage::RollbackRun(k), ApplyEventView::Compensated(r, native)) => {
            let v1 = ApplyRunView { journal: v.journal + native, ..v };
            match r {
                Some(err) => rollback_failed(v1, k as int, err),
                None => (ApplyRunView { stage: ApplyStage::RollbackVerify(k), ..v1 }, ApplyActionView::Observe(undo_change(v, k as int))),
            }
        },
        (ApplyStage::RollbackVerify(k), ApplyEventView::Observed(r)) => match r {
            Err(err) => rollback_failed(v, k as int, err),
            Ok(o) => if observed_same(o, v.observations[v.undo[k as int].1]) {
                rollback_succeeded(v, k as int)
            } else {
                rollback_failed(v, k as int, unconfirmed_rollback())
            },
        },
        _ => (v, ApplyActionView::Finish),
    }
}

/// Whether the run waits for this kind of answer.
pub open spec fn awaits(v: ApplyRunView, e: ApplyEventView) -> bool {
    match v.stage {
        ApplyStage::Preflight(_) | ApplyStage::Precondition(_) | ApplyStage::Verifying(_)
        | ApplyStage::RollbackCheck(_) | ApplyStage::RollbackVerify(_) => e is Observed,
        ApplyStage::Preparing => e is Prepared,
        ApplyStage::Stopping(_) => e is Stopped,
        ApplyStage::Executing(_) => e is Executed,
        ApplyStage::Confirming(_) => e is SecurityRead,
        ApplyStage::RollbackRun(_) => e is Compensated,
        ApplyStage::Done => false,
    }
}

/// Whether the applied changes are the first planned ones, in plan order,
/// each with its reads.
pub open spec fn applied_prefix(v: ApplyRunView) -> bool {
    &&& v.applied.len() == v.undo.len()
    &&& v.undo.len() <= v.planned.len()
    &&& forall|t: int| 0 <= t < v.undo.len() ==> (#[trigger] v.undo[t]).0 == t
        && 0 <= v.undo[t].1 < v.observations.len() && 0 <= v.undo[t].2 < v.observations.len()
    &&& forall|t: int| 0 <= t < v.applied.len() ==> #[trigger] v.applied[t] == change_of(v, t)
}

/// Whether compensation was attempted for the applied changes after undo
/// entry `k`, from the last one back.
pub open spec fn compensated_after(v: ApplyRunView, k: int) -> bool {
    &&& v.compensated.len() == v.applied.len() - 1 - k
    &&& forall|t: int| 0 <= t < v.compensated.len() ==> #[trigger] v.compensated[t] == v.applied[v.applied.len() - 1 - t]
    &&& forall|t: int| 0 <= t < v.compensated.len() ==> compensation_recorded(v, #[trigger] v.compensated[t])
    &&& is_subsequence(v.rolled_back, v.compensated)
}

/// Whether `a` is `b` with some entries left out, the rest in order.
pub open spec fn is_subsequence(a: Seq<ChangeView>, b: Seq<ChangeView>) -> bool
    decreases b.len(),
{
    if a.len() == 0 {
        true
    } else if b.len() == 0 {
        false
    } else if a.last() == b.last() {
        is_subsequence(a.drop_last(), b.drop_last())
    } else {
        is_subsequence(a, b.drop_last())
    }
}

proof fn lemma_subsequence_extend(a: Seq<ChangeView>, b: Seq<ChangeView>, x: ChangeView)
    requires
        is_subsequence(a, b),
    ensures
        is_subsequence(a, b.push(x)),
    decreases b.len(), 1int,
{
    assert(b.push(x).drop_last() =~= b);
    if a.len() > 0 && a.last() == x {
        lemma_subsequence_shorten(a, b);
    }
}

proof fn lemma_subsequence_shorten(a: Seq<ChangeView>, b: Seq<ChangeView>)
    requires
        is_subsequence(a, b),
        a.len() > 0,
    ensures
        is_subsequence(a.drop_last(), b),
    decreases b.len(), 0int,
{
    let bl = b.drop_last();
    assert(bl.push(b.last()) =~= b);
    if a.last() == b.last() {
        lemma_subsequence_extend(a.drop_last(), bl, b.last());
    } else {
        lemma_subsequence_shorten(a, bl);
        lemma_subsequence_extend(a.drop_last(), bl, b.last());
    }
}

/// Whether the compensation of `c` is on record: it was rolled back, or its
/// rollback failure was kept.
pub open spec fn compensation_recorded(v: ApplyRunView, c: ChangeView) -> bool {
    ||| v.rolled_back.contains(c)
    ||| exists|i: int| 0 <= i < v.failures.len() && (#[trigger] v.failures[i]).0 == c
}

/// Whether nothing has been done to the scheduler yet.
pub open spec fn untouched(v: ApplyRunView) -> bool {
    &&& !v.prepared
    &&& v.undo.len() == 0
    &&& v.journal.len() == 0
    &&& v.rolled_back.len() == 0
    &&& v.unresolved.len() == 0
    &&& v.failures.len() == 0
    &&& v.irreversible.len() == 0
    &&& v.compensated.len() == 0
    &&& v.pending is None
    &&& v.confirm is None
}

/// Whether the changes before `i` were all applied and nothing failed.
pub open spec fn applying(v: ApplyRunView, i: int) -> bool {
    &&& 0 <= i < v.planned.len()
    &&& v.expected.len() == v.planned.len()
    &&& v.prepared
    &&& v.cause is None
    &&& v.undo.len() == i
    &&& v.compensated.len() == 0
    &&& v.rolled_back.len() == 0
    &&& v.unresolved.len() == 0
    &&& v.failures.len() == 0
}

/// What holds at every stage: reads that preconditions expect exist, the
/// applied changes are the first planned ones, and the plan's length fits.
pub open spec fn run_base(v: ApplyRunView) -> bool {
    &&& forall|j: int| 0 <= j < v.expected.len() ==> 0 <= #[trigger] v.expected[j] < v.observations.len()
    &&& v.expected.len() <= v.planned.len()
    &&& v.planned.len() <= usize::MAX
    &&& applied_prefix(v)
}

/// The invariant of an apply run.
pub open spec fn run_wf(v: ApplyRunView) -> bool {
    &&& run_base(v)
    &&& match v.stage {
        ApplyStage::Preflight(i) => i < v.planned.len() && v.expected.len() == i && untouched(v) && v.cause is None,
        ApplyStage::Preparing => v.expected.len() == v.planned.len() && untouched(v) && v.cause is None,
        ApplyStage::Precondition(i) => applying(v, i as int) && v.pending is None && v.confirm is None,
        ApplyStage::Stopping(i) => applying(v, i as int) && v.pending is None && v.confirm is None,
        ApplyStage::Executing(i) => applying(v, i as int) && v.pending is None && v.confirm is None,
        ApplyStage::Verifying(i) => applying(v, i as int) && v.confirm is None,
        ApplyStage::Confirming(i) => applying(v, i as int) && v.confirm is Some && v.observations.len() > 0,
        ApplyStage::RollbackCheck(k) => k < v.undo.len() && v.cause is Some && compensated_after(v, k as int),
        ApplyStage::RollbackRun(k) => k < v.undo.len() && v.cause is Some && compensated_after(v, k as int),
        ApplyStage::RollbackVerify(k) => k < v.undo.len() && v.cause is Some && compensated_after(v, k as int),
        ApplyStage::Done => match v.cause {
            Some(_) => compensated_after(v, -1),
            None => v.applied.len() == v.planned.len() && v.compensated.len() == 0 && v.rolled_back.len() == 0
                && v.unresolved.len() == 0 && v.failures.len() == 0,
        },
    }
}


proof fn lemma_recorded_grows(v: ApplyRunView, w: ApplyRunView)
    requires
        v.rolled_back.len() <= w.rolled_back.len(),
        forall|i: int| 0 <= i < v.rolled_back.len() ==> w.rolled_back[i] == v.rolled_back[i],
        v.failures.len() <= w.failures.len(),
        forall|i: int| 0 <= i < v.failures.len() ==> w.failures[i] == v.failures[i],
    ensures
        forall|c: ChangeView| compensation_recorded(v, c) ==> compensation_recorded(w, c),
{
    assert forall|c: ChangeView| compensation_recorded(v, c) implies compensation_recorded(w, c) by {
        if v.rolled_back.contains(c) {
            let i = choose|i: int| 0 <= i < v.rolled_back.len() && v.rolled_back[i] == c;
            assert(w.rolled_back[i] == c);
        } else {
            let i = choose|i: int| 0 <= i < v.failures.len() && (#[trigger] v.failures[i]).0 == c;
            assert(w.failures[i].0 == c);
        }
    }
}

proof fn lemma_rollback_next(v: ApplyRunView, k: int)
    requires
        run_base(v),
        v.cause is Some,
        0 <= k <= v.undo.len(),
        compensated_after(v, k - 1),
    ensures
        run_wf(rollback_next(v, k).0),
{
    let w = rollback_next(v, k).0;
    lemma_recorded_grows(v, w);
    assert forall|t: int| 0 <= t < w.compensated.len() implies compensation_recorded(w, #[trigger] w.compensated[t]) by {
        assert(compensation_recorded(v, v.compensated[t]));
    }
}

proof fn lemma_rollback_failed_wf(v: ApplyRunView, k: int, e: ErrorView)
    requires
        run_base(v),
        v.cause is Some,
        0 <= k < v.undo.len(),
        compensated_after(v, k),
    ensures
        run_wf(rollback_failed(v, k, e).0),
{
    let c = undo_change(v, k);
    let v1 = with_entry(v, c, ApplyPhase::Rollback, StepOutcome::Unknown, Some(e));
    let v2 = ApplyRunView {
        unresolved: v1.unresolved.push(c),
        failures: v1.failures.push((c, ApplyPhase::Rollback, e)),
        compensated: v1.compensated.push(c),
        ..v1
    };
    lemma_recorded_grows(v, v2);
    assert forall|t: int| 0 <= t < v2.compensated.len() implies compensation_recorded(v2, #[trigger] v2.compensated[t]) by {
        if t < v.compensated.len() {
            assert(v2.compensated[t] == v.compensated[t]);
            assert(compensation_recorded(v, v.compensated[t]));
        } else {
            assert(v2.failures[v2.failures.len() - 1].0 == c);
        }
    }
    lemma_subsequence_extend(v.rolled_back, v.compensated, c);
    lemma_rollback_next(v2, k);
}

proof fn lemma_rollback_succeeded_wf(v: ApplyRunView, k: int)
    requires
        run_base(v),
        v.cause is Some,
        0 <= k < v.undo.len(),
        compensated_after(v, k),
    ensures
        run_wf(rollback_succeeded(v, k).0),
{
    let c = undo_change(v, k);
    let v1 = with_entry(v, c, ApplyPhase::Rollback, StepOutcome::Succeeded, None);
    let v2 = ApplyRunView { rolled_back: v1.rolled_back.push(c), compensated: v1.compensated.push(c), ..v1 };
    lemma_recorded_grows(v, v2);
    assert forall|t: int| 0 <= t < v2.compensated.len() implies compensation_recorded(v2, #[trigger] v2.compensated[t]) by {
        if t < v.compensated.len() {
            assert(v2.compensated[t] == v.compensated[t]);
            assert(compensation_recorded(v, v.compensated[t]));
        } else {
            assert(v2.rolled_back[v2.rolled_back.len() - 1] == c);
        }
    }
    assert(v2.rolled_back.drop_last() =~= v.rolled_back);
    assert(v2.compensated.drop_last() =~= v.compensated);
    lemma_rollback_next(v2, k);
}

proof fn lemma_stage_change_wf(v: ApplyRunView, w: ApplyRunView, k: int)
    requires
        run_base(v),
        compensated_after(v, k),
        w.rolled_back == v.rolled_back,
        w.failures == v.failures,
        w.compensated == v.compensated,
        w.applied == v.applied,
    ensures
        compensated_after(w, k),
{
    lemma_recorded_grows(v, w);
    assert forall|t: int| 0 <= t < w.compensated.len() implies compensation_recorded(w, #[trigger] w.compensated[t]) by {
        assert(compensation_recorded(v, v.compensated[t]));
    }
}


/// Every step keeps the invariant of an apply run: the applied changes are
/// the first planned ones in plan order, nothing is recorded before
/// preparation succeeds, and compensation runs from the last applied change
/// back to the first.
pub proof fn lemma_step_keeps_wf(v: ApplyRunView, m: TaskManifest, e: ApplyEventView)
    requires
        run_wf(v),
        awaits(v, e),
    ensures
        run_wf(step_spec(v, m, e).0),
{
    match (v.stage, e) {
        (ApplyStage::Preflight(i), ApplyEventView::Observed(Ok(o))) => {},
        (ApplyStage::Preflight(i), ApplyEventView::Observed(Err(err))) => {},
        (ApplyStage::Preparing, ApplyEventView::Prepared(r)) => {},
        (ApplyStage::Precondition(i), ApplyEventView::Observed(r)) => {},
        (ApplyStage::Stopping(i), ApplyEventView::Stopped(r)) => {},
        (ApplyStage::Executing(i), ApplyEventView::Executed(r, native)) => {},
        (ApplyStage::Verifying(i), ApplyEventView::Observed(r)) => {},
        (ApplyStage::Confirming(i), ApplyEventView::SecurityRead(r)) => {},
        (ApplyStage::RollbackCheck(k), ApplyEventView::Observed(r)) => {
            match r {
                Err(err) => lemma_rollback_failed_wf(v, k as int, err),
                Ok(o) => {
                    if observed_same(o, v.observations[v.undo[k as int].2]) {
                        lemma_stage_change_wf(v, ApplyRunView { stage: ApplyStage::RollbackRun(k), ..v }, k as int);
                    } else {
                        lemma_rollback_failed_wf(v, k as int, foreign_change_conflict());
                    }
                },
            }
        },
        (ApplyStage::RollbackRun(k), ApplyEventView::Compensated(r, native)) => {
            let v1 = ApplyRunView { journal: v.journal + native, ..v };
            lemma_stage_change_wf(v, v1, k as int);
            match r {
                Some(err) => lemma_rollback_failed_wf(v1, k as int, err),
                None => lemma_stage_change_wf(v, ApplyRunView { stage: ApplyStage::RollbackVerify(k), ..v1 }, k as int),
            }
        },
        (ApplyStage::RollbackVerify(k), ApplyEventView::Observed(r)) => {
            match r {
                Err(err) => lemma_rollback_failed_wf(v, k as int, err),
                Ok(o) => {
                    if observed_same(o, v.observations[v.undo[k as int].1]) {
                        lemma_rollback_succeeded_wf(v, k as int);
                    } else {
                        lemma_rollback_failed_wf(v, k as int, unconfirmed_rollback());
                    }
                },
            }
        },
        _ => {},
    }
}


/// An apply run in progress.
pub struct ApplyRun {
    stage: ApplyStage,
    options: ApplyOptions,
    state: CurrentState,
    observations: Vec<Observed>,
    expected: Vec<usize>,
    undo: Vec<(usize, usize, usize)>,
    report: ApplyReport,
    pending: Option<Error>,
    confirm: Option<SecurityDescriptor>,
    cause: Option<Error>,
    prepared: Ghost<bool>,
    compensated: Ghost<Seq<ChangeView>>,
}

/// The paths of tasks.
pub open spec fn task_views(s: Seq<TaskPath>) -> Seq<Seq<char>> {
    s.map_values(|t: TaskPath| t@)
}

/// The views of changes.
pub open spec fn change_views(s: Seq<Change>) -> Seq<ChangeView> {
    s.map_values(|c: Change| c@)
}

impl View for ApplyRun {
    type V = ApplyRunView;

    closed spec fn view(&self) -> ApplyRunView {
        ApplyRunView {
            stage: self.stage,
            options: self.options,
            state: self.state,
            planned: planned_views(self.report.plan.changes@),
            stops: task_views(self.report.plan.irreversible_effects@),
            observations: self.observations@,
            expected: self.expected@.map_values(|x: usize| x as int),
            undo: self.undo@.map_values(|u: (usize, usize, usize)| (u.0 as int, u.1 as int, u.2 as int)),
            applied: change_views(self.report.applied@),
            rolled_back: change_views(self.report.rolled_back@),
            unresolved: change_views(self.report.unresolved@),
            failures: self.report.rollback_failures@.map_values(|f: RollbackFailure| failure_view(f)),
            journal: journal_view(self.report.journal@),
            irreversible: task_views(self.report.irreversible_effects@),
            pending: opt_error(self.pending),
            confirm: match self.confirm {
                Some(d) => Some(d@),
                None => None,
            },
            cause: opt_error(self.cause),
            prepared: self.prepared@,
            compensated: self.compensated@,
        }
    }
}

/// Whether a report shows what a run recorded.
pub open spec fn report_shows(r: ApplyReport, v: ApplyRunView) -> bool {
    &&& planned_views(r.plan.changes@) == v.planned
    &&& task_views(r.plan.irreversible_effects@) == v.stops
    &&& change_views(r.applied@) == v.applied
    &&& change_views(r.rolled_back@) == v.rolled_back
    &&& change_views(r.unresolved@) == v.unresolved
    &&& r.rollback_failures@.map_values(|f: RollbackFailure| failure_view(f)) == v.failures
    &&& journal_view(r.journal@) == v.journal
    &&& task_views(r.irreversible_effects@) == v.irreversible
}

/// A run that has read nothing yet, for a plan with these changes and stop
/// requests.
pub open spec fn start_view(planned: Seq<(ChangeView, RollbackSafety)>, stops: Seq<Seq<char>>, state: CurrentState, options: ApplyOptions) -> ApplyRunView {
    ApplyRunView {
        stage: if planned.len() == 0 { ApplyStage::Done } else { ApplyStage::Preflight(0) },
        options,
        state,
        planned,
        stops,
        observations: Seq::empty(),
        expected: Seq::empty(),
        undo: Seq::empty(),
        applied: Seq::empty(),
        rolled_back: Seq::empty(),
        unresolved: Seq::empty(),
        failures: Seq::empty(),
        journal: Seq::empty(),
        irreversible: Seq::empty(),
        pending: None,
        confirm: None,
        cause: None,
        prepared: false,
        compensated: Seq::empty(),
    }
}

/// The first action of a run: read the first planned target, or finish
/// when nothing is planned.
pub open spec fn start_action(v: ApplyRunView) -> ApplyActionView {
    if v.planned.len() == 0 {
        ApplyActionView::Finish
    } else {
        ApplyActionView::Observe(change_of(v, 0))
    }
}

/// The planning options that an apply uses.
pub open spec fn plan_options(options: ApplyOptions) -> PlanOptions {
    PlanOptions { prune: options.prune, adopt: options.adopt }
}

fn fresh(kind: ErrorKind, message: &str) -> (e: Error)
    ensures
        e@ == fresh_error(kind, message@),
{
    let e = Error::new(kind, message);
    proof {
        assert(e@.diagnostics =~= Seq::empty());
        assert(e@.context =~= Seq::empty());
    }
    e
}

fn conflict_exec(change: &Change) -> (e: Error)
    ensures
        e@ == conflict_after(change@),
{
    let e = verification_conflict(change);
    proof {
        assert(e@.diagnostics =~= Seq::empty());
        assert(e@.context =~= Seq::empty());
    }
    e
}

fn phase_name(phase: ApplyPhase) -> (s: String)
    ensures
        s@ == phase_text(phase),
{
    match phase {
        ApplyPhase::Precondition => "Precondition".to_owned(),
        ApplyPhase::Stop => "Stop".to_owned(),
        ApplyPhase::Mutation => "Mutation".to_owned(),
        ApplyPhase::Verify => "Verify".to_owned(),
        ApplyPhase::Rollback => "Rollback".to_owned(),
    }
}

fn copy_error(e: &Option<Error>) -> (r: Option<Error>)
    ensures
        opt_error(r) == opt_error(*e),
{
    match e {
        Some(x) => Some(x.duplicate()),
        None => None,
    }
}

impl ApplyRun {
    /// The invariant of a run: its state satisfies [`run_wf`] and its report
    /// is not marked successful before it finishes.
    pub closed spec fn wf(&self) -> bool {
        &&& run_wf(self@)
        &&& self.report.status == ApplyStatus::Failed
    }

    /// The plan the run follows.
    pub fn plan(&self) -> (p: &Plan)
        ensures
            planned_views(p.changes@) == self@.planned,
            task_views(p.irreversible_effects@) == self@.stops,
    {
        &self.report.plan
    }

    /// Where the run stands.
    pub fn stage(&self) -> (s: ApplyStage)
        ensures
            s == self@.stage,
    {
        self.stage
    }

    /// Whether the run waits for this kind of answer.
    pub fn awaits_event(&self, event: &ApplyEvent) -> (r: bool)
        ensures
            r == awaits(self@, event@),
    {
        match self.stage {
            ApplyStage::Preflight(_) | ApplyStage::Precondition(_) | ApplyStage::Verifying(_)
            | ApplyStage::RollbackCheck(_) | ApplyStage::RollbackVerify(_) => matches!(event, ApplyEvent::Observed(_)),
            ApplyStage::Preparing => matches!(event, ApplyEvent::Prepared(_)),
            ApplyStage::Stopping(_) => matches!(event, ApplyEvent::Stopped(_)),
            ApplyStage::Executing(_) => matches!(event, ApplyEvent::Executed(_, _)),
            ApplyStage::Confirming(_) => matches!(event, ApplyEvent::SecurityRead(_)),
            ApplyStage::RollbackRun(_) => matches!(event, ApplyEvent::Compensated(_, _)),
            ApplyStage::Done => false,
        }
    }

    fn record(&mut self, change: &Change, phase: ApplyPhase, outcome: StepOutcome, error: Option<Error>)
        ensures
            final(self)@ == with_entry(old(self)@, change@, phase, outcome, opt_error(error)),
            final(self).report.status == old(self).report.status,
            final(self).expected@ == old(self).expected@,
            final(self).observations@ == old(self).observations@,
            final(self).report.plan.changes@ == old(self).report.plan.changes@,
    {
        let ghost old_journal = self.report.journal@;
        let entry = JournalEntry { operation: phase_name(phase), change: copy_change(change), phase, outcome, error };
        self.report.journal.push(entry);
        proof {
            assert(journal_view(self.report.journal@) =~= journal_view(old_journal).push(
                EntryView { operation: phase_text(phase), change: change@, phase, outcome, error: opt_error(error) },
            ));
        }
    }

    fn undo_change_exec(&self, k: usize) -> (c: Change)
        requires
            run_base(self@),
            k < self@.undo.len(),
        ensures
            c@ == undo_change(self@, k as int),
    {
        let (i, _, _) = self.undo[k];
        copy_change(&self.report.plan.changes[i].change)
    }

    fn rollback_next_exec(&mut self, k: usize) -> (a: ApplyAction)
        requires
            run_base(old(self)@),
            k <= old(self)@.undo.len(),
        ensures
            (final(self)@, a@) == rollback_next(old(self)@, k as int),
            final(self).report.status == old(self).report.status,
            final(self).expected@ == old(self).expected@,
            final(self).observations@ == old(self).observations@,
    {
        if k == 0 {
            self.stage = ApplyStage::Done;
            ApplyAction::Finish
        } else {
            let c = self.undo_change_exec(k - 1);
            self.record(&c, ApplyPhase::Rollback, StepOutcome::Attempted, None);
            self.stage = ApplyStage::RollbackCheck(k - 1);
            ApplyAction::Observe(c)
        }
    }

    fn begin_rollback_exec(&mut self, cause: Error) -> (a: ApplyAction)
        requires
            run_base(old(self)@),
        ensures
            (final(self)@, a@) == begin_rollback(old(self)@, cause@),
            final(self).report.status == old(self).report.status,
            final(self).expected@ == old(self).expected@,
            final(self).observations@ == old(self).observations@,
    {
        self.cause = Some(cause);
        self.pending = None;
        self.confirm = None;
        let k = self.undo.len();
        self.rollback_next_exec(k)
    }

    fn rollback_failed_exec(&mut self, k: usize, e: Error) -> (a: ApplyAction)
        requires
            run_base(old(self)@),
            k < old(self)@.undo.len(),
        ensures
            (final(self)@, a@) == rollback_failed(old(self)@, k as int, e@),
            final(self).report.status == old(self).report.status,
            final(self).expected@ == old(self).expected@,
            final(self).observations@ == old(self).observations@,
    {
        let c = self.undo_change_exec(k);
        self.record(&c, ApplyPhase::Rollback, StepOutcome::Unknown, Some(e.duplicate()));
        let ghost old_unresolved = self.report.unresolved@;
        let ghost old_failures = self.report.rollback_failures@;
        self.report.unresolved.push(copy_change(&c));
        let failure = RollbackFailure { change: copy_change(&c), phase: ApplyPhase::Rollback, error: e };
        self.report.rollback_failures.push(failure);
        self.compensated = Ghost(self.compensated@.push(c@));
        proof {
            assert(change_views(self.report.unresolved@) =~= change_views(old_unresolved).push(c@));
            assert(self.report.rollback_failures@.map_values(|f: RollbackFailure| failure_view(f)) =~= old_failures.map_values(
                |f: RollbackFailure| failure_view(f),
            ).push((c@, ApplyPhase::Rollback, e@)));
        }
        self.rollback_next_exec(k)
    }

    fn rollback_succeeded_exec(&mut self, k: usize) -> (a: ApplyAction)
        requires
            run_base(old(self)@),
            k < old(self)@.undo.len(),
        ensures
            (final(self)@, a@) == rollback_succeeded(old(self)@, k as int),
            final(self).report.status == old(self).report.status,
            final(self).expected@ == old(self).expected@,
            final(self).observations@ == old(self).observations@,
    {
        let c = self.undo_change_exec(k);
        self.record(&c, ApplyPhase::Rollback, StepOutcome::Succeeded, None);
        let ghost old_rolled = self.report.rolled_back@;
        self.report.rolled_back.push(copy_change(&c));
        self.compensated = Ghost(self.compensated@.push(c@));
        proof {
            assert(change_views(self.report.rolled_back@) =~= change_views(old_rolled).push(c@));
        }
        self.rollback_next_exec(k)
    }

    fn change_exec(&self, i: usize) -> (c: Change)
        requires
            i < self@.planned.len(),
        ensures
            c@ == change_of(self@, i as int),
    {
        copy_change(&self.report.plan.changes[i].change)
    }

    fn advance_exec(&mut self, i: usize) -> (a: ApplyAction)
        requires
            run_base(old(self)@),
            i < old(self)@.planned.len(),
        ensures
            (final(self)@, a@) == advance(old(self)@, i as int),
            final(self).report.status == old(self).report.status,
            final(self).expected@ == old(self).expected@,
            final(self).observations@ == old(self).observations@,
    {
        if i + 1 < self.report.plan.changes.len() {
            self.stage = ApplyStage::Precondition(i + 1);
            ApplyAction::Observe(self.change_exec(i + 1))
        } else {
            self.stage = ApplyStage::Done;
            ApplyAction::Finish
        }
    }

    fn accept_exec(&mut self, i: usize) -> (a: ApplyAction)
        requires
            run_base(old(self)@),
            i < old(self)@.planned.len(),
            i < old(self)@.expected.len(),
            old(self)@.observations.len() > 0,
            old(self).expected@.len() == old(self)@.planned.len(),
            old(self)@.undo.len() == i,
        ensures
            (final(self)@, a@) == accept(old(self)@, i as int),
            final(self).report.status == old(self).report.status,
    {
        let ghost v = self@;
        let c = self.change_exec(i);
        let after = self.observations.len() - 1;
        self.record(&c, ApplyPhase::Verify, StepOutcome::Succeeded, None);
        let ghost old_applied = self.report.applied@;
        self.report.applied.push(copy_change(&c));
        proof {
            assert(change_views(self.report.applied@) =~= change_views(old_applied).push(c@));
        }
        let before = self.expected[i];
        let n = self.report.plan.changes.len();
        let mut next: Vec<usize> = Vec::new();
        let mut j: usize = 0;
        while j < n
            invariant
                i < n,
                j <= n,
                n == self.report.plan.changes@.len(),
                n == self.expected@.len(),
                v.planned == planned_views(self.report.plan.changes@),
                v.expected == self.expected@.map_values(|x: usize| x as int),
                next@.len() == j,
                forall|t: int| 0 <= t < j ==> #[trigger] next@[t] as int == retarget(v, i as int, after as int)[t],
            decreases n - j,
        {
            proof {
                assert(change_of(v, i as int) == self.report.plan.changes@[i as int].change@);
                assert(change_of(v, j as int) == self.report.plan.changes@[j as int].change@);
            }
            if j > i && same_target(&self.report.plan.changes[i].change, &self.report.plan.changes[j].change) {
                next.push(after);
            } else {
                next.push(self.expected[j]);
            }
            j += 1;
        }
        self.expected = next;
        let ghost old_undo = self.undo@;
        self.undo.push((i, before, after));
        self.confirm = None;
        proof {
            assert(self.expected@.map_values(|x: usize| x as int) =~= retarget(v, i as int, after as int));
            assert(self.undo@.map_values(|u: (usize, usize, usize)| (u.0 as int, u.1 as int, u.2 as int)) =~= old_undo.map_values(
                |u: (usize, usize, usize)| (u.0 as int, u.1 as int, u.2 as int),
            ).push((i as int, v.expected[i as int], after as int)));
        }
        proof {
            let w = self@;
            assert(w.applied == v.applied.push(c@));
            assert(w.undo == v.undo.push((i as int, v.expected[i as int], after as int)));
            assert forall|t: int| 0 <= t < w.undo.len() implies (#[trigger] w.undo[t]).0 == t
                && 0 <= w.undo[t].1 < w.observations.len() && 0 <= w.undo[t].2 < w.observations.len() by {
                if t < v.undo.len() {
                    assert(w.undo[t] == v.undo[t]);
                }
            }
            assert forall|t: int| 0 <= t < w.applied.len() implies #[trigger] w.applied[t] == change_of(w, t) by {
                if t < v.applied.len() {
                    assert(w.applied[t] == v.applied[t]);
                }
            }
            assert(applied_prefix(w));
            assert(run_base(w));
        }
        let p = self.pending.take();
        match p {
            Some(e) => self.begin_rollback_exec(e),
            None => self.advance_exec(i),
        }
    }

    fn reject_exec(&mut self, i: usize, error: Error) -> (a: ApplyAction)
        requires
            run_base(old(self)@),
            i < old(self)@.planned.len(),
        ensures
            (final(self)@, a@) == reject(old(self)@, i as int, error@),
            final(self).report.status == old(self).report.status,
    {
        let c = self.change_exec(i);
        self.record(&c, ApplyPhase::Verify, StepOutcome::Unknown, Some(error.duplicate()));
        let ghost old_unresolved = self.report.unresolved@;
        self.report.unresolved.push(copy_change(&c));
        proof {
            assert(change_views(self.report.unresolved@) =~= change_views(old_unresolved).push(c@));
        }
        let p = self.pending.take();
        let cause = match p {
            Some(p) => p,
            None => error,
        };
        self.begin_rollback_exec(cause)
    }

    fn perform_exec(&mut self, manifest: &TaskManifest, i: usize) -> (a: ApplyAction)
        requires
            run_base(old(self)@),
            i < old(self)@.planned.len(),
            i < old(self)@.expected.len(),
        ensures
            (final(self)@, a@) == perform(old(self)@, *manifest, i as int),
            final(self).report.status == old(self).report.status,
    {
        let c = self.change_exec(i);
        if self.options.stop_running && matches!(c, Change::UpdateTask(_) | Change::AdoptTask(_) | Change::DeleteTask(_)) {
            let path = match task_path(&c) {
                Some(p) => p.clone(),
                None => {
                    proof {
                        assert(false);
                    }
                    return ApplyAction::Finish;
                },
            };
            let ghost old_effects = self.report.irreversible_effects@;
            self.report.irreversible_effects.push(path.clone());
            proof {
                assert(task_views(self.report.irreversible_effects@) =~= task_views(old_effects).push(path@));
            }
            self.record(&c, ApplyPhase::Stop, StepOutcome::Attempted, None);
            self.stage = ApplyStage::Stopping(i);
            ApplyAction::Stop(path)
        } else {
            proof {
                assert(self@.expected[i as int] == self.expected@[i as int] as int);
            }
            let snapshot = match (&c, &self.observations[self.expected[i]]) {
                (Change::SetFolderSecurity(_), Observed::Folder(Some(d))) => Some((d.clone(), information(manifest, &c))),
                _ => None,
            };
            self.record(&c, ApplyPhase::Mutation, StepOutcome::Attempted, None);
            self.stage = ApplyStage::Executing(i);
            ApplyAction::Execute(c, snapshot)
        }
    }

    fn all_agree_exec(&self) -> (r: bool)
        requires
            run_base(self@),
            self@.expected.len() == self@.planned.len(),
        ensures
            r == all_agree(self@),
    {
        let n = self.report.plan.changes.len();
        let mut j: usize = 0;
        while j < n
            invariant
                j <= n,
                n == self@.planned.len(),
                run_base(self@),
                self@.expected.len() == n,
                forall|t: int| 0 <= t < j ==> agrees_spec(self@.state, #[trigger] change_of(self@, t), self@.observations[self@.expected[t]]),
            decreases n - j,
        {
            let k = self.expected[j];
            proof {
                assert(self@.expected[j as int] == k as int);
                assert(change_of(self@, j as int) == self.report.plan.changes@[j as int].change@);
            }
            if !agrees_with_inspection(&self.state, &self.report.plan.changes[j].change, &self.observations[k]) {
                return false;
            }
            j += 1;
        }
        true
    }

    /// Takes the answer to the last action and returns the next action.
    pub fn step(&mut self, manifest: &TaskManifest, event: ApplyEvent) -> (a: ApplyAction)
        requires
            old(self).wf(),
            awaits(old(self)@, event@),
        ensures
            final(self).wf(),
            (final(self)@, a@) == step_spec(old(self)@, *manifest, event@),
    {
        proof {
            lemma_step_keeps_wf(self@, *manifest, event@);
        }
        match (self.stage, event) {
            (ApplyStage::Preflight(i), ApplyEvent::Observed(r)) => self.on_preflight(manifest, i, r),
            (ApplyStage::Preparing, ApplyEvent::Prepared(r)) => self.on_prepared(manifest, r),
            (ApplyStage::Precondition(i), ApplyEvent::Observed(r)) => self.on_precondition(manifest, i, r),
            (ApplyStage::Stopping(i), ApplyEvent::Stopped(r)) => self.on_stopped(manifest, i, r),
            (ApplyStage::Executing(i), ApplyEvent::Executed(r, native)) => self.on_executed(manifest, i, r, native),
            (ApplyStage::Verifying(i), ApplyEvent::Observed(r)) => self.on_verified(manifest, i, r),
            (ApplyStage::Confirming(i), ApplyEvent::SecurityRead(r)) => self.on_security_read(manifest, i, r),
            (ApplyStage::RollbackCheck(k), ApplyEvent::Observed(r)) => self.on_rollback_check(manifest, k, r),
            (ApplyStage::RollbackRun(k), ApplyEvent::Compensated(r, native)) => self.on_compensated(manifest, k, r, native),
            (ApplyStage::RollbackVerify(k), ApplyEvent::Observed(r)) => self.on_rollback_verify(manifest, k, r),
            _ => {
                proof {
                    assert(false);
                }
                ApplyAction::Finish
            },
        }
    }

    fn on_preflight(&mut self, manifest: &TaskManifest, i: usize, r: Result<Observed, Error>) -> (a: ApplyAction)
        requires
            run_wf(old(self)@),
            old(self)@.stage == ApplyStage::Preflight(i),
        ensures
            (final(self)@, a@) == step_spec(old(self)@, *manifest, ApplyEventView::Observed(match r { Ok(o) => Ok(o), Err(e) => Err(e@) })),
            final(self).report.status == old(self).report.status,
    {
        let ghost v = self@;
        match r {
            Ok(o) => {
                let ghost old_obs = self.observations@;
                let ghost old_exp = self.expected@;
                let index = self.observations.len();
                self.observations.push(o);
                self.expected.push(index);
                proof {
                    assert(self.expected@.map_values(|x: usize| x as int) =~= old_exp.map_values(|x: usize| x as int).push(index as int));
                }
                if i + 1 < self.report.plan.changes.len() {
                    self.stage = ApplyStage::Preflight(i + 1);
                    ApplyAction::Observe(self.change_exec(i + 1))
                } else if self.all_agree_exec() {
                    self.stage = ApplyStage::Preparing;
                    ApplyAction::Prepare
                } else {
                    self.stage = ApplyStage::Done;
                    self.cause = Some(fresh(ErrorKind::Conflict, "state changed between planning and preflight"));
                    ApplyAction::Finish
                }
            },
            Err(e) => {
                self.stage = ApplyStage::Done;
                self.cause = Some(e);
                ApplyAction::Finish
            },
        }
    }

    fn on_prepared(&mut self, manifest: &TaskManifest, r: Result<(), Error>) -> (a: ApplyAction)
        requires
            run_wf(old(self)@),
            old(self)@.stage == ApplyStage::Preparing,
        ensures
            (final(self)@, a@) == step_spec(old(self)@, *manifest, ApplyEventView::Prepared(result_error(r))),
            final(self).report.status == old(self).report.status,
    {
        let ghost v = self@;
        match r {
                Err(e) => {
                    self.stage = ApplyStage::Done;
                    self.cause = Some(e);
                    ApplyAction::Finish
                },
                Ok(()) => {
                    self.prepared = Ghost(true);
                    if self.report.plan.changes.len() > 0 {
                        self.stage = ApplyStage::Precondition(0);
                        ApplyAction::Observe(self.change_exec(0))
                    } else {
                        self.stage = ApplyStage::Done;
                        ApplyAction::Finish
                    }
                },
            }
    }

    fn on_precondition(&mut self, manifest: &TaskManifest, i: usize, r: Result<Observed, Error>) -> (a: ApplyAction)
        requires
            run_wf(old(self)@),
            old(self)@.stage == ApplyStage::Precondition(i),
        ensures
            (final(self)@, a@) == step_spec(old(self)@, *manifest, ApplyEventView::Observed(match r { Ok(o) => Ok(o), Err(e) => Err(e@) })),
            final(self).report.status == old(self).report.status,
    {
        let ghost v = self@;
        let c = self.change_exec(i);
                let b = self.expected[i];
                proof {
                    assert(v.expected[i as int] == b as int);
                }
                let failure: Option<Error> = match r {
                    Ok(live) => if live.eq(&self.observations[b]) {
                        None
                    } else {
                        Some(fresh(ErrorKind::Conflict, "state changed during preflight"))
                    },
                    Err(e) => Some(e),
                };
                match failure {
                    Some(err) => {
                        self.record(&c, ApplyPhase::Precondition, StepOutcome::Failed, Some(err.duplicate()));
                        self.begin_rollback_exec(err)
                    },
                    None => {
                        self.record(&c, ApplyPhase::Precondition, StepOutcome::Succeeded, None);
                        self.perform_exec(manifest, i)
                    },
                }
    }

    fn on_stopped(&mut self, manifest: &TaskManifest, i: usize, r: Result<(), Error>) -> (a: ApplyAction)
        requires
            run_wf(old(self)@),
            old(self)@.stage == ApplyStage::Stopping(i),
        ensures
            (final(self)@, a@) == step_spec(old(self)@, *manifest, ApplyEventView::Stopped(result_error(r))),
            final(self).report.status == old(self).report.status,
    {
        let ghost v = self@;
        let c = self.change_exec(i);
                match r {
                    Err(e) => {
                        self.record(&c, ApplyPhase::Stop, StepOutcome::Unknown, Some(e.duplicate()));
                        self.begin_rollback_exec(e)
                    },
                    Ok(()) => {
                        self.record(&c, ApplyPhase::Stop, StepOutcome::Succeeded, None);
                        self.record(&c, ApplyPhase::Mutation, StepOutcome::Attempted, None);
                        self.stage = ApplyStage::Executing(i);
                        ApplyAction::Execute(c, None)
                    },
                }
    }

    fn on_executed(&mut self, manifest: &TaskManifest, i: usize, r: Result<(), Error>, native: Vec<JournalEntry>) -> (a: ApplyAction)
        requires
            run_wf(old(self)@),
            old(self)@.stage == ApplyStage::Executing(i),
        ensures
            (final(self)@, a@) == step_spec(old(self)@, *manifest, ApplyEventView::Executed(result_error(r), journal_view(native@))),
            final(self).report.status == old(self).report.status,
    {
        let ghost v = self@;
        let c = self.change_exec(i);
                let mut native = native;
                let ghost old_journal = self.report.journal@;
                let ghost added = native@;
                self.report.journal.append(&mut native);
                proof {
                    assert(journal_view(self.report.journal@) =~= journal_view(old_journal) + journal_view(added));
                }
                let (outcome, error, pending) = match r {
                    Ok(()) => (StepOutcome::Succeeded, None, None),
                    Err(e) => (StepOutcome::Unknown, Some(e.duplicate()), Some(e)),
                };
                self.record(&c, ApplyPhase::Mutation, outcome, error);
                self.pending = pending;
                self.stage = ApplyStage::Verifying(i);
                ApplyAction::Observe(c)
    }

    fn on_verified(&mut self, manifest: &TaskManifest, i: usize, r: Result<Observed, Error>) -> (a: ApplyAction)
        requires
            run_wf(old(self)@),
            old(self)@.stage == ApplyStage::Verifying(i),
        ensures
            (final(self)@, a@) == step_spec(old(self)@, *manifest, ApplyEventView::Observed(match r { Ok(o) => Ok(o), Err(e) => Err(e@) })),
            final(self).report.status == old(self).report.status,
    {
        let ghost v = self@;
        match r {
                Err(e) => {
                    proof {
                        assert(step_spec(v, *manifest, ApplyEventView::Observed(Err(e@))) == reject(v, i as int, e@));
                    }
                    self.reject_exec(i, e)
                },
                Ok(after) => {
                    let c = self.change_exec(i);
                    let b = self.expected[i];
                    proof {
                        assert(v.expected[i as int] == b as int);
                    }
                    let same = after.eq(&self.observations[b]);
                    let confirmation = expected_after(&self.observations[b], &after, manifest, &c);
                    let ghost old_obs = self.observations@;
                    self.observations.push(after);
                    if same && self.pending.is_some() {
                        self.record(&c, ApplyPhase::Verify, StepOutcome::Succeeded, None);
                        let p = self.pending.take();
                        match p {
                            Some(e) => self.begin_rollback_exec(e),
                            None => {
                                proof {
                                    assert(false);
                                }
                                ApplyAction::Finish
                            },
                        }
                    } else if self.pending.is_none() || matches!(
                        c,
                        Change::CreateTask(_) | Change::UpdateTask(_) | Change::AdoptTask(_) | Change::DeleteTask(_)
                            | Change::SetEnabled { .. }
                    ) {
                        match confirmation {
                            Confirmation::Decided(true) => self.accept_exec(i),
                            Confirmation::Decided(false) => self.reject_exec(i, conflict_exec(&c)),
                            Confirmation::TaskSecurity(path, sections, desired) => {
                                self.confirm = Some(desired);
                                self.stage = ApplyStage::Confirming(i);
                                ApplyAction::ReadTaskSecurity(path, sections)
                            },
                            Confirmation::FolderSecurity(path, sections, desired) => {
                                self.confirm = Some(desired);
                                self.stage = ApplyStage::Confirming(i);
                                ApplyAction::ReadFolderSecurity(path, sections)
                            },
                        }
                    } else {
                        self.reject_exec(i, conflict_exec(&c))
                    }
                },
            }
    }

    fn on_security_read(&mut self, manifest: &TaskManifest, i: usize, r: Result<SecurityDescriptor, Error>) -> (a: ApplyAction)
        requires
            run_wf(old(self)@),
            old(self)@.stage == ApplyStage::Confirming(i),
        ensures
            (final(self)@, a@) == step_spec(old(self)@, *manifest, ApplyEventView::SecurityRead(match r { Ok(d) => Ok(d@), Err(e) => Err(e@) })),
            final(self).report.status == old(self).report.status,
    {
        let ghost v = self@;
        let confirmed = match &self.confirm {
                    Some(desired) => confirmed_by(desired, &r),
                    None => false,
                };
                if confirmed {
                    self.accept_exec(i)
                } else {
                    let c = self.change_exec(i);
                    self.confirm = None;
                    self.reject_exec(i, conflict_exec(&c))
                }
    }

    fn on_rollback_check(&mut self, manifest: &TaskManifest, k: usize, r: Result<Observed, Error>) -> (a: ApplyAction)
        requires
            run_wf(old(self)@),
            old(self)@.stage == ApplyStage::RollbackCheck(k),
        ensures
            (final(self)@, a@) == step_spec(old(self)@, *manifest, ApplyEventView::Observed(match r { Ok(o) => Ok(o), Err(e) => Err(e@) })),
            final(self).report.status == old(self).report.status,
    {
        let ghost v = self@;
        match r {
                Err(e) => self.rollback_failed_exec(k, e),
                Ok(o) => {
                    let (_, _, after) = self.undo[k];
                    proof {
                        assert(v.undo[k as int].2 == after as int);
                    }
                    if o.eq(&self.observations[after]) {
                        self.stage = ApplyStage::RollbackRun(k);
                        ApplyAction::Compensate(self.undo_change_exec(k))
                    } else {
                        self.rollback_failed_exec(
                            k,
                            fresh(ErrorKind::Conflict, "state changed after apply; refusing to overwrite external changes"),
                        )
                    }
                },
            }
    }

    fn on_compensated(&mut self, manifest: &TaskManifest, k: usize, r: Result<(), Error>, native: Vec<JournalEntry>) -> (a: ApplyAction)
        requires
            run_wf(old(self)@),
            old(self)@.stage == ApplyStage::RollbackRun(k),
        ensures
            (final(self)@, a@) == step_spec(old(self)@, *manifest, ApplyEventView::Compensated(result_error(r), journal_view(native@))),
            final(self).report.status == old(self).report.status,
    {
        let ghost v = self@;
        let mut native = native;
                let ghost old_journal = self.report.journal@;
                let ghost added = native@;
                self.report.journal.append(&mut native);
                proof {
                    assert(journal_view(self.report.journal@) =~= journal_view(old_journal) + journal_view(added));
                }
                match r {
                    Err(e) => self.rollback_failed_exec(k, e),
                    Ok(()) => {
                        self.stage = ApplyStage::RollbackVerify(k);
                        ApplyAction::Observe(self.undo_change_exec(k))
                    },
                }
    }

    fn on_rollback_verify(&mut self, manifest: &TaskManifest, k: usize, r: Result<Observed, Error>) -> (a: ApplyAction)
        requires
            run_wf(old(self)@),
            old(self)@.stage == ApplyStage::RollbackVerify(k),
        ensures
            (final(self)@, a@) == step_spec(old(self)@, *manifest, ApplyEventView::Observed(match r { Ok(o) => Ok(o), Err(e) => Err(e@) })),
            final(self).report.status == old(self).report.status,
    {
        let ghost v = self@;
        match r {
                Err(e) => self.rollback_failed_exec(k, e),
                Ok(o) => {
                    let (_, before, _) = self.undo[k];
                    proof {
                        assert(v.undo[k as int].1 == before as int);
                    }
                    if o.eq(&self.observations[before]) {
                        self.rollback_succeeded_exec(k)
                    } else {
                        self.rollback_failed_exec(
                            k,
                            fresh(ErrorKind::Irreversible, "rollback returned but original state is not confirmed"),
                        )
                    }
                },
            }
    }

    /// Starts applying a manifest to the inspected state: plans it, and
    /// returns the run with its first action, or the planning failure with
    /// an empty report.
    pub fn start(manifest: &TaskManifest, state: CurrentState, options: ApplyOptions) -> (r: Result<(ApplyRun, ApplyAction), ApplyFailure>)
        ensures
            match r {
                Ok((run, action)) => run.wf() && exists|p: Plan| #[trigger] plan_outcome(*manifest, state, plan_options(options), Ok(p))
                    && run@ == start_view(
                    planned_views(p.changes@),
                    if options.stop_running { stop_targets(p.changes@) } else { Seq::empty() },
                    state,
                    options,
                ) && action@ == start_action(run@),
                Err(f) => crate::reconcile::report_is_blank(f.report) && plan_outcome(
                    *manifest,
                    state,
                    plan_options(options),
                    Err(f.cause),
                ),
            },
    {
        let planned = plan_state(manifest, &state, PlanOptions { prune: options.prune, adopt: options.adopt });
        let plan = match planned {
            Ok(plan) => plan,
            Err(e) => {
                return Err(crate::reconcile::empty_apply_failure(e));
            },
        };
        let ghost original = plan;
        let plan = if options.stop_running {
            plan.with_stop_running()
        } else {
            plan
        };
        proof {
            if !options.stop_running {
                assert(task_views(plan.irreversible_effects@) =~= Seq::empty());
            }
        }
        let empty = plan.changes.len() == 0;
        let run = ApplyRun {
            stage: if empty {
                ApplyStage::Done
            } else {
                ApplyStage::Preflight(0)
            },
            options,
            state,
            observations: Vec::new(),
            expected: Vec::new(),
            undo: Vec::new(),
            report: ApplyReport {
                status: ApplyStatus::Failed,
                plan,
                applied: Vec::new(),
                rolled_back: Vec::new(),
                rollback_failures: Vec::new(),
                journal: Vec::new(),
                unresolved: Vec::new(),
                irreversible_effects: Vec::new(),
            },
            pending: None,
            confirm: None,
            cause: None,
            prepared: Ghost(false),
            compensated: Ghost(Seq::empty()),
        };
        proof {
            let v = run@;
            assert(v.expected =~= Seq::empty());
            assert(v.undo =~= Seq::empty());
            assert(v.applied =~= Seq::empty());
            assert(v.rolled_back =~= Seq::empty());
            assert(v.unresolved =~= Seq::empty());
            assert(v.failures =~= Seq::empty());
            assert(v.journal =~= Seq::empty());
            assert(v.irreversible =~= Seq::empty());
            assert(planned_views(run.report.plan.changes@) == planned_views(original.changes@));
            assert(v == start_view(
                planned_views(original.changes@),
                if options.stop_running { stop_targets(original.changes@) } else { Seq::empty() },
                state,
                options,
            ));
            assert(plan_outcome(*manifest, state, plan_options(options), Ok(original)));
        }
        let action = if empty {
            ApplyAction::Finish
        } else {
            ApplyAction::Observe(copy_change(&run.report.plan.changes[0].change))
        };
        Ok((run, action))
    }

    /// The outcome of a finished run: the report of a successful apply, or
    /// the failure cause with the report of what was applied and compensated.
    pub fn finish(self) -> (r: Result<ApplyReport, ApplyFailure>)
        requires
            self.wf(),
            self@.stage == ApplyStage::Done,
        ensures
            match r {
                Ok(report) => self@.cause is None && report.status == ApplyStatus::Succeeded && report_shows(report, self@),
                Err(f) => self@.cause == Some(f.cause@) && f.report.status == ApplyStatus::Failed && report_shows(f.report, self@),
            },
    {
        let ApplyRun { report, cause, .. } = self;
        let mut report = report;
        match cause {
            Some(cause) => Err(ApplyFailure { cause, report }),
            None => {
                report.status = ApplyStatus::Succeeded;
                Ok(report)
            },
        }
    }
}

/// What a finished run establishes. A successful run applied every planned
/// change in plan order, and compensated, left unresolved or failed nothing.
/// A failed run applied a prefix of the plan in plan order, attempted to
/// compensate each applied change exactly once, from the last one applied
/// back to the first, and each applied change ends rolled back or with its
/// rollback failure kept; the rolled-back changes are listed in reverse
/// apply order.
pub proof fn lemma_finished_run(v: ApplyRunView)
    requires
        run_wf(v),
        v.stage == ApplyStage::Done,
    ensures
        v.applied.len() <= v.planned.len(),
        forall|t: int| 0 <= t < v.applied.len() ==> #[trigger] v.applied[t] == v.planned[t].0,
        v.cause is None ==> v.applied.len() == v.planned.len() && v.rolled_back.len() == 0
            && v.unresolved.len() == 0 && v.failures.len() == 0 && v.compensated.len() == 0,
        v.cause is Some ==> v.compensated == v.applied.reverse(),
        v.cause is Some ==> forall|t: int| 0 <= t < v.applied.len() ==> compensation_recorded(v, #[trigger] v.applied[t]),
        v.cause is Some ==> is_subsequence(v.rolled_back, v.applied.reverse()),
{
    if v.cause is Some {
        assert(v.compensated =~= v.applied.reverse());
        assert forall|t: int| 0 <= t < v.applied.len() implies compensation_recorded(v, #[trigger] v.applied[t]) by {
            let u = v.applied.len() - 1 - t;
            assert(v.compensated[u] == v.applied[t]);
        }
    }
}

/// A change is performed, or its task's instances stopped, only once every
/// planned target was read and the rollback snapshots and credentials were
/// captured; the journal then ends with the attempt.
pub proof fn lemma_mutation_after_preparation(v: ApplyRunView, m: TaskManifest, e: ApplyEventView)
    requires
        run_wf(v),
        awaits(v, e),
        step_spec(v, m, e).1 is Execute || step_spec(v, m, e).1 is Stop,
    ensures
        v.prepared,
        v.expected.len() == v.planned.len(),
        v.cause is None,
        step_spec(v, m, e).0.journal.len() > 0,
        step_spec(v, m, e).1 matches ApplyActionView::Execute(c, _) ==> step_spec(v, m, e).0.journal.last()
            == (EntryView { operation: phase_text(ApplyPhase::Mutation), change: c, phase: ApplyPhase::Mutation, outcome: StepOutcome::Attempted, error: None }),
        step_spec(v, m, e).1 matches ApplyActionView::Stop(p) ==> step_spec(v, m, e).0.irreversible.last() == p,
{
}

/// A change is compensated only while its target still shows exactly what
/// the change left: compensation never overwrites a change made by someone
/// else after it.
pub proof fn lemma_compensation_preserves_foreign_changes(v: ApplyRunView, m: TaskManifest, e: ApplyEventView)
    requires
        run_wf(v),
        awaits(v, e),
        step_spec(v, m, e).1 is Compensate,
    ensures
        v.stage is RollbackCheck,
        e matches ApplyEventView::Observed(Ok(o)) && observed_same(o, v.observations[v.undo[v.stage->RollbackCheck_0 as int].2]),
        step_spec(v, m, e).1 == ApplyActionView::Compensate(undo_change(v, v.stage->RollbackCheck_0 as int)),
{
}
} // verus!
