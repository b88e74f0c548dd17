//! Ownership-safe desired-state planning, and the records of application and
//! compensation.
use vstd::prelude::*;

use crate::client::SecurityInformation;
use crate::error::{Error, ErrorKind};
use crate::manifest::{ManagedFolder, ManagedTask, TaskManifest};
use crate::model::principal::LogonType;
use crate::model::TaskDefinition;
use crate::model::SecurityDescriptor;
use crate::model::trigger::seq_less;
use crate::path::{FolderPath, TaskPath};

pub mod recovery;
pub mod engine;
pub mod operations;
pub mod plan_laws;

verus! {

/// One semantic desired-state change.
#[derive(Clone, Debug, Eq, PartialEq)]
pub enum Change {
    /// Create a scheduler folder.
    CreateFolder(FolderPath),
    /// Create a new task.
    CreateTask(TaskPath),
    /// Replace a managed task whose semantic definition drifted.
    UpdateTask(TaskPath),
    /// Adopt an existing unowned task after explicit authorization.
    AdoptTask(TaskPath),
    /// Delete a managed task absent from desired state.
    DeleteTask(TaskPath),
    /// Change enabled state only.
    SetEnabled {
        /// Registered task path.
        path: TaskPath,
        /// Desired state.
        enabled: bool,
    },
    /// Change task security without replacing the definition.
    SetTaskSecurity(TaskPath),
    /// Change folder security without replacing its children.
    SetFolderSecurity(FolderPath),
}

/// A change with its paths taken as text.
pub enum ChangeView {
    /// Create a scheduler folder.
    CreateFolder(Seq<char>),
    /// Create a new task.
    CreateTask(Seq<char>),
    /// Replace a managed task.
    UpdateTask(Seq<char>),
    /// Adopt an existing unowned task.
    AdoptTask(Seq<char>),
    /// Delete a managed task.
    DeleteTask(Seq<char>),
    /// Change enabled state only.
    SetEnabled(Seq<char>, bool),
    /// Change task security.
    SetTaskSecurity(Seq<char>),
    /// Change folder security.
    SetFolderSecurity(Seq<char>),
}

impl View for Change {
    type V = ChangeView;

    open spec fn view(&self) -> ChangeView {
        match self {
            Change::CreateFolder(p) => ChangeView::CreateFolder(p@),
            Change::CreateTask(p) => ChangeView::CreateTask(p@),
            Change::UpdateTask(p) => ChangeView::UpdateTask(p@),
            Change::AdoptTask(p) => ChangeView::AdoptTask(p@),
            Change::DeleteTask(p) => ChangeView::DeleteTask(p@),
            Change::SetEnabled { path, enabled } => ChangeView::SetEnabled(path@, *enabled),
            Change::SetTaskSecurity(p) => ChangeView::SetTaskSecurity(p@),
            Change::SetFolderSecurity(p) => ChangeView::SetFolderSecurity(p@),
        }
    }
}

/// The task a change is about, or `None` for a folder change.
pub open spec fn change_task(c: ChangeView) -> Option<Seq<char>> {
    match c {
        ChangeView::CreateTask(p) => Some(p),
        ChangeView::UpdateTask(p) => Some(p),
        ChangeView::AdoptTask(p) => Some(p),
        ChangeView::DeleteTask(p) => Some(p),
        ChangeView::SetEnabled(p, _) => Some(p),
        ChangeView::SetTaskSecurity(p) => Some(p),
        ChangeView::CreateFolder(_) => None,
        ChangeView::SetFolderSecurity(_) => None,
    }
}

/// The folder a change is about, or `None` for a task change.
pub open spec fn change_folder(c: ChangeView) -> Option<Seq<char>> {
    match c {
        ChangeView::CreateFolder(p) => Some(p),
        ChangeView::SetFolderSecurity(p) => Some(p),
        _ => None,
    }
}

/// Whether a change replaces or removes an existing task, so that running
/// instances would be stopped first.
pub open spec fn replaces_existing_task(c: ChangeView) -> bool {
    c is UpdateTask || c is AdoptTask || c is DeleteTask
}

/// A copy of a change.
pub fn copy_change(c: &Change) -> (r: Change)
    ensures
        r@ == c@,
{
    match c {
        Change::CreateFolder(p) => Change::CreateFolder(p.clone()),
        Change::CreateTask(p) => Change::CreateTask(p.clone()),
        Change::UpdateTask(p) => Change::UpdateTask(p.clone()),
        Change::AdoptTask(p) => Change::AdoptTask(p.clone()),
        Change::DeleteTask(p) => Change::DeleteTask(p.clone()),
        Change::SetEnabled { path, enabled } => Change::SetEnabled { path: path.clone(), enabled: *enabled },
        Change::SetTaskSecurity(p) => Change::SetTaskSecurity(p.clone()),
        Change::SetFolderSecurity(p) => Change::SetFolderSecurity(p.clone()),
    }
}

/// The task a change is about.
pub fn task_path(change: &Change) -> (r: Option<&TaskPath>)
    ensures
        match r {
            Some(p) => change_task(change@) == Some(p@),
            None => change_task(change@) is None,
        },
{
    match change {
        Change::CreateTask(path) | Change::UpdateTask(path) | Change::AdoptTask(path)
        | Change::DeleteTask(path) | Change::SetEnabled { path, .. } | Change::SetTaskSecurity(
            path,
        ) => Some(path),
        Change::CreateFolder(_) | Change::SetFolderSecurity(_) => None,
    }
}

/// Whether two changes are about the same task, or the same folder.
pub fn same_target(left: &Change, right: &Change) -> (r: bool)
    ensures
        r == (match (change_task(left@), change_task(right@)) {
            (Some(a), Some(b)) => a == b,
            (None, None) => change_folder(left@) == change_folder(right@),
            _ => false,
        }),
{
    match (task_path(left), task_path(right)) {
        (Some(a), Some(b)) => a.same(b),
        (None, None) => match (left, right) {
            (
                Change::CreateFolder(a) | Change::SetFolderSecurity(a),
                Change::CreateFolder(b) | Change::SetFolderSecurity(b),
            ) => a.same(b),
            _ => false,
        },
        _ => false,
    }
}

/// Rollback guarantees for a planned change.
#[derive(Clone, Copy, Debug, Eq, Hash, PartialEq, Structural)]
pub enum RollbackSafety {
    /// The old state is fully reconstructable.
    Reversible,
    /// Rollback requires a separately supplied registration password.
    RequiresCredential,
    /// Native side effects, such as a triggered run, cannot be undone.
    Irreversible,
}

/// Change plus its rollback classification.
#[derive(Clone, Debug, Eq, PartialEq)]
pub struct PlannedChange {
    /// Intended operation.
    pub change: Change,
    /// Available compensation guarantee.
    pub rollback: RollbackSafety,
}

/// The tasks whose running instances a plan's changes would stop, in order.
pub open spec fn stop_targets(changes: Seq<PlannedChange>) -> Seq<Seq<char>>
    decreases changes.len(),
{
    if changes.len() == 0 {
        Seq::empty()
    } else {
        let rest = stop_targets(changes.drop_last());
        let c = changes.last().change@;
        if replaces_existing_task(c) {
            rest.push(change_task(c)->0)
        } else {
            rest
        }
    }
}

/// Deterministically ordered dry-run plan.
#[derive(Clone, Debug, Eq, PartialEq)]
pub struct Plan {
    /// Desired changes in apply order.
    pub changes: Vec<PlannedChange>,
    /// Planned instance-stop requests cannot be undone by restoring definitions.
    pub irreversible_effects: Vec<TaskPath>,
}

impl Default for Plan {
    fn default() -> (p: Self)
        ensures
            p.changes@.len() == 0,
            p.irreversible_effects@.len() == 0,
    {
        Plan { changes: Vec::new(), irreversible_effects: Vec::new() }
    }
}

impl Plan {
    /// Includes the irreversible stop requests that stopping running
    /// instances would issue for this plan, without making any scheduler
    /// calls.
    pub fn with_stop_running(self) -> (p: Self)
        ensures
            p.changes == self.changes,
            p.irreversible_effects@.map_values(|t: TaskPath| t@) == stop_targets(self.changes@),
    {
        let mut effects: Vec<TaskPath> = Vec::new();
        let mut i: usize = 0;
        while i < self.changes.len()
            invariant
                i <= self.changes.len(),
                effects@.map_values(|t: TaskPath| t@) == stop_targets(self.changes@.take(i as int)),
            decreases self.changes.len() - i,
        {
            let ghost prev = effects@;
            proof {
                assert(self.changes@.take(i + 1).drop_last() =~= self.changes@.take(i as int));
                assert(self.changes@.take(i + 1).last() == self.changes@[i as int]);
            }
            match &self.changes[i].change {
                Change::UpdateTask(path) | Change::AdoptTask(path) | Change::DeleteTask(path) => {
                    effects.push(path.clone());
                    proof {
                        assert(effects@.map_values(|t: TaskPath| t@) =~= prev.map_values(
                            |t: TaskPath| t@,
                        ).push(path@));
                    }
                },
                _ => {},
            }
            i += 1;
        }
        proof {
            assert(self.changes@.take(i as int) =~= self.changes@);
        }
        Plan { changes: self.changes, irreversible_effects: effects }
    }

    /// Whether current state already matches desired state.
    pub fn is_empty(&self) -> (r: bool)
        ensures
            r == (self.changes@.len() == 0),
    {
        self.changes.len() == 0
    }

    /// Whether any change needs extra input or cannot be compensated.
    pub fn contains_irreversible_changes(&self) -> (r: bool)
        ensures
            r == (self.irreversible_effects@.len() > 0 || exists|i: int|
                0 <= i < self.changes@.len() && #[trigger] self.changes@[i].rollback
                    != RollbackSafety::Reversible),
    {
        if self.irreversible_effects.len() > 0 {
            return true;
        }
        let mut i: usize = 0;
        while i < self.changes.len()
            invariant
                i <= self.changes.len(),
                forall|k: int| 0 <= k < i ==> #[trigger] self.changes@[k].rollback == RollbackSafety::Reversible,
            decreases self.changes.len() - i,
        {
            if self.changes[i].rollback != RollbackSafety::Reversible {
                return true;
            }
            i += 1;
        }
        false
    }
}

/// Options that affect planning only.
#[derive(Clone, Copy, Debug, Eq, PartialEq, Structural)]
pub struct PlanOptions {
    /// Delete owned tasks absent from desired state.
    pub prune: bool,
    /// Permit replacing an existing task without this manifest's ownership marker.
    pub adopt: bool,
}

impl Default for PlanOptions {
    fn default() -> (o: Self)
        ensures
            !o.prune,
            !o.adopt,
    {
        PlanOptions { prune: false, adopt: false }
    }
}

/// Why a password is being requested during apply preflight.
#[derive(Clone, Copy, Debug, Eq, Hash, PartialEq, Structural)]
pub enum CredentialPurpose {
    /// Register the desired task definition.
    DesiredRegistration,
    /// Restore the previous task definition during compensation.
    Rollback,
}

/// Resolver used when no secret provider is supplied: every request fails.
#[derive(Clone, Copy, Debug, Default)]
pub struct NoCredentials;

impl NoCredentials {
    /// The failure answered for a password request about `path`: an
    /// authentication error for a desired registration, and an irreversible
    /// one for a rollback.
    pub fn refusal(&self, path: &TaskPath, purpose: CredentialPurpose) -> (e: Error)
        ensures
            e@.kind == (match purpose {
                CredentialPurpose::DesiredRegistration => ErrorKind::Authentication,
                CredentialPurpose::Rollback => ErrorKind::Irreversible,
            }),
            e@.message == "a registration password resolver is required"@,
            e@.target == Some(path@),
    {
        let kind = match purpose {
            CredentialPurpose::DesiredRegistration => ErrorKind::Authentication,
            CredentialPurpose::Rollback => ErrorKind::Irreversible,
        };
        Error::new(kind, "a registration password resolver is required").with_target(path.as_str())
    }
}

/// Mutation and safety policy for apply.
#[derive(Clone, Copy, Debug, Eq, PartialEq, Structural)]
pub struct ApplyOptions {
    /// Delete owned tasks absent from the manifest.
    pub prune: bool,
    /// Explicitly adopt unowned tasks that collide with desired paths.
    pub adopt: bool,
    /// Continue when an exact rollback snapshot cannot be prepared.
    pub allow_irreversible: bool,
    /// Stop running instances before replacing or deleting their task.
    pub stop_running: bool,
    /// Suppress registration triggers during create, update, and rollback.
    pub ignore_registration_triggers: bool,
}

impl Default for ApplyOptions {
    fn default() -> (o: Self)
        ensures
            o == (ApplyOptions {
                prune: false,
                adopt: false,
                allow_irreversible: false,
                stop_running: false,
                ignore_registration_triggers: true,
            }),
    {
        ApplyOptions {
            prune: false,
            adopt: false,
            allow_irreversible: false,
            stop_running: false,
            ignore_registration_triggers: true,
        }
    }
}

/// Overall apply outcome, including failures before a plan can be constructed.
#[derive(Clone, Copy, Debug, Eq, PartialEq, Structural)]
pub enum ApplyStatus {
    /// Apply failed; inspect the failure cause and recovery evidence.
    Failed,
    /// Apply completed, including a successful operation with no changes.
    Succeeded,
}

/// One phase of an apply or compensation operation.
#[derive(Clone, Copy, Debug, Eq, PartialEq, Structural)]
pub enum ApplyPhase {
    /// Compare live state immediately before mutation.
    Precondition,
    /// Stop existing instances (irreversible).
    Stop,
    /// Mutate the task or folder.
    Mutation,
    /// Read back state after an attempt, including a lost response.
    Verify,
    /// Compensate a previously attempted mutation.
    Rollback,
}

/// What has been established for a journaled operation.
#[derive(Clone, Copy, Debug, Eq, PartialEq, Structural)]
pub enum StepOutcome {
    /// The operation is about to be invoked.
    Attempted,
    /// The operation returned successfully.
    Succeeded,
    /// The operation failed without a confirmed final state.
    Failed,
    /// A mutation may have happened but cannot safely be attributed or restored.
    Unknown,
}

/// Structured apply evidence. Errors retain native codes and diagnostic fields.
#[derive(Clone, Debug)]
pub struct JournalEntry {
    /// Specific backend operation, or the outer observation phase.
    pub operation: String,
    /// Semantic change being processed.
    pub change: Change,
    /// Execution phase.
    pub phase: ApplyPhase,
    /// Observed outcome.
    pub outcome: StepOutcome,
    /// Original error, when applicable.
    pub error: Option<Error>,
}

/// A compensation failure that can be inspected without parsing prose.
#[derive(Clone, Debug)]
pub struct RollbackFailure {
    /// Change requiring recovery.
    pub change: Change,
    /// Phase where recovery failed.
    pub phase: ApplyPhase,
    /// Original classified error.
    pub error: Error,
}

/// Successful apply or the mutation/compensation portion of a failed apply.
#[derive(Clone, Debug)]
pub struct ApplyReport {
    /// Whether apply completed successfully, independently of the number of changes.
    pub status: ApplyStatus,
    /// Original deterministic plan.
    pub plan: Plan,
    /// Changes successfully attempted before completion or failure.
    pub applied: Vec<Change>,
    /// Applied changes successfully compensated after a failure.
    pub rolled_back: Vec<Change>,
    /// Compensation errors; non-empty means the final state is uncertain.
    pub rollback_failures: Vec<RollbackFailure>,
    /// Ordered observations, including uncertain and partially completed operations.
    pub journal: Vec<JournalEntry>,
    /// Changes whose final state could not be safely established or restored.
    pub unresolved: Vec<Change>,
    /// Stop requests cannot be undone by restoring a task definition.
    pub irreversible_effects: Vec<TaskPath>,
}

impl ApplyReport {
    /// Whether every planned change was applied and no rollback was needed.
    pub fn succeeded(&self) -> (r: bool)
        ensures
            r == (self.status == ApplyStatus::Succeeded && self.applied@.len()
                == self.plan.changes@.len() && self.rolled_back@.len() == 0
                && self.rollback_failures@.len() == 0 && self.unresolved@.len() == 0),
    {
        self.status == ApplyStatus::Succeeded && self.applied.len() == self.plan.changes.len()
            && self.rolled_back.len() == 0 && self.rollback_failures.len() == 0
            && self.unresolved.len() == 0
    }

    /// Whether compensation restored every already-applied change.
    pub fn rollback_complete(&self) -> (r: bool)
        ensures
            r == (self.applied@.len() > 0 && self.rolled_back@.len() == self.applied@.len()
                && self.rollback_failures@.len() == 0 && self.unresolved@.len() == 0
                && self.irreversible_effects@.len() == 0),
    {
        self.applied.len() > 0 && self.rolled_back.len() == self.applied.len()
            && self.rollback_failures.len() == 0 && self.unresolved.len() == 0
            && self.irreversible_effects.len() == 0
    }
}

/// Apply failure retaining the original cause and compensation report.
#[derive(Clone, Debug)]
pub struct ApplyFailure {
    /// Native, validation, ownership, or credential error that stopped apply.
    pub cause: Error,
    /// Steps applied and compensated around the failure.
    pub report: ApplyReport,
}

/// Whether a report records nothing: a failure before any plan was built.
pub open spec fn report_is_blank(r: ApplyReport) -> bool {
    &&& r.status == ApplyStatus::Failed
    &&& r.plan.changes@.len() == 0
    &&& r.plan.irreversible_effects@.len() == 0
    &&& r.applied@.len() == 0
    &&& r.rolled_back@.len() == 0
    &&& r.rollback_failures@.len() == 0
    &&& r.journal@.len() == 0
    &&& r.unresolved@.len() == 0
    &&& r.irreversible_effects@.len() == 0
}

impl ApplyFailure {
    /// The failure text: the cause, then how many rollback steps also failed
    /// when any did.
    pub fn message(&self) -> (s: String)
        ensures
            self.report.rollback_failures@.len() == 0 ==> s@ == crate::error::error_display(
                self.cause@,
            ),
    {
        let mut s = self.cause.to_string();
        if self.report.rollback_failures.len() > 0 {
            s.append("; ");
            s.append(crate::text::u64_to_string(self.report.rollback_failures.len() as u64).as_str());
            s.append(" rollback step(s) also failed");
        }
        s
    }
}

/// A failure that happened before any plan was built.
pub fn empty_apply_failure(cause: Error) -> (f: ApplyFailure)
    ensures
        f.cause == cause,
        report_is_blank(f.report),
{
    ApplyFailure {
        cause,
        report: ApplyReport {
            status: ApplyStatus::Failed,
            plan: Plan::default(),
            applied: Vec::new(),
            rolled_back: Vec::new(),
            rollback_failures: Vec::new(),
            journal: Vec::new(),
            unresolved: Vec::new(),
            irreversible_effects: Vec::new(),
        },
    }
}

/// Whether a logon type registers with a stored password.
pub open spec fn is_password_logon(logon_type: LogonType) -> bool {
    logon_type == LogonType::Password || logon_type == LogonType::InteractiveTokenOrPassword
}

/// Whether a task with this logon type needs a password to be registered again.
pub fn password_backed(logon_type: LogonType) -> (r: bool)
    ensures
        r == is_password_logon(logon_type),
{
    matches!(logon_type, LogonType::Password | LogonType::InteractiveTokenOrPassword)
}


/// State of the SDDL scanner before `s[i]`: the parenthesis depth, whether
/// it is inside a quoted string, and whether the previous character was a
/// backslash inside quotes.
pub open spec fn sddl_state(s: Seq<char>, i: int) -> (nat, bool, bool)
    decreases i,
{
    if i <= 0 {
        (0, false, false)
    } else {
        let (depth, quoted, escaped) = sddl_state(s, i - 1);
        let c = s[i - 1];
        if quoted {
            if escaped {
                (depth, true, false)
            } else if c == '\\' {
                (depth, true, true)
            } else if c == '"' {
                (depth, false, false)
            } else {
                (depth, true, false)
            }
        } else if c == '"' {
            (depth, true, escaped)
        } else if c == '(' {
            (depth + 1, false, escaped)
        } else if c == ')' {
            (if depth > 0 { (depth - 1) as nat } else { 0 }, false, escaped)
        } else {
            (depth, false, escaped)
        }
    }
}

/// The section flag that `s[i]` starts: an owner, group, DACL or SACL
/// letter at the top level, outside quotes, directly followed by `:`.
pub open spec fn section_flag(s: Seq<char>, i: int) -> u32 {
    let (depth, quoted, _) = sddl_state(s, i);
    if !quoted && depth == 0 && i + 1 < s.len() && s[i + 1] == ':' {
        if s[i] == 'O' {
            1
        } else if s[i] == 'G' {
            2
        } else if s[i] == 'D' {
            4
        } else if s[i] == 'S' {
            8
        } else {
            0
        }
    } else {
        0
    }
}

/// The section flags started by the first `n` characters of `s`.
pub open spec fn section_flags(s: Seq<char>, n: int) -> u32
    decreases n,
{
    if n <= 0 {
        0
    } else {
        section_flags(s, n - 1) | section_flag(s, n - 1)
    }
}

/// The security information an SDDL string selects: its sections, or the
/// DACL alone when it names none.
pub open spec fn sddl_information(s: Seq<char>) -> u32 {
    let flags = section_flags(s, s.len() as int);
    if flags == 0 {
        4
    } else {
        flags
    }
}

/// The security information to read or write for a descriptor: exactly
/// the sections its SDDL names, so that absent owner or group sections are
/// neither read nor replaced.
pub fn security_information_for_sddl(descriptor: &SecurityDescriptor) -> (r: SecurityInformation)
    ensures
        r.value() == sddl_information(descriptor@),
{
    let sddl = crate::text::chars_of(descriptor.as_sddl());
    let ghost s = sddl@;
    let mut bits: u32 = 0;
    let mut depth: usize = 0;
    let mut quoted = false;
    let mut escaped = false;
    let mut i: usize = 0;
    while i < sddl.len()
        invariant
            s == sddl@,
            i <= sddl.len(),
            depth <= i,
            (depth as nat, quoted, escaped) == sddl_state(s, i as int),
            bits == section_flags(s, i as int),
        decreases sddl.len() - i,
    {
        let c = sddl[i];
        let mut flag: u32 = 0;
        if !quoted && depth == 0 && i + 1 < sddl.len() && sddl[i + 1] == ':' {
            flag = if c == 'O' {
                1
            } else if c == 'G' {
                2
            } else if c == 'D' {
                4
            } else if c == 'S' {
                8
            } else {
                0
            };
        }
        bits = bits | flag;
        if quoted {
            if escaped {
                escaped = false;
            } else if c == '\\' {
                escaped = true;
            } else if c == '"' {
                quoted = false;
            }
        } else if c == '"' {
            quoted = true;
        } else if c == '(' {
            depth = depth + 1;
        } else if c == ')' {
            depth = if depth > 0 {
                depth - 1
            } else {
                0
            };
        }
        i += 1;
    }
    if bits == 0 {
        SecurityInformation::dacl()
    } else {
        SecurityInformation::from_bits_retain(bits)
    }
}

/// Number of non-empty components of a folder path.
pub open spec fn component_count(s: Seq<char>) -> nat
    decreases s.len(),
{
    if s.len() == 0 {
        0
    } else {
        let starts = s.last() != '\\' && (s.len() == 1 || s[s.len() - 2] == '\\');
        component_count(s.drop_last()) + if starts { 1nat } else { 0nat }
    }
}

/// Depth of a folder below the root, which has depth zero.
pub fn folder_depth(path: &FolderPath) -> (d: usize)
    ensures
        d == component_count(path@),
{
    let s = crate::text::chars_of(path.as_str());
    let mut d: usize = 0;
    let mut i: usize = 0;
    while i < s.len()
        invariant
            i <= s.len(),
            d <= i,
            d == component_count(s@.take(i as int)),
        decreases s.len() - i,
    {
        proof {
            assert(s@.take(i + 1).drop_last() =~= s@.take(i as int));
        }
        if s[i] != '\\' && (i == 0 || s[i - 1] == '\\') {
            d += 1;
        }
        i += 1;
    }
    proof {
        assert(s@.take(i as int) =~= s@);
    }
    d
}


/// Apply-order rank of a change: folders first, then creations, adoptions,
/// updates, enabled-state and security changes, and deletions last.
pub open spec fn change_rank(c: ChangeView) -> nat {
    match c {
        ChangeView::CreateFolder(_) => 0,
        ChangeView::CreateTask(_) => 1,
        ChangeView::AdoptTask(_) => 2,
        ChangeView::UpdateTask(_) => 3,
        ChangeView::SetEnabled(_, _) => 4,
        ChangeView::SetTaskSecurity(_) => 5,
        ChangeView::SetFolderSecurity(_) => 5,
        ChangeView::DeleteTask(_) => 6,
    }
}

/// The path text a change is about.
pub open spec fn change_text(c: ChangeView) -> Seq<char> {
    match change_task(c) {
        Some(p) => p,
        None => change_folder(c)->0,
    }
}

/// Folder depth of a folder change, zero for a task change.
pub open spec fn change_depth(c: ChangeView) -> nat {
    match change_folder(c) {
        Some(p) => component_count(p),
        None => 0,
    }
}

/// Whether `a` is applied strictly before `b`: by rank, then folder depth,
/// then path text.
pub open spec fn change_before(a: ChangeView, b: ChangeView) -> bool {
    change_rank(a) < change_rank(b) || (change_rank(a) == change_rank(b) && (change_depth(a)
        < change_depth(b) || (change_depth(a) == change_depth(b) && seq_less(
        change_text(a),
        change_text(b),
    ))))
}

/// The view of a planned change.
pub open spec fn planned_view(p: PlannedChange) -> (ChangeView, RollbackSafety) {
    (p.change@, p.rollback)
}

/// Views of planned changes.
pub open spec fn planned_views(ps: Seq<PlannedChange>) -> Seq<(ChangeView, RollbackSafety)> {
    ps.map_values(|p: PlannedChange| planned_view(p))
}

/// `x` inserted into `s` after every change that is not applied after it.
pub open spec fn insert_in_order(s: Seq<(ChangeView, RollbackSafety)>, x: (ChangeView, RollbackSafety)) -> Seq<(ChangeView, RollbackSafety)>
    decreases s.len(),
{
    if s.len() == 0 {
        seq![x]
    } else if change_before(x.0, s[0].0) {
        seq![x] + s
    } else {
        seq![s[0]] + insert_in_order(s.drop_first(), x)
    }
}

/// Changes in apply order, keeping the planning order among changes of
/// equal order: a stable sort.
pub open spec fn in_apply_order(s: Seq<(ChangeView, RollbackSafety)>) -> Seq<(ChangeView, RollbackSafety)>
    decreases s.len(),
{
    if s.len() == 0 {
        Seq::empty()
    } else {
        insert_in_order(in_apply_order(s.drop_last()), s.last())
    }
}

fn change_depth_exec(c: &Change) -> (d: usize)
    ensures
        d == change_depth(c@),
{
    match c {
        Change::CreateFolder(p) | Change::SetFolderSecurity(p) => folder_depth(p),
        _ => 0,
    }
}

fn change_rank_exec(c: &Change) -> (r: u8)
    ensures
        r == change_rank(c@),
{
    match c {
        Change::CreateFolder(_) => 0,
        Change::CreateTask(_) => 1,
        Change::AdoptTask(_) => 2,
        Change::UpdateTask(_) => 3,
        Change::SetEnabled { .. } => 4,
        Change::SetTaskSecurity(_) => 5,
        Change::SetFolderSecurity(_) => 5,
        Change::DeleteTask(_) => 6,
    }
}

fn change_text_exec(c: &Change) -> (s: &str)
    ensures
        s@ == change_text(c@),
{
    match c {
        Change::CreateFolder(p) | Change::SetFolderSecurity(p) => p.as_str(),
        Change::CreateTask(p) | Change::UpdateTask(p) | Change::AdoptTask(p) | Change::DeleteTask(p)
        | Change::SetEnabled { path: p, .. } | Change::SetTaskSecurity(p) => p.as_str(),
    }
}

/// Whether `a` is applied strictly before `b`.
fn change_before_exec(a: &Change, b: &Change) -> (r: bool)
    ensures
        r == change_before(a@, b@),
{
    let ra = change_rank_exec(a);
    let rb = change_rank_exec(b);
    if ra != rb {
        return ra < rb;
    }
    let da = change_depth_exec(a);
    let db = change_depth_exec(b);
    if da != db {
        return da < db;
    }
    crate::validation::str_less(change_text_exec(a), change_text_exec(b))
}

/// Inserts a planned change in apply order.
fn insert_planned(v: &mut Vec<PlannedChange>, x: PlannedChange)
    ensures
        planned_views(final(v)@) == insert_in_order(planned_views(old(v)@), planned_view(x)),
{
    let ghost views = planned_views(v@);
    let mut i: usize = 0;
    proof {
        assert(views.skip(0) =~= views);
        assert(views.take(0) =~= Seq::<(ChangeView, RollbackSafety)>::empty());
    }
    while i < v.len()
        invariant
            i <= v.len(),
            views == planned_views(v@),
            insert_in_order(views, planned_view(x)) == views.take(i as int) + insert_in_order(views.skip(i as int), planned_view(x)),
        ensures
            i <= v.len(),
            views == planned_views(v@),
            insert_in_order(views, planned_view(x)) == views.take(i as int) + insert_in_order(views.skip(i as int), planned_view(x)),
            i < v.len() ==> change_before(x.change@, v@[i as int].change@),
        decreases v.len() - i,
    {
        if change_before_exec(&x.change, &v[i].change) {
            break;
        }
        proof {
            let rest = views.skip(i as int);
            assert(rest[0] == planned_view(v@[i as int]));
            assert(rest.drop_first() =~= views.skip(i + 1));
            assert(views.take(i + 1) =~= views.take(i as int).push(rest[0]));
            assert(views.take(i as int) + (seq![rest[0]] + insert_in_order(rest.drop_first(), planned_view(x))) =~= views.take(i + 1) + insert_in_order(views.skip(i + 1), planned_view(x)));
        }
        i += 1;
    }
    let ghost before = v@;
    v.insert(i, x);
    proof {
        if i < before.len() {
            let rest = views.skip(i as int);
            assert(rest[0] == planned_view(before[i as int]));
        } else {
            assert(views.skip(i as int) =~= Seq::<(ChangeView, RollbackSafety)>::empty());
        }
        assert(planned_views(v@) =~= views.take(i as int) + insert_in_order(views.skip(i as int), planned_view(x)));
    }
}

/// Sorts planned changes into apply order, stably.
fn sort_planned(changes: Vec<PlannedChange>) -> (r: Vec<PlannedChange>)
    ensures
        planned_views(r@) == in_apply_order(planned_views(changes@)),
{
    let ghost input = planned_views(changes@);
    let mut rest = changes;
    let mut out: Vec<PlannedChange> = Vec::new();
    let mut k: usize = 0;
    let total: usize = rest.len();
    proof {
        assert(input.take(0) =~= Seq::<(ChangeView, RollbackSafety)>::empty());
        assert(input.skip(0) =~= input);
    }
    while rest.len() > 0
        invariant
            k + rest@.len() == total,
            total == input.len(),
            planned_views(rest@) == input.skip(k as int),
            planned_views(out@) == in_apply_order(input.take(k as int)),
        decreases rest.len(),
    {
        let ghost r = rest@;
        proof {
            assert(planned_views(r)[0] == planned_view(r[0]));
        }
        let x = rest.remove(0);
        proof {
            assert forall|j: int| 0 <= j < rest@.len() implies planned_views(rest@)[j] == input.skip(k + 1)[j] by {
                assert(rest@[j] == r[j + 1]);
                assert(planned_views(r)[j + 1] == input.skip(k as int)[j + 1]);
            }
            assert(planned_views(rest@) =~= input.skip(k + 1));
            assert(input.take(k + 1).drop_last() =~= input.take(k as int));
            assert(input.take(k + 1).last() == planned_view(x));
        }
        insert_planned(&mut out, x);
        k += 1;
    }
    proof {
        assert(input.take(k as int) =~= input);
    }
    out
}


/// `seq_less` is transitive.
pub proof fn lemma_seq_less_transitive(a: Seq<char>, b: Seq<char>, c: Seq<char>)
    requires
        seq_less(a, b),
        seq_less(b, c),
    ensures
        seq_less(a, c),
    decreases a.len(),
{
    if a.len() > 0 && b.len() > 0 && c.len() > 0 && a[0] == b[0] && b[0] == c[0] {
        lemma_seq_less_transitive(a.drop_first(), b.drop_first(), c.drop_first());
    }
}

/// `seq_less` orders any two different texts.
pub proof fn lemma_seq_less_total(a: Seq<char>, b: Seq<char>)
    requires
        a != b,
    ensures
        seq_less(a, b) || seq_less(b, a),
    decreases a.len(),
{
    if a.len() > 0 && b.len() > 0 && a[0] == b[0] {
        if a.drop_first() == b.drop_first() {
            assert(a =~= seq![a[0]] + a.drop_first());
            assert(b =~= seq![b[0]] + b.drop_first());
        }
        lemma_seq_less_total(a.drop_first(), b.drop_first());
    } else if a.len() > 0 && b.len() > 0 {
        assert((a[0] as u32) != (b[0] as u32)) by {
            vstd::utf8::char_u32_cast(a[0], a[0] as u32);
            vstd::utf8::char_u32_cast(b[0], b[0] as u32);
        }
    } else if a.len() == 0 && b.len() == 0 {
        assert(a =~= b);
    }
}

/// Whether folder `a` comes strictly before folder `b`: shallower first,
/// then by text.
pub open spec fn folder_before(a: Seq<char>, b: Seq<char>) -> bool {
    component_count(a) < component_count(b) || (component_count(a) == component_count(b)
        && seq_less(a, b))
}

proof fn lemma_folder_order(a: Seq<char>, b: Seq<char>, c: Seq<char>)
    ensures
        !folder_before(a, a),
        folder_before(a, b) && folder_before(b, c) ==> folder_before(a, c),
        a != b ==> folder_before(a, b) || folder_before(b, a),
{
    crate::validation::lemma_seq_less_irreflexive(a);
    if folder_before(a, b) && folder_before(b, c) && component_count(a) == component_count(c) {
        lemma_seq_less_transitive(a, b, c);
    }
    if a != b {
        lemma_seq_less_total(a, b);
    }
}

/// Whether folders are listed in strictly increasing order.
pub open spec fn folders_increasing(s: Seq<Seq<char>>) -> bool {
    forall|i: int, j: int| 0 <= i < j < s.len() ==> folder_before(s[i], s[j])
}

/// The folders from `p` up through its parents, stopping after `namespace`
/// or the root.
pub open spec fn folder_chain(p: Seq<char>, namespace: Seq<char>) -> Set<Seq<char>>
    decreases p.len() + (if p == crate::path::root_text() { 0int } else { 1int }),
{
    if p.len() == 0 || p == namespace || p == crate::path::root_text() {
        set![p]
    } else {
        proof {
            crate::path::lemma_last_index(p, '\\');
        }
        set![p] + folder_chain(crate::path::parent_text(p), namespace)
    }
}

/// The folders a manifest needs: its namespace, and each managed folder and
/// each managed task's folder with their parents up to the namespace.
pub open spec fn required_folder_set(namespace: Seq<char>, paths: Seq<Seq<char>>) -> Set<Seq<char>> {
    set![namespace] + Set::new(|f: Seq<char>| exists|i: int| 0 <= i < paths.len() && #[trigger] folder_chain(paths[i], namespace).contains(f))
}

/// Views of folder paths.
pub open spec fn folder_views(fs: Seq<FolderPath>) -> Seq<Seq<char>> {
    fs.map_values(|f: FolderPath| f@)
}

/// Adds `f` to a strictly increasing folder list, unless present.
fn add_folder(v: &mut Vec<FolderPath>, f: FolderPath)
    requires
        folders_increasing(folder_views(old(v)@)),
    ensures
        folders_increasing(folder_views(final(v)@)),
        folder_views(final(v)@).to_set() == folder_views(old(v)@).to_set().insert(f@),
{
    let ghost views = folder_views(v@);
    let mut i: usize = 0;
    while i < v.len()
        invariant
            i <= v.len(),
            views == folder_views(v@),
            folders_increasing(views),
            forall|k: int| 0 <= k < i ==> folder_before(#[trigger] views[k], f@),
        ensures
            i <= v.len(),
            views == folder_views(v@),
            forall|k: int| 0 <= k < i ==> folder_before(#[trigger] views[k], f@),
            i < v.len() ==> !folder_before(views[i as int], f@),
        decreases v.len() - i,
    {
        let da = folder_depth(&v[i]);
        let db = folder_depth(&f);
        let before = da < db || (da == db && crate::validation::str_less(v[i].as_str(), f.as_str()));
        if !before {
            break;
        }
        i += 1;
    }
    if i < v.len() && v[i].same(&f) {
        proof {
            assert(views[i as int] == f@);
            assert(views.to_set().insert(f@) =~= views.to_set());
        }
        return;
    }
    proof {
        if i < v.len() {
            lemma_folder_order(views[i as int], f@, f@);
            assert(folder_before(f@, views[i as int]));
            assert forall|k: int| i <= k < views.len() implies folder_before(f@, #[trigger] views[k]) by {
                if k > i {
                    lemma_folder_order(f@, views[i as int], views[k]);
                }
            }
        }
    }
    let ghost fv = f@;
    v.insert(i, f);
    proof {
        let nv = folder_views(v@);
        assert(nv =~= views.insert(i as int, fv));
        assert forall|a: int, b: int| 0 <= a < b < nv.len() implies folder_before(nv[a], nv[b]) by {
            if b < i {
            } else if a < i && b == i {
            } else if a < i && b > i {
                assert(nv[b] == views[b - 1]);
            } else if a == i {
                assert(nv[b] == views[b - 1]);
            } else {
                assert(nv[a] == views[a - 1] && nv[b] == views[b - 1]);
            }
        }
        assert(nv.to_set() =~= views.to_set().insert(fv)) by {
            assert forall|x: Seq<char>| nv.to_set().contains(x) <==> views.to_set().insert(fv).contains(x) by {
                if nv.to_set().contains(x) {
                    let k = choose|k: int| 0 <= k < nv.len() && nv[k] == x;
                    if k < i {
                        assert(views[k] == x);
                    } else if k > i {
                        assert(views[k - 1] == x);
                    }
                }
                if views.to_set().contains(x) {
                    let k = choose|k: int| 0 <= k < views.len() && views[k] == x;
                    if k < i {
                        assert(nv[k] == x);
                    } else {
                        assert(nv[k + 1] == x);
                    }
                }
                if x == fv {
                    assert(nv[i as int] == x);
                }
            }
        }
    }
}


/// Adds `path` and its parents up to `namespace`.
fn add_chain(v: &mut Vec<FolderPath>, path: FolderPath, namespace: &FolderPath)
    requires
        folders_increasing(folder_views(old(v)@)),
    ensures
        folders_increasing(folder_views(final(v)@)),
        folder_views(final(v)@).to_set() == folder_views(old(v)@).to_set() + folder_chain(path@, namespace@),
    decreases path@.len() + (if path@ == crate::path::root_text() { 0int } else { 1int }),
{
    let ghost before = folder_views(v@).to_set();
    let ghost p = path@;
    let stop = path.same(namespace) || path.is_root();
    let parent = path.parent();
    add_folder(v, path);
    proof {
        crate::path::lemma_last_index(p, '\\');
    }
    if stop {
        proof {
            assert(folder_views(v@).to_set() =~= before + folder_chain(p, namespace@));
        }
        return;
    }
    match parent {
        Some(q) => {
            let ghost mid = folder_views(v@).to_set();
            proof {
                assert(p.len() > 0);
            }
            add_chain(v, q, namespace);
            proof {
                assert(folder_views(v@).to_set() =~= before + folder_chain(p, namespace@));
            }
        },
        None => {
            proof {
                assert(false);
            }
        },
    }
}

/// Folder paths whose chains a manifest requires: its managed folders, then
/// the folders of its managed tasks.
pub open spec fn chain_sources(m: crate::manifest::TaskManifest) -> Seq<Seq<char>> {
    m.folders@.map_values(|f: crate::manifest::ManagedFolder| f.path@) + m.tasks@.map_values(
        |t: crate::manifest::ManagedTask| crate::path::parent_text(t.path@),
    )
}

/// The folders a manifest needs, shallowest first and then by text.
pub fn required_folders(manifest: &crate::manifest::TaskManifest) -> (r: Vec<FolderPath>)
    ensures
        folders_increasing(folder_views(r@)),
        folder_views(r@).to_set() == required_folder_set(manifest.namespace@, chain_sources(*manifest)),
{
    let ghost ns = manifest.namespace@;
    let ghost paths = chain_sources(*manifest);
    let nf = manifest.folders.len();
    let mut v: Vec<FolderPath> = Vec::new();
    proof {
        assert(folder_views(v@) =~= Seq::<Seq<char>>::empty());
        assert(folder_views(v@).to_set() =~= Set::<Seq<char>>::empty());
    }
    add_folder(&mut v, manifest.namespace.clone());
    let mut i: usize = 0;
    while i < nf
        invariant
            i <= nf,
            nf == manifest.folders.len(),
            ns == manifest.namespace@,
            paths == chain_sources(*manifest),
            paths.len() == manifest.folders.len() + manifest.tasks.len(),
            folders_increasing(folder_views(v@)),
            folder_views(v@).to_set() == set![ns] + Set::new(|f: Seq<char>| exists|k: int| 0 <= k < i && #[trigger] folder_chain(paths[k], ns).contains(f)),
        decreases nf - i,
    {
        let source = manifest.folders[i].path.clone();
        proof {
            assert(source@ == paths[i as int]);
        }
        add_chain(&mut v, source, &manifest.namespace);
        proof {
            assert(folder_views(v@).to_set() =~= set![ns] + Set::new(|f: Seq<char>| exists|k: int| 0 <= k < i + 1 && #[trigger] folder_chain(paths[k], ns).contains(f)));
        }
        i += 1;
    }
    let mut t: usize = 0;
    while t < manifest.tasks.len()
        invariant
            t <= manifest.tasks.len(),
            nf == manifest.folders.len(),
            ns == manifest.namespace@,
            paths == chain_sources(*manifest),
            paths.len() == manifest.folders.len() + manifest.tasks.len(),
            folders_increasing(folder_views(v@)),
            folder_views(v@).to_set() == set![ns] + Set::new(|f: Seq<char>| exists|k: int| 0 <= k < nf + t && #[trigger] folder_chain(paths[k], ns).contains(f)),
        decreases manifest.tasks.len() - t,
    {
        let source = manifest.tasks[t].path.folder();
        proof {
            assert(source@ == paths[nf + t]);
        }
        add_chain(&mut v, source, &manifest.namespace);
        proof {
            assert(folder_views(v@).to_set() =~= set![ns] + Set::new(|f: Seq<char>| exists|k: int| 0 <= k < nf + t + 1 && #[trigger] folder_chain(paths[k], ns).contains(f)));
        }
        t += 1;
    }
    proof {
        assert(folder_views(v@).to_set() =~= required_folder_set(ns, paths));
    }
    v
}


/// State required to build a plan without mutating Task Scheduler.
#[derive(Clone, Debug)]
pub struct CurrentTask {
    /// Path.
    pub path: TaskPath,
    /// Parsed task definition.
    pub definition: TaskDefinition,
    /// Effective enabled state.
    pub enabled: bool,
    /// Whether the Source marker or a preserved legacy URI matches this manifest.
    pub owned: bool,
    /// Whether rollback needs a password.
    pub password_backed: bool,
}

/// Read-only scheduler snapshot used by planning: the tasks below the
/// manifest namespace, and the existing folders with their SDDL when it was
/// requested. A folder listed more than once counts with its last entry.
#[derive(Clone, Debug)]
pub struct CurrentState {
    /// Tasks below the manifest namespace.
    pub tasks: Vec<CurrentTask>,
    /// Existing folders and their SDDL when it was requested.
    pub folders: Vec<(FolderPath, Option<SecurityDescriptor>)>,
}

impl Default for CurrentState {
    fn default() -> (c: Self)
        ensures
            c.tasks@.len() == 0,
            c.folders@.len() == 0,
    {
        CurrentState { tasks: Vec::new(), folders: Vec::new() }
    }
}

/// The rollback guarantee for replacing or deleting an existing task.
pub open spec fn rollback_safety_spec(task: CurrentTask) -> RollbackSafety {
    if task.password_backed {
        RollbackSafety::RequiresCredential
    } else {
        RollbackSafety::Reversible
    }
}

/// The rollback guarantee for replacing or deleting an existing task.
pub fn rollback_safety(task: &CurrentTask) -> (r: RollbackSafety)
    ensures
        r == rollback_safety_spec(*task),
{
    if task.password_backed {
        RollbackSafety::RequiresCredential
    } else {
        RollbackSafety::Reversible
    }
}

/// Index of the last current task at `path`, or -1.
pub open spec fn last_task_index(tasks: Seq<CurrentTask>, path: Seq<char>) -> int
    decreases tasks.len(),
{
    if tasks.len() == 0 {
        -1
    } else if tasks.last().path@ == path {
        tasks.len() - 1
    } else {
        last_task_index(tasks.drop_last(), path)
    }
}

/// The recorded descriptor of an existing folder: `None` when the folder
/// does not exist, `Some(None)` when it exists without a recorded SDDL.
pub open spec fn folder_entry(folders: Seq<(FolderPath, Option<SecurityDescriptor>)>, path: Seq<char>) -> Option<Option<SecurityDescriptor>>
    decreases folders.len(),
{
    if folders.len() == 0 {
        None
    } else if folders.last().0@ == path {
        Some(folders.last().1)
    } else {
        folder_entry(folders.drop_last(), path)
    }
}

/// The Source marker registered for a managed task: the ownership marker
/// alone, or the existing source kept when it already starts with the
/// marker, or prefixed with the marker and a new line.
pub open spec fn owned_source(marker: Seq<char>, source: Option<Seq<char>>) -> Seq<char> {
    match source {
        None => marker,
        Some(s) => if s == marker || (s.len() > marker.len() && s.take(marker.len() + 1int) == marker.push('\n')) {
            s
        } else {
            marker.push('\n') + s
        },
    }
}

/// Whether a descriptor must be written: none is recorded, or the recorded
/// one grants different access.
pub open spec fn security_drifted(actual: Option<SecurityDescriptor>, desired: SecurityDescriptor) -> bool {
    match actual {
        None => true,
        Some(a) => crate::model::access_key(a@) != crate::model::access_key(desired@),
    }
}

/// The task security change needed when the desired descriptor is set and
/// the recorded one drifted from it.
pub open spec fn task_security_change(desired: Option<SecurityDescriptor>, actual: Option<SecurityDescriptor>, p: Seq<char>) -> Seq<(ChangeView, RollbackSafety)> {
    match desired {
        Some(ds) => if security_drifted(actual, ds) {
            seq![(ChangeView::SetTaskSecurity(p), RollbackSafety::Reversible)]
        } else {
            Seq::empty()
        },
        None => Seq::empty(),
    }
}

/// The changes a desired task needs, or `None` when an existing task at its
/// path is not owned by the manifest and adoption is not allowed.
pub open spec fn task_changes_spec(m: TaskManifest, current: CurrentState, options: PlanOptions, d: ManagedTask) -> Option<Seq<(ChangeView, RollbackSafety)>> {
    let p = d.path@;
    let i = last_task_index(current.tasks@, p);
    if i < 0 {
        Some(seq![(ChangeView::CreateTask(p), RollbackSafety::Reversible)])
    } else {
        let e = current.tasks@[i];
        if !e.owned && !options.adopt {
            None
        } else if !e.owned {
            Some(seq![(ChangeView::AdoptTask(p), rollback_safety_spec(e))])
        } else {
            let source = owned_source(
                crate::manifest::ownership_uri_text(m.owner, p),
                crate::text::opt_view(d.definition.registration.source),
            );
            if !crate::model::compare::matches_owned_spec(e.definition, d.definition, source, p) {
                Some(seq![(ChangeView::UpdateTask(p), rollback_safety_spec(e))])
            } else {
                let enabled = if e.enabled != d.definition.settings.enabled {
                    seq![(ChangeView::SetEnabled(p, d.definition.settings.enabled), RollbackSafety::Reversible)]
                } else {
                    Seq::empty()
                };
                Some(enabled + task_security_change(
                    d.definition.registration.security_descriptor,
                    e.definition.registration.security_descriptor,
                    p,
                ))
            }
        }
    }
}

/// The changes of the desired tasks in order, or `None` at the first
/// ownership conflict.
pub open spec fn tasks_changes_spec(m: TaskManifest, current: CurrentState, options: PlanOptions, ds: Seq<ManagedTask>) -> Option<Seq<(ChangeView, RollbackSafety)>>
    decreases ds.len(),
{
    if ds.len() == 0 {
        Some(Seq::empty())
    } else {
        match tasks_changes_spec(m, current, options, ds.drop_last()) {
            None => None,
            Some(prev) => match task_changes_spec(m, current, options, ds.last()) {
                None => None,
                Some(more) => Some(prev + more),
            },
        }
    }
}

/// The folders to create: required folders that do not exist, in order.
pub open spec fn create_changes(required: Seq<Seq<char>>, current: CurrentState) -> Seq<(ChangeView, RollbackSafety)>
    decreases required.len(),
{
    if required.len() == 0 {
        Seq::empty()
    } else {
        let prev = create_changes(required.drop_last(), current);
        if folder_entry(current.folders@, required.last()) is None {
            prev.push((ChangeView::CreateFolder(required.last()), RollbackSafety::Reversible))
        } else {
            prev
        }
    }
}

/// Security changes of desired folders whose descriptor drifted, in order.
pub open spec fn folder_security_changes(folders: Seq<ManagedFolder>, current: CurrentState) -> Seq<(ChangeView, RollbackSafety)>
    decreases folders.len(),
{
    if folders.len() == 0 {
        Seq::empty()
    } else {
        let prev = folder_security_changes(folders.drop_last(), current);
        let f = folders.last();
        match f.security_descriptor {
            Some(d) => if security_drifted(
                match folder_entry(current.folders@, f.path@) {
                    Some(entry) => entry,
                    None => None,
                },
                d,
            ) {
                prev.push((ChangeView::SetFolderSecurity(f.path@), RollbackSafety::Reversible))
            } else {
                prev
            },
            None => prev,
        }
    }
}

/// Deletions of owned current tasks that are not desired, in order.
pub open spec fn prune_changes(tasks: Seq<CurrentTask>, desired: Seq<Seq<char>>) -> Seq<(ChangeView, RollbackSafety)>
    decreases tasks.len(),
{
    if tasks.len() == 0 {
        Seq::empty()
    } else {
        let prev = prune_changes(tasks.drop_last(), desired);
        let t = tasks.last();
        if t.owned && !desired.contains(t.path@) {
            prev.push((ChangeView::DeleteTask(t.path@), rollback_safety_spec(t)))
        } else {
            prev
        }
    }
}

/// The paths of the desired tasks.
pub open spec fn desired_paths(m: TaskManifest) -> Seq<Seq<char>> {
    m.tasks@.map_values(|t: ManagedTask| t.path@)
}


fn find_current_task(tasks: &Vec<CurrentTask>, path: &TaskPath) -> (r: Option<usize>)
    ensures
        match r {
            Some(i) => i as int == last_task_index(tasks@, path@) && i < tasks.len(),
            None => last_task_index(tasks@, path@) < 0,
        },
{
    let mut i: usize = tasks.len();
    proof {
        assert(tasks@.take(i as int) =~= tasks@);
    }
    while i > 0
        invariant
            i <= tasks.len(),
            last_task_index(tasks@, path@) == last_task_index(tasks@.take(i as int), path@),
        decreases i,
    {
        proof {
            assert(tasks@.take(i as int).drop_last() =~= tasks@.take(i - 1));
            assert(tasks@.take(i as int).last() == tasks@[i - 1]);
        }
        if tasks[i - 1].path.same(path) {
            return Some(i - 1);
        }
        i -= 1;
    }
    None
}

fn find_folder(folders: &Vec<(FolderPath, Option<SecurityDescriptor>)>, path: &FolderPath) -> (r: Option<usize>)
    ensures
        match r {
            Some(i) => i < folders.len() && folder_entry(folders@, path@) == Some(folders@[i as int].1),
            None => folder_entry(folders@, path@) is None,
        },
{
    let mut i: usize = folders.len();
    proof {
        assert(folders@.take(i as int) =~= folders@);
    }
    while i > 0
        invariant
            i <= folders.len(),
            folder_entry(folders@, path@) == folder_entry(folders@.take(i as int), path@),
        decreases i,
    {
        proof {
            assert(folders@.take(i as int).drop_last() =~= folders@.take(i - 1));
            assert(folders@.take(i as int).last() == folders@[i - 1]);
        }
        if folders[i - 1].0.same(path) {
            return Some(i - 1);
        }
        i -= 1;
    }
    None
}

/// Whether a folder is listed in an inspected state.
pub(crate) fn folder_exists(folders: &Vec<(FolderPath, Option<SecurityDescriptor>)>, path: &FolderPath) -> (r: bool)
    ensures
        r == (folder_entry(folders@, path@) is Some),
{
    find_folder(folders, path).is_some()
}

pub(crate) fn owned_source_exec(marker: &str, source: &Option<String>) -> (r: String)
    ensures
        r@ == owned_source(marker@, crate::text::opt_view(*source)),
{
    match source {
        None => marker.to_owned(),
        Some(s) => {
            let mut prefix = marker.to_owned();
            crate::text::push_char(&mut prefix, '\n');
            let chars = crate::text::chars_of(s.as_str());
            let pre = crate::text::chars_of(prefix.as_str());
            let mut starts = false;
            if chars.len() >= pre.len() {
                let head = crate::text::slice_subrange(chars.as_slice(), 0, pre.len());
                starts = crate::text::str_eq(crate::text::string_of(head).as_str(), prefix.as_str());
                proof {
                    assert(head@ =~= s@.take(marker@.len() + 1int));
                }
            }
            if crate::text::str_eq(s.as_str(), marker) || starts {
                s.clone()
            } else {
                prefix.append(s.as_str());
                prefix
            }
        },
    }
}

/// Whether a registered task carries an ownership marker: as its URI, as its
/// Source, or as the first line of its Source.
pub open spec fn carries_marker(marker: Seq<char>, uri: Option<Seq<char>>, source: Option<Seq<char>>) -> bool {
    uri == Some(marker) || match source {
        Some(s) => s == marker || (s.len() > marker.len() && s.take(marker.len() + 1int) == marker.push('\n')),
        None => false,
    }
}

fn starts_with_line(text: &str, marker: &str) -> (r: bool)
    ensures
        r == (text@.len() > marker@.len() && text@.take(marker@.len() + 1int) == marker@.push('\n')),
{
    let mut prefix = marker.to_owned();
    crate::text::push_char(&mut prefix, '\n');
    let chars = crate::text::chars_of(text);
    let pre = crate::text::chars_of(prefix.as_str());
    if chars.len() >= pre.len() {
        let head = crate::text::slice_subrange(chars.as_slice(), 0, pre.len());
        proof {
            assert(head@ =~= text@.take(marker@.len() + 1int));
        }
        crate::text::str_eq(crate::text::string_of(head).as_str(), prefix.as_str())
    } else {
        false
    }
}

/// What inspection records of a registered task: whether it carries this
/// manifest's ownership marker for its path, and whether registering it
/// again needs a password.
pub fn inspected_task(manifest: &TaskManifest, path: TaskPath, definition: TaskDefinition, enabled: bool) -> (t: CurrentTask)
    ensures
        t.path == path,
        t.definition == definition,
        t.enabled == enabled,
        t.owned == carries_marker(
            crate::manifest::ownership_uri_text(manifest.owner, path@),
            crate::text::opt_view(definition.registration.uri),
            crate::text::opt_view(definition.registration.source),
        ),
        t.password_backed == is_password_logon(definition.principal.logon_type),
{
    let marker = manifest.ownership_uri(&path);
    let by_uri = match &definition.registration.uri {
        Some(uri) => crate::text::str_eq(uri.as_str(), marker.as_str()),
        None => false,
    };
    let by_source = match &definition.registration.source {
        Some(source) => crate::text::str_eq(source.as_str(), marker.as_str()) || starts_with_line(source.as_str(), marker.as_str()),
        None => false,
    };
    let password = password_backed(definition.principal.logon_type);
    CurrentTask { path, definition, enabled, owned: by_uri || by_source, password_backed: password }
}

/// Whether a recorded descriptor must be replaced by `desired`.
fn security_drifted_exec(actual: &Option<SecurityDescriptor>, desired: &SecurityDescriptor) -> (r: bool)
    ensures
        r == security_drifted(*actual, *desired),
{
    match actual {
        None => true,
        Some(a) => !a.access_equivalent(desired),
    }
}

fn planned(change: Change, rollback: RollbackSafety) -> (p: PlannedChange)
    ensures
        planned_view(p) == (change@, rollback),
{
    PlannedChange { change, rollback }
}

/// The changes one desired task needs.
fn task_changes(manifest: &TaskManifest, current: &CurrentState, options: PlanOptions, d: &ManagedTask) -> (r: Result<Vec<PlannedChange>, Error>)
    ensures
        match r {
            Ok(v) => task_changes_spec(*manifest, *current, options, *d) == Some(planned_views(v@)),
            Err(e) => task_changes_spec(*manifest, *current, options, *d) is None && e@.kind
                == ErrorKind::Conflict && e@.target == Some(d.path@),
        },
{
    let mut out: Vec<PlannedChange> = Vec::new();
    match find_current_task(&current.tasks, &d.path) {
        None => {
            out.push(planned(Change::CreateTask(d.path.clone()), RollbackSafety::Reversible));
            proof {
                assert(planned_views(out@) =~= seq![(ChangeView::CreateTask(d.path@), RollbackSafety::Reversible)]);
            }
        },
        Some(i) => {
            let e = &current.tasks[i];
            if !e.owned && !options.adopt {
                return Err(
                    Error::new(ErrorKind::Conflict, "an existing task is not owned by this manifest")
                        .with_target(d.path.as_str()),
                );
            }
            if !e.owned {
                out.push(planned(Change::AdoptTask(d.path.clone()), rollback_safety(e)));
                proof {
                    assert(planned_views(out@) =~= seq![(ChangeView::AdoptTask(d.path@), rollback_safety_spec(*e))]);
                }
                return Ok(out);
            }
            let marker = manifest.ownership_uri(&d.path);
            let source = owned_source_exec(marker.as_str(), &d.definition.registration.source);
            if !crate::model::compare::matches_owned(&e.definition, &d.definition, source.as_str(), d.path.as_str()) {
                out.push(planned(Change::UpdateTask(d.path.clone()), rollback_safety(e)));
                proof {
                    assert(planned_views(out@) =~= seq![(ChangeView::UpdateTask(d.path@), rollback_safety_spec(*e))]);
                }
                return Ok(out);
            }
            let want = d.definition.settings.enabled;
            if e.enabled != want {
                out.push(planned(Change::SetEnabled { path: d.path.clone(), enabled: want }, RollbackSafety::Reversible));
            }
            let ghost first = planned_views(out@);
            if let Some(ds) = &d.definition.registration.security_descriptor {
                if security_drifted_exec(&e.definition.registration.security_descriptor, ds) {
                    out.push(planned(Change::SetTaskSecurity(d.path.clone()), RollbackSafety::Reversible));
                }
            }
            proof {
                let enabled = if e.enabled != want {
                    seq![(ChangeView::SetEnabled(d.path@, want), RollbackSafety::Reversible)]
                } else {
                    Seq::empty()
                };
                assert(first =~= enabled);
                assert(planned_views(out@) =~= enabled + task_security_change(
                    d.definition.registration.security_descriptor,
                    e.definition.registration.security_descriptor,
                    d.path@,
                ));
            }
        },
    }
    Ok(out)
}


/// Whether a manifest has no error finding.
pub open spec fn manifest_valid(m: TaskManifest) -> bool {
    forall|i: int| 0 <= i < crate::manifest::manifest_findings(m).len() ==> (#[trigger] crate::manifest::manifest_findings(m)[i]).level != crate::validation::DiagnosticLevel::Error
}

/// The unordered changes that bring `current` to the manifest's desired
/// state, given its required folders in increasing order: missing folders,
/// each desired task's changes, drifted folder security, then pruned tasks.
pub open spec fn planned_changes_spec(m: TaskManifest, current: CurrentState, options: PlanOptions, required: Seq<Seq<char>>) -> Option<Seq<(ChangeView, RollbackSafety)>> {
    match tasks_changes_spec(m, current, options, m.tasks@) {
        None => None,
        Some(tasks) => Some(
            create_changes(required, current) + tasks + folder_security_changes(m.folders@, current)
                + if options.prune {
                prune_changes(current.tasks@, desired_paths(m))
            } else {
                Seq::empty()
            },
        ),
    }
}

/// What planning gives for a manifest and a current state: an invalid
/// definition error for an invalid manifest, a conflict for an unowned task
/// in the way, or else every change in apply order, with no stop requests.
pub open spec fn plan_outcome(m: TaskManifest, current: CurrentState, options: PlanOptions, r: Result<Plan, Error>) -> bool {
    let required = required_folder_set(m.namespace@, chain_sources(m));
    if !manifest_valid(m) {
        r matches Err(e) && e@.kind == ErrorKind::InvalidDefinition
    } else {
        match r {
            Err(e) => e@.kind == ErrorKind::Conflict && exists|rs: Seq<Seq<char>>| folders_increasing(rs) && rs.to_set() == required
                && planned_changes_spec(m, current, options, rs) is None,
            Ok(p) => p.irreversible_effects@.len() == 0 && exists|rs: Seq<Seq<char>>| folders_increasing(rs) && rs.to_set() == required
                && (planned_changes_spec(m, current, options, rs) matches Some(cs) && planned_views(p.changes@) == in_apply_order(cs)),
        }
    }
}

/// Builds a deterministic semantic plan from a complete current snapshot.
pub fn plan_state(manifest: &TaskManifest, current: &CurrentState, options: PlanOptions) -> (r: Result<Plan, Error>)
    ensures
        plan_outcome(*manifest, *current, options, r),
{
    let report = manifest.validate();
    proof {
        if !manifest_valid(*manifest) {
            let i = choose|i: int| 0 <= i < crate::manifest::manifest_findings(*manifest).len() && (#[trigger] crate::manifest::manifest_findings(*manifest)[i]).level == crate::validation::DiagnosticLevel::Error;
            assert(crate::validation::diags_view(report.diagnostics@)[i] == crate::validation::diag_view(report.diagnostics@[i]));
        } else {
            assert forall|i: int| 0 <= i < report.diagnostics@.len() implies report.diagnostics@[i].level != crate::validation::DiagnosticLevel::Error by {
                assert(crate::validation::diags_view(report.diagnostics@)[i] == crate::validation::diag_view(report.diagnostics@[i]));
            }
        }
    }
    if !report.is_valid() {
        return Err(
            Error::new(ErrorKind::InvalidDefinition, "desired-state manifest is invalid").with_validation(report),
        );
    }
    let required = required_folders(manifest);
    let ghost rs = folder_views(required@);
    let mut changes: Vec<PlannedChange> = Vec::new();
    let mut i: usize = 0;
    proof {
        assert(rs.take(0) =~= Seq::<Seq<char>>::empty());
    }
    while i < required.len()
        invariant
            i <= required.len(),
            rs == folder_views(required@),
            planned_views(changes@) == create_changes(rs.take(i as int), *current),
        decreases required.len() - i,
    {
        proof {
            assert(rs.take(i + 1).drop_last() =~= rs.take(i as int));
            assert(rs.take(i + 1).last() == required@[i as int]@);
        }
        if find_folder(&current.folders, &required[i]).is_none() {
            let ghost before = changes@;
            changes.push(planned(Change::CreateFolder(required[i].clone()), RollbackSafety::Reversible));
            proof {
                assert(planned_views(changes@) =~= planned_views(before).push(
                    (ChangeView::CreateFolder(required@[i as int]@), RollbackSafety::Reversible),
                ));
            }
        }
        i += 1;
    }
    proof {
        assert(rs.take(i as int) =~= rs);
    }
    let ghost creates = planned_views(changes@);
    let mut t: usize = 0;
    proof {
        assert(manifest.tasks@.take(0) =~= Seq::<ManagedTask>::empty());
        assert(planned_views(changes@) =~= creates + Seq::empty());
    }
    while t < manifest.tasks.len()
        invariant
            t <= manifest.tasks.len(),
            folders_increasing(rs),
            rs.to_set() == required_folder_set(manifest.namespace@, chain_sources(*manifest)),
            manifest_valid(*manifest),
            tasks_changes_spec(*manifest, *current, options, manifest.tasks@.take(t as int)) matches Some(done)
                && planned_views(changes@) == creates + done,
        decreases manifest.tasks.len() - t,
    {
        let ghost prev = planned_views(changes@);
        proof {
            assert(manifest.tasks@.take(t + 1).drop_last() =~= manifest.tasks@.take(t as int));
            assert(manifest.tasks@.take(t + 1).last() == manifest.tasks@[t as int]);
        }
        match task_changes(manifest, current, options, &manifest.tasks[t]) {
            Ok(more) => {
                let ghost mv = planned_views(more@);
                let mut more = more;
                changes.append(&mut more);
                proof {
                    assert(planned_views(changes@) =~= prev + mv);
                }
            },
            Err(e) => {
                proof {
                    assert(tasks_changes_spec(*manifest, *current, options, manifest.tasks@.take(t + 1)) is None);
                    lemma_tasks_changes_none(*manifest, *current, options, manifest.tasks@, t as int + 1);
                    assert(planned_changes_spec(*manifest, *current, options, rs) is None);
                    assert(folders_increasing(rs) && rs.to_set() == required_folder_set(manifest.namespace@, chain_sources(*manifest)));
                }
                return Err(e);
            },
        }
        t += 1;
    }
    proof {
        assert(manifest.tasks@.take(t as int) =~= manifest.tasks@);
    }
    let ghost with_tasks = planned_views(changes@);
    let mut f: usize = 0;
    proof {
        assert(manifest.folders@.take(0) =~= Seq::<ManagedFolder>::empty());
        assert(planned_views(changes@) =~= with_tasks + folder_security_changes(manifest.folders@.take(0), *current));
    }
    while f < manifest.folders.len()
        invariant
            f <= manifest.folders.len(),
            planned_views(changes@) == with_tasks + folder_security_changes(manifest.folders@.take(f as int), *current),
        decreases manifest.folders.len() - f,
    {
        let ghost prev = planned_views(changes@);
        let folder = &manifest.folders[f];
        proof {
            assert(manifest.folders@.take(f + 1).drop_last() =~= manifest.folders@.take(f as int));
            assert(manifest.folders@.take(f + 1).last() == manifest.folders@[f as int]);
        }
        if let Some(desired) = &folder.security_descriptor {
            let drifted = match find_folder(&current.folders, &folder.path) {
                Some(k) => security_drifted_exec(&current.folders[k].1, desired),
                None => true,
            };
            if drifted {
                changes.push(planned(Change::SetFolderSecurity(folder.path.clone()), RollbackSafety::Reversible));
                proof {
                    assert(planned_views(changes@) =~= prev.push(
                        (ChangeView::SetFolderSecurity(folder.path@), RollbackSafety::Reversible),
                    ));
                }
            }
        }
        f += 1;
    }
    proof {
        assert(manifest.folders@.take(f as int) =~= manifest.folders@);
    }
    let ghost with_folders = planned_views(changes@);
    if options.prune {
        let mut k: usize = 0;
        proof {
            assert(current.tasks@.take(0) =~= Seq::<CurrentTask>::empty());
            assert(planned_views(changes@) =~= with_folders + prune_changes(current.tasks@.take(0), desired_paths(*manifest)));
        }
        while k < current.tasks.len()
            invariant
                k <= current.tasks.len(),
                planned_views(changes@) == with_folders + prune_changes(current.tasks@.take(k as int), desired_paths(*manifest)),
            decreases current.tasks.len() - k,
        {
            let ghost prev = planned_views(changes@);
            let task = &current.tasks[k];
            proof {
                assert(current.tasks@.take(k + 1).drop_last() =~= current.tasks@.take(k as int));
                assert(current.tasks@.take(k + 1).last() == current.tasks@[k as int]);
            }
            if task.owned && !desired_contains(manifest, &task.path) {
                changes.push(planned(Change::DeleteTask(task.path.clone()), rollback_safety(task)));
                proof {
                    assert(planned_views(changes@) =~= prev.push(
                        (ChangeView::DeleteTask(task.path@), rollback_safety_spec(*task)),
                    ));
                }
            }
            k += 1;
        }
        proof {
            assert(current.tasks@.take(k as int) =~= current.tasks@);
        }
    } else {
        proof {
            assert(planned_views(changes@) =~= with_folders + Seq::empty());
        }
    }
    let ghost all = planned_views(changes@);
    proof {
        assert(planned_changes_spec(*manifest, *current, options, rs) == Some(all));
    }
    let sorted = sort_planned(changes);
    Ok(Plan { changes: sorted, irreversible_effects: Vec::new() })
}

proof fn lemma_tasks_changes_none(m: TaskManifest, current: CurrentState, options: PlanOptions, ds: Seq<ManagedTask>, n: int)
    requires
        0 < n <= ds.len(),
        tasks_changes_spec(m, current, options, ds.take(n)) is None,
    ensures
        tasks_changes_spec(m, current, options, ds) is None,
    decreases ds.len() - n,
{
    if n < ds.len() {
        assert(ds.take(n + 1).drop_last() =~= ds.take(n));
        lemma_tasks_changes_none(m, current, options, ds, n + 1);
    } else {
        assert(ds.take(n) =~= ds);
    }
}

fn desired_contains(manifest: &TaskManifest, path: &TaskPath) -> (r: bool)
    ensures
        r == desired_paths(*manifest).contains(path@),
{
    let ghost ps = desired_paths(*manifest);
    let mut i: usize = 0;
    while i < manifest.tasks.len()
        invariant
            i <= manifest.tasks.len(),
            ps == desired_paths(*manifest),
            forall|k: int| 0 <= k < i ==> ps[k] != path@,
        decreases manifest.tasks.len() - i,
    {
        proof {
            assert(ps[i as int] == manifest.tasks@[i as int].path@);
        }
        if manifest.tasks[i].path.same(path) {
            return true;
        }
        i += 1;
    }
    false
}

/// Plans against a caller-provided task snapshot. Folders are conservatively
/// treated as missing; plan against a complete state for a live dry run.
pub fn plan(manifest: &TaskManifest, current: Vec<CurrentTask>, prune: bool) -> (r: Result<Plan, Error>)
    ensures
        exists|s: CurrentState| s.tasks@ == current@ && s.folders@.len() == 0 && plan_outcome(
            *manifest,
            s,
            PlanOptions { prune, adopt: false },
            r,
        ),
{
    let ghost tasks = current@;
    let state = CurrentState { tasks: current, folders: Vec::new() };
    let r = plan_state(manifest, &state, PlanOptions { prune, adopt: false });
    proof {
        assert(state.tasks@ == tasks && state.folders@.len() == 0);
    }
    r
}


/// Marking a task as owned twice changes nothing: the marked Source already
/// starts with the marker. The marker always comes first, and existing Source
/// text is kept at the end.
pub proof fn lemma_owned_source_idempotent(marker: Seq<char>, source: Option<Seq<char>>)
    ensures
        owned_source(marker, Some(owned_source(marker, source))) == owned_source(marker, source),
        owned_source(marker, source).len() >= marker.len(),
        owned_source(marker, source).take(marker.len() as int) == marker,
        source matches Some(s) ==> owned_source(marker, source).len() >= s.len()
            && owned_source(marker, source).skip(owned_source(marker, source).len() - s.len()) == s,
{
    let r = owned_source(marker, source);
    match source {
        None => {
            assert(r.take(marker.len() as int) =~= marker);
        },
        Some(s) => {
            if s == marker || (s.len() > marker.len() && s.take(marker.len() + 1int) == marker.push('\n')) {
                assert(r == s);
                assert(r.skip(0) =~= s);
                if s == marker {
                    assert(r.take(marker.len() as int) =~= marker);
                } else {
                    assert(s.take(marker.len() as int) =~= marker.push('\n').take(marker.len() as int));
                    assert(marker.push('\n').take(marker.len() as int) =~= marker);
                }
            } else {
                let p = marker.push('\n');
                assert(r == p + s);
                assert(r.len() > marker.len());
                assert(r.take(marker.len() + 1int) =~= p);
                assert(r.take(marker.len() as int) =~= marker);
                assert(r.skip(r.len() - s.len()) =~= s);
            }
        },
    }
}

/// `change_before` is a strict order on changes by their apply keys: never
/// reflexive, and `a` before `b`, with `b` not after `c`, puts `a` before `c`.
proof fn lemma_change_order(a: ChangeView, b: ChangeView, c: ChangeView)
    ensures
        !change_before(a, a),
        change_before(a, b) ==> !change_before(b, a),
        change_before(a, b) && !change_before(c, b) ==> change_before(a, c),
        !change_before(a, b) && !change_before(b, c) ==> !change_before(a, c),
{
    crate::validation::lemma_seq_less_irreflexive(change_text(a));
    if change_before(a, b) && change_before(b, a) {
        if change_rank(a) == change_rank(b) && change_depth(a) == change_depth(b) {
            lemma_seq_less_transitive(change_text(a), change_text(b), change_text(a));
        }
    }
    let ta = change_text(a);
    let tb = change_text(b);
    let tc = change_text(c);
    if ta != tc {
        lemma_seq_less_total(ta, tc);
    }
    if tb != tc {
        lemma_seq_less_total(tb, tc);
    }
    if ta != tb {
        lemma_seq_less_total(ta, tb);
    }
    if seq_less(ta, tb) && seq_less(tb, tc) {
        lemma_seq_less_transitive(ta, tb, tc);
    }
    if seq_less(tc, tb) && seq_less(tb, ta) {
        lemma_seq_less_transitive(tc, tb, ta);
    }
    if seq_less(ta, tc) && seq_less(tc, tb) {
        lemma_seq_less_transitive(ta, tc, tb);
    }
    if seq_less(tc, ta) && seq_less(ta, tb) {
        lemma_seq_less_transitive(tc, ta, tb);
    }
    if seq_less(tb, tc) && seq_less(tc, ta) {
        lemma_seq_less_transitive(tb, tc, ta);
    }
    if seq_less(tb, ta) && seq_less(ta, tc) {
        lemma_seq_less_transitive(tb, ta, tc);
    }
    crate::validation::lemma_seq_less_irreflexive(tb);
    crate::validation::lemma_seq_less_irreflexive(tc);
}

/// Whether no change is listed after one that it must be applied before.
pub open spec fn in_order(s: Seq<(ChangeView, RollbackSafety)>) -> bool {
    forall|i: int, j: int| 0 <= i < j < s.len() ==> !change_before(#[trigger] s[j].0, #[trigger] s[i].0)
}

proof fn lemma_insert_in_order(s: Seq<(ChangeView, RollbackSafety)>, x: (ChangeView, RollbackSafety))
    requires
        in_order(s),
    ensures
        in_order(insert_in_order(s, x)),
        insert_in_order(s, x).to_multiset() == s.to_multiset().insert(x),
    decreases s.len(),
{
    broadcast use vstd::seq_lib::group_to_multiset_ensures, vstd::multiset::group_multiset_axioms;

    let r = insert_in_order(s, x);
    if s.len() == 0 {
        assert(r =~= seq![x]);
        assert(s.to_multiset() =~= vstd::multiset::Multiset::empty());
        assert(seq![x].to_multiset() =~= vstd::multiset::Multiset::empty().insert(x)) by {
            assert(seq![x] =~= Seq::<(ChangeView, RollbackSafety)>::empty().push(x));
            vstd::seq_lib::lemma_multiset_commutative(Seq::<(ChangeView, RollbackSafety)>::empty(), seq![x]);
        }
    } else if change_before(x.0, s[0].0) {
        assert(r =~= seq![x] + s);
        assert forall|i: int, j: int| 0 <= i < j < r.len() implies !change_before(#[trigger] r[j].0, #[trigger] r[i].0) by {
            if i == 0 {
                lemma_change_order(x.0, s[0].0, r[j].0);
                if j > 1 {
                    assert(!change_before(s[j - 1].0, s[0].0));
                }
                lemma_change_order(x.0, r[j].0, r[j].0);
                if change_before(r[j].0, x.0) {
                    lemma_change_order(r[j].0, x.0, s[0].0);
                    if j > 1 {
                        lemma_change_order(r[j].0, s[0].0, r[j].0);
                    }
                }
            } else {
                assert(r[i] == s[i - 1] && r[j] == s[j - 1]);
            }
        }
        vstd::seq_lib::lemma_multiset_commutative(seq![x], s);
        assert(seq![x].to_multiset() =~= vstd::multiset::Multiset::empty().insert(x)) by {
            assert(seq![x] =~= Seq::<(ChangeView, RollbackSafety)>::empty().push(x));
        }
        assert(r.to_multiset() =~= s.to_multiset().insert(x));
    } else {
        let rest = s.drop_first();
        assert(in_order(rest)) by {
            assert forall|i: int, j: int| 0 <= i < j < rest.len() implies !change_before(#[trigger] rest[j].0, #[trigger] rest[i].0) by {
                assert(rest[i] == s[i + 1] && rest[j] == s[j + 1]);
            }
        }
        lemma_insert_in_order(rest, x);
        let tail = insert_in_order(rest, x);
        assert(r =~= seq![s[0]] + tail);
        assert forall|k: int| 0 <= k < tail.len() implies !change_before(#[trigger] tail[k].0, s[0].0) by {
            assert(tail.to_multiset().count(tail[k]) > 0) by {
                    assert(tail.contains(tail[k]));
            }
            if tail[k] == x {
            } else {
                assert(rest.to_multiset().count(tail[k]) > 0);
                    assert(rest.contains(tail[k]));
                let m = choose|m: int| 0 <= m < rest.len() && rest[m] == tail[k];
                assert(rest[m] == s[m + 1]);
            }
        }
        assert forall|i: int, j: int| 0 <= i < j < r.len() implies !change_before(#[trigger] r[j].0, #[trigger] r[i].0) by {
            if i == 0 {
                assert(r[j] == tail[j - 1]);
            } else {
                assert(r[i] == tail[i - 1] && r[j] == tail[j - 1]);
            }
        }
        vstd::seq_lib::lemma_multiset_commutative(seq![s[0]], tail);
        vstd::seq_lib::lemma_multiset_commutative(seq![s[0]], rest);
        assert(s =~= seq![s[0]] + rest);
        assert(r.to_multiset() =~= s.to_multiset().insert(x));
    }
}

/// Changes put in apply order are the same changes, in order.
pub proof fn lemma_apply_order(s: Seq<(ChangeView, RollbackSafety)>)
    ensures
        in_order(in_apply_order(s)),
        in_apply_order(s).to_multiset() == s.to_multiset(),
    decreases s.len(),
{
    broadcast use vstd::seq_lib::group_to_multiset_ensures;
    if s.len() > 0 {
        lemma_apply_order(s.drop_last());
        lemma_insert_in_order(in_apply_order(s.drop_last()), s.last());
        assert(s =~= s.drop_last().push(s.last()));
    }
}


/// A successful plan lists its changes in apply order: no change comes after
/// one that has to be applied after it.
pub proof fn lemma_plan_in_apply_order(m: TaskManifest, current: CurrentState, options: PlanOptions, p: Plan)
    requires
        plan_outcome(m, current, options, Ok(p)),
    ensures
        in_order(planned_views(p.changes@)),
{
    let required = required_folder_set(m.namespace@, chain_sources(m));
    let rs = choose|rs: Seq<Seq<char>>| folders_increasing(rs) && rs.to_set() == required
        && (planned_changes_spec(m, current, options, rs) matches Some(cs) && planned_views(p.changes@) == in_apply_order(cs));
    let cs = planned_changes_spec(m, current, options, rs)->Some_0;
    lemma_apply_order(cs);
}

/// Whether no listed change deletes a task.
pub open spec fn deletes_nothing(s: Seq<(ChangeView, RollbackSafety)>) -> bool {
    forall|i: int| 0 <= i < s.len() ==> !((#[trigger] s[i]).0 is DeleteTask)
}

/// Whether every listed change deletes an owned task of `tasks` whose path
/// `desired` does not hold.
pub open spec fn deletes_owned_undesired(s: Seq<(ChangeView, RollbackSafety)>, tasks: Seq<CurrentTask>, desired: Seq<Seq<char>>) -> bool {
    forall|i: int| 0 <= i < s.len() ==> exists|j: int| 0 <= j < tasks.len() && tasks[j].owned
        && !desired.contains(tasks[j].path@) && (#[trigger] s[i]).0 == ChangeView::DeleteTask(tasks[j].path@)
}

proof fn lemma_create_changes_delete_nothing(required: Seq<Seq<char>>, current: CurrentState)
    ensures
        deletes_nothing(create_changes(required, current)),
    decreases required.len(),
{
    if required.len() > 0 {
        lemma_create_changes_delete_nothing(required.drop_last(), current);
    }
}

proof fn lemma_folder_security_delete_nothing(folders: Seq<ManagedFolder>, current: CurrentState)
    ensures
        deletes_nothing(folder_security_changes(folders, current)),
    decreases folders.len(),
{
    if folders.len() > 0 {
        lemma_folder_security_delete_nothing(folders.drop_last(), current);
    }
}

proof fn lemma_tasks_changes_delete_nothing(m: TaskManifest, current: CurrentState, options: PlanOptions, ds: Seq<ManagedTask>)
    ensures
        tasks_changes_spec(m, current, options, ds) matches Some(s) ==> deletes_nothing(s),
    decreases ds.len(),
{
    if ds.len() > 0 {
        lemma_tasks_changes_delete_nothing(m, current, options, ds.drop_last());
        match tasks_changes_spec(m, current, options, ds.drop_last()) {
            None => {},
            Some(prev) => match task_changes_spec(m, current, options, ds.last()) {
                None => {},
                Some(more) => {
                    let d = ds.last();
                    let ts = task_security_change(
                        d.definition.registration.security_descriptor,
                        current.tasks@[last_task_index(current.tasks@, d.path@)].definition.registration.security_descriptor,
                        d.path@,
                    );
                    assert(deletes_nothing(ts));
                    assert(deletes_nothing(more));
                    assert forall|i: int| 0 <= i < (prev + more).len() implies !((#[trigger] (prev + more)[i]).0 is DeleteTask) by {
                        if i >= prev.len() {
                            assert((prev + more)[i] == more[i - prev.len()]);
                        }
                    }
                },
            },
        }
    }
}

proof fn lemma_prune_changes_owned(tasks: Seq<CurrentTask>, desired: Seq<Seq<char>>)
    ensures
        deletes_owned_undesired(prune_changes(tasks, desired), tasks, desired),
    decreases tasks.len(),
{
    if tasks.len() > 0 {
        let prev_tasks = tasks.drop_last();
        lemma_prune_changes_owned(prev_tasks, desired);
        let prev = prune_changes(prev_tasks, desired);
        let s = prune_changes(tasks, desired);
        assert forall|i: int| 0 <= i < s.len() implies exists|j: int| 0 <= j < tasks.len() && tasks[j].owned
            && !desired.contains(tasks[j].path@) && (#[trigger] s[i]).0 == ChangeView::DeleteTask(tasks[j].path@) by {
            if i < prev.len() {
                assert(s[i] == prev[i]);
                let j = choose|j: int| 0 <= j < prev_tasks.len() && prev_tasks[j].owned
                    && !desired.contains(prev_tasks[j].path@) && prev[i].0 == ChangeView::DeleteTask(prev_tasks[j].path@);
                assert(tasks[j] == prev_tasks[j]);
            } else {
                assert(tasks[tasks.len() - 1] == tasks.last());
            }
        }
    }
}

/// Planning deletes a task only when pruning was asked for, and only a
/// current task that carries the manifest's ownership marker and that the
/// manifest no longer describes.
pub proof fn lemma_plan_deletes_only_owned_undesired(
    m: TaskManifest,
    current: CurrentState,
    options: PlanOptions,
    p: Plan,
    k: int,
    path: Seq<char>,
)
    requires
        plan_outcome(m, current, options, Ok(p)),
        0 <= k < p.changes@.len(),
        p.changes@[k].change@ == ChangeView::DeleteTask(path),
    ensures
        options.prune,
        !desired_paths(m).contains(path),
        exists|j: int| 0 <= j < current.tasks@.len() && current.tasks@[j].owned && current.tasks@[j].path@ == path,
{
    broadcast use vstd::seq_lib::group_to_multiset_ensures;

    let required = required_folder_set(m.namespace@, chain_sources(m));
    let rs = choose|rs: Seq<Seq<char>>| folders_increasing(rs) && rs.to_set() == required
        && (planned_changes_spec(m, current, options, rs) matches Some(cs) && planned_views(p.changes@) == in_apply_order(cs));
    let cs = planned_changes_spec(m, current, options, rs)->Some_0;
    lemma_apply_order(cs);
    let views = planned_views(p.changes@);
    let x = views[k];
    assert(x.0 == ChangeView::DeleteTask(path));
    assert(views.contains(x));
    assert(cs.to_multiset().count(x) > 0);
    assert(cs.contains(x));
    let n = choose|n: int| 0 <= n < cs.len() && cs[n] == x;
    let ts = tasks_changes_spec(m, current, options, m.tasks@)->Some_0;
    let a = create_changes(rs, current);
    let b = folder_security_changes(m.folders@, current);
    let pr = if options.prune { prune_changes(current.tasks@, desired_paths(m)) } else { Seq::empty() };
    assert(cs == a + ts + b + pr);
    lemma_create_changes_delete_nothing(rs, current);
    lemma_tasks_changes_delete_nothing(m, current, options, m.tasks@);
    lemma_folder_security_delete_nothing(m.folders@, current);
    lemma_prune_changes_owned(current.tasks@, desired_paths(m));
    let ab = a + ts + b;
    if n < a.len() {
        assert(cs[n] == a[n]);
    } else if n < a.len() + ts.len() {
        assert(cs[n] == ts[n - a.len()]);
    } else if n < ab.len() {
        assert(cs[n] == b[n - a.len() - ts.len()]);
    } else {
        assert(cs[n] == pr[n - ab.len()]);
        assert(options.prune);
        let j = choose|j: int| 0 <= j < current.tasks@.len() && current.tasks@[j].owned
            && !desired_paths(m).contains(current.tasks@[j].path@) && pr[n - ab.len()].0 == ChangeView::DeleteTask(current.tasks@[j].path@);
        assert(current.tasks@[j].path@ == path);
    }
}


proof fn lemma_tasks_changes_conflict(m: TaskManifest, current: CurrentState, options: PlanOptions, ds: Seq<ManagedTask>, k: int)
    requires
        0 <= k < ds.len(),
        task_changes_spec(m, current, options, ds[k]) is None,
    ensures
        tasks_changes_spec(m, current, options, ds) is None,
    decreases ds.len(),
{
    if k < ds.len() - 1 {
        assert(ds.drop_last()[k] == ds[k]);
        lemma_tasks_changes_conflict(m, current, options, ds.drop_last(), k);
    }
}

/// A desired task whose path holds a current task without the manifest's
/// ownership marker makes planning of a valid manifest fail with a conflict,
/// unless adoption was asked for.
pub proof fn lemma_unowned_collision_is_conflict(
    m: TaskManifest,
    current: CurrentState,
    options: PlanOptions,
    r: Result<Plan, Error>,
    k: int,
)
    requires
        manifest_valid(m),
        !options.adopt,
        0 <= k < m.tasks@.len(),
        last_task_index(current.tasks@, m.tasks@[k].path@) >= 0,
        !current.tasks@[last_task_index(current.tasks@, m.tasks@[k].path@)].owned,
        plan_outcome(m, current, options, r),
    ensures
        r matches Err(e) && e@.kind == ErrorKind::Conflict,
{
    lemma_tasks_changes_conflict(m, current, options, m.tasks@, k);
}


/// A task registered with the Source that apply writes carries the
/// manifest's ownership marker, whatever its URI and earlier Source: what
/// apply registers, inspection recognizes as owned.
pub proof fn lemma_registered_source_is_owned(marker: Seq<char>, uri: Option<Seq<char>>, source: Option<Seq<char>>)
    ensures
        carries_marker(marker, uri, Some(owned_source(marker, source))),
{
    match source {
        None => {},
        Some(s) => {
            if !(s == marker || (s.len() > marker.len() && s.take(marker.len() + 1int) == marker.push('\n'))) {
                let r = marker.push('\n') + s;
                assert(r.take(marker.len() + 1int) =~= marker.push('\n'));
            }
        },
    }
}

} // verus!
