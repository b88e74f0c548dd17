//! What preparing, performing and compensating each planned change asks of
//! the scheduler: the snapshots to capture before the first mutation, the
//! mutation itself, and the restoration that undoes it.
use vstd::prelude::*;

use crate::client::SecurityInformation;
use crate::error::{Error, ErrorKind, ErrorView};
use crate::manifest::{ManagedTask, TaskManifest};
use crate::model::principal::LogonType;
use crate::model::{RegistrationInfo, SecurityDescriptor, TaskDefinition};
use crate::path::{FolderPath, TaskPath};
use crate::reconcile::engine::fresh_error;
use crate::reconcile::recovery::{
    change_information, information, managed_entry, managed_folder, managed_folder_entry, managed_task,
};
use crate::reconcile::{
    change_task, is_password_logon, owned_source, owned_source_exec, password_backed,
    sddl_information, security_information_for_sddl, ApplyOptions, Change, ChangeView, Plan, PlannedChange,
};
use crate::text::{clone_opt, opt_view};

verus! {

/// One snapshot or credential to capture before the first mutation.
pub enum SnapshotRequest {
    /// Resolve the password that registers this desired task, with the
    /// manifest's credential reference.
    DesiredPassword(TaskPath, Option<String>),
    /// Back up an existing task: its XML, logon type and enabled state, its
    /// descriptor with these sections, and the password that registers it
    /// again when its logon type needs one, with the manifest's reference.
    TaskBackup(TaskPath, Option<String>, SecurityInformation),
    /// Record a task's enabled state.
    EnabledBackup(TaskPath),
    /// Record a task's descriptor with these sections.
    TaskSecurity(TaskPath, SecurityInformation),
    /// Record a folder's descriptor with these sections.
    FolderSecurity(FolderPath, SecurityInformation),
    /// Preparation fails here with this error.
    Invalid(Error),
}

/// A snapshot request with its texts and sections taken by their views.
pub enum SnapshotRequestView {
    /// Task path and credential reference.
    DesiredPassword(Seq<char>, Option<Seq<char>>),
    /// Task path, credential reference and sections.
    TaskBackup(Seq<char>, Option<Seq<char>>, u32),
    /// Task path.
    EnabledBackup(Seq<char>),
    /// Task path and sections.
    TaskSecurity(Seq<char>, u32),
    /// Folder path and sections.
    FolderSecurity(Seq<char>, u32),
    /// The error.
    Invalid(ErrorView),
}

impl View for SnapshotRequest {
    type V = SnapshotRequestView;

    open spec fn view(&self) -> SnapshotRequestView {
        match self {
            SnapshotRequest::DesiredPassword(p, r) => SnapshotRequestView::DesiredPassword(p@, opt_view(*r)),
            SnapshotRequest::TaskBackup(p, r, i) => SnapshotRequestView::TaskBackup(p@, opt_view(*r), i.value()),
            SnapshotRequest::EnabledBackup(p) => SnapshotRequestView::EnabledBackup(p@),
            SnapshotRequest::TaskSecurity(p, i) => SnapshotRequestView::TaskSecurity(p@, i.value()),
            SnapshotRequest::FolderSecurity(p, i) => SnapshotRequestView::FolderSecurity(p@, i.value()),
            SnapshotRequest::Invalid(e) => SnapshotRequestView::Invalid(e@),
        }
    }
}

/// The views of snapshot requests.
pub open spec fn request_views(s: Seq<SnapshotRequest>) -> Seq<SnapshotRequestView> {
    s.map_values(|r: SnapshotRequest| r@)
}

/// The error for a planned task that the manifest does not describe.
pub open spec fn missing_task_error(p: Seq<char>) -> ErrorView {
    ErrorView { target: Some(p), ..fresh_error(ErrorKind::InvalidDefinition, "planned task is absent from the manifest"@) }
}

/// The error for a planned task security change without a desired descriptor.
pub open spec fn missing_task_descriptor(p: Seq<char>) -> ErrorView {
    ErrorView { target: Some(p), ..fresh_error(ErrorKind::InvalidDefinition, "planned task security has no desired descriptor"@) }
}

/// The error for a planned folder security change without a desired descriptor.
pub open spec fn missing_folder_descriptor(p: Seq<char>) -> ErrorView {
    ErrorView { target: Some(p), ..fresh_error(ErrorKind::InvalidDefinition, "planned folder security has no desired descriptor"@) }
}

/// Whether a change before `j` already backs up the task at `p`.
pub open spec fn backed_up_before(cs: Seq<ChangeView>, j: int, p: Seq<char>) -> bool {
    exists|t: int| 0 <= t < j && (#[trigger] cs[t] == ChangeView::UpdateTask(p) || cs[t] == ChangeView::AdoptTask(p)
        || cs[t] == ChangeView::DeleteTask(p))
}

/// Whether a change before `j` already records the enabled state of `p`.
pub open spec fn enabled_recorded_before(cs: Seq<ChangeView>, j: int, p: Seq<char>) -> bool {
    exists|t: int| 0 <= t < j && (#[trigger] cs[t]) is SetEnabled && change_task(cs[t]) == Some(p)
}

/// Whether the plan creates the folder `p`.
pub open spec fn created_in_plan(cs: Seq<ChangeView>, p: Seq<char>) -> bool {
    exists|t: int| 0 <= t < cs.len() && #[trigger] cs[t] == ChangeView::CreateFolder(p)
}

/// The manifest's registration credential reference for the task at `p`.
pub open spec fn registration_reference(m: TaskManifest, p: Seq<char>) -> Option<Seq<char>> {
    match managed_entry(m.tasks@, p) {
        Some(t) => opt_view(t.credentials.registration),
        None => None,
    }
}

/// The backup of the task at `p` that change `j` needs, unless an earlier
/// change already asked for it.
pub open spec fn backup_request(m: TaskManifest, cs: Seq<ChangeView>, j: int, p: Seq<char>) -> Seq<SnapshotRequestView> {
    if backed_up_before(cs, j, p) {
        Seq::empty()
    } else {
        seq![SnapshotRequestView::TaskBackup(p, registration_reference(m, p), change_information(m, cs[j]))]
    }
}

/// What preparing one change asks for, or the error that stops preparation.
pub enum PrepareStep {
    /// Preparation fails.
    Stop(ErrorView),
    /// These requests, then the next change.
    Continue(Seq<SnapshotRequestView>),
}

/// What preparing change `j` of the plan asks for. A registration needs the
/// desired password when the desired logon type stores one; replacing,
/// adopting or deleting a task backs it up; an enabled-state change records
/// the state; security changes record the descriptor sections they replace,
/// except on a folder that the plan creates.
pub open spec fn prepare_step(m: TaskManifest, cs: Seq<ChangeView>, j: int) -> PrepareStep {
    match cs[j] {
        ChangeView::CreateTask(p) => registration_step(m, cs, j, p, false),
        ChangeView::UpdateTask(p) => registration_step(m, cs, j, p, true),
        ChangeView::AdoptTask(p) => registration_step(m, cs, j, p, true),
        ChangeView::DeleteTask(p) => PrepareStep::Continue(backup_request(m, cs, j, p)),
        ChangeView::SetEnabled(p, _) => PrepareStep::Continue(
            if enabled_recorded_before(cs, j, p) {
                Seq::empty()
            } else {
                seq![SnapshotRequestView::EnabledBackup(p)]
            },
        ),
        ChangeView::SetTaskSecurity(p) => match managed_entry(m.tasks@, p) {
            None => PrepareStep::Stop(missing_task_error(p)),
            Some(t) => match t.definition.registration.security_descriptor {
                Some(d) => PrepareStep::Continue(seq![SnapshotRequestView::TaskSecurity(p, sddl_information(d@))]),
                None => PrepareStep::Stop(missing_task_descriptor(p)),
            },
        },
        ChangeView::SetFolderSecurity(p) => if created_in_plan(cs, p) {
            PrepareStep::Continue(Seq::empty())
        } else {
            match managed_folder_entry(m.folders@, p) {
                Some(f) => match f.security_descriptor {
                    Some(d) => PrepareStep::Continue(seq![SnapshotRequestView::FolderSecurity(p, sddl_information(d@))]),
                    None => PrepareStep::Stop(missing_folder_descriptor(p)),
                },
                None => PrepareStep::Stop(missing_folder_descriptor(p)),
            }
        },
        ChangeView::CreateFolder(_) => PrepareStep::Continue(Seq::empty()),
    }
}

/// Preparing a registration of the task at `p`: its desired password when
/// needed, and its backup when it replaces an existing task.
pub open spec fn registration_step(m: TaskManifest, cs: Seq<ChangeView>, j: int, p: Seq<char>, replaces: bool) -> PrepareStep {
    match managed_entry(m.tasks@, p) {
        None => PrepareStep::Stop(missing_task_error(p)),
        Some(t) => PrepareStep::Continue(
            (if is_password_logon(t.definition.principal.logon_type) {
                seq![SnapshotRequestView::DesiredPassword(p, opt_view(t.credentials.registration))]
            } else {
                Seq::empty()
            }) + if replaces {
                backup_request(m, cs, j, p)
            } else {
                Seq::empty()
            },
        ),
    }
}

/// The requests of the changes from `j` on, ending with the error of the
/// first change that cannot be prepared.
pub open spec fn requests_from(m: TaskManifest, cs: Seq<ChangeView>, j: int) -> Seq<SnapshotRequestView>
    decreases cs.len() - j,
{
    if j < 0 || j >= cs.len() {
        Seq::empty()
    } else {
        match prepare_step(m, cs, j) {
            PrepareStep::Stop(e) => seq![SnapshotRequestView::Invalid(e)],
            PrepareStep::Continue(rs) => rs + requests_from(m, cs, j + 1),
        }
    }
}

/// The changes of a plan.
pub open spec fn plan_changes(ps: Seq<PlannedChange>) -> Seq<ChangeView> {
    ps.map_values(|p: PlannedChange| p.change@)
}

fn error_with_target(kind: ErrorKind, message: &str, target: &str) -> (e: Error)
    ensures
        e@ == (ErrorView { target: Some(target@), ..fresh_error(kind, message@) }),
{
    let e = Error::new(kind, message).with_target(target);
    proof {
        assert(e@.diagnostics =~= Seq::empty());
        assert(e@.context =~= Seq::empty());
    }
    e
}

fn backed_up_before_exec(changes: &Vec<PlannedChange>, j: usize, path: &TaskPath) -> (r: bool)
    requires
        j <= changes@.len(),
    ensures
        r == backed_up_before(plan_changes(changes@), j as int, path@),
{
    let ghost cs = plan_changes(changes@);
    let mut t: usize = 0;
    while t < j
        invariant
            t <= j <= changes@.len(),
            cs == plan_changes(changes@),
            forall|u: int| 0 <= u < t ==> !(#[trigger] cs[u] == ChangeView::UpdateTask(path@) || cs[u] == ChangeView::AdoptTask(path@)
                || cs[u] == ChangeView::DeleteTask(path@)),
        decreases j - t,
    {
        let hit = match &changes[t].change {
            Change::UpdateTask(p) | Change::AdoptTask(p) | Change::DeleteTask(p) => p.same(path),
            _ => false,
        };
        if hit {
            proof {
                assert(cs[t as int] == changes@[t as int].change@);
            }
            return true;
        }
        proof {
            assert(cs[t as int] == changes@[t as int].change@);
        }
        t += 1;
    }
    false
}

fn enabled_recorded_before_exec(changes: &Vec<PlannedChange>, j: usize, path: &TaskPath) -> (r: bool)
    requires
        j <= changes@.len(),
    ensures
        r == enabled_recorded_before(plan_changes(changes@), j as int, path@),
{
    let ghost cs = plan_changes(changes@);
    let mut t: usize = 0;
    while t < j
        invariant
            t <= j <= changes@.len(),
            cs == plan_changes(changes@),
            forall|u: int| 0 <= u < t ==> !((#[trigger] cs[u]) is SetEnabled && change_task(cs[u]) == Some(path@)),
        decreases j - t,
    {
        proof {
            assert(cs[t as int] == changes@[t as int].change@);
        }
        let hit = match &changes[t].change {
            Change::SetEnabled { path: p, .. } => p.same(path),
            _ => false,
        };
        if hit {
            return true;
        }
        t += 1;
    }
    false
}

fn created_in_plan_exec(changes: &Vec<PlannedChange>, path: &FolderPath) -> (r: bool)
    ensures
        r == created_in_plan(plan_changes(changes@), path@),
{
    let ghost cs = plan_changes(changes@);
    let mut t: usize = 0;
    while t < changes.len()
        invariant
            t <= changes@.len(),
            cs == plan_changes(changes@),
            forall|u: int| 0 <= u < t ==> !(#[trigger] cs[u] == ChangeView::CreateFolder(path@)),
        decreases changes@.len() - t,
    {
        proof {
            assert(cs[t as int] == changes@[t as int].change@);
        }
        let hit = match &changes[t].change {
            Change::CreateFolder(p) => p.same(path),
            _ => false,
        };
        if hit {
            return true;
        }
        t += 1;
    }
    false
}

fn reference_of(manifest: &TaskManifest, path: &TaskPath) -> (r: Option<String>)
    ensures
        opt_view(r) == registration_reference(*manifest, path@),
{
    match managed_task(manifest, path) {
        Ok(task) => clone_opt(&task.credentials.registration),
        Err(_) => None,
    }
}

fn push_backup(out: &mut Vec<SnapshotRequest>, manifest: &TaskManifest, changes: &Vec<PlannedChange>, j: usize, path: &TaskPath)
    requires
        j < changes@.len(),
    ensures
        request_views(final(out)@) == request_views(old(out)@) + backup_request(*manifest, plan_changes(changes@), j as int, path@),
{
    let ghost before = out@;
    if !backed_up_before_exec(changes, j, path) {
        let info = information(manifest, &changes[j].change);
        proof {
            assert(plan_changes(changes@)[j as int] == changes@[j as int].change@);
        }
        out.push(SnapshotRequest::TaskBackup(path.clone(), reference_of(manifest, path), info));
    }
    proof {
        assert(request_views(out@) =~= request_views(before) + backup_request(*manifest, plan_changes(changes@), j as int, path@));
    }
}

/// The snapshots and credentials that preparing a plan captures, in order:
/// for each planned change, what [`prepare_step`] asks for, ending with the
/// error of the first change that cannot be prepared.
pub fn snapshot_requests(manifest: &TaskManifest, plan: &Plan) -> (r: Vec<SnapshotRequest>)
    ensures
        request_views(r@) == requests_from(*manifest, plan_changes(plan.changes@), 0),
{
    let changes = &plan.changes;
    let ghost cs = plan_changes(changes@);
    let mut out: Vec<SnapshotRequest> = Vec::new();
    let mut j: usize = 0;
    while j < changes.len()
        invariant
            j <= changes@.len(),
            cs == plan_changes(changes@),
            cs == plan_changes(plan.changes@),
            request_views(out@) + requests_from(*manifest, cs, j as int) == requests_from(*manifest, cs, 0),
        decreases changes@.len() - j,
    {
        let ghost before = out@;
        proof {
            assert(cs[j as int] == changes@[j as int].change@);
        }
        match &changes[j].change {
            Change::CreateTask(path) | Change::UpdateTask(path) | Change::AdoptTask(path) => {
                let replaces = !matches!(changes[j].change, Change::CreateTask(_));
                match managed_task(manifest, path) {
                    Err(_) => {
                        out.push(SnapshotRequest::Invalid(
                            error_with_target(ErrorKind::InvalidDefinition, "planned task is absent from the manifest", path.as_str()),
                        ));
                        proof {
                            assert(request_views(out@) =~= request_views(before) + requests_from(*manifest, cs, j as int));
                        }
                        return out;
                    },
                    Ok(task) => {
                        if password_backed(task.definition.principal.logon_type) {
                            out.push(SnapshotRequest::DesiredPassword(path.clone(), clone_opt(&task.credentials.registration)));
                        }
                        let ghost middle = out@;
                        if replaces {
                            push_backup(&mut out, manifest, changes, j, path);
                        }
                        proof {
                            let first = if is_password_logon(task.definition.principal.logon_type) {
                                seq![SnapshotRequestView::DesiredPassword(path@, opt_view(task.credentials.registration))]
                            } else {
                                Seq::<SnapshotRequestView>::empty()
                            };
                            assert(request_views(middle) =~= request_views(before) + first);
                            let rest = if replaces { backup_request(*manifest, cs, j as int, path@) } else { Seq::empty() };
                            assert(request_views(out@) =~= request_views(before) + first + rest);
                        }
                    },
                }
            },
            Change::DeleteTask(path) => {
                push_backup(&mut out, manifest, changes, j, path);
            },
            Change::SetEnabled { path, .. } => {
                if !enabled_recorded_before_exec(changes, j, path) {
                    out.push(SnapshotRequest::EnabledBackup(path.clone()));
                }
                proof {
                    assert(request_views(out@) =~= request_views(before) + (if enabled_recorded_before(cs, j as int, path@) {
                        Seq::empty()
                    } else {
                        seq![SnapshotRequestView::EnabledBackup(path@)]
                    }));
                }
            },
            Change::SetTaskSecurity(path) => {
                let failure = match managed_task(manifest, path) {
                    Err(_) => Some(
                        error_with_target(ErrorKind::InvalidDefinition, "planned task is absent from the manifest", path.as_str()),
                    ),
                    Ok(task) => match &task.definition.registration.security_descriptor {
                        Some(d) => {
                            out.push(SnapshotRequest::TaskSecurity(path.clone(), security_information_for_sddl(d)));
                            None
                        },
                        None => Some(
                            error_with_target(
                                ErrorKind::InvalidDefinition,
                                "planned task security has no desired descriptor",
                                path.as_str(),
                            ),
                        ),
                    },
                };
                if let Some(e) = failure {
                    out.push(SnapshotRequest::Invalid(e));
                    proof {
                        assert(request_views(out@) =~= request_views(before) + requests_from(*manifest, cs, j as int));
                    }
                    return out;
                }
            },
            Change::SetFolderSecurity(path) => {
                if !created_in_plan_exec(changes, path) {
                    let failure = match managed_folder(manifest, path) {
                        Some(folder) => match &folder.security_descriptor {
                            Some(d) => {
                                out.push(SnapshotRequest::FolderSecurity(path.clone(), security_information_for_sddl(d)));
                                None
                            },
                            None => Some(
                                error_with_target(
                                    ErrorKind::InvalidDefinition,
                                    "planned folder security has no desired descriptor",
                                    path.as_str(),
                                ),
                            ),
                        },
                        None => Some(
                            error_with_target(
                                ErrorKind::InvalidDefinition,
                                "planned folder security has no desired descriptor",
                                path.as_str(),
                            ),
                        ),
                    };
                    if let Some(e) = failure {
                        out.push(SnapshotRequest::Invalid(e));
                        proof {
                            assert(request_views(out@) =~= request_views(before) + requests_from(*manifest, cs, j as int));
                        }
                        return out;
                    }
                }
            },
            Change::CreateFolder(_) => {},
        }
        proof {
            let rs = prepare_step(*manifest, cs, j as int)->Continue_0;
            assert(request_views(out@) =~= request_views(before) + rs);
            assert(requests_from(*manifest, cs, j as int) == rs + requests_from(*manifest, cs, j + 1));
            assert(request_views(out@) + requests_from(*manifest, cs, j + 1) =~= request_views(before) + requests_from(*manifest, cs, j as int));
        }
        j += 1;
    }
    proof {
        assert(request_views(out@) + requests_from(*manifest, cs, j as int) =~= request_views(out@));
    }
    out
}


/// The scheduler call that performs a change.
pub enum Mutation {
    /// Create the folder, with no descriptor.
    CreateFolder(FolderPath),
    /// Register the desired definition of the task at `path` with `source`
    /// as its Source and its path as its URI, and `security_descriptor` as
    /// its descriptor; then read the task back. `create` registers in
    /// create mode, otherwise in create-or-update mode; registration
    /// triggers are suppressed as asked, and no principal ACE is added when
    /// a descriptor is set. The desired password, when one was prepared, is
    /// handed over.
    Register {
        /// The task.
        path: TaskPath,
        /// The Source text, led by the ownership marker.
        source: String,
        /// The descriptor to register with.
        security_descriptor: Option<SecurityDescriptor>,
        /// Whether the task must not exist yet.
        create: bool,
        /// Whether registration triggers are suppressed.
        ignore_registration_triggers: bool,
        /// Whether the principal ACE is left out of the folder.
        dont_add_principal_ace: bool,
    },
    /// Delete the task.
    DeleteTask(TaskPath),
    /// Set the task's enabled state.
    SetEnabled(TaskPath, bool),
    /// Write these sections of the task's descriptor.
    SetTaskSecurity(TaskPath, SecurityDescriptor, SecurityInformation),
    /// Write these sections of the folder's descriptor.
    SetFolderSecurity(FolderPath, SecurityDescriptor, SecurityInformation),
}

/// A mutation with its texts and sections taken by their views.
pub enum MutationView {
    /// Folder path.
    CreateFolder(Seq<char>),
    /// Task path, Source, descriptor, create mode, suppressed triggers, no principal ACE.
    Register(Seq<char>, Seq<char>, Option<Seq<char>>, bool, bool, bool),
    /// Task path.
    DeleteTask(Seq<char>),
    /// Task path and state.
    SetEnabled(Seq<char>, bool),
    /// Task path, descriptor and sections.
    SetTaskSecurity(Seq<char>, Seq<char>, u32),
    /// Folder path, descriptor and sections.
    SetFolderSecurity(Seq<char>, Seq<char>, u32),
}

/// The view of an optional descriptor.
pub open spec fn opt_descriptor(d: Option<SecurityDescriptor>) -> Option<Seq<char>> {
    match d {
        Some(x) => Some(x@),
        None => None,
    }
}

impl View for Mutation {
    type V = MutationView;

    open spec fn view(&self) -> MutationView {
        match self {
            Mutation::CreateFolder(p) => MutationView::CreateFolder(p@),
            Mutation::Register { path, source, security_descriptor, create, ignore_registration_triggers, dont_add_principal_ace } =>
                MutationView::Register(path@, source@, opt_descriptor(*security_descriptor), *create, *ignore_registration_triggers, *dont_add_principal_ace),
            Mutation::DeleteTask(p) => MutationView::DeleteTask(p@),
            Mutation::SetEnabled(p, e) => MutationView::SetEnabled(p@, *e),
            Mutation::SetTaskSecurity(p, d, i) => MutationView::SetTaskSecurity(p@, d@, i.value()),
            Mutation::SetFolderSecurity(p, d, i) => MutationView::SetFolderSecurity(p@, d@, i.value()),
        }
    }
}

/// The registration of the task at `p`: its desired descriptor, or for a
/// replaced or adopted task without one, the descriptor backed up from it.
pub open spec fn registration_spec(m: TaskManifest, p: Seq<char>, create: bool, options: ApplyOptions, backup: Option<Seq<char>>) -> Result<MutationView, ErrorView> {
    match managed_entry(m.tasks@, p) {
        None => Err(missing_task_error(p)),
        Some(t) => {
            let desired = opt_descriptor(t.definition.registration.security_descriptor);
            let descriptor = if !create && desired is None { backup } else { desired };
            Ok(MutationView::Register(
                p,
                owned_source(crate::manifest::ownership_uri_text(m.owner, p), opt_view(t.definition.registration.source)),
                descriptor,
                create,
                options.ignore_registration_triggers,
                descriptor is Some,
            ))
        },
    }
}

/// What performing a change asks of the scheduler, given the descriptor
/// backed up from the task it replaces, if any.
pub open spec fn mutation_spec(m: TaskManifest, c: ChangeView, options: ApplyOptions, backup: Option<Seq<char>>) -> Result<MutationView, ErrorView> {
    match c {
        ChangeView::CreateFolder(p) => Ok(MutationView::CreateFolder(p)),
        ChangeView::CreateTask(p) => registration_spec(m, p, true, options, backup),
        ChangeView::UpdateTask(p) => registration_spec(m, p, false, options, backup),
        ChangeView::AdoptTask(p) => registration_spec(m, p, false, options, backup),
        ChangeView::DeleteTask(p) => Ok(MutationView::DeleteTask(p)),
        ChangeView::SetEnabled(p, e) => Ok(MutationView::SetEnabled(p, e)),
        ChangeView::SetTaskSecurity(p) => match managed_entry(m.tasks@, p) {
            None => Err(missing_task_error(p)),
            Some(t) => match t.definition.registration.security_descriptor {
                Some(d) => Ok(MutationView::SetTaskSecurity(p, d@, sddl_information(d@))),
                None => Err(missing_task_descriptor(p)),
            },
        },
        ChangeView::SetFolderSecurity(p) => match managed_folder_entry(m.folders@, p) {
            Some(f) => match f.security_descriptor {
                Some(d) => Ok(MutationView::SetFolderSecurity(p, d@, sddl_information(d@))),
                None => Err(missing_folder_descriptor(p)),
            },
            None => Err(missing_folder_descriptor(p)),
        },
    }
}

/// The view of a mutation result.
pub open spec fn mutation_result_view(r: Result<Mutation, Error>) -> Result<MutationView, ErrorView> {
    match r {
        Ok(x) => Ok(x@),
        Err(e) => Err(e@),
    }
}

fn registration(manifest: &TaskManifest, path: &TaskPath, create: bool, options: ApplyOptions, backup: Option<&SecurityDescriptor>) -> (r: Result<Mutation, Error>)
    ensures
        mutation_result_view(r) == registration_spec(*manifest, path@, create, options, match backup {
            Some(d) => Some(d@),
            None => None,
        }),
{
    match managed_task(manifest, path) {
        Err(_) => Err(error_with_target(ErrorKind::InvalidDefinition, "planned task is absent from the manifest", path.as_str())),
        Ok(task) => {
            let marker = manifest.ownership_uri(path);
            let source = owned_source_exec(marker.as_str(), &task.definition.registration.source);
            let descriptor = match &task.definition.registration.security_descriptor {
                Some(d) => Some(d.clone()),
                None => if create {
                    None
                } else {
                    match backup {
                        Some(d) => Some(d.clone()),
                        None => None,
                    }
                },
            };
            let dont_add_principal_ace = descriptor.is_some();
            Ok(Mutation::Register {
                path: path.clone(),
                source,
                security_descriptor: descriptor,
                create,
                ignore_registration_triggers: options.ignore_registration_triggers,
                dont_add_principal_ace,
            })
        },
    }
}

/// What performing a change asks of the scheduler. `backup` is the
/// descriptor backed up from the task that the change replaces, if any.
pub fn mutation_for(manifest: &TaskManifest, change: &Change, options: ApplyOptions, backup: Option<&SecurityDescriptor>) -> (r: Result<Mutation, Error>)
    ensures
        mutation_result_view(r) == mutation_spec(*manifest, change@, options, match backup {
            Some(d) => Some(d@),
            None => None,
        }),
{
    match change {
        Change::CreateFolder(path) => Ok(Mutation::CreateFolder(path.clone())),
        Change::CreateTask(path) => registration(manifest, path, true, options, backup),
        Change::UpdateTask(path) | Change::AdoptTask(path) => registration(manifest, path, false, options, backup),
        Change::DeleteTask(path) => Ok(Mutation::DeleteTask(path.clone())),
        Change::SetEnabled { path, enabled } => Ok(Mutation::SetEnabled(path.clone(), *enabled)),
        Change::SetTaskSecurity(path) => match managed_task(manifest, path) {
            Err(_) => Err(error_with_target(ErrorKind::InvalidDefinition, "planned task is absent from the manifest", path.as_str())),
            Ok(task) => match &task.definition.registration.security_descriptor {
                Some(d) => Ok(Mutation::SetTaskSecurity(path.clone(), d.clone(), security_information_for_sddl(d))),
                None => Err(error_with_target(ErrorKind::InvalidDefinition, "planned task security has no desired descriptor", path.as_str())),
            },
        },
        Change::SetFolderSecurity(path) => {
            let descriptor = match managed_folder(manifest, path) {
                Some(folder) => match &folder.security_descriptor {
                    Some(d) => Some(d),
                    None => None,
                },
                None => None,
            };
            match descriptor {
                Some(d) => Ok(Mutation::SetFolderSecurity(path.clone(), d.clone(), security_information_for_sddl(d))),
                None => Err(error_with_target(ErrorKind::InvalidDefinition, "planned folder security has no desired descriptor", path.as_str())),
            }
        },
    }
}

/// What undoing a change asks of the scheduler.
pub enum Compensation {
    /// Delete the created folder.
    DeleteFolder(FolderPath),
    /// Delete the created task, stopping its instances first when asked to.
    DeleteTask(TaskPath, bool),
    /// Register the backed-up XML again with its logon type and password,
    /// suppressing registration triggers as asked; then restore the
    /// backed-up enabled state and, when one was backed up, the descriptor,
    /// attempting both even when the first fails.
    RestoreTask(TaskPath, bool),
    /// Restore the recorded enabled state.
    RestoreEnabled(TaskPath, bool),
    /// Restore the recorded task descriptor sections.
    RestoreTaskSecurity(TaskPath),
    /// Restore the recorded folder descriptor sections.
    RestoreFolderSecurity(FolderPath),
}

/// A compensation with its paths taken as text.
pub enum CompensationView {
    /// Folder path.
    DeleteFolder(Seq<char>),
    /// Task path and whether instances are stopped first.
    DeleteTask(Seq<char>, bool),
    /// Task path and whether registration triggers are suppressed.
    RestoreTask(Seq<char>, bool),
    /// Task path and state.
    RestoreEnabled(Seq<char>, bool),
    /// Task path.
    RestoreTaskSecurity(Seq<char>),
    /// Folder path.
    RestoreFolderSecurity(Seq<char>),
}

impl View for Compensation {
    type V = CompensationView;

    open spec fn view(&self) -> CompensationView {
        match self {
            Compensation::DeleteFolder(p) => CompensationView::DeleteFolder(p@),
            Compensation::DeleteTask(p, s) => CompensationView::DeleteTask(p@, *s),
            Compensation::RestoreTask(p, i) => CompensationView::RestoreTask(p@, *i),
            Compensation::RestoreEnabled(p, e) => CompensationView::RestoreEnabled(p@, *e),
            Compensation::RestoreTaskSecurity(p) => CompensationView::RestoreTaskSecurity(p@),
            Compensation::RestoreFolderSecurity(p) => CompensationView::RestoreFolderSecurity(p@),
        }
    }
}

/// What was captured for the target of a change while preparing.
#[derive(Clone, Copy, Debug, Eq, PartialEq, Structural)]
pub struct TaskBackupFacts {
    /// Logon type of the backed-up task.
    pub logon_type: LogonType,
    /// Whether its rollback password was resolved.
    pub has_password: bool,
}

/// The error when a snapshot needed to undo a change is missing.
pub open spec fn unavailable(p: Seq<char>, what: Seq<char>) -> ErrorView {
    ErrorView { target: Some(p), ..fresh_error(ErrorKind::Irreversible, what) }
}

/// What undoing a change asks of the scheduler, given what was captured:
/// the task backup, the recorded enabled state, and whether task and folder
/// descriptors were recorded. A missing snapshot, or a backed-up task whose
/// logon type needs a password that was not resolved, makes the change
/// irreversible.
pub open spec fn compensation_spec(
    c: ChangeView,
    options: ApplyOptions,
    backup: Option<TaskBackupFacts>,
    enabled: Option<bool>,
    task_security: bool,
    folder_security: bool,
) -> Result<CompensationView, ErrorView> {
    match c {
        ChangeView::CreateFolder(p) => Ok(CompensationView::DeleteFolder(p)),
        ChangeView::CreateTask(p) => Ok(CompensationView::DeleteTask(p, options.stop_running)),
        ChangeView::UpdateTask(p) => restore_spec(p, options, backup),
        ChangeView::AdoptTask(p) => restore_spec(p, options, backup),
        ChangeView::DeleteTask(p) => restore_spec(p, options, backup),
        ChangeView::SetEnabled(p, _) => match enabled {
            Some(e) => Ok(CompensationView::RestoreEnabled(p, e)),
            None => Err(unavailable(p, "task enabled-state snapshot is unavailable"@)),
        },
        ChangeView::SetTaskSecurity(p) => if task_security {
            Ok(CompensationView::RestoreTaskSecurity(p))
        } else {
            Err(unavailable(p, "task security snapshot is unavailable"@))
        },
        ChangeView::SetFolderSecurity(p) => if folder_security {
            Ok(CompensationView::RestoreFolderSecurity(p))
        } else {
            Err(unavailable(p, "folder security snapshot is unavailable"@))
        },
    }
}

/// Restoring the task at `p` from its backup.
pub open spec fn restore_spec(p: Seq<char>, options: ApplyOptions, backup: Option<TaskBackupFacts>) -> Result<CompensationView, ErrorView> {
    match backup {
        None => Err(unavailable(p, "task rollback snapshot is unavailable"@)),
        Some(b) => if is_password_logon(b.logon_type) && !b.has_password {
            Err(unavailable(p, "task rollback password is unavailable"@))
        } else {
            Ok(CompensationView::RestoreTask(p, options.ignore_registration_triggers))
        },
    }
}

/// The view of a compensation result.
pub open spec fn compensation_result_view(r: Result<Compensation, Error>) -> Result<CompensationView, ErrorView> {
    match r {
        Ok(x) => Ok(x@),
        Err(e) => Err(e@),
    }
}

fn restore(path: &TaskPath, options: ApplyOptions, backup: Option<TaskBackupFacts>) -> (r: Result<Compensation, Error>)
    ensures
        compensation_result_view(r) == restore_spec(path@, options, backup),
{
    match backup {
        None => Err(error_with_target(ErrorKind::Irreversible, "task rollback snapshot is unavailable", path.as_str())),
        Some(b) => if password_backed(b.logon_type) && !b.has_password {
            Err(error_with_target(ErrorKind::Irreversible, "task rollback password is unavailable", path.as_str()))
        } else {
            Ok(Compensation::RestoreTask(path.clone(), options.ignore_registration_triggers))
        },
    }
}

/// What undoing a change asks of the scheduler, as [`compensation_spec`]
/// describes.
pub fn compensation_for(
    change: &Change,
    options: ApplyOptions,
    backup: Option<TaskBackupFacts>,
    enabled: Option<bool>,
    task_security: bool,
    folder_security: bool,
) -> (r: Result<Compensation, Error>)
    ensures
        compensation_result_view(r) == compensation_spec(change@, options, backup, enabled, task_security, folder_security),
{
    match change {
        Change::CreateFolder(path) => Ok(Compensation::DeleteFolder(path.clone())),
        Change::CreateTask(path) => Ok(Compensation::DeleteTask(path.clone(), options.stop_running)),
        Change::UpdateTask(path) | Change::AdoptTask(path) | Change::DeleteTask(path) => restore(path, options, backup),
        Change::SetEnabled { path, .. } => match enabled {
            Some(e) => Ok(Compensation::RestoreEnabled(path.clone(), e)),
            None => Err(error_with_target(ErrorKind::Irreversible, "task enabled-state snapshot is unavailable", path.as_str())),
        },
        Change::SetTaskSecurity(path) => if task_security {
            Ok(Compensation::RestoreTaskSecurity(path.clone()))
        } else {
            Err(error_with_target(ErrorKind::Irreversible, "task security snapshot is unavailable", path.as_str()))
        },
        Change::SetFolderSecurity(path) => if folder_security {
            Ok(Compensation::RestoreFolderSecurity(path.clone()))
        } else {
            Err(error_with_target(ErrorKind::Irreversible, "folder security snapshot is unavailable", path.as_str()))
        },
    }
}

/// The definition a registration submits: the desired definition with the
/// ownership `source`, the task's path as its URI and the descriptor the
/// registration carries; every other field is kept.
pub fn registered_definition(
    desired: TaskDefinition,
    path: &TaskPath,
    source: String,
    security_descriptor: Option<SecurityDescriptor>,
) -> (d: TaskDefinition)
    ensures
        d == (TaskDefinition {
            registration: RegistrationInfo {
                source: Some(source),
                uri: d.registration.uri,
                security_descriptor,
                ..desired.registration
            },
            ..desired
        }),
        opt_view(d.registration.uri) == Some(path@),
{
    let mut d = desired;
    d.registration.source = Some(source);
    d.registration.uri = Some(path.as_str().to_owned());
    d.registration.security_descriptor = security_descriptor;
    d
}

/// The descriptor the manifest wants on a task, when it manages the task
/// and sets one.
pub fn desired_task_descriptor<'a>(manifest: &'a TaskManifest, path: &TaskPath) -> (r: Option<&'a SecurityDescriptor>)
    ensures
        match managed_entry(manifest.tasks@, path@) {
            Some(t) => r == match t.definition.registration.security_descriptor {
                Some(x) => Some(&x),
                None => None,
            },
            None => r is None,
        },
{
    match managed_task(manifest, path) {
        Ok(task) => match &task.definition.registration.security_descriptor {
            Some(d) => Some(d),
            None => None,
        },
        Err(_) => None,
    }
}

/// The descriptor the manifest wants on a folder, when it manages the folder
/// and sets one.
pub fn desired_folder_descriptor<'a>(manifest: &'a TaskManifest, path: &FolderPath) -> (r: Option<&'a SecurityDescriptor>)
    ensures
        match managed_folder_entry(manifest.folders@, path@) {
            Some(f) => r == match f.security_descriptor {
                Some(x) => Some(&x),
                None => None,
            },
            None => r is None,
        },
{
    match managed_folder(manifest, path) {
        Some(folder) => match &folder.security_descriptor {
            Some(d) => Some(d),
            None => None,
        },
        None => None,
    }
}

/// A snapshot read whose failure an irreversible apply may accept: the
/// value read, nothing when the read failed and irreversible changes are
/// allowed, or the read's error otherwise.
pub fn tolerated<T>(read: Result<T, Error>, allow_irreversible: bool) -> (r: Result<Option<T>, Error>)
    ensures
        match read {
            Ok(x) => r == Ok::<Option<T>, Error>(Some(x)),
            Err(e) => if allow_irreversible {
                r == Ok::<Option<T>, Error>(None)
            } else {
                r == Err::<Option<T>, Error>(e)
            },
        },
{
    match read {
        Ok(x) => Ok(Some(x)),
        Err(e) => if allow_irreversible {
            Ok(None)
        } else {
            Err(e)
        },
    }
}
/// The definition registered for a managed task: its desired definition
/// with the manifest's ownership marker in Source, earlier Source text kept
/// after a newline, and the task's path as its URI; every other field is
/// kept.
pub fn owned_definition(manifest: &TaskManifest, task: ManagedTask) -> (d: TaskDefinition)
    ensures
        d == (TaskDefinition {
            registration: RegistrationInfo {
                source: d.registration.source,
                uri: d.registration.uri,
                ..task.definition.registration
            },
            ..task.definition
        }),
        opt_view(d.registration.source) == Some(
            owned_source(
                crate::manifest::ownership_uri_text(manifest.owner, task.path@),
                opt_view(task.definition.registration.source),
            ),
        ),
        opt_view(d.registration.uri) == Some(task.path@),
{
    let marker = manifest.ownership_uri(&task.path);
    let source = owned_source_exec(marker.as_str(), &task.definition.registration.source);
    let uri = task.path.as_str().to_owned();
    let mut d = task.definition;
    d.registration.source = Some(source);
    d.registration.uri = Some(uri);
    d
}

} // verus!
