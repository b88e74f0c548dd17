//! What a change's target looked like before and after it, and the checks
//! that refuse to overwrite drift that the plan did not expect.
use vstd::prelude::*;

use crate::client::SecurityInformation;
use crate::error::{Error, ErrorKind};
use crate::manifest::{ManagedFolder, ManagedTask, TaskManifest};
use crate::model::compare::{
    definitions_identical, definitions_identical_spec, definitions_semantically_equal,
    definitions_semantically_equal_spec, eq_opt_descriptor, matches_owned, matches_owned_spec,
    same_opt_descriptor,
};
use crate::model::{access_key, SecurityDescriptor, TaskDefinition};
use crate::path::{FolderPath, TaskPath};
use crate::reconcile::{
    change_folder, change_task, folder_entry, owned_source, owned_source_exec, sddl_information,
    security_information_for_sddl, task_path, Change, ChangeView, CurrentState, CurrentTask,
};
use crate::text::opt_view;

verus! {

/// What a change's target looked like when it was read.
pub enum Observed {
    /// Neither the task nor the folder exists.
    Missing,
    /// The task exists.
    Task {
        /// Its definition, read without registration date and descriptor.
        definition: TaskDefinition,
        /// Its effective enabled state.
        enabled: bool,
        /// Its descriptor, or `None` when it could not be read and an
        /// incomplete snapshot was allowed.
        security: Option<SecurityDescriptor>,
    },
    /// The folder exists, with its descriptor when it could be read.
    Folder(Option<SecurityDescriptor>),
}

/// Whether two optional descriptors are both absent, or both present and
/// granting the same access.
pub open spec fn security_same(a: Option<SecurityDescriptor>, b: Option<SecurityDescriptor>) -> bool {
    match (a, b) {
        (Some(x), Some(y)) => access_key(x@) == access_key(y@),
        (None, None) => true,
        _ => false,
    }
}

/// Whether two observations show the same state: the same kind of target,
/// identical definitions and enabled states, and descriptors that grant the
/// same access.
pub open spec fn observed_same(a: Observed, b: Observed) -> bool {
    match (a, b) {
        (Observed::Missing, Observed::Missing) => true,
        (Observed::Folder(x), Observed::Folder(y)) => security_same(x, y),
        (
            Observed::Task { definition: d1, enabled: e1, security: s1 },
            Observed::Task { definition: d2, enabled: e2, security: s2 },
        ) => definitions_identical_spec(d1, d2) && e1 == e2 && security_same(s1, s2),
        _ => false,
    }
}

fn security_equal(a: &Option<SecurityDescriptor>, b: &Option<SecurityDescriptor>) -> (r: bool)
    ensures
        r == security_same(*a, *b),
{
    match (a, b) {
        (Some(x), Some(y)) => x.access_equivalent(y),
        (None, None) => true,
        _ => false,
    }
}

impl PartialEq for Observed {
    fn eq(&self, other: &Self) -> (r: bool) {
        match (self, other) {
            (Observed::Missing, Observed::Missing) => true,
            (Observed::Folder(a), Observed::Folder(b)) => security_equal(a, b),
            (
                Observed::Task { definition: d1, enabled: e1, security: s1 },
                Observed::Task { definition: d2, enabled: e2, security: s2 },
            ) => definitions_identical(d1, d2) && *e1 == *e2 && security_equal(s1, s2),
            _ => false,
        }
    }
}

impl vstd::std_specs::cmp::PartialEqSpecImpl for Observed {
    open spec fn obeys_eq_spec() -> bool {
        true
    }

    open spec fn eq_spec(&self, other: &Observed) -> bool {
        observed_same(*self, *other)
    }
}

/// Whether `i` is the first desired task at `path`.
pub open spec fn first_managed_task(tasks: Seq<ManagedTask>, path: Seq<char>, i: int) -> bool {
    0 <= i < tasks.len() && tasks[i].path@ == path && forall|j: int| 0 <= j < i ==> (#[trigger] tasks[j]).path@ != path
}

/// The first desired task at `path`.
pub open spec fn managed_entry(tasks: Seq<ManagedTask>, path: Seq<char>) -> Option<ManagedTask> {
    if exists|i: int| first_managed_task(tasks, path, i) {
        Some(tasks[choose|i: int| first_managed_task(tasks, path, i)])
    } else {
        None
    }
}

/// Whether `i` is the first desired folder at `path`.
pub open spec fn first_managed_folder(folders: Seq<ManagedFolder>, path: Seq<char>, i: int) -> bool {
    0 <= i < folders.len() && folders[i].path@ == path && forall|j: int| 0 <= j < i ==> (#[trigger] folders[j]).path@ != path
}

/// The first desired folder at `path`.
pub open spec fn managed_folder_entry(folders: Seq<ManagedFolder>, path: Seq<char>) -> Option<ManagedFolder> {
    if exists|i: int| first_managed_folder(folders, path, i) {
        Some(folders[choose|i: int| first_managed_folder(folders, path, i)])
    } else {
        None
    }
}

/// Whether `i` is the first inspected task at `path`.
pub open spec fn first_current_task(tasks: Seq<CurrentTask>, path: Seq<char>, i: int) -> bool {
    0 <= i < tasks.len() && tasks[i].path@ == path && forall|j: int| 0 <= j < i ==> (#[trigger] tasks[j]).path@ != path
}

/// The first inspected task at `path`.
pub open spec fn current_entry(tasks: Seq<CurrentTask>, path: Seq<char>) -> Option<CurrentTask> {
    if exists|i: int| first_current_task(tasks, path, i) {
        Some(tasks[choose|i: int| first_current_task(tasks, path, i)])
    } else {
        None
    }
}

/// The desired task at `path`, or an invalid definition error naming it.
pub fn managed_task<'a>(manifest: &'a TaskManifest, path: &TaskPath) -> (r: Result<&'a ManagedTask, Error>)
    ensures
        match r {
            Ok(t) => managed_entry(manifest.tasks@, path@) == Some(*t),
            Err(e) => managed_entry(manifest.tasks@, path@) is None && e@.kind == ErrorKind::InvalidDefinition
                && e@.target == Some(path@) && e@.message == "planned task is absent from the manifest"@
                && e@.operation is None && e@.native_code is None && e@.diagnostics.len() == 0
                && e@.context.len() == 0,
        },
{
    let mut i: usize = 0;
    while i < manifest.tasks.len()
        invariant
            i <= manifest.tasks@.len(),
            forall|j: int| 0 <= j < i ==> (#[trigger] manifest.tasks@[j]).path@ != path@,
        decreases manifest.tasks@.len() - i,
    {
        if manifest.tasks[i].path.same(path) {
            proof {
                assert(first_managed_task(manifest.tasks@, path@, i as int));
                let k = choose|k: int| first_managed_task(manifest.tasks@, path@, k);
                assert(k == i as int) by {
                    if k < i {
                        assert(manifest.tasks@[k].path@ != path@);
                    } else if k > i {
                        assert(manifest.tasks@[i as int].path@ != path@);
                    }
                }
            }
            return Ok(&manifest.tasks[i]);
        }
        i += 1;
    }
    Err(Error::new(ErrorKind::InvalidDefinition, "planned task is absent from the manifest").with_target(path.as_str()))
}

/// The desired folder at `path`.
pub fn managed_folder<'a>(manifest: &'a TaskManifest, path: &FolderPath) -> (r: Option<&'a ManagedFolder>)
    ensures
        match r {
            Some(f) => managed_folder_entry(manifest.folders@, path@) == Some(*f),
            None => managed_folder_entry(manifest.folders@, path@) is None,
        },
{
    let mut i: usize = 0;
    while i < manifest.folders.len()
        invariant
            i <= manifest.folders@.len(),
            forall|j: int| 0 <= j < i ==> (#[trigger] manifest.folders@[j]).path@ != path@,
        decreases manifest.folders@.len() - i,
    {
        if manifest.folders[i].path.same(path) {
            proof {
                assert(first_managed_folder(manifest.folders@, path@, i as int));
                let k = choose|k: int| first_managed_folder(manifest.folders@, path@, k);
                assert(k == i as int) by {
                    if k < i {
                        assert(manifest.folders@[k].path@ != path@);
                    } else if k > i {
                        assert(manifest.folders@[i as int].path@ != path@);
                    }
                }
            }
            return Some(&manifest.folders[i]);
        }
        i += 1;
    }
    None
}

fn current_task<'a>(state: &'a CurrentState, path: &TaskPath) -> (r: Option<&'a CurrentTask>)
    ensures
        match r {
            Some(t) => current_entry(state.tasks@, path@) == Some(*t),
            None => current_entry(state.tasks@, path@) is None,
        },
{
    let mut i: usize = 0;
    while i < state.tasks.len()
        invariant
            i <= state.tasks@.len(),
            forall|j: int| 0 <= j < i ==> (#[trigger] state.tasks@[j]).path@ != path@,
        decreases state.tasks@.len() - i,
    {
        if state.tasks[i].path.same(path) {
            proof {
                assert(first_current_task(state.tasks@, path@, i as int));
                let k = choose|k: int| first_current_task(state.tasks@, path@, k);
                assert(k == i as int) by {
                    if k < i {
                        assert(state.tasks@[k].path@ != path@);
                    } else if k > i {
                        assert(state.tasks@[i as int].path@ != path@);
                    }
                }
            }
            return Some(&state.tasks[i]);
        }
        i += 1;
    }
    None
}

/// The descriptor that the manifest asks for the target of a change.
pub open spec fn desired_descriptor(m: TaskManifest, c: ChangeView) -> Option<SecurityDescriptor> {
    match change_task(c) {
        Some(p) => match managed_entry(m.tasks@, p) {
            Some(t) => t.definition.registration.security_descriptor,
            None => None,
        },
        None => match managed_folder_entry(m.folders@, change_folder(c)->0) {
            Some(f) => f.security_descriptor,
            None => None,
        },
    }
}

/// The security sections read and restored around a change: owner, group
/// and DACL, and every section that the desired descriptor names.
pub open spec fn change_information(m: TaskManifest, c: ChangeView) -> u32 {
    match desired_descriptor(m, c) {
        Some(d) => 7u32 | sddl_information(d@),
        None => 7u32,
    }
}

/// The security sections read and restored around a change.
pub fn information(manifest: &TaskManifest, change: &Change) -> (r: SecurityInformation)
    ensures
        r.value() == change_information(*manifest, change@),
{
    let descriptor: Option<&SecurityDescriptor> = match task_path(change) {
        Some(path) => match managed_task(manifest, path) {
            Ok(task) => task.definition.registration.security_descriptor.as_ref(),
            Err(_) => None,
        },
        None => match change {
            Change::CreateFolder(path) | Change::SetFolderSecurity(path) => match managed_folder(manifest, path) {
                Some(folder) => folder.security_descriptor.as_ref(),
                None => None,
            },
            _ => None,
        },
    };
    let base = SecurityInformation::owner().union(SecurityInformation::group()).union(SecurityInformation::dacl());
    assert(1u32 | 2u32 | 4u32 == 7u32) by (bit_vector);
    match descriptor {
        Some(d) => base.union(security_information_for_sddl(d)),
        None => base,
    }
}

/// Whether a preflight observation agrees with the inspected state that the
/// plan was built from: a task's presence, its definition and enabled
/// state; a folder's presence.
pub open spec fn agrees_spec(state: CurrentState, c: ChangeView, o: Observed) -> bool {
    match change_task(c) {
        Some(p) => match (current_entry(state.tasks@, p), o) {
            (None, Observed::Missing) => true,
            (Some(old), Observed::Task { definition, enabled, .. }) => definitions_semantically_equal_spec(
                old.definition,
                definition,
            ) && old.enabled == enabled,
            _ => false,
        },
        None => (folder_entry(state.folders@, change_folder(c)->0) is Some) == (o is Folder),
    }
}

/// Checks a preflight observation against the inspected state.
pub fn agrees_with_inspection(state: &CurrentState, change: &Change, observed: &Observed) -> (r: bool)
    ensures
        r == agrees_spec(*state, change@, *observed),
{
    match task_path(change) {
        Some(path) => match (current_task(state, path), observed) {
            (None, Observed::Missing) => true,
            (Some(old), Observed::Task { definition, enabled, .. }) => definitions_semantically_equal(
                &old.definition,
                definition,
            ) && old.enabled == *enabled,
            _ => false,
        },
        None => {
            let path = match change {
                Change::CreateFolder(path) | Change::SetFolderSecurity(path) => path,
                Change::CreateTask(path) | Change::UpdateTask(path) | Change::AdoptTask(path)
                | Change::DeleteTask(path) | Change::SetEnabled { path, .. } | Change::SetTaskSecurity(
                    path,
                ) => {
                    proof {
                        assert(false);
                    }
                    return false;
                },
            };
            let present = crate::reconcile::folder_exists(&state.folders, path);
            let is_folder = matches!(observed, Observed::Folder(_));
            present == is_folder
        },
    }
}

/// What still confirms a change once its target was read back: the read-back
/// alone, or a second read of the target's descriptor with the sections
/// that the desired descriptor names.
pub enum Confirmation {
    /// The read-back alone decides.
    Decided(bool),
    /// The change holds when the task's descriptor, read with these
    /// sections, grants what the desired one grants.
    TaskSecurity(TaskPath, SecurityInformation, SecurityDescriptor),
    /// The change holds when the folder's descriptor, read with these
    /// sections, grants what the desired one grants.
    FolderSecurity(FolderPath, SecurityInformation, SecurityDescriptor),
}

/// A confirmation with paths and descriptors taken as text.
pub enum ConfirmationView {
    /// Decided by the read-back.
    Decided(bool),
    /// Task path, sections and desired descriptor.
    TaskSecurity(Seq<char>, u32, Seq<char>),
    /// Folder path, sections and desired descriptor.
    FolderSecurity(Seq<char>, u32, Seq<char>),
}

impl View for Confirmation {
    type V = ConfirmationView;

    open spec fn view(&self) -> ConfirmationView {
        match self {
            Confirmation::Decided(b) => ConfirmationView::Decided(*b),
            Confirmation::TaskSecurity(p, i, d) => ConfirmationView::TaskSecurity(p@, i.value(), d@),
            Confirmation::FolderSecurity(p, i, d) => ConfirmationView::FolderSecurity(p@, i.value(), d@),
        }
    }
}

/// The read of the task's descriptor that confirms it, or a decision when
/// the manifest asks for none.
pub open spec fn task_security_confirmation(p: Seq<char>, desired: Option<SecurityDescriptor>) -> ConfirmationView {
    match desired {
        Some(d) => ConfirmationView::TaskSecurity(p, sddl_information(d@), d@),
        None => ConfirmationView::Decided(true),
    }
}

/// Whether the read-back `after` of a change's target, with `before` read
/// ahead of it, is what the change was meant to produce.
///
/// A created, replaced or adopted task must match the desired definition
/// with its ownership marker and path, and the desired enabled state; a
/// deleted task must be missing; a created folder present. An enabled-state
/// change must leave the definition and descriptor as they were; a task
/// security change the definition and enabled state. Descriptors the
/// manifest asks for are confirmed by a second read.
pub open spec fn confirmation_spec(m: TaskManifest, before: Observed, after: Observed, c: ChangeView) -> ConfirmationView {
    match (c, after) {
        (ChangeView::CreateTask(p), Observed::Task { definition, enabled, .. }) => created_confirmation(m, p, definition, enabled),
        (ChangeView::UpdateTask(p), Observed::Task { definition, enabled, .. }) => created_confirmation(m, p, definition, enabled),
        (ChangeView::AdoptTask(p), Observed::Task { definition, enabled, .. }) => created_confirmation(m, p, definition, enabled),
        (ChangeView::DeleteTask(_), Observed::Missing) => ConfirmationView::Decided(true),
        (ChangeView::CreateFolder(_), Observed::Folder(_)) => ConfirmationView::Decided(true),
        (ChangeView::SetFolderSecurity(p), Observed::Folder(_)) => match managed_folder_entry(m.folders@, p) {
            Some(f) => match f.security_descriptor {
                Some(d) => ConfirmationView::FolderSecurity(p, sddl_information(d@), d@),
                None => ConfirmationView::Decided(false),
            },
            None => ConfirmationView::Decided(false),
        },
        (ChangeView::SetEnabled(_, want), Observed::Task { definition, enabled, security }) => ConfirmationView::Decided(
            match before {
                Observed::Task { definition: old, security: old_security, .. } => definitions_semantically_equal_spec(
                    old,
                    definition,
                ) && same_opt_descriptor(security, old_security) && want == enabled,
                _ => false,
            },
        ),
        (ChangeView::SetTaskSecurity(p), Observed::Task { definition, enabled, .. }) => match before {
            Observed::Task { definition: old, enabled: old_enabled, .. } => if definitions_semantically_equal_spec(
                old,
                definition,
            ) && enabled == old_enabled {
                match managed_entry(m.tasks@, p) {
                    Some(t) => match t.definition.registration.security_descriptor {
                        Some(d) => ConfirmationView::TaskSecurity(p, sddl_information(d@), d@),
                        None => ConfirmationView::Decided(false),
                    },
                    None => ConfirmationView::Decided(false),
                }
            } else {
                ConfirmationView::Decided(false)
            },
            _ => ConfirmationView::Decided(false),
        },
        _ => ConfirmationView::Decided(false),
    }
}

/// The confirmation of a registered task: its definition must be the desired
/// one with the ownership marker and path, and its enabled state the desired
/// one.
pub open spec fn created_confirmation(m: TaskManifest, p: Seq<char>, definition: TaskDefinition, enabled: bool) -> ConfirmationView {
    match managed_entry(m.tasks@, p) {
        Some(t) => if matches_owned_spec(
            definition,
            t.definition,
            owned_source(crate::manifest::ownership_uri_text(m.owner, p), opt_view(t.definition.registration.source)),
            p,
        ) && enabled == t.definition.settings.enabled {
            task_security_confirmation(p, t.definition.registration.security_descriptor)
        } else {
            ConfirmationView::Decided(false)
        },
        None => ConfirmationView::Decided(false),
    }
}

fn security_read(path: &TaskPath, desired: &Option<SecurityDescriptor>) -> (r: Confirmation)
    ensures
        r@ == task_security_confirmation(path@, *desired),
{
    match desired {
        Some(d) => Confirmation::TaskSecurity(path.clone(), security_information_for_sddl(d), d.clone()),
        None => Confirmation::Decided(true),
    }
}

fn created_check(manifest: &TaskManifest, path: &TaskPath, definition: &TaskDefinition, enabled: bool) -> (r: Confirmation)
    ensures
        r@ == created_confirmation(*manifest, path@, *definition, enabled),
{
    match managed_task(manifest, path) {
        Ok(task) => {
            let marker = manifest.ownership_uri(path);
            let source = owned_source_exec(marker.as_str(), &task.definition.registration.source);
            if matches_owned(definition, &task.definition, source.as_str(), path.as_str())
                && enabled == task.definition.settings.enabled {
                security_read(path, &task.definition.registration.security_descriptor)
            } else {
                Confirmation::Decided(false)
            }
        },
        Err(_) => Confirmation::Decided(false),
    }
}

/// Decides whether the read-back of a change's target shows the change, or
/// which descriptor read still decides it.
pub fn expected_after(before: &Observed, after: &Observed, manifest: &TaskManifest, change: &Change) -> (r: Confirmation)
    ensures
        r@ == confirmation_spec(*manifest, *before, *after, change@),
{
    match (change, after) {
        (Change::CreateTask(path), Observed::Task { definition, enabled, .. })
        | (Change::UpdateTask(path), Observed::Task { definition, enabled, .. })
        | (Change::AdoptTask(path), Observed::Task { definition, enabled, .. }) => created_check(
            manifest,
            path,
            definition,
            *enabled,
        ),
        (Change::DeleteTask(_), Observed::Missing) => Confirmation::Decided(true),
        (Change::CreateFolder(_), Observed::Folder(_)) => Confirmation::Decided(true),
        (Change::SetFolderSecurity(path), Observed::Folder(_)) => match managed_folder(manifest, path) {
            Some(folder) => match &folder.security_descriptor {
                Some(d) => Confirmation::FolderSecurity(path.clone(), security_information_for_sddl(d), d.clone()),
                None => Confirmation::Decided(false),
            },
            None => Confirmation::Decided(false),
        },
        (Change::SetEnabled { enabled: want, .. }, Observed::Task { definition, enabled, security }) => Confirmation::Decided(
            match before {
                Observed::Task { definition: old, security: old_security, .. } => definitions_semantically_equal(
                    old,
                    definition,
                ) && eq_opt_descriptor(security, old_security) && *want == *enabled,
                _ => false,
            },
        ),
        (Change::SetTaskSecurity(path), Observed::Task { definition, enabled, .. }) => match before {
            Observed::Task { definition: old, enabled: old_enabled, .. } => {
                if definitions_semantically_equal(old, definition) && *enabled == *old_enabled {
                    match managed_task(manifest, path) {
                        Ok(task) => match &task.definition.registration.security_descriptor {
                            Some(d) => Confirmation::TaskSecurity(path.clone(), security_information_for_sddl(d), d.clone()),
                            None => Confirmation::Decided(false),
                        },
                        Err(_) => Confirmation::Decided(false),
                    }
                } else {
                    Confirmation::Decided(false)
                }
            },
            _ => Confirmation::Decided(false),
        },
        _ => Confirmation::Decided(false),
    }
}

/// Whether a descriptor read confirms a desired descriptor: it succeeded and
/// grants the same access.
pub fn confirmed_by(desired: &SecurityDescriptor, read: &Result<SecurityDescriptor, Error>) -> (r: bool)
    ensures
        r == (match read {
            Ok(actual) => access_key(actual@) == access_key(desired@),
            Err(_) => false,
        }),
{
    match read {
        Ok(actual) => actual.access_equivalent(desired),
        Err(_) => false,
    }
}

/// The error recorded when a change's target, read back after the change,
/// does not show it.
pub fn verification_conflict(change: &Change) -> (e: Error)
    ensures
        e@.kind == ErrorKind::Conflict,
        e@.target == Some(crate::reconcile::change_text(change@)),
        e@.message == "state after the change does not match the desired state"@,
        e@.operation is None,
        e@.native_code is None,
        e@.diagnostics.len() == 0,
        e@.context.len() == 0,
{
    let target: &str = match change {
        Change::CreateFolder(p) | Change::SetFolderSecurity(p) => p.as_str(),
        Change::CreateTask(p) | Change::UpdateTask(p) | Change::AdoptTask(p) | Change::DeleteTask(p)
        | Change::SetEnabled { path: p, .. } | Change::SetTaskSecurity(p) => p.as_str(),
    };
    Error::new(ErrorKind::Conflict, "state after the change does not match the desired state").with_target(target)
}

} // verus!
