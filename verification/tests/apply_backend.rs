use std::cell::RefCell;
use std::collections::BTreeMap;

use windows_task::client::SecurityInformation;
use windows_task::manifest::{ManagedTask, TaskManifest};
use windows_task::model::action::{Action, ExecAction};
use windows_task::model::principal::{LogonType, PrincipalIdentity};
use windows_task::model::{SecurityDescriptor, TaskDefinition};
use windows_task::reconcile::engine::{ApplyAction, ApplyEvent, ApplyRun, ApplyStage};
use windows_task::reconcile::operations::{
    compensation_for, desired_folder_descriptor, desired_task_descriptor, mutation_for, registered_definition,
    snapshot_requests, tolerated, Compensation, Mutation, SnapshotRequest, TaskBackupFacts,
};
use windows_task::reconcile::recovery::{information, Observed};
use windows_task::reconcile::{
    empty_apply_failure, inspected_task, password_backed, plan, security_information_for_sddl, task_path,
    ApplyFailure, ApplyOptions, ApplyPhase, ApplyReport, Change, CredentialPurpose, CurrentState, JournalEntry,
    Plan, RollbackFailure, StepOutcome,
};
use windows_task::xml::RawTaskXml;
use windows_task::{Error, ErrorKind, FolderPath, TaskPath};

// The apply driver below performs the library's apply actions against a
// backend, as the scheduler client does; the fake backend keeps tasks and
// folders in memory and injects faults.

/// A registered task as the scheduler reports it.
pub struct RegisteredTask {
    /// Its path.
    pub path: TaskPath,
    /// Its parsed definition, without descriptor.
    pub definition: TaskDefinition,
    /// Its effective enabled state.
    pub enabled: bool,
    /// Its XML as registered.
    pub raw: RawTaskXml,
}

/// Registration flags handed to the scheduler.
pub struct Registration {
    /// Whether the task must not exist yet.
    pub create: bool,
    /// Whether registration triggers are suppressed.
    pub ignore_registration_triggers: bool,
    /// Whether the principal ACE is left out of the folder.
    pub dont_add_principal_ace: bool,
    /// The password of a password-backed logon.
    pub password: Option<String>,
}

/// The scheduler operations that apply uses.
pub trait Backend {
    /// Reads one task.
    fn get_task(&self, path: &TaskPath) -> Result<RegisteredTask, Error>;
    /// Lists the tasks below a folder, recursively and including hidden ones.
    fn list_tasks(&self, path: &FolderPath) -> Result<Vec<RegisteredTask>, Error>;
    /// Lists the folders below a folder, recursively.
    fn list_folders(&self, path: &FolderPath) -> Result<Vec<(FolderPath, Option<SecurityDescriptor>)>, Error>;
    /// Reads sections of a task's descriptor.
    fn task_security(&self, path: &TaskPath, information: SecurityInformation) -> Result<SecurityDescriptor, Error>;
    /// Reads sections of a folder's descriptor.
    fn folder_security(&self, path: &FolderPath, information: SecurityInformation) -> Result<SecurityDescriptor, Error>;
    /// Registers a definition.
    fn register(&self, path: &TaskPath, definition: TaskDefinition, registration: Registration) -> Result<(), Error>;
    /// Registers backed-up XML again.
    fn register_raw(&self, path: &TaskPath, xml: RawTaskXml, logon_type: LogonType, registration: Registration) -> Result<(), Error>;
    /// Creates a folder.
    fn create_folder(&self, path: &FolderPath) -> Result<(), Error>;
    /// Deletes a folder.
    fn delete_folder(&self, path: &FolderPath) -> Result<(), Error>;
    /// Deletes a task.
    fn delete_task(&self, path: &TaskPath) -> Result<(), Error>;
    /// Sets a task's enabled state.
    fn set_enabled(&self, path: &TaskPath, enabled: bool) -> Result<(), Error>;
    /// Writes sections of a task's descriptor.
    fn set_task_security(&self, path: &TaskPath, descriptor: SecurityDescriptor, information: SecurityInformation) -> Result<(), Error>;
    /// Writes sections of a folder's descriptor.
    fn set_folder_security(&self, path: &FolderPath, descriptor: SecurityDescriptor, information: SecurityInformation) -> Result<(), Error>;
    /// Stops every running instance of a task.
    fn stop_all(&self, path: &TaskPath) -> Result<(), Error>;
}

/// Supplies registration passwords without plaintext flags.
pub trait CredentialResolver {
    /// The password for registering the task at `path`.
    fn registration_password(&mut self, path: &TaskPath, reference: Option<&str>, purpose: CredentialPurpose) -> Result<String, Error>;
}

/// A resolver that has no credentials: password-backed operations fail
/// safely while preparing.
pub struct NoCredentials;

impl CredentialResolver for NoCredentials {
    fn registration_password(&mut self, path: &TaskPath, _: Option<&str>, purpose: CredentialPurpose) -> Result<String, Error> {
        Err(windows_task::reconcile::NoCredentials.refusal(path, purpose))
    }
}

struct TaskBackup {
    raw: RawTaskXml,
    logon_type: LogonType,
    enabled: bool,
    security: Option<(SecurityDescriptor, SecurityInformation)>,
    password: Option<String>,
}

#[derive(Default)]
struct Prepared {
    task_backups: BTreeMap<String, TaskBackup>,
    enabled_backups: BTreeMap<String, bool>,
    task_security: BTreeMap<String, (SecurityDescriptor, SecurityInformation)>,
    folder_security: BTreeMap<String, (SecurityDescriptor, SecurityInformation)>,
    desired_passwords: BTreeMap<String, String>,
}

/// Native calls journaled for one phase of one change.
struct Recorder<'a> {
    change: &'a Change,
    phase: ApplyPhase,
    journal: Vec<JournalEntry>,
}

impl Recorder<'_> {
    fn call<T>(&mut self, operation: &str, call: impl FnOnce() -> Result<T, Error>) -> Result<T, Error> {
        let attempted = JournalEntry {
            operation: operation.to_owned(),
            change: self.change.clone(),
            phase: self.phase,
            outcome: StepOutcome::Attempted,
            error: None,
        };
        self.journal.push(attempted);
        let result = call();
        self.journal.push(JournalEntry {
            operation: operation.to_owned(),
            change: self.change.clone(),
            phase: self.phase,
            outcome: if result.is_ok() { StepOutcome::Succeeded } else { StepOutcome::Unknown },
            error: result.as_ref().err().cloned(),
        });
        result
    }
}

/// Inspects the managed namespace without changing it.
pub fn inspect(backend: &impl Backend, manifest: &TaskManifest) -> Result<CurrentState, Error> {
    let registered = match backend.list_tasks(&manifest.namespace) {
        Ok(tasks) => tasks,
        Err(error) if error.kind() == ErrorKind::NotFound => return Ok(CurrentState::default()),
        Err(error) => return Err(error),
    };
    let mut folders = vec![(manifest.namespace.clone(), None)];
    folders.extend(backend.list_folders(&manifest.namespace)?);
    for desired in &manifest.folders {
        if folders.iter().any(|(path, _)| *path == desired.path) {
            if let Some(expected) = desired_folder_descriptor(manifest, &desired.path) {
                let descriptor = backend.folder_security(&desired.path, security_information_for_sddl(expected))?;
                folders.push((desired.path.clone(), Some(descriptor)));
            }
        }
    }
    let mut tasks = Vec::with_capacity(registered.len());
    for task in registered {
        let mut definition = task.definition;
        if let Some(expected) = desired_task_descriptor(manifest, &task.path) {
            definition.registration.security_descriptor =
                Some(backend.task_security(&task.path, security_information_for_sddl(expected))?);
        }
        tasks.push(inspected_task(manifest, task.path, definition, task.enabled));
    }
    Ok(CurrentState { tasks, folders })
}

fn folder_of(change: &Change) -> Option<&FolderPath> {
    match change {
        Change::CreateFolder(path) | Change::SetFolderSecurity(path) => Some(path),
        _ => None,
    }
}

/// Reads the target of a change.
pub fn observe(backend: &impl Backend, manifest: &TaskManifest, change: &Change, allow_irreversible: bool) -> Result<Observed, Error> {
    let sections = information(manifest, change);
    if let Some(path) = task_path(change) {
        let task = match backend.get_task(path) {
            Ok(task) => task,
            Err(error) if error.kind() == ErrorKind::NotFound => return Ok(Observed::Missing),
            Err(error) => return Err(error),
        };
        let mut definition = task.definition;
        definition.registration.date = None;
        definition.registration.security_descriptor = None;
        let security = tolerated(backend.task_security(path, sections), allow_irreversible)?;
        return Ok(Observed::Task { definition, enabled: task.enabled, security });
    }
    let Some(path) = folder_of(change) else {
        return Err(Error::new(ErrorKind::Other, "change has no target"));
    };
    match backend.folder_security(path, sections) {
        Ok(security) => Ok(Observed::Folder(Some(security))),
        Err(error) if error.kind() == ErrorKind::NotFound => Ok(Observed::Missing),
        Err(error) => {
            tolerated::<SecurityDescriptor>(Err(error), allow_irreversible)?;
            backend.list_folders(path)?;
            Ok(Observed::Folder(None))
        }
    }
}

fn prepare(
    backend: &impl Backend,
    manifest: &TaskManifest,
    plan: &Plan,
    allow_irreversible: bool,
    resolver: &mut dyn CredentialResolver,
    prepared: &mut Prepared,
) -> Result<(), Error> {
    for request in snapshot_requests(manifest, plan) {
        match request {
            SnapshotRequest::DesiredPassword(path, reference) => {
                let password = resolver.registration_password(&path, reference.as_deref(), CredentialPurpose::DesiredRegistration)?;
                prepared.desired_passwords.insert(path.as_str().to_owned(), password);
            }
            SnapshotRequest::TaskBackup(path, reference, sections) => {
                let task = backend.get_task(&path)?;
                let logon_type = task.definition.principal.logon_type;
                let password = if password_backed(logon_type) {
                    let read = resolver.registration_password(&path, reference.as_deref(), CredentialPurpose::Rollback);
                    tolerated(read, allow_irreversible)?
                } else {
                    None
                };
                let security = tolerated(backend.task_security(&path, sections), allow_irreversible)?
                    .map(|descriptor| (descriptor, sections));
                let backup = TaskBackup { raw: task.raw, logon_type, enabled: task.enabled, security, password };
                prepared.task_backups.insert(path.as_str().to_owned(), backup);
            }
            SnapshotRequest::EnabledBackup(path) => {
                let task = backend.get_task(&path)?;
                prepared.enabled_backups.insert(path.as_str().to_owned(), task.enabled);
            }
            SnapshotRequest::TaskSecurity(path, sections) => {
                if let Some(descriptor) = tolerated(backend.task_security(&path, sections), allow_irreversible)? {
                    prepared.task_security.insert(path.as_str().to_owned(), (descriptor, sections));
                }
            }
            SnapshotRequest::FolderSecurity(path, sections) => {
                if let Some(descriptor) = tolerated(backend.folder_security(&path, sections), allow_irreversible)? {
                    prepared.folder_security.insert(path.as_str().to_owned(), (descriptor, sections));
                }
            }
            SnapshotRequest::Invalid(error) => return Err(error),
        }
    }
    Ok(())
}

fn desired_definition(manifest: &TaskManifest, path: &TaskPath) -> Result<TaskDefinition, Error> {
    manifest
        .tasks
        .iter()
        .find(|task| task.path == *path)
        .map(|task| task.definition.clone())
        .ok_or_else(|| Error::new(ErrorKind::InvalidDefinition, "planned task is absent from the manifest").with_target(path.as_str()))
}

fn execute(
    backend: &impl Backend,
    manifest: &TaskManifest,
    change: &Change,
    options: ApplyOptions,
    prepared: &mut Prepared,
    recorder: &mut Recorder<'_>,
) -> Result<(), Error> {
    let backup = task_path(change)
        .and_then(|path| prepared.task_backups.get(path.as_str()))
        .and_then(|backup| backup.security.as_ref())
        .map(|(descriptor, _)| descriptor.clone());
    match mutation_for(manifest, change, options, backup.as_ref())? {
        Mutation::CreateFolder(path) => recorder.call("create_folder", || backend.create_folder(&path)),
        Mutation::Register { path, source, security_descriptor, create, ignore_registration_triggers, dont_add_principal_ace } => {
            let definition = registered_definition(desired_definition(manifest, &path)?, &path, source, security_descriptor);
            let registration = Registration {
                create,
                ignore_registration_triggers,
                dont_add_principal_ace,
                password: prepared.desired_passwords.remove(path.as_str()),
            };
            recorder.call("register", || backend.register(&path, definition, registration))?;
            recorder.call("get_task", || backend.get_task(&path)).map(|_| ())
        }
        Mutation::DeleteTask(path) => recorder.call("delete_task", || backend.delete_task(&path)),
        Mutation::SetEnabled(path, enabled) => recorder.call("set_enabled", || backend.set_enabled(&path, enabled)),
        Mutation::SetTaskSecurity(path, descriptor, sections) => {
            recorder.call("set_task_security", || backend.set_task_security(&path, descriptor, sections))
        }
        Mutation::SetFolderSecurity(path, descriptor, sections) => {
            recorder.call("set_folder_security", || backend.set_folder_security(&path, descriptor, sections))
        }
    }
}

fn compensate(
    backend: &impl Backend,
    change: &Change,
    options: ApplyOptions,
    prepared: &mut Prepared,
    recorder: &mut Recorder<'_>,
) -> Result<(), Error> {
    let key = task_path(change).map(|path| path.as_str().to_owned()).or_else(|| folder_of(change).map(|path| path.as_str().to_owned()));
    let key = key.unwrap_or_default();
    let facts = prepared.task_backups.get(&key).map(|backup| TaskBackupFacts {
        logon_type: backup.logon_type,
        has_password: backup.password.is_some(),
    });
    let enabled = prepared.enabled_backups.get(&key).copied();
    let task_security = prepared.task_security.contains_key(&key);
    let folder_security = prepared.folder_security.contains_key(&key);
    match compensation_for(change, options, facts, enabled, task_security, folder_security)? {
        Compensation::DeleteFolder(path) => recorder.call("delete_folder", || backend.delete_folder(&path)),
        Compensation::DeleteTask(path, stop_first) => {
            if stop_first {
                recorder.call("stop_all", || backend.stop_all(&path))?;
            }
            recorder.call("delete_task", || backend.delete_task(&path))
        }
        Compensation::RestoreTask(path, ignore_registration_triggers) => {
            let Some(backup) = prepared.task_backups.remove(&key) else {
                return Err(Error::new(ErrorKind::Irreversible, "task rollback snapshot is unavailable").with_target(path.as_str()));
            };
            let registration = Registration {
                create: false,
                ignore_registration_triggers,
                dont_add_principal_ace: false,
                password: backup.password,
            };
            recorder.call("register_raw", || backend.register_raw(&path, backup.raw, backup.logon_type, registration))?;
            let enabled = recorder.call("set_enabled", || backend.set_enabled(&path, backup.enabled));
            let security = match backup.security {
                Some((descriptor, sections)) => {
                    recorder.call("set_task_security", || backend.set_task_security(&path, descriptor, sections))
                }
                None => Ok(()),
            };
            enabled.and(security)
        }
        Compensation::RestoreEnabled(path, enabled) => recorder.call("set_enabled", || backend.set_enabled(&path, enabled)),
        Compensation::RestoreTaskSecurity(path) => match prepared.task_security.get(&key) {
            Some((descriptor, sections)) => {
                let (descriptor, sections) = (descriptor.clone(), *sections);
                recorder.call("set_task_security", || backend.set_task_security(&path, descriptor, sections))
            }
            None => Err(Error::new(ErrorKind::Irreversible, "task security snapshot is unavailable").with_target(path.as_str())),
        },
        Compensation::RestoreFolderSecurity(path) => match prepared.folder_security.remove(&key) {
            Some((descriptor, sections)) => {
                recorder.call("set_folder_security", || backend.set_folder_security(&path, descriptor, sections))
            }
            None => Err(Error::new(ErrorKind::Irreversible, "folder security snapshot is unavailable").with_target(path.as_str())),
        },
    }
}

/// Applies a manifest: inspects, plans, prepares every snapshot and
/// credential, then performs each change behind its precondition read and
/// read-back, compensating the applied changes in reverse order on failure.
pub fn apply(
    backend: &impl Backend,
    manifest: &TaskManifest,
    options: ApplyOptions,
    resolver: &mut dyn CredentialResolver,
) -> Result<ApplyReport, ApplyFailure> {
    let state = if manifest.validate().is_valid() {
        inspect(backend, manifest).map_err(empty_apply_failure)?
    } else {
        CurrentState::default()
    };
    let (mut run, mut action) = ApplyRun::start(manifest, state, options)?;
    let plan = run.plan().clone();
    let mut prepared = Prepared::default();
    loop {
        let event = match action {
            ApplyAction::Observe(change) => ApplyEvent::Observed(observe(backend, manifest, &change, options.allow_irreversible)),
            ApplyAction::ReadTaskSecurity(path, sections) => ApplyEvent::SecurityRead(backend.task_security(&path, sections)),
            ApplyAction::ReadFolderSecurity(path, sections) => ApplyEvent::SecurityRead(backend.folder_security(&path, sections)),
            ApplyAction::Prepare => {
                ApplyEvent::Prepared(prepare(backend, manifest, &plan, options.allow_irreversible, resolver, &mut prepared))
            }
            ApplyAction::Stop(path) => ApplyEvent::Stopped(backend.stop_all(&path)),
            ApplyAction::Execute(change, snapshot) => {
                if let (Some(path), Some(snapshot)) = (folder_of(&change), snapshot) {
                    prepared.folder_security.entry(path.as_str().to_owned()).or_insert(snapshot);
                }
                let mut recorder = Recorder { change: &change, phase: ApplyPhase::Mutation, journal: Vec::new() };
                let result = execute(backend, manifest, &change, options, &mut prepared, &mut recorder);
                ApplyEvent::Executed(result, recorder.journal)
            }
            ApplyAction::Compensate(change) => {
                let mut recorder = Recorder { change: &change, phase: ApplyPhase::Rollback, journal: Vec::new() };
                let result = compensate(backend, &change, options, &mut prepared, &mut recorder);
                ApplyEvent::Compensated(result, recorder.journal)
            }
            ApplyAction::Finish => {
                if run.stage() != ApplyStage::Done {
                    return Err(empty_apply_failure(Error::new(ErrorKind::Other, "apply finished before it was done")));
                }
                return run.finish();
            }
        };
        if !run.awaits_event(&event) {
            return Err(empty_apply_failure(Error::new(ErrorKind::Other, "apply answered out of order")));
        }
        action = run.step(manifest, event);
    }
}


#[derive(Clone, Debug, Default, Eq, PartialEq)]
struct State {
    tasks: BTreeMap<String, (TaskPath, TaskDefinition)>,
    folders: BTreeMap<String, (FolderPath, SecurityDescriptor)>,
}

struct Fault {
    operation: &'static str,
    occurrence: usize,
    after: bool,
}

struct Record {
    create: bool,
    suppress_triggers: bool,
    has_password: bool,
    preserve_acl: bool,
    raw: bool,
}

#[derive(Default)]
struct Fake {
    state: RefCell<State>,
    calls: RefCell<Vec<&'static str>>,
    faults: RefCell<Vec<Fault>>,
    registrations: RefCell<Vec<Record>>,
}

fn acl() -> SecurityDescriptor {
    SecurityDescriptor::from_sddl("D:(A;;GA;;;SY)").expect("fixture ACL")
}

fn missing() -> Error {
    Error::new(ErrorKind::NotFound, "fixture object absent")
}

impl Fake {
    fn invoke<T>(&self, name: &'static str, operation: impl FnOnce(&mut State) -> Result<T, Error>) -> Result<T, Error> {
        self.calls.borrow_mut().push(name);
        let occurrence = self.calls.borrow().iter().filter(|call| **call == name).count();
        let index = self
            .faults
            .borrow()
            .iter()
            .position(|fault| fault.operation == name && fault.occurrence == occurrence);
        let fault = index.map(|index| self.faults.borrow_mut().remove(index));
        if fault.as_ref().is_some_and(|fault| !fault.after) {
            return Err(Error::new(ErrorKind::AccessDenied, "injected before operation"));
        }
        let result = operation(&mut self.state.borrow_mut());
        if fault.is_some() {
            return Err(Error::new(ErrorKind::SchedulerUnavailable, "injected response loss"));
        }
        result
    }

    fn fail(&self, operation: &'static str, occurrence: usize, after: bool) {
        self.faults.borrow_mut().push(Fault { operation, occurrence, after });
    }

    fn record(&self, registration: &Registration, raw: bool) {
        self.registrations.borrow_mut().push(Record {
            create: registration.create,
            suppress_triggers: registration.ignore_registration_triggers,
            has_password: registration.password.is_some(),
            preserve_acl: registration.dont_add_principal_ace,
            raw,
        });
    }
}

fn registered(path: &TaskPath, definition: &TaskDefinition) -> Result<RegisteredTask, Error> {
    let mut xml_definition = definition.clone();
    xml_definition.registration.security_descriptor = None;
    let raw = RawTaskXml::new(windows_task::xml::to_string(&xml_definition)?.into_bytes())?;
    let definition = raw.definition()?;
    Ok(RegisteredTask { path: path.clone(), enabled: definition.settings.enabled, definition, raw })
}

impl Backend for Fake {
    fn get_task(&self, path: &TaskPath) -> Result<RegisteredTask, Error> {
        self.invoke("get_task", |state| {
            let (_, definition) = state.tasks.get(path.as_str()).ok_or_else(missing)?;
            registered(path, definition)
        })
    }
    fn list_tasks(&self, path: &FolderPath) -> Result<Vec<RegisteredTask>, Error> {
        self.invoke("list_tasks", |state| {
            if !state.folders.contains_key(path.as_str()) {
                return Err(missing());
            }
            state.tasks.values().map(|(path, definition)| registered(path, definition)).collect()
        })
    }
    fn list_folders(&self, path: &FolderPath) -> Result<Vec<(FolderPath, Option<SecurityDescriptor>)>, Error> {
        self.invoke("list_folders", |state| {
            if !state.folders.contains_key(path.as_str()) {
                return Err(missing());
            }
            Ok(state
                .folders
                .values()
                .filter(|(folder, _)| folder.as_str() != path.as_str())
                .map(|(folder, _)| (folder.clone(), None))
                .collect())
        })
    }
    fn task_security(&self, path: &TaskPath, _: SecurityInformation) -> Result<SecurityDescriptor, Error> {
        self.invoke("task_security", |state| {
            let (_, definition) = state.tasks.get(path.as_str()).ok_or_else(missing)?;
            Ok(definition.registration.security_descriptor.clone().unwrap_or_else(acl))
        })
    }
    fn folder_security(&self, path: &FolderPath, _: SecurityInformation) -> Result<SecurityDescriptor, Error> {
        self.invoke("folder_security", |state| {
            state.folders.get(path.as_str()).map(|(_, descriptor)| descriptor.clone()).ok_or_else(missing)
        })
    }
    fn register(&self, path: &TaskPath, mut definition: TaskDefinition, registration: Registration) -> Result<(), Error> {
        self.record(&registration, false);
        self.invoke("register", |state| {
            definition.registration.security_descriptor.get_or_insert_with(acl);
            state.tasks.insert(path.as_str().to_owned(), (path.clone(), definition));
            Ok(())
        })
    }
    fn register_raw(&self, path: &TaskPath, xml: RawTaskXml, _: LogonType, registration: Registration) -> Result<(), Error> {
        self.record(&registration, true);
        self.invoke("register_raw", |state| {
            let mut definition = xml.definition()?;
            definition.registration.security_descriptor.get_or_insert_with(acl);
            state.tasks.insert(path.as_str().to_owned(), (path.clone(), definition));
            Ok(())
        })
    }
    fn create_folder(&self, path: &FolderPath) -> Result<(), Error> {
        self.invoke("create_folder", |state| {
            state.folders.insert(path.as_str().to_owned(), (path.clone(), acl()));
            Ok(())
        })
    }
    fn delete_folder(&self, path: &FolderPath) -> Result<(), Error> {
        self.invoke("delete_folder", |state| {
            if state.tasks.values().any(|(task, _)| task.folder().as_str() == path.as_str()) {
                return Err(Error::new(ErrorKind::Conflict, "folder not empty"));
            }
            state.folders.remove(path.as_str()).ok_or_else(missing)?;
            Ok(())
        })
    }
    fn delete_task(&self, path: &TaskPath) -> Result<(), Error> {
        self.invoke("delete_task", |state| {
            state.tasks.remove(path.as_str()).ok_or_else(missing)?;
            Ok(())
        })
    }
    fn set_enabled(&self, path: &TaskPath, enabled: bool) -> Result<(), Error> {
        self.invoke("set_enabled", |state| {
            state.tasks.get_mut(path.as_str()).ok_or_else(missing)?.1.settings.enabled = enabled;
            Ok(())
        })
    }
    fn set_task_security(&self, path: &TaskPath, descriptor: SecurityDescriptor, _: SecurityInformation) -> Result<(), Error> {
        self.invoke("set_task_security", |state| {
            state.tasks.get_mut(path.as_str()).ok_or_else(missing)?.1.registration.security_descriptor = Some(descriptor);
            Ok(())
        })
    }
    fn set_folder_security(&self, path: &FolderPath, descriptor: SecurityDescriptor, _: SecurityInformation) -> Result<(), Error> {
        self.invoke("set_folder_security", |state| {
            state.folders.get_mut(path.as_str()).ok_or_else(missing)?.1 = descriptor;
            Ok(())
        })
    }
    fn stop_all(&self, _: &TaskPath) -> Result<(), Error> {
        self.invoke("stop_all", |_| Ok(()))
    }
}

fn fixture(count: usize) -> (Fake, TaskManifest) {
    let backend = Fake::default();
    let namespace: FolderPath = "\\Test".parse().expect("fixture namespace");
    backend.state.borrow_mut().folders.insert(namespace.as_str().to_owned(), (namespace.clone(), acl()));
    let mut manifest = TaskManifest::new(0, "fault-tests", namespace.clone());
    for index in 0..count {
        manifest.tasks.push(ManagedTask {
            path: namespace.task(&format!("Task{index}")).expect("fixture path"),
            definition: TaskDefinition::new(Action::Exec(ExecAction::new("fixture.exe"))),
            credentials: Default::default(),
        });
    }
    (backend, manifest)
}

fn apply_fixture(backend: &Fake, manifest: &TaskManifest) {
    apply(backend, manifest, ApplyOptions::default(), &mut NoCredentials).expect("fixture apply");
}

struct Passwords<'a> {
    requests: &'a mut Vec<CredentialPurpose>,
}

impl CredentialResolver for Passwords<'_> {
    fn registration_password(&mut self, _: &TaskPath, reference: Option<&str>, purpose: CredentialPurpose) -> Result<String, Error> {
        assert_eq!(reference, Some("fixture-reference"));
        self.requests.push(purpose);
        Ok("controlled-test-password".to_owned())
    }
}

fn all_sections() -> SecurityInformation {
    SecurityInformation::owner()
        .union(SecurityInformation::group())
        .union(SecurityInformation::dacl())
        .union(SecurityInformation::sacl())
}

#[test]
fn successful_apply_is_idempotent() {
    let (backend, manifest) = fixture(2);
    let first = apply(&backend, &manifest, ApplyOptions::default(), &mut NoCredentials).expect("first apply");
    assert!(first.succeeded());
    assert!(!first.journal.is_empty());
    let second = apply(&backend, &manifest, ApplyOptions::default(), &mut NoCredentials).expect("second apply");
    assert!(second.plan.is_empty());
}

#[test]
fn missing_credentials_prevents_any_registration() {
    let (backend, mut manifest) = fixture(1);
    manifest.tasks[0].definition.principal.identity = PrincipalIdentity::User("fixture-user".into());
    manifest.tasks[0].definition.principal.logon_type = LogonType::Password;
    let failure = apply(&backend, &manifest, ApplyOptions::default(), &mut NoCredentials).expect_err("missing password");
    assert_eq!(failure.cause.kind(), ErrorKind::Authentication);
    assert!(!backend.calls.borrow().contains(&"register"));
}

#[test]
fn sequential_changes_to_one_target_share_preconditions_and_reverse_in_order() {
    for fail_after_changes in [false, true] {
        let (backend, mut manifest) = fixture(2);
        apply_fixture(&backend, &manifest);
        let before = backend.state.borrow().clone();
        manifest.tasks[0].definition.settings.enabled = false;
        manifest.tasks[0].definition.registration.security_descriptor =
            Some(SecurityDescriptor::from_sddl("D:(A;;GR;;;SY)").expect("new task ACL"));
        let folder = manifest.namespace.join("New").expect("child folder");
        manifest.folders.push(windows_task::manifest::ManagedFolder { path: folder.clone(), security_descriptor: Some(acl()) });
        manifest.tasks.truncate(1);
        if fail_after_changes {
            backend.fail("delete_task", 1, false);
        }
        let options = ApplyOptions { prune: true, ..ApplyOptions::default() };
        let result = apply(&backend, &manifest, options, &mut NoCredentials);
        if fail_after_changes {
            let failure = result.expect_err("final prune is denied");
            assert!(failure.report.rollback_complete(), "{:?}", failure.report.rollback_failures);
            assert_eq!(*backend.state.borrow(), before);
        } else {
            let report = result.expect("multiple changes on same target");
            assert!(report.succeeded());
            assert_eq!(report.applied.len(), 5);
            assert!(backend.state.borrow().folders.contains_key(folder.as_str()));
            assert!(!backend.state.borrow().tasks[manifest.tasks[0].path.as_str()].1.settings.enabled);
            assert!(apply(&backend, &manifest, options, &mut NoCredentials).expect("second apply").plan.is_empty());
        }
    }
}

#[test]
fn native_registration_contract_preserves_credentials_flags_and_compensation_mode() {
    for suppress in [false, true] {
        let (backend, mut manifest) = fixture(1);
        manifest.tasks[0].credentials.registration = Some("fixture-reference".into());
        manifest.tasks[0].definition.principal.identity = PrincipalIdentity::User("fixture-user".into());
        manifest.tasks[0].definition.principal.logon_type = LogonType::Password;
        manifest.tasks[0].definition.registration.security_descriptor = Some(acl());
        let options = ApplyOptions { ignore_registration_triggers: suppress, ..ApplyOptions::default() };
        let mut requests = Vec::new();
        apply(&backend, &manifest, options, &mut Passwords { requests: &mut requests }).expect("initial registration");
        {
            let records = backend.registrations.borrow();
            assert_eq!(records.len(), 1);
            assert!(records[0].create);
            assert_eq!(records[0].suppress_triggers, suppress);
            assert!(records[0].has_password);
            assert!(records[0].preserve_acl);
            assert!(!records[0].raw)
        };
        let before = backend.state.borrow().clone();
        backend.registrations.borrow_mut().clear();
        backend.calls.borrow_mut().clear();
        manifest.tasks[0].definition.registration.description = Some("update".into());
        backend.fail("register", 1, true);
        let failure = apply(&backend, &manifest, options, &mut Passwords { requests: &mut requests })
            .expect_err("lost update reply");
        assert!(failure.report.rollback_complete());
        assert_eq!(*backend.state.borrow(), before);
        assert_eq!(requests.iter().filter(|purpose| **purpose == CredentialPurpose::Rollback).count(), 1);
        let records = backend.registrations.borrow();
        assert_eq!(records.len(), 2);
        for record in records.iter() {
            assert!(!record.create);
            assert_eq!(record.suppress_triggers, suppress);
            assert!(record.has_password, "both desired and rollback passwords reach native registration");
        }
        assert!(!records[0].raw);
        assert!(records[1].raw);
    }
}

#[test]
fn reports_distinguish_each_incomplete_state() {
    let (backend, manifest) = fixture(1);
    let success = apply(&backend, &manifest, ApplyOptions::default(), &mut NoCredentials).expect("successful fixture");
    let change = success.applied[0].clone();
    for variant in 0..4 {
        let mut report = success.clone();
        match variant {
            0 => {
                report.applied.clear();
            }
            1 => {
                report.rolled_back.push(change.clone());
            }
            2 => report.rollback_failures.push(RollbackFailure {
                change: change.clone(),
                phase: ApplyPhase::Rollback,
                error: Error::new(ErrorKind::AccessDenied, "denied").with_native_code(5),
            }),
            _ => report.unresolved.push(change.clone()),
        }
        assert!(!report.succeeded(), "incomplete report variant {variant}");
    }
    let cause = Error::new(ErrorKind::Conflict, "changed externally");
    let mut failure = ApplyFailure { cause: cause.clone(), report: success };
    assert_eq!(failure.message(), cause.to_string());
    assert_eq!(failure.cause.to_string(), cause.to_string(), "source");
    failure.report.rollback_failures.push(RollbackFailure { change, phase: ApplyPhase::Rollback, error: cause });
    assert!(failure.message().ends_with("; 1 rollback step(s) also failed"));
}

#[test]
fn inspection_errors_and_invalid_manifests_never_become_empty_successes() {
    let (backend, manifest) = fixture(1);
    backend.fail("list_tasks", 1, false);
    assert_eq!(inspect(&backend, &manifest).err().expect("denied listing").kind(), ErrorKind::AccessDenied);
    let mut invalid = manifest.clone();
    invalid.tasks.push(invalid.tasks[0].clone());
    let before = backend.calls.borrow().len();
    assert_eq!(plan(&invalid, Vec::new(), false).expect_err("duplicate task").kind(), ErrorKind::InvalidDefinition);
    apply(&backend, &invalid, ApplyOptions::default(), &mut NoCredentials).expect_err("invalid manifest");
    assert_eq!(backend.calls.borrow().len(), before, "validation precedes backend calls");
    assert!(!plan(&manifest, Vec::new(), false).expect("offline plan").is_empty());
}

#[test]
fn journal_records_preconditions_and_exact_security_sections() {
    let (backend, mut manifest) = fixture(1);
    let descriptor = SecurityDescriptor::from_sddl("O:SYG:BAD:(A;;GA;;;SY)S:(AU;SA;GR;;;WD)").expect("all sections");
    assert_eq!(security_information_for_sddl(&descriptor), all_sections());
    manifest.tasks[0].definition.registration.security_descriptor = Some(descriptor);
    assert_eq!(information(&manifest, &Change::UpdateTask(manifest.tasks[0].path.clone())), all_sections());
    let report = apply(&backend, &manifest, ApplyOptions::default(), &mut NoCredentials).expect("apply");
    for (phase, outcome) in [(ApplyPhase::Precondition, StepOutcome::Succeeded), (ApplyPhase::Mutation, StepOutcome::Attempted)] {
        assert!(report.journal.iter().any(|entry| entry.phase == phase && entry.outcome == outcome));
    }
}
