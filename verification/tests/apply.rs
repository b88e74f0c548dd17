use windows_task::manifest::{ManagedTask, TaskManifest};
use windows_task::model::principal::LogonType;
use windows_task::model::{Action, ExecAction, SecurityDescriptor, TaskDefinition};
use windows_task::reconcile::engine::{ApplyAction, ApplyEvent, ApplyRun, ApplyStage};
use windows_task::reconcile::operations::{
    compensation_for, desired_task_descriptor, owned_definition, mutation_for, registered_definition, snapshot_requests,
    tolerated, Compensation, Mutation, SnapshotRequest, TaskBackupFacts,
};
use windows_task::reconcile::recovery::Observed;
use windows_task::reconcile::{
    ApplyOptions, ApplyPhase, Change, CurrentState, CurrentTask, Plan, PlannedChange,
    RollbackSafety, StepOutcome,
};
use windows_task::{Error, ErrorKind, FolderPath, TaskPath};

fn definition() -> TaskDefinition {
    let mut definition = TaskDefinition::default();
    definition
        .actions
        .push(Action::Exec(ExecAction::new("cmd.exe")))
        .expect("action");
    definition
}

fn namespace() -> FolderPath {
    "\\Acme".parse().expect("namespace")
}

fn manifest_with(path: &TaskPath) -> TaskManifest {
    let mut manifest = TaskManifest::new(0, "tests", namespace());
    manifest.tasks.push(ManagedTask {
        path: path.clone(),
        definition: definition(),
        credentials: Default::default(),
    });
    manifest
}

/// What the scheduler shows after registering the desired definition.
fn registered(manifest: &TaskManifest, path: &TaskPath) -> Observed {
    let mut definition = definition();
    definition.registration.source = Some(manifest.ownership_uri(path));
    definition.registration.uri = Some(path.as_str().to_string());
    Observed::Task {
        definition,
        enabled: true,
        security: None,
    }
}

fn observe(run: &mut ApplyRun, manifest: &TaskManifest, observed: Result<Observed, Error>) -> ApplyAction {
    run.step(manifest, ApplyEvent::Observed(observed))
}

fn observed_change(action: &ApplyAction) -> Change {
    match action {
        ApplyAction::Observe(change) => change.clone(),
        _ => panic!("expected an observation"),
    }
}

#[test]
fn successful_create_applies_every_change_with_evidence() {
    let path: TaskPath = "\\Acme\\Backup".parse().expect("path");
    let manifest = manifest_with(&path);
    let state = CurrentState {
        tasks: Vec::new(),
        folders: vec![(namespace(), None)],
    };
    let (mut run, action) =
        ApplyRun::start(&manifest, state, ApplyOptions::default()).expect("plan");
    assert_eq!(observed_change(&action), Change::CreateTask(path.clone()));
    assert!(matches!(observe(&mut run, &manifest, Ok(Observed::Missing)), ApplyAction::Prepare));
    let action = run.step(&manifest, ApplyEvent::Prepared(Ok(())));
    assert_eq!(observed_change(&action), Change::CreateTask(path.clone()));
    let action = observe(&mut run, &manifest, Ok(Observed::Missing));
    assert!(matches!(&action, ApplyAction::Execute(Change::CreateTask(p), None) if *p == path));
    let action = run.step(&manifest, ApplyEvent::Executed(Ok(()), Vec::new()));
    assert_eq!(observed_change(&action), Change::CreateTask(path.clone()));
    let after = registered(&manifest, &path);
    assert!(matches!(observe(&mut run, &manifest, Ok(after)), ApplyAction::Finish));
    assert_eq!(run.stage(), ApplyStage::Done);
    let report = run.finish().expect("success");
    assert!(report.succeeded());
    assert_eq!(report.applied, vec![Change::CreateTask(path)]);
    let phases: Vec<(ApplyPhase, StepOutcome)> =
        report.journal.iter().map(|entry| (entry.phase, entry.outcome)).collect();
    assert_eq!(
        phases,
        vec![
            (ApplyPhase::Precondition, StepOutcome::Succeeded),
            (ApplyPhase::Mutation, StepOutcome::Attempted),
            (ApplyPhase::Mutation, StepOutcome::Succeeded),
            (ApplyPhase::Verify, StepOutcome::Succeeded),
        ]
    );
    assert_eq!(report.journal[0].operation, "Precondition");
}

#[test]
fn registration_response_loss_is_read_back_and_compensated() {
    let path: TaskPath = "\\Acme\\Backup".parse().expect("path");
    let manifest = manifest_with(&path);
    let state = CurrentState {
        tasks: Vec::new(),
        folders: vec![(namespace(), None)],
    };
    let (mut run, _) = ApplyRun::start(&manifest, state, ApplyOptions::default()).expect("plan");
    observe(&mut run, &manifest, Ok(Observed::Missing));
    run.step(&manifest, ApplyEvent::Prepared(Ok(())));
    observe(&mut run, &manifest, Ok(Observed::Missing));
    let lost = Error::new(ErrorKind::SchedulerUnavailable, "response lost");
    run.step(&manifest, ApplyEvent::Executed(Err(lost), Vec::new()));
    let action = observe(&mut run, &manifest, Ok(registered(&manifest, &path)));
    assert_eq!(observed_change(&action), Change::CreateTask(path.clone()));
    assert!(matches!(run.stage(), ApplyStage::RollbackCheck(0)));
    let action = observe(&mut run, &manifest, Ok(registered(&manifest, &path)));
    assert!(matches!(&action, ApplyAction::Compensate(Change::CreateTask(p)) if *p == path));
    run.step(&manifest, ApplyEvent::Compensated(Ok(()), Vec::new()));
    assert!(matches!(observe(&mut run, &manifest, Ok(Observed::Missing)), ApplyAction::Finish));
    let failure = run.finish().expect_err("the lost response fails the apply");
    assert_eq!(failure.cause.kind(), ErrorKind::SchedulerUnavailable);
    assert_eq!(failure.report.applied, vec![Change::CreateTask(path.clone())]);
    assert_eq!(failure.report.rolled_back, vec![Change::CreateTask(path)]);
    assert!(failure.report.rollback_complete());
}

#[test]
fn permission_failure_during_preflight_changes_nothing() {
    let path: TaskPath = "\\Acme\\Backup".parse().expect("path");
    let manifest = manifest_with(&path);
    let (mut run, _) =
        ApplyRun::start(&manifest, CurrentState::default(), ApplyOptions::default()).expect("plan");
    let denied = Error::new(ErrorKind::AccessDenied, "denied");
    assert!(matches!(observe(&mut run, &manifest, Err(denied)), ApplyAction::Finish));
    let failure = run.finish().expect_err("denied");
    assert_eq!(failure.cause.kind(), ErrorKind::AccessDenied);
    assert!(failure.report.journal.is_empty());
    assert!(failure.report.applied.is_empty());
}

#[test]
fn drift_after_preparation_is_rejected_before_mutation() {
    let path: TaskPath = "\\Acme\\Backup".parse().expect("path");
    let manifest = manifest_with(&path);
    let state = CurrentState {
        tasks: Vec::new(),
        folders: vec![(namespace(), None)],
    };
    let (mut run, _) = ApplyRun::start(&manifest, state, ApplyOptions::default()).expect("plan");
    observe(&mut run, &manifest, Ok(Observed::Missing));
    run.step(&manifest, ApplyEvent::Prepared(Ok(())));
    let foreign = Observed::Task {
        definition: definition(),
        enabled: true,
        security: None,
    };
    assert!(matches!(observe(&mut run, &manifest, Ok(foreign)), ApplyAction::Finish));
    let failure = run.finish().expect_err("drift");
    assert_eq!(failure.cause.kind(), ErrorKind::Conflict);
    assert_eq!(failure.cause.message(), "state changed during preflight");
    assert_eq!(failure.report.journal.len(), 1);
    assert_eq!(failure.report.journal[0].outcome, StepOutcome::Failed);
    assert!(failure.report.applied.is_empty());
}

#[test]
fn preflight_disagreement_with_inspection_is_a_conflict() {
    let path: TaskPath = "\\Acme\\Backup".parse().expect("path");
    let manifest = manifest_with(&path);
    let state = CurrentState {
        tasks: Vec::new(),
        folders: vec![(namespace(), None)],
    };
    let (mut run, _) = ApplyRun::start(&manifest, state, ApplyOptions::default()).expect("plan");
    let present = registered(&manifest, &path);
    assert!(matches!(observe(&mut run, &manifest, Ok(present)), ApplyAction::Finish));
    let failure = run.finish().expect_err("conflict");
    assert_eq!(failure.cause.message(), "state changed between planning and preflight");
    assert!(failure.report.journal.is_empty());
}

#[test]
fn failed_compensation_does_not_skip_earlier_changes() {
    let path: TaskPath = "\\Acme\\Jobs\\Backup".parse().expect("path");
    let manifest = manifest_with(&path);
    let acme = namespace();
    let jobs: FolderPath = "\\Acme\\Jobs".parse().expect("folder");
    let (mut run, action) =
        ApplyRun::start(&manifest, CurrentState::default(), ApplyOptions::default()).expect("plan");
    assert_eq!(observed_change(&action), Change::CreateFolder(acme.clone()));
    observe(&mut run, &manifest, Ok(Observed::Missing));
    observe(&mut run, &manifest, Ok(Observed::Missing));
    observe(&mut run, &manifest, Ok(Observed::Missing));
    run.step(&manifest, ApplyEvent::Prepared(Ok(())));
    for _ in 0..2 {
        observe(&mut run, &manifest, Ok(Observed::Missing));
        run.step(&manifest, ApplyEvent::Executed(Ok(()), Vec::new()));
        observe(&mut run, &manifest, Ok(Observed::Folder(None)));
    }
    observe(&mut run, &manifest, Ok(Observed::Missing));
    let refused = Error::new(ErrorKind::AccessDenied, "refused");
    run.step(&manifest, ApplyEvent::Executed(Err(refused), Vec::new()));
    let action = observe(&mut run, &manifest, Ok(Observed::Missing));
    assert_eq!(observed_change(&action), Change::CreateFolder(jobs.clone()));
    let action = observe(&mut run, &manifest, Ok(Observed::Folder(None)));
    assert!(matches!(&action, ApplyAction::Compensate(Change::CreateFolder(p)) if *p == jobs));
    let busy = Error::new(ErrorKind::AccessDenied, "folder not empty");
    let action = run.step(&manifest, ApplyEvent::Compensated(Err(busy), Vec::new()));
    assert_eq!(observed_change(&action), Change::CreateFolder(acme.clone()));
    let action = observe(&mut run, &manifest, Ok(Observed::Folder(None)));
    assert!(matches!(&action, ApplyAction::Compensate(Change::CreateFolder(p)) if *p == acme));
    run.step(&manifest, ApplyEvent::Compensated(Ok(()), Vec::new()));
    assert!(matches!(observe(&mut run, &manifest, Ok(Observed::Missing)), ApplyAction::Finish));
    let failure = run.finish().expect_err("failed apply");
    assert_eq!(failure.cause.kind(), ErrorKind::AccessDenied);
    assert_eq!(
        failure.report.applied,
        vec![Change::CreateFolder(acme.clone()), Change::CreateFolder(jobs.clone())]
    );
    assert_eq!(failure.report.rolled_back, vec![Change::CreateFolder(acme)]);
    assert_eq!(failure.report.rollback_failures.len(), 1);
    assert_eq!(failure.report.rollback_failures[0].change, Change::CreateFolder(jobs));
    assert!(!failure.report.rollback_complete());
}

#[test]
fn rollback_refuses_to_overwrite_a_foreign_change() {
    let path: TaskPath = "\\Acme\\Backup".parse().expect("path");
    let manifest = manifest_with(&path);
    let acme = namespace();
    let (mut run, _) =
        ApplyRun::start(&manifest, CurrentState::default(), ApplyOptions::default()).expect("plan");
    observe(&mut run, &manifest, Ok(Observed::Missing));
    observe(&mut run, &manifest, Ok(Observed::Missing));
    run.step(&manifest, ApplyEvent::Prepared(Ok(())));
    observe(&mut run, &manifest, Ok(Observed::Missing));
    run.step(&manifest, ApplyEvent::Executed(Ok(()), Vec::new()));
    observe(&mut run, &manifest, Ok(Observed::Folder(None)));
    observe(&mut run, &manifest, Ok(Observed::Missing));
    run.step(&manifest, ApplyEvent::Executed(Ok(()), Vec::new()));
    observe(&mut run, &manifest, Ok(Observed::Missing));
    let changed = SecurityDescriptor::from_sddl("D:(A;;GA;;;WD)").expect("sddl");
    let action = observe(&mut run, &manifest, Ok(Observed::Folder(Some(changed))));
    assert!(matches!(action, ApplyAction::Finish));
    let failure = run.finish().expect_err("failed apply");
    assert_eq!(failure.report.rollback_failures.len(), 1);
    assert_eq!(failure.report.rollback_failures[0].change, Change::CreateFolder(acme));
    assert_eq!(
        failure.report.rollback_failures[0].error.message(),
        "state changed after apply; refusing to overwrite external changes"
    );
}

#[test]
fn stop_requests_are_recorded_as_irreversible_effects() {
    let path: TaskPath = "\\Acme\\Backup".parse().expect("path");
    let manifest = manifest_with(&path);
    let mut stale = definition();
    stale.data = Some("old".to_string());
    let state = CurrentState {
        tasks: vec![CurrentTask {
            path: path.clone(),
            definition: stale.clone(),
            enabled: true,
            owned: true,
            password_backed: false,
        }],
        folders: vec![(namespace(), None)],
    };
    let options = ApplyOptions {
        stop_running: true,
        ..ApplyOptions::default()
    };
    let (mut run, action) = ApplyRun::start(&manifest, state, options).expect("plan");
    assert_eq!(observed_change(&action), Change::UpdateTask(path.clone()));
    let before = Observed::Task {
        definition: stale,
        enabled: true,
        security: None,
    };
    observe(&mut run, &manifest, Ok(before));
    run.step(&manifest, ApplyEvent::Prepared(Ok(())));
    let before = Observed::Task {
        definition: {
            let mut d = definition();
            d.data = Some("old".to_string());
            d
        },
        enabled: true,
        security: None,
    };
    let action = observe(&mut run, &manifest, Ok(before));
    assert!(matches!(&action, ApplyAction::Stop(p) if *p == path));
    let action = run.step(&manifest, ApplyEvent::Stopped(Ok(())));
    assert!(matches!(&action, ApplyAction::Execute(Change::UpdateTask(p), None) if *p == path));
    run.step(&manifest, ApplyEvent::Executed(Ok(()), Vec::new()));
    observe(&mut run, &manifest, Ok(registered(&manifest, &path)));
    let report = run.finish().expect("success");
    assert!(report.succeeded());
    assert_eq!(report.irreversible_effects, vec![path.clone()]);
    assert_eq!(report.plan.irreversible_effects, vec![path]);
}

#[test]
fn preparation_backs_up_each_task_once_and_stops_at_an_invalid_change() {
    let path: TaskPath = "\\Acme\\Backup".parse().expect("path");
    let manifest = manifest_with(&path);
    let planned = |change| PlannedChange {
        change,
        rollback: RollbackSafety::Reversible,
    };
    let plan = Plan {
        changes: vec![
            planned(Change::UpdateTask(path.clone())),
            planned(Change::SetEnabled {
                path: path.clone(),
                enabled: false,
            }),
            planned(Change::SetEnabled {
                path: path.clone(),
                enabled: true,
            }),
            planned(Change::DeleteTask(path.clone())),
            planned(Change::SetTaskSecurity(path.clone())),
            planned(Change::CreateFolder(namespace())),
        ],
        irreversible_effects: Vec::new(),
    };
    let requests = snapshot_requests(&manifest, &plan);
    assert_eq!(requests.len(), 3);
    assert!(matches!(&requests[0], SnapshotRequest::TaskBackup(p, None, info) if *p == path && info.bits() == 7));
    assert!(matches!(&requests[1], SnapshotRequest::EnabledBackup(p) if *p == path));
    match &requests[2] {
        SnapshotRequest::Invalid(e) => {
            assert_eq!(e.kind(), ErrorKind::InvalidDefinition);
            assert_eq!(e.message(), "planned task security has no desired descriptor");
            assert_eq!(e.target(), Some(path.as_str()));
        }
        _ => panic!("expected the invalid change"),
    }
}

#[test]
fn performing_a_creation_registers_the_owned_definition() {
    let path: TaskPath = "\\Acme\\Backup".parse().expect("path");
    let manifest = manifest_with(&path);
    let mutation = mutation_for(
        &manifest,
        &Change::CreateTask(path.clone()),
        ApplyOptions::default(),
        None,
    )
    .expect("mutation");
    match mutation {
        Mutation::Register {
            path: p,
            source,
            security_descriptor,
            create,
            ignore_registration_triggers,
            dont_add_principal_ace,
        } => {
            assert_eq!(p, path);
            assert_eq!(source, manifest.ownership_uri(&path));
            assert!(security_descriptor.is_none());
            assert!(create);
            assert!(ignore_registration_triggers);
            assert!(!dont_add_principal_ace);
        }
        _ => panic!("expected a registration"),
    }
    let backup = SecurityDescriptor::from_sddl("D:(A;;GA;;;SY)").expect("sddl");
    match mutation_for(&manifest, &Change::UpdateTask(path.clone()), ApplyOptions::default(), Some(&backup))
        .expect("mutation")
    {
        Mutation::Register {
            security_descriptor,
            create,
            dont_add_principal_ace,
            ..
        } => {
            assert_eq!(security_descriptor, Some(backup));
            assert!(!create);
            assert!(dont_add_principal_ace);
        }
        _ => panic!("expected a registration"),
    }
    let missing: TaskPath = "\\Acme\\Other".parse().expect("path");
    let error = mutation_for(&manifest, &Change::CreateTask(missing), ApplyOptions::default(), None)
        .err()
        .expect("absent task");
    assert_eq!(error.message(), "planned task is absent from the manifest");
}

#[test]
fn compensation_needs_its_snapshot_and_rollback_password() {
    let path: TaskPath = "\\Acme\\Backup".parse().expect("path");
    let options = ApplyOptions::default();
    let password_backup = TaskBackupFacts {
        logon_type: LogonType::Password,
        has_password: false,
    };
    let error = compensation_for(&Change::UpdateTask(path.clone()), options, Some(password_backup), None, false, false)
        .err()
        .expect("missing password");
    assert_eq!(error.kind(), ErrorKind::Irreversible);
    assert_eq!(error.message(), "task rollback password is unavailable");
    let error = compensation_for(&Change::DeleteTask(path.clone()), options, None, None, false, false)
        .err()
        .expect("missing backup");
    assert_eq!(error.message(), "task rollback snapshot is unavailable");
    let restore = compensation_for(
        &Change::UpdateTask(path.clone()),
        options,
        Some(TaskBackupFacts {
            logon_type: LogonType::S4u,
            has_password: false,
        }),
        None,
        false,
        false,
    )
    .expect("restore");
    assert!(matches!(restore, Compensation::RestoreTask(p, true) if p == path));
    let enabled = compensation_for(
        &Change::SetEnabled {
            path: path.clone(),
            enabled: true,
        },
        options,
        None,
        Some(false),
        false,
        false,
    )
    .expect("restore enabled");
    assert!(matches!(enabled, Compensation::RestoreEnabled(p, false) if p == path));
    let stop = ApplyOptions {
        stop_running: true,
        ..options
    };
    let delete = compensation_for(&Change::CreateTask(path.clone()), stop, None, None, false, false).expect("delete");
    assert!(matches!(delete, Compensation::DeleteTask(p, true) if p == path));
}

use windows_task::reconcile::inspected_task;
use windows_task::reconcile::recovery::{
    agrees_with_inspection, confirmed_by, expected_after, information, Confirmation,
};

#[test]
fn read_back_rejects_unrelated_definition_enabled_and_acl_drift() {
    let path: TaskPath = "\\Acme\\Backup".parse().expect("path");
    let mut manifest = manifest_with(&path);
    let acl = SecurityDescriptor::from_sddl("D:(A;;GA;;;SY)").expect("sddl");
    manifest.tasks[0].definition.registration.security_descriptor = Some(acl.clone());
    let change = Change::UpdateTask(path.clone());
    let before = registered(&manifest, &path);
    match expected_after(&before, &registered(&manifest, &path), &manifest, &change) {
        Confirmation::TaskSecurity(p, sections, desired) => {
            assert_eq!(p, path);
            assert_eq!(sections.bits(), 4);
            assert_eq!(desired, acl);
        }
        _ => panic!("the desired descriptor is confirmed by a second read"),
    }
    assert!(confirmed_by(&acl, &Ok(acl.clone())));
    let other = SecurityDescriptor::from_sddl("D:(A;;GR;;;SY)").expect("sddl");
    assert!(!confirmed_by(&acl, &Ok(other)));
    assert!(!confirmed_by(&acl, &Err(Error::new(ErrorKind::AccessDenied, "denied"))));

    let mut edited = registered(&manifest, &path);
    if let Observed::Task { definition, .. } = &mut edited {
        definition.registration.description = Some("foreign edit".to_string());
    }
    assert!(matches!(
        expected_after(&before, &edited, &manifest, &change),
        Confirmation::Decided(false)
    ));
    let mut flipped = registered(&manifest, &path);
    if let Observed::Task { enabled, .. } = &mut flipped {
        *enabled = false;
    }
    assert!(matches!(
        expected_after(&before, &flipped, &manifest, &change),
        Confirmation::Decided(false)
    ));
    assert!(matches!(
        expected_after(&before, &Observed::Missing, &manifest, &change),
        Confirmation::Decided(false)
    ));
    assert!(matches!(
        expected_after(&before, &Observed::Missing, &manifest, &Change::DeleteTask(path)),
        Confirmation::Decided(true)
    ));
}

#[test]
fn observations_compare_by_granted_access() {
    let acl = SecurityDescriptor::from_sddl("D:(A;;GA;;;SY)").expect("sddl");
    let inherited = SecurityDescriptor::from_sddl("D:AI(A;;GA;;;SY)").expect("sddl");
    assert!(Observed::Folder(None) == Observed::Folder(None));
    assert!(Observed::Folder(None) != Observed::Folder(Some(acl.clone())));
    assert!(Observed::Folder(Some(acl)) == Observed::Folder(Some(inherited)));
    assert!(Observed::Missing != Observed::Folder(None));
}

#[test]
fn preflight_reads_are_checked_against_the_inspection() {
    let path: TaskPath = "\\Acme\\Backup".parse().expect("path");
    let manifest = manifest_with(&path);
    let state = CurrentState {
        tasks: vec![inspected_task(&manifest, path.clone(), definition(), true)],
        folders: vec![(namespace(), None)],
    };
    let change = Change::UpdateTask(path.clone());
    let same = Observed::Task { definition: definition(), enabled: true, security: None };
    assert!(agrees_with_inspection(&state, &change, &same));
    let disabled = Observed::Task { definition: definition(), enabled: false, security: None };
    assert!(!agrees_with_inspection(&state, &change, &disabled));
    assert!(!agrees_with_inspection(&state, &change, &Observed::Missing));
    assert!(agrees_with_inspection(&state, &Change::CreateFolder(namespace()), &Observed::Folder(None)));
    assert!(!agrees_with_inspection(&state, &Change::CreateFolder(namespace()), &Observed::Missing));
    assert_eq!(information(&manifest, &change).bits(), 7);
}

#[test]
fn registered_source_marks_the_task_as_owned_and_the_path_alone_does_not() {
    let path: TaskPath = "\\Acme\\Backup".parse().expect("path");
    let manifest = manifest_with(&path);
    let mut with_payload = definition();
    with_payload.registration.source =
        Some(format!("{}\nkept payload", manifest.ownership_uri(&path)));
    assert!(inspected_task(&manifest, path.clone(), with_payload, true).owned);
    let mut path_only = definition();
    path_only.registration.uri = Some(path.as_str().to_string());
    path_only.registration.source = Some(path.as_str().to_string());
    assert!(!inspected_task(&manifest, path.clone(), path_only, true).owned);
    let mut password = definition();
    password.principal.logon_type = LogonType::Password;
    assert!(inspected_task(&manifest, path, password, true).password_backed);
}

#[test]
fn registration_submits_the_owned_definition() {
    let path: TaskPath = "\\Acme\\Job".parse().expect("path");
    let descriptor = SecurityDescriptor::from_sddl("D:(A;;FA;;;SY)").expect("sddl");
    let submitted = registered_definition(definition(), &path, "owner-marker".to_owned(), Some(descriptor.clone()));
    assert_eq!(submitted.registration.source.as_deref(), Some("owner-marker"));
    assert_eq!(submitted.registration.uri.as_deref(), Some("\\Acme\\Job"));
    assert_eq!(submitted.registration.security_descriptor, Some(descriptor));
    assert_eq!(submitted.actions, definition().actions);
}

#[test]
fn only_an_irreversible_apply_tolerates_a_failed_snapshot() {
    let failed = || Err::<u32, Error>(Error::new(ErrorKind::AccessDenied, "denied"));
    assert!(matches!(tolerated(failed(), true), Ok(None)));
    assert!(matches!(tolerated(failed(), false), Err(e) if e.kind() == ErrorKind::AccessDenied));
    assert!(matches!(tolerated(Ok::<u32, Error>(7), false), Ok(Some(7))));
}

#[test]
fn desired_task_descriptor_follows_the_manifest() {
    let path: TaskPath = "\\Acme\\Job".parse().expect("path");
    let manifest = manifest_with(&path);
    assert!(desired_task_descriptor(&manifest, &path).is_none());
    let other: TaskPath = "\\Acme\\Other".parse().expect("path");
    assert!(desired_task_descriptor(&manifest, &other).is_none());
}

#[test]
fn owned_definition_marks_source_and_uri() {
    let path: TaskPath = "\\Acme\\Job".parse().expect("path");
    let manifest = manifest_with(&path);
    let marker = manifest.ownership_uri(&path);
    let mut task = manifest.tasks[0].clone();
    let owned = owned_definition(&manifest, task.clone());
    assert_eq!(owned.registration.source.as_deref(), Some(marker.as_str()));
    assert_eq!(owned.registration.uri.as_deref(), Some("\\Acme\\Job"));
    task.definition.registration.source = Some("notes".to_owned());
    let kept = owned_definition(&manifest, task);
    assert_eq!(kept.registration.source, Some(format!("{marker}\nnotes")));
}
