use windows_task::client::SecurityInformation;
use windows_task::model::SecurityDescriptor;
use windows_task::reconcile::{
    empty_apply_failure, security_information_for_sddl, Change, Plan, PlannedChange,
    RollbackSafety,
};
use windows_task::{Error, ErrorKind, FolderPath, TaskPath};

#[test]
fn security_operations_follow_the_sddl_sections() {
    let descriptor = SecurityDescriptor::from_sddl("D:(A;;GR;;;SY)S:(AU;SA;GR;;;WD)")
        .expect("valid non-empty SDDL");

    assert_eq!(
        security_information_for_sddl(&descriptor),
        SecurityInformation::dacl() | SecurityInformation::sacl(),
        "owner and group must not be read or replaced when absent"
    );
}

#[test]
fn stop_plan_marks_only_existing_task_replacements() {
    let namespace: FolderPath = "\\Test".parse().expect("fixture namespace");
    let path = namespace.task("Task0").expect("fixture path");
    let changes = vec![
        Change::CreateFolder(namespace.clone()),
        Change::SetFolderSecurity(namespace),
        Change::CreateTask(path.clone()),
        Change::UpdateTask(path.clone()),
        Change::AdoptTask(path.clone()),
        Change::DeleteTask(path.clone()),
        Change::SetEnabled {
            path: path.clone(),
            enabled: false,
        },
        Change::SetTaskSecurity(path.clone()),
    ];
    let plan = Plan {
        changes: changes
            .into_iter()
            .map(|change| PlannedChange {
                change,
                rollback: RollbackSafety::Reversible,
            })
            .collect(),
        irreversible_effects: Vec::new(),
    };
    assert!(!plan.contains_irreversible_changes());
    let stopped = plan.clone().with_stop_running();
    assert_eq!(
        stopped.irreversible_effects,
        [path.clone(), path.clone(), path]
    );
    assert!(stopped.contains_irreversible_changes());
    let mut unsafe_plan = plan;
    unsafe_plan.changes[0].rollback = RollbackSafety::RequiresCredential;
    assert!(unsafe_plan.contains_irreversible_changes());
    assert!(!Plan::default().contains_irreversible_changes());
}

#[test]
fn sections_inside_quotes_or_parentheses_are_ignored() {
    let info = |text| {
        security_information_for_sddl(&SecurityDescriptor::from_sddl(text).expect("sddl")).bits()
    };
    assert_eq!(info("O:BAG:SYD:(A;;GA;;;SY)"), 1 | 2 | 4);
    assert_eq!(info("(O:x)"), 4);
    assert_eq!(info("\"S:\\\"O:\"G:BA"), 2);
    assert_eq!(info("X:Y"), 4);
}

#[test]
fn blank_failures_report_nothing_applied() {
    let failure = empty_apply_failure(Error::new(ErrorKind::Conflict, "drift"));
    assert!(!failure.report.succeeded());
    assert!(!failure.report.rollback_complete());
    assert!(failure.report.plan.is_empty());
    assert_eq!(failure.message(), "drift");
}

use windows_task::manifest::{CredentialReferences, ManagedFolder, ManagedTask, TaskManifest};
use windows_task::model::{Action, ExecAction, TaskDefinition};
use windows_task::reconcile::{plan_state, CurrentState, CurrentTask, PlanOptions};

fn definition() -> TaskDefinition {
    let mut definition = TaskDefinition::default();
    definition
        .actions
        .push(Action::Exec(ExecAction::new("cmd.exe")))
        .expect("action");
    definition
}

#[test]
fn creates_implicit_parents_before_tasks() {
    let namespace: FolderPath = "\\Acme".parse().expect("namespace");
    let task_path: TaskPath = "\\Acme\\Jobs\\Backup".parse().expect("task path");
    let mut manifest = TaskManifest::new(0, "tests", namespace);
    manifest.tasks.push(ManagedTask {
        path: task_path.clone(),
        definition: definition(),
        credentials: Default::default(),
    });
    let plan =
        plan_state(&manifest, &CurrentState::default(), PlanOptions::default()).expect("plan");
    let changes: Vec<_> = plan
        .changes
        .iter()
        .map(|change| change.change.clone())
        .collect();
    assert_eq!(
        changes,
        vec![
            Change::CreateFolder("\\Acme".parse().expect("folder")),
            Change::CreateFolder("\\Acme\\Jobs".parse().expect("folder")),
            Change::CreateTask(task_path),
        ]
    );
}

#[test]
fn plans_enabled_and_security_drift_without_replacing_the_task() {
    let namespace: FolderPath = "\\Acme".parse().expect("namespace");
    let task_path: TaskPath = "\\Acme\\Backup".parse().expect("task path");
    let mut desired = definition();
    desired.registration.security_descriptor =
        Some(SecurityDescriptor::from_sddl("D:(A;;GR;;;SY)").expect("desired SDDL"));
    let mut manifest = TaskManifest::new(0, "tests", namespace.clone());
    manifest.tasks.push(ManagedTask {
        path: task_path.clone(),
        definition: desired.clone(),
        credentials: Default::default(),
    });

    let mut existing = desired;
    existing.registration.uri = Some(task_path.as_str().to_string());
    existing.registration.source = Some(manifest.ownership_uri(&task_path));
    existing.registration.security_descriptor =
        Some(SecurityDescriptor::from_sddl("D:(A;;GA;;;SY)").expect("existing SDDL"));
    existing.settings.enabled = false;
    let current = CurrentState {
        tasks: vec![CurrentTask {
            path: task_path.clone(),
            definition: existing,
            enabled: false,
            owned: true,
            password_backed: false,
        }],
        folders: vec![(namespace, None)],
    };

    let plan = plan_state(&manifest, &current, PlanOptions::default()).expect("plan");
    assert_eq!(
        plan.changes
            .into_iter()
            .map(|planned| planned.change)
            .collect::<Vec<_>>(),
        vec![
            Change::SetEnabled {
                path: task_path.clone(),
                enabled: true,
            },
            Change::SetTaskSecurity(task_path),
        ]
    );
}

#[test]
fn ownership_markers_encode_the_owner_and_path() {
    let manifest = TaskManifest::new(
        0x550e_8400_e29b_41d4_a716_4466_5544_0000,
        "tests",
        "\\Acme".parse().expect("namespace"),
    );
    let path: TaskPath = "\\Acme\\Back up\\é".parse().expect("path");
    assert_eq!(
        manifest.ownership_uri(&path),
        "urn:windows-task:owner:550e8400-e29b-41d4-a716-446655440000:task:%5CAcme%5CBack%20up%5C%C3%A9"
    );
}

#[test]
fn unowned_tasks_conflict_unless_adopted_and_pruning_deletes_owned_leftovers() {
    let namespace: FolderPath = "\\Acme".parse().expect("namespace");
    let path: TaskPath = "\\Acme\\Backup".parse().expect("path");
    let stale: TaskPath = "\\Acme\\Stale".parse().expect("path");
    let mut manifest = TaskManifest::new(0, "tests", namespace.clone());
    manifest.tasks.push(ManagedTask {
        path: path.clone(),
        definition: definition(),
        credentials: CredentialReferences::default(),
    });
    let current = CurrentState {
        tasks: vec![
            CurrentTask {
                path: path.clone(),
                definition: definition(),
                enabled: true,
                owned: false,
                password_backed: true,
            },
            CurrentTask {
                path: stale.clone(),
                definition: definition(),
                enabled: true,
                owned: true,
                password_backed: false,
            },
        ],
        folders: vec![(namespace, None)],
    };
    let error = plan_state(&manifest, &current, PlanOptions::default()).expect_err("conflict");
    assert_eq!(error.kind(), ErrorKind::Conflict);
    assert_eq!(error.target(), Some("\\Acme\\Backup"));
    let plan = plan_state(&manifest, &current, PlanOptions { prune: true, adopt: true }).expect("plan");
    assert_eq!(plan.changes.len(), 2);
    assert_eq!(plan.changes[0].change, Change::AdoptTask(path));
    assert_eq!(plan.changes[0].rollback, RollbackSafety::RequiresCredential);
    assert_eq!(plan.changes[1].change, Change::DeleteTask(stale));
    assert!(plan.contains_irreversible_changes());
}

#[test]
fn invalid_manifests_are_rejected_before_planning() {
    let manifest = TaskManifest::new(0, "tests", FolderPath::root());
    let error = plan_state(&manifest, &CurrentState::default(), PlanOptions::default())
        .expect_err("root namespace");
    assert_eq!(error.kind(), ErrorKind::InvalidDefinition);
    assert!(!error.diagnostics().is_empty());
    let report = manifest.validate();
    assert_eq!(report.diagnostics[0].path, "namespace");
}

#[test]
fn manifests_report_outside_and_duplicate_paths() {
    let namespace: FolderPath = "\\Acme".parse().expect("namespace");
    let mut manifest = TaskManifest::new(0, "tests", namespace);
    manifest.format_version = 2;
    for path in ["\\Acme\\Jobs", "\\Other", "\\Acme\\Jobs"] {
        manifest.folders.push(ManagedFolder {
            path: path.parse().expect("folder"),
            security_descriptor: None,
        });
    }
    let report = manifest.validate();
    let paths: Vec<&str> = report.diagnostics.iter().map(|d| d.path.as_str()).collect();
    assert_eq!(paths, ["format_version", "folders[1].path", "folders[2].path"]);
    assert_eq!(
        report.diagnostics[0].message,
        "manifest version 2 is unsupported; expected 1"
    );
}

#[test]
fn a_manifest_is_valid_exactly_when_every_condition_holds() {
    let namespace: FolderPath = "\\Acme".parse().expect("namespace");
    let task = |path: &str, priority: u8| {
        let mut definition = TaskDefinition::default();
        definition
            .actions
            .push(Action::Exec(ExecAction::new("cmd.exe")))
            .expect("action");
        definition.settings.priority = priority;
        ManagedTask {
            path: path.parse().expect("task path"),
            definition,
            credentials: CredentialReferences::default(),
        }
    };
    let mut manifest = TaskManifest::new(0, "tests", namespace);
    manifest.folders.push(ManagedFolder {
        path: "\\Acme\\Jobs".parse().expect("folder"),
        security_descriptor: None,
    });
    manifest.tasks.push(task("\\Acme\\Jobs\\Backup", 7));
    assert!(manifest.validate().is_valid());

    let mut duplicate = manifest.clone();
    duplicate.tasks.push(task("\\Acme\\Jobs\\Backup", 7));
    assert!(!duplicate.validate().is_valid());

    let mut outside = manifest.clone();
    outside.tasks.push(task("\\Other\\Backup", 7));
    assert!(!outside.validate().is_valid());

    let mut invalid_definition = manifest.clone();
    invalid_definition.tasks.push(task("\\Acme\\Jobs\\Report", 11));
    let report = invalid_definition.validate();
    assert!(!report.is_valid());
    assert_eq!(report.diagnostics[0].path, "tasks[1].definition.settings.priority");

    let mut old_format = manifest;
    old_format.format_version = 2;
    assert!(!old_format.validate().is_valid());
}
