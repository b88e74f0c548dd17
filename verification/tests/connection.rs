use windows_task::manifest::{
    manifest_connection_reference, CredentialReferences, ManagedTask, TaskManifest,
};
use windows_task::model::{Action, ExecAction, TaskDefinition};
use windows_task::{require_yes, ErrorKind, FolderPath};

#[test]
fn conflicting_connection_references_fail_early() {
    let mut manifest = TaskManifest::new(7, "fixture", FolderPath::root());
    assert_eq!(
        manifest_connection_reference(&manifest).expect("no reference"),
        None
    );
    for (name, reference) in [("one", "first"), ("two", "second")] {
        manifest.tasks.push(ManagedTask {
            path: FolderPath::root().task(name).expect("task path"),
            definition: TaskDefinition::new(Action::Exec(ExecAction::new("fixture.exe"))),
            credentials: CredentialReferences {
                connection: Some(reference.into()),
                registration: None,
            },
        });
    }
    assert_eq!(
        manifest_connection_reference(&manifest)
            .expect_err("ambiguous account")
            .kind(),
        ErrorKind::InvalidDefinition
    );
    manifest.tasks[1].credentials.connection = Some("first".into());
    assert_eq!(
        manifest_connection_reference(&manifest).expect("consistent account"),
        Some("first".into())
    );
    manifest.tasks[0].credentials.connection = None;
    assert_eq!(
        manifest_connection_reference(&manifest).expect("one reference"),
        Some("first".into())
    );
}

#[test]
fn acknowledgement_is_required_before_destructive_operations() {
    require_yes(true, "fixture").expect("explicit acknowledgement");
    let error = require_yes(false, "delete fixture").expect_err("acknowledgement required");
    assert_eq!(error.kind(), ErrorKind::Conflict);
    assert_eq!(
        error.message(),
        "delete fixture; repeat with --yes after reviewing the target"
    );
}
