use windows_task::model::{
    Action, Actions, ExecAction, InvalidSecurityDescriptor, RequiredPrivilege,
    SecurityDescriptor, TaskDateTime, TaskDuration,
};
use windows_task::{native_error, native_error_kind, Error, ErrorKind};

#[test]
fn classifies_scheduler_specific_hresults() {
    assert_eq!(native_error_kind(0x8004_130F), ErrorKind::Authentication);
    assert_eq!(native_error_kind(0x8004_131A), ErrorKind::InvalidDefinition);
    assert_eq!(
        native_error_kind(0x8004_1322),
        ErrorKind::SchedulerUnavailable
    );
}

#[test]
fn model_failures_convert_without_losing_their_classification() {
    let path: Error = "relative"
        .parse::<windows_task::TaskPath>()
        .expect_err("relative path")
        .into();
    assert_eq!(path.kind(), ErrorKind::InvalidPath);
    assert!(!path.message().is_empty());

    let boundary: Error = TaskDateTime::parse("not-a-timestamp")
        .expect_err("invalid boundary")
        .into();
    assert_eq!(boundary.kind(), ErrorKind::InvalidDefinition);

    let duration: Error = TaskDuration::parse("P1Y")
        .expect_err("calendar unit")
        .into();
    assert_eq!(duration.kind(), ErrorKind::InvalidDefinition);

    let overflow: Error = Actions::new(vec![
        Action::Exec(ExecAction::new("fixture.exe"));
        windows_task::MAX_ACTIONS + 1
    ])
    .expect_err("action limit")
    .into();
    assert_eq!(overflow.kind(), ErrorKind::InvalidDefinition);

    let sddl: Error = SecurityDescriptor::from_sddl("")
        .expect_err("empty SDDL")
        .into();
    assert_eq!(sddl.kind(), ErrorKind::InvalidDefinition);
    assert_eq!(
        Error::from(InvalidSecurityDescriptor).kind(),
        ErrorKind::InvalidDefinition
    );

    let privilege: Error = RequiredPrivilege::new("NotAPrivilege")
        .expect_err("invalid privilege name")
        .into();
    assert_eq!(privilege.kind(), ErrorKind::InvalidDefinition);
}

#[test]
fn native_errors_keep_code_operation_and_target() {
    let error = native_error("register", Some("\\Acme\\Task"), -2147216625, "denied");
    assert_eq!(error.kind(), ErrorKind::Authentication);
    assert_eq!(error.native_code(), Some(-2147216625));
    assert_eq!(error.operation(), Some("register"));
    assert_eq!(error.target(), Some("\\Acme\\Task"));
    assert_eq!(native_error_kind(0x1234), ErrorKind::Com);
    assert_eq!(native_error_kind(0x8007_0005), ErrorKind::AccessDenied);
}

fn approved_host(actions: Option<&str>, environment: Option<&str>, ack: Option<&str>) -> bool {
    actions == Some("true") && environment == Some("github-hosted") && ack == Some("1")
}

#[test]
fn clearing_requires_both_a_disposable_host_and_explicit_acknowledgement() {
    assert!(approved_host(
        Some("true"),
        Some("github-hosted"),
        Some("1")
    ));
    for (actions, environment, ack) in [
        (None, Some("github-hosted"), Some("1")),
        (Some("false"), Some("github-hosted"), Some("1")),
        (Some("true"), Some("self-hosted"), Some("1")),
        (Some("true"), None, Some("1")),
        (Some("true"), Some("github-hosted"), None),
        (Some("true"), Some("github-hosted"), Some("0")),
    ] {
        assert!(!approved_host(actions, environment, ack));
    }
}

#[test]
fn error_context_is_kept_in_key_order() {
    let error = windows_task::Error::new(windows_task::ErrorKind::Other, "context")
        .with_context("b", "1")
        .with_context("a", "2")
        .with_context("b", "3");
    let context: Vec<(&str, &str)> = error
        .context()
        .iter()
        .map(|(key, value)| (key.as_str(), value.as_str()))
        .collect();
    assert_eq!(context, vec![("a", "2"), ("b", "3")]);
}
