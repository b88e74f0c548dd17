use windows_task::model::action::{Action, EmailAction, ExecAction};
use windows_task::model::TaskDefinition;
use windows_task::model::principal::{
    LogonType, Principal, PrincipalIdentity, RunLevel, ServiceAccount,
};
use windows_task::model::time::TaskDateTime;
use windows_task::model::trigger::{DailyTrigger, LogonTrigger, Trigger, WeeklyTrigger};
use windows_task::{DiagnosticCode, ErrorKind, MAX_ACTIONS, MAX_TRIGGERS};

fn anchor() -> TaskDateTime {
    TaskDateTime::wall_clock(2026, 9, 5, 6, 0, 0).expect("fixed anchor")
}

fn exec(command: &str) -> Action {
    Action::Exec(ExecAction::new(command))
}

#[test]
fn a_built_definition_passes_the_same_validation_it_was_checked_against() {
    let definition = TaskDefinition::builder(Action::Exec(ExecAction::new("agent.exe").args(&["--once"])))
        .description("fixture")
        .author("windows-task")
        .run_as(
            Principal::service_account(ServiceAccount::LocalSystem)
                .run_level(RunLevel::HighestAvailable),
        )
        .trigger(Trigger::Daily(DailyTrigger::new(anchor())))
        .trigger(Trigger::Logon(LogonTrigger::new()))
        .action(Action::Exec(ExecAction::new("agent.exe").args(&["--verify"])))
        .build()
        .expect("valid definition");

    assert!(definition.validate().is_valid());
    assert_eq!(definition.actions.len(), 2);
    assert_eq!(definition.triggers.len(), 2);
    assert_eq!(
        definition.registration.description.as_deref(),
        Some("fixture")
    );
    assert!(definition
        .triggers
        .as_slice()
        .iter()
        .filter_map(Trigger::common)
        .all(|common| common.enabled));
}

#[test]
fn build_rejects_invalid_input_and_keeps_every_diagnostic() {
    let error = TaskDefinition::builder(exec(""))
        .trigger(Trigger::Weekly(WeeklyTrigger::new(anchor(), &[])))
        .build()
        .expect_err("empty command and empty weekday selection");

    assert_eq!(error.kind(), ErrorKind::InvalidDefinition);
    let codes: Vec<_> = error
        .diagnostics()
        .iter()
        .map(|diagnostic| diagnostic.code.clone())
        .collect();
    assert!(codes.contains(&DiagnosticCode::EmptyValue), "{codes:?}");
    assert!(
        codes.contains(&DiagnosticCode::IncompleteTrigger),
        "{codes:?}"
    );
    assert!(
        error.to_string().contains("actions[0].command"),
        "{}",
        error.to_string()
    );
    assert_eq!(error.operation(), Some("TaskBuilder::build"));
}

#[test]
fn warnings_do_not_fail_a_build() {
    let definition = TaskDefinition::builder(Action::Email(EmailAction::default()))
        .build()
        .expect("a deprecated action is a warning, not an error");
    let report = definition.validate();
    assert!(report.is_valid());
    assert_eq!(report.warnings().len(), 1);
}

#[test]
fn action_and_trigger_limits_surface_as_classified_errors() {
    let mut builder = TaskDefinition::builder(exec("agent.exe"));
    for _ in 0..MAX_ACTIONS {
        builder = builder.action(exec("agent.exe"));
    }
    assert_eq!(
        builder.build().expect_err("action limit").kind(),
        ErrorKind::InvalidDefinition
    );

    let mut builder = TaskDefinition::builder(exec("agent.exe"));
    for _ in 0..=MAX_TRIGGERS {
        builder = builder.trigger(Trigger::Daily(DailyTrigger::new(anchor())));
    }
    assert_eq!(
        builder.build().expect_err("trigger limit").kind(),
        ErrorKind::InvalidDefinition
    );
}

#[test]
fn every_principal_constructor_agrees_with_its_logon_type() {
    let principals = [
        Principal::service_account(ServiceAccount::LocalSystem),
        Principal::service_account(ServiceAccount::LocalService),
        Principal::service_account(ServiceAccount::NetworkService),
        Principal::user("ACME\\operator"),
        Principal::user_with_password("ACME\\operator"),
        Principal::s4u("ACME\\operator"),
        Principal::group("BUILTIN\\Administrators"),
        Principal::default(),
    ];
    for principal in principals {
        let definition = TaskDefinition::builder(exec("agent.exe"))
            .run_as(principal.clone())
            .build()
            .expect("a constructed principal is internally consistent");
        assert!(
            !definition
                .validate()
                .diagnostics
                .iter()
                .any(|diagnostic| { diagnostic.code == DiagnosticCode::PrincipalLogonMismatch }),
            "{principal:?}"
        );
    }
}

#[test]
fn principal_constructors_pick_the_matching_logon_type() {
    let user = Principal::user("ACME\\operator");
    assert_eq!(user.identity, PrincipalIdentity::User("ACME\\operator".into()));
    assert_eq!(user.logon_type, LogonType::InteractiveToken);
    assert_eq!(Principal::user_with_password("u").logon_type, LogonType::Password);
    assert_eq!(Principal::s4u("u").logon_type, LogonType::S4u);
    assert_eq!(Principal::group("g").logon_type, LogonType::Group);
    let system = Principal::service_account(ServiceAccount::LocalSystem);
    assert_eq!(system.logon_type, LogonType::ServiceAccount);
    assert_eq!(system.id, "Author");
    assert_eq!(system.run_level, RunLevel::LeastPrivilege);
    assert_eq!(system.run_level(RunLevel::HighestAvailable).run_level, RunLevel::HighestAvailable);
}

#[test]
fn rejected_definition_renders_its_first_finding() {
    let error = TaskDefinition::builder(Action::Exec(ExecAction::new(""))).build().unwrap_err();
    assert_eq!(error.kind(), ErrorKind::InvalidDefinition);
    assert_eq!(
        error.diagnostics()[0].to_string(),
        "error[empty_value] actions[0].command: an exec command cannot be empty\n  remediation: Supply a non-empty value for the indicated field."
    );
    let with_context = error.clone().with_context("task", "\\Acme\\Backup");
    assert_eq!(with_context.to_string(), error.to_string());
}
