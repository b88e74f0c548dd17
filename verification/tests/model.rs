use windows_task::model::{
    expand_action_templates, quote_windows_argument, Action, ExecAction, LogonType,
    PrincipalIdentity, SecurityDescriptor, TaskDefinition,
};

#[test]
fn quotes_windows_arguments() {
    assert_eq!(quote_windows_argument("plain"), "plain");
    assert_eq!(quote_windows_argument("two words"), "\"two words\"");
    assert_eq!(quote_windows_argument(""), "\"\"");
    assert_eq!(quote_windows_argument(r#"a\"b"#), "\"a\\\\\\\"b\"");
}

#[test]
fn expands_only_the_native_parameter_limit() {
    let arguments: Vec<_> = (0..33).map(|index| format!("value-{index}")).collect();
    assert_eq!(
        expand_action_templates("$(Arg31) $(Arg32)", &arguments),
        "value-31 $(Arg32)"
    );
}

#[test]
fn comparison_preserves_protection_rights_and_ace_order() {
    let descriptor = |text| SecurityDescriptor::from_sddl(text).expect("fixture SDDL");
    let expected = descriptor("D:P(A;;FA;;;SY)(D;;FR;;;BA)");
    assert!(expected.access_equivalent(&descriptor("D:PAI(A;;FA;;;SY)(D;;FR;;;BA)")));
    for other in [
        "D:(A;;FA;;;SY)(D;;FR;;;BA)",
        "D:P(D;;FR;;;BA)(A;;FA;;;SY)",
        "D:P(A;;FR;;;SY)(D;;FR;;;BA)",
    ] {
        assert!(!expected.access_equivalent(&descriptor(other)));
    }
}

#[test]
fn reports_missing_action() {
    assert!(!TaskDefinition::default().validate().is_valid());
}

#[test]
fn accepts_minimal_exec_task() {
    let definition = TaskDefinition::new(Action::Exec(ExecAction::new("cmd.exe")));
    assert!(definition.validate().is_valid());
}

#[test]
fn rejects_principal_logon_mismatch() {
    let mut definition = TaskDefinition::new(Action::Exec(ExecAction::new("cmd.exe")));
    definition.principal.logon_type = LogonType::Group;
    definition.principal.identity = PrincipalIdentity::User("someone".into());
    assert!(!definition.validate().is_valid());
}

#[test]
fn empty_sddl_is_rejected() {
    assert!(SecurityDescriptor::from_sddl("").is_err());
    assert!(SecurityDescriptor::from_sddl("D:\0").is_err());
    assert_eq!(
        SecurityDescriptor::from_sddl("D:(A;;GA;;;SY)").expect("sddl").as_sddl(),
        "D:(A;;GA;;;SY)"
    );
}

#[test]
fn templates_substitute_every_occurrence() {
    let arguments = vec!["x".to_string(), "y".to_string()];
    assert_eq!(expand_action_templates("$(Arg0)-$(Arg1)-$(Arg0)", &arguments), "x-y-x");
    assert_eq!(expand_action_templates("$(Arg2)", &arguments), "$(Arg2)");
}
