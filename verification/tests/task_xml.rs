use windows_task::model::{
    Action, BootTrigger, ComHandlerAction, DailyTrigger, EmailAction, EmailHeader, EventTrigger,
    ExecAction, IdleSettings, IdleTrigger, LogonTrigger, LogonType, MaintenanceSettings, Month,
    MonthlyDowTrigger, MonthlyTrigger, MultipleInstancesPolicy, NetworkSettings,
    PrincipalIdentity, ProcessTokenSidType, RegistrationTrigger, Repetition, RestartPolicy,
    RunLevel, ServiceAccount, SessionStateChange, SessionStateChangeTrigger, ShowMessageAction,
    TaskDateTime, TaskDefinition, TaskDuration, TaskLimit, TaskSchemaVersion, TaskSettings,
    TimeTrigger, Trigger, TriggerCommon, WeekOfMonth, Weekday, WeeklyTrigger, XmlExtension,
};
use windows_task::xml::{from_bytes, to_string, to_utf16le, without_declaration, TaskSnapshot};

fn round_trip(definition: &TaskDefinition) {
    let xml = to_string(definition).expect("serialize schema fixture");
    assert_eq!(
        from_bytes(xml.as_bytes()).expect("parse UTF8 fixture"),
        *definition
    );
    assert_eq!(
        from_bytes(&to_utf16le(definition).expect("serialize UTF16 fixture"))
            .expect("parse UTF16 fixture"),
        *definition
    );
}

fn daily_definition(enabled: bool) -> TaskDefinition {
    let boundary = TaskDateTime::wall_clock(2026, 9, 5, 6, 0, 0).expect("fixed anchor");
    let mut trigger = DailyTrigger::new(boundary);
    trigger.common.enabled = enabled;
    let mut definition = TaskDefinition::new(Action::Exec(ExecAction::new("agent.exe")));
    definition
        .triggers
        .push(Trigger::Daily(trigger))
        .expect("one trigger");
    definition.settings.enabled = enabled;
    definition
}

fn only_trigger(definition: &TaskDefinition) -> &TriggerCommon {
    definition
        .triggers
        .as_slice()
        .first()
        .and_then(Trigger::common)
        .expect("one known trigger")
}

#[test]
fn minimal_definition_round_trips() {
    let definition = TaskDefinition::new(Action::Exec(
        ExecAction::new("cmd.exe").args(&["/c", "echo hello"]),
    ));
    let xml = to_string(&definition).expect("serialize");
    let decoded = from_bytes(xml.as_bytes()).expect("parse");
    assert_eq!(decoded, definition);
}

#[test]
fn utf16le_round_trips() {
    let definition = TaskDefinition::new(Action::Exec(ExecAction::new("pwsh.exe")));
    let xml = to_utf16le(&definition).expect("UTF-16");
    let declaration = String::from_utf16(
        &xml[2..]
            .chunks_exact(2)
            .map(|bytes| u16::from_le_bytes([bytes[0], bytes[1]]))
            .collect::<Vec<_>>(),
    )
    .expect("valid UTF-16");
    assert!(declaration.starts_with("<?xml version=\"1.0\" encoding=\"UTF-16\"?>"));
    assert_eq!(from_bytes(&xml).expect("parse"), definition);
}

#[test]
fn strips_the_encoding_declaration_for_bstr_transport() {
    let definition = TaskDefinition::new(Action::Exec(ExecAction::new("cmd.exe")));
    let xml = to_string(&definition).expect("serialize");
    let transported = without_declaration(&xml);
    assert!(!transported.contains("encoding="));
    assert!(transported.trim_start().starts_with("<Task "));
    assert_eq!(
        from_bytes(transported.as_bytes()).expect("parse"),
        definition
    );
}

#[test]
fn native_principal_logon_types_are_omitted_and_inferred() {
    let cases = [
        (
            PrincipalIdentity::Group("BUILTIN\\Users".into()),
            LogonType::Group,
        ),
        (
            PrincipalIdentity::ServiceAccount(ServiceAccount::LocalSystem),
            LogonType::ServiceAccount,
        ),
    ];

    for (identity, logon_type) in cases {
        let mut definition = TaskDefinition::new(Action::Exec(ExecAction::new("cmd.exe")));
        definition.principal.identity = identity;
        definition.principal.logon_type = logon_type;

        let xml = to_string(&definition).expect("serialize");
        assert!(!xml.contains("<LogonType>"));
        assert_eq!(from_bytes(xml.as_bytes()).expect("parse"), definition);
    }
}

#[test]
fn root_extension_survives_typed_round_trip() {
    let mut definition = TaskDefinition::new(Action::Exec(ExecAction::new("cmd.exe")));
    definition.extensions.push(XmlExtension {
        parent: "Task".into(),
        ordinal: 1,
        xml: "<FutureSetting xmlns=\"urn:future\"><Value>yes</Value></FutureSetting>".into(),
    });
    let xml = to_string(&definition).expect("serialize");
    let decoded = from_bytes(xml.as_bytes()).expect("parse");
    assert_eq!(decoded.extensions.len(), 1);
    assert_eq!(decoded.extensions[0].parent, "Task");
}

#[test]
fn inactive_native_idle_settings_do_not_enable_idle_only_execution() {
    for condition in ["", "<RunOnlyIfIdle>false</RunOnlyIfIdle>"] {
        let input = format!(
            r#"<Task version="1.6"><Settings>{condition}<IdleSettings><StopOnIdleEnd>true</StopOnIdleEnd></IdleSettings></Settings><Actions><Exec><Command>fixture.exe</Command></Exec></Actions></Task>"#
        );
        let definition = from_bytes(input.as_bytes()).expect("native idle defaults");
        assert!(definition.settings.idle.is_none());
        assert!(to_string(&definition)
            .expect("write")
            .contains("<RunOnlyIfIdle>false</RunOnlyIfIdle>"));
    }
}

#[test]
fn all_known_actions_preserve_fields() {
    for action in [
        Action::Exec(ExecAction {
            id: Some("exec".into()),
            command: "fixture.exe".into(),
            arguments: Some("&<quoted>".into()),
            working_directory: Some("C:\\fixture".into()),
            hide_window: true,
        }),
        Action::ComHandler(ComHandlerAction {
            id: Some("com".into()),
            class_id: uuid::Uuid::nil().as_u128(),
            data: Some("&<data>".into()),
        }),
        Action::Email(EmailAction {
            id: Some("email".into()),
            server: "localhost".into(),
            subject: Some("subject".into()),
            from: Some("from@example.test".into()),
            to: Some("to@example.test".into()),
            cc: Some("cc@example.test".into()),
            bcc: Some("bcc@example.test".into()),
            reply_to: Some("reply@example.test".into()),
            body: Some("&<body>".into()),
            attachments: vec!["C:\\fixture.txt".into()],
            headers: vec![EmailHeader {
                name: "X-Fixture".into(),
                value: "value".into(),
            }],
        }),
        Action::ShowMessage(ShowMessageAction {
            id: Some("message".into()),
            title: Some("title".into()),
            body: "&<message>".into(),
        }),
    ] {
        round_trip(&TaskDefinition::new(action));
    }
}

#[test]
fn all_known_trigger_families_preserve_common_and_specific_fields() {
    let delay = Some(TaskDuration::from_secs(60));
    let common = TriggerCommon {
        id: Some("trigger".into()),
        start_boundary: Some(TaskDateTime::parse("2026-01-01T01:00:00+09:00").expect("date")),
        end_boundary: Some(TaskDateTime::parse("2027-01-01T01:00:00+09:00").expect("date")),
        enabled: true,
        execution_time_limit: Some(TaskLimit::Unlimited),
        repetition: Some(Repetition {
            interval: TaskDuration::from_secs(60),
            duration: Some(TaskDuration::from_secs(3600)),
            stop_at_duration_end: true,
        }),
    };
    let triggers = vec![
        Trigger::Boot(BootTrigger {
            common: common.clone(),
            delay,
        }),
        Trigger::Registration(RegistrationTrigger {
            common: common.clone(),
            delay,
        }),
        Trigger::Idle(IdleTrigger {
            common: common.clone(),
        }),
        Trigger::Time(TimeTrigger {
            common: common.clone(),
            random_delay: delay,
        }),
        Trigger::Event(EventTrigger {
            common: common.clone(),
            subscription:
                "<QueryList><Query Id=\"0\"><Select Path=\"System\">*</Select></Query></QueryList>"
                    .into(),
            value_queries: vec![("value".into(), "Event/EventData/Data".into())],
            delay,
            period_of_occurrence: delay,
            number_of_occurrences: Some(2),
            matching_element: Some("Event/System/EventID".into()),
        }),
        Trigger::Logon(LogonTrigger {
            common: common.clone(),
            user_id: Some("fixture".into()),
            delay,
        }),
        Trigger::SessionStateChange(SessionStateChangeTrigger {
            common: common.clone(),
            state_change: SessionStateChange::SessionLock,
            user_id: Some("fixture".into()),
            delay,
        }),
        Trigger::Daily(DailyTrigger {
            common: common.clone(),
            days_interval: 2,
            random_delay: delay,
        }),
        Trigger::Weekly(WeeklyTrigger {
            common: common.clone(),
            weeks_interval: 2,
            days_of_week: vec![Weekday::Monday, Weekday::Friday],
            random_delay: delay,
        }),
        Trigger::Monthly(MonthlyTrigger {
            common: common.clone(),
            days_of_month: vec![1, 31],
            months: vec![Month::January, Month::December],
            run_on_last_day: true,
            random_delay: delay,
        }),
        Trigger::MonthlyDow(MonthlyDowTrigger {
            common,
            weeks_of_month: vec![WeekOfMonth::First],
            days_of_week: vec![Weekday::Friday],
            months: vec![Month::February],
            run_on_last_week: true,
            random_delay: delay,
        }),
    ];
    for trigger in triggers {
        let mut definition = TaskDefinition::new(Action::Exec(ExecAction::new("fixture.exe")));
        definition.triggers.push(trigger).expect("one trigger");
        round_trip(&definition);
    }
}

#[test]
fn settings_and_schema_versions_round_trip() {
    for schema in [
        TaskSchemaVersion::V1_2,
        TaskSchemaVersion::V1_3,
        TaskSchemaVersion::V1_4,
        TaskSchemaVersion::V1_5,
        TaskSchemaVersion::V1_6,
    ] {
        let mut definition = TaskDefinition::new(Action::Exec(ExecAction::new("fixture.exe")));
        definition.schema_version = schema;
        definition.settings = TaskSettings {
            allow_demand_start: false,
            restart_on_failure: Some(RestartPolicy {
                interval: TaskDuration::from_secs(60),
                count: 2,
            }),
            multiple_instances: MultipleInstancesPolicy::Queue,
            disallow_start_if_on_batteries: false,
            stop_if_going_on_batteries: false,
            allow_hard_terminate: false,
            start_when_available: true,
            network: Some(NetworkSettings {
                id: Some(uuid::Uuid::nil().to_string()),
                name: Some("fixture".into()),
            }),
            execution_time_limit: TaskLimit::Unlimited,
            enabled: false,
            delete_expired_after: Some(TaskDuration::from_secs(60)),
            priority: 3,
            idle: Some(IdleSettings {
                duration: TaskDuration::from_secs(60),
                wait_timeout: TaskDuration::from_secs(120),
                stop_on_idle_end: false,
                restart_on_idle: true,
            }),
            wake_to_run: true,
            hidden: true,
            use_unified_scheduling_engine: true,
            disallow_start_on_remote_app_session: true,
            maintenance: Some(MaintenanceSettings {
                period: TaskDuration::from_secs(86400),
                deadline: TaskDuration::from_secs(172_800),
                exclusive: true,
            }),
            volatile: true,
        };
        if definition.schema_version != TaskSchemaVersion::V1_6 {
            assert!(
                !definition.validate().is_valid(),
                "older schemas cannot represent every new setting"
            );
            assert!(!to_string(&definition)
                .expect_err("invalid schema must not serialize")
                .diagnostics()
                .is_empty());
            definition.settings.maintenance = None;
            definition.settings.volatile = false;
            definition.settings.use_unified_scheduling_engine = false;
            definition.settings.disallow_start_on_remote_app_session = false;
        }
        round_trip(&definition);
    }
}

#[test]
fn logon_identities_preserve_semantics() {
    for (identity, logon_type) in [
        (PrincipalIdentity::Unspecified, LogonType::Unspecified),
        (
            PrincipalIdentity::User("fixture".into()),
            LogonType::Password,
        ),
        (PrincipalIdentity::User("fixture".into()), LogonType::S4u),
        (
            PrincipalIdentity::User("fixture".into()),
            LogonType::InteractiveToken,
        ),
        (
            PrincipalIdentity::User("fixture".into()),
            LogonType::InteractiveTokenOrPassword,
        ),
        (PrincipalIdentity::Group("fixture".into()), LogonType::Group),
        (
            PrincipalIdentity::ServiceAccount(ServiceAccount::LocalSystem),
            LogonType::ServiceAccount,
        ),
        (
            PrincipalIdentity::ServiceAccount(ServiceAccount::LocalService),
            LogonType::ServiceAccount,
        ),
        (
            PrincipalIdentity::ServiceAccount(ServiceAccount::NetworkService),
            LogonType::ServiceAccount,
        ),
    ] {
        let mut definition = TaskDefinition::new(Action::Exec(ExecAction::new("fixture.exe")));
        definition.principal.identity = identity;
        definition.principal.logon_type = logon_type;
        definition.principal.display_name = Some("fixture".into());
        definition.principal.run_level = RunLevel::HighestAvailable;
        definition.principal.process_token_sid_type = ProcessTokenSidType::Unrestricted;
        round_trip(&definition);
    }
}

#[test]
fn an_omitted_enabled_flag_means_enabled_on_every_input_path() {
    assert!(TriggerCommon::default().enabled);
    assert!(
        DailyTrigger::new(TaskDateTime::wall_clock(2026, 9, 5, 6, 0, 0).expect("anchor"))
            .common
            .enabled
    );

    let xml = to_string(&daily_definition(true)).expect("canonical XML");
    assert!(xml.contains("<Enabled>true</Enabled>"));
    let stripped = xml.replace("<Enabled>true</Enabled>", "");
    let decoded = from_bytes(stripped.as_bytes()).expect("XML without Enabled");
    assert!(only_trigger(&decoded).enabled);
    assert!(decoded.settings.enabled);
}

#[test]
fn an_explicit_disabled_flag_survives_every_round_trip() {
    let definition = daily_definition(false);
    let xml = to_string(&definition).expect("canonical XML");
    assert!(xml.contains("<Enabled>false</Enabled>"));
    let decoded = from_bytes(xml.as_bytes()).expect("XML round trip");
    assert!(!only_trigger(&decoded).enabled);
    assert!(!decoded.settings.enabled);
    assert_eq!(decoded, definition);
}

#[test]
fn invalid_definitions_report_all_actionable_field_locations() {
    let xml = br"<Task><Principals><Principal id=''/></Principals><Settings><Priority>11</Priority></Settings><Actions><Exec id='duplicate'><Command/></Exec><Exec id='duplicate'><Command>fixture.exe</Command></Exec></Actions></Task>";
    let definition = from_bytes(xml).expect("syntactically valid definition");
    let report = definition.validate();
    assert!(!report.is_valid());
    for path in [
        "principal.id",
        "settings.priority",
        "actions",
        "actions[0].command",
    ] {
        let diagnostic = report
            .errors()
            .into_iter()
            .find(|diagnostic| diagnostic.path == path)
            .expect("specific field diagnostic");
        assert!(!diagnostic.message.is_empty());
        assert!(diagnostic
            .remediation
            .as_ref()
            .is_some_and(|text| !text.is_empty()));
    }
    let error = to_string(&definition).expect_err("invalid registration cannot serialize");
    assert_eq!(error.diagnostics(), report.diagnostics.as_slice());
}

#[test]
fn incomplete_triggers_and_repetition_are_diagnosed_at_their_index() {
    for trigger in [
        "<CalendarTrigger><ScheduleByDay><DaysInterval>0</DaysInterval></ScheduleByDay></CalendarTrigger>",
        "<CalendarTrigger><ScheduleByWeek><WeeksInterval>0</WeeksInterval><DaysOfWeek/></ScheduleByWeek></CalendarTrigger>",
        "<CalendarTrigger><ScheduleByMonth><DaysOfMonth><Day>0</Day></DaysOfMonth><Months><January/></Months></ScheduleByMonth></CalendarTrigger>",
        "<CalendarTrigger><ScheduleByMonthDayOfWeek><Weeks/><DaysOfWeek><Monday/></DaysOfWeek><Months><January/></Months></ScheduleByMonthDayOfWeek></CalendarTrigger>",
        "<EventTrigger><Subscription/></EventTrigger>",
        "<TimeTrigger><Repetition><Interval>PT0S</Interval></Repetition></TimeTrigger>",
    ] {
        let xml = format!(
            "<Task><Triggers>{trigger}</Triggers><Actions><Exec><Command>fixture.exe</Command></Exec></Actions></Task>"
        );
        let definition = from_bytes(xml.as_bytes()).expect("parse invalid semantic fixture");
        let report = definition.validate();
        assert!(!report.is_valid(), "trigger {trigger}");
        assert!(report
            .errors()
            .iter()
            .any(|diagnostic| diagnostic.path.starts_with("triggers[0]")));
    }
}

#[test]
fn documents_that_are_not_tasks_or_hold_malformed_fields_are_rejected() {
    for document in [
        "<Job/>",
        "<Task><Settings><Priority>invalid</Priority></Settings></Task>",
        "<Task><Settings><Enabled>yes</Enabled></Settings></Task>",
        "<Task><Principals><Principal><RunLevel>Root</RunLevel></Principal></Principals></Task>",
        "<Task><Actions><Exec/></Actions></Task>",
        "<Task><Actions><ComHandler><ClassId>not-a-guid</ClassId></ComHandler></Actions></Task>",
        "<Task><Triggers><CalendarTrigger/></Triggers></Task>",
        "<Task><Triggers><BootTrigger><Delay>P1M</Delay></BootTrigger></Triggers></Task>",
        "<Task><RegistrationInfo><Date>yesterday</Date></RegistrationInfo></Task>",
    ] {
        from_bytes(document.as_bytes()).expect_err("malformed task document");
    }
}

#[test]
fn unknown_parts_are_kept_and_written_back_verbatim() {
    let input = "<Task><Triggers><FutureTrigger a=\"1\"><X>y</X></FutureTrigger></Triggers><Actions><Exec><Command>fixture.exe</Command></Exec><Launch id=\"z\"/></Actions><Settings><NewFlag>true</NewFlag></Settings></Task>";
    let definition = from_bytes(input.as_bytes()).expect("parse");
    match &definition.triggers.as_slice()[0] {
        Trigger::Unknown(u) => {
            assert_eq!(u.kind, "FutureTrigger");
            assert_eq!(u.xml, "<FutureTrigger a=\"1\"><X>y</X></FutureTrigger>");
        }
        other => panic!("unexpected trigger {other:?}"),
    }
    match &definition.actions.as_slice()[1] {
        Action::Unknown(u) => {
            assert_eq!(u.kind, "Launch");
            assert_eq!(u.xml, "<Launch id=\"z\" />");
        }
        other => panic!("unexpected action {other:?}"),
    }
    assert_eq!(definition.extensions.len(), 1);
    assert_eq!(definition.extensions[0].parent, "Task/Settings");
    assert_eq!(definition.extensions[0].ordinal, 0);
    assert_eq!(definition.extensions[0].xml, "<NewFlag>true</NewFlag>");
    let written = to_string(&definition).expect("write");
    assert!(written.contains("<Settings><NewFlag>true</NewFlag><AllowStartOnDemand>"));
    assert_eq!(from_bytes(written.as_bytes()).expect("parse again"), definition);
}

#[test]
fn canonical_text_escapes_markup_and_orders_elements() {
    let definition = TaskDefinition::new(Action::Exec(
        ExecAction::new("a&b").raw_arguments("<x> \"q\""),
    ));
    let xml = to_string(&definition).expect("write");
    assert!(xml.starts_with(
        "<?xml version=\"1.0\" encoding=\"UTF-8\"?>\r\n<Task version=\"1.6\" xmlns=\"http://schemas.microsoft.com/windows/2004/02/mit/task\">"
    ));
    assert!(xml.ends_with("</Task>\r\n"));
    assert!(xml.contains("<Actions Context=\"Author\"><Exec><Command>a&amp;b</Command><Arguments>&lt;x&gt; \"q\"</Arguments></Exec></Actions>"));
    assert!(xml.contains("<Principals><Principal id=\"Author\"><RunLevel>LeastPrivilege</RunLevel></Principal></Principals>"));
    assert!(xml.contains("<ExecutionTimeLimit>P3D</ExecutionTimeLimit><Priority>7</Priority>"));
}

#[test]
fn a_snapshot_keeps_raw_bytes_when_the_definition_cannot_be_read() {
    let bytes = b"<Task><Settings><Priority>invalid</Priority></Settings></Task>".to_vec();
    let snapshot = TaskSnapshot::parse(bytes.clone()).expect("bounded XML snapshot");
    assert_eq!(snapshot.raw().as_bytes(), bytes.as_slice());
    assert!(snapshot.definition().is_err());
    let good = TaskSnapshot::parse(
        b"<Task><Actions><Exec><Command>a.exe</Command></Exec></Actions></Task>".to_vec(),
    )
    .expect("snapshot");
    let definition = good.definition().expect("typed");
    assert_eq!(definition.actions.len(), 1);
    assert_eq!(definition.schema_version, TaskSchemaVersion::V1_2);
    assert!(good.into_definition().is_ok());
    TaskSnapshot::parse(b"<Task>".to_vec()).expect_err("unclosed document");
}
