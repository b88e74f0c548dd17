use windows_task::history::{
    event_kind, from_event_xml, history_gap, page_of, parse_result_code, parse_system_time,
    Cursor, HistoryEvent, HistoryEventKind, HistoryQuery, PAGE_SIZE,
};
use windows_task::{ErrorKind, TaskPath};

#[test]
fn event_ids_map_to_categories() {
    assert_eq!(event_kind(102), HistoryEventKind::Completed);
    assert_eq!(event_kind(140), HistoryEventKind::Registered);
    assert_eq!(event_kind(311), HistoryEventKind::Failed);
    assert_eq!(event_kind(7), HistoryEventKind::Unknown(7));
}

#[test]
fn result_codes_accept_hex_and_both_signed_forms() {
    assert_eq!(
        parse_result_code(" 0x80070005 ").expect("hex"),
        i32::from_ne_bytes(0x8007_0005_u32.to_ne_bytes())
    );
    assert_eq!(parse_result_code("0X1f").expect("hex"), 31);
    assert_eq!(parse_result_code("-5").expect("signed"), -5);
    assert_eq!(parse_result_code("+5").expect("signed"), 5);
    assert_eq!(
        parse_result_code("2147942405").expect("unsigned"),
        i32::from_ne_bytes(2_147_942_405_u32.to_ne_bytes())
    );
    for bad in ["", "0x", "0x1FFFFFFFF", "4294967296", "-2147483649", "1.5", "0xG"] {
        assert_eq!(parse_result_code(bad).expect_err("invalid").kind(), ErrorKind::Xml);
    }
}

#[test]
fn parses_task_scheduler_event_and_preserves_unknown_fields() {
    let xml = r#"<Event xmlns="http://schemas.microsoft.com/win/2004/08/events/event">
          <System><EventID>102</EventID><EventRecordID>42</EventRecordID>
          <TimeCreated SystemTime="2025-01-02T03:04:05.1234567Z"/></System>
          <EventData><Data Name="TaskName">\Acme\Backup</Data>
          <Data Name="InstanceId">{550e8400-e29b-41d4-a716-446655440000}</Data>
          <Data Name="ResultCode">0x80070005</Data><Data Name="Future">kept</Data></EventData>
          <RenderingInfo><Message>Task finished.</Message></RenderingInfo></Event>"#;
    let event = from_event_xml(xml).expect("event parses");
    assert_eq!(event.record_id, 42);
    assert_eq!(event.kind, HistoryEventKind::Completed);
    assert_eq!(
        event.task_path,
        Some("\\Acme\\Backup".parse::<TaskPath>().expect("path"))
    );
    assert_eq!(
        event.instance_id,
        Some(0x550e_8400_e29b_41d4_a716_4466_5544_0000)
    );
    assert_eq!(
        event.result_code,
        Some(i32::from_ne_bytes(0x8007_0005_u32.to_ne_bytes()))
    );
    assert_eq!(
        event
            .fields
            .iter()
            .find(|(key, _)| key == "Future")
            .map(|(_, value)| value.as_str()),
        Some("kept")
    );
    assert!(event.timestamp > 0);
    assert_eq!(event.message.as_deref(), Some("Task finished."));
}

#[test]
fn parses_fractional_timestamp_before_the_epoch() {
    let timestamp = parse_system_time("1969-12-31T23:59:59.5Z").expect("timestamp");
    assert_eq!(timestamp, -500_000_000);
}

#[test]
fn event_fields_are_kept_in_key_order_and_unnamed_data_is_numbered() {
    let xml = "<Event><System><EventID>201</EventID><EventRecordID>7</EventRecordID>\
        <TimeCreated SystemTime=\"1970-01-01T00:00:01Z\"/></System>\
        <EventData><Data Name=\"b\">2</Data><Data>first</Data><Data Name=\"a\"> 1 </Data>\
        <Data>second</Data><Data Name=\"b\">3</Data></EventData></Event>";
    let event = from_event_xml(xml).expect("event parses");
    assert_eq!(event.kind, HistoryEventKind::ActionCompleted);
    assert_eq!(event.timestamp, 1_000_000_000);
    let fields: Vec<(&str, &str)> = event
        .fields
        .iter()
        .map(|(key, value)| (key.as_str(), value.as_str()))
        .collect();
    assert_eq!(
        fields,
        vec![("Data0", "first"), ("Data1", "second"), ("a", "1"), ("b", "3")]
    );
    assert_eq!(event.task_path, None);
    assert_eq!(event.message, None);
}

#[test]
fn event_documents_without_required_parts_are_rejected() {
    let missing_time = "<Event><System><EventID>1</EventID><EventRecordID>2</EventRecordID></System></Event>";
    let error = from_event_xml(missing_time).expect_err("no timestamp");
    assert_eq!(error.kind(), ErrorKind::Xml);
    assert_eq!(error.message(), "event XML has no TimeCreated/SystemTime");
    let doctype = "<!DOCTYPE x [<!ENTITY e \"x\">]><Event/>";
    assert_eq!(from_event_xml(doctype).expect_err("dtd").kind(), ErrorKind::Xml);
    let bad_guid = "<Event><System><EventID>1</EventID><EventRecordID>2</EventRecordID>\
        <TimeCreated SystemTime=\"2024-01-01T00:00:00Z\"/></System>\
        <EventData><Data Name=\"instanceid\">not-a-guid</Data></EventData></Event>";
    assert_eq!(
        from_event_xml(bad_guid).expect_err("guid").message(),
        "invalid instance GUID in event"
    );
}

fn event_at(record_id: u64, instance: u128, timestamp: i128) -> HistoryEvent {
    HistoryEvent {
        record_id,
        event_id: 102,
        kind: HistoryEventKind::Completed,
        timestamp,
        task_path: Some("\\Acme\\Backup".parse::<TaskPath>().expect("path")),
        instance_id: Some(instance),
        result_code: None,
        fields: Vec::new(),
        message: None,
    }
}

#[test]
fn pages_keep_accepted_events_and_advance_the_cursor_past_every_read() {
    let query = HistoryQuery {
        task: Some("\\Acme\\Backup".parse::<TaskPath>().expect("path")),
        instance_id: Some(7),
        since: Some(10),
        limit: None,
        forward: true,
    };
    let rendered = vec![
        (event_at(1, 7, 5), "b1".to_string()),
        (event_at(2, 7, 20), "b2".to_string()),
        (event_at(3, 8, 30), "b3".to_string()),
    ];
    let page = page_of(&query, None, rendered, 3);
    assert_eq!(page.events.len(), 1);
    assert_eq!(page.events[0].record_id, 2);
    assert!(!page.more);
    let cursor = page.cursor.expect("cursor");
    assert_eq!(cursor.bookmark, "b3");
    assert_eq!(cursor.record_id, 3);
    let previous = Cursor { bookmark: "b0".to_string(), record_id: 9, timestamp: 1 };
    let empty = page_of(&query, Some(previous), Vec::new(), PAGE_SIZE);
    assert!(empty.more);
    assert_eq!(empty.cursor.expect("kept").bookmark, "b0");
    assert_eq!(history_gap().kind(), ErrorKind::HistoryGap);
}
