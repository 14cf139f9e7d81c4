use herdr_caffeinate::decode::{
    decode_event, decode_status_event, snapshot_from_result, DecodeError,
};
use herdr_caffeinate::json::Json;
use herdr_caffeinate::messages::{
    is_pane_lifecycle_event, lifecycle_message, lifecycle_reader_step, parse_lifecycle_message,
    parse_status_message, read_buffered_events, read_buffered_statuses, response, status_message,
    status_reader_step, MessageError, ReaderEvent, ReaderStep,
};
use herdr_caffeinate::codec::parse_json;
use herdr_caffeinate::model::{AgentStatus, HerdrEventData, HerdrMessage};

fn json(text: &str) -> Json {
    parse_json(text).unwrap()
}

fn status_of(text: &str) -> Result<AgentStatus, String> {
    match decode_status_event(&json(text)) {
        Ok(event) => Ok(event.data.agent_status),
        Err(error) => Err(error.message()),
    }
}

fn refused(sentence: &str) -> Result<AgentStatus, String> {
    Err(sentence.to_owned())
}

#[test]
fn recognizes_success_event_lifecycle_names() {
    assert!(is_pane_lifecycle_event("pane_created"));
    assert!(is_pane_lifecycle_event("pane_closed"));
    assert!(!is_pane_lifecycle_event("pane.created"));
}

#[test]
fn lifecycle_line_is_read() {
    let read = parse_lifecycle_message("{\"event\":\"pane_closed\",\"data\":{}}\n");
    assert!(matches!(read, Ok(Some(HerdrMessage::Lifecycle(_)))));
}

#[test]
fn responses_and_other_events_are_no_lifecycle_messages() {
    let response = parse_lifecycle_message("{\"id\":null,\"event\":\"pane_closed\"}");
    assert!(matches!(response, Ok(None)));
    let other = parse_lifecycle_message("{\"event\":\"pane_moved\"}");
    assert!(matches!(other, Ok(None)));
    let number = parse_lifecycle_message("{\"event\":3}");
    assert!(matches!(number, Ok(None)));
    assert!(lifecycle_message(Json::Array(vec![])).is_none());
}

#[test]
fn malformed_lines_are_reported() {
    let lifecycle = parse_lifecycle_message("{").unwrap_err();
    assert!(matches!(lifecycle, MessageError::MalformedLifecycle(_)));
    assert_eq!(lifecycle.into_report().0, "parse lifecycle message");
    let status = parse_status_message("{").unwrap_err();
    assert!(matches!(status, MessageError::MalformedStatus(_)));
    let (message, source) = status.into_report();
    assert_eq!(message, "parse status message");
    assert!(source.is_some());
}

#[test]
fn status_line_is_read() {
    let read = parse_status_message(
        "{\"event\":\"pane.agent_status_changed\",\"data\":{\"pane_id\":\"p\",\"agent_status\":\"done\"}}",
    );
    match read {
        Ok(Some(HerdrMessage::Status(event))) => {
            assert_eq!(event.pane_id, "p");
            assert_eq!(event.agent_status, AgentStatus::Done);
        }
        other => panic!("{other:?}"),
    }
}

#[test]
fn responses_and_other_events_are_no_status_messages() {
    assert!(matches!(parse_status_message("{\"id\":\"x\"}"), Ok(None)));
    assert!(matches!(
        parse_status_message("{\"event\":\"pane_agent_status_changed\"}"),
        Ok(None)
    ));
    assert!(matches!(status_message(Json::Null), Ok(None)));
}

#[test]
fn undecodable_status_is_reported() {
    let read = parse_status_message("{\"event\":\"pane.agent_status_changed\",\"data\":{}}");
    match read {
        Err(error) => {
            assert!(matches!(
                error,
                MessageError::Undecodable(DecodeError::MissingField { field: "pane_id" })
            ));
            let (message, source) = error.into_report();
            assert_eq!(message, "missing field `pane_id`");
            assert!(source.is_none());
        }
        other => panic!("{other:?}"),
    }
}

#[test]
fn every_status_is_read_from_its_name() {
    let pairs = [
        ("idle", AgentStatus::Idle),
        ("working", AgentStatus::Working),
        ("blocked", AgentStatus::Blocked),
        ("done", AgentStatus::Done),
        ("unknown", AgentStatus::Unknown),
    ];
    for (name, status) in pairs {
        let text = format!("{{\"data\":{{\"pane_id\":\"p\",\"agent_status\":\"{name}\"}}}}");
        assert_eq!(status_of(&text), Ok(status));
    }
    assert_eq!(
        status_of("{\"data\":{\"pane_id\":\"p\",\"agent_status\":\"Idle\"}}"),
        refused("unknown variant `Idle`, expected one of `idle`, `working`, `blocked`, `done`, `unknown`")
    );
    assert_eq!(
        status_of("{\"data\":{\"pane_id\":\"p\",\"agent_status\":false}}"),
        refused("invalid type: boolean `false`, expected string or map")
    );
}

#[test]
fn status_may_be_an_object_of_its_name() {
    let with = |status: &str| {
        status_of(&format!("{{\"data\":{{\"pane_id\":\"p\",\"agent_status\":{status}}}}}"))
    };
    assert_eq!(with("{\"done\":null}"), Ok(AgentStatus::Done));
    assert_eq!(with("{\"done\":{}}"), refused("invalid type: map, expected unit"));
    assert_eq!(
        with("{\"over\":{}}"),
        refused("unknown variant `over`, expected one of `idle`, `working`, `blocked`, `done`, `unknown`")
    );
    let several = "invalid value: map, expected map with a single key";
    assert_eq!(with("{\"done\":null,\"idle\":null}"), refused(several));
    assert_eq!(with("{}"), refused(several));
}

#[test]
fn records_may_be_arrays_of_their_fields() {
    assert_eq!(status_of("{\"data\":[\"p\",\"idle\"]}"), Ok(AgentStatus::Idle));
    assert_eq!(status_of("[[\"p\",\"working\"]]"), Ok(AgentStatus::Working));
    assert_eq!(
        status_of("{\"data\":[\"p\",\"idle\",1]}"),
        refused("invalid length 3, expected fewer elements in array")
    );
    assert_eq!(
        status_of("{\"data\":[\"p\"]}"),
        refused("invalid length 1, expected struct AgentStatusChanged with 2 elements")
    );
    assert_eq!(
        status_of("[]"),
        refused("invalid length 0, expected struct SubscriptionEvent with 1 element")
    );
    assert_eq!(
        status_of("[[\"p\",\"idle\"],0]"),
        refused("invalid length 2, expected fewer elements in array")
    );
    let snapshot = snapshot_from_result(&json("[[[[\"p\",\"done\"]]]]")).unwrap();
    assert_eq!(snapshot.snapshot.panes[0].pane_id, "p");
}

#[test]
fn what_is_wrong_first_is_reported() {
    let with = |data: &str| status_of(&format!("{{\"data\":{data}}}"));
    assert_eq!(
        with("{\"pane_id\":1,\"agent_status\":2}"),
        refused("invalid type: integer `2`, expected string or map")
    );
    assert_eq!(
        with("{\"pane_id\":1}"),
        refused("invalid type: integer `1`, expected a string")
    );
    assert_eq!(
        with("[1,2,3]"),
        refused("invalid type: integer `1`, expected a string")
    );
    assert_eq!(with("{\"pane_id\":\"p\"}"), refused("missing field `agent_status`"));
    assert_eq!(with("{}"), refused("missing field `pane_id`"));
}

#[test]
fn values_are_described_as_serde_describes_them() {
    for text in [
        "null", "true", "0", "18446744073709551615", "-9223372036854775808", "-2.5", "1e300",
        "100000000000000000000", "[1]", "{\"a\":1}",
    ] {
        let real = serde_json::from_value::<String>(serde_json::from_str(text).unwrap());
        assert_eq!(
            status_of(&format!("{{\"data\":[{text}]}}")),
            refused(&real.unwrap_err().to_string())
        );
    }
    for text in ["\"\"", "\"a\\n\\\"'\\u0007\\u00e9\\ud83d\\ude00\""] {
        let real = serde_json::from_value::<Vec<String>>(serde_json::from_str(text).unwrap());
        let error = snapshot_from_result(&json(&format!("[[{text}]]"))).unwrap_err();
        assert_eq!(error.message(), real.unwrap_err().to_string());
    }
}

#[test]
fn snapshot_errors_name_what_is_wrong() {
    let error = |text: &str| snapshot_from_result(&json(text)).unwrap_err().message();
    assert_eq!(error("null"), "invalid type: null, expected struct SnapshotResponseResult");
    assert_eq!(error("{}"), "missing field `snapshot`");
    assert_eq!(error("{\"snapshot\":{}}"), "missing field `panes`");
    assert_eq!(
        error("{\"snapshot\":1.5}"),
        "invalid type: floating point `1.5`, expected struct SessionSnapshot"
    );
    assert_eq!(
        error("[[]]"),
        "invalid length 0, expected struct SessionSnapshot with 1 element"
    );
    assert_eq!(
        error("{\"snapshot\":{\"panes\":{}}}"),
        "invalid type: map, expected a sequence"
    );
    assert_eq!(
        error("{\"snapshot\":{\"panes\":[{\"pane_id\":1,\"agent_status\":\"idle\"}]}}"),
        "invalid type: integer `1`, expected a string"
    );
    assert_eq!(
        error("{\"snapshot\":{\"panes\":[[\"a\",\"idle\"],[\"b\",\"busy\"]]}}"),
        "unknown variant `busy`, expected one of `idle`, `working`, `blocked`, `done`, `unknown`"
    );
    assert_eq!(
        error("{\"snapshot\":{\"panes\":[\"a\"]}}"),
        "invalid type: string \"a\", expected struct PaneState"
    );
    assert_eq!(
        error("{\"snapshot\":[[],[]]}"),
        "invalid length 2, expected fewer elements in array"
    );
}

#[test]
fn lifecycle_events_are_decoded() {
    let created = json(
        "{\"event\":\"pane_created\",\"data\":{\"type\":\"pane_created\",\
         \"pane\":{\"pane_id\":\"p\",\"agent_status\":\"working\",\"cwd\":\"/\"}}}",
    );
    match decode_event(&created).unwrap().data {
        HerdrEventData::PaneCreated { pane } => {
            assert_eq!(pane.pane_id, "p");
            assert_eq!(pane.agent_status, AgentStatus::Working);
        }
        other => panic!("{other:?}"),
    }
    let closed = json("{\"data\":{\"type\":\"pane_closed\",\"pane_id\":\"p\"}}");
    match decode_event(&closed).unwrap().data {
        HerdrEventData::PaneClosed { pane_id } => assert_eq!(pane_id, "p"),
        other => panic!("{other:?}"),
    }
    let other = json("{\"data\":{\"type\":\"pane_moved\",\"x\":1}}");
    assert!(matches!(
        decode_event(&other).unwrap().data,
        HerdrEventData::Other
    ));
}

#[test]
fn event_data_may_be_an_array() {
    let created = json("{\"data\":[\"pane_created\",[\"p\",{\"idle\":{}}]]}");
    match decode_event(&created).unwrap().data {
        HerdrEventData::PaneCreated { pane } => {
            assert_eq!(pane.pane_id, "p");
            assert_eq!(pane.agent_status, AgentStatus::Idle);
        }
        other => panic!("{other:?}"),
    }
    let closed = json("{\"data\":[\"pane_closed\",\"p\"]}");
    assert!(matches!(
        decode_event(&closed).unwrap().data,
        HerdrEventData::PaneClosed { pane_id } if pane_id == "p"
    ));
    let bare = json("{\"data\":[\"pane_moved\"]}");
    assert!(matches!(decode_event(&bare).unwrap().data, HerdrEventData::Other));
    let long = json("{\"data\":[\"pane_moved\",1]}");
    assert_eq!(
        decode_event(&long).unwrap_err().message(),
        "invalid length 1, expected 0 elements in sequence"
    );
    let empty = json("{\"data\":[]}");
    assert_eq!(decode_event(&empty).unwrap_err().message(), "missing field `type`");
}

#[test]
fn event_errors_name_what_is_wrong() {
    let error = |text: &str| decode_event(&json(text)).unwrap_err().message();
    assert_eq!(error("{}"), "missing field `data`");
    assert_eq!(error("7"), "invalid type: integer `7`, expected struct HerdrEvent");
    assert_eq!(error("{\"data\":{}}"), "missing field `type`");
    assert_eq!(
        error("{\"data\":{\"type\":0}}"),
        "invalid type: integer `0`, expected variant identifier"
    );
    assert_eq!(
        error("{\"data\":\"pane_closed\"}"),
        "invalid type: string \"pane_closed\", expected internally tagged enum HerdrEventData"
    );
    assert_eq!(error("{\"data\":{\"type\":\"pane_closed\"}}"), "missing field `pane_id`");
    assert_eq!(
        error("{\"data\":{\"type\":\"pane_closed\",\"pane_id\":7}}"),
        "invalid type: integer `7`, expected a string"
    );
    assert_eq!(error("{\"data\":{\"type\":\"pane_created\"}}"), "missing field `pane`");
    assert_eq!(
        error("{\"data\":{\"type\":\"pane_created\",\"pane\":null}}"),
        "invalid type: null, expected struct PaneState"
    );
    assert_eq!(
        error("{\"data\":[\"pane_created\"]}"),
        "invalid length 0, expected struct variant HerdrEventData::PaneCreated with 1 element"
    );
    assert_eq!(
        error("{\"data\":[\"pane_closed\",\"p\",1,2]}"),
        "invalid length 3, expected 1 element in sequence"
    );
    assert_eq!(
        error("{\"data\":[\"pane_created\",[\"p\",\"idle\",0]]}"),
        "invalid length 3, expected 2 elements in sequence"
    );
}

#[test]
fn malformed_lines_carry_the_reader_sentence() {
    let real = |text: &str| {
        let value: Result<serde_json::Value, serde_json::Error> = serde_json::from_str(text);
        Some(value.unwrap_err().to_string())
    };
    for text in ["", "{\"a\":", "[1,]", "nul", "{} {}"] {
        let lifecycle = parse_lifecycle_message(text).unwrap_err();
        assert_eq!(lifecycle.into_report().1, real(text));
        let status = parse_status_message(text).unwrap_err();
        assert_eq!(status.into_report().1, real(text));
    }
}

#[test]
fn buffered_statuses_stop_at_the_first_unreadable_line() {
    let report = |pane: &str| {
        format!(
            "{{\"event\":\"pane.agent_status_changed\",\"data\":{{\"pane_id\":\"{pane}\",\"agent_status\":\"idle\"}}}}"
        )
    };
    let (all, failure) =
        read_buffered_statuses(&vec![report("a"), "{\"event\":\"x\"}".to_owned(), report("b")]);
    assert_eq!(all.len(), 2);
    assert!(failure.is_none());

    let (some, failure) = read_buffered_statuses(&vec![report("a"), "oops".to_owned(), report("b")]);
    assert_eq!(some.len(), 1);
    assert!(matches!(&some[0], HerdrMessage::Status(event) if event.pane_id == "a"));
    assert!(matches!(failure, Some(MessageError::MalformedStatus(_))));
}

#[test]
fn buffered_events_are_read_up_to_the_first_failure() {
    let created = "{\"event\":\"pane_created\"}".to_owned();
    let status = "{\"event\":\"pane.agent_status_changed\"}".to_owned();
    let (all, failure) = read_buffered_events(&vec![created.clone(), status, created.clone()]);
    assert_eq!(all.len(), 2);
    assert!(matches!(&all[1], HerdrMessage::Lifecycle(_)));
    assert!(failure.is_none());

    let (some, failure) = read_buffered_events(&vec![created.clone(), "{".to_owned(), created]);
    assert_eq!(some.len(), 1);
    assert!(matches!(failure, Some(MessageError::MalformedLifecycle(_))));
}

#[test]
fn lifecycle_reader_hands_on_events_until_its_socket_closes() {
    let line = |text: &str| lifecycle_reader_step(ReaderEvent::Line(text.to_owned()));
    assert!(matches!(
        line("{\"event\":\"pane_created\"}"),
        ReaderStep::Forward(HerdrMessage::Lifecycle(_))
    ));
    assert!(matches!(line("{\"id\":\"x\"}"), ReaderStep::Response(_)));
    assert!(matches!(line("{\"event\":\"pane_moved\"}"), ReaderStep::Skip));
    assert!(matches!(line("x"), ReaderStep::Report(_)));
    assert!(matches!(
        lifecycle_reader_step(ReaderEvent::Closed),
        ReaderStep::Finish(HerdrMessage::SocketClosed { pane_id: None })
    ));
    assert!(matches!(
        lifecycle_reader_step(ReaderEvent::Failed),
        ReaderStep::Finish(HerdrMessage::SocketClosed { pane_id: None })
    ));
}

#[test]
fn status_reader_hands_on_reports_until_its_socket_closes() {
    let line = |text: &str| status_reader_step("p", ReaderEvent::Line(text.to_owned()));
    assert!(matches!(
        line("{\"event\":\"pane.agent_status_changed\",\"data\":[\"p\",\"idle\"]}"),
        ReaderStep::Forward(HerdrMessage::Status(_))
    ));
    assert!(matches!(line("{\"event\":\"pane_created\"}"), ReaderStep::Skip));
    assert!(matches!(
        line("{\"event\":\"pane.agent_status_changed\"}"),
        ReaderStep::Report(MessageError::Undecodable(DecodeError::MissingField { .. }))
    ));
    assert!(matches!(
        status_reader_step("p", ReaderEvent::Closed),
        ReaderStep::Finish(HerdrMessage::SocketClosed { pane_id: Some(id) }) if id == "p"
    ));
}

#[test]
fn reader_hands_on_what_its_lines_hold_and_closes_once() {
    let mut sent = Vec::new();
    for text in ["{\"event\":\"pane_created\"}", "oops", "{\"id\":1}", "{\"event\":\"pane_closed\"}"] {
        match lifecycle_reader_step(ReaderEvent::Line(text.to_owned())) {
            ReaderStep::Forward(message) => sent.push(message),
            ReaderStep::Response(_) | ReaderStep::Skip | ReaderStep::Report(_) => {}
            ReaderStep::Finish(message) => panic!("{message:?}"),
        }
    }
    match lifecycle_reader_step(ReaderEvent::Closed) {
        ReaderStep::Finish(message) => sent.push(message),
        other => panic!("{other:?}"),
    }
    assert_eq!(sent.len(), 3);
    assert!(matches!(&sent[0], HerdrMessage::Lifecycle(json) if json.has_text("event", "pane_created")));
    assert!(matches!(&sent[1], HerdrMessage::Lifecycle(json) if json.has_text("event", "pane_closed")));
    assert!(matches!(&sent[2], HerdrMessage::SocketClosed { pane_id: None }));
}

#[test]
fn responses_name_their_request_and_result() {
    let told = |text: &str| response(json(text));
    let started = told("{\"id\":\"r\",\"result\":{\"type\":\"subscription_started\"}}").unwrap();
    assert_eq!(started.id.as_str(), Some("r"));
    assert_eq!(started.result_type, "subscription_started");
    let plain = told("{\"id\":7,\"result\":{\"type\":1}}").unwrap();
    assert!(matches!(plain.id, Json::Unsigned(7)));
    assert_eq!(plain.result_type, "unknown");
    assert_eq!(told("{\"id\":null}").unwrap().result_type, "unknown");
    assert!(told("{\"event\":\"pane_created\"}").is_none());
    assert!(told("[\"id\"]").is_none());

    let status = status_reader_step("p", ReaderEvent::Line("{\"id\":\"r\"}".to_owned()));
    assert!(matches!(status, ReaderStep::Response(found) if found.id.as_str() == Some("r")));
}
