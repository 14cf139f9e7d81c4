use herdr_caffeinate::decode::{snapshot_from_result, DecodeError};
use herdr_caffeinate::json::Json;
use herdr_caffeinate::model::AgentStatus;
use herdr_caffeinate::replies::{
    classify_reply, is_subscription_ack, is_subscription_error, read_snapshot,
    snapshot_from_response, Handshake, HandshakeError, HandshakeStep, Reply, SnapshotError,
};

fn text(characters: &str) -> Json {
    Json::Text(characters.to_owned())
}

fn object(entries: Vec<(&str, Json)>) -> Json {
    Json::Object(
        entries
            .into_iter()
            .map(|(key, value)| (key.to_owned(), value))
            .collect(),
    )
}

fn line(characters: &str) -> Option<String> {
    Some(characters.to_owned())
}

#[test]
fn recognizes_subscription_acknowledgement() {
    let message = object(vec![
        ("id", text("global-subscription")),
        ("result", object(vec![("type", text("subscription_started"))])),
    ]);

    assert!(is_subscription_ack(&message, "global-subscription"));
}

#[test]
fn does_not_treat_lifecycle_event_as_subscription_acknowledgement() {
    let message = object(vec![
        ("event", text("pane_created")),
        (
            "data",
            object(vec![("type", text("pane_created")), ("pane", object(vec![]))]),
        ),
    ]);

    assert!(!is_subscription_ack(&message, "global-subscription"));
}

#[test]
fn recognizes_subscription_error() {
    let message = object(vec![
        ("id", text("global-subscription")),
        (
            "error",
            object(vec![
                ("code", text("invalid_params")),
                ("message", text("bad subscription")),
            ]),
        ),
    ]);

    assert!(is_subscription_error(&message, "global-subscription"));
}

#[test]
fn parses_session_snapshot_result_wrapper() {
    let result = object(vec![
        ("type", text("session_snapshot")),
        (
            "snapshot",
            object(vec![(
                "panes",
                Json::Array(vec![object(vec![
                    ("pane_id", text("pane-1")),
                    ("agent_status", text("working")),
                ])]),
            )]),
        ),
    ]);

    let snapshot = snapshot_from_result(&result).unwrap();

    assert_eq!(snapshot.snapshot.panes[0].pane_id, "pane-1");
    assert_eq!(
        snapshot.snapshot.panes[0].agent_status,
        AgentStatus::Working
    );
}

#[test]
fn acknowledgement_is_for_one_request() {
    let message = object(vec![
        ("id", text("status-subscription-pane-1")),
        ("result", object(vec![("type", text("subscription_started"))])),
    ]);
    assert!(is_subscription_ack(&message, "status-subscription-pane-1"));
    assert!(!is_subscription_ack(&message, "status-subscription-pane-10"));
    assert!(!is_subscription_error(&message, "status-subscription-pane-1"));
}

#[test]
fn acknowledgement_needs_the_result_type() {
    let other = object(vec![
        ("id", text("global-subscription")),
        ("result", object(vec![("type", text("ok"))])),
    ]);
    assert!(!is_subscription_ack(&other, "global-subscription"));
    let bare = object(vec![("id", text("global-subscription"))]);
    assert!(!is_subscription_ack(&bare, "global-subscription"));
}

#[test]
fn refusal_counts_before_acknowledgement() {
    let message = object(vec![
        ("id", text("r")),
        ("error", text("no")),
        ("result", object(vec![("type", text("subscription_started"))])),
    ]);
    assert!(matches!(
        classify_reply(message, "r"),
        Reply::Refused(Json::Text(reason)) if reason == "no"
    ));
}

#[test]
fn null_error_is_a_refusal() {
    let message = object(vec![("id", text("r")), ("error", Json::Null)]);
    assert!(matches!(classify_reply(message, "r"), Reply::Refused(Json::Null)));
}

#[test]
fn handshake_keeps_lines_in_order() {
    let handshake = Handshake::new("r".to_owned());
    let first = "{\"event\":\"pane_created\"}\n";
    let second = "{\"id\":\"other\",\"error\":1}\n";
    let handshake = match handshake.receive(line(first)) {
        Ok(HandshakeStep::Waiting(handshake)) => handshake,
        other => panic!("{other:?}"),
    };
    let handshake = match handshake.receive(line(second)) {
        Ok(HandshakeStep::Waiting(handshake)) => handshake,
        other => panic!("{other:?}"),
    };
    let ack = "{\"id\":\"r\",\"result\":{\"type\":\"subscription_started\"}}\n";
    match handshake.receive(line(ack)) {
        Ok(HandshakeStep::Acknowledged(buffered)) => assert_eq!(buffered, vec![first, second]),
        other => panic!("{other:?}"),
    }
}

#[test]
fn handshake_reports_refusal() {
    let step = Handshake::new("r".to_owned()).receive(line("{\"id\":\"r\",\"error\":{\"b\":2,\"a\":1.5}}"));
    match step {
        Err(error) => {
            assert!(matches!(error, HandshakeError::Refused(_)));
            let (message, source) = error.into_report();
            assert_eq!(message, "subscription request failed: {\"a\":1.5,\"b\":2}");
            assert!(source.is_none());
        }
        other => panic!("{other:?}"),
    }
}

#[test]
fn handshake_reports_malformed_line() {
    match Handshake::new("r".to_owned()).receive(line("{not json}")) {
        Err(error) => {
            assert!(matches!(error, HandshakeError::Malformed(_)));
            let (message, source) = error.into_report();
            assert_eq!(message, "parse subscription response");
            assert_eq!(source.as_deref(), Some("key must be a string at line 1 column 2"));
        }
        other => panic!("{other:?}"),
    }
}

#[test]
fn handshake_reports_closed_socket() {
    match Handshake::new("r".to_owned()).receive(None) {
        Err(error) => {
            assert!(matches!(error, HandshakeError::Closed));
            assert_eq!(
                error.into_report().0,
                "event socket closed before subscription acknowledgement"
            );
        }
        other => panic!("{other:?}"),
    }
}

#[test]
fn snapshot_is_read_from_its_line() {
    let response = "{\"id\":\"session-snapshot\",\"result\":{\"type\":\"session_snapshot\",\
        \"snapshot\":{\"panes\":[{\"pane_id\":\"a\",\"agent_status\":\"idle\",\"title\":\"x\"},\
        {\"pane_id\":\"b\",\"agent_status\":\"blocked\"}]}}}\n";
    let snapshot = read_snapshot(line(response)).unwrap().unwrap();
    assert_eq!(snapshot.panes.len(), 2);
    assert_eq!(snapshot.panes[0].pane_id, "a");
    assert_eq!(snapshot.panes[0].agent_status, AgentStatus::Idle);
    assert_eq!(snapshot.panes[1].pane_id, "b");
    assert_eq!(snapshot.panes[1].agent_status, AgentStatus::Blocked);
}

#[test]
fn snapshot_passes_over_other_messages() {
    assert!(matches!(read_snapshot(line("{\"id\":\"x\",\"error\":1}")), Ok(None)));
    assert!(matches!(read_snapshot(line("{\"id\":7,\"result\":{}}")), Ok(None)));
    assert!(matches!(read_snapshot(line("[1,2]")), Ok(None)));
    let other = object(vec![("event", text("pane_created"))]);
    assert!(matches!(snapshot_from_response(other), Ok(None)));
}

#[test]
fn snapshot_errors_are_told_apart() {
    let closed = read_snapshot(None).unwrap_err();
    assert!(matches!(closed, SnapshotError::Closed));
    assert_eq!(
        closed.into_report().0,
        "session.snapshot socket closed before returning a response"
    );

    let malformed = read_snapshot(line("")).unwrap_err();
    assert!(matches!(malformed, SnapshotError::Malformed(_)));
    let (message, source) = malformed.into_report();
    assert_eq!(message, "parse session.snapshot response");
    assert_eq!(
        source.as_deref(),
        Some("EOF while parsing a value at line 1 column 0")
    );

    let refused = read_snapshot(line("{\"id\":\"session-snapshot\",\"error\":\"busy\"}")).unwrap_err();
    assert!(matches!(refused, SnapshotError::Refused(_)));
    assert_eq!(refused.into_report().0, "session.snapshot failed: \"busy\"");

    let empty = read_snapshot(line("{\"id\":\"session-snapshot\"}")).unwrap_err();
    assert!(matches!(empty, SnapshotError::NoResult));
    assert_eq!(empty.into_report().0, "session.snapshot response has no result");

    let bad = read_snapshot(line("{\"id\":\"session-snapshot\",\"result\":{}}")).unwrap_err();
    assert!(matches!(
        bad,
        SnapshotError::Undecodable(DecodeError::MissingField { .. })
    ));
    assert_eq!(bad.into_report().0, "missing field `snapshot`");
}

#[test]
fn first_response_settles_the_snapshot() {
    let lines = [
        "{\"id\":\"other\"}",
        "{\"event\":\"pane_created\"}",
        "{\"id\":\"session-snapshot\",\"result\":{\"snapshot\":{\"panes\":[]}}}",
        "{\"id\":\"session-snapshot\",\"error\":\"late\"}",
    ];
    let mut settled = None;
    for text in lines {
        if let Some(snapshot) = read_snapshot(line(text)).unwrap() {
            settled = Some(snapshot.panes.len());
            break;
        }
    }
    assert_eq!(settled, Some(0));
}
