use herdr_caffeinate::codec::{parse_json, write_json};
use herdr_caffeinate::json::Json;
use herdr_caffeinate::requests::{
    global_id, global_subscription_line, request_line, snapshot_id, snapshot_request_line,
    status_id, status_subscription_line,
};
use herdr_caffeinate::settings::{resolve_socket_path, resolve_state_dir};

#[test]
fn global_subscription_names_both_lifecycle_events() {
    assert_eq!(
        global_subscription_line(),
        "{\"id\":\"global-subscription\",\"method\":\"events.subscribe\",\"params\":\
         {\"subscriptions\":[{\"type\":\"pane.created\"},{\"type\":\"pane.closed\"}]}}\n"
    );
}

#[test]
fn status_subscription_names_its_pane() {
    assert_eq!(
        status_subscription_line("pane-1"),
        "{\"id\":\"status-subscription-pane-1\",\"method\":\"events.subscribe\",\"params\":\
         {\"subscriptions\":[{\"pane_id\":\"pane-1\",\"type\":\"pane.agent_status_changed\"}]}}\n"
    );
}

#[test]
fn snapshot_request_has_no_parameters() {
    assert_eq!(
        snapshot_request_line(),
        "{\"id\":\"session-snapshot\",\"method\":\"session.snapshot\",\"params\":{}}\n"
    );
}

#[test]
fn request_ids_differ() {
    assert_eq!(global_id(), "global-subscription");
    assert_eq!(snapshot_id(), "session-snapshot");
    assert_eq!(status_id("a"), "status-subscription-a");
    assert_ne!(status_id("a"), status_id("b"));
}

#[test]
fn request_is_one_line_whatever_the_pane_is_called() {
    let line = status_subscription_line("a\nb\"c");
    assert!(line.ends_with('\n'));
    assert_eq!(line.matches('\n').count(), 1);
    let read = parse_json(&line).unwrap();
    assert!(read.has_text("id", "status-subscription-a\nb\"c"));
    assert!(read.has_text("method", "events.subscribe"));
}

#[test]
fn json_is_read_and_written_back() {
    let source = " { \"b\" : [ 1 , -2.5 , true , null ] , \"a\" : \"x\\u0041\" } ";
    let json = parse_json(source).unwrap();
    assert!(json.has_text("a", "xA"));
    assert_eq!(write_json(json), "{\"a\":\"xA\",\"b\":[1,-2.5,true,null]}");
}

#[test]
fn last_entry_of_a_key_counts() {
    let json = Json::Object(vec![
        ("k".to_owned(), Json::Text("first".to_owned())),
        ("j".to_owned(), Json::Bool(false)),
        ("k".to_owned(), Json::Text("second".to_owned())),
    ]);
    assert!(json.has_text("k", "second"));
    assert_eq!(write_json(json), "{\"j\":false,\"k\":\"second\"}");
    let read = parse_json("{\"k\":\"first\",\"k\":\"second\"}").unwrap();
    assert!(matches!(read.take("k"), Some(Json::Text(text)) if text == "second"));
}

#[test]
fn lookups_need_an_object() {
    assert!(Json::Array(vec![Json::Null]).get("0").is_none());
    assert!(Json::Text("id".to_owned()).get("id").is_none());
    assert_eq!(Json::Text("id".to_owned()).as_str(), Some("id"));
    assert_eq!(Json::Bool(true).as_str(), None);
    assert_eq!(Json::Object(vec![]).text_at("id"), None);
}

#[test]
fn nesting_is_read_up_to_its_limit() {
    let nested = |depth: usize| "[".repeat(depth) + &"]".repeat(depth);
    assert!(parse_json(&nested(127)).is_ok());
    assert!(parse_json(&nested(128)).is_err());
    assert_eq!(write_json(parse_json(&nested(127)).unwrap()), nested(127));
}

#[test]
fn written_request_ends_its_line() {
    assert_eq!(request_line(Json::Null), "null\n");
}

#[test]
fn socket_path_defaults() {
    assert_eq!(resolve_socket_path(None), "/tmp/herdr.sock");
    assert_eq!(resolve_socket_path(Some("/run/h".to_owned())), "/run/h");
}

#[test]
fn uses_configured_state_directory() {
    let path = resolve_state_dir(Some(b"/tmp/herdr-state".to_vec()), None).unwrap();
    assert_eq!(path, b"/tmp/herdr-state");
}

#[test]
fn falls_back_to_home_state_directory() {
    let path = resolve_state_dir(None, Some(b"/Users/tester".to_vec())).unwrap();
    assert_eq!(path, b"/Users/tester/.local/state/herdr-caffeinate");
    let slash = resolve_state_dir(None, Some(b"/".to_vec())).unwrap();
    assert_eq!(slash, b"/.local/state/herdr-caffeinate");
    let empty = resolve_state_dir(None, Some(Vec::new())).unwrap();
    assert_eq!(empty, b".local/state/herdr-caffeinate");
}

#[test]
fn state_directory_need_not_be_unicode() {
    let configured = resolve_state_dir(Some(vec![b'/', 0xff]), Some(b"/home".to_vec())).unwrap();
    assert_eq!(configured, vec![b'/', 0xff]);
    let below = resolve_state_dir(None, Some(vec![0xff])).unwrap();
    assert_eq!(below[..3], [0xff, b'/', b'.']);
}

#[test]
fn rejects_missing_state_directory_and_home() {
    let error = resolve_state_dir(None, None).unwrap_err();
    assert_eq!(
        error.message(),
        "HERDR_PLUGIN_STATE_DIR is unset and HOME is unavailable"
    );
}

#[test]
fn integers_are_read_back() {
    let request = Json::Array(vec![
        Json::Unsigned(0),
        Json::Unsigned(u64::MAX),
        Json::Signed(-1),
        Json::Signed(i64::MIN),
        Json::Signed(7),
    ]);
    let line = request_line(request);
    assert_eq!(line, "[0,18446744073709551615,-1,-9223372036854775808,7]\n");
    match parse_json(line.trim_end()).unwrap() {
        Json::Array(items) => {
            assert!(matches!(items[0], Json::Unsigned(0)));
            assert!(matches!(items[1], Json::Unsigned(u64::MAX)));
            assert!(matches!(items[2], Json::Signed(-1)));
            assert!(matches!(items[3], Json::Signed(i64::MIN)));
            assert!(matches!(items[4], Json::Unsigned(7)));
        }
        other => panic!("{other:?}"),
    }
    assert!(matches!(parse_json("1.5").unwrap(), Json::Fraction(_)));
}
