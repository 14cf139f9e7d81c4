use herdr_caffeinate::codec::parse_json;
use herdr_caffeinate::decode::DecodeError;
use herdr_caffeinate::model::{
    AgentStatus, AgentStatusChanged, HerdrMessage, PaneState, SessionSnapshot,
};
use herdr_caffeinate::monitor::{CaffeinateAction, Monitor, Reaction};

fn monitor(panes: &[(&str, AgentStatus)]) -> Monitor {
    let mut list = Vec::new();
    for (pane_id, agent_status) in panes {
        list.push(PaneState {
            pane_id: String::from(*pane_id),
            agent_status: *agent_status,
        });
    }
    Monitor::new(SessionSnapshot { panes: list })
}

fn report(pane_id: &str, agent_status: AgentStatus) -> HerdrMessage {
    HerdrMessage::Status(AgentStatusChanged {
        pane_id: pane_id.to_owned(),
        agent_status,
    })
}

fn created(pane_id: &str, status: &str) -> HerdrMessage {
    let text = format!(
        "{{\"data\":{{\"type\":\"pane_created\",\"pane\":{{\"pane_id\":\"{pane_id}\",\"agent_status\":\"{status}\"}}}}}}"
    );
    HerdrMessage::Lifecycle(parse_json(&text).unwrap())
}

fn closed(pane_id: &str) -> HerdrMessage {
    let text = format!("{{\"data\":{{\"type\":\"pane_closed\",\"pane_id\":\"{pane_id}\"}}}}");
    HerdrMessage::Lifecycle(parse_json(&text).unwrap())
}

fn awake(panes: &[(&str, AgentStatus)]) -> Monitor {
    let mut monitor = monitor(panes);
    assert_eq!(monitor.update_caffeinate(false), CaffeinateAction::Start);
    monitor.caffeinate_attempted(true);
    monitor
}

#[test]
fn initial_working_pane_starts_caffeinate() {
    let mut monitor = monitor(&[("a", AgentStatus::Idle), ("b", AgentStatus::Working)]);
    assert!(monitor.has_working_agent());
    assert_eq!(monitor.update_caffeinate(false), CaffeinateAction::Start);
    assert!(!monitor.is_caffeinated());
    monitor.caffeinate_attempted(true);
    assert!(monitor.is_caffeinated());
}

#[test]
fn initial_idle_panes_start_nothing() {
    let mut monitor = monitor(&[("a", AgentStatus::Idle)]);
    assert_eq!(monitor.update_caffeinate(false), CaffeinateAction::Keep);
}

#[test]
fn last_listing_of_a_pane_counts() {
    let mut monitor = monitor(&[("a", AgentStatus::Working), ("a", AgentStatus::Idle)]);
    assert_eq!(monitor.pane_count(), 1);
    assert_eq!(monitor.update_caffeinate(false), CaffeinateAction::Keep);
}

#[test]
fn working_status_starts_caffeinate_once() {
    let mut monitor = monitor(&[("a", AgentStatus::Idle), ("b", AgentStatus::Idle)]);
    monitor.handle_message(report("a", AgentStatus::Working)).unwrap();
    assert_eq!(monitor.update_caffeinate(false), CaffeinateAction::Start);
    monitor.caffeinate_attempted(true);
    assert_eq!(monitor.update_caffeinate(false), CaffeinateAction::Keep);
    monitor.handle_message(report("b", AgentStatus::Working)).unwrap();
    assert_eq!(monitor.update_caffeinate(false), CaffeinateAction::Keep);
}

#[test]
fn failed_start_is_tried_again() {
    let mut monitor = monitor(&[("a", AgentStatus::Working)]);
    assert_eq!(monitor.update_caffeinate(false), CaffeinateAction::Start);
    monitor.caffeinate_attempted(false);
    assert_eq!(monitor.update_caffeinate(false), CaffeinateAction::Start);
}

#[test]
fn exited_process_is_replaced() {
    let mut monitor = awake(&[("a", AgentStatus::Working)]);
    assert_eq!(monitor.update_caffeinate(true), CaffeinateAction::Start);
}

#[test]
fn exited_process_is_forgotten_when_idle() {
    let mut monitor = awake(&[("a", AgentStatus::Working)]);
    monitor.handle_message(report("a", AgentStatus::Done)).unwrap();
    assert_eq!(monitor.update_caffeinate(true), CaffeinateAction::Keep);
    assert!(!monitor.is_caffeinated());
}

#[test]
fn one_working_pane_keeps_caffeinate_running() {
    let mut monitor = awake(&[("a", AgentStatus::Working), ("b", AgentStatus::Working)]);
    monitor.handle_message(report("a", AgentStatus::Done)).unwrap();
    assert_eq!(monitor.update_caffeinate(false), CaffeinateAction::Keep);
    assert!(monitor.is_caffeinated());
}

#[test]
fn last_working_pane_stopping_stops_caffeinate() {
    let mut monitor = awake(&[("a", AgentStatus::Working), ("b", AgentStatus::Idle)]);
    let reaction = monitor.handle_message(report("a", AgentStatus::Blocked)).unwrap();
    assert!(matches!(
        reaction,
        Reaction::StatusReported { pane_id, agent_status: AgentStatus::Blocked } if pane_id == "a"
    ));
    assert_eq!(monitor.update_caffeinate(false), CaffeinateAction::Stop);
    assert!(!monitor.is_caffeinated());
}

#[test]
fn closing_a_working_pane_stops_caffeinate() {
    let mut monitor = awake(&[("a", AgentStatus::Working)]);
    monitor.status_subscription_attempted("a".to_owned(), true);
    let reaction = monitor.handle_message(closed("a")).unwrap();
    assert!(matches!(
        reaction,
        Reaction::PaneClosed { pane_id, unsubscribe: true } if pane_id == "a"
    ));
    assert_eq!(monitor.update_caffeinate(false), CaffeinateAction::Stop);
    assert!(monitor.pane_ids().is_empty());
    assert!(monitor.needs_status_subscription("a"));
}

#[test]
fn closed_pane_is_ignored() {
    let mut monitor = monitor(&[("a", AgentStatus::Idle)]);
    assert!(matches!(
        monitor.handle_message(closed("a")),
        Ok(Reaction::PaneClosed { unsubscribe: false, .. })
    ));
    monitor.handle_message(report("a", AgentStatus::Working)).unwrap();
    assert!(!monitor.has_working_agent());
    assert_eq!(monitor.pane_count(), 0);
}

#[test]
fn created_pane_is_subscribed_to_once() {
    let mut monitor = monitor(&[]);
    assert!(matches!(
        monitor.handle_message(created("a", "working")),
        Ok(Reaction::PaneCreated { agent_status: AgentStatus::Working, subscribe: true, .. })
    ));
    monitor.status_subscription_attempted("a".to_owned(), false);
    assert!(monitor.needs_status_subscription("a"));
    monitor.status_subscription_attempted("a".to_owned(), true);
    assert!(matches!(
        monitor.handle_message(created("a", "idle")),
        Ok(Reaction::PaneCreated { subscribe: false, .. })
    ));
    assert!(!monitor.has_working_agent());
    assert_eq!(monitor.pane_ids(), vec!["a"]);
}

#[test]
fn closed_status_socket_leaves_other_subscriptions() {
    let mut monitor = monitor(&[("a", AgentStatus::Idle), ("b", AgentStatus::Idle)]);
    monitor.status_subscription_attempted("a".to_owned(), true);
    monitor.status_subscription_attempted("b".to_owned(), true);
    let gone = HerdrMessage::SocketClosed { pane_id: Some("a".to_owned()) };
    assert!(matches!(
        monitor.handle_message(gone),
        Ok(Reaction::StatusSocketClosed { release: true, .. })
    ));
    assert!(monitor.needs_status_subscription("a"));
    assert!(!monitor.needs_status_subscription("b"));
    assert_eq!(monitor.pane_count(), 2);
}

#[test]
fn closed_lifecycle_socket_changes_nothing() {
    let mut monitor = awake(&[("a", AgentStatus::Working)]);
    let gone = HerdrMessage::SocketClosed { pane_id: None };
    let reaction = monitor.handle_message(gone).unwrap();
    assert!(matches!(reaction, Reaction::LifecycleSocketClosed));
    assert!(monitor.is_caffeinated());
}

#[test]
fn other_and_undecodable_events_change_nothing() {
    let mut monitor = monitor(&[("a", AgentStatus::Working)]);
    let other = HerdrMessage::Lifecycle(parse_json("{\"data\":{\"type\":\"x\"}}").unwrap());
    assert!(matches!(monitor.handle_message(other), Ok(Reaction::OtherEvent)));
    let bad = HerdrMessage::Lifecycle(parse_json("{\"data\":{\"type\":\"pane_created\"}}").unwrap());
    assert!(matches!(
        monitor.handle_message(bad),
        Err(DecodeError::MissingField { .. })
    ));
    assert_eq!(monitor.pane_ids(), vec!["a"]);
    assert!(monitor.has_working_agent());
}
