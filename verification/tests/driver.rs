use herdr_caffeinate::codec::parse_json;
use herdr_caffeinate::decode::DecodeError;
use herdr_caffeinate::driver::{Answer, Driver, Task};
use herdr_caffeinate::model::{
    AgentStatus, AgentStatusChanged, HerdrMessage, PaneState, SessionSnapshot,
};
use herdr_caffeinate::monitor::Reaction;

/// A driver that waits for messages: its snapshot has one pane, and nothing is subscribed to.
fn waiting(pane_id: &str, agent_status: AgentStatus) -> Driver {
    let (mut driver, task) = Driver::new(SessionSnapshot {
        panes: vec![PaneState {
            pane_id: pane_id.to_owned(),
            agent_status,
        }],
    });
    assert!(matches!(task, Task::Poll));
    match driver.answer(Answer::Polled(false)) {
        Task::Wait => {}
        Task::Start => assert!(matches!(driver.answer(Answer::Started(true)), Task::Wait)),
        task => panic!("{task:?}"),
    }
    driver
}

fn subscribed(pane_id: &str, agent_status: AgentStatus) -> Driver {
    let mut driver = waiting(pane_id, agent_status);
    assert!(matches!(
        driver.ensure_status_subscription(pane_id),
        Task::Subscribe { .. }
    ));
    assert!(matches!(driver.answer(Answer::Subscribed(true)), Task::Wait));
    driver
}

fn event(text: &str) -> HerdrMessage {
    HerdrMessage::Lifecycle(parse_json(text).unwrap())
}

fn status(pane_id: &str, agent_status: AgentStatus) -> HerdrMessage {
    HerdrMessage::Status(AgentStatusChanged {
        pane_id: pane_id.to_owned(),
        agent_status,
    })
}

const CREATED: &str =
    r#"{"data":{"type":"pane_created","pane":{"pane_id":"b","agent_status":"working"}}}"#;
const CLOSED: &str = r#"{"data":{"type":"pane_closed","pane_id":"a"}}"#;

#[test]
fn created_pane_is_subscribed_to_before_caffeinate_starts() {
    let mut driver = waiting("a", AgentStatus::Idle);
    let (reaction, task) = driver.handle_message(event(CREATED)).unwrap();
    assert!(matches!(reaction, Reaction::PaneCreated { subscribe: true, .. }));
    assert!(matches!(task, Task::Subscribe { pane_id } if pane_id == "b"));
    assert!(matches!(driver.answer(Answer::Subscribed(true)), Task::Poll));
    assert!(matches!(driver.answer(Answer::Polled(false)), Task::Start));
    assert!(matches!(driver.answer(Answer::Started(true)), Task::Wait));
    assert!(driver.monitor().is_caffeinated());
    assert!(!driver.monitor().needs_status_subscription("b"));
}

#[test]
fn refused_subscription_still_reconciles() {
    let mut driver = waiting("a", AgentStatus::Idle);
    driver.handle_message(event(CREATED)).unwrap();
    assert!(matches!(driver.answer(Answer::Subscribed(false)), Task::Poll));
    assert!(matches!(driver.answer(Answer::Polled(false)), Task::Start));
    assert!(driver.monitor().needs_status_subscription("b"));
}

#[test]
fn closed_pane_is_unsubscribed_before_caffeinate_stops() {
    let mut driver = subscribed("a", AgentStatus::Working);
    assert!(driver.monitor().is_caffeinated());
    let (_, task) = driver.handle_message(event(CLOSED)).unwrap();
    assert!(matches!(task, Task::Unsubscribe { pane_id } if pane_id == "a"));
    assert!(matches!(driver.answer(Answer::Done), Task::Poll));
    assert!(matches!(driver.answer(Answer::Polled(false)), Task::Stop));
    assert!(matches!(driver.answer(Answer::Done), Task::Wait));
    assert!(!driver.monitor().is_caffeinated());
    assert_eq!(driver.monitor().pane_count(), 0);
}

#[test]
fn closed_pane_without_subscription_only_reconciles() {
    let mut driver = waiting("a", AgentStatus::Idle);
    let (_, task) = driver.handle_message(event(CLOSED)).unwrap();
    assert!(matches!(task, Task::Poll));
    assert!(matches!(driver.answer(Answer::Polled(false)), Task::Wait));
}

#[test]
fn status_report_only_reconciles() {
    let mut driver = subscribed("a", AgentStatus::Idle);
    let (reaction, task) = driver.handle_message(status("a", AgentStatus::Working)).unwrap();
    assert!(matches!(reaction, Reaction::StatusReported { .. }));
    assert!(matches!(task, Task::Poll));
    assert!(matches!(driver.answer(Answer::Polled(false)), Task::Start));
    assert!(matches!(driver.answer(Answer::Started(false)), Task::Wait));
    assert!(!driver.monitor().is_caffeinated());
}

#[test]
fn closed_status_socket_is_released() {
    let mut driver = subscribed("a", AgentStatus::Working);
    let (_, task) = driver
        .handle_message(HerdrMessage::SocketClosed {
            pane_id: Some(String::from("a")),
        })
        .unwrap();
    assert!(matches!(task, Task::Release { pane_id } if pane_id == "a"));
    assert!(driver.monitor().needs_status_subscription("a"));
    assert!(matches!(driver.answer(Answer::Done), Task::Poll));
    assert!(matches!(driver.answer(Answer::Polled(false)), Task::Wait));
    assert!(driver.monitor().is_caffeinated());
}

#[test]
fn closed_lifecycle_socket_asks_for_nothing() {
    let mut driver = subscribed("a", AgentStatus::Working);
    let (reaction, task) = driver
        .handle_message(HerdrMessage::SocketClosed { pane_id: None })
        .unwrap();
    assert!(matches!(reaction, Reaction::LifecycleSocketClosed));
    assert!(matches!(task, Task::Wait));
    assert!(driver.monitor().is_caffeinated());
}

#[test]
fn exited_caffeinate_is_started_again_by_the_driver() {
    let mut driver = waiting("a", AgentStatus::Working);
    driver.handle_message(event(r#"{"data":{"type":"other"}}"#)).unwrap();
    assert!(matches!(driver.answer(Answer::Polled(true)), Task::Start));
    assert!(!driver.monitor().is_caffeinated());
    assert!(matches!(driver.answer(Answer::Started(true)), Task::Wait));
    assert!(driver.monitor().is_caffeinated());
}

#[test]
fn undecodable_event_leaves_the_driver_waiting() {
    let mut driver = subscribed("a", AgentStatus::Working);
    let handled = driver.handle_message(event("{}"));
    assert!(matches!(handled, Err(DecodeError::MissingField { .. })));
    assert!(matches!(driver.answer(Answer::Polled(true)), Task::Wait));
    assert!(driver.monitor().is_caffeinated());
    assert_eq!(driver.monitor().pane_count(), 1);
}

#[test]
fn answer_that_was_not_awaited_changes_nothing() {
    let mut driver = waiting("a", AgentStatus::Idle);
    driver.handle_message(event(CREATED)).unwrap();
    assert!(matches!(driver.answer(Answer::Started(true)), Task::Wait));
    assert!(!driver.monitor().is_caffeinated());
    assert!(matches!(driver.answer(Answer::Subscribed(true)), Task::Poll));
}

#[test]
fn pane_is_watched_once() {
    let mut driver = subscribed("a", AgentStatus::Idle);
    assert!(matches!(driver.ensure_status_subscription("a"), Task::Wait));
    assert!(matches!(
        driver.ensure_status_subscription("b"),
        Task::Subscribe { pane_id } if pane_id == "b"
    ));
}

#[test]
fn failed_watch_leaves_the_other_panes_alone() {
    let mut driver = waiting("a", AgentStatus::Idle);
    assert!(matches!(driver.ensure_status_subscription("a"), Task::Subscribe { .. }));
    assert!(matches!(driver.answer(Answer::Subscribed(false)), Task::Wait));
    assert!(matches!(driver.ensure_status_subscription("b"), Task::Subscribe { .. }));
    assert!(matches!(driver.answer(Answer::Subscribed(true)), Task::Wait));
    assert!(driver.monitor().needs_status_subscription("a"));
    assert!(!driver.monitor().needs_status_subscription("b"));
}
