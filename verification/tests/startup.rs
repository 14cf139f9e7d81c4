use herdr_caffeinate::driver::{Answer, Task};
use herdr_caffeinate::replies::{HandshakeError, SnapshotError};
use herdr_caffeinate::requests::{global_subscription_line, snapshot_request_line};
use herdr_caffeinate::startup::{Startup, StartupError, StartupStep};

const ACK: &str = "{\"id\":\"global-subscription\",\"result\":{\"type\":\"subscription_started\"}}\n";
const EVENT: &str = "{\"event\":\"pane_closed\",\"data\":{\"type\":\"pane_closed\",\"pane_id\":\"a\"}}\n";
const SNAPSHOT: &str = "{\"id\":\"session-snapshot\",\"result\":{\"snapshot\":{\"panes\":[{\"pane_id\":\"a\",\"agent_status\":\"working\"}]}}}\n";

fn requesting(startup: Startup) -> Startup {
    match startup.receive(Some(ACK.to_owned())) {
        Ok(StartupStep::RequestSnapshot { line, next }) => {
            assert_eq!(line, snapshot_request_line());
            next
        }
        _ => panic!("the snapshot is not asked for"),
    }
}

#[test]
fn start_subscribes_then_asks_for_the_snapshot_then_runs() {
    let (line, startup) = Startup::begin();
    assert_eq!(line, global_subscription_line());
    let startup = match startup.receive(Some(EVENT.to_owned())) {
        Ok(StartupStep::ReadLifecycle(next)) => next,
        _ => panic!("the acknowledgement is not waited for"),
    };
    let startup = requesting(startup);
    let startup = match startup.receive(Some(String::from("{\"id\":\"another\"}"))) {
        Ok(StartupStep::ReadSnapshot(next)) => next,
        _ => panic!("the snapshot is not waited for"),
    };
    match startup.receive(Some(SNAPSHOT.to_owned())) {
        Ok(StartupStep::Run { mut driver, task, buffered }) => {
            assert_eq!(buffered, vec![EVENT.to_owned()]);
            assert!(matches!(task, Task::Poll));
            assert_eq!(driver.monitor().pane_ids(), vec![String::from("a")]);
            assert!(matches!(driver.answer(Answer::Polled(false)), Task::Start));
        }
        _ => panic!("the main loop does not begin"),
    }
}

#[test]
fn snapshot_before_the_acknowledgement_is_kept_as_a_line() {
    let (_, startup) = Startup::begin();
    let step = startup.receive(Some(SNAPSHOT.to_owned()));
    assert!(matches!(step, Ok(StartupStep::ReadLifecycle(_))));
}

#[test]
fn closed_lifecycle_socket_fails_the_start() {
    let (_, startup) = Startup::begin();
    let step = startup.receive(None);
    assert!(matches!(step, Err(StartupError::Subscription(HandshakeError::Closed))));
}

#[test]
fn refused_lifecycle_subscription_fails_the_start() {
    let (_, startup) = Startup::begin();
    let refusal = "{\"id\":\"global-subscription\",\"error\":\"no\"}";
    match startup.receive(Some(refusal.to_owned())) {
        Err(StartupError::Subscription(error)) => {
            let (message, source) = error.into_report();
            assert_eq!(message, "subscription request failed: \"no\"");
            assert!(source.is_none());
        }
        _ => panic!("the refusal is not reported"),
    }
}

#[test]
fn malformed_subscription_response_fails_the_start() {
    let (_, startup) = Startup::begin();
    let step = startup.receive(Some(String::from("not json")));
    assert!(matches!(step, Err(StartupError::Subscription(HandshakeError::Malformed(_)))));
}

#[test]
fn closed_snapshot_socket_fails_the_start() {
    let (_, startup) = Startup::begin();
    let step = requesting(startup).receive(None);
    assert!(matches!(step, Err(StartupError::Snapshot(SnapshotError::Closed))));
}

#[test]
fn undecodable_snapshot_fails_the_start() {
    let (_, startup) = Startup::begin();
    let response = "{\"id\":\"session-snapshot\",\"result\":{}}";
    let step = requesting(startup).receive(Some(response.to_owned()));
    assert!(matches!(step, Err(StartupError::Snapshot(SnapshotError::Undecodable(_)))));
}

#[test]
fn snapshot_response_without_result_fails_the_start() {
    let (_, startup) = Startup::begin();
    let response = "{\"id\":\"session-snapshot\"}";
    let step = requesting(startup).receive(Some(response.to_owned()));
    assert!(matches!(step, Err(StartupError::Snapshot(SnapshotError::NoResult))));
}
