use herdr_caffeinate::decode::DecodeError;
use herdr_caffeinate::driver::{Answer, Driver, Task};
use herdr_caffeinate::launch::{Launch, LaunchStep};
use herdr_caffeinate::messages::MessageError;
use herdr_caffeinate::model::{AgentStatus, PaneState, SessionSnapshot};
use herdr_caffeinate::monitor::Reaction;

const CREATED: &str = r#"{"event":"pane_created","data":{"type":"pane_created","pane":{"pane_id":"c","agent_status":"working"}}}"#;
const CLOSED: &str =
    r#"{"event":"pane_closed","data":{"type":"pane_closed","pane_id":"a"}}"#;
const UNDECODABLE: &str = r#"{"event":"pane_closed","data":{"type":"pane_closed"}}"#;

fn launch(lines: &[&str]) -> Launch {
    let pane = |pane_id: &str| PaneState {
        pane_id: pane_id.to_owned(),
        agent_status: AgentStatus::Idle,
    };
    let (driver, task) = Driver::new(SessionSnapshot {
        panes: vec![pane("a"), pane("b")],
    });
    let buffered = lines.iter().map(|line| String::from(*line)).collect();
    Launch::new(driver, task, &buffered)
}

/// What a launch does, in short, where every subscription and every start succeeds.
fn run(mut launch: Launch) -> (Vec<String>, Result<Driver, MessageError>) {
    let mut done = Vec::new();
    loop {
        let (first, next) = match launch.next() {
            LaunchStep::Perform { task, next } => (task, next),
            LaunchStep::Handled { reaction, task, next } => {
                done.push(match reaction {
                    Reaction::PaneCreated { pane_id, .. } => format!("created {pane_id}"),
                    Reaction::PaneClosed { pane_id, .. } => format!("closed {pane_id}"),
                    other => panic!("{other:?}"),
                });
                (task, next)
            }
            LaunchStep::Ignored { error, next } => {
                assert!(matches!(error, DecodeError::MissingField { field: "pane_id" }));
                done.push(String::from("ignored"));
                (Task::Wait, next)
            }
            LaunchStep::Failed(error) => return (done, Err(error)),
            LaunchStep::Live(driver) => return (done, Ok(driver)),
        };
        launch = next;
        let mut task = first;
        loop {
            let answer = match task {
                Task::Wait => break,
                Task::Subscribe { pane_id } => {
                    done.push(format!("watch {pane_id}"));
                    Answer::Subscribed(true)
                }
                Task::Unsubscribe { pane_id } => {
                    done.push(format!("unwatch {pane_id}"));
                    Answer::Done
                }
                Task::Poll => {
                    done.push(String::from("poll"));
                    Answer::Polled(false)
                }
                Task::Start => {
                    done.push(String::from("start"));
                    Answer::Started(true)
                }
                Task::Release { .. } | Task::Stop => Answer::Done,
            };
            task = launch.answer(answer);
        }
    }
}

#[test]
fn launch_reconciles_watches_and_replays_in_this_order() {
    let (done, end) = run(launch(&[CREATED, "{\"id\":\"x\"}", UNDECODABLE, CLOSED]));
    assert_eq!(
        done,
        vec![
            "poll", "watch a", "watch b", "created c", "watch c", "poll", "start", "ignored",
            "closed a", "unwatch a", "poll",
        ]
    );
    let driver = end.unwrap_or_else(|error| panic!("{error:?}"));
    assert!(driver.monitor().is_caffeinated());
    assert!(driver.monitor().needs_status_subscription("a"));
    assert!(!driver.monitor().needs_status_subscription("b"));
    assert!(!driver.monitor().needs_status_subscription("c"));
}

#[test]
fn launch_without_kept_lines_goes_live() {
    let (done, end) = run(launch(&[]));
    assert_eq!(done, vec!["poll", "watch a", "watch b"]);
    assert!(end.is_ok());
}

#[test]
fn launch_fails_after_the_readable_lines() {
    let launch = launch(&[CLOSED, "oops", CREATED]);
    assert_eq!(launch.monitor().pane_count(), 2);
    let (done, end) = run(launch);
    assert_eq!(done[3..], ["closed a", "unwatch a", "poll"]);
    assert!(matches!(end, Err(MessageError::MalformedLifecycle(_))));
}
