//! Starting up: subscribe to lifecycle events, wait for the acknowledgement, then ask for the
//! snapshot.
use crate::driver::{driver_of, Driver, DriverView, Task, TaskView};
use crate::replies::{
    handshake_next, handshake_view, line_view, read_snapshot, snapshot_next, snapshot_view,
    Handshake, HandshakeError, HandshakeStep, HandshakeView, SnapshotError, SnapshotView,
};
use crate::requests::{
    global_id, global_request_id, global_subscription_line, global_subscription_view, sends,
    snapshot_request_line, snapshot_request_view,
};
use crate::text::text_views;
use vstd::prelude::*;

verus! {

/// How far the start has come.
#[derive(Debug)]
pub enum Startup {
    /// The lifecycle subscription was sent on the lifecycle socket and waits for its
    /// acknowledgement there.
    Subscribing(Handshake),
    /// The request for the snapshot was sent on the snapshot socket and waits for its response
    /// there. The lines are those that the lifecycle socket brought before the acknowledgement.
    Requesting(Vec<String>),
}

/// The model of [`Startup`].
pub enum StartupView {
    Subscribing { request_id: Seq<char>, buffered: Seq<Seq<char>> },
    Requesting { buffered: Seq<Seq<char>> },
}

impl View for Startup {
    type V = StartupView;

    open spec fn view(&self) -> StartupView {
        match self {
            Startup::Subscribing(handshake) => StartupView::Subscribing {
                request_id: handshake.request_id@,
                buffered: text_views(handshake.buffered@),
            },
            Startup::Requesting(buffered) => StartupView::Requesting {
                buffered: text_views(buffered@),
            },
        }
    }
}

/// What to do next.
pub enum StartupStep {
    /// Read on from the lifecycle socket.
    ReadLifecycle(Startup),
    /// Open the snapshot socket, send the line there, and read from it.
    RequestSnapshot { line: String, next: Startup },
    /// Read on from the snapshot socket.
    ReadSnapshot(Startup),
    /// Enter the main loop with the first task. The lines that the lifecycle socket brought
    /// before the acknowledgement come before any other message.
    Run { driver: Driver, task: Task, buffered: Vec<String> },
}

/// Why the start failed.
#[derive(Debug)]
pub enum StartupError {
    Subscription(HandshakeError),
    Snapshot(SnapshotError),
}

/// The model of what [`Startup::receive`] returns.
pub enum StartupStepView {
    ReadLifecycle(StartupView),
    RequestSnapshot(StartupView),
    ReadSnapshot(StartupView),
    Run { driver: DriverView, buffered: Seq<Seq<char>> },
    SubscriptionFailed(HandshakeView),
    SnapshotFailed(SnapshotView),
}

impl StartupView {
    /// What follows when `line` comes from the socket that is read, or when that socket closes.
    pub open spec fn next(self, line: Option<Seq<char>>) -> StartupStepView {
        match self {
            StartupView::Subscribing { request_id, buffered } => match handshake_next(
                request_id,
                buffered,
                line,
            ) {
                HandshakeView::Waiting(buffered) => StartupStepView::ReadLifecycle(
                    StartupView::Subscribing { request_id, buffered },
                ),
                HandshakeView::Acknowledged(buffered) => StartupStepView::RequestSnapshot(
                    StartupView::Requesting { buffered },
                ),
                failed => StartupStepView::SubscriptionFailed(failed),
            },
            StartupView::Requesting { buffered } => match snapshot_next(line) {
                SnapshotView::Unrelated => StartupStepView::ReadSnapshot(self),
                SnapshotView::Snapshot(panes) => StartupStepView::Run {
                    driver: driver_of(panes),
                    buffered,
                },
                failed => StartupStepView::SnapshotFailed(failed),
            },
        }
    }
}

/// The model of what [`Startup::receive`] returns.
pub open spec fn startup_view(step: Result<StartupStep, StartupError>) -> StartupStepView {
    match step {
        Ok(StartupStep::ReadLifecycle(next)) => StartupStepView::ReadLifecycle(next@),
        Ok(StartupStep::RequestSnapshot { next, .. }) => StartupStepView::RequestSnapshot(next@),
        Ok(StartupStep::ReadSnapshot(next)) => StartupStepView::ReadSnapshot(next@),
        Ok(StartupStep::Run { driver, buffered, .. }) => StartupStepView::Run {
            driver: driver@,
            buffered: text_views(buffered@),
        },
        Err(StartupError::Subscription(error)) => StartupStepView::SubscriptionFailed(
            handshake_view(Err(error)),
        ),
        Err(StartupError::Snapshot(error)) => StartupStepView::SnapshotFailed(
            snapshot_view(Err(error)),
        ),
    }
}

impl Startup {
    /// Begins: the line is to be sent on the lifecycle socket, which is then read.
    pub fn begin() -> (begun: (String, Startup))
        ensures
            sends(begun.0@, global_subscription_view()),
            begun.1@ == (StartupView::Subscribing {
                request_id: global_request_id(),
                buffered: Seq::empty(),
            }),
    {
        (
            global_subscription_line(),
            Startup::Subscribing(Handshake::new(global_id().to_owned())),
        )
    }

    /// Takes the next line of the socket that is read, or `None` where that socket closed.
    pub fn receive(self, line: Option<String>) -> (step: Result<StartupStep, StartupError>)
        ensures
            startup_view(step) == self@.next(line_view(line)),
            step matches Ok(StartupStep::RequestSnapshot { line, .. }) ==> sends(
                line@,
                snapshot_request_view(),
            ),
            step matches Ok(StartupStep::Run { task, .. }) ==> task@ == TaskView::Poll,
    {
        match self {
            Startup::Subscribing(handshake) => match handshake.receive(line) {
                Ok(HandshakeStep::Waiting(handshake)) => Ok(
                    StartupStep::ReadLifecycle(Startup::Subscribing(handshake)),
                ),
                Ok(HandshakeStep::Acknowledged(buffered)) => Ok(
                    StartupStep::RequestSnapshot {
                        line: snapshot_request_line(),
                        next: Startup::Requesting(buffered),
                    },
                ),
                Err(error) => Err(StartupError::Subscription(error)),
            },
            Startup::Requesting(buffered) => match read_snapshot(line) {
                Ok(Some(snapshot)) => {
                    let (driver, task) = Driver::new(snapshot);
                    Ok(StartupStep::Run { driver, task, buffered })
                },
                Ok(None) => Ok(StartupStep::ReadSnapshot(Startup::Requesting(buffered))),
                Err(error) => Err(StartupError::Snapshot(error)),
            },
        }
    }
}

} // verus!
