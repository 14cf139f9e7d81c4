//! The main loop, step by step: what is to be done next, given how the last thing turned out.
use crate::decode::{DecodeError, DecodeErrorView};
use crate::model::{HerdrMessage, MessageView, PaneView, SessionSnapshot};
use crate::monitor::{CaffeinateAction, Monitor, MonitorView, Reaction, ReactionView};
use crate::statuses::statuses_of;
use vstd::prelude::*;

verus! {

/// What the main loop is to do next.
#[derive(Debug)]
pub enum Task {
    /// Wait for the next message.
    Wait,
    /// Subscribe to the status changes of the pane, and answer whether that worked.
    Subscribe { pane_id: String },
    /// Shut the pane's status socket down, wait for its reader to end, and answer when that is
    /// done.
    Unsubscribe { pane_id: String },
    /// Drop what belongs to the pane's status socket, which has closed, and answer when that is
    /// done.
    Release { pane_id: String },
    /// Find out whether the `caffeinate` process, if there is one, has exited, and answer that.
    Poll,
    /// Start `caffeinate`, and answer whether that worked.
    Start,
    /// Stop `caffeinate`, wait for it to end, and answer when that is done.
    Stop,
}

/// The model of [`Task`].
pub enum TaskView {
    Wait,
    Subscribe(Seq<char>),
    Unsubscribe(Seq<char>),
    Release(Seq<char>),
    Poll,
    Start,
    Stop,
}

impl View for Task {
    type V = TaskView;

    open spec fn view(&self) -> TaskView {
        match self {
            Task::Wait => TaskView::Wait,
            Task::Subscribe { pane_id } => TaskView::Subscribe(pane_id@),
            Task::Unsubscribe { pane_id } => TaskView::Unsubscribe(pane_id@),
            Task::Release { pane_id } => TaskView::Release(pane_id@),
            Task::Poll => TaskView::Poll,
            Task::Start => TaskView::Start,
            Task::Stop => TaskView::Stop,
        }
    }
}

/// How a task turned out.
#[derive(Debug, Clone, Copy, PartialEq, Eq, Structural)]
pub enum Answer {
    /// Whether the subscription started.
    Subscribed(bool),
    /// Whether the process has exited.
    Polled(bool),
    /// Whether the process started.
    Started(bool),
    /// It is done.
    Done,
}

/// What is awaited.
enum Pending {
    Nothing,
    Subscription { pane_id: String, reconcile: bool },
    Removal,
    Poll,
    Start,
    Stop,
}

/// The model of what is awaited.
pub enum PendingView {
    /// Nothing: a message may come.
    Nothing,
    /// Whether the subscription to the pane starts; then, if `reconcile` holds, `caffeinate` is
    /// reconciled with the statuses.
    Subscription { pane_id: Seq<char>, reconcile: bool },
    /// That a status socket is gone.
    Removal,
    /// Whether the process has exited.
    Poll,
    /// Whether the process starts.
    Start,
    /// That the process has ended.
    Stop,
}

/// What the main loop knows, and what it awaits.
pub struct Driver {
    monitor: Monitor,
    pending: Pending,
}

/// The model of [`Driver`].
#[verifier::ext_equal]
pub struct DriverView {
    pub monitor: MonitorView,
    pub pending: PendingView,
}

impl View for Driver {
    type V = DriverView;

    closed spec fn view(&self) -> DriverView {
        DriverView {
            monitor: self.monitor@,
            pending: match self.pending {
                Pending::Nothing => PendingView::Nothing,
                Pending::Subscription { pane_id, reconcile } => PendingView::Subscription {
                    pane_id: pane_id@,
                    reconcile,
                },
                Pending::Removal => PendingView::Removal,
                Pending::Poll => PendingView::Poll,
                Pending::Start => PendingView::Start,
                Pending::Stop => PendingView::Stop,
            },
        }
    }
}

/// The first thing to do for a reaction, and what is awaited from it.
pub open spec fn first_task(reaction: ReactionView) -> (PendingView, TaskView) {
    match reaction {
        ReactionView::PaneCreated { pane, subscribe: true } => (
            PendingView::Subscription { pane_id: pane.pane_id, reconcile: true },
            TaskView::Subscribe(pane.pane_id),
        ),
        ReactionView::PaneClosed { pane_id, unsubscribe: true } => (
            PendingView::Removal,
            TaskView::Unsubscribe(pane_id),
        ),
        ReactionView::StatusSocketClosed { pane_id, release: true } => (
            PendingView::Removal,
            TaskView::Release(pane_id),
        ),
        ReactionView::LifecycleSocketClosed => (PendingView::Nothing, TaskView::Wait),
        _ => (PendingView::Poll, TaskView::Poll),
    }
}

impl DriverView {
    /// After a message. A lifecycle event that cannot be decoded is an error.
    pub open spec fn after_message(self, message: MessageView) -> Result<
        (DriverView, ReactionView, TaskView),
        DecodeErrorView,
    > {
        match self.monitor.after_message(message) {
            Err(error) => Err(error),
            Ok((monitor, reaction)) => Ok(
                (
                    DriverView { monitor, pending: first_task(reaction).0 },
                    reaction,
                    first_task(reaction).1,
                ),
            ),
        }
    }

    /// After an answer. One that was not awaited changes nothing.
    pub open spec fn after_answer(self, answer: Answer) -> (DriverView, TaskView) {
        match (self.pending, answer) {
            (
                PendingView::Subscription { pane_id, reconcile },
                Answer::Subscribed(started),
            ) => {
                let monitor = self.monitor.after_subscribing(pane_id, started);
                if reconcile {
                    (DriverView { monitor, pending: PendingView::Poll }, TaskView::Poll)
                } else {
                    (DriverView { monitor, pending: PendingView::Nothing }, TaskView::Wait)
                }
            },
            (PendingView::Removal, Answer::Done) => (
                DriverView { pending: PendingView::Poll, ..self },
                TaskView::Poll,
            ),
            (PendingView::Poll, Answer::Polled(exited)) => {
                let (monitor, action) = self.monitor.reconciled(exited);
                match action {
                    CaffeinateAction::Start => (
                        DriverView { monitor, pending: PendingView::Start },
                        TaskView::Start,
                    ),
                    CaffeinateAction::Stop => (
                        DriverView { monitor, pending: PendingView::Stop },
                        TaskView::Stop,
                    ),
                    CaffeinateAction::Keep => (
                        DriverView { monitor, pending: PendingView::Nothing },
                        TaskView::Wait,
                    ),
                }
            },
            (PendingView::Start, Answer::Started(started)) => (
                DriverView {
                    monitor: self.monitor.after_starting(started),
                    pending: PendingView::Nothing,
                },
                TaskView::Wait,
            ),
            (PendingView::Stop, Answer::Done) => (
                DriverView { pending: PendingView::Nothing, ..self },
                TaskView::Wait,
            ),
            _ => (self, TaskView::Wait),
        }
    }

    /// After the wish to watch a pane: it is subscribed to unless it already is.
    pub open spec fn after_watching(self, pane_id: Seq<char>) -> (DriverView, TaskView) {
        if self.monitor.subscriptions.contains(pane_id) {
            (DriverView { pending: PendingView::Nothing, ..self }, TaskView::Wait)
        } else {
            (
                DriverView {
                    pending: PendingView::Subscription { pane_id, reconcile: false },
                    ..self
                },
                TaskView::Subscribe(pane_id),
            )
        }
    }
}

/// What is known when the snapshot has been taken in: `caffeinate` is reconciled with it first.
pub open spec fn driver_of(panes: Seq<PaneView>) -> DriverView {
    DriverView {
        monitor: MonitorView {
            statuses: statuses_of(panes),
            subscriptions: Set::empty(),
            caffeinated: false,
        },
        pending: PendingView::Poll,
    }
}

impl Driver {
    /// Takes in the snapshot. The first task is [`Task::Poll`].
    pub fn new(snapshot: SessionSnapshot) -> (started: (Driver, Task))
        ensures
            started.0@ == driver_of(snapshot@),
            started.1@ == TaskView::Poll,
    {
        (Driver { monitor: Monitor::new(snapshot), pending: Pending::Poll }, Task::Poll)
    }

    /// What is known.
    pub fn monitor(&self) -> (monitor: &Monitor)
        ensures
            monitor@ == self@.monitor,
    {
        &self.monitor
    }

    /// Takes in a message: what it brought about, and the first thing to do for it.
    pub fn handle_message(&mut self, message: HerdrMessage) -> (handled: Result<
        (Reaction, Task),
        DecodeError,
    >)
        ensures
            match handled {
                Ok((reaction, task)) => old(self)@.after_message(message@) == Ok::<_, DecodeErrorView>(
                    (final(self)@, reaction@, task@),
                ),
                Err(error) => {
                    &&& old(self)@.after_message(message@) == Err::<
                        (DriverView, ReactionView, TaskView),
                        _,
                    >(error@)
                    &&& final(self)@ == old(self)@
                },
            },
    {
        let reaction = match self.monitor.handle_message(message) {
            Ok(reaction) => reaction,
            Err(error) => return Err(error),
        };
        let task = match &reaction {
            Reaction::PaneCreated { pane_id, subscribe: true, .. } => {
                self.pending = Pending::Subscription { pane_id: pane_id.clone(), reconcile: true };
                Task::Subscribe { pane_id: pane_id.clone() }
            },
            Reaction::PaneClosed { pane_id, unsubscribe: true } => {
                self.pending = Pending::Removal;
                Task::Unsubscribe { pane_id: pane_id.clone() }
            },
            Reaction::StatusSocketClosed { pane_id, release: true } => {
                self.pending = Pending::Removal;
                Task::Release { pane_id: pane_id.clone() }
            },
            Reaction::LifecycleSocketClosed => {
                self.pending = Pending::Nothing;
                Task::Wait
            },
            _ => {
                self.pending = Pending::Poll;
                Task::Poll
            },
        };
        Ok((reaction, task))
    }

    /// Asks for the status changes of `pane_id`, unless they are already subscribed to.
    pub fn ensure_status_subscription(&mut self, pane_id: &str) -> (task: Task)
        ensures
            (final(self)@, task@) == old(self)@.after_watching(pane_id@),
    {
        if self.monitor.needs_status_subscription(pane_id) {
            self.pending = Pending::Subscription { pane_id: pane_id.to_owned(), reconcile: false };
            Task::Subscribe { pane_id: pane_id.to_owned() }
        } else {
            self.pending = Pending::Nothing;
            Task::Wait
        }
    }

    /// Takes in how the last task turned out, and says what to do next.
    pub fn answer(&mut self, answer: Answer) -> (task: Task)
        ensures
            (final(self)@, task@) == old(self)@.after_answer(answer),
    {
        let mut pending = Pending::Nothing;
        std::mem::swap(&mut pending, &mut self.pending);
        match (pending, answer) {
            (Pending::Subscription { pane_id, reconcile }, Answer::Subscribed(started)) => {
                self.monitor.status_subscription_attempted(pane_id, started);
                if reconcile {
                    self.pending = Pending::Poll;
                    Task::Poll
                } else {
                    Task::Wait
                }
            },
            (Pending::Removal, Answer::Done) => {
                self.pending = Pending::Poll;
                Task::Poll
            },
            (Pending::Poll, Answer::Polled(exited)) => {
                match self.monitor.update_caffeinate(exited) {
                    CaffeinateAction::Start => {
                        self.pending = Pending::Start;
                        Task::Start
                    },
                    CaffeinateAction::Stop => {
                        self.pending = Pending::Stop;
                        Task::Stop
                    },
                    CaffeinateAction::Keep => Task::Wait,
                }
            },
            (Pending::Start, Answer::Started(started)) => {
                self.monitor.caffeinate_attempted(started);
                Task::Wait
            },
            (Pending::Stop, Answer::Done) => Task::Wait,
            (awaited, _) => {
                self.pending = awaited;
                Task::Wait
            },
        }
    }
}

} // verus!
