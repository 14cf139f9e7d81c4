//! What the main loop decides: which panes to watch, and whether `caffeinate` should run.
use crate::decode::{decode_event, decoded_event, DecodeError, DecodeErrorView};
use crate::model::{
    AgentStatus, EventView, HerdrEventData, HerdrMessage, MessageView, PaneView, SessionSnapshot,
};
use crate::statuses::{
    any_working, apply_message, has_working_agent, statuses_of, with_report, PaneStatuses,
};
use crate::text::text_views;
use vstd::hash_map::StringHashMap;
use vstd::prelude::*;

verus! {

/// What the main loop knows: the status of every pane, the panes whose status changes are
/// subscribed to, and whether there is a `caffeinate` process.
pub struct Monitor {
    statuses: PaneStatuses,
    subscriptions: StringHashMap<()>,
    caffeinated: bool,
}

/// The model of [`Monitor`].
#[verifier::ext_equal]
pub struct MonitorView {
    pub statuses: Map<Seq<char>, AgentStatus>,
    pub subscriptions: Set<Seq<char>>,
    pub caffeinated: bool,
}

impl View for Monitor {
    type V = MonitorView;

    closed spec fn view(&self) -> MonitorView {
        MonitorView {
            statuses: self.statuses@,
            subscriptions: self.subscriptions@.dom(),
            caffeinated: self.caffeinated,
        }
    }
}

/// What a message brought about, and what is left to do for it.
#[derive(Debug)]
pub enum Reaction {
    /// A pane was created. Its status changes are still to be subscribed to where `subscribe`
    /// holds.
    PaneCreated { pane_id: String, agent_status: AgentStatus, subscribe: bool },
    /// A pane was closed. Its status socket is still to be shut down where `unsubscribe` holds.
    PaneClosed { pane_id: String, unsubscribe: bool },
    /// A lifecycle event of another kind.
    OtherEvent,
    /// The status of a pane was reported.
    StatusReported { pane_id: String, agent_status: AgentStatus },
    /// The status socket of a pane closed. What belongs to it is still to be dropped where
    /// `release` holds.
    StatusSocketClosed { pane_id: String, release: bool },
    /// The lifecycle socket closed.
    LifecycleSocketClosed,
}

/// The model of [`Reaction`].
pub enum ReactionView {
    PaneCreated { pane: PaneView, subscribe: bool },
    PaneClosed { pane_id: Seq<char>, unsubscribe: bool },
    OtherEvent,
    StatusReported { pane: PaneView },
    StatusSocketClosed { pane_id: Seq<char>, release: bool },
    LifecycleSocketClosed,
}

impl View for Reaction {
    type V = ReactionView;

    open spec fn view(&self) -> ReactionView {
        match self {
            Reaction::PaneCreated { pane_id, agent_status, subscribe } => {
                let pane = PaneView { pane_id: pane_id@, agent_status: *agent_status };
                ReactionView::PaneCreated { pane, subscribe: *subscribe }
            },
            Reaction::PaneClosed { pane_id, unsubscribe } => ReactionView::PaneClosed {
                pane_id: pane_id@,
                unsubscribe: *unsubscribe,
            },
            Reaction::OtherEvent => ReactionView::OtherEvent,
            Reaction::StatusReported { pane_id, agent_status } => {
                let pane = PaneView { pane_id: pane_id@, agent_status: *agent_status };
                ReactionView::StatusReported { pane }
            },
            Reaction::StatusSocketClosed { pane_id, release } => ReactionView::StatusSocketClosed {
                pane_id: pane_id@,
                release: *release,
            },
            Reaction::LifecycleSocketClosed => ReactionView::LifecycleSocketClosed,
        }
    }
}

/// What is to be done about `caffeinate`.
#[derive(Debug, Clone, Copy, PartialEq, Eq, Structural)]
pub enum CaffeinateAction {
    /// Nothing.
    Keep,
    /// Start it.
    Start,
    /// Stop it, and wait for it to end.
    Stop,
}

impl MonitorView {
    /// Some pane is working.
    pub open spec fn working(self) -> bool {
        any_working(self.statuses)
    }

    /// After a lifecycle event.
    pub open spec fn after_event(self, event: EventView) -> (MonitorView, ReactionView) {
        match event {
            EventView::PaneCreated(pane) => (
                MonitorView {
                    statuses: self.statuses.insert(pane.pane_id, pane.agent_status),
                    ..self
                },
                ReactionView::PaneCreated {
                    pane,
                    subscribe: !self.subscriptions.contains(pane.pane_id),
                },
            ),
            EventView::PaneClosed(pane_id) => (
                MonitorView {
                    statuses: self.statuses.remove(pane_id),
                    subscriptions: self.subscriptions.remove(pane_id),
                    ..self
                },
                ReactionView::PaneClosed {
                    pane_id,
                    unsubscribe: self.subscriptions.contains(pane_id),
                },
            ),
            EventView::Other => (self, ReactionView::OtherEvent),
        }
    }

    /// After a message. A lifecycle event that cannot be decoded is an error.
    pub open spec fn after_message(self, message: MessageView) -> Result<
        (MonitorView, ReactionView),
        DecodeErrorView,
    > {
        match message {
            MessageView::Lifecycle(message) => match decoded_event(message) {
                Ok(event) => Ok(self.after_event(event)),
                Err(error) => Err(error),
            },
            MessageView::Status(pane) => Ok(
                (
                    MonitorView { statuses: with_report(self.statuses, pane), ..self },
                    ReactionView::StatusReported { pane },
                ),
            ),
            MessageView::SocketClosed(Some(pane_id)) => Ok(
                (
                    MonitorView { subscriptions: self.subscriptions.remove(pane_id), ..self },
                    ReactionView::StatusSocketClosed {
                        pane_id,
                        release: self.subscriptions.contains(pane_id),
                    },
                ),
            ),
            MessageView::SocketClosed(None) => Ok((self, ReactionView::LifecycleSocketClosed)),
        }
    }

    /// After the attempt to subscribe to the status changes of `pane_id`.
    pub open spec fn after_subscribing(self, pane_id: Seq<char>, started: bool) -> MonitorView {
        if started {
            MonitorView { subscriptions: self.subscriptions.insert(pane_id), ..self }
        } else {
            self
        }
    }

    /// What is to be done about `caffeinate`, and what is known while that is done. A process
    /// that has exited is forgotten first.
    pub open spec fn reconciled(self, exited: bool) -> (MonitorView, CaffeinateAction) {
        let alive = self.caffeinated && !exited;
        if self.working() && !alive {
            (MonitorView { caffeinated: false, ..self }, CaffeinateAction::Start)
        } else if !self.working() && alive {
            (MonitorView { caffeinated: false, ..self }, CaffeinateAction::Stop)
        } else {
            (MonitorView { caffeinated: alive, ..self }, CaffeinateAction::Keep)
        }
    }

    /// After the attempt to start `caffeinate`.
    pub open spec fn after_starting(self, started: bool) -> MonitorView {
        MonitorView { caffeinated: started, ..self }
    }
}

impl Monitor {
    /// Knows the panes of `snapshot`; no pane is subscribed to and `caffeinate` does not run.
    pub fn new(snapshot: SessionSnapshot) -> (monitor: Monitor)
        ensures
            monitor@ == (MonitorView {
                statuses: statuses_of(snapshot@),
                subscriptions: Set::empty(),
                caffeinated: false,
            }),
    {
        let monitor = Monitor {
            statuses: PaneStatuses::from_panes(snapshot.panes),
            subscriptions: StringHashMap::new(),
            caffeinated: false,
        };
        assert(monitor@.subscriptions =~= Set::empty());
        monitor
    }

    /// How many panes are known.
    pub fn pane_count(&self) -> (count: usize)
        ensures
            count == self@.statuses.len(),
    {
        self.statuses.len()
    }

    /// The ids of the known panes, each of them once.
    pub fn pane_ids(&self) -> (ids: Vec<String>)
        ensures
            text_views(ids@).no_duplicates(),
            text_views(ids@).to_set() == self@.statuses.dom(),
    {
        self.statuses.pane_ids()
    }

    /// Whether some pane is working.
    pub fn has_working_agent(&self) -> (working: bool)
        ensures
            working == self@.working(),
    {
        has_working_agent(&self.statuses)
    }

    /// Whether there is a `caffeinate` process.
    pub fn is_caffeinated(&self) -> (caffeinated: bool)
        ensures
            caffeinated == self@.caffeinated,
    {
        self.caffeinated
    }

    /// Whether the status changes of `pane_id` are still to be subscribed to.
    pub fn needs_status_subscription(&self, pane_id: &str) -> (needed: bool)
        ensures
            needed == !self@.subscriptions.contains(pane_id@),
    {
        !self.subscriptions.contains_key(pane_id)
    }

    /// Notes whether the subscription to the status changes of `pane_id` has started.
    pub fn status_subscription_attempted(&mut self, pane_id: String, started: bool)
        ensures
            final(self)@ == old(self)@.after_subscribing(pane_id@, started),
    {
        if started {
            self.subscriptions.insert(pane_id, ());
        }
        assert(self@ =~= old(self)@.after_subscribing(pane_id@, started));
    }

    /// Takes in a message, and says what is left to do for it.
    pub fn handle_message(&mut self, message: HerdrMessage) -> (reaction: Result<
        Reaction,
        DecodeError,
    >)
        ensures
            match reaction {
                Ok(reaction) => old(self)@.after_message(message@) == Ok::<_, DecodeErrorView>(
                    (final(self)@, reaction@),
                ),
                Err(error) => {
                    &&& old(self)@.after_message(message@) == Err::<
                        (MonitorView, ReactionView),
                        _,
                    >(error@)
                    &&& final(self)@ == old(self)@
                },
            },
    {
        match message {
            HerdrMessage::Lifecycle(message) => {
                let event = match decode_event(&message) {
                    Ok(event) => event,
                    Err(error) => return Err(error),
                };
                match event.data {
                    HerdrEventData::PaneCreated { pane } => {
                        let subscribe = self.needs_status_subscription(pane.pane_id.as_str());
                        self.statuses.insert(pane.pane_id.clone(), pane.agent_status);
                        Ok(
                            Reaction::PaneCreated {
                                pane_id: pane.pane_id,
                                agent_status: pane.agent_status,
                                subscribe,
                            },
                        )
                    },
                    HerdrEventData::PaneClosed { pane_id } => {
                        let unsubscribe = self.subscriptions.contains_key(pane_id.as_str());
                        self.statuses.remove(pane_id.as_str());
                        self.subscriptions.remove(pane_id.as_str());
                        assert(self@.subscriptions =~= old(self)@.subscriptions.remove(pane_id@));
                        Ok(Reaction::PaneClosed { pane_id, unsubscribe })
                    },
                    HerdrEventData::Other => Ok(Reaction::OtherEvent),
                }
            },
            HerdrMessage::Status(event) => {
                let pane_id = event.pane_id.clone();
                let agent_status = event.agent_status;
                apply_message(HerdrMessage::Status(event), &mut self.statuses);
                Ok(Reaction::StatusReported { pane_id, agent_status })
            },
            HerdrMessage::SocketClosed { pane_id: None } => Ok(Reaction::LifecycleSocketClosed),
            HerdrMessage::SocketClosed { pane_id: Some(pane_id) } => {
                let release = self.subscriptions.contains_key(pane_id.as_str());
                self.subscriptions.remove(pane_id.as_str());
                assert(self@.subscriptions =~= old(self)@.subscriptions.remove(pane_id@));
                Ok(Reaction::StatusSocketClosed { pane_id, release })
            },
        }
    }

    /// Says what is to be done about `caffeinate`, where `exited` tells whether the process, if
    /// there is one, has exited.
    pub fn update_caffeinate(&mut self, exited: bool) -> (action: CaffeinateAction)
        ensures
            (final(self)@, action) == old(self)@.reconciled(exited),
    {
        if exited {
            self.caffeinated = false;
        }
        let working = has_working_agent(&self.statuses);
        if working && !self.caffeinated {
            CaffeinateAction::Start
        } else if !working && self.caffeinated {
            self.caffeinated = false;
            CaffeinateAction::Stop
        } else {
            CaffeinateAction::Keep
        }
    }

    /// Notes whether `caffeinate` has started.
    pub fn caffeinate_attempted(&mut self, started: bool)
        ensures
            final(self)@ == old(self)@.after_starting(started),
    {
        self.caffeinated = started;
    }
}

} // verus!
