//! The parts of Herdr's messages that the library works with.
use crate::json::{Json, JsonView};
use vstd::prelude::*;

verus! {

/// What the agent in a pane is doing.
#[derive(Debug, Clone, Copy, PartialEq, Eq, Structural)]
pub enum AgentStatus {
    Idle,
    Working,
    Blocked,
    Done,
    Unknown,
}

/// A pane and the status of its agent.
#[derive(Debug)]
pub struct PaneState {
    pub pane_id: String,
    pub agent_status: AgentStatus,
}

/// The panes of a session.
#[derive(Debug)]
pub struct SessionSnapshot {
    pub panes: Vec<PaneState>,
}

/// The result of a `session.snapshot` request.
#[derive(Debug)]
pub struct SnapshotResponseResult {
    pub snapshot: SessionSnapshot,
}

/// What a lifecycle event tells.
#[derive(Debug)]
pub enum HerdrEventData {
    PaneCreated { pane: PaneState },
    PaneClosed { pane_id: String },
    Other,
}

/// A lifecycle event.
#[derive(Debug)]
pub struct HerdrEvent {
    pub data: HerdrEventData,
}

/// A change of an agent's status.
#[derive(Debug)]
pub struct AgentStatusChanged {
    pub pane_id: String,
    pub agent_status: AgentStatus,
}

/// An event of a status subscription.
#[derive(Debug)]
pub struct SubscriptionEvent {
    pub data: AgentStatusChanged,
}

/// What a socket reader hands to the main loop.
#[derive(Debug)]
pub enum HerdrMessage {
    Lifecycle(Json),
    Status(AgentStatusChanged),
    SocketClosed { pane_id: Option<String> },
}

/// A pane's id and status: the model of [`PaneState`] and of [`AgentStatusChanged`].
pub struct PaneView {
    pub pane_id: Seq<char>,
    pub agent_status: AgentStatus,
}

impl View for PaneState {
    type V = PaneView;

    open spec fn view(&self) -> PaneView {
        PaneView { pane_id: self.pane_id@, agent_status: self.agent_status }
    }
}

impl View for AgentStatusChanged {
    type V = PaneView;

    open spec fn view(&self) -> PaneView {
        PaneView { pane_id: self.pane_id@, agent_status: self.agent_status }
    }
}

impl View for SubscriptionEvent {
    type V = PaneView;

    open spec fn view(&self) -> PaneView {
        self.data@
    }
}

/// The models of a list of panes.
pub open spec fn pane_views(panes: Seq<PaneState>) -> Seq<PaneView> {
    panes.map_values(|pane: PaneState| pane@)
}

impl View for SessionSnapshot {
    type V = Seq<PaneView>;

    open spec fn view(&self) -> Seq<PaneView> {
        pane_views(self.panes@)
    }
}

impl View for SnapshotResponseResult {
    type V = Seq<PaneView>;

    open spec fn view(&self) -> Seq<PaneView> {
        self.snapshot@
    }
}

/// The model of [`HerdrEventData`] and of [`HerdrEvent`].
pub enum EventView {
    PaneCreated(PaneView),
    PaneClosed(Seq<char>),
    Other,
}

impl View for HerdrEventData {
    type V = EventView;

    open spec fn view(&self) -> EventView {
        match self {
            HerdrEventData::PaneCreated { pane } => EventView::PaneCreated(pane@),
            HerdrEventData::PaneClosed { pane_id } => EventView::PaneClosed(pane_id@),
            HerdrEventData::Other => EventView::Other,
        }
    }
}

impl View for HerdrEvent {
    type V = EventView;

    open spec fn view(&self) -> EventView {
        self.data@
    }
}

/// The model of [`HerdrMessage`].
pub enum MessageView {
    Lifecycle(JsonView),
    Status(PaneView),
    SocketClosed(Option<Seq<char>>),
}

impl View for HerdrMessage {
    type V = MessageView;

    open spec fn view(&self) -> MessageView {
        match self {
            HerdrMessage::Lifecycle(message) => MessageView::Lifecycle(message@),
            HerdrMessage::Status(event) => MessageView::Status(event@),
            HerdrMessage::SocketClosed { pane_id: Some(pane_id) } => MessageView::SocketClosed(
                Some(pane_id@),
            ),
            HerdrMessage::SocketClosed { pane_id: None } => MessageView::SocketClosed(None),
        }
    }
}

} // verus!
