//! What the models show of the values that they stand for.
use crate::codec::{
    description, distinct_keys, is_refused, json_text, node_view, parsed_json, plain_within,
    quoted_text, reads_as, value_tree, Node, READABLE_DEPTH,
};
use crate::decode::{same_result, same_status, DecodeError, DecodeErrorView};
use crate::driver::{Task, TaskView};
use crate::entries::{entries_map, lemma_entries_map_contains, lemma_entries_map_get};
use crate::json::{entry_views, same_option, Json, JsonView};
use crate::launch::{LaunchStep, LaunchStepView};
use crate::messages::{
    message_views, optional_message, read_view, MessageError, MessageErrorView, ReaderEvent,
    ReaderEventView, ReaderStep, ReaderStepView, Response,
};
use crate::model::{
    pane_views, AgentStatus, AgentStatusChanged, EventView, HerdrEvent, HerdrEventData,
    HerdrMessage, MessageView, PaneState, SessionSnapshot, SnapshotResponseResult,
    SubscriptionEvent,
};
use crate::monitor::{Reaction, ReactionView};
use crate::replies::{
    handshake_view, line_view, snapshot_view, HandshakeError, HandshakeStep, HandshakeView, Reply,
    ReplyView, SnapshotError, SnapshotView,
};
use crate::startup::{
    startup_view, Startup, StartupError, StartupStep, StartupStepView, StartupView,
};
use crate::text::text_views;
use serde_json::Value;
use vstd::prelude::*;

verus! {

/// No entry after the one at `at` has its key.
pub open spec fn entry_counts(entries: Seq<(String, Json)>, at: int) -> bool {
    forall|later: int|
        at < later < entries.len() ==> (#[trigger] entries[later]).0@ != entries[at].0@
}

/// The model of a JSON value shows what it holds: a scalar as it is, the items of an array in
/// order, and the entries of an object by their keys, where the last entry of a key counts.
pub proof fn law_json_is_shown(json: Json)
    ensures
        match json {
            Json::Null => json@ == JsonView::Null,
            Json::Bool(b) => json@ == JsonView::Bool(b),
            Json::Unsigned(n) => json@ == JsonView::Integer(n as int),
            Json::Signed(n) => json@ == JsonView::Integer(n as int),
            Json::Fraction(n) => json@ == JsonView::Fraction(n),
            Json::Text(text) => json@ == JsonView::Text(text@),
            Json::Array(items) => json@ matches JsonView::Array(shown) && shown.len()
                == items@.len() && (forall|at: int|
                0 <= at < items@.len() ==> #[trigger] shown[at] == items@[at]@),
            Json::Object(entries) => json@ matches JsonView::Object(shown) && (forall|
                key: Seq<char>,
            | #[trigger]
                shown.contains_key(key) <==> exists|at: int|
                    0 <= at < entries@.len() && (#[trigger] entries@[at]).0@ == key) && (forall|
                at: int,
            |
                0 <= at < entries@.len() && entry_counts(entries@, at) ==> shown[(
                #[trigger] entries@[at]).0@] == entries@[at].1@),
        },
{
    if let Json::Object(entries) = json {
        let views = entry_views(entries@);
        let shown = json@->Object_0;
        assert forall|key: Seq<char>| #[trigger] shown.contains_key(key) <==> exists|at: int|
            0 <= at < entries@.len() && (#[trigger] entries@[at]).0@ == key by {
            lemma_entries_map_contains(views, key);
            if shown.contains_key(key) {
                let at = choose|at: int| 0 <= at < views.len() && (#[trigger] views[at]).0 == key;
                assert(entries@[at].0@ == key);
            }
            if exists|at: int| 0 <= at < entries@.len() && (#[trigger] entries@[at]).0@ == key {
                let at = choose|at: int|
                    0 <= at < entries@.len() && (#[trigger] entries@[at]).0@ == key;
                assert(views[at].0 == key);
            }
        }
        assert forall|at: int| 0 <= at < entries@.len() && entry_counts(entries@, at) implies shown[
        (#[trigger] entries@[at]).0@] == entries@[at].1@ by {
            assert forall|later: int| at < later < views.len() implies (#[trigger] views[later]).0
                != views[at].0 by {
                assert(entries@[later].0@ != entries@[at].0@);
            }
            lemma_entries_map_get(views, at);
        }
    }
}

/// What it means that a text is read as a value, or refused for a reason.
pub proof fn law_reading_is_exact(text: Seq<char>, json: JsonView, sentence: Seq<char>)
    ensures
        reads_as(text, json) <==> parsed_json(text) == Ok::<JsonView, Seq<char>>(json),
        is_refused(text, sentence) <==> parsed_json(text) == Err::<JsonView, Seq<char>>(sentence),
        reads_as(text, json) ==> !is_refused(text, sentence),
{
}

/// One layer of a value is shown as what it holds, with the values inside it by their trees; where
/// no key comes twice every entry of an object counts.
pub proof fn law_layers_are_shown(node: Node)
    ensures
        match node {
            Node::Null => node_view(node) == JsonView::Null,
            Node::Bool(b) => node_view(node) == JsonView::Bool(b),
            Node::Unsigned(n) => node_view(node) == JsonView::Integer(n as int),
            Node::Signed(n) => node_view(node) == JsonView::Integer(n as int),
            Node::Fraction(n) => node_view(node) == JsonView::Fraction(n),
            Node::Text(text) => node_view(node) == JsonView::Text(text@),
            Node::Array(items) => node_view(node) matches JsonView::Array(shown) && shown.len()
                == items@.len() && (forall|at: int|
                0 <= at < items@.len() ==> #[trigger] shown[at] == value_tree(items@[at])),
            Node::Object(entries) => node_view(node) matches JsonView::Object(shown) && (forall|
                key: Seq<char>,
            | #[trigger]
                shown.contains_key(key) <==> exists|at: int|
                    0 <= at < entries@.len() && (#[trigger] entries@[at]).0@ == key) && (
            distinct_keys(entries@) ==> forall|at: int|
                0 <= at < entries@.len() ==> shown[(#[trigger] entries@[at]).0@] == value_tree(
                    entries@[at].1,
                )),
        },
{
    if let Node::Object(entries) = node {
        let views = Seq::new(
            entries@.len(),
            |i: int| (entries@[i].0@, value_tree(entries@[i].1)),
        );
        let shown = node_view(node)->Object_0;
        assert(shown == entries_map(views));
        assert forall|key: Seq<char>| #[trigger] shown.contains_key(key) <==> exists|at: int|
            0 <= at < entries@.len() && (#[trigger] entries@[at]).0@ == key by {
            lemma_entries_map_contains(views, key);
            if shown.contains_key(key) {
                let at = choose|at: int| 0 <= at < views.len() && (#[trigger] views[at]).0 == key;
                assert(entries@[at].0@ == key);
            }
            if exists|at: int| 0 <= at < entries@.len() && (#[trigger] entries@[at]).0@ == key {
                let at = choose|at: int|
                    0 <= at < entries@.len() && (#[trigger] entries@[at]).0@ == key;
                assert(views[at].0 == key);
            }
        }
        if distinct_keys(entries@) {
            assert forall|at: int| 0 <= at < entries@.len() implies shown[(
            #[trigger] entries@[at]).0@] == value_tree(entries@[at].1) by {
                assert forall|later: int| at < later < views.len() implies (
                #[trigger] views[later]).0 != views[at].0 by {
                    assert(entries@[at].0@ != entries@[later].0@);
                }
                lemma_entries_map_get(views, at);
            }
        }
    }
}

/// No two entries have one key exactly if equal keys stand at equal places.
pub proof fn law_distinct_keys(entries: Seq<(String, Value)>, i: int, j: int)
    requires
        distinct_keys(entries),
        0 <= i < entries.len(),
        0 <= j < entries.len(),
        entries[i].0@ == entries[j].0@,
    ensures
        i == j,
{
}

/// A value is spoken of by its kind: a scalar with its text, a string in quotation marks.
pub proof fn law_values_are_described(json: JsonView)
    ensures
        match json {
            JsonView::Null => description(json) == "null"@,
            JsonView::Bool(_) => description(json) == "boolean `"@ + json_text(json) + "`"@,
            JsonView::Integer(_) => description(json) == "integer `"@ + json_text(json) + "`"@,
            JsonView::Fraction(_) => description(json) == "floating point `"@ + json_text(json)
                + "`"@,
            JsonView::Text(text) => description(json) == "string "@ + quoted_text(text),
            JsonView::Array(_) => description(json) == "sequence"@,
            JsonView::Object(_) => description(json) == "map"@,
        },
{
}

/// A value is read back from its text unless it holds a fraction or is nested more than 127 deep:
/// scalars always are, and an array or an object is if what it holds is, one level less deep.
pub proof fn law_read_back_values(json: JsonView, depth: nat)
    ensures
        READABLE_DEPTH == 127,
        json is Null || json is Bool || json is Integer || json is Text ==> plain_within(
            json,
            depth,
        ),
        json is Fraction ==> !plain_within(json, depth),
        json matches JsonView::Array(items) ==> (plain_within(json, depth + 1) <==> forall|at: int|
            0 <= at < items.len() ==> #[trigger] plain_within(items[at], depth)),
        json matches JsonView::Object(fields) ==> (plain_within(json, depth + 1) <==> forall|
            key: Seq<char>,
        |
            fields.contains_key(key) ==> #[trigger] plain_within(fields[key], depth)),
{
    if let JsonView::Array(items) = json {
        if plain_within(json, depth + 1) {
            assert forall|at: int| 0 <= at < items.len() implies #[trigger] plain_within(
                items[at],
                depth,
            ) by {}
        }
        if forall|at: int| 0 <= at < items.len() ==> #[trigger] plain_within(items[at], depth) {
            assert forall|at: int| 0 <= at < items.len() implies plain_within(
                #[trigger] items[at],
                depth,
            ) by {
                assert(plain_within(items[at], depth));
            }
        }
    }
    if let JsonView::Object(fields) = json {
        if plain_within(json, depth + 1) {
            assert forall|key: Seq<char>| fields.contains_key(key) implies #[trigger] plain_within(
                fields[key],
                depth,
            ) by {}
        }
        if forall|key: Seq<char>|
            fields.contains_key(key) ==> #[trigger] plain_within(fields[key], depth) {
            assert forall|key: Seq<char>| #[trigger] fields.contains_key(key) implies plain_within(
                fields[key],
                depth,
            ) by {}
        }
    }
}

/// Lists of texts, of panes and of messages are shown item by item.
pub proof fn law_lists_are_shown(
    texts: Seq<String>,
    panes: Seq<PaneState>,
    messages: Seq<HerdrMessage>,
)
    ensures
        text_views(texts).len() == texts.len(),
        forall|at: int| 0 <= at < texts.len() ==> #[trigger] text_views(texts)[at] == texts[at]@,
        pane_views(panes).len() == panes.len(),
        forall|at: int| 0 <= at < panes.len() ==> #[trigger] pane_views(panes)[at] == panes[at]@,
        message_views(messages).len() == messages.len(),
        forall|at: int|
            0 <= at < messages.len() ==> #[trigger] message_views(messages)[at] == messages[at]@,
{
}

/// Optional values and results are shown with what they hold.
pub proof fn law_outcomes_are_shown<T: View>(
    value: T,
    model: T::V,
    error: DecodeError,
    reason: DecodeErrorView,
    status: AgentStatus,
    other: AgentStatus,
)
    ensures
        same_option(Some(value), Some(model)) <==> value@ == model,
        !same_option(Some(value), None::<T::V>),
        !same_option(None::<T>, Some(model)),
        same_option(None::<T>, None::<T::V>),
        same_result(Ok::<T, DecodeError>(value), Ok(model)) <==> value@ == model,
        same_result(Err::<T, DecodeError>(error), Err(reason)) <==> error@ == reason,
        !same_result(Ok::<T, DecodeError>(value), Err(reason)),
        !same_result(Err::<T, DecodeError>(error), Ok(model)),
        same_status(Ok(status), Ok(other)) <==> status == other,
        same_status(Err(error), Err(reason)) <==> error@ == reason,
        !same_status(Ok(status), Err(reason)),
        !same_status(Err(error), Ok(status)),
{
}

/// The records of Herdr's messages are shown with their fields.
pub proof fn law_records_are_shown(
    pane: PaneState,
    report: AgentStatusChanged,
    event: SubscriptionEvent,
    snapshot: SessionSnapshot,
    result: SnapshotResponseResult,
    lifecycle: HerdrEvent,
)
    ensures
        pane@.pane_id == pane.pane_id@,
        pane@.agent_status == pane.agent_status,
        report@.pane_id == report.pane_id@,
        report@.agent_status == report.agent_status,
        event@ == event.data@,
        snapshot@ == pane_views(snapshot.panes@),
        result@ == result.snapshot@,
        lifecycle@ == lifecycle.data@,
{
}

/// Events and messages are shown as what they are.
pub proof fn law_messages_are_shown(data: HerdrEventData, message: HerdrMessage)
    ensures
        match data {
            HerdrEventData::PaneCreated { pane } => data@ == EventView::PaneCreated(pane@),
            HerdrEventData::PaneClosed { pane_id } => data@ == EventView::PaneClosed(pane_id@),
            HerdrEventData::Other => data@ == EventView::Other,
        },
        match message {
            HerdrMessage::Lifecycle(json) => message@ == MessageView::Lifecycle(json@),
            HerdrMessage::Status(report) => message@ == MessageView::Status(report@),
            HerdrMessage::SocketClosed { pane_id: Some(pane_id) } => message@
                == MessageView::SocketClosed(Some(pane_id@)),
            HerdrMessage::SocketClosed { pane_id: None } => message@ == MessageView::SocketClosed(
                None,
            ),
        },
        optional_message(Some(message)) == Some(message@),
        optional_message(None) is None,
        read_view(Ok(Some(message))) == Ok::<_, MessageErrorView>(Some(message@)),
        read_view(Ok(None)) == Ok::<_, MessageErrorView>(None::<MessageView>),
{
}

/// Errors are shown with their kind and what they tell.
pub proof fn law_errors_are_shown(error: DecodeError, failure: MessageError)
    ensures
        match error {
            DecodeError::InvalidType { found, expected } => error@ == (
            DecodeErrorView::InvalidType { found: found@, expected: expected@ }),
            DecodeError::InvalidLength { length, expected } => error@ == (
            DecodeErrorView::InvalidLength { length: length as int, expected: expected@ }),
            DecodeError::NotOneKey => error@ == DecodeErrorView::NotOneKey,
            DecodeError::MissingField { field } => error@ == (
            DecodeErrorView::MissingField { field: field@ }),
            DecodeError::UnknownStatus { name } => error@ == (
            DecodeErrorView::UnknownStatus { name: name@ }),
        },
        match failure {
            MessageError::MalformedLifecycle(reason) => failure@
                == MessageErrorView::MalformedLifecycle(reason@),
            MessageError::MalformedStatus(reason) => failure@ == MessageErrorView::MalformedStatus(
                reason@,
            ),
            MessageError::Undecodable(error) => failure@ == MessageErrorView::Undecodable(error@),
        },
        read_view(Err(failure)) == Err::<Option<MessageView>, _>(failure@),
{
}

/// What a reader sees and does is shown as it is.
pub proof fn law_reader_is_shown(event: ReaderEvent, step: ReaderStep, response: Response)
    ensures
        match event {
            ReaderEvent::Line(line) => event@ == ReaderEventView::Line(line@),
            ReaderEvent::Closed => event@ == ReaderEventView::Closed,
            ReaderEvent::Failed => event@ == ReaderEventView::Failed,
        },
        match step {
            ReaderStep::Forward(message) => step@ == ReaderStepView::Forward(message@),
            ReaderStep::Response(response) => step@ == ReaderStepView::Response(response@),
            ReaderStep::Skip => step@ == ReaderStepView::Skip,
            ReaderStep::Report(error) => step@ == ReaderStepView::Report(error@),
            ReaderStep::Finish(message) => step@ == ReaderStepView::Finish(message@),
        },
        response@.id == response.id@,
        response@.result_type == response.result_type@,
{
}

/// What a reply means, and where a subscription stands, is shown as it is.
pub proof fn law_replies_are_shown(
    reply: Reply,
    step: Result<HandshakeStep, HandshakeError>,
    outcome: Result<Option<SessionSnapshot>, SnapshotError>,
    line: String,
)
    ensures
        match reply {
            Reply::Refused(reason) => reply@ == ReplyView::Refused(reason@),
            Reply::Acknowledged => reply@ == ReplyView::Acknowledged,
            Reply::Unrelated => reply@ == ReplyView::Unrelated,
        },
        match step {
            Ok(HandshakeStep::Waiting(handshake)) => handshake_view(step)
                == HandshakeView::Waiting(text_views(handshake.buffered@)),
            Ok(HandshakeStep::Acknowledged(buffered)) => handshake_view(step)
                == HandshakeView::Acknowledged(text_views(buffered@)),
            Err(HandshakeError::Closed) => handshake_view(step) == HandshakeView::Closed,
            Err(HandshakeError::Malformed(reason)) => handshake_view(step)
                == HandshakeView::Malformed(reason@),
            Err(HandshakeError::Refused(reason)) => handshake_view(step) == HandshakeView::Refused(
                reason@,
            ),
        },
        match outcome {
            Ok(None) => snapshot_view(outcome) == SnapshotView::Unrelated,
            Ok(Some(snapshot)) => snapshot_view(outcome) == SnapshotView::Snapshot(snapshot@),
            Err(SnapshotError::Closed) => snapshot_view(outcome) == SnapshotView::Closed,
            Err(SnapshotError::Malformed(reason)) => snapshot_view(outcome)
                == SnapshotView::Malformed(reason@),
            Err(SnapshotError::Refused(reason)) => snapshot_view(outcome) == SnapshotView::Refused(
                reason@,
            ),
            Err(SnapshotError::NoResult) => snapshot_view(outcome) == SnapshotView::NoResult,
            Err(SnapshotError::Undecodable(error)) => snapshot_view(outcome)
                == SnapshotView::Undecodable(error@),
        },
        line_view(Some(line)) == Some(line@),
        line_view(None) is None,
{
}

/// How far the start has come is shown as it is.
pub proof fn law_startup_is_shown(startup: Startup, step: Result<StartupStep, StartupError>)
    ensures
        match startup {
            Startup::Subscribing(handshake) => startup@ == (StartupView::Subscribing {
                request_id: handshake.request_id@,
                buffered: text_views(handshake.buffered@),
            }),
            Startup::Requesting(buffered) => startup@ == (StartupView::Requesting {
                buffered: text_views(buffered@),
            }),
        },
        match step {
            Ok(StartupStep::ReadLifecycle(next)) => startup_view(step)
                == StartupStepView::ReadLifecycle(next@),
            Ok(StartupStep::RequestSnapshot { line, next }) => startup_view(step)
                == StartupStepView::RequestSnapshot(next@),
            Ok(StartupStep::ReadSnapshot(next)) => startup_view(step)
                == StartupStepView::ReadSnapshot(next@),
            Ok(StartupStep::Run { driver, task, buffered }) => startup_view(step) == (
            StartupStepView::Run { driver: driver@, buffered: text_views(buffered@) }),
            Err(StartupError::Subscription(error)) => startup_view(step)
                == StartupStepView::SubscriptionFailed(handshake_view(Err(error))),
            Err(StartupError::Snapshot(error)) => startup_view(step)
                == StartupStepView::SnapshotFailed(snapshot_view(Err(error))),
        },
{
}

/// Reactions, tasks and the steps of the launch are shown as what they are, with their panes.
pub proof fn law_steps_are_shown(reaction: Reaction, task: Task, step: LaunchStep)
    ensures
        match reaction {
            Reaction::PaneCreated { pane_id, agent_status, subscribe } => reaction@ matches
                ReactionView::PaneCreated { pane, subscribe: asked } && pane.pane_id == pane_id@
                && pane.agent_status == agent_status && asked == subscribe,
            Reaction::PaneClosed { pane_id, unsubscribe } => reaction@ == (
            ReactionView::PaneClosed { pane_id: pane_id@, unsubscribe }),
            Reaction::OtherEvent => reaction@ == ReactionView::OtherEvent,
            Reaction::StatusReported { pane_id, agent_status } => reaction@ matches
                ReactionView::StatusReported { pane } && pane.pane_id == pane_id@
                && pane.agent_status == agent_status,
            Reaction::StatusSocketClosed { pane_id, release } => reaction@ == (
            ReactionView::StatusSocketClosed { pane_id: pane_id@, release }),
            Reaction::LifecycleSocketClosed => reaction@ == ReactionView::LifecycleSocketClosed,
        },
        match task {
            Task::Wait => task@ == TaskView::Wait,
            Task::Subscribe { pane_id } => task@ == TaskView::Subscribe(pane_id@),
            Task::Unsubscribe { pane_id } => task@ == TaskView::Unsubscribe(pane_id@),
            Task::Release { pane_id } => task@ == TaskView::Release(pane_id@),
            Task::Poll => task@ == TaskView::Poll,
            Task::Start => task@ == TaskView::Start,
            Task::Stop => task@ == TaskView::Stop,
        },
        match step {
            LaunchStep::Perform { task, next } => step@ == (
            LaunchStepView::Perform { task: task@, next: next@ }),
            LaunchStep::Handled { reaction, task, next } => step@ == (
            LaunchStepView::Handled { reaction: reaction@, task: task@, next: next@ }),
            LaunchStep::Ignored { error, next } => step@ == (
            LaunchStepView::Ignored { error: error@, next: next@ }),
            LaunchStep::Failed(error) => step@ == LaunchStepView::Failed(error@),
            LaunchStep::Live(driver) => step@ == LaunchStepView::Live(driver@),
        },
{
}

} // verus!
