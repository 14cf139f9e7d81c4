//! What is sent, and what a received line means, field by field.
use crate::codec::{json_text, parsed_json};
use crate::decode::{decoded_snapshot_result, decoded_status_event, DecodeErrorView};
use crate::json::JsonView;
use crate::laws::messages_in;
use crate::messages::{
    buffered_events, buffered_statuses, lifecycle_line, lifecycle_message_of, lifecycle_step,
    names_lifecycle_event, readable, response_line, response_of, status_line, status_message_of,
    status_step, MessageErrorView, ReaderEventView, ReaderStepView,
};
use crate::model::MessageView;
use crate::replies::{
    acknowledges, handshake_next, refuses, reply_of, snapshot_next, snapshot_reply, HandshakeView,
    ReplyView, SnapshotView,
};
use crate::requests::{
    global_request_id, global_subscription_view, line_of, sends, snapshot_request_id,
    snapshot_request_view, status_request_id, status_subscription_view,
};
use crate::settings::{default_socket_path, joined, state_dir_below_home};
use crate::startup::{StartupStepView, StartupView};
use vstd::prelude::*;
use vstd::utf8::encode_utf8;

verus! {

/// The keys and string constants that are used here differ from each other.
proof fn lemma_keys_differ()
    ensures
        "id"@ != "method"@,
        "id"@ != "params"@,
        "method"@ != "params"@,
        "type"@ != "pane_id"@,
{
    reveal_strlit("id");
    reveal_strlit("method");
    reveal_strlit("params");
    reveal_strlit("type");
    reveal_strlit("pane_id");
    assert("method"@[0] == 'm');
    assert("params"@[0] == 'p');
    assert("type"@[0] == 't');
    assert("pane_id"@[0] == 'p');
}

/// `json` is an object with exactly the fields `id`, `method` and `params`, of these values.
pub open spec fn is_request(
    json: JsonView,
    id: Seq<char>,
    method: Seq<char>,
    params: JsonView,
) -> bool {
    json matches JsonView::Object(fields) && {
        &&& forall|key: Seq<char>| #[trigger]
            fields.contains_key(key) <==> (key == "id"@ || key == "method"@ || key == "params"@)
        &&& fields["id"@] == JsonView::Text(id)
        &&& fields["method"@] == JsonView::Text(method)
        &&& fields["params"@] == params
    }
}

/// `json` is an object with exactly one field, `key`, of this value.
pub open spec fn has_only(json: JsonView, key: Seq<char>, value: JsonView) -> bool {
    json matches JsonView::Object(fields) && {
        &&& forall|other: Seq<char>| #[trigger] fields.contains_key(other) <==> other == key
        &&& fields[key] == value
    }
}

/// `json` subscribes to the status changes of `pane_id`, and to nothing else.
pub open spec fn subscribes_to_status(json: JsonView, pane_id: Seq<char>) -> bool {
    json matches JsonView::Object(fields) && {
        &&& forall|key: Seq<char>| #[trigger]
            fields.contains_key(key) <==> (key == "type"@ || key == "pane_id"@)
        &&& fields["type"@] == JsonView::Text("pane.agent_status_changed"@)
        &&& fields["pane_id"@] == JsonView::Text(pane_id)
    }
}

/// The ids of the requests are these.
pub proof fn law_request_ids(pane_id: Seq<char>)
    ensures
        global_request_id() == "global-subscription"@,
        status_request_id(pane_id) == "status-subscription-"@ + pane_id,
        snapshot_request_id() == "session-snapshot"@,
{
}

/// A request is sent as one line: it ends with its only line break, and what precedes that is read
/// as the request.
pub proof fn law_request_is_one_line(line: Seq<char>, request: JsonView)
    requires
        sends(line, request),
    ensures
        line.len() > 0,
        line.last() == '\n',
        !line.drop_last().contains('\n'),
        parsed_json(line.drop_last()) == Ok::<_, Seq<char>>(request),
        line.drop_last() == json_text(request),
{
    assert(line_of(request).drop_last() =~= json_text(request));
}

/// The line that subscribes to lifecycle events reads as a request for `pane.created` and
/// `pane.closed`, and for nothing else.
pub proof fn law_global_subscription_line(line: Seq<char>)
    requires
        sends(line, global_subscription_view()),
    ensures
        parsed_json(line.drop_last()) matches Ok(read) && read matches JsonView::Object(fields) && {
            let params = fields["params"@];
            &&& is_request(read, "global-subscription"@, "events.subscribe"@, params)
            &&& params matches JsonView::Object(inner)
            &&& has_only(params, "subscriptions"@, inner["subscriptions"@])
            &&& inner["subscriptions"@] matches JsonView::Array(items)
            &&& items.len() == 2
            &&& has_only(items[0], "type"@, JsonView::Text("pane.created"@))
            &&& has_only(items[1], "type"@, JsonView::Text("pane.closed"@))
        },
{
    law_request_is_one_line(line, global_subscription_view());
    lemma_keys_differ();
}

/// The line that subscribes to the status changes of a pane reads as a request whose only
/// subscription names that pane and `pane.agent_status_changed`, for every pane.
pub proof fn law_status_subscription_line(line: Seq<char>, pane_id: Seq<char>)
    requires
        sends(line, status_subscription_view(pane_id)),
    ensures
        parsed_json(line.drop_last()) matches Ok(read) && read matches JsonView::Object(fields) && {
            let params = fields["params"@];
            &&& is_request(
                read,
                "status-subscription-"@ + pane_id,
                "events.subscribe"@,
                params,
            )
            &&& params matches JsonView::Object(inner)
            &&& has_only(params, "subscriptions"@, inner["subscriptions"@])
            &&& inner["subscriptions"@] matches JsonView::Array(items)
            &&& items.len() == 1
            &&& subscribes_to_status(items[0], pane_id)
        },
{
    law_request_is_one_line(line, status_subscription_view(pane_id));
    lemma_keys_differ();
}

/// The subscriptions to different panes are sent as different lines, of requests that name
/// different panes.
pub proof fn law_status_subscriptions_differ(
    one: Seq<char>,
    other: Seq<char>,
    first: Seq<char>,
    second: Seq<char>,
)
    requires
        one != other,
        sends(first, status_subscription_view(one)),
        sends(second, status_subscription_view(other)),
    ensures
        first != second,
        status_subscription_view(one) != status_subscription_view(other),
{
    law_status_subscription_line(first, one);
    law_status_subscription_line(second, other);
    law_request_is_one_line(first, status_subscription_view(one));
    law_request_is_one_line(second, status_subscription_view(other));
}

/// The line that asks for the snapshot reads as a request without parameters.
pub proof fn law_snapshot_request_line(line: Seq<char>)
    requires
        sends(line, snapshot_request_view()),
    ensures
        parsed_json(line.drop_last()) matches Ok(read) && read matches JsonView::Object(fields) && {
            let params = fields["params"@];
            &&& is_request(read, "session-snapshot"@, "session.snapshot"@, params)
            &&& params matches JsonView::Object(inner) && forall|key: Seq<char>|
                !#[trigger] inner.contains_key(key)
        },
{
    law_request_is_one_line(line, snapshot_request_view());
    lemma_keys_differ();
}

/// What a value holds under a key: an object's entry, and nothing for any other value.
pub proof fn law_lookup(json: JsonView, key: Seq<char>)
    ensures
        forall|value: JsonView| #[trigger]
            holds_under(json, key, value) <==> json.get(key) == Some(value),
        json.get(key) is None <==> !(json matches JsonView::Object(fields) && fields.contains_key(
            key,
        )),
        forall|text: Seq<char>|
            json.text_at(key) == Some(text) <==> #[trigger] holds_under(
                json,
                key,
                JsonView::Text(text),
            ),
        json matches JsonView::Text(text) ==> json.as_str() == Some(text),
        !(json is Text) ==> json.as_str() is None,
{
}

/// `json` is an object that has `value` under `key`.
pub open spec fn holds_under(json: JsonView, key: Seq<char>, value: JsonView) -> bool {
    json matches JsonView::Object(fields) && fields.contains_key(key) && fields[key] == value
}

/// `json` is an object that has something under `key`.
pub open spec fn has_key(json: JsonView, key: Seq<char>) -> bool {
    json matches JsonView::Object(fields) && fields.contains_key(key)
}

/// `message` bears the id of the request `request_id`.
pub open spec fn answers(message: JsonView, request_id: Seq<char>) -> bool {
    holds_under(message, "id"@, JsonView::Text(request_id))
}

/// `message` has a result of the type `subscription_started`.
pub open spec fn tells_started(message: JsonView) -> bool {
    message matches JsonView::Object(fields) && fields.contains_key("result"@) && holds_under(
        fields["result"@],
        "type"@,
        JsonView::Text("subscription_started"@),
    )
}

/// A message acknowledges a request exactly if it bears its id and tells that the subscription
/// started; it refuses the request exactly if it bears its id and has an error. Refusing counts
/// first.
pub proof fn law_replies_are_told_apart(message: JsonView, request_id: Seq<char>)
    ensures
        acknowledges(message, request_id) <==> answers(message, request_id) && tells_started(
            message,
        ),
        refuses(message, request_id) <==> answers(message, request_id) && has_key(
            message,
            "error"@,
        ),
        reply_of(message, request_id) is Acknowledged <==> answers(message, request_id)
            && tells_started(message) && !has_key(message, "error"@),
        reply_of(message, request_id) is Refused <==> answers(message, request_id) && has_key(
            message,
            "error"@,
        ),
        reply_of(message, request_id) matches ReplyView::Refused(reason) ==> holds_under(
            message,
            "error"@,
            reason,
        ),
        reply_of(message, request_id) is Unrelated <==> !answers(message, request_id) || (!has_key(
            message,
            "error"@,
        ) && !tells_started(message)),
{
}

/// What a line does to a subscription that waits: a malformed line and a refusal end it with their
/// reason, an acknowledgement ends it with the lines kept so far, and any other line is kept after
/// those. The end of the socket ends it too.
pub proof fn law_handshake_line(
    request_id: Seq<char>,
    buffered: Seq<Seq<char>>,
    line: Seq<char>,
)
    ensures
        handshake_next(request_id, buffered, None) == HandshakeView::Closed,
        match parsed_json(line) {
            Err(reason) => handshake_next(request_id, buffered, Some(line))
                == HandshakeView::Malformed(reason),
            Ok(message) => if answers(message, request_id) && has_key(message, "error"@) {
                handshake_next(request_id, buffered, Some(line)) matches HandshakeView::Refused(
                    reason,
                ) && holds_under(message, "error"@, reason)
            } else if answers(message, request_id) && tells_started(message) {
                handshake_next(request_id, buffered, Some(line)) == HandshakeView::Acknowledged(
                    buffered,
                )
            } else {
                handshake_next(request_id, buffered, Some(line)) matches HandshakeView::Waiting(
                    kept,
                ) && kept.len() == buffered.len() + 1 && kept.last() == line && kept.drop_last()
                    == buffered
            },
        },
{
    assert(buffered.push(line).drop_last() =~= buffered);
}

/// What a line means to the request for the snapshot: a malformed line fails it, a message without
/// its id is passed over, an error refuses it, and otherwise the result decides.
pub proof fn law_snapshot_line(line: Seq<char>)
    ensures
        snapshot_next(None) == SnapshotView::Closed,
        match parsed_json(line) {
            Err(reason) => snapshot_next(Some(line)) == SnapshotView::Malformed(reason),
            Ok(message) => {
                &&& snapshot_next(Some(line)) == snapshot_reply(message)
                &&& snapshot_reply(message) is Unrelated <==> !answers(
                    message,
                    "session-snapshot"@,
                )
                &&& answers(message, "session-snapshot"@) && has_key(message, "error"@) ==> (
                snapshot_reply(message) matches SnapshotView::Refused(reason) && holds_under(
                    message,
                    "error"@,
                    reason,
                ))
                &&& answers(message, "session-snapshot"@) && !has_key(message, "error"@)
                    && !has_key(message, "result"@) ==> snapshot_reply(message) is NoResult
                &&& forall|result: JsonView|
                    answers(message, "session-snapshot"@) && !has_key(message, "error"@)
                        && #[trigger] holds_under(message, "result"@, result) ==> match decoded_snapshot_result(
                        result,
                    ) {
                        Ok(panes) => snapshot_reply(message) == SnapshotView::Snapshot(panes),
                        Err(error) => snapshot_reply(message) == SnapshotView::Undecodable(error),
                    }
            },
        },
{
}

/// What a line does to the start: while it subscribes, the line is one of the handshake, and an
/// acknowledgement leads to the request for the snapshot; while it waits for the snapshot, the line
/// is one of the snapshot socket, and a snapshot leads to the main loop.
pub proof fn law_startup_line(
    request_id: Seq<char>,
    buffered: Seq<Seq<char>>,
    line: Option<Seq<char>>,
)
    ensures
        ({
            let step = (StartupView::Subscribing { request_id, buffered }).next(line);
            match handshake_next(request_id, buffered, line) {
                HandshakeView::Waiting(kept) => step == StartupStepView::ReadLifecycle(
                    StartupView::Subscribing { request_id, buffered: kept },
                ),
                HandshakeView::Acknowledged(kept) => step == StartupStepView::RequestSnapshot(
                    StartupView::Requesting { buffered: kept },
                ),
                HandshakeView::Closed => step == StartupStepView::SubscriptionFailed(
                    HandshakeView::Closed,
                ),
                HandshakeView::Malformed(reason) => step == StartupStepView::SubscriptionFailed(
                    HandshakeView::Malformed(reason),
                ),
                HandshakeView::Refused(reason) => step == StartupStepView::SubscriptionFailed(
                    HandshakeView::Refused(reason),
                ),
            }
        }),
        ({
            let step = (StartupView::Requesting { buffered }).next(line);
            match snapshot_next(line) {
                SnapshotView::Unrelated => step == StartupStepView::ReadSnapshot(
                    StartupView::Requesting { buffered },
                ),
                SnapshotView::Snapshot(panes) => step matches StartupStepView::Run {
                    driver,
                    buffered: kept,
                } && kept == buffered && driver == crate::driver::driver_of(panes),
                SnapshotView::Closed => step == StartupStepView::SnapshotFailed(
                    SnapshotView::Closed,
                ),
                SnapshotView::Malformed(reason) => step == StartupStepView::SnapshotFailed(
                    SnapshotView::Malformed(reason),
                ),
                SnapshotView::Refused(reason) => step == StartupStepView::SnapshotFailed(
                    SnapshotView::Refused(reason),
                ),
                SnapshotView::NoResult => step == StartupStepView::SnapshotFailed(
                    SnapshotView::NoResult,
                ),
                SnapshotView::Undecodable(error) => step == StartupStepView::SnapshotFailed(
                    SnapshotView::Undecodable(error),
                ),
            }
        }),
{
}

/// `message` is an event of this name.
pub open spec fn is_event(message: JsonView, name: Seq<char>) -> bool {
    !has_key(message, "id"@) && holds_under(message, "event"@, JsonView::Text(name))
}

/// A value of the lifecycle socket is handed on, as it is, exactly if it has no id and its event is
/// `pane_created` or `pane_closed`.
pub proof fn law_lifecycle_value(message: JsonView)
    ensures
        is_event(message, "pane_created"@) || is_event(message, "pane_closed"@)
            ==> lifecycle_message_of(message) == Some(MessageView::Lifecycle(message)),
        !is_event(message, "pane_created"@) && !is_event(message, "pane_closed"@)
            ==> lifecycle_message_of(message) is None,
        forall|name: Seq<char>| #[trigger]
            names_lifecycle_event(name) <==> name == "pane_created"@ || name == "pane_closed"@,
{
}

/// A value of a status socket is a report exactly if it has no id and its event is
/// `pane.agent_status_changed`; the report is what it decodes to.
pub proof fn law_status_value(message: JsonView)
    ensures
        is_event(message, "pane.agent_status_changed"@) ==> match decoded_status_event(message) {
            Ok(report) => status_message_of(message) == Ok::<_, DecodeErrorView>(
                Some(MessageView::Status(report)),
            ),
            Err(error) => status_message_of(message) == Err::<Option<MessageView>, _>(error),
        },
        !is_event(message, "pane.agent_status_changed"@) ==> status_message_of(message) == Ok::<
            _,
            DecodeErrorView,
        >(None::<MessageView>),
{
}

/// A line is what the value in it is; one that is not JSON is refused with the reader's reason.
pub proof fn law_lines_are_read(line: Seq<char>)
    ensures
        match parsed_json(line) {
            Err(reason) => {
                &&& lifecycle_line(line) == Err::<Option<MessageView>, _>(
                    MessageErrorView::MalformedLifecycle(reason),
                )
                &&& status_line(line) == Err::<Option<MessageView>, _>(
                    MessageErrorView::MalformedStatus(reason),
                )
                &&& response_line(line) is None
            },
            Ok(message) => {
                &&& lifecycle_line(line) == Ok::<_, MessageErrorView>(lifecycle_message_of(message))
                &&& match status_message_of(message) {
                    Ok(found) => status_line(line) == Ok::<_, MessageErrorView>(found),
                    Err(error) => status_line(line) == Err::<Option<MessageView>, _>(
                        MessageErrorView::Undecodable(error),
                    ),
                }
                &&& response_line(line) == response_of(message)
            },
        },
{
}

/// A message is a response exactly if it has an id; what is told of it is that id and the type of
/// its result, or `unknown` where it names none.
pub proof fn law_response_tells_its_request(message: JsonView)
    ensures
        response_of(message) is Some <==> has_key(message, "id"@),
        response_of(message) matches Some(response) ==> {
            &&& holds_under(message, "id"@, response.id)
            &&& forall|result: JsonView, named: Seq<char>|
                #![trigger holds_under(result, "type"@, JsonView::Text(named))]
                holds_under(message, "result"@, result) && holds_under(
                    result,
                    "type"@,
                    JsonView::Text(named),
                ) ==> response.result_type == named
            &&& (forall|result: JsonView, named: Seq<char>|
                #![trigger holds_under(result, "type"@, JsonView::Text(named))]
                !(holds_under(message, "result"@, result) && holds_under(
                    result,
                    "type"@,
                    JsonView::Text(named),
                ))) ==> response.result_type == "unknown"@
        },
{
    if has_key(message, "result"@) {
        let result = message->Object_0["result"@];
        if let JsonView::Object(fields) = result {
            if fields.contains_key("type"@) {
                if let JsonView::Text(named) = fields["type"@] {
                    assert(holds_under(result, "type"@, JsonView::Text(named)));
                }
            }
        }
    }
}

/// What the readers do with an event: they hand on the message of a line, tell of a response, read
/// on after any other line, and report a line that cannot be read; when the socket ends they hand
/// on that it closed, and stop.
pub proof fn law_reader_steps(pane_id: Seq<char>, line: Seq<char>)
    ensures
        lifecycle_step(ReaderEventView::Closed) == ReaderStepView::Finish(
            MessageView::SocketClosed(None),
        ),
        lifecycle_step(ReaderEventView::Failed) == ReaderStepView::Finish(
            MessageView::SocketClosed(None),
        ),
        status_step(pane_id, ReaderEventView::Closed) == ReaderStepView::Finish(
            MessageView::SocketClosed(Some(pane_id)),
        ),
        status_step(pane_id, ReaderEventView::Failed) == ReaderStepView::Finish(
            MessageView::SocketClosed(Some(pane_id)),
        ),
        match parsed_json(line) {
            Err(reason) => {
                &&& lifecycle_step(ReaderEventView::Line(line)) == ReaderStepView::Report(
                    MessageErrorView::MalformedLifecycle(reason),
                )
                &&& status_step(pane_id, ReaderEventView::Line(line)) == ReaderStepView::Report(
                    MessageErrorView::MalformedStatus(reason),
                )
            },
            Ok(message) => {
                &&& lifecycle_step(ReaderEventView::Line(line)) is Response <==> has_key(
                    message,
                    "id"@,
                )
                &&& status_step(pane_id, ReaderEventView::Line(line)) is Response <==> has_key(
                    message,
                    "id"@,
                )
                &&& is_event(message, "pane_created"@) || is_event(message, "pane_closed"@)
                    ==> lifecycle_step(ReaderEventView::Line(line)) == ReaderStepView::Forward(
                    MessageView::Lifecycle(message),
                )
                &&& !has_key(message, "id"@) && !is_event(message, "pane_created"@) && !is_event(
                    message,
                    "pane_closed"@,
                ) ==> lifecycle_step(ReaderEventView::Line(line)) is Skip
                &&& is_event(message, "pane.agent_status_changed"@) ==> match decoded_status_event(
                    message,
                ) {
                    Ok(report) => status_step(pane_id, ReaderEventView::Line(line))
                        == ReaderStepView::Forward(MessageView::Status(report)),
                    Err(error) => status_step(pane_id, ReaderEventView::Line(line))
                        == ReaderStepView::Report(MessageErrorView::Undecodable(error)),
                }
                &&& !has_key(message, "id"@) && !is_event(message, "pane.agent_status_changed"@)
                    ==> status_step(pane_id, ReaderEventView::Line(line)) is Skip
            },
        },
{
}

/// The first of several reads comes before the others.
proof fn lemma_first_read(reads: Seq<Result<Option<MessageView>, MessageErrorView>>)
    requires
        reads.len() > 0,
    ensures
        match reads.first() {
            Err(error) => readable(reads) == (Seq::<MessageView>::empty(), Some(error)),
            Ok(None) => readable(reads) == readable(reads.drop_first()),
            Ok(Some(message)) => readable(reads) == (
                seq![message] + readable(reads.drop_first()).0,
                readable(reads.drop_first()).1,
            ),
        },
    decreases reads.len(),
{
    reveal_with_fuel(readable, 2);
    if reads.len() > 1 {
        let front = reads.drop_last();
        lemma_first_read(front);
        assert(front.first() == reads.first());
        assert(reads.drop_first().drop_last() =~= front.drop_first());
        assert(reads.drop_first().last() == reads.last());
        if let Ok(Some(message)) = reads.first() {
            if let Ok(Some(last)) = reads.last() {
                let inner = readable(front.drop_first()).0;
                assert((seq![message] + inner).push(last) =~= seq![message] + inner.push(last));
            }
        }
    } else {
        assert(reads.drop_last() =~= Seq::empty());
        assert(reads.drop_first() =~= Seq::empty());
        if let Ok(Some(message)) = reads.first() {
            assert(Seq::<MessageView>::empty().push(message) =~= seq![message] + Seq::empty());
        }
    }
}

/// The lines before the first that cannot be read give exactly the messages that they hold, in
/// order, and that one gives the reason; where every line can be read there is none.
pub proof fn law_lines_are_read_up_to_the_first_failure(
    reads: Seq<Result<Option<MessageView>, MessageErrorView>>,
    first: int,
)
    requires
        0 <= first <= reads.len(),
        forall|i: int| 0 <= i < first ==> (#[trigger] reads[i]) is Ok,
        first < reads.len() ==> reads[first] is Err,
    ensures
        readable(reads).0 == messages_in(reads.take(first)),
        first == reads.len() ==> readable(reads).1 is None,
        first < reads.len() ==> readable(reads).1 == Some(reads[first]->Err_0),
    decreases reads.len(),
{
    if reads.len() > 0 {
        lemma_first_read(reads);
        if first > 0 {
            let later = reads.drop_first();
            assert(reads[0] is Ok);
            assert forall|i: int| 0 <= i < first - 1 implies (#[trigger] later[i]) is Ok by {
                assert(later[i] == reads[i + 1]);
            }
            if first < reads.len() {
                assert(later[first - 1] == reads[first]);
            }
            law_lines_are_read_up_to_the_first_failure(later, first - 1);
            assert(reads.take(first).drop_first() =~= later.take(first - 1));
            assert(reads.take(first).first() == reads.first());
        } else {
            assert(reads.take(0) =~= Seq::empty());
        }
    } else {
        assert(reads.take(0) =~= Seq::empty());
    }
}

/// The lines kept on a socket are read one by one, as that socket's lines are.
pub proof fn law_kept_lines_are_read_one_by_one(lines: Seq<Seq<char>>)
    ensures
        exists|reads: Seq<Result<Option<MessageView>, MessageErrorView>>|
            reads.len() == lines.len() && (forall|i: int|
                0 <= i < lines.len() ==> #[trigger] reads[i] == lifecycle_line(lines[i]))
                && buffered_events(lines) == #[trigger] readable(reads),
        exists|reads: Seq<Result<Option<MessageView>, MessageErrorView>>|
            reads.len() == lines.len() && (forall|i: int|
                0 <= i < lines.len() ==> #[trigger] reads[i] == status_line(lines[i]))
                && buffered_statuses(lines) == #[trigger] readable(reads),
{
    let events = lines.map_values(|line: Seq<char>| lifecycle_line(line));
    assert(buffered_events(lines) == readable(events));
    let statuses = lines.map_values(|line: Seq<char>| status_line(line));
    assert(buffered_statuses(lines) == readable(statuses));
}

/// The plugin's paths are these: a directory and what is below it are separated by one `/`.
pub proof fn law_paths(dir: Seq<u8>, below: Seq<u8>)
    ensures
        default_socket_path() == "/tmp/herdr.sock"@,
        state_dir_below_home() == encode_utf8(".local/state/herdr-caffeinate"@),
        joined(Seq::empty(), below) == below,
        joined(dir.push(47), below) == dir.push(47) + below,
        dir.len() > 0 && dir.last() != 47 ==> joined(dir, below) == dir + seq![47u8] + below,
{
    assert(Seq::<u8>::empty() + below =~= below);
    assert(dir.push(47) + below =~= dir + seq![47u8] + below);
}

} // verus!
