//! Herdr's replies: acknowledged subscriptions and the session's snapshot.
use crate::codec::{json_text, parse_json, parsed_json, write_json};
use crate::decode::{
    decode_error_message, decoded_snapshot_result, snapshot_from_result, DecodeError,
    DecodeErrorView,
};
use crate::json::{Json, JsonView};
use crate::model::{PaneView, SessionSnapshot};
use crate::requests::{snapshot_id, snapshot_request_id};
use crate::text::text_views;
use vstd::prelude::*;
use vstd::string::StringExecFns;

verus! {

/// `message` acknowledges the subscription request `request_id`.
pub open spec fn acknowledges(message: JsonView, request_id: Seq<char>) -> bool {
    &&& message.text_at("id"@) == Some(request_id)
    &&& message.get("result"@) matches Some(result) && result.text_at("type"@) == Some(
        "subscription_started"@,
    )
}

/// `message` says that the request `request_id` failed.
pub open spec fn refuses(message: JsonView, request_id: Seq<char>) -> bool {
    message.text_at("id"@) == Some(request_id) && message.get("error"@) is Some
}

/// Whether `message` acknowledges the subscription request `request_id`.
pub fn is_subscription_ack(message: &Json, request_id: &str) -> (ack: bool)
    ensures
        ack == acknowledges(message@, request_id@),
{
    if !message.has_text("id", request_id) {
        return false;
    }
    match message.get("result") {
        Some(result) => result.has_text("type", "subscription_started"),
        None => false,
    }
}

/// Whether `message` says that the request `request_id` failed.
pub fn is_subscription_error(message: &Json, request_id: &str) -> (failed: bool)
    ensures
        failed == refuses(message@, request_id@),
{
    message.has_text("id", request_id) && message.get("error").is_some()
}

/// What a message means to a subscription that waits for its acknowledgement.
#[derive(Debug)]
pub enum Reply {
    /// The subscription failed, for the reason given.
    Refused(Json),
    /// The subscription has started.
    Acknowledged,
    /// The message is about something else.
    Unrelated,
}

/// The model of [`Reply`].
pub enum ReplyView {
    Refused(JsonView),
    Acknowledged,
    Unrelated,
}

impl View for Reply {
    type V = ReplyView;

    open spec fn view(&self) -> ReplyView {
        match self {
            Reply::Refused(reason) => ReplyView::Refused(reason@),
            Reply::Acknowledged => ReplyView::Acknowledged,
            Reply::Unrelated => ReplyView::Unrelated,
        }
    }
}

/// What `message` means to the subscription request `request_id`. A failure counts before an
/// acknowledgement.
pub open spec fn reply_of(message: JsonView, request_id: Seq<char>) -> ReplyView {
    if refuses(message, request_id) {
        ReplyView::Refused(message.get("error"@)->0)
    } else if acknowledges(message, request_id) {
        ReplyView::Acknowledged
    } else {
        ReplyView::Unrelated
    }
}

/// Says what `message` means to the subscription request `request_id`.
pub fn classify_reply(message: Json, request_id: &str) -> (reply: Reply)
    ensures
        reply@ == reply_of(message@, request_id@),
{
    if is_subscription_error(&message, request_id) {
        match message.take("error") {
            Some(reason) => Reply::Refused(reason),
            None => Reply::Unrelated,
        }
    } else if is_subscription_ack(&message, request_id) {
        Reply::Acknowledged
    } else {
        Reply::Unrelated
    }
}

/// Why a subscription did not start.
#[derive(Debug)]
pub enum HandshakeError {
    /// The socket closed first.
    Closed,
    /// A line is not JSON, for the reason given.
    Malformed(String),
    /// Herdr refused the subscription, for the reason given.
    Refused(Json),
}

/// The state of a subscription that waits for its acknowledgement, or where it ended.
pub enum HandshakeView {
    /// The lines received so far, none of them about the subscription.
    Waiting(Seq<Seq<char>>),
    /// The subscription has started, after these lines.
    Acknowledged(Seq<Seq<char>>),
    Closed,
    Malformed(Seq<char>),
    Refused(JsonView),
}

/// What follows the state in which `buffered` has been received when `line` comes, or when the
/// socket closes.
pub open spec fn handshake_next(
    request_id: Seq<char>,
    buffered: Seq<Seq<char>>,
    line: Option<Seq<char>>,
) -> HandshakeView {
    match line {
        None => HandshakeView::Closed,
        Some(line) => match parsed_json(line) {
            Err(reason) => HandshakeView::Malformed(reason),
            Ok(message) => match reply_of(message, request_id) {
                ReplyView::Refused(reason) => HandshakeView::Refused(reason),
                ReplyView::Acknowledged => HandshakeView::Acknowledged(buffered),
                ReplyView::Unrelated => HandshakeView::Waiting(buffered.push(line)),
            },
        },
    }
}

/// The characters of a line, if there is one.
pub open spec fn line_view(line: Option<String>) -> Option<Seq<char>> {
    match line {
        Some(line) => Some(line@),
        None => None,
    }
}

/// A subscription that waits for its acknowledgement. It keeps the lines that are about something
/// else, in the order of their arrival.
#[derive(Debug)]
pub struct Handshake {
    pub request_id: String,
    pub buffered: Vec<String>,
}

/// Where a subscription stands after a line.
#[derive(Debug)]
pub enum HandshakeStep {
    /// It still waits.
    Waiting(Handshake),
    /// It has started, after the lines given.
    Acknowledged(Vec<String>),
}

/// The model of what [`Handshake::receive`] returns.
pub open spec fn handshake_view(step: Result<HandshakeStep, HandshakeError>) -> HandshakeView {
    match step {
        Ok(HandshakeStep::Waiting(handshake)) => HandshakeView::Waiting(
            text_views(handshake.buffered@),
        ),
        Ok(HandshakeStep::Acknowledged(buffered)) => HandshakeView::Acknowledged(
            text_views(buffered@),
        ),
        Err(HandshakeError::Closed) => HandshakeView::Closed,
        Err(HandshakeError::Malformed(reason)) => HandshakeView::Malformed(reason@),
        Err(HandshakeError::Refused(reason)) => HandshakeView::Refused(reason@),
    }
}

impl Handshake {
    /// Waits for the acknowledgement of the request `request_id`.
    pub fn new(request_id: String) -> (handshake: Handshake)
        ensures
            handshake.request_id == request_id,
            text_views(handshake.buffered@) == Seq::<Seq<char>>::empty(),
    {
        let buffered: Vec<String> = Vec::new();
        assert(text_views(buffered@) =~= Seq::empty());
        Handshake { request_id, buffered }
    }

    /// Takes the next line, or `None` where the socket closed.
    pub fn receive(self, line: Option<String>) -> (step: Result<HandshakeStep, HandshakeError>)
        ensures
            handshake_view(step) == handshake_next(
                self.request_id@,
                text_views(self.buffered@),
                line_view(line),
            ),
            step matches Ok(HandshakeStep::Waiting(handshake)) ==> handshake.request_id
                == self.request_id,
    {
        let line = match line {
            Some(line) => line,
            None => return Err(HandshakeError::Closed),
        };
        let message = match parse_json(line.as_str()) {
            Ok(message) => message,
            Err(reason) => return Err(HandshakeError::Malformed(reason)),
        };
        match classify_reply(message, self.request_id.as_str()) {
            Reply::Refused(reason) => Err(HandshakeError::Refused(reason)),
            Reply::Acknowledged => Ok(HandshakeStep::Acknowledged(self.buffered)),
            Reply::Unrelated => {
                let mut buffered = self.buffered;
                buffered.push(line);
                assert(text_views(buffered@) =~= text_views(self.buffered@).push(line@));
                Ok(HandshakeStep::Waiting(Handshake { request_id: self.request_id, buffered }))
            },
        }
    }
}

impl HandshakeError {
    /// A sentence for the log, and the reader's own where a line is not JSON.
    pub fn into_report(self) -> (report: (String, Option<String>))
        ensures
            report.0@ == (match self {
                HandshakeError::Closed => "event socket closed before subscription acknowledgement"@,
                HandshakeError::Malformed(_) => "parse subscription response"@,
                HandshakeError::Refused(reason) => "subscription request failed: "@ + json_text(
                    reason@,
                ),
            }),
            report.1 == (match self {
                HandshakeError::Malformed(reason) => Some(reason),
                _ => None,
            }),
    {
        match self {
            HandshakeError::Closed => (
                "event socket closed before subscription acknowledgement".to_owned(),
                None,
            ),
            HandshakeError::Malformed(reason) => (
                "parse subscription response".to_owned(),
                Some(reason),
            ),
            HandshakeError::Refused(reason) => (
                "subscription request failed: ".to_owned().concat(write_json(reason).as_str()),
                None,
            ),
        }
    }
}

/// Why a snapshot could not be had.
#[derive(Debug)]
pub enum SnapshotError {
    /// The socket closed first.
    Closed,
    /// A line is not JSON, for the reason given.
    Malformed(String),
    /// Herdr refused the request, for the reason given.
    Refused(Json),
    /// The response has no result.
    NoResult,
    /// The result is not a snapshot.
    Undecodable(DecodeError),
}

/// What a message, or the end of the socket, means to the request for the snapshot.
pub enum SnapshotView {
    Unrelated,
    Snapshot(Seq<PaneView>),
    Closed,
    Malformed(Seq<char>),
    Refused(JsonView),
    NoResult,
    Undecodable(DecodeErrorView),
}

/// What `message` means to the request for the snapshot.
pub open spec fn snapshot_reply(message: JsonView) -> SnapshotView {
    if message.text_at("id"@) != Some(snapshot_request_id()) {
        SnapshotView::Unrelated
    } else {
        match message.get("error"@) {
            Some(reason) => SnapshotView::Refused(reason),
            None => match message.get("result"@) {
                None => SnapshotView::NoResult,
                Some(result) => match decoded_snapshot_result(result) {
                    Ok(panes) => SnapshotView::Snapshot(panes),
                    Err(error) => SnapshotView::Undecodable(error),
                },
            },
        }
    }
}

/// What `line`, or the end of the socket, means to the request for the snapshot.
pub open spec fn snapshot_next(line: Option<Seq<char>>) -> SnapshotView {
    match line {
        None => SnapshotView::Closed,
        Some(line) => match parsed_json(line) {
            Err(reason) => SnapshotView::Malformed(reason),
            Ok(message) => snapshot_reply(message),
        },
    }
}

/// The model of what [`snapshot_from_response`] and [`read_snapshot`] return.
pub open spec fn snapshot_view(
    outcome: Result<Option<SessionSnapshot>, SnapshotError>,
) -> SnapshotView {
    match outcome {
        Ok(None) => SnapshotView::Unrelated,
        Ok(Some(snapshot)) => SnapshotView::Snapshot(snapshot@),
        Err(SnapshotError::Closed) => SnapshotView::Closed,
        Err(SnapshotError::Malformed(reason)) => SnapshotView::Malformed(reason@),
        Err(SnapshotError::Refused(reason)) => SnapshotView::Refused(reason@),
        Err(SnapshotError::NoResult) => SnapshotView::NoResult,
        Err(SnapshotError::Undecodable(error)) => SnapshotView::Undecodable(error@),
    }
}

/// Takes the snapshot out of the response to the request for it. A message that is not that
/// response is passed over.
pub fn snapshot_from_response(message: Json) -> (outcome: Result<
    Option<SessionSnapshot>,
    SnapshotError,
>)
    ensures
        snapshot_view(outcome) == snapshot_reply(message@),
{
    if !message.has_text("id", snapshot_id()) {
        return Ok(None);
    }
    if message.get("error").is_some() {
        return match message.take("error") {
            Some(reason) => Err(SnapshotError::Refused(reason)),
            None => Ok(None),
        };
    }
    match message.get("result") {
        Some(result) => match snapshot_from_result(result) {
            Ok(decoded) => Ok(Some(decoded.snapshot)),
            Err(error) => Err(SnapshotError::Undecodable(error)),
        },
        None => Err(SnapshotError::NoResult),
    }
}

/// Takes the next line of the snapshot socket, or `None` where it closed. The request is still
/// unanswered where no snapshot is returned.
pub fn read_snapshot(line: Option<String>) -> (outcome: Result<
    Option<SessionSnapshot>,
    SnapshotError,
>)
    ensures
        snapshot_view(outcome) == snapshot_next(line_view(line)),
{
    match line {
        Some(line) => match parse_json(line.as_str()) {
            Ok(message) => snapshot_from_response(message),
            Err(reason) => Err(SnapshotError::Malformed(reason)),
        },
        None => Err(SnapshotError::Closed),
    }
}

impl SnapshotError {
    /// A sentence for the log, and the reader's own where a line is not JSON.
    pub fn into_report(self) -> (report: (String, Option<String>))
        ensures
            report.0@ == (match self {
                SnapshotError::Closed =>
                    "session.snapshot socket closed before returning a response"@,
                SnapshotError::Malformed(_) => "parse session.snapshot response"@,
                SnapshotError::Refused(reason) => "session.snapshot failed: "@ + json_text(
                    reason@,
                ),
                SnapshotError::NoResult => "session.snapshot response has no result"@,
                SnapshotError::Undecodable(error) => decode_error_message(error@),
            }),
            report.1 == (match self {
                SnapshotError::Malformed(reason) => Some(reason),
                _ => None,
            }),
    {
        match self {
            SnapshotError::Closed => (
                "session.snapshot socket closed before returning a response".to_owned(),
                None,
            ),
            SnapshotError::Malformed(reason) => (
                "parse session.snapshot response".to_owned(),
                Some(reason),
            ),
            SnapshotError::Refused(reason) => (
                "session.snapshot failed: ".to_owned().concat(write_json(reason).as_str()),
                None,
            ),
            SnapshotError::NoResult => (
                "session.snapshot response has no result".to_owned(),
                None,
            ),
            SnapshotError::Undecodable(error) => (error.message(), None),
        }
    }
}

} // verus!
