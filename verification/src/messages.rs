//! The events that Herdr pushes, and the readers that turn lines into messages.
use crate::codec::{parse_json, parsed_json};
use crate::decode::{
    decode_error_message, decode_status_event, decoded_status_event, DecodeError, DecodeErrorView,
};
use crate::json::{same_option, Json, JsonView};
use crate::model::{HerdrMessage, MessageView};
use crate::text::{same_text, text_views};
use vstd::prelude::*;

verus! {

/// `event` is the name of a lifecycle event, as Herdr delivers it.
pub open spec fn names_lifecycle_event(event: Seq<char>) -> bool {
    event == "pane_created"@ || event == "pane_closed"@
}

/// Whether `event` is the name of a lifecycle event, as Herdr delivers it.
pub fn is_pane_lifecycle_event(event: &str) -> (is: bool)
    ensures
        is == names_lifecycle_event(event@),
{
    same_text(event, "pane_created") || same_text(event, "pane_closed")
}

/// The message that a lifecycle socket's value holds. A response, which has an id, and an event
/// of another kind hold none.
pub open spec fn lifecycle_message_of(message: JsonView) -> Option<MessageView> {
    if message.get("id"@) is Some {
        None
    } else {
        match message.text_at("event"@) {
            Some(event) => if names_lifecycle_event(event) {
                Some(MessageView::Lifecycle(message))
            } else {
                None
            },
            None => None,
        }
    }
}

/// The model of an optional message.
pub open spec fn optional_message(message: Option<HerdrMessage>) -> Option<MessageView> {
    match message {
        Some(message) => Some(message@),
        None => None,
    }
}

/// Takes the message out of a lifecycle socket's value.
pub fn lifecycle_message(message: Json) -> (found: Option<HerdrMessage>)
    ensures
        optional_message(found) == lifecycle_message_of(message@),
{
    if message.get("id").is_some() {
        return None;
    }
    let lifecycle = match message.text_at("event") {
        Some(event) => is_pane_lifecycle_event(event),
        None => false,
    };
    if lifecycle {
        Some(HerdrMessage::Lifecycle(message))
    } else {
        None
    }
}

/// The message that a status socket's value holds. A response, which has an id, and an event of
/// another kind hold none.
pub open spec fn status_message_of(message: JsonView) -> Result<
    Option<MessageView>,
    DecodeErrorView,
> {
    if message.get("id"@) is Some {
        Ok(None)
    } else if message.text_at("event"@) == Some("pane.agent_status_changed"@) {
        match decoded_status_event(message) {
            Ok(event) => Ok(Some(MessageView::Status(event))),
            Err(error) => Err(error),
        }
    } else {
        Ok(None)
    }
}

/// Takes the message out of a status socket's value.
pub fn status_message(message: Json) -> (found: Result<Option<HerdrMessage>, DecodeError>)
    ensures
        match found {
            Ok(found) => status_message_of(message@) == Ok::<_, DecodeErrorView>(
                optional_message(found),
            ),
            Err(error) => status_message_of(message@) == Err::<Option<MessageView>, _>(error@),
        },
{
    if message.get("id").is_some() {
        return Ok(None);
    }
    if message.has_text("event", "pane.agent_status_changed") {
        match decode_status_event(&message) {
            Ok(event) => Ok(Some(HerdrMessage::Status(event.data))),
            Err(error) => Err(error),
        }
    } else {
        Ok(None)
    }
}

/// Why a line holds no readable message.
#[derive(Debug)]
pub enum MessageError {
    /// A line of the lifecycle socket is not JSON, for the reason given.
    MalformedLifecycle(String),
    /// A line of a status socket is not JSON, for the reason given.
    MalformedStatus(String),
    /// The event is not of the expected form.
    Undecodable(DecodeError),
}

/// The model of [`MessageError`].
pub enum MessageErrorView {
    MalformedLifecycle(Seq<char>),
    MalformedStatus(Seq<char>),
    Undecodable(DecodeErrorView),
}

impl View for MessageError {
    type V = MessageErrorView;

    open spec fn view(&self) -> MessageErrorView {
        match self {
            MessageError::MalformedLifecycle(reason) => MessageErrorView::MalformedLifecycle(
                reason@,
            ),
            MessageError::MalformedStatus(reason) => MessageErrorView::MalformedStatus(reason@),
            MessageError::Undecodable(error) => MessageErrorView::Undecodable(error@),
        }
    }
}

impl MessageError {
    /// A sentence for the log, and the reader's own where the line is not JSON.
    pub fn into_report(self) -> (report: (String, Option<String>))
        ensures
            report.0@ == (match self {
                MessageError::MalformedLifecycle(_) => "parse lifecycle message"@,
                MessageError::MalformedStatus(_) => "parse status message"@,
                MessageError::Undecodable(error) => decode_error_message(error@),
            }),
            report.1 == (match self {
                MessageError::MalformedLifecycle(reason) => Some(reason),
                MessageError::MalformedStatus(reason) => Some(reason),
                MessageError::Undecodable(_) => None,
            }),
    {
        match self {
            MessageError::MalformedLifecycle(reason) => (
                "parse lifecycle message".to_owned(),
                Some(reason),
            ),
            MessageError::MalformedStatus(reason) => (
                "parse status message".to_owned(),
                Some(reason),
            ),
            MessageError::Undecodable(error) => (error.message(), None),
        }
    }
}

/// The model of a message that was read, or of why none was.
pub open spec fn read_view(read: Result<Option<HerdrMessage>, MessageError>) -> Result<
    Option<MessageView>,
    MessageErrorView,
> {
    match read {
        Ok(message) => Ok(optional_message(message)),
        Err(error) => Err(error@),
    }
}

/// The message that a line of the lifecycle socket holds.
pub open spec fn lifecycle_line(line: Seq<char>) -> Result<Option<MessageView>, MessageErrorView> {
    match parsed_json(line) {
        Err(reason) => Err(MessageErrorView::MalformedLifecycle(reason)),
        Ok(message) => Ok(lifecycle_message_of(message)),
    }
}

/// The message that a line of a status socket holds.
pub open spec fn status_line(line: Seq<char>) -> Result<Option<MessageView>, MessageErrorView> {
    match parsed_json(line) {
        Err(reason) => Err(MessageErrorView::MalformedStatus(reason)),
        Ok(message) => match status_message_of(message) {
            Ok(found) => Ok(found),
            Err(error) => Err(MessageErrorView::Undecodable(error)),
        },
    }
}

/// Reads a line of the lifecycle socket.
pub fn parse_lifecycle_message(line: &str) -> (read: Result<Option<HerdrMessage>, MessageError>)
    ensures
        read_view(read) == lifecycle_line(line@),
{
    match parse_json(line) {
        Ok(message) => Ok(lifecycle_message(message)),
        Err(error) => Err(MessageError::MalformedLifecycle(error)),
    }
}

/// Reads a line of a status socket.
pub fn parse_status_message(line: &str) -> (read: Result<Option<HerdrMessage>, MessageError>)
    ensures
        read_view(read) == status_line(line@),
{
    match parse_json(line) {
        Ok(message) => match status_message(message) {
            Ok(found) => Ok(found),
            Err(error) => Err(MessageError::Undecodable(error)),
        },
        Err(error) => Err(MessageError::MalformedStatus(error)),
    }
}

/// The models of a list of messages.
pub open spec fn message_views(messages: Seq<HerdrMessage>) -> Seq<MessageView> {
    messages.map_values(|message: HerdrMessage| message@)
}

/// The messages of the lines before the first that cannot be read, and why that one cannot.
pub open spec fn readable(reads: Seq<Result<Option<MessageView>, MessageErrorView>>) -> (
    Seq<MessageView>,
    Option<MessageErrorView>,
)
    decreases reads.len(),
{
    if reads.len() == 0 {
        (Seq::empty(), None)
    } else {
        let (messages, failure) = readable(reads.drop_last());
        if failure is Some {
            (messages, failure)
        } else {
            match reads.last() {
                Err(error) => (messages, Some(error)),
                Ok(None) => (messages, None),
                Ok(Some(message)) => (messages.push(message), None),
            }
        }
    }
}

/// What the lines hold that the lifecycle socket brought before its acknowledgement.
pub open spec fn buffered_events(lines: Seq<Seq<char>>) -> (
    Seq<MessageView>,
    Option<MessageErrorView>,
) {
    readable(lines.map_values(|line: Seq<char>| lifecycle_line(line)))
}

/// What the lines hold that a status socket brought before its acknowledgement.
pub open spec fn buffered_statuses(lines: Seq<Seq<char>>) -> (
    Seq<MessageView>,
    Option<MessageErrorView>,
) {
    readable(lines.map_values(|line: Seq<char>| status_line(line)))
}

/// What follows a line that cannot be read does not count.
proof fn lemma_readable_front(
    reads: Seq<Result<Option<MessageView>, MessageErrorView>>,
    count: int,
)
    requires
        0 <= count <= reads.len(),
        readable(reads.take(count)).1 is Some,
    ensures
        readable(reads) == readable(reads.take(count)),
    decreases reads.len() - count,
{
    if count < reads.len() {
        assert(reads.take(count + 1).drop_last() =~= reads.take(count));
        lemma_readable_front(reads, count + 1);
    } else {
        assert(reads.take(count) =~= reads);
    }
}

/// What a line holds, of the lifecycle socket or of a status socket.
spec fn line_read(line: Seq<char>, lifecycle: bool) -> Result<
    Option<MessageView>,
    MessageErrorView,
> {
    if lifecycle {
        lifecycle_line(line)
    } else {
        status_line(line)
    }
}

/// Reads the lines of the lifecycle socket or of a status socket, up to the first that cannot be
/// read.
fn read_lines(lines: &Vec<String>, lifecycle: bool) -> (read: (
    Vec<HerdrMessage>,
    Option<MessageError>,
))
    ensures
        ({
            let expected = readable(
                text_views(lines@).map_values(|line: Seq<char>| line_read(line, lifecycle)),
            );
            &&& message_views(read.0@) == expected.0
            &&& match read.1 {
                Some(error) => expected.1 == Some(error@),
                None => expected.1 is None,
            }
        }),
{
    let ghost reads = text_views(lines@).map_values(|line: Seq<char>| line_read(line, lifecycle));
    let mut messages: Vec<HerdrMessage> = Vec::new();
    assert(message_views(messages@) =~= Seq::empty());
    for at in 0..lines.len()
        invariant
            reads == text_views(lines@).map_values(|line: Seq<char>| line_read(line, lifecycle)),
            readable(reads.take(at as int)) == (
                message_views(messages@),
                None::<MessageErrorView>,
            ),
    {
        let ghost known = messages@;
        proof {
            assert(reads.take(at + 1).drop_last() =~= reads.take(at as int));
            assert(reads.take(at + 1).last() == line_read(lines@[at as int]@, lifecycle));
        }
        let read = if lifecycle {
            parse_lifecycle_message(lines[at].as_str())
        } else {
            parse_status_message(lines[at].as_str())
        };
        match read {
            Ok(Some(message)) => {
                messages.push(message);
                assert(message_views(messages@) =~= message_views(known).push(message@));
            },
            Ok(None) => {},
            Err(error) => {
                proof {
                    lemma_readable_front(reads, at + 1);
                }
                return (messages, Some(error));
            },
        }
    }
    assert(reads.take(lines@.len() as int) =~= reads);
    (messages, None)
}

/// Reads the lines that the lifecycle socket brought before its acknowledgement, up to the first
/// that cannot be read.
pub fn read_buffered_events(lines: &Vec<String>) -> (read: (
    Vec<HerdrMessage>,
    Option<MessageError>,
))
    ensures
        message_views(read.0@) == buffered_events(text_views(lines@)).0,
        match read.1 {
            Some(error) => buffered_events(text_views(lines@)).1 == Some(error@),
            None => buffered_events(text_views(lines@)).1 is None,
        },
{
    assert(text_views(lines@).map_values(|line: Seq<char>| line_read(line, true)) =~= text_views(
        lines@,
    ).map_values(|line: Seq<char>| lifecycle_line(line)));
    read_lines(lines, true)
}

/// Reads the lines that a status socket brought before its acknowledgement, up to the first that
/// cannot be read.
pub fn read_buffered_statuses(lines: &Vec<String>) -> (read: (
    Vec<HerdrMessage>,
    Option<MessageError>,
))
    ensures
        message_views(read.0@) == buffered_statuses(text_views(lines@)).0,
        match read.1 {
            Some(error) => buffered_statuses(text_views(lines@)).1 == Some(error@),
            None => buffered_statuses(text_views(lines@)).1 is None,
        },
{
    assert(text_views(lines@).map_values(|line: Seq<char>| line_read(line, false)) =~= text_views(
        lines@,
    ).map_values(|line: Seq<char>| status_line(line)));
    read_lines(lines, false)
}

/// A response: the id of its request, and the type of its result.
#[derive(Debug)]
pub struct Response {
    pub id: Json,
    pub result_type: String,
}

/// The model of [`Response`].
pub struct ResponseView {
    pub id: JsonView,
    pub result_type: Seq<char>,
}

impl View for Response {
    type V = ResponseView;

    open spec fn view(&self) -> ResponseView {
        ResponseView { id: self.id@, result_type: self.result_type@ }
    }
}

/// The type of the result that a response holds; `unknown` where it names none.
pub open spec fn result_type_of(message: JsonView) -> Seq<char> {
    match message.get("result"@) {
        Some(result) => match result.text_at("type"@) {
            Some(result_type) => result_type,
            None => "unknown"@,
        },
        None => "unknown"@,
    }
}

/// The response that a message is: one that has an id.
pub open spec fn response_of(message: JsonView) -> Option<ResponseView> {
    match message.get("id"@) {
        Some(id) => Some(ResponseView { id, result_type: result_type_of(message) }),
        None => None,
    }
}

/// Finds the type of the result that a response holds.
fn find_result_type(message: &Json) -> (result_type: String)
    ensures
        result_type@ == result_type_of(message@),
{
    match message.get("result") {
        Some(result) => match result.text_at("type") {
            Some(result_type) => result_type.to_owned(),
            None => "unknown".to_owned(),
        },
        None => "unknown".to_owned(),
    }
}

/// Takes the response that a message is, if it is one.
pub fn response(message: Json) -> (response: Option<Response>)
    ensures
        same_option(response, response_of(message@)),
{
    let result_type = find_result_type(&message);
    match message.take("id") {
        Some(id) => Some(Response { id, result_type }),
        None => None,
    }
}

/// What happens on a socket that is being read.
#[derive(Debug)]
pub enum ReaderEvent {
    /// A line came.
    Line(String),
    /// The socket closed.
    Closed,
    /// The socket could not be read.
    Failed,
}

/// The model of [`ReaderEvent`].
pub enum ReaderEventView {
    Line(Seq<char>),
    Closed,
    Failed,
}

impl View for ReaderEvent {
    type V = ReaderEventView;

    open spec fn view(&self) -> ReaderEventView {
        match self {
            ReaderEvent::Line(line) => ReaderEventView::Line(line@),
            ReaderEvent::Closed => ReaderEventView::Closed,
            ReaderEvent::Failed => ReaderEventView::Failed,
        }
    }
}

/// What the reader of a socket does next.
#[derive(Debug)]
pub enum ReaderStep {
    /// Hand on the message, and read on.
    Forward(HerdrMessage),
    /// Log the response, and read on.
    Response(Response),
    /// Read on.
    Skip,
    /// Log why the line holds no readable message, and read on.
    Report(MessageError),
    /// Hand on the message, and stop.
    Finish(HerdrMessage),
}

/// The model of [`ReaderStep`].
pub enum ReaderStepView {
    Forward(MessageView),
    Response(ResponseView),
    Skip,
    Report(MessageErrorView),
    Finish(MessageView),
}

impl View for ReaderStep {
    type V = ReaderStepView;

    open spec fn view(&self) -> ReaderStepView {
        match self {
            ReaderStep::Forward(message) => ReaderStepView::Forward(message@),
            ReaderStep::Response(response) => ReaderStepView::Response(response@),
            ReaderStep::Skip => ReaderStepView::Skip,
            ReaderStep::Report(error) => ReaderStepView::Report(error@),
            ReaderStep::Finish(message) => ReaderStepView::Finish(message@),
        }
    }
}

/// What a reader does with a line that holds `read` and is not a response.
pub open spec fn step_for_line(
    read: Result<Option<MessageView>, MessageErrorView>,
) -> ReaderStepView {
    match read {
        Ok(Some(message)) => ReaderStepView::Forward(message),
        Ok(None) => ReaderStepView::Skip,
        Err(error) => ReaderStepView::Report(error),
    }
}

/// The response that a line is.
pub open spec fn response_line(line: Seq<char>) -> Option<ResponseView> {
    match parsed_json(line) {
        Ok(message) => response_of(message),
        Err(_) => None,
    }
}

/// What the reader of the lifecycle socket does next.
pub open spec fn lifecycle_step(event: ReaderEventView) -> ReaderStepView {
    match event {
        ReaderEventView::Line(line) => match response_line(line) {
            Some(response) => ReaderStepView::Response(response),
            None => step_for_line(lifecycle_line(line)),
        },
        _ => ReaderStepView::Finish(MessageView::SocketClosed(None)),
    }
}

/// What the reader of the status socket of `pane_id` does next.
pub open spec fn status_step(pane_id: Seq<char>, event: ReaderEventView) -> ReaderStepView {
    match event {
        ReaderEventView::Line(line) => match response_line(line) {
            Some(response) => ReaderStepView::Response(response),
            None => step_for_line(status_line(line)),
        },
        _ => ReaderStepView::Finish(MessageView::SocketClosed(Some(pane_id))),
    }
}

/// The step for a line that was read, where the line is not a response.
fn step_for(read: Result<Option<HerdrMessage>, MessageError>) -> (step: ReaderStep)
    ensures
        step@ == step_for_line(read_view(read)),
{
    match read {
        Ok(Some(message)) => ReaderStep::Forward(message),
        Ok(None) => ReaderStep::Skip,
        Err(error) => ReaderStep::Report(error),
    }
}

/// Decides what the reader of the lifecycle socket does next.
pub fn lifecycle_reader_step(event: ReaderEvent) -> (step: ReaderStep)
    ensures
        step@ == lifecycle_step(event@),
{
    let line = match event {
        ReaderEvent::Line(line) => line,
        _ => return ReaderStep::Finish(HerdrMessage::SocketClosed { pane_id: None }),
    };
    match parse_json(line.as_str()) {
        Ok(message) => if message.get("id").is_some() {
            match response(message) {
                Some(response) => ReaderStep::Response(response),
                None => ReaderStep::Skip,
            }
        } else {
            step_for(Ok(lifecycle_message(message)))
        },
        Err(reason) => ReaderStep::Report(MessageError::MalformedLifecycle(reason)),
    }
}

/// Decides what the reader of the status socket of `pane_id` does next.
pub fn status_reader_step(pane_id: &str, event: ReaderEvent) -> (step: ReaderStep)
    ensures
        step@ == status_step(pane_id@, event@),
{
    let line = match event {
        ReaderEvent::Line(line) => line,
        _ => return ReaderStep::Finish(
            HerdrMessage::SocketClosed { pane_id: Some(pane_id.to_owned()) },
        ),
    };
    match parse_json(line.as_str()) {
        Ok(message) => if message.get("id").is_some() {
            match response(message) {
                Some(response) => ReaderStep::Response(response),
                None => ReaderStep::Skip,
            }
        } else {
            match status_message(message) {
                Ok(found) => step_for(Ok(found)),
                Err(error) => ReaderStep::Report(MessageError::Undecodable(error)),
            }
        },
        Err(reason) => ReaderStep::Report(MessageError::MalformedStatus(reason)),
    }
}

} // verus!
