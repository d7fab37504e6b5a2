//! The tasks beside the event loop: one reads the event stream of the server, one the messages of
//! the client, and each turns what it reads into events of the proxy.

use crate::events::{EventView, ProxyEvent};
use crate::models::{JSONRPCMessage, MessageView, SSEEvent, SseEventView};
use crate::text;
use vstd::prelude::*;

verus! {

/// What a task does next.
#[derive(Debug, PartialEq, Eq)]
pub enum TaskStep {
    /// Put the event at the end of the queue, and go on reading.
    Send(ProxyEvent),
    /// Put the events at the end of the queue, and end.
    End(Vec<ProxyEvent>),
    /// Read the line as a message.
    Parse(String),
}

/// The model of what a task does next.
pub enum TaskView {
    Send(EventView),
    End(Seq<EventView>),
    Parse(Seq<char>),
}

/// The models of events, in their order.
pub open spec fn event_views(events: Seq<ProxyEvent>) -> Seq<EventView> {
    events.map_values(|e: ProxyEvent| e@)
}

impl View for TaskStep {
    type V = TaskView;

    open spec fn view(&self) -> TaskView {
        match self {
            TaskStep::Send(event) => TaskView::Send(event@),
            TaskStep::End(events) => TaskView::End(event_views(events@)),
            TaskStep::Parse(line) => TaskView::Parse(line@),
        }
    }
}

/// What the task that reads the event stream does with what it read: an event, or the end of the
/// stream or an error, after which it reads no more.
pub open spec fn stream_step(item: Option<SseEventView>) -> TaskView {
    match item {
        Some(event) => TaskView::Send(EventView::SSEEvent(event)),
        None => TaskView::End(seq![EventView::SSEError("SSE stream ended"@)]),
    }
}

/// What was read from the client.
#[derive(Debug, PartialEq, Eq)]
pub enum StdinRead {
    /// A line, with the newline at its end where there is one.
    Line(String),
    /// The end.
    Closed,
    /// An error.
    Failed(String),
}

/// The model of what was read from the client.
pub enum StdinView {
    Line(Seq<char>),
    Closed,
    Failed(Seq<char>),
}

impl View for StdinRead {
    type V = StdinView;

    open spec fn view(&self) -> StdinView {
        match self {
            StdinRead::Line(line) => StdinView::Line(line@),
            StdinRead::Closed => StdinView::Closed,
            StdinRead::Failed(error) => StdinView::Failed(error@),
        }
    }
}

/// A line without the newline at its end.
pub open spec fn without_newline(line: Seq<char>) -> Seq<char> {
    if line.len() > 0 && line.last() == '\n' {
        line.drop_last()
    } else {
        line
    }
}

/// The event that ends the proxy once the client is gone.
pub open spec fn stdin_closed() -> EventView {
    EventView::Shutdown("Stdin closed"@)
}

/// What the task that reads the messages of the client does with what it read: a line is read as a
/// message; at the end the proxy ends, after an error with the error.
pub open spec fn stdin_step(read: StdinView) -> TaskView {
    match read {
        StdinView::Line(line) => TaskView::Parse(without_newline(line)),
        StdinView::Closed => TaskView::End(seq![stdin_closed()]),
        StdinView::Failed(error) => TaskView::End(
            seq![EventView::IOError("Error reading from stdin: "@ + error), stdin_closed()],
        ),
    }
}

/// The event for a line of the client, given the message that it is, or the error with which it is
/// none.
pub open spec fn line_event(parsed: Result<MessageView, Seq<char>>) -> EventView {
    match parsed {
        Ok(message) => EventView::IOEvent(message),
        Err(error) => EventView::IOError("Error parsing JSON: "@ + error),
    }
}

/// What the task that reads the event stream does with what it read.
pub fn process_stream_item(item: Option<Result<SSEEvent, String>>) -> (r: TaskStep)
    ensures
        r@ == stream_step(
            match item {
                Some(Ok(event)) => Some(event@),
                _ => None,
            },
        ),
{
    match item {
        Some(Ok(event)) => TaskStep::Send(ProxyEvent::SSEEvent(event)),
        _ => {
            let event = ProxyEvent::SSEError("SSE stream ended".to_owned());
            let ghost model = event@;
            let mut events: Vec<ProxyEvent> = Vec::new();
            events.push(event);
            assert(event_views(events@) =~= seq![model]);
            TaskStep::End(events)
        },
    }
}

/// What the task that reads the messages of the client does with what it read.
pub fn process_stdin(read: StdinRead) -> (r: TaskStep)
    ensures
        r@ == stdin_step(read@),
{
    let closed = ProxyEvent::Shutdown("Stdin closed".to_owned());
    let ghost closed_model = closed@;
    let mut events: Vec<ProxyEvent> = Vec::new();
    match read {
        StdinRead::Line(line) => {
            match text::strip_newline(line.as_str()) {
                Some(rest) => {
                    assert(rest@ =~= without_newline(line@));
                    TaskStep::Parse(rest.to_owned())
                },
                None => TaskStep::Parse(line),
            }
        },
        StdinRead::Closed => {
            events.push(closed);
            assert(event_views(events@) =~= seq![closed_model]);
            TaskStep::End(events)
        },
        StdinRead::Failed(error) => {
            let failed = ProxyEvent::IOError(
                "Error reading from stdin: ".to_owned().concat(error.as_str()),
            );
            let ghost failed_model = failed@;
            events.push(failed);
            events.push(closed);
            assert(event_views(events@) =~= seq![failed_model, closed_model]);
            TaskStep::End(events)
        },
    }
}

/// The event for a line of the client, given the message that it is, or the error with which it is
/// none.
pub fn parsed_line(parsed: Result<JSONRPCMessage, String>) -> (r: ProxyEvent)
    ensures
        r@ == line_event(
            match parsed {
                Ok(message) => Ok(message@),
                Err(error) => Err(error@),
            },
        ),
{
    match parsed {
        Ok(message) => ProxyEvent::IOEvent(message),
        Err(error) => ProxyEvent::IOError("Error parsing JSON: ".to_owned().concat(error.as_str())),
    }
}

/// The event for an event stream that could not be opened.
pub fn stream_not_opened(error: String) -> (r: ProxyEvent)
    ensures
        r@ == EventView::SSEError(error@),
{
    ProxyEvent::SSEError(error)
}

/// An event of the stream is passed on as it is, and the reading goes on; the end of the stream
/// is reported once, as a loss of the connection, and the reading ends.
pub proof fn stream_events_are_passed_on(event: SseEventView)
    ensures
        stream_step(Some(event)) is Send,
        stream_step(Some(event))->Send_0 == EventView::SSEEvent(event),
        stream_step(None) is End,
        stream_step(None)->End_0.len() == 1,
        stream_step(None)->End_0[0] == EventView::SSEError("SSE stream ended"@),
{
}

/// A line of the client is read without the newline at its end, and in every other way as it is,
/// whether there is a newline at its end or not.
pub proof fn line_is_read_without_its_newline(line: Seq<char>)
    requires
        !line.contains('\n'),
    ensures
        stdin_step(StdinView::Line(line)) is Parse,
        stdin_step(StdinView::Line(line))->Parse_0 == line,
        stdin_step(StdinView::Line(line.push('\n'))) is Parse,
        stdin_step(StdinView::Line(line.push('\n')))->Parse_0 == line,
{
    if line.len() > 0 {
        assert(line.contains(line.last()));
    }
    assert(line.push('\n').drop_last() =~= line);
}

/// Once the client is gone, the proxy is told to stop, and the reading ends; an error of the
/// reading is reported before.
pub proof fn end_of_the_client_ends_the_proxy(error: Seq<char>)
    ensures
        stdin_step(StdinView::Closed) is End,
        stdin_step(StdinView::Closed)->End_0.len() == 1,
        stdin_step(StdinView::Closed)->End_0[0] == EventView::Shutdown("Stdin closed"@),
        stdin_step(StdinView::Failed(error)) is End,
        stdin_step(StdinView::Failed(error))->End_0.len() == 2,
        stdin_step(StdinView::Failed(error))->End_0[0] == EventView::IOError(
            "Error reading from stdin: "@ + error,
        ),
        stdin_step(StdinView::Failed(error))->End_0[1] == EventView::Shutdown("Stdin closed"@),
{
}

/// A line that is a message is passed on as that message; for any other the error is reported.
pub proof fn line_is_a_message_or_an_error(message: MessageView, error: Seq<char>)
    ensures
        line_event(Ok(message)) is IOEvent,
        line_event(Ok(message))->IOEvent_0 == message,
        line_event(Err(error)) is IOError,
        line_event(Err(error))->IOError_0 == "Error parsing JSON: "@ + error,
{
}

/// The model of what a task does next holds its events, in their order, or its line.
pub proof fn task_step_is_modelled(step: TaskStep)
    ensures
        match step {
            TaskStep::Send(event) => step@ is Send && step@->Send_0 == event@,
            TaskStep::End(events) => {
                &&& step@ is End
                &&& step@->End_0.len() == events@.len()
                &&& forall|i: int|
                    0 <= i < events@.len() ==> #[trigger] step@->End_0[i] == events@[i]@
            },
            TaskStep::Parse(line) => step@ is Parse && step@->Parse_0 == line@,
        },
{
}

/// The model of what was read from the client holds the line or the error.
pub proof fn read_is_modelled(read: StdinRead)
    ensures
        match read {
            StdinRead::Line(line) => read@ is Line && read@->Line_0 == line@,
            StdinRead::Closed => read@ is Closed,
            StdinRead::Failed(error) => read@ is Failed && read@->Failed_0 == error@,
        },
{
}

} // verus!
