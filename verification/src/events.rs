//! What the proxy reacts to, and what it asks to be done.

use crate::models::{
    IdView, JSONRPCMessage, JSONRPCRequest, MessageView, RequestId, RequestView, SSEEvent,
    SseEventView,
};
use vstd::prelude::*;

verus! {

/// Event types that can be processed by the proxy
#[derive(Debug, PartialEq, Eq)]
pub enum ProxyEvent {
    ConnectToSSE,
    FlushInBuffer,
    SSEEvent(SSEEvent),
    SSEError(String),
    IOEvent(JSONRPCMessage),
    IOError(String),
    Reconnect,
    FailFlush,
    Shutdown(String),
}

/// The model of an event.
pub enum EventView {
    ConnectToSSE,
    FlushInBuffer,
    SSEEvent(SseEventView),
    SSEError(Seq<char>),
    IOEvent(MessageView),
    IOError(Seq<char>),
    Reconnect,
    FailFlush,
    Shutdown(Seq<char>),
}

impl View for ProxyEvent {
    type V = EventView;

    open spec fn view(&self) -> EventView {
        match self {
            ProxyEvent::ConnectToSSE => EventView::ConnectToSSE,
            ProxyEvent::FlushInBuffer => EventView::FlushInBuffer,
            ProxyEvent::SSEEvent(event) => EventView::SSEEvent(event@),
            ProxyEvent::SSEError(error) => EventView::SSEError(error@),
            ProxyEvent::IOEvent(message) => EventView::IOEvent(message@),
            ProxyEvent::IOError(error) => EventView::IOError(error@),
            ProxyEvent::Reconnect => EventView::Reconnect,
            ProxyEvent::FailFlush => EventView::FailFlush,
            ProxyEvent::Shutdown(reason) => EventView::Shutdown(reason@),
        }
    }
}

/// What a message was forwarded to the server for.
#[derive(Debug, PartialEq, Eq)]
pub enum AfterForward {
    /// The stored initialize request, sent again after a reconnection.
    InitResent(RequestId),
    /// The initialize request of the client.
    ClientInit(JSONRPCRequest),
    /// The notification that ends the handshake.
    Handshake,
    /// Any other request of the client.
    Request { original_id: RequestId, new_id: String },
    /// A message that no answer is expected for.
    Nothing,
}

/// The model of what a message was forwarded for.
pub enum AfterView {
    InitResent(IdView),
    ClientInit(RequestView),
    Handshake,
    Request { original_id: IdView, new_id: Seq<char> },
    Nothing,
}

impl View for AfterForward {
    type V = AfterView;

    open spec fn view(&self) -> AfterView {
        match self {
            AfterForward::InitResent(id) => AfterView::InitResent(id@),
            AfterForward::ClientInit(request) => AfterView::ClientInit(request@),
            AfterForward::Handshake => AfterView::Handshake,
            AfterForward::Request { original_id, new_id } => AfterView::Request {
                original_id: original_id@,
                new_id: new_id@,
            },
            AfterForward::Nothing => AfterView::Nothing,
        }
    }
}

/// What a failure to write to the client means.
#[derive(Debug, Clone, Copy, PartialEq, Eq, Structural)]
pub enum OnWriteError {
    /// The proxy stops with the error.
    Stop,
    /// The error is logged.
    Log,
}

/// What is to be done after an event.
#[derive(Debug, PartialEq, Eq)]
pub enum Action {
    /// Open the event stream at the URL.
    Connect(String),
    /// Put the event at the end of the queue.
    Enqueue(ProxyEvent),
    /// Send the message to the endpoint, and say how that went.
    Forward(JSONRPCMessage, String, AfterForward),
    /// Write the message to the client.
    Write(JSONRPCMessage, OnWriteError),
    /// Start reading messages of the client.
    StartReader,
    /// Put the event at the end of the queue after so many seconds.
    Schedule(ProxyEvent, u64),
    /// End the event loop, with an error or without.
    Stop(Result<(), String>),
}

/// The model of an action. `Stop` holds the error, if there is one.
pub enum ActionView {
    Connect(Seq<char>),
    Enqueue(EventView),
    Forward(MessageView, Seq<char>, AfterView),
    Write(MessageView, OnWriteError),
    StartReader,
    Schedule(EventView, u64),
    Stop(Option<Seq<char>>),
}

impl View for Action {
    type V = ActionView;

    open spec fn view(&self) -> ActionView {
        match self {
            Action::Connect(url) => ActionView::Connect(url@),
            Action::Enqueue(event) => ActionView::Enqueue(event@),
            Action::Forward(message, endpoint, after) => ActionView::Forward(
                message@,
                endpoint@,
                after@,
            ),
            Action::Write(message, on_error) => ActionView::Write(message@, *on_error),
            Action::StartReader => ActionView::StartReader,
            Action::Schedule(event, seconds) => ActionView::Schedule(event@, *seconds),
            Action::Stop(result) => ActionView::Stop(
                match result {
                    Ok(_) => None,
                    Err(error) => Some(error@),
                },
            ),
        }
    }
}

/// The models of actions, in their order.
pub open spec fn action_views(actions: Seq<Action>) -> Seq<ActionView> {
    actions.map_values(|a: Action| a@)
}

} // verus!
