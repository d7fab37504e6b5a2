//! What each event does to the proxy, told by the members of the messages that come and go.

use crate::connection::backoff_is_one_two_four_eight;
use crate::endpoint::full_endpoint;
use crate::events::{
    action_views, Action, ActionView, AfterForward, AfterView, EventView, OnWriteError,
    ProxyEvent,
};
use crate::members::{
    is_error_for, is_initialized, is_kept_behind, is_notification, is_pong_for, is_refusal_of,
    is_request_under, is_response_under, is_response_with_version,
};
use crate::models::{
    id_text, reported_version, AppView, BufferMode, IdView, MessageView, NotificationView,
    RequestView, ResponseView, SseEventView, StateView,
};
use crate::proxy::{accepts, settled, transition, Fresh};
use crate::replies::disconnected_replies;
use vstd::prelude::*;

verus! {

/// The one thing to be done is to send a message to the endpoint.
pub open spec fn forwards(
    actions: Seq<ActionView>,
    endpoint: Seq<char>,
    after: AfterView,
) -> bool {
    &&& actions.len() == 1
    &&& actions[0] is Forward
    &&& actions[0]->Forward_1 == endpoint
    &&& actions[0]->Forward_2 == after
}

/// The one thing to be done is to write a message to the client.
pub open spec fn writes(actions: Seq<ActionView>, on_error: OnWriteError) -> bool {
    &&& actions.len() == 1
    &&& actions[0] is Write
    &&& actions[0]->Write_1 == on_error
}

/// With a connection, a request of the client is sent with its `jsonrpc`, `method` and `params`,
/// and only its identifier is the fresh one. Once it is sent, the identifier of the client is
/// remembered under the fresh one, and nothing else changes. Where it could not be sent, the
/// client gets the error under its own identifier, and nothing changes.
pub proof fn connected_request_is_forwarded(
    app: AppView,
    request: RequestView,
    fresh: Fresh,
    error: Seq<char>,
)
    requires
        app.state is Connected || (app.state is WaitingForClientInit && request.method
            != "initialize"@),
    ensures
        ({
            let (next, actions) = transition(
                app,
                EventView::IOEvent(MessageView::Request(request)),
                fresh,
            );
            let after = AfterView::Request { original_id: request.id, new_id: fresh.id };
            &&& next == app
            &&& forwards(actions, app.endpoint->0, after)
            &&& is_request_under(actions[0]->Forward_0, request, IdView::String(fresh.id))
            &&& settled(app, after, Ok(())).0 == (AppView {
                id_map: app.id_map.insert(fresh.id, request.id),
                ..app
            })
            &&& settled(app, after, Ok(())).1.len() == 0
            &&& settled(app, after, Err(error)).0 == app
            &&& writes(settled(app, after, Err(error)).1, OnWriteError::Log)
            &&& is_error_for(
                settled(app, after, Err(error)).1[0]->Write_0,
                request.id,
                -32011,
                error,
            )
        }),
{
}

/// While the server is away, a call of a tool changes the buffer to the old buffer with exactly
/// that request, all members unchanged, behind it. Nothing else changes, nothing is written and
/// nothing is sent.
pub proof fn call_is_kept_while_away(app: AppView, request: RequestView, fresh: Fresh)
    requires
        app.state !is Connected,
        app.state !is WaitingForClientInit,
        request.method == "tools/call"@,
    ensures
        ({
            let (next, actions) = transition(
                app,
                EventView::IOEvent(MessageView::Request(request)),
                fresh,
            );
            &&& next.in_buf.len() == app.in_buf.len() + 1
            &&& is_kept_behind(next.in_buf, app.in_buf, next.in_buf.last())
            &&& is_request_under(next.in_buf.last(), request, request.id)
            &&& next == (AppView { in_buf: next.in_buf, ..app })
            &&& actions.len() == 0
        }),
{
    lemma_methods();
}

/// While the server is away, a ping is answered, and any other request but a call of a tool is
/// refused under its own identifier. Nothing changes.
pub proof fn request_is_answered_while_away(app: AppView, request: RequestView, fresh: Fresh)
    requires
        app.state !is Connected,
        app.state !is WaitingForClientInit,
        request.method != "tools/call"@,
    ensures
        ({
            let (next, actions) = transition(
                app,
                EventView::IOEvent(MessageView::Request(request)),
                fresh,
            );
            &&& next == app
            &&& writes(actions, OnWriteError::Stop)
            &&& request.method == "ping"@ ==> is_pong_for(actions[0]->Write_0, request.id)
            &&& request.method != "ping"@ ==> is_refusal_of(actions[0]->Write_0, request.id)
        }),
{
}

/// The names of the methods are different.
proof fn lemma_methods()
    ensures
        "ping"@ != "tools/call"@,
        "initialize"@ != "tools/call"@,
        "initialize"@ != "ping"@,
{
    reveal_strlit("ping");
    reveal_strlit("tools/call");
    reveal_strlit("initialize");
    assert("ping"@.len() == 4);
    assert("tools/call"@[0] == 't');
    assert("initialize"@[0] == 'i');
}

/// The initialize request that is waited for is sent as it is, under the identifier of the
/// client. Once it is sent, it is stored and its answer waited for; where it could not be sent,
/// the proxy stops with the error.
pub proof fn initialize_request_is_forwarded(
    app: AppView,
    request: RequestView,
    fresh: Fresh,
    error: Seq<char>,
)
    requires
        app.state is WaitingForClientInit,
        request.method == "initialize"@,
    ensures
        ({
            let (next, actions) = transition(
                app,
                EventView::IOEvent(MessageView::Request(request)),
                fresh,
            );
            let after = AfterView::ClientInit(request);
            &&& next == app
            &&& forwards(actions, app.endpoint->0, after)
            &&& is_request_under(actions[0]->Forward_0, request, request.id)
            &&& settled(app, after, Ok(())).0 == (AppView {
                init_message: Some(request),
                state: StateView::WaitingForServerInit(request.id),
                ..app
            })
            &&& settled(app, after, Ok(())).1.len() == 0
            &&& stops(settled(app, after, Err(error)), app, error)
        }),
{
}

/// Nothing changes, and the proxy stops with the error.
pub open spec fn stops(
    result: (AppView, Seq<ActionView>),
    app: AppView,
    error: Seq<char>,
) -> bool {
    &&& result.0 == app
    &&& result.1.len() == 1
    &&& result.1[0] == ActionView::Stop(Some(error))
}

/// A notification of the client is sent as it is, and changes nothing. Once the one that ends the
/// handshake is sent, the proxy is connected and the messages that wait are taken up; where it
/// could not be sent, the proxy stops with the error. For any other nothing follows.
pub proof fn client_notification_is_forwarded(
    app: AppView,
    notification: NotificationView,
    fresh: Fresh,
    error: Seq<char>,
)
    ensures
        ({
            let (next, actions) = transition(
                app,
                EventView::IOEvent(MessageView::Notification(notification)),
                fresh,
            );
            let ends = notification.method == "notifications/initialized"@;
            let after = if ends {
                AfterView::Handshake
            } else {
                AfterView::Nothing
            };
            &&& next == app
            &&& forwards(actions, app.endpoint->0, after)
            &&& is_notification(actions[0]->Forward_0, notification)
            &&& ends ==> {
                let (done, then_actions) = settled(app, after, Ok(()));
                &&& done == (AppView {
                    state: StateView::Connected,
                    connect_tries: 0,
                    disconnected_since: None,
                    buf_mode: BufferMode::Store,
                    ..app
                })
                &&& then_actions.len() == 1
                &&& then_actions[0] == ActionView::Enqueue(EventView::FlushInBuffer)
                &&& stops(settled(app, after, Err(error)), app, error)
            }
            &&& !ends ==> {
                &&& settled(app, after, Ok(())).0 == app
                &&& settled(app, after, Ok(())).1.len() == 0
                &&& settled(app, after, Err(error)).0 == app
                &&& settled(app, after, Err(error)).1.len() == 0
            }
        }),
{
}

/// A response of the client to a request of the server is sent under the identifier that the
/// server gave, with its other members as they are, and that identifier is forgotten. One that
/// answers no request of the server is dropped.
pub proof fn client_response_is_forwarded(app: AppView, response: ResponseView, fresh: Fresh)
    ensures
        ({
            let key = id_text(response.id);
            let (next, actions) = transition(
                app,
                EventView::IOEvent(MessageView::Response(response)),
                fresh,
            );
            if app.id_map.contains_key(key) {
                &&& next == (AppView { id_map: app.id_map.remove(key), ..app })
                &&& forwards(actions, app.endpoint->0, AfterView::Nothing)
                &&& is_response_under(actions[0]->Forward_0, response, app.id_map[key])
            } else {
                &&& next == app
                &&& actions.len() == 0
            }
        }),
{
}

/// A request of the server is written with its `jsonrpc`, `method` and `params`, and only its
/// identifier is the fresh one, under which the one of the server is remembered. Nothing else
/// changes.
pub proof fn server_request_is_passed_on(app: AppView, request: RequestView, fresh: Fresh)
    ensures
        ({
            let (next, actions) = transition(
                app,
                EventView::SSEEvent(SseEventView::Message(MessageView::Request(request))),
                fresh,
            );
            &&& next == (AppView { id_map: app.id_map.insert(fresh.id, request.id), ..app })
            &&& writes(actions, OnWriteError::Log)
            &&& is_request_under(actions[0]->Write_0, request, IdView::String(fresh.id))
        }),
{
}

/// A notification of the server is written as it is, and changes nothing.
pub proof fn server_notification_is_passed_on(
    app: AppView,
    notification: NotificationView,
    fresh: Fresh,
)
    ensures
        ({
            let (next, actions) = transition(
                app,
                EventView::SSEEvent(
                    SseEventView::Message(MessageView::Notification(notification)),
                ),
                fresh,
            );
            &&& next == app
            &&& writes(actions, OnWriteError::Log)
            &&& is_notification(actions[0]->Write_0, notification)
        }),
{
}

/// The answer to the initialize request of the client is written under its identifier, with the
/// version that the client is to see, and the notification of the client is waited for. The
/// answer to the one that the proxy sent again is not written: the notification that ends the
/// handshake is sent instead. Any other response of the server is written under the identifier
/// that the client gave, with its other members as they are, and that identifier is forgotten;
/// one that answers no request of the client is dropped.
pub proof fn server_response_is_passed_on(app: AppView, response: ResponseView, fresh: Fresh)
    ensures
        ({
            let key = id_text(response.id);
            let (next, actions) = transition(
                app,
                EventView::SSEEvent(SseEventView::Message(MessageView::Response(response))),
                fresh,
            );
            if app.state == StateView::WaitingForServerInit(response.id) {
                &&& next == (AppView { state: StateView::WaitingForClientInitialized, ..app })
                &&& writes(actions, OnWriteError::Stop)
                &&& is_response_with_version(
                    actions[0]->Write_0,
                    response,
                    response.id,
                    reported_version(app),
                )
            } else if app.state == StateView::WaitingForServerInitHidden(response.id) {
                &&& next == app
                &&& forwards(actions, app.endpoint->0, AfterView::Handshake)
                &&& is_initialized(actions[0]->Forward_0)
            } else if app.id_map.contains_key(key) {
                &&& next == (AppView { id_map: app.id_map.remove(key), ..app })
                &&& writes(actions, OnWriteError::Log)
                &&& is_response_under(actions[0]->Write_0, response, app.id_map[key])
            } else {
                &&& next == app
                &&& actions.len() == 0
            }
        }),
{
}

/// To connect, at first or again, is to open the stream at the URL of the proxy; an endpoint that
/// was known is known no more, the announcement of one is waited for, and messages are stored.
/// Nothing else changes.
pub proof fn connecting_waits_for_an_endpoint(app: AppView, event: EventView, fresh: Fresh)
    requires
        event is ConnectToSSE || event is Reconnect,
    ensures
        ({
            let (next, actions) = transition(app, event, fresh);
            &&& next == (AppView {
                state: StateView::WaitingForEndpoint,
                endpoint: None,
                buf_mode: BufferMode::Store,
                ..app
            })
            &&& actions.len() == 1
            &&& actions[0] == ActionView::Connect(app.url)
        }),
{
}

/// The endpoint that is announced while it is waited for is the one that messages are sent to.
/// Where an initialize request is stored, it is sent there again, under its own identifier, and
/// its answer is hidden from the client once it is sent; where none is, the one of the client is
/// waited for. An endpoint that is not waited for changes nothing.
pub proof fn endpoint_is_used(
    app: AppView,
    endpoint: Seq<char>,
    fresh: Fresh,
    error: Seq<char>,
)
    ensures
        ({
            let full = full_endpoint(app.url, endpoint);
            let (next, actions) = transition(
                app,
                EventView::SSEEvent(SseEventView::Endpoint(endpoint)),
                fresh,
            );
            if app.state !is WaitingForEndpoint {
                next == app && actions.len() == 0
            } else if app.init_message is None {
                &&& next == (AppView {
                    endpoint: Some(full),
                    state: StateView::WaitingForClientInit,
                    ..app
                })
                &&& actions.len() == 1
                &&& actions[0] is StartReader
            } else {
                let request = app.init_message->0;
                let after = AfterView::InitResent(request.id);
                &&& next == (AppView { endpoint: Some(full), ..app })
                &&& forwards(actions, full, after)
                &&& is_request_under(actions[0]->Forward_0, request, request.id)
                &&& settled(next, after, Ok(())).0 == (AppView {
                    state: StateView::WaitingForServerInitHidden(request.id),
                    ..next
                })
                &&& settled(next, after, Ok(())).1.len() == 0
                &&& stops(settled(next, after, Err(error)), next, error)
            }
        }),
{
}

/// The messages that wait are taken up as if the client had sent them now, all of them, each with
/// all its members, in their order; none waits any more, and nothing else changes.
pub proof fn waiting_messages_are_taken_up(app: AppView, fresh: Fresh)
    ensures
        ({
            let (next, actions) = transition(app, EventView::FlushInBuffer, fresh);
            &&& next == (AppView { in_buf: Seq::empty(), ..app })
            &&& actions.len() == app.in_buf.len()
            &&& forall|i: int|
                0 <= i < actions.len() ==> #[trigger] actions[i] == ActionView::Enqueue(
                    EventView::IOEvent(app.in_buf[i]),
                )
        }),
{
}

/// The loss of the connection disconnects the proxy, takes the endpoint away and is counted. The
/// time of the loss is remembered, unless an earlier one is; everything else stays. With the
/// first loss the calls that wait get twenty seconds. Then either the time is over, and the proxy
/// stops, or the next attempt follows after one second, doubled with each attempt before it, and
/// no more than eight seconds.
pub proof fn loss_is_counted_and_retried(app: AppView, error: Seq<char>, fresh: Fresh)
    requires
        app.connect_tries < u32::MAX,
    ensures
        ({
            let (next, actions) = transition(app, EventView::SSEError(error), fresh);
            let first = app.connect_tries == 0;
            let over = app.max_disconnected_time is Some && fresh.waited
                > app.max_disconnected_time->0;
            let last = actions[actions.len() - 1];
            &&& next.state is Disconnected
            &&& next.endpoint is None
            &&& next.connect_tries == app.connect_tries + 1
            &&& next.disconnected_since is Some
            &&& app.disconnected_since is Some ==> next.disconnected_since
                == app.disconnected_since
            &&& app.disconnected_since is None ==> next.disconnected_since->0 == fresh.now
            &&& next == (AppView {
                state: next.state,
                endpoint: next.endpoint,
                connect_tries: next.connect_tries,
                disconnected_since: next.disconnected_since,
                ..app
            })
            &&& actions.len() == if first {
                2int
            } else {
                1int
            }
            &&& first ==> actions[0] == ActionView::Schedule(EventView::FailFlush, 20)
            &&& over ==> last == ActionView::Stop(Some("Reconnect timeout exceeded"@))
            &&& !over ==> match last {
                ActionView::Schedule(event, seconds) => event is Reconnect && seconds == if first {
                    1int
                } else if app.connect_tries == 1 {
                    2int
                } else if app.connect_tries == 2 {
                    4int
                } else {
                    8int
                },
                _ => false,
            }
        }),
{
    backoff_is_one_two_four_eight(app.connect_tries as nat);
}

/// Calls that have waited too long for a server that is away are refused, each under its own
/// identifier and in their order; no message and no identifier is kept, and what cannot be sent
/// is refused from then on. With a server nothing happens.
pub proof fn waiting_calls_are_refused_at_last(app: AppView, fresh: Fresh)
    ensures
        ({
            let (next, actions) = transition(app, EventView::FailFlush, fresh);
            if app.state is Disconnected {
                let replies = disconnected_replies(app.in_buf);
                &&& next == (AppView {
                    in_buf: Seq::empty(),
                    id_map: Map::empty(),
                    buf_mode: BufferMode::Fail,
                    ..app
                })
                &&& actions.len() == replies.len()
                &&& forall|i: int|
                    0 <= i < actions.len() ==> #[trigger] actions[i] == ActionView::Write(
                        replies[i],
                        OnWriteError::Log,
                    )
            } else {
                next == app && actions.len() == 0
            }
        }),
{
}

/// The proxy stops without an error where it is told to, and with the error where the client can
/// no longer be read. A server-sent event of any other type is passed over. None of these changes
/// anything.
pub proof fn other_events_change_nothing(app: AppView, event: EventView, fresh: Fresh)
    ensures
        ({
            let (next, actions) = transition(app, event, fresh);
            match event {
                EventView::IOError(error) => next == app && actions.len() == 1 && actions[0]
                    == ActionView::Stop(Some("IO error: "@ + error)),
                EventView::Shutdown(_) => next == app && actions.len() == 1 && actions[0]
                    == ActionView::Stop(None),
                EventView::SSEEvent(SseEventView::Other(_, _)) => next == app && actions.len()
                    == 0,
                _ => true,
            }
        }),
{
}

/// The model of an event is of the kind of the event, and holds what the event holds.
pub proof fn proxy_event_is_modelled(event: ProxyEvent)
    ensures
        match event {
            ProxyEvent::ConnectToSSE => event@ is ConnectToSSE,
            ProxyEvent::FlushInBuffer => event@ is FlushInBuffer,
            ProxyEvent::SSEEvent(e) => event@ is SSEEvent && event@->SSEEvent_0 == e@,
            ProxyEvent::SSEError(e) => event@ is SSEError && event@->SSEError_0 == e@,
            ProxyEvent::IOEvent(m) => event@ is IOEvent && event@->IOEvent_0 == m@,
            ProxyEvent::IOError(e) => event@ is IOError && event@->IOError_0 == e@,
            ProxyEvent::Reconnect => event@ is Reconnect,
            ProxyEvent::FailFlush => event@ is FailFlush,
            ProxyEvent::Shutdown(e) => event@ is Shutdown && event@->Shutdown_0 == e@,
        },
{
}

/// The model of an action is of the kind of the action, and holds what the action holds.
pub proof fn action_is_modelled(action: Action)
    ensures
        match action {
            Action::Connect(url) => action@ is Connect && action@->Connect_0 == url@,
            Action::Enqueue(event) => action@ is Enqueue && action@->Enqueue_0 == event@,
            Action::Forward(message, endpoint, after) => action@ is Forward && action@->Forward_0
                == message@ && action@->Forward_1 == endpoint@ && action@->Forward_2 == after@,
            Action::Write(message, on_error) => action@ is Write && action@->Write_0 == message@
                && action@->Write_1 == on_error,
            Action::StartReader => action@ is StartReader,
            Action::Schedule(event, seconds) => action@ is Schedule && action@->Schedule_0
                == event@ && action@->Schedule_1 == seconds,
            Action::Stop(Ok(_)) => action@ is Stop && action@->Stop_0 is None,
            Action::Stop(Err(error)) => action@ is Stop && action@->Stop_0 is Some
                && action@->Stop_0->0 == error@,
        },
{
}

/// The model of what a message was forwarded for holds what it is about.
pub proof fn purpose_is_modelled(after: AfterForward)
    ensures
        match after {
            AfterForward::InitResent(id) => after@ is InitResent && after@->InitResent_0 == id@,
            AfterForward::ClientInit(request) => after@ is ClientInit && after@->ClientInit_0
                == request@,
            AfterForward::Handshake => after@ is Handshake,
            AfterForward::Request { original_id, new_id } => after@ is Request
                && after@->original_id == original_id@ && after@->new_id == new_id@,
            AfterForward::Nothing => after@ is Nothing,
        },
{
}

/// An event can be handled unless it makes the proxy send something while no endpoint is known, or
/// the count of the attempts to connect is exhausted.
pub proof fn events_are_handled_where_possible(app: AppView, event: EventView)
    ensures
        ({
            let known = app.endpoint is Some;
            let away = app.state !is Connected && app.state !is WaitingForClientInit;
            accepts(app, event) <==> match event {
                EventView::SSEError(_) => app.connect_tries < 0xffff_ffff,
                EventView::IOEvent(message) => known || (away && message is Request),
                EventView::SSEEvent(SseEventView::Message(MessageView::Request(_))) => known,
                EventView::SSEEvent(SseEventView::Message(MessageView::Response(response))) => known
                    || !(app.state is WaitingForServerInitHidden
                    && app.state->WaitingForServerInitHidden_0 == response.id),
                _ => true,
            }
        }),
{
}

/// What follows a message that was forwarded depends only on what it was forwarded for and on
/// whether it was sent. A request that was sent is remembered; one that was not is answered with
/// the error. The handshake, and the requests that begin it, change the state once they are sent,
/// and stop the proxy where they are not. For anything else nothing follows.
pub proof fn outcome_is_settled(app: AppView, after: AfterView, error: Seq<char>)
    ensures
        ({
            let (next, actions) = settled(app, after, Ok(()));
            match after {
                AfterView::InitResent(id) => actions.len() == 0 && next == (AppView {
                    state: StateView::WaitingForServerInitHidden(id),
                    ..app
                }),
                AfterView::ClientInit(request) => actions.len() == 0 && next == (AppView {
                    init_message: Some(request),
                    state: StateView::WaitingForServerInit(request.id),
                    ..app
                }),
                AfterView::Handshake => {
                    &&& actions.len() == 1
                    &&& actions[0] == ActionView::Enqueue(EventView::FlushInBuffer)
                    &&& next == (AppView {
                        state: StateView::Connected,
                        connect_tries: 0,
                        disconnected_since: None,
                        buf_mode: BufferMode::Store,
                        ..app
                    })
                },
                AfterView::Request { original_id, new_id } => actions.len() == 0 && next == (
                AppView { id_map: app.id_map.insert(new_id, original_id), ..app }),
                AfterView::Nothing => actions.len() == 0 && next == app,
            }
        }),
        ({
            let (next, actions) = settled(app, after, Err(error));
            match after {
                AfterView::Request { original_id, new_id } => {
                    &&& next == app
                    &&& writes(actions, OnWriteError::Log)
                    &&& is_error_for(actions[0]->Write_0, original_id, -32011, error)
                },
                AfterView::Nothing => actions.len() == 0 && next == app,
                _ => stops((next, actions), app, error),
            }
        }),
{
}

/// The models of actions stand in the order of the actions.
pub proof fn actions_are_modelled_in_order(actions: Seq<Action>)
    ensures
        action_views(actions).len() == actions.len(),
        forall|i: int|
            0 <= i < actions.len() ==> #[trigger] action_views(actions)[i] == actions[i]@,
{
}

} // verus!
