//! What holds of the event loop as a whole.

use crate::connection::backoff;
use crate::endpoint::full_endpoint;
use crate::events::{ActionView, AfterView, EventView, OnWriteError};
use crate::ids::{comes_before, fresh_id_is_unused, not_later, spent};
use crate::json::JsonView;
use crate::models::{
    id_text, initial, reported_version, requested_version, too_long, when_connected, AppView,
    BufferMode, IdView, MessageView, NotificationView, RequestView, ResponseView, SseEventView,
};
use crate::proxy::{
    accepts, from_client, from_server, is_held_back, lost, past_endpoint, settled, transition,
    well_formed, Fresh,
};
use crate::replies::{
    disconnected_reply, initialized, one_reply_per_request, overridden, ping_reply,
    send_error_reply,
};
use std::time::Instant;
use vstd::prelude::*;

verus! {

/// The endpoint is known whenever it is needed: a new proxy is well formed, and every event
/// that can be handled keeps the proxy well formed.
pub proof fn events_keep_well_formed(
    url: Seq<char>,
    max_time: Option<u64>,
    app: AppView,
    event: EventView,
    fresh: Fresh,
)
    requires
        well_formed(app),
        accepts(app, event),
    ensures
        well_formed(initial(url, max_time)),
        well_formed(transition(app, event, fresh).0),
{
}

/// A message is forwarded to the endpoint of the proxy, and when it has been, or has not, the
/// proxy is well formed again.
pub proof fn forwards_keep_well_formed(
    app: AppView,
    event: EventView,
    fresh: Fresh,
    message: MessageView,
    endpoint: Seq<char>,
    after: AfterView,
    outcome: Result<(), Seq<char>>,
)
    requires
        well_formed(app),
        accepts(app, event),
        transition(app, event, fresh).1.contains(ActionView::Forward(message, endpoint, after)),
    ensures
        transition(app, event, fresh).0.endpoint == Some(endpoint),
        well_formed(settled(transition(app, event, fresh).0, after, outcome).0),
{
    let actions = transition(app, event, fresh).1;
    let i = choose|i: int|
        0 <= i < actions.len() && actions[i] == ActionView::Forward(message, endpoint, after);
}

/// Once the endpoint is known, every event can be handled, as long as a lost connection can
/// be counted.
pub proof fn every_event_is_accepted(app: AppView, event: EventView)
    requires
        well_formed(app),
        past_endpoint(app.state),
        app.connect_tries < u32::MAX,
    ensures
        accepts(app, event),
{
}

/// A request of the client that goes to the server under a generated identifier: the server is
/// there, and the request is not the one that begins the handshake.
pub open spec fn is_relayed(app: AppView, request: RequestView) -> bool {
    !is_held_back(app) && !(app.state is WaitingForClientInit && request.method == "initialize"@)
}

/// A request of the client that reached the server is answered once, under the identifier that
/// the client gave it: the response that the server sends under the generated identifier is
/// written with the original one and nothing else changed, and a second response under the
/// generated identifier is dropped.
pub proof fn request_is_answered_once(
    app: AppView,
    request: RequestView,
    fresh_id: Seq<char>,
    response: ResponseView,
    again: ResponseView,
    other_id: Seq<char>,
    last: Seq<char>,
)
    requires
        spent(app, last),
        comes_before(last, fresh_id),
        is_relayed(app, request),
        response.id == IdView::String(fresh_id),
        again.id == response.id,
    ensures
        ({
            let (sent, forward) = from_client(app, MessageView::Request(request), fresh_id);
            let after = AfterView::Request { original_id: request.id, new_id: fresh_id };
            let (waiting, _) = settled(sent, after, Ok(()));
            let (answered, written) = from_server(
                waiting,
                MessageView::Response(response),
                other_id,
            );
            let (_, ignored) = from_server(answered, MessageView::Response(again), other_id);
            &&& forward == seq![
                ActionView::Forward(
                    MessageView::Request(
                        RequestView { id: IdView::String(fresh_id), ..request },
                    ),
                    app.endpoint->0,
                    after,
                ),
            ]
            &&& written == seq![
                ActionView::Write(
                    MessageView::Response(ResponseView { id: request.id, ..response }),
                    OnWriteError::Log,
                ),
            ]
            &&& answered == app
            &&& ignored == Seq::<ActionView>::empty()
        }),
{
    let (sent, forward) = from_client(app, MessageView::Request(request), fresh_id);
    let after = AfterView::Request { original_id: request.id, new_id: fresh_id };
    let (waiting, _) = settled(sent, after, Ok(()));
    let (answered, written) = from_server(waiting, MessageView::Response(response), other_id);
    assert(waiting.id_map == app.id_map.insert(fresh_id, request.id));
    fresh_id_is_unused(app, last, fresh_id);
    assert(waiting.id_map.remove(fresh_id) =~= app.id_map);
    assert(id_text(response.id) == fresh_id);
}

/// A request of the server is answered once, under the identifier that the server gave it: the
/// response of the client under the generated identifier goes to the server with the original
/// one, and a second one is dropped.
pub proof fn server_request_is_answered_once(
    app: AppView,
    request: RequestView,
    fresh_id: Seq<char>,
    response: ResponseView,
    again: ResponseView,
    other_id: Seq<char>,
    last: Seq<char>,
)
    requires
        spent(app, last),
        comes_before(last, fresh_id),
        response.id == IdView::String(fresh_id),
        again.id == response.id,
    ensures
        ({
            let (waiting, written) = from_server(app, MessageView::Request(request), fresh_id);
            let (answered, forward) = from_client(
                waiting,
                MessageView::Response(response),
                other_id,
            );
            let (_, ignored) = from_client(answered, MessageView::Response(again), other_id);
            &&& written == seq![
                ActionView::Write(
                    MessageView::Request(
                        RequestView { id: IdView::String(fresh_id), ..request },
                    ),
                    OnWriteError::Log,
                ),
            ]
            &&& forward == seq![
                ActionView::Forward(
                    MessageView::Response(ResponseView { id: request.id, ..response }),
                    app.endpoint->0,
                    AfterView::Nothing,
                ),
            ]
            &&& answered == app
            &&& ignored == Seq::<ActionView>::empty()
        }),
{
    let (waiting, written) = from_server(app, MessageView::Request(request), fresh_id);
    assert(waiting.id_map == app.id_map.insert(fresh_id, request.id));
    fresh_id_is_unused(app, last, fresh_id);
    assert(waiting.id_map.remove(fresh_id) =~= app.id_map);
    assert(id_text(response.id) == fresh_id);
}

/// A request that could not be sent is answered with the error under the identifier that the
/// client gave it, and no later response reaches the client under the generated identifier.
pub proof fn unsent_request_is_refused(
    app: AppView,
    request: RequestView,
    fresh_id: Seq<char>,
    error: Seq<char>,
    late: ResponseView,
    other_id: Seq<char>,
    last: Seq<char>,
)
    requires
        spent(app, last),
        comes_before(last, fresh_id),
        is_relayed(app, request),
        late.id == IdView::String(fresh_id),
    ensures
        ({
            let (sent, _) = from_client(app, MessageView::Request(request), fresh_id);
            let after = AfterView::Request { original_id: request.id, new_id: fresh_id };
            let (refused, written) = settled(sent, after, Err(error));
            &&& refused == app
            &&& written == seq![
                ActionView::Write(
                    MessageView::Response(
                        send_error_reply(request.id, error),
                    ),
                    OnWriteError::Log,
                ),
            ]
            &&& from_server(refused, MessageView::Response(late), other_id) == (
                refused,
                Seq::<ActionView>::empty(),
            )
        }),
{
    fresh_id_is_unused(app, last, fresh_id);
}

/// A ping is answered while the server is not there: with an empty result, under its own
/// identifier, and without a change of the proxy.
pub proof fn ping_is_answered(app: AppView, request: RequestView, fresh_id: Seq<char>)
    requires
        is_held_back(app),
        request.method == "ping"@,
    ensures
        from_client(app, MessageView::Request(request), fresh_id) == (
            app,
            seq![
                ActionView::Write(
                    MessageView::Response(ping_reply(request.id)),
                    OnWriteError::Stop,
                ),
            ],
        ),
{
}

/// An event that gives back the original identifier of `key`.
pub open spec fn uses_id(event: EventView, key: Seq<char>) -> bool {
    match event {
        EventView::SSEEvent(SseEventView::Message(MessageView::Response(response))) => id_text(
            response.id,
        ) == key,
        EventView::IOEvent(MessageView::Response(response)) => id_text(response.id) == key,
        _ => false,
    }
}

/// No identifier is used twice: a new proxy waits for no answer, and what an event or a forward
/// puts into use was generated last or before.
pub proof fn ids_stay_spent(
    url: Seq<char>,
    max_time: Option<u64>,
    app: AppView,
    event: EventView,
    fresh: Fresh,
    after: AfterView,
    outcome: Result<(), Seq<char>>,
    last: Seq<char>,
)
    requires
        spent(app, last),
        comes_before(last, fresh.id),
    ensures
        spent(initial(url, max_time), last),
        !app.id_map.contains_key(fresh.id),
        spent(transition(app, event, fresh).0, fresh.id),
        (after matches AfterView::Request { new_id, .. } ==> not_later(new_id, last)) ==> spent(
            settled(app, after, outcome).0,
            last,
        ),
{
    fresh_id_is_unused(app, last, fresh.id);
}

/// What stands behind a generated identifier stays until a response uses it, whatever else
/// happens, unless the proxy gives up waiting for the server.
pub proof fn pending_requests_are_kept(
    app: AppView,
    event: EventView,
    fresh: Fresh,
    key: Seq<char>,
    original: IdView,
    last: Seq<char>,
)
    requires
        spent(app, last),
        comes_before(last, fresh.id),
        app.id_map.contains_pair(key, original),
        !uses_id(event, key),
        !(event is FailFlush && app.state is Disconnected),
    ensures
        transition(app, event, fresh).0.id_map.contains_pair(key, original),
{
    fresh_id_is_unused(app, last, fresh.id);
}

/// The buffer holds calls only.
pub open spec fn holds_requests(app: AppView) -> bool {
    forall|i: int| 0 <= i < app.in_buf.len() ==> #[trigger] app.in_buf[i] is Request
}

/// Only requests are kept for later, and what is kept stays, in its order, until it goes back
/// to the queue or is refused.
pub proof fn kept_calls_stay(app: AppView, event: EventView, fresh: Fresh)
    requires
        holds_requests(app),
    ensures
        holds_requests(transition(app, event, fresh).0),
        app.in_buf.is_prefix_of(transition(app, event, fresh).0.in_buf) || event is FlushInBuffer
            || (event is FailFlush && app.state is Disconnected),
{
    assert(app.in_buf.is_prefix_of(app.in_buf));
    match event {
        EventView::IOEvent(MessageView::Request(request)) => {
            let longer = app.in_buf.push(MessageView::Request(request));
            assert(app.in_buf.is_prefix_of(longer));
        },
        _ => {},
    }
}

/// After a reconnection every kept call goes back to the queue, once and in its order, and none
/// stays behind.
pub proof fn kept_calls_are_resumed(app: AppView, fresh: Fresh, i: int)
    requires
        0 <= i < app.in_buf.len(),
    ensures
        ({
            let (after, actions) = transition(app, EventView::FlushInBuffer, fresh);
            &&& after.in_buf.len() == 0
            &&& actions.len() == app.in_buf.len()
            &&& actions[i] == ActionView::Enqueue(EventView::IOEvent(app.in_buf[i]))
        }),
{
}

/// When the server does not come back in time every kept call is refused, once and in its
/// order, none stays behind, and no answer to an earlier request is expected any more.
pub proof fn kept_calls_are_refused(app: AppView, fresh: Fresh, i: int)
    requires
        app.state is Disconnected,
        holds_requests(app),
        0 <= i < app.in_buf.len(),
    ensures
        ({
            let (after, actions) = transition(app, EventView::FailFlush, fresh);
            &&& after.in_buf.len() == 0
            &&& after.id_map == Map::<Seq<char>, IdView>::empty()
            &&& after.buf_mode == BufferMode::Fail
            &&& actions.len() == app.in_buf.len()
            &&& actions[i] == ActionView::Write(
                MessageView::Response(disconnected_reply(app.in_buf[i]->Request_0.id)),
                OnWriteError::Log,
            )
        }),
{
    one_reply_per_request(app.in_buf, i);
}

/// The handshake of the client: its initialize request goes to the server as it is, the answer
/// comes back under the same identifier, with the protocol version that was asked for, and the
/// notification of the client completes the connection.
pub proof fn client_is_initialized(
    app: AppView,
    request: RequestView,
    response: ResponseView,
    notification: NotificationView,
    fresh_id: Seq<char>,
)
    requires
        app.state is WaitingForClientInit,
        request.method == "initialize"@,
        response.id == request.id,
        notification.method == "notifications/initialized"@,
    ensures
        ({
            let endpoint = app.endpoint->0;
            let (a1, forward) = from_client(app, MessageView::Request(request), fresh_id);
            let (a2, none) = settled(a1, AfterView::ClientInit(request), Ok(()));
            let (a3, written) = from_server(a2, MessageView::Response(response), fresh_id);
            let (a4, last) = from_client(a3, MessageView::Notification(notification), fresh_id);
            let (a5, flush) = settled(a4, AfterView::Handshake, Ok(()));
            &&& forward == seq![
                ActionView::Forward(
                    MessageView::Request(request),
                    endpoint,
                    AfterView::ClientInit(request),
                ),
            ]
            &&& none == Seq::<ActionView>::empty()
            &&& written == seq![
                ActionView::Write(
                    MessageView::Response(overridden(response, reported_version(a2))),
                    OnWriteError::Stop,
                ),
            ]
            &&& overridden(response, reported_version(a2)).id == request.id
            &&& last == seq![
                ActionView::Forward(
                    MessageView::Notification(notification),
                    endpoint,
                    AfterView::Handshake,
                ),
            ]
            &&& flush == seq![ActionView::Enqueue(EventView::FlushInBuffer)]
            &&& a5 == when_connected(AppView { init_message: Some(request), ..app })
        }),
{
}

/// A reconnection is invisible to the client: the stored initialize request is sent again, the
/// answer of the server is not written to the client, the proxy itself sends the notification
/// that ends the handshake, and in the end the proxy is connected with the calls that it had
/// kept and with the identifiers that it had given, and the calls are resumed.
pub proof fn reconnection_is_hidden(
    app: AppView,
    request: RequestView,
    fresh: Fresh,
    error: Seq<char>,
    announced: Seq<char>,
    response: ResponseView,
)
    requires
        app.init_message == Some(request),
        app.connect_tries < u32::MAX,
        response.id == request.id,
    ensures
        ({
            let endpoint = full_endpoint(app.url, announced);
            let (a1, _) = transition(app, EventView::SSEError(error), fresh);
            let (a2, connect) = transition(a1, EventView::Reconnect, fresh);
            let (a3, resend) = transition(
                a2,
                EventView::SSEEvent(SseEventView::Endpoint(announced)),
                fresh,
            );
            let (a4, none) = settled(a3, AfterView::InitResent(request.id), Ok(()));
            let (a5, fake) = transition(
                a4,
                EventView::SSEEvent(SseEventView::Message(MessageView::Response(response))),
                fresh,
            );
            let (a6, flush) = settled(a5, AfterView::Handshake, Ok(()));
            &&& connect == seq![ActionView::Connect(app.url)]
            &&& resend == seq![
                ActionView::Forward(
                    MessageView::Request(request),
                    endpoint,
                    AfterView::InitResent(request.id),
                ),
            ]
            &&& none == Seq::<ActionView>::empty()
            &&& fake == seq![
                ActionView::Forward(
                    MessageView::Notification(initialized()),
                    endpoint,
                    AfterView::Handshake,
                ),
            ]
            &&& flush == seq![ActionView::Enqueue(EventView::FlushInBuffer)]
            &&& a6 == when_connected(AppView { endpoint: Some(endpoint), ..app })
        }),
{
}

/// The initialize request of the client is kept for reconnections, whatever happens.
pub proof fn init_message_is_kept(
    app: AppView,
    event: EventView,
    fresh: Fresh,
    after: AfterView,
    outcome: Result<(), Seq<char>>,
)
    ensures
        transition(app, event, fresh).0.init_message == app.init_message,
        after !is ClientInit ==> settled(app, after, outcome).0.init_message == app.init_message,
{
}

/// The proxy gives up once the time for trying to reconnect is over, counted from the first
/// loss of the connection, and never where there is no limit.
pub proof fn gives_up_in_time(app: AppView, now: Instant, later: Instant, waited: u64)
    ensures
        ({
            let (first, _) = lost(app, now, 0);
            let (again, actions) = lost(first, later, waited);
            &&& again.disconnected_since == first.disconnected_since
            &&& first.disconnected_since is Some
            &&& actions.contains(ActionView::Stop(Some("Reconnect timeout exceeded"@))) <==> (
            app.max_disconnected_time matches Some(limit) && waited > limit)
        }),
{
    let (first, _) = lost(app, now, 0);
    let (again, actions) = lost(first, later, waited);
    let stop = ActionView::Stop(Some("Reconnect timeout exceeded"@));
    if too_long(again, waited) {
        assert(actions.last() == stop);
        assert(actions.contains(actions.last()));
    } else {
        assert forall|i: int| 0 <= i < actions.len() implies #[trigger] actions[i] != stop by {}
    }
}

/// As long as the proxy does not give up, a lost connection is tried again, after the seconds
/// that the number of failed attempts asks for.
pub proof fn lost_connection_is_retried(app: AppView, now: Instant, waited: u64)
    requires
        !too_long(lost(app, now, waited).0, waited),
    ensures
        lost(app, now, waited).1.last() == ActionView::Schedule(
            EventView::Reconnect,
            backoff(app.connect_tries as nat) as u64,
        ),
        lost(app, now, waited).0.state is Disconnected,
{
}

/// Where another protocol version is to be reported, the client sees it in place of the server's,
/// and everything else as the server wrote it; where none is, the client sees what the server
/// wrote.
pub proof fn client_sees_the_reported_version(
    app: AppView,
    response: ResponseView,
    members: Map<Seq<char>, JsonView>,
)
    requires
        response.result == Some(JsonView::Object(members)),
        members.contains_key("protocolVersion"@),
    ensures
        ({
            let seen = overridden(response, reported_version(app));
            let result = seen.result->0->Object_0;
            &&& seen == (ResponseView { result: Some(JsonView::Object(result)), ..response })
            &&& result.remove("protocolVersion"@) == members.remove("protocolVersion"@)
            &&& match reported_version(app) {
                Some(version) => result["protocolVersion"@] == JsonView::String(version),
                None => result == members,
            }
        }),
{
    if let Some(version) = reported_version(app) {
        assert(members.insert("protocolVersion"@, JsonView::String(version)).remove(
            "protocolVersion"@,
        ) =~= members.remove("protocolVersion"@));
    }
}

/// A given protocol version is reported before the one that the client asked for, and without
/// either nothing is changed.
pub proof fn given_version_comes_first(app: AppView)
    ensures
        app.override_protocol_version is Some ==> reported_version(app)
            == app.override_protocol_version,
        app.override_protocol_version is None && app.rewrite_protocol_version
            && app.init_message is Some ==> reported_version(app) == requested_version(
            app.init_message->0,
        ),
        app.override_protocol_version is None && !app.rewrite_protocol_version ==> reported_version(
            app,
        ) is None,
{
}

} // verus!
