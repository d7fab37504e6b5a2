//! What holds of the messages that pass the proxy, whatever messages come.

use crate::ids::{comes_before, fresh_id_is_unused, spent};
use crate::models::{
    id_text, when_connected, AppView, BufferMode, IdView, MessageView, RequestView, ResponseView,
    StateView,
};
use crate::relay::{
    all_replayed, asks_for_resources, client_step, handshake, is_progress_method, renamed,
    replayed, send_settled, server_step, to_client, transport_lost, while_disconnected,
    with_original_id, StepView,
};
use crate::replies::{disconnected_reply, initialized, ping_reply, resources_reply};
use std::time::Instant;
use vstd::prelude::*;

verus! {

/// A request for the resources is answered with the empty list, in every state, whether it has
/// just come or waited for a reconnection, and nothing else changes.
pub proof fn resources_are_answered_here(app: AppView, message: MessageView, fresh_id: Seq<char>)
    requires
        asks_for_resources(message),
    ensures
        client_step(app, message, fresh_id) == (
            app,
            StepView::Write(MessageView::Response(resources_reply(message->Request_0.id))),
        ),
        replayed(app, message, fresh_id) == client_step(app, message, fresh_id),
{
}

/// No request for the resources is ever sent to the server.
pub proof fn server_is_not_asked_for_resources(
    app: AppView,
    message: MessageView,
    fresh_id: Seq<char>,
)
    ensures
        client_step(app, message, fresh_id).1 matches StepView::Send(sent, _)
            ==> !asks_for_resources(sent),
        replayed(app, message, fresh_id).1 matches StepView::Send(sent, _) ==> !asks_for_resources(
            sent,
        ),
{
}

/// While the proxy is disconnected, nothing is sent.
pub proof fn nothing_is_sent_while_disconnected(
    app: AppView,
    message: MessageView,
    fresh_id: Seq<char>,
)
    requires
        app.state is Disconnected,
    ensures
        client_step(app, message, fresh_id).1 !is Send,
        client_step(app, message, fresh_id).0.state is Disconnected,
{
}

/// While the proxy is disconnected, a request is answered at once or kept, never both, and
/// never neither.
pub proof fn request_is_answered_or_kept(app: AppView, request: RequestView)
    ensures
        ({
            let message = MessageView::Request(request);
            let (after, step) = while_disconnected(app, message);
            if request.method == "ping"@ {
                after == app && step == StepView::Write(
                    MessageView::Response(ping_reply(request.id)),
                )
            } else if app.buf_mode == BufferMode::Store {
                after.in_buf == app.in_buf.push(message) && step == StepView::Done
            } else {
                after == app && step == StepView::Write(
                    MessageView::Response(disconnected_reply(request.id)),
                )
            }
        }),
{
}

/// A request of the client that could not be sent is answered or kept as one that came while the
/// proxy was disconnected.
pub proof fn unsent_request_is_not_lost(app: AppView, request: RequestView, now: Instant)
    ensures
        send_settled(app, Some(request), false, now) == while_disconnected(
            transport_lost(app, now),
            MessageView::Request(request),
        ),
        send_settled(app, Some(request), false, now).0.state is Disconnected,
{
}

/// The answer to a request that was sent carries the identifier that the client gave, and it is
/// passed on once: a second answer under the same identifier is dropped.
pub proof fn relayed_request_is_answered_once(
    app: AppView,
    request: RequestView,
    fresh_id: Seq<char>,
    response: ResponseView,
    next_id: Seq<char>,
    last: Seq<char>,
)
    requires
        spent(app, last),
        comes_before(last, fresh_id),
        app.state !is Disconnected,
        !asks_for_resources(MessageView::Request(request)),
        response.id == IdView::String(fresh_id),
    ensures
        ({
            let (asked, step) = client_step(app, MessageView::Request(request), fresh_id);
            let answer = MessageView::Response(response);
            let (answered, _) = server_step(asked, answer, next_id);
            &&& step == StepView::Send(renamed(request, fresh_id), Some(request))
            &&& server_step(asked, answer, next_id) == to_client(
                with_original_id(asked, answer).0,
                MessageView::Response(ResponseView { id: request.id, ..response }),
                next_id,
            )
            &&& asked.state != StateView::WaitingForServerInit(request.id) && asked.state
                != StateView::WaitingForServerInitHidden(request.id) ==> server_step(
                asked,
                answer,
                next_id,
            ).1 == StepView::Write(
                MessageView::Response(ResponseView { id: request.id, ..response }),
            )
            &&& server_step(answered, answer, next_id) == (answered, StepView::Done)
            &&& answered.id_map == app.id_map
        }),
{
    fresh_id_is_unused(app, last, fresh_id);
    assert(app.id_map.insert(fresh_id, request.id).remove(fresh_id) =~= app.id_map);
}

/// The answer of the client to a request of the server carries the identifier that the server
/// gave, and it is passed on once.
pub proof fn relayed_server_request_is_answered_once(
    app: AppView,
    request: RequestView,
    fresh_id: Seq<char>,
    response: ResponseView,
    next_id: Seq<char>,
    last: Seq<char>,
)
    requires
        spent(app, last),
        comes_before(last, fresh_id),
        app.state !is Disconnected,
        response.id == IdView::String(fresh_id),
    ensures
        ({
            let (asked, step) = server_step(app, MessageView::Request(request), fresh_id);
            let answer = MessageView::Response(response);
            let (answered, sent) = client_step(asked, answer, next_id);
            &&& step == StepView::Write(renamed(request, fresh_id))
            &&& sent == StepView::Send(
                MessageView::Response(ResponseView { id: request.id, ..response }),
                None,
            )
            &&& client_step(answered, answer, next_id) == (answered, StepView::Done)
            &&& answered == app
        }),
{
    fresh_id_is_unused(app, last, fresh_id);
    assert(app.id_map.insert(fresh_id, request.id).remove(fresh_id) =~= app.id_map);
}

/// No identifier is used twice: what a message of either side puts into use was not in use before.
pub proof fn relayed_ids_stay_spent(
    app: AppView,
    message: MessageView,
    fresh_id: Seq<char>,
    last: Seq<char>,
)
    requires
        spent(app, last),
        comes_before(last, fresh_id),
    ensures
        !app.id_map.contains_key(fresh_id),
        spent(client_step(app, message, fresh_id).0, fresh_id),
        spent(server_step(app, message, fresh_id).0, fresh_id),
        spent(replayed(app, message, fresh_id).0, fresh_id),
{
    fresh_id_is_unused(app, last, fresh_id);
}

/// What stands behind a generated identifier stays until a response uses it, whatever message
/// comes.
pub proof fn relayed_requests_are_kept(
    app: AppView,
    message: MessageView,
    fresh_id: Seq<char>,
    key: Seq<char>,
    original: IdView,
    last: Seq<char>,
)
    requires
        spent(app, last),
        comes_before(last, fresh_id),
        app.id_map.contains_pair(key, original),
        message matches MessageView::Response(response) ==> id_text(response.id) != key,
    ensures
        client_step(app, message, fresh_id).0.id_map.contains_pair(key, original),
        server_step(app, message, fresh_id).0.id_map.contains_pair(key, original),
        replayed(app, message, fresh_id).0.id_map.contains_pair(key, original),
{
    fresh_id_is_unused(app, last, fresh_id);
}

/// What a message that waited turns into does not depend on the messages before it.
proof fn lemma_replayed_step(app: AppView, other: AppView, message: MessageView, id: Seq<char>)
    ensures
        replayed(app, message, id).1 == replayed(other, message, id).1,
{
}

/// After a reconnection the messages that waited are sent or answered one by one, in the order in
/// which they came, and nothing but the remembered identifiers changes.
pub proof fn waiting_messages_are_replayed_in_order(
    app: AppView,
    messages: Seq<MessageView>,
    fresh_ids: Seq<Seq<char>>,
)
    ensures
        ({
            let (after, steps) = all_replayed(app, messages, fresh_ids);
            &&& steps.len() == messages.len()
            &&& forall|i: int|
                0 <= i < messages.len() ==> #[trigger] steps[i] == replayed(
                    app,
                    messages[i],
                    fresh_ids[i],
                ).1
            &&& after == (AppView { id_map: after.id_map, ..app })
        }),
    decreases messages.len(),
{
    if messages.len() > 0 {
        waiting_messages_are_replayed_in_order(app, messages.drop_last(), fresh_ids);
        let before = all_replayed(app, messages.drop_last(), fresh_ids).0;
        lemma_replayed_step(before, app, messages.last(), fresh_ids[messages.len() - 1]);
    }
}

/// After a reconnection every message that waited and is neither a request for the resources nor a
/// notification of progress is sent: a request under its fresh identifier, anything else as it is.
pub proof fn waiting_messages_are_sent(
    app: AppView,
    messages: Seq<MessageView>,
    fresh_ids: Seq<Seq<char>>,
    i: int,
)
    requires
        0 <= i < messages.len(),
        !asks_for_resources(messages[i]),
        messages[i] matches MessageView::Notification(notification) ==> !is_progress_method(
            notification.method,
        ),
    ensures
        all_replayed(app, messages, fresh_ids).1[i] == match messages[i] {
            MessageView::Request(request) => StepView::Send(
                renamed(request, fresh_ids[i]),
                Some(request),
            ),
            other => StepView::Send(other, None),
        },
{
    waiting_messages_are_replayed_in_order(app, messages, fresh_ids);
}

/// After a reconnection the identifier of each request that waited and was sent is remembered
/// under the fresh one, as far as the fresh ones are different from each other.
pub proof fn replayed_requests_are_remembered(
    app: AppView,
    messages: Seq<MessageView>,
    fresh_ids: Seq<Seq<char>>,
    i: int,
)
    requires
        fresh_ids.len() == messages.len(),
        fresh_ids.no_duplicates(),
        0 <= i < messages.len(),
        messages[i] is Request,
        !asks_for_resources(messages[i]),
    ensures
        ({
            let request = messages[i]->Request_0;
            let (after, steps) = all_replayed(app, messages, fresh_ids);
            &&& steps[i] == StepView::Send(renamed(request, fresh_ids[i]), Some(request))
            &&& after.id_map.contains_pair(fresh_ids[i], request.id)
        }),
{
    waiting_messages_are_replayed_in_order(app, messages, fresh_ids);
    lemma_remembered(app, messages, fresh_ids, i);
}

proof fn lemma_remembered(
    app: AppView,
    messages: Seq<MessageView>,
    fresh_ids: Seq<Seq<char>>,
    i: int,
)
    requires
        fresh_ids.len() >= messages.len(),
        fresh_ids.no_duplicates(),
        0 <= i < messages.len(),
        messages[i] is Request,
        !asks_for_resources(messages[i]),
    ensures
        all_replayed(app, messages, fresh_ids).0.id_map.contains_pair(
            fresh_ids[i],
            messages[i]->Request_0.id,
        ),
    decreases messages.len(),
{
    let last = messages.len() - 1;
    if i < last {
        lemma_remembered(app, messages.drop_last(), fresh_ids, i);
        assert(fresh_ids[i] != fresh_ids[last]);
    }
}

/// The handshake after a reconnection is not seen by the client: the stored request is sent
/// under a fresh identifier, and its answer is not written to the client but completes the
/// handshake.
pub proof fn handshake_is_hidden(
    app: AppView,
    request: RequestView,
    fresh_id: Seq<char>,
    response: ResponseView,
    next_id: Seq<char>,
)
    requires
        app.init_message == Some(request),
        request.method == "initialize"@,
        response.id == IdView::String(fresh_id),
    ensures
        ({
            let (asked, step) = handshake(app, request, fresh_id);
            &&& step == StepView::Send(renamed(request, fresh_id), Some(request))
            &&& asked.state == StateView::WaitingForServerInitHidden(request.id)
            &&& server_step(asked, MessageView::Response(response), next_id).1
                == StepView::Complete(MessageView::Notification(initialized()))
        }),
{
    reveal_strlit("initialize");
    reveal_strlit("resources/list");
    assert("initialize"@.len() != "resources/list"@.len());
}

/// The initialize request of the client is stored once and never replaced.
pub proof fn stored_request_is_kept(
    app: AppView,
    request: RequestView,
    message: MessageView,
    fresh_id: Seq<char>,
    now: Instant,
)
    requires
        app.init_message == Some(request),
    ensures
        client_step(app, message, fresh_id).0.init_message == Some(request),
        server_step(app, message, fresh_id).0.init_message == Some(request),
        replayed(app, message, fresh_id).0.init_message == Some(request),
        transport_lost(app, now).init_message == Some(request),
{
}

/// The stored request is an initialize request, and where an answer is waited for, it is the
/// answer to the stored request.
pub open spec fn waits_for_stored(app: AppView) -> bool {
    &&& app.init_message matches Some(request) ==> request.method == "initialize"@
    &&& match app.state {
        StateView::WaitingForServerInit(id) | StateView::WaitingForServerInitHidden(id) => {
            app.init_message is Some && app.init_message->0.id == id
        },
        _ => true,
    }
}

/// Whatever comes, an answer is waited for only as the answer to the stored initialize request.
pub proof fn only_the_stored_request_is_waited_for(
    app: AppView,
    message: MessageView,
    fresh_id: Seq<char>,
    now: Instant,
)
    requires
        waits_for_stored(app),
    ensures
        waits_for_stored(client_step(app, message, fresh_id).0),
        waits_for_stored(server_step(app, message, fresh_id).0),
        waits_for_stored(replayed(app, message, fresh_id).0),
        app.init_message matches Some(request) ==> waits_for_stored(
            handshake(app, request, fresh_id).0,
        ),
        waits_for_stored(transport_lost(app, now)),
        waits_for_stored(when_connected(app)),
{
}

/// However often the transport is lost, the time of the disconnection is the one of the first
/// loss.
pub proof fn first_loss_counts(app: AppView, first: Instant, second: Instant)
    ensures
        transport_lost(app, first).disconnected_since is Some,
        transport_lost(transport_lost(app, first), second) == transport_lost(app, first),
        app.disconnected_since is None ==> transport_lost(app, first).disconnected_since == Some(
            first,
        ),
{
}

} // verus!
