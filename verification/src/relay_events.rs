//! What becomes of each message between client and server once there is a transport, told by the
//! members of the message.

use crate::members::{
    is_empty_list_for, is_initialized, is_kept_behind, is_notification, is_pong_for,
    is_refusal_of, is_request_under, is_response_under, is_response_with_version,
};
use crate::models::{
    id_text, reported_version, AppView, BufferMode, IdView, MessageView,
    NotificationView, RequestView, ResponseView, StateView,
};
use crate::relay::{
    all_replayed, client_step, emptied, given_up, handshake, replayed, send_settled, server_step,
    step_views, transport_lost, RelayStep, StepView,
};
use crate::replies::disconnected_replies;
use std::time::Instant;
use vstd::prelude::*;

verus! {

/// The message that is sent for a request of the client has the `jsonrpc`, `method` and `params`
/// of that request, and only its identifier is the fresh one, under which the one of the client
/// is remembered. The first initialize request is stored as it is, and its answer waited for;
/// nothing else changes.
pub proof fn client_request_is_sent(app: AppView, request: RequestView, fresh_id: Seq<char>)
    requires
        app.state !is Disconnected,
        request.method != "resources/list"@,
    ensures
        ({
            let (after, step) = client_step(app, MessageView::Request(request), fresh_id);
            let first = app.init_message is None && request.method == "initialize"@;
            &&& match step {
                StepView::Send(sent, original) => {
                    &&& is_request_under(sent, request, IdView::String(fresh_id))
                    &&& original is Some
                    &&& is_request_under(MessageView::Request(original->0), request, request.id)
                },
                _ => false,
            }
            &&& after == (AppView {
                id_map: app.id_map.insert(fresh_id, request.id),
                init_message: if first {
                    Some(request)
                } else {
                    app.init_message
                },
                state: if first {
                    StateView::WaitingForServerInit(request.id)
                } else {
                    app.state
                },
                ..app
            })
        }),
{
}

/// A request for the resources is answered with an empty list, in every state, and changes
/// nothing.
pub proof fn resources_are_none(app: AppView, request: RequestView, fresh_id: Seq<char>)
    requires
        request.method == "resources/list"@,
    ensures
        ({
            let (after, step) = client_step(app, MessageView::Request(request), fresh_id);
            &&& after == app
            &&& step is Write
            &&& is_empty_list_for(step->Write_0, request.id)
        }),
        ({
            let (after, step) = replayed(app, MessageView::Request(request), fresh_id);
            &&& after == app
            &&& step is Write
            &&& is_empty_list_for(step->Write_0, request.id)
        }),
{
}

/// While the proxy is disconnected, a ping of the client is answered. Any other request is put
/// behind those that wait, with all its members, where messages are stored, and refused under its
/// own identifier where they are not. Nothing else changes, and nothing is sent.
pub proof fn request_meets_a_disconnection(
    app: AppView,
    request: RequestView,
    fresh_id: Seq<char>,
)
    requires
        app.state is Disconnected,
        request.method != "resources/list"@,
    ensures
        ({
            let (after, step) = client_step(app, MessageView::Request(request), fresh_id);
            &&& request.method == "ping"@ ==> after == app && step is Write && is_pong_for(
                step->Write_0,
                request.id,
            )
            &&& request.method != "ping"@ && app.buf_mode is Store ==> {
                &&& step is Done
                &&& is_kept_behind(after.in_buf, app.in_buf, MessageView::Request(request))
                &&& after == (AppView { in_buf: after.in_buf, ..app })
            }
            &&& request.method != "ping"@ && app.buf_mode is Fail ==> after == app && step is Write
                && is_refusal_of(step->Write_0, request.id)
        }),
{
}

/// A notification of the client is sent as it is. The one that ends the handshake completes the
/// connection where it is waited for; nothing else changes.
pub proof fn client_notification_is_sent(
    app: AppView,
    notification: NotificationView,
    fresh_id: Seq<char>,
)
    requires
        app.state !is Disconnected,
    ensures
        ({
            let (after, step) = client_step(
                app,
                MessageView::Notification(notification),
                fresh_id,
            );
            &&& match step {
                StepView::Send(sent, original) => is_notification(sent, notification)
                    && original is None,
                _ => false,
            }
            &&& after == if notification.method == "notifications/initialized"@ && app.state
                is WaitingForClientInitialized {
                AppView {
                    state: StateView::Connected,
                    connect_tries: 0,
                    disconnected_since: None,
                    buf_mode: BufferMode::Store,
                    ..app
                }
            } else {
                app
            }
        }),
{
}

/// While the proxy is disconnected, a notification of the client is put behind the messages that
/// wait, where messages are stored, and dropped where they are not.
pub proof fn notification_meets_a_disconnection(
    app: AppView,
    notification: NotificationView,
    fresh_id: Seq<char>,
)
    requires
        app.state is Disconnected,
    ensures
        ({
            let message = MessageView::Notification(notification);
            let (after, step) = client_step(app, message, fresh_id);
            &&& step is Done
            &&& app.buf_mode is Store ==> is_kept_behind(after.in_buf, app.in_buf, message)
            &&& app.buf_mode is Fail ==> after.in_buf == app.in_buf
            &&& after == (AppView { in_buf: after.in_buf, ..app })
        }),
{
}

/// A response of the client to a request of the server is sent under the identifier that the
/// server gave, with its other members as they are, or waits so where the proxy is disconnected
/// and messages are stored. The identifier is then forgotten, and nothing else changes.
pub proof fn client_response_is_sent(
    app: AppView,
    response: ResponseView,
    fresh_id: Seq<char>,
)
    requires
        app.id_map.contains_key(id_text(response.id)),
    ensures
        ({
            let key = id_text(response.id);
            let (after, step) = client_step(app, MessageView::Response(response), fresh_id);
            &&& app.state !is Disconnected ==> {
                &&& match step {
                    StepView::Send(sent, original) => is_response_under(
                        sent,
                        response,
                        app.id_map[key],
                    ) && original is None,
                    _ => false,
                }
                &&& after.in_buf == app.in_buf
            }
            &&& app.state is Disconnected ==> step is Done
            &&& app.state is Disconnected && app.buf_mode is Store ==> {
                &&& is_kept_behind(after.in_buf, app.in_buf, after.in_buf.last())
                &&& is_response_under(after.in_buf.last(), response, app.id_map[key])
            }
            &&& app.state is Disconnected && app.buf_mode is Fail ==> after.in_buf == app.in_buf
            &&& after == (AppView {
                id_map: app.id_map.remove(key),
                in_buf: after.in_buf,
                ..app
            })
        }),
{
}

/// A response, of the client or of the server, that answers no request that was passed on is
/// dropped and changes nothing.
pub proof fn unknown_response_is_dropped(app: AppView, response: ResponseView, fresh_id: Seq<char>)
    requires
        !app.id_map.contains_key(id_text(response.id)),
    ensures
        client_step(app, MessageView::Response(response), fresh_id).0 == app,
        client_step(app, MessageView::Response(response), fresh_id).1 is Done,
        server_step(app, MessageView::Response(response), fresh_id).0 == app,
        server_step(app, MessageView::Response(response), fresh_id).1 is Done,
{
}

/// The message that is written for a request of the server has the `jsonrpc`, `method` and
/// `params` of that request, and only its identifier is the fresh one, under which the one of the
/// server is remembered. Nothing else changes.
pub proof fn server_request_is_written(app: AppView, request: RequestView, fresh_id: Seq<char>)
    ensures
        ({
            let (after, step) = server_step(app, MessageView::Request(request), fresh_id);
            &&& step is Write
            &&& is_request_under(step->Write_0, request, IdView::String(fresh_id))
            &&& after == (AppView { id_map: app.id_map.insert(fresh_id, request.id), ..app })
        }),
{
}

/// A notification of the server is written as it is, and changes nothing.
pub proof fn server_notification_is_written(
    app: AppView,
    notification: NotificationView,
    fresh_id: Seq<char>,
)
    ensures
        ({
            let (after, step) = server_step(
                app,
                MessageView::Notification(notification),
                fresh_id,
            );
            &&& step is Write
            &&& is_notification(step->Write_0, notification)
            &&& after == app
        }),
{
}

/// A response of the server is written under the identifier that the client gave, with its other
/// members as they are; the identifier is then forgotten. The answer to the initialize request of
/// the client shows the version that the client is to see, and the notification of the client is
/// waited for. The answer to the initialize request that the proxy sent again is not written:
/// the proxy ends the handshake instead.
pub proof fn server_response_is_written(app: AppView, response: ResponseView, fresh_id: Seq<char>)
    requires
        app.id_map.contains_key(id_text(response.id)),
    ensures
        ({
            let key = id_text(response.id);
            let original = app.id_map[key];
            let forgotten = AppView { id_map: app.id_map.remove(key), ..app };
            let (after, step) = server_step(app, MessageView::Response(response), fresh_id);
            if app.state == StateView::WaitingForServerInit(original) {
                &&& step is Write
                &&& is_response_with_version(
                    step->Write_0,
                    response,
                    original,
                    reported_version(app),
                )
                &&& after == (AppView {
                    state: StateView::WaitingForClientInitialized,
                    ..forgotten
                })
            } else if app.state == StateView::WaitingForServerInitHidden(original) {
                &&& step is Complete
                &&& is_initialized(step->Complete_0)
                &&& after == forgotten
            } else {
                &&& step is Write
                &&& is_response_under(step->Write_0, response, original)
                &&& after == forgotten
            }
        }),
{
}

/// Of the messages that waited, a request is sent with its `jsonrpc`, `method` and `params` under
/// its fresh identifier, under which the one of the client is remembered; a notification of
/// progress is dropped; and any other notification, and a response, is sent as it is.
pub proof fn waiting_message_is_replayed(app: AppView, message: MessageView, fresh_id: Seq<char>)
    requires
        message is Request ==> message->Request_0.method != "resources/list"@,
    ensures
        ({
            let (after, step) = replayed(app, message, fresh_id);
            match message {
                MessageView::Request(request) => {
                    &&& match step {
                        StepView::Send(sent, original) => {
                            &&& is_request_under(sent, request, IdView::String(fresh_id))
                            &&& original is Some
                            &&& is_request_under(
                                MessageView::Request(original->0),
                                request,
                                request.id,
                            )
                        },
                        _ => false,
                    }
                    &&& after == (AppView {
                        id_map: app.id_map.insert(fresh_id, request.id),
                        ..app
                    })
                },
                MessageView::Notification(notification) => {
                    &&& after == app
                    &&& if notification.method == "progress"@ || notification.method
                        == "notifications/progress"@ {
                        step is Done
                    } else {
                        match step {
                            StepView::Send(sent, original) => is_notification(sent, notification)
                                && original is None,
                            _ => false,
                        }
                    }
                },
                MessageView::Response(response) => {
                    &&& after == app
                    &&& match step {
                        StepView::Send(sent, original) => is_response_under(
                            sent,
                            response,
                            response.id,
                        ) && original is None,
                        _ => false,
                    }
                },
            }
        }),
{
}

/// The messages that waited are replayed one by one, each with its own fresh identifier: the
/// steps of a list with one message more are those of the list, and behind them the step of that
/// message.
pub proof fn replay_goes_on_message_by_message(
    app: AppView,
    messages: Seq<MessageView>,
    message: MessageView,
    fresh_ids: Seq<Seq<char>>,
    fresh_id: Seq<char>,
)
    requires
        fresh_ids.len() == messages.len(),
    ensures
        all_replayed(app, Seq::empty(), Seq::empty()).0 == app,
        all_replayed(app, Seq::empty(), Seq::empty()).1.len() == 0,
        ({
            let (before, steps) = all_replayed(app, messages, fresh_ids);
            let (after, more_steps) = all_replayed(
                app,
                messages.push(message),
                fresh_ids.push(fresh_id),
            );
            &&& steps.len() == messages.len()
            &&& more_steps.len() == steps.len() + 1
            &&& forall|i: int| 0 <= i < steps.len() ==> #[trigger] more_steps[i] == steps[i]
            &&& (after, more_steps[steps.len() as int]) == replayed(before, message, fresh_id)
        }),
{
    assert(messages.push(message).drop_last() =~= messages);
    lemma_same_replay(app, messages, fresh_ids, fresh_ids.push(fresh_id));
}

/// The replay depends on no identifier behind those of its messages, and has a step for each
/// message.
proof fn lemma_same_replay(
    app: AppView,
    messages: Seq<MessageView>,
    a: Seq<Seq<char>>,
    b: Seq<Seq<char>>,
)
    requires
        messages.len() <= a.len() <= b.len(),
        forall|i: int| 0 <= i < a.len() ==> #[trigger] a[i] == b[i],
    ensures
        all_replayed(app, messages, a) == all_replayed(app, messages, b),
        all_replayed(app, messages, a).1.len() == messages.len(),
    decreases messages.len(),
{
    if messages.len() > 0 {
        lemma_same_replay(app, messages.drop_last(), a, b);
        assert(a[messages.len() - 1] == b[messages.len() - 1]);
    }
}

/// The loss of the transport disconnects the proxy and takes the endpoint away. The time of the
/// loss is remembered, unless an earlier one is; everything else stays.
pub proof fn loss_disconnects(app: AppView, now: Instant)
    ensures
        ({
            let after = transport_lost(app, now);
            &&& after.state is Disconnected
            &&& after.endpoint is None
            &&& after.disconnected_since is Some
            &&& app.disconnected_since is Some ==> after.disconnected_since
                == app.disconnected_since
            &&& app.disconnected_since is None ==> after.disconnected_since->0 == now
            &&& after == (AppView {
                state: after.state,
                endpoint: after.endpoint,
                disconnected_since: after.disconnected_since,
                ..app
            })
        }),
{
}

/// A message that was sent changes nothing. For one that was not sent the transport is lost; a
/// request of the client among them then waits with all its members, is refused under its own
/// identifier, or is answered where it is a ping.
pub proof fn failed_send_is_a_loss(app: AppView, original: Option<RequestView>, now: Instant)
    ensures
        send_settled(app, original, true, now).0 == app,
        send_settled(app, original, true, now).1 is Done,
        ({
            let (after, step) = send_settled(app, original, false, now);
            let lost = transport_lost(app, now);
            match original {
                None => after == lost && step is Done,
                Some(request) => {
                    &&& request.method == "ping"@ ==> after == lost && step is Write
                        && is_pong_for(step->Write_0, request.id)
                    &&& request.method != "ping"@ && app.buf_mode is Store ==> {
                        &&& step is Done
                        &&& is_kept_behind(
                            after.in_buf,
                            app.in_buf,
                            MessageView::Request(request),
                        )
                        &&& after == (AppView { in_buf: after.in_buf, ..lost })
                    }
                    &&& request.method != "ping"@ && app.buf_mode is Fail ==> after == lost
                        && step is Write && is_refusal_of(step->Write_0, request.id)
                },
            }
        }),
{
}

/// A proxy that gives up while messages are stored refuses the requests that wait, keeps no
/// message and no identifier, and refuses from then on. Where messages are not stored, or none
/// waits, nothing is refused and nothing changes.
pub proof fn giving_up_refuses_what_waits(app: AppView)
    ensures
        ({
            let (after, replies) = given_up(app);
            if app.in_buf.len() > 0 && app.buf_mode is Store {
                &&& replies == disconnected_replies(app.in_buf)
                &&& after == (AppView {
                    in_buf: Seq::empty(),
                    id_map: Map::empty(),
                    buf_mode: BufferMode::Fail,
                    ..app
                })
            } else {
                &&& replies.len() == 0
                &&& after == app
            }
        }),
{
}

/// After a reconnection the stored initialize request is sent again with its `jsonrpc`, `method`
/// and `params` under a fresh identifier, and its answer is waited for, to be hidden from the
/// client. Nothing else changes but that the identifier is remembered.
pub proof fn stored_request_is_sent_again(
    app: AppView,
    request: RequestView,
    fresh_id: Seq<char>,
)
    requires
        app.init_message == Some(request),
        request.method != "resources/list"@,
    ensures
        ({
            let (after, step) = handshake(app, request, fresh_id);
            &&& match step {
                StepView::Send(sent, original) => {
                    &&& is_request_under(sent, request, IdView::String(fresh_id))
                    &&& original is Some
                    &&& is_request_under(MessageView::Request(original->0), request, request.id)
                },
                _ => false,
            }
            &&& after == (AppView {
                state: StateView::WaitingForServerInitHidden(request.id),
                id_map: app.id_map.insert(fresh_id, request.id),
                ..app
            })
        }),
{
}

/// Once the messages that waited are replayed, none waits any more, and of everything else only
/// the identifiers have changed.
pub proof fn nothing_waits_after_the_replay(
    app: AppView,
    messages: Seq<MessageView>,
    fresh_ids: Seq<Seq<char>>,
)
    ensures
        ({
            let after = all_replayed(emptied(app), messages, fresh_ids).0;
            &&& after.in_buf.len() == 0
            &&& after == (AppView { in_buf: Seq::empty(), id_map: after.id_map, ..app })
        }),
    decreases messages.len(),
{
    if messages.len() > 0 {
        nothing_waits_after_the_replay(app, messages.drop_last(), fresh_ids);
    }
}

/// The model of a step is of the kind of the step, and holds its messages.
pub proof fn step_is_modelled(step: RelayStep)
    ensures
        match step {
            RelayStep::Done => step@ is Done,
            RelayStep::Write(message) => step@ is Write && step@->Write_0 == message@,
            RelayStep::Send(message, original) => {
                &&& step@ is Send
                &&& step@->Send_0 == message@
                &&& step@->Send_1 is Some <==> original is Some
                &&& original is Some ==> step@->Send_1->0 == original->0@
            },
            RelayStep::Complete(message) => step@ is Complete && step@->Complete_0 == message@,
        },
{
}

/// The models of steps stand in the order of the steps.
pub proof fn steps_are_modelled_in_order(steps: Seq<RelayStep>)
    ensures
        step_views(steps).len() == steps.len(),
        forall|i: int| 0 <= i < steps.len() ==> #[trigger] step_views(steps)[i] == steps[i]@,
{
}

} // verus!
