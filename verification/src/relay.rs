//! What the proxy does with the messages of a client once it has a transport to the server: the
//! identifiers, the messages that wait for a reconnection, and the handshake after it.

use crate::connection::backoff;
use crate::ids::{
    comes_before, fresh_id_is_unused, generate_id, generate_ids, generated_behind, id_texts,
    is_uuid_text, not_later, spent, GeneratedId,
};
use crate::models::{
    id_text, message_views, reported_version, too_long, when_connected, AppState, AppView,
    BufferMode, IdView, JSONRPCMessage, JSONRPCNotification, JSONRPCRequest, JSONRPCResponse,
    MessageView, NumberOrString, ProxyState, RequestView, ResponseView, StateView,
};
use crate::proxy::abandoned;
use crate::replies::{
    disconnected_replies, disconnected_reply, initialized, initialized_notification, overridden,
    override_version, ping_reply, reply_disconnected, reply_no_resources, reply_ping,
    reply_send_error, resources_reply, send_error_reply,
};
use crate::text;
use std::time::Instant;
use vstd::prelude::*;

verus! {

/// What is to be done with a message.
#[derive(Debug, PartialEq, Eq)]
pub enum RelayStep {
    /// Nothing.
    Done,
    /// Write the message to the client.
    Write(JSONRPCMessage),
    /// Send the message to the server, and say how that went. Behind a request under a fresh
    /// identifier stands the request of the client.
    Send(JSONRPCMessage, Option<JSONRPCRequest>),
    /// Send the message to the server; with it the handshake is complete.
    Complete(JSONRPCMessage),
}

/// The model of what is to be done with a message.
pub enum StepView {
    Done,
    Write(MessageView),
    Send(MessageView, Option<RequestView>),
    Complete(MessageView),
}

impl View for RelayStep {
    type V = StepView;

    open spec fn view(&self) -> StepView {
        match self {
            RelayStep::Done => StepView::Done,
            RelayStep::Write(message) => StepView::Write(message@),
            RelayStep::Send(message, original) => StepView::Send(
                message@,
                match original {
                    Some(request) => Some(request@),
                    None => None,
                },
            ),
            RelayStep::Complete(message) => StepView::Complete(message@),
        }
    }
}

/// The models of steps, in their order.
pub open spec fn step_views(steps: Seq<RelayStep>) -> Seq<StepView> {
    steps.map_values(|s: RelayStep| s@)
}

/// A request for the resources, which the proxy itself answers.
pub open spec fn asks_for_resources(message: MessageView) -> bool {
    message matches MessageView::Request(request) && request.method == "resources/list"@
}

/// The request under a fresh identifier.
pub open spec fn renamed(request: RequestView, fresh_id: Seq<char>) -> MessageView {
    MessageView::Request(RequestView { id: IdView::String(fresh_id), ..request })
}

/// A message under the identifier that the other side gave, where it is a response, or nothing
/// where it is a response under an unknown identifier.
pub open spec fn with_original_id(app: AppView, message: MessageView) -> (
    AppView,
    Option<MessageView>,
) {
    match message {
        MessageView::Response(response) => {
            let key = id_text(response.id);
            if app.id_map.contains_key(key) {
                (
                    AppView { id_map: app.id_map.remove(key), ..app },
                    Some(
                        MessageView::Response(ResponseView { id: app.id_map[key], ..response }),
                    ),
                )
            } else {
                (app, None)
            }
        },
        _ => (app, Some(message)),
    }
}

/// A message of the client while the proxy is disconnected: a ping is answered; any other
/// message is kept in buffer mode `Store`; in buffer mode `Fail` a request is refused and
/// anything else dropped.
pub open spec fn while_disconnected(app: AppView, message: MessageView) -> (AppView, StepView) {
    match message {
        MessageView::Request(request) if request.method == "ping"@ => (
            app,
            StepView::Write(MessageView::Response(ping_reply(request.id))),
        ),
        _ if app.buf_mode == BufferMode::Store => (
            AppView { in_buf: app.in_buf.push(message), ..app },
            StepView::Done,
        ),
        MessageView::Request(request) => (
            app,
            StepView::Write(MessageView::Response(disconnected_reply(request.id))),
        ),
        _ => (app, StepView::Done),
    }
}

/// The first initialize request is stored, and its answer waited for; the notification that
/// ends the handshake completes the connection where it is waited for.
pub open spec fn noted(app: AppView, message: MessageView) -> AppView {
    match message {
        MessageView::Request(request) if app.init_message is None && request.method
            == "initialize"@ => AppView {
            init_message: Some(request),
            state: StateView::WaitingForServerInit(request.id),
            ..app
        },
        MessageView::Notification(notification) if notification.method
            == "notifications/initialized"@ && app.state is WaitingForClientInitialized =>
        when_connected(app),
        _ => app,
    }
}

/// A message that goes to the server: a request under a fresh identifier, for which the one of
/// the client is remembered.
pub open spec fn sent(app: AppView, message: MessageView, fresh_id: Seq<char>) -> (
    AppView,
    StepView,
) {
    match message {
        MessageView::Request(request) => (
            AppView { id_map: app.id_map.insert(fresh_id, request.id), ..app },
            StepView::Send(renamed(request, fresh_id), Some(request)),
        ),
        _ => (app, StepView::Send(message, None)),
    }
}

/// A message of the client.
pub open spec fn client_step(app: AppView, message: MessageView, fresh_id: Seq<char>) -> (
    AppView,
    StepView,
) {
    if asks_for_resources(message) {
        (
            app,
            StepView::Write(MessageView::Response(resources_reply(message->Request_0.id))),
        )
    } else {
        match with_original_id(app, message) {
            (app, None) => (app, StepView::Done),
            (app, Some(message)) => if app.state is Disconnected {
                while_disconnected(app, message)
            } else {
                sent(noted(app, message), message, fresh_id)
            },
        }
    }
}

/// The transport is lost. The time of the disconnection stays the one of the first loss.
pub open spec fn transport_lost(app: AppView, now: Instant) -> AppView {
    AppView {
        state: StateView::Disconnected,
        endpoint: None,
        disconnected_since: Some(
            match app.disconnected_since {
                Some(since) => since,
                None => now,
            },
        ),
        ..app
    }
}

/// A message was sent to the server, or was not. A request of the client that was not sent is
/// treated as one that came after the loss of the transport.
pub open spec fn send_settled(
    app: AppView,
    original: Option<RequestView>,
    success: bool,
    now: Instant,
) -> (AppView, StepView) {
    if success {
        (app, StepView::Done)
    } else {
        match original {
            Some(request) => while_disconnected(
                transport_lost(app, now),
                MessageView::Request(request),
            ),
            None => (transport_lost(app, now), StepView::Done),
        }
    }
}

/// The methods of the notifications of progress.
pub open spec fn is_progress_method(method: Seq<char>) -> bool {
    method == "progress"@ || method == "notifications/progress"@
}

/// A notification of progress is sent.
pub open spec fn sends_progress(step: StepView) -> bool {
    step matches StepView::Send(MessageView::Notification(notification), _)
        && is_progress_method(notification.method)
}

/// A message that waited for the reconnection.
pub open spec fn replayed(app: AppView, message: MessageView, fresh_id: Seq<char>) -> (
    AppView,
    StepView,
) {
    match message {
        MessageView::Request(request) if request.method == "resources/list"@ => (
            app,
            StepView::Write(MessageView::Response(resources_reply(request.id))),
        ),
        MessageView::Notification(notification) if is_progress_method(notification.method) => (
            app,
            StepView::Done,
        ),
        _ => sent(app, message, fresh_id),
    }
}

/// No message waits for a reconnection any more.
pub open spec fn emptied(app: AppView) -> AppView {
    AppView { in_buf: Seq::empty(), ..app }
}

/// The messages that waited for the reconnection, one after the other, each with a fresh
/// identifier.
pub open spec fn all_replayed(
    app: AppView,
    messages: Seq<MessageView>,
    fresh_ids: Seq<Seq<char>>,
) -> (AppView, Seq<StepView>)
    decreases messages.len(),
{
    if messages.len() == 0 {
        (app, Seq::empty())
    } else {
        let (before, steps) = all_replayed(app, messages.drop_last(), fresh_ids);
        let (after, step) = replayed(before, messages.last(), fresh_ids[messages.len() - 1]);
        (after, steps.push(step))
    }
}

/// No answer is waited for under any of the identifiers.
pub open spec fn are_unused(app: AppView, ids: Seq<Seq<char>>) -> bool {
    forall|i: int| 0 <= i < ids.len() ==> !app.id_map.contains_key(#[trigger] ids[i])
}

/// Identifiers that are generated behind all that are in use are not in use, and once the messages
/// that waited are replayed with them, none that is in use was generated later.
proof fn lemma_replayed_ids(
    app: AppView,
    messages: Seq<MessageView>,
    ids: Seq<Seq<char>>,
    first: Seq<char>,
    last: Seq<char>,
)
    requires
        ids.len() == messages.len(),
        generated_behind(ids, first, last),
        spent(app, first),
    ensures
        are_unused(app, ids),
        spent(all_replayed(app, messages, ids).0, last),
{
    assert forall|i: int| 0 <= i < ids.len() implies !app.id_map.contains_key(
        #[trigger] ids[i],
    ) by {
        fresh_id_is_unused(app, first, ids[i]);
    }
    lemma_replayed_keys(app, messages, ids);
    let after = all_replayed(app, messages, ids).0;
    assert forall|id: Seq<char>| #[trigger] after.id_map.contains_key(id) implies not_later(
        id,
        last,
    ) by {
        if ids.len() > 0 {
            let end = ids.len() - 1;
            if app.id_map.contains_key(id) {
                fresh_id_is_unused(app, first, ids[end]);
            } else {
                let i = choose|i: int| 0 <= i < messages.len() && ids[i] == id;
                if i < end {
                    assert(comes_before(ids[i], ids[end]));
                }
            }
        }
    }
}

/// The identifiers that are in use after the replay were in use before, or are fresh ones.
proof fn lemma_replayed_keys(app: AppView, messages: Seq<MessageView>, ids: Seq<Seq<char>>)
    ensures
        forall|id: Seq<char>| #[trigger]
            all_replayed(app, messages, ids).0.id_map.contains_key(id) ==> app.id_map.contains_key(
                id,
            ) || exists|i: int| 0 <= i < messages.len() && ids[i] == id,
    decreases messages.len(),
{
    if messages.len() > 0 {
        lemma_replayed_keys(app, messages.drop_last(), ids);
        let before = all_replayed(app, messages.drop_last(), ids).0;
        let after = all_replayed(app, messages, ids).0;
        let end = messages.len() - 1;
        assert forall|id: Seq<char>| #[trigger] after.id_map.contains_key(id)
            && !app.id_map.contains_key(id) implies exists|i: int|
            0 <= i < messages.len() && ids[i] == id by {
            if before.id_map.contains_key(id) {
                let i = choose|i: int| 0 <= i < end && ids[i] == id;
                assert(ids[i] == id);
            } else {
                assert(ids[end] == id);
            }
        }
    }
}

/// The proxy gives up: the requests that still wait are refused.
pub open spec fn given_up(app: AppView) -> (AppView, Seq<MessageView>) {
    if app.in_buf.len() > 0 && app.buf_mode == BufferMode::Store {
        (abandoned(app), disconnected_replies(app.in_buf))
    } else {
        (app, Seq::empty())
    }
}

/// The handshake after a reconnection: the stored initialize request is sent again.
pub open spec fn handshake(app: AppView, request: RequestView, fresh_id: Seq<char>) -> (
    AppView,
    StepView,
) {
    client_step(
        AppView { state: StateView::WaitingForServerInitHidden(request.id), ..app },
        MessageView::Request(request),
        fresh_id,
    )
}

/// A message of the server that goes to the client, a request under a fresh identifier. The
/// answer to the initialize request is written to the client, unless the request was sent again
/// by the proxy: then the proxy completes the handshake.
pub open spec fn to_client(app: AppView, message: MessageView, fresh_id: Seq<char>) -> (
    AppView,
    StepView,
) {
    match message {
        MessageView::Request(request) => (
            AppView { id_map: app.id_map.insert(fresh_id, request.id), ..app },
            StepView::Write(renamed(request, fresh_id)),
        ),
        MessageView::Response(response) => if app.state == StateView::WaitingForServerInit(
            response.id,
        ) {
            (
                AppView { state: StateView::WaitingForClientInitialized, ..app },
                StepView::Write(
                    MessageView::Response(overridden(response, reported_version(app))),
                ),
            )
        } else if app.state == StateView::WaitingForServerInitHidden(response.id) {
            (app, StepView::Complete(MessageView::Notification(initialized())))
        } else {
            (app, StepView::Write(message))
        },
        _ => (app, StepView::Write(message)),
    }
}

/// A message of the server. A response under an unknown identifier is dropped.
pub open spec fn server_step(app: AppView, message: MessageView, fresh_id: Seq<char>) -> (
    AppView,
    StepView,
) {
    match with_original_id(app, message) {
        (app, None) => (app, StepView::Done),
        (app, Some(message)) => to_client(app, message, fresh_id),
    }
}

/// The notification is one of progress.
pub fn is_progress(notification: &JSONRPCNotification) -> (r: bool)
    ensures
        r == is_progress_method(notification@.method),
{
    text::same(notification.method.as_str(), "progress") || text::same(
        notification.method.as_str(),
        "notifications/progress",
    )
}

/// The error response for a request that waited for the reconnection and could not be sent.
pub fn reply_transport_error(request: &JSONRPCRequest, error: &str) -> (r: JSONRPCResponse)
    ensures
        r@ == send_error_reply(request@.id, "Transport error: "@ + error@),
{
    reply_send_error(&request.id, "Transport error: ".to_owned().concat(error))
}

/// A message that waited for the reconnection was sent, or was not: a request that was not is
/// answered with the error, and nothing follows for anything else. The connection is not given up
/// for it, and the messages behind it are still sent.
pub fn replay_settled(original: Option<JSONRPCRequest>, outcome: Result<(), String>) -> (r:
    RelayStep)
    ensures
        r@ == match (original, outcome) {
            (Some(request), Err(error)) => StepView::Write(
                MessageView::Response(
                    send_error_reply(request@.id, "Transport error: "@ + error@),
                ),
            ),
            _ => StepView::Done,
        },
{
    match (original, outcome) {
        (Some(request), Err(error)) => RelayStep::Write(
            JSONRPCMessage::Response(reply_transport_error(&request, error.as_str())),
        ),
        _ => RelayStep::Done,
    }
}

impl AppState {
    /// A response under the identifier that the other side gave, any other message as it is, or
    /// nothing for a response under an unknown identifier.
    pub fn map_client_response_error_id(&mut self, message: JSONRPCMessage) -> (r: Option<
        JSONRPCMessage,
    >)
        ensures
            (
                final(self)@,
                match r {
                    Some(message) => Some(message@),
                    None => None,
                },
            ) == with_original_id(old(self)@, message@),
    {
        match message {
            JSONRPCMessage::Response(response) => {
                let mut response = response;
                let ghost before = self@;
                match self.take_original_id(&response.id) {
                    Some(original_id) => {
                        response.id = original_id;
                        Some(JSONRPCMessage::Response(response))
                    },
                    None => {
                        assert(before.id_map.remove(id_text(response.id@)) =~= before.id_map);
                        None
                    },
                }
            },
            other => Some(other),
        }
    }

    /// A message of the client while the proxy is disconnected, or the message back where the
    /// proxy is not disconnected.
    pub fn maybe_handle_message_while_disconnected(&mut self, message: JSONRPCMessage) -> (r:
        Result<RelayStep, JSONRPCMessage>)
        ensures
            match r {
                Ok(step) => old(self)@.state is Disconnected && (final(self)@, step@)
                    == while_disconnected(old(self)@, message@),
                Err(same) => old(self)@.state !is Disconnected && final(self)@ == old(self)@
                    && same@ == message@,
            },
    {
        match &self.state {
            ProxyState::Disconnected => {},
            _ => {
                return Err(message);
            },
        }
        if let JSONRPCMessage::Request(request) = &message {
            if text::same(request.method.as_str(), "ping") {
                return Ok(RelayStep::Write(JSONRPCMessage::Response(reply_ping(&request.id))));
            }
        }
        if self.buf_mode == BufferMode::Store {
            let ghost before = self@;
            let ghost kept = message@;
            self.in_buf.push(message);
            assert(self@.in_buf =~= before.in_buf.push(kept));
            return Ok(RelayStep::Done);
        }
        match &message {
            JSONRPCMessage::Request(request) => Ok(
                RelayStep::Write(JSONRPCMessage::Response(reply_disconnected(&request.id))),
            ),
            _ => Ok(RelayStep::Done),
        }
    }

    /// The transport is lost.
    pub fn handle_fatal_transport_error(&mut self, now: Instant)
        ensures
            final(self)@ == transport_lost(old(self)@, now),
    {
        self.state = ProxyState::Disconnected;
        self.endpoint = None;
        if self.disconnected_since.is_none() {
            self.disconnected_since = Some(now);
        }
    }

    /// A message goes to the server.
    fn send(&mut self, message: JSONRPCMessage, fresh_id: String) -> (r: RelayStep)
        ensures
            (final(self)@, r@) == sent(old(self)@, message@, fresh_id@),
    {
        match message {
            JSONRPCMessage::Request(request) => {
                let mut renamed = request.clone();
                self.remember_id(fresh_id.clone(), request.id.clone());
                renamed.id = NumberOrString::String(text::shared(fresh_id));
                RelayStep::Send(JSONRPCMessage::Request(renamed), Some(request))
            },
            other => RelayStep::Send(other, None),
        }
    }

    /// The message is noted where it is part of the handshake.
    fn note(&mut self, message: &JSONRPCMessage)
        ensures
            final(self)@ == noted(old(self)@, message@),
    {
        match message {
            JSONRPCMessage::Request(request) => {
                if self.init_message.is_none() && text::same(
                    request.method.as_str(),
                    "initialize",
                ) {
                    self.init_message = Some(request.clone());
                    self.state = ProxyState::WaitingForServerInit(request.id.clone());
                }
            },
            JSONRPCMessage::Notification(notification) => {
                let expected = match &self.state {
                    ProxyState::WaitingForClientInitialized => true,
                    _ => false,
                };
                if expected && text::same(
                    notification.method.as_str(),
                    "notifications/initialized",
                ) {
                    self.connected();
                }
            },
            _ => {},
        }
    }

    /// Processes a message of the client, given an identifier for a request.
    pub fn process_client_request_with(
        &mut self,
        message: JSONRPCMessage,
        fresh_id: String,
    ) -> (r: RelayStep)
        ensures
            (final(self)@, r@) == client_step(old(self)@, message@, fresh_id@),
    {
        if let JSONRPCMessage::Request(request) = &message {
            if text::same(request.method.as_str(), "resources/list") {
                return RelayStep::Write(
                    JSONRPCMessage::Response(reply_no_resources(&request.id)),
                );
            }
        }
        let message = match self.map_client_response_error_id(message) {
            Some(message) => message,
            None => {
                return RelayStep::Done;
            },
        };
        match self.maybe_handle_message_while_disconnected(message) {
            Ok(step) => step,
            Err(message) => {
                self.note(&message);
                self.send(message, fresh_id)
            },
        }
    }

    /// Processes a message of the client. The identifier for a request is the next one behind the
    /// last.
    pub fn process_client_request(&mut self, message: JSONRPCMessage, last: &mut GeneratedId) -> (r:
        RelayStep)
        ensures
            is_uuid_text(final(last)@),
            comes_before(old(last)@, final(last)@),
            (final(self)@, r@) == client_step(old(self)@, message@, final(last)@),
            spent(old(self)@, old(last)@) ==> !old(self)@.id_map.contains_key(final(last)@)
                && spent(final(self)@, final(last)@),
    {
        let fresh_id = generate_id(last);
        proof {
            if spent(self@, old(last)@) {
                fresh_id_is_unused(self@, old(last)@, last@);
            }
        }
        self.process_client_request_with(message, fresh_id)
    }

    /// A message was sent to the server, or was not: says whether it was, and what is to be
    /// done.
    pub fn send_request_to_sse(
        &mut self,
        original: Option<JSONRPCRequest>,
        success: bool,
        now: Instant,
    ) -> (r: (bool, RelayStep))
        ensures
            r.0 == success,
            (final(self)@, r.1@) == send_settled(
                old(self)@,
                match original {
                    Some(request) => Some(request@),
                    None => None,
                },
                success,
                now,
            ),
    {
        if success {
            return (true, RelayStep::Done);
        }
        self.handle_fatal_transport_error(now);
        match original {
            Some(request) => {
                let message = JSONRPCMessage::Request(request);
                match self.maybe_handle_message_while_disconnected(message) {
                    Ok(step) => (false, step),
                    Err(_) => (false, RelayStep::Done),
                }
            },
            None => (false, RelayStep::Done),
        }
    }

    /// A message that waited for the reconnection, given an identifier for a request.
    pub fn replay_message(&mut self, message: JSONRPCMessage, fresh_id: String) -> (r: RelayStep)
        ensures
            (final(self)@, r@) == replayed(old(self)@, message@, fresh_id@),
            message@ matches MessageView::Notification(notification) ==> r@
                == if is_progress_method(notification.method) {
                StepView::Done
            } else {
                StepView::Send(message@, None)
            },
            !sends_progress(r@),
    {
        match &message {
            JSONRPCMessage::Request(request) => {
                if text::same(request.method.as_str(), "resources/list") {
                    return RelayStep::Write(
                        JSONRPCMessage::Response(reply_no_resources(&request.id)),
                    );
                }
            },
            JSONRPCMessage::Notification(notification) => {
                if is_progress(notification) {
                    return RelayStep::Done;
                }
            },
            _ => {},
        }
        self.send(message, fresh_id)
    }

    /// Process buffered messages after a successful reconnection, given the identifiers for the
    /// requests.
    pub fn process_buffered_messages_with(&mut self, fresh_ids: Vec<String>) -> (r: Vec<RelayStep>)
        requires
            fresh_ids@.len() == old(self).in_buf@.len(),
        ensures
            (final(self)@, step_views(r@)) == all_replayed(
                emptied(old(self)@),
                old(self)@.in_buf,
                id_texts(fresh_ids@),
            ),
            forall|i: int| 0 <= i < r@.len() ==> !sends_progress((#[trigger] r@[i])@),
    {
        let ghost before = self@;
        let mut messages: Vec<JSONRPCMessage> = Vec::new();
        std::mem::swap(&mut self.in_buf, &mut messages);
        assert(self@.in_buf =~= Seq::<MessageView>::empty());
        let ghost start = self@;
        let ghost all = messages@;
        let ghost views = message_views(all);
        let ghost ids = id_texts(fresh_ids@);
        let mut steps: Vec<RelayStep> = Vec::new();
        assert(step_views(steps@) =~= Seq::<StepView>::empty());
        for message in it: messages
            invariant
                it.seq() == all,
                views == message_views(all),
                fresh_ids@.len() == all.len(),
                ids == id_texts(fresh_ids@),
                steps@.len() == it.index(),
                forall|i: int| 0 <= i < steps@.len() ==> !sends_progress((#[trigger] steps@[i])@),
                (self@, step_views(steps@)) == all_replayed(
                    start,
                    views.take(it.index() as int),
                    ids,
                ),
        {
            let ghost done = steps@;
            let i: usize = steps.len();
            let step = self.replay_message(message, fresh_ids[i].clone());
            steps.push(step);
            proof {
                assert(views.take(i + 1).drop_last() =~= views.take(i as int));
                assert(step_views(steps@) =~= step_views(done).push(step@));
            }
        }
        assert(views.take(all.len() as int) =~= views);
        steps
    }

    /// Process buffered messages after a successful reconnection. The identifiers for the
    /// requests are the next ones behind the last.
    pub fn process_buffered_messages(&mut self, last: &mut GeneratedId) -> (r: Vec<RelayStep>)
        ensures
            exists|fresh_ids: Seq<Seq<char>>|
                {
                    &&& fresh_ids.len() == old(self)@.in_buf.len()
                    &&& #[trigger] generated_behind(fresh_ids, old(last)@, final(last)@)
                    &&& fresh_ids.no_duplicates()
                    &&& spent(old(self)@, old(last)@) ==> are_unused(old(self)@, fresh_ids)
                    &&& (final(self)@, step_views(r@)) == all_replayed(
                        emptied(old(self)@),
                        old(self)@.in_buf,
                        fresh_ids,
                    )
                },
            spent(old(self)@, old(last)@) ==> spent(final(self)@, final(last)@),
            forall|i: int| 0 <= i < r@.len() ==> !sends_progress((#[trigger] r@[i])@),
    {
        let fresh_ids = generate_ids(last, self.in_buf.len());
        let ghost ids = id_texts(fresh_ids@);
        let ghost before = self@;
        let steps = self.process_buffered_messages_with(fresh_ids);
        proof {
            assert((self@, step_views(steps@)) == all_replayed(
                emptied(before),
                before.in_buf,
                ids,
            ));
            if spent(before, old(last)@) {
                lemma_replayed_ids(emptied(before), before.in_buf, ids, old(last)@, last@);
            }
        }
        steps
    }

    /// The notification that completes the handshake was sent, or was not: where it was, the proxy
    /// is connected, and the messages that waited are replayed; where it was not, the transport is
    /// lost.
    pub fn handshake_settled(&mut self, success: bool, now: Instant, last: &mut GeneratedId) -> (r:
        Vec<RelayStep>)
        ensures
            !success ==> final(self)@ == transport_lost(old(self)@, now) && r@.len() == 0
                && final(last)@ == old(last)@,
            success ==> exists|fresh_ids: Seq<Seq<char>>|
                {
                    &&& fresh_ids.len() == old(self)@.in_buf.len()
                    &&& #[trigger] generated_behind(fresh_ids, old(last)@, final(last)@)
                    &&& fresh_ids.no_duplicates()
                    &&& spent(old(self)@, old(last)@) ==> are_unused(old(self)@, fresh_ids)
                    &&& (final(self)@, step_views(r@)) == all_replayed(
                        emptied(when_connected(old(self)@)),
                        old(self)@.in_buf,
                        fresh_ids,
                    )
                },
            spent(old(self)@, old(last)@) ==> spent(final(self)@, final(last)@),
            forall|i: int| 0 <= i < r@.len() ==> !sends_progress((#[trigger] r@[i])@),
    {
        if success {
            self.connected();
            self.process_buffered_messages(last)
        } else {
            self.handle_fatal_transport_error(now);
            Vec::new()
        }
    }

    /// A reconnection failed: it is counted, and the next one follows after so many seconds.
    pub fn reconnect_failed(&mut self) -> (r: u64)
        ensures
            final(self)@ == (AppView {
                connect_tries: if old(self)@.connect_tries < u32::MAX {
                    (old(self)@.connect_tries + 1) as u32
                } else {
                    u32::MAX
                },
                ..old(self)@
            }),
            r == backoff(final(self)@.connect_tries as nat),
    {
        if self.connect_tries < u32::MAX {
            self.connect_tries = self.connect_tries + 1;
        }
        self.get_backoff_duration()
    }

    /// Gives up where the time for trying to reconnect is over, `waited` seconds after the
    /// disconnection: the requests that still wait are refused with these answers.
    pub fn give_up(&mut self, waited: u64) -> (r: Option<Vec<JSONRPCMessage>>)
        ensures
            match r {
                Some(replies) => too_long(old(self)@, waited) && (
                    final(self)@,
                    message_views(replies@),
                ) == given_up(old(self)@),
                None => !too_long(old(self)@, waited) && final(self)@ == old(self)@,
            },
    {
        if !self.waited_too_long(waited) {
            return None;
        }
        if self.in_buf.len() > 0 && self.buf_mode == BufferMode::Store {
            Some(self.flush_buffer_with_errors())
        } else {
            let replies: Vec<JSONRPCMessage> = Vec::new();
            assert(message_views(replies@) =~= Seq::<MessageView>::empty());
            Some(replies)
        }
    }

    /// Initiates the post-reconnection handshake by sending the initialize request, given an
    /// identifier for it.
    pub fn initiate_handshake_with(&mut self, fresh_id: String) -> (r: Result<RelayStep, String>)
        ensures
            match old(self)@.init_message {
                Some(request) => r matches Ok(step) && (final(self)@, step@) == handshake(
                    old(self)@,
                    request,
                    fresh_id@,
                ),
                None => r matches Err(error) && error@
                    == "Cannot perform reconnect handshake: init_message is missing"@
                    && final(self)@ == old(self)@,
            },
    {
        match &self.init_message {
            Some(request) => {
                let request = request.clone();
                self.state = ProxyState::WaitingForServerInitHidden(request.id.clone());
                Ok(
                    self.process_client_request_with(JSONRPCMessage::Request(request), fresh_id),
                )
            },
            None => Err(
                "Cannot perform reconnect handshake: init_message is missing".to_owned(),
            ),
        }
    }

    /// Initiates the post-reconnection handshake by sending the initialize request. The
    /// identifier for it is the next one behind the last.
    pub fn initiate_post_reconnect_handshake(&mut self, last: &mut GeneratedId) -> (r: Result<
        RelayStep,
        String,
    >)
        ensures
            is_uuid_text(final(last)@),
            comes_before(old(last)@, final(last)@),
            match old(self)@.init_message {
                Some(request) => r matches Ok(step) && (final(self)@, step@) == handshake(
                    old(self)@,
                    request,
                    final(last)@,
                ),
                None => r matches Err(error) && error@
                    == "Cannot perform reconnect handshake: init_message is missing"@
                    && final(self)@ == old(self)@,
            },
            spent(old(self)@, old(last)@) ==> !old(self)@.id_map.contains_key(final(last)@)
                && spent(final(self)@, final(last)@),
    {
        let fresh_id = generate_id(last);
        proof {
            if spent(self@, old(last)@) {
                fresh_id_is_unused(self@, old(last)@, last@);
            }
        }
        self.initiate_handshake_with(fresh_id)
    }

    /// A message of the server goes to the client.
    fn write(&mut self, message: JSONRPCMessage, fresh_id: String) -> (r: RelayStep)
        ensures
            (final(self)@, r@) == to_client(old(self)@, message@, fresh_id@),
    {
        match message {
            JSONRPCMessage::Request(request) => {
                let mut request = request;
                self.remember_id(fresh_id.clone(), request.id.clone());
                request.id = NumberOrString::String(text::shared(fresh_id));
                RelayStep::Write(JSONRPCMessage::Request(request))
            },
            JSONRPCMessage::Response(response) => {
                let initializes = match &self.state {
                    ProxyState::WaitingForServerInit(id) => id.same(&response.id),
                    _ => false,
                };
                let reconnects = match &self.state {
                    ProxyState::WaitingForServerInitHidden(id) => id.same(&response.id),
                    _ => false,
                };
                if initializes {
                    self.state = ProxyState::WaitingForClientInitialized;
                    let version = self.reported_protocol_version();
                    let response = override_version(response, &version);
                    RelayStep::Write(JSONRPCMessage::Response(response))
                } else if reconnects {
                    RelayStep::Complete(JSONRPCMessage::Notification(initialized_notification()))
                } else {
                    RelayStep::Write(JSONRPCMessage::Response(response))
                }
            },
            JSONRPCMessage::Notification(notification) => RelayStep::Write(
                JSONRPCMessage::Notification(notification),
            ),
        }
    }

    /// Processes a message of the server, given an identifier for a request.
    pub fn process_server_message_with(&mut self, message: JSONRPCMessage, fresh_id: String) -> (r:
        RelayStep)
        ensures
            (final(self)@, r@) == server_step(old(self)@, message@, fresh_id@),
    {
        match self.map_client_response_error_id(message) {
            Some(message) => self.write(message, fresh_id),
            None => RelayStep::Done,
        }
    }

    /// Processes a message of the server. The identifier for a request is the next one behind the
    /// last.
    pub fn process_server_message(&mut self, message: JSONRPCMessage, last: &mut GeneratedId) -> (r:
        RelayStep)
        ensures
            is_uuid_text(final(last)@),
            comes_before(old(last)@, final(last)@),
            (final(self)@, r@) == server_step(old(self)@, message@, final(last)@),
            spent(old(self)@, old(last)@) ==> !old(self)@.id_map.contains_key(final(last)@)
                && spent(final(self)@, final(last)@),
    {
        let fresh_id = generate_id(last);
        proof {
            if spent(self@, old(last)@) {
                fresh_id_is_unused(self@, old(last)@, last@);
            }
        }
        self.process_server_message_with(message, fresh_id)
    }
}

} // verus!
