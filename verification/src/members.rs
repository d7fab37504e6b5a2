//! What a message says, member by member.

use crate::json::JsonView;
use crate::models::{IdView, MessageView, NotificationView, RequestView, ResponseView};
use vstd::prelude::*;

verus! {

/// The message is the request, under the identifier `id`: every other member is the one of the
/// request.
pub open spec fn is_request_under(
    message: MessageView,
    request: RequestView,
    id: IdView,
) -> bool {
    match message {
        MessageView::Request(m) => {
            &&& m.jsonrpc == request.jsonrpc
            &&& m.id == id
            &&& m.method == request.method
            &&& m.params == request.params
        },
        _ => false,
    }
}

/// The message is the response, under the identifier `id`: every other member is the one of the
/// response.
pub open spec fn is_response_under(
    message: MessageView,
    response: ResponseView,
    id: IdView,
) -> bool {
    match message {
        MessageView::Response(m) => {
            &&& m.jsonrpc == response.jsonrpc
            &&& m.id == id
            &&& m.result == response.result
            &&& m.error == response.error
        },
        _ => false,
    }
}

/// The message is the notification.
pub open spec fn is_notification(message: MessageView, notification: NotificationView) -> bool {
    match message {
        MessageView::Notification(m) => {
            &&& m.jsonrpc == notification.jsonrpc
            &&& m.method == notification.method
            &&& m.params == notification.params
        },
        _ => false,
    }
}

/// The message says that the request `id` fails, with this code and in these words.
pub open spec fn is_error_for(message: MessageView, id: IdView, code: int, words: Seq<char>) -> bool {
    match message {
        MessageView::Response(m) => {
            &&& m.jsonrpc == "2.0"@
            &&& m.id == id
            &&& m.result is None
            &&& m.error is Some
            &&& m.error->0.code == code
            &&& m.error->0.message == words
            &&& m.error->0.data is None
        },
        _ => false,
    }
}

/// The message refuses the request `id`, as the server is not connected.
pub open spec fn is_refusal_of(message: MessageView, id: IdView) -> bool {
    is_error_for(
        message,
        id,
        -32010,
        "Server not connected. The SSE endpoint is currently not available. Please ensure it is running and retry."@,
    )
}

/// The message answers the request `id` with an object that has no members.
pub open spec fn is_pong_for(message: MessageView, id: IdView) -> bool {
    match message {
        MessageView::Response(m) => {
            &&& m.jsonrpc == "2.0"@
            &&& m.id == id
            &&& m.error is None
            &&& m.result is Some
            &&& m.result->0 == JsonView::Object(Map::empty())
        },
        _ => false,
    }
}

/// The message answers the request `id` with an empty list of resources.
pub open spec fn is_empty_list_for(message: MessageView, id: IdView) -> bool {
    match message {
        MessageView::Response(m) => {
            &&& m.jsonrpc == "2.0"@
            &&& m.id == id
            &&& m.error is None
            &&& m.result is Some
            &&& m.result->0 == JsonView::Object(
                Map::empty().insert("resources"@, JsonView::Array(Seq::empty())),
            )
        },
        _ => false,
    }
}

/// The message is the notification that ends the handshake.
pub open spec fn is_initialized(message: MessageView) -> bool {
    match message {
        MessageView::Notification(m) => {
            &&& m.jsonrpc == "2.0"@
            &&& m.method == "notifications/initialized"@
            &&& m.params is None
        },
        _ => false,
    }
}

/// The message is the response, under the identifier `id`; where a version is wanted and the
/// result is an object with the member `protocolVersion`, that member is the version.
pub open spec fn is_response_with_version(
    message: MessageView,
    response: ResponseView,
    id: IdView,
    version: Option<Seq<char>>,
) -> bool {
    match (response.result, version) {
        (Some(JsonView::Object(result)), Some(version)) if result.contains_key(
            "protocolVersion"@,
        ) => match message {
            MessageView::Response(m) => {
                &&& m.jsonrpc == response.jsonrpc
                &&& m.id == id
                &&& m.result is Some
                &&& m.result->0 == JsonView::Object(
                    result.insert("protocolVersion"@, JsonView::String(version)),
                )
                &&& m.error == response.error
            },
            _ => false,
        },
        _ => is_response_under(message, response, id),
    }
}

/// A message is put behind those that wait, and these stay as they are, in their order.
pub open spec fn is_kept_behind(
    after: Seq<MessageView>,
    before: Seq<MessageView>,
    message: MessageView,
) -> bool {
    &&& after.len() == before.len() + 1
    &&& forall|i: int| 0 <= i < before.len() ==> #[trigger] after[i] == before[i]
    &&& after[before.len() as int] == message
}

} // verus!
