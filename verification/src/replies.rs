//! The messages that the proxy itself writes.

use crate::json;
use crate::json::{no_members, JsonView};
use crate::models::{
    message_views, optional_text, ErrorView, IdView, JSONRPCError, JSONRPCMessage,
    JSONRPCNotification, JSONRPCResponse, MessageView, NotificationView, RequestId, ResponseView,
};
use vstd::prelude::*;

verus! {

/// The error code for a request that came while the server was not connected.
pub const DISCONNECTED_ERROR_CODE: i32 = -32010;

/// The error code for a request that could not be sent to the server.
pub const TRANSPORT_SEND_ERROR_CODE: i32 = -32011;

/// The answer to a request that came while the server was not connected.
pub open spec fn disconnected_reply(id: IdView) -> ResponseView {
    ResponseView {
        jsonrpc: "2.0"@,
        id,
        result: None,
        error: Some(
            ErrorView {
                code: DISCONNECTED_ERROR_CODE,
                message: "Server not connected. The SSE endpoint is currently not available. Please ensure it is running and retry."@,
                data: None,
            },
        ),
    }
}

/// The answer to a request that could not be sent to the server.
pub open spec fn send_error_reply(id: IdView, error: Seq<char>) -> ResponseView {
    ResponseView {
        jsonrpc: "2.0"@,
        id,
        result: None,
        error: Some(ErrorView { code: TRANSPORT_SEND_ERROR_CODE, message: error, data: None }),
    }
}

/// The answer to a ping.
pub open spec fn ping_reply(id: IdView) -> ResponseView {
    ResponseView {
        jsonrpc: "2.0"@,
        id,
        result: Some(JsonView::Object(no_members())),
        error: None,
    }
}

/// The result of a request for the resources where there are none.
pub open spec fn no_resources() -> JsonView {
    JsonView::Object(no_members().insert("resources"@, JsonView::Array(Seq::empty())))
}

/// The answer to a request for the resources.
pub open spec fn resources_reply(id: IdView) -> ResponseView {
    ResponseView { jsonrpc: "2.0"@, id, result: Some(no_resources()), error: None }
}

/// The answers to the requests among the messages, in their order, while the server is not
/// connected.
pub open spec fn disconnected_replies(messages: Seq<MessageView>) -> Seq<MessageView>
    decreases messages.len(),
{
    if messages.len() == 0 {
        Seq::empty()
    } else {
        let before = disconnected_replies(messages.drop_last());
        match messages.last() {
            MessageView::Request(request) => before.push(
                MessageView::Response(disconnected_reply(request.id)),
            ),
            _ => before,
        }
    }
}

/// The notification that ends the handshake.
pub open spec fn initialized() -> NotificationView {
    NotificationView { jsonrpc: "2.0"@, method: "notifications/initialized"@, params: None }
}

/// Reply with a disconnected error message
pub fn reply_disconnected(id: &RequestId) -> (r: JSONRPCResponse)
    ensures
        r@ == disconnected_reply(id@),
{
    JSONRPCResponse {
        jsonrpc: "2.0".to_owned(),
        id: id.clone(),
        result: None,
        error: Some(
            JSONRPCError {
                code: DISCONNECTED_ERROR_CODE,
                message: "Server not connected. The SSE endpoint is currently not available. Please ensure it is running and retry.".to_owned(),
                data: None,
            },
        ),
    }
}

/// Reply that the request could not be sent.
pub fn reply_send_error(id: &RequestId, error: String) -> (r: JSONRPCResponse)
    ensures
        r@ == send_error_reply(id@, error@),
{
    JSONRPCResponse {
        jsonrpc: "2.0".to_owned(),
        id: id.clone(),
        result: None,
        error: Some(
            JSONRPCError { code: TRANSPORT_SEND_ERROR_CODE, message: error, data: None },
        ),
    }
}

/// Reply to a ping.
pub fn reply_ping(id: &RequestId) -> (r: JSONRPCResponse)
    ensures
        r@ == ping_reply(id@),
{
    JSONRPCResponse {
        jsonrpc: "2.0".to_owned(),
        id: id.clone(),
        result: Some(json::from_object(json::new_object())),
        error: None,
    }
}

/// Reply that there are no resources.
pub fn reply_no_resources(id: &RequestId) -> (r: JSONRPCResponse)
    ensures
        r@ == resources_reply(id@),
{
    let items: Vec<serde_json::Value> = Vec::new();
    assert(items@.map_values(|item: serde_json::Value| json::json(item)) =~= Seq::<
        JsonView,
    >::empty());
    let mut object = json::new_object();
    json::insert(&mut object, "resources".to_owned(), json::from_array(items));
    JSONRPCResponse {
        jsonrpc: "2.0".to_owned(),
        id: id.clone(),
        result: Some(json::from_object(object)),
        error: None,
    }
}

/// The answers to the requests among the messages while the server is not connected.
pub fn reply_all_disconnected(messages: &Vec<JSONRPCMessage>) -> (r: Vec<JSONRPCMessage>)
    ensures
        message_views(r@) == disconnected_replies(message_views(messages@)),
{
    let mut replies: Vec<JSONRPCMessage> = Vec::new();
    let ghost views = message_views(messages@);
    assert(message_views(replies@) =~= disconnected_replies(views.take(0)));
    for i in 0..messages.len()
        invariant
            views == message_views(messages@),
            message_views(replies@) == disconnected_replies(views.take(i as int)),
    {
        let ghost before = replies@;
        assert(views.take(i + 1).drop_last() =~= views.take(i as int));
        assert(views.take(i + 1).last() == messages@[i as int]@);
        if let JSONRPCMessage::Request(request) = &messages[i] {
            let reply = JSONRPCMessage::Response(reply_disconnected(&request.id));
            replies.push(reply);
            assert(message_views(replies@) =~= message_views(before).push(reply@));
        }
    }
    assert(views.take(messages@.len() as int) =~= views);
    replies
}

/// The notification that ends the handshake.
pub fn initialized_notification() -> (r: JSONRPCNotification)
    ensures
        r@ == initialized(),
{
    JSONRPCNotification {
        jsonrpc: "2.0".to_owned(),
        method: "notifications/initialized".to_owned(),
        params: None,
    }
}

/// The result of an initialize request with another protocol version, where it names one.
pub open spec fn overridden_result(result: JsonView, version: Seq<char>) -> JsonView {
    match result {
        JsonView::Object(members) => if members.contains_key("protocolVersion"@) {
            JsonView::Object(members.insert("protocolVersion"@, JsonView::String(version)))
        } else {
            result
        },
        _ => result,
    }
}

/// The answer to an initialize request as the client is to see it.
pub open spec fn overridden(response: ResponseView, version: Option<Seq<char>>) -> ResponseView {
    match (response.result, version) {
        (Some(result), Some(version)) => ResponseView {
            result: Some(overridden_result(result, version)),
            ..response
        },
        _ => response,
    }
}

/// The answer to an initialize request as the client is to see it: with the protocol version
/// that was asked for, where one was.
pub fn override_version(response: JSONRPCResponse, version: &Option<String>) -> (r:
    JSONRPCResponse)
    ensures
        r@ == overridden(response@, optional_text(*version)),
{
    let mut response = response;
    match version {
        None => response,
        Some(version) => {
            let result = response.result;
            response.result = match result {
                None => None,
                Some(value) => match json::into_object(value) {
                    Err(other) => Some(other),
                    Ok(mut object) => {
                        if json::get(&object, "protocolVersion").is_some() {
                            json::insert(
                                &mut object,
                                "protocolVersion".to_owned(),
                                json::from_string(version.clone()),
                            );
                        }
                        Some(json::from_object(object))
                    },
                },
            };
            response
        },
    }
}

/// Where every message is a request, every message is answered, in its place.
pub proof fn one_reply_per_request(messages: Seq<MessageView>, i: int)
    requires
        forall|j: int| 0 <= j < messages.len() ==> #[trigger] messages[j] is Request,
        0 <= i < messages.len(),
    ensures
        disconnected_replies(messages).len() == messages.len(),
        disconnected_replies(messages)[i] == MessageView::Response(
            disconnected_reply(messages[i]->Request_0.id),
        ),
    decreases messages.len(),
{
    let before = messages.drop_last();
    assert forall|j: int| 0 <= j < before.len() implies #[trigger] before[j] is Request by {
        assert(before[j] == messages[j]);
    }
    if before.len() > 0 {
        one_reply_per_request(before, if i < before.len() { i } else { 0 });
    }
}

/// A refusal is a response to the request that it refuses: it carries the identifier of that
/// request, a number as that number and a text as that text. It has no result, and the error says
/// that the server is not connected.
pub proof fn refusal_answers_the_request(id: IdView)
    ensures
        ({
            let reply = disconnected_reply(id);
            &&& reply.jsonrpc == "2.0"@
            &&& match id {
                IdView::Number(n) => reply.id is Number && reply.id->Number_0 == n,
                IdView::String(s) => reply.id is String && reply.id->String_0 == s,
            }
            &&& reply.result is None
            &&& reply.error is Some
            &&& reply.error->0.code == -32010
            &&& reply.error->0.message
                == "Server not connected. The SSE endpoint is currently not available. Please ensure it is running and retry."@
            &&& reply.error->0.data is None
        }),
{
}

/// The answer to a request that could not be sent carries the identifier of that request, a
/// number as that number and a text as that text. It has no result, and the error has the words
/// of the failure.
pub proof fn failure_answers_the_request(id: IdView, error: Seq<char>)
    ensures
        ({
            let reply = send_error_reply(id, error);
            &&& reply.jsonrpc == "2.0"@
            &&& match id {
                IdView::Number(n) => reply.id is Number && reply.id->Number_0 == n,
                IdView::String(s) => reply.id is String && reply.id->String_0 == s,
            }
            &&& reply.result is None
            &&& reply.error is Some
            &&& reply.error->0.code == -32011
            &&& reply.error->0.message == error
            &&& reply.error->0.data is None
        }),
{
}

/// The answer to a ping carries the identifier of the ping, a number as that number and a text as
/// that text. It has no error, and its result is an object without members.
pub proof fn pong_answers_the_request(id: IdView)
    ensures
        ({
            let reply = ping_reply(id);
            &&& reply.jsonrpc == "2.0"@
            &&& match id {
                IdView::Number(n) => reply.id is Number && reply.id->Number_0 == n,
                IdView::String(s) => reply.id is String && reply.id->String_0 == s,
            }
            &&& reply.error is None
            &&& reply.result is Some
            &&& reply.result->0 is Object
            &&& forall|name: Seq<char>| !reply.result->0->Object_0.contains_key(name)
        }),
{
}

/// The answer to a request for the resources carries the identifier of that request, a number as
/// that number and a text as that text. It has no error, and its result is an object with the one
/// member `resources`, an empty array.
pub proof fn empty_list_answers_the_request(id: IdView)
    ensures
        ({
            let reply = resources_reply(id);
            &&& reply.jsonrpc == "2.0"@
            &&& match id {
                IdView::Number(n) => reply.id is Number && reply.id->Number_0 == n,
                IdView::String(s) => reply.id is String && reply.id->String_0 == s,
            }
            &&& reply.error is None
            &&& reply.result is Some
            &&& reply.result->0 is Object
            &&& forall|name: Seq<char>|
                reply.result->0->Object_0.contains_key(name) <==> name == "resources"@
            &&& reply.result->0->Object_0["resources"@] is Array
            &&& reply.result->0->Object_0["resources"@]->Array_0.len() == 0
        }),
{
}

/// The notification that ends the handshake is the one of the protocol, without parameters.
pub proof fn handshake_ends_with_initialized()
    ensures
        initialized().jsonrpc == "2.0"@,
        initialized().method == "notifications/initialized"@,
        initialized().params is None,
{
}

/// Refused are exactly the requests among the messages, in their order: every refusal carries the
/// identifier of a request, and behind the refusals of the messages so far stands one more for a
/// request, and none for any other message.
pub proof fn requests_alone_are_refused(messages: Seq<MessageView>, message: MessageView)
    ensures
        disconnected_replies(Seq::empty()).len() == 0,
        ({
            let before = disconnected_replies(messages);
            let after = disconnected_replies(messages.push(message));
            match message {
                MessageView::Request(request) => {
                    &&& after.len() == before.len() + 1
                    &&& after.take(before.len() as int) == before
                    &&& match after[before.len() as int] {
                        MessageView::Response(reply) => reply.id == request.id && reply
                            == disconnected_reply(request.id),
                        _ => false,
                    }
                },
                _ => after == before,
            }
        }),
{
    let all = messages.push(message);
    assert(all.drop_last() =~= messages);
    assert(all.last() == message);
    if message is Request {
        let before = disconnected_replies(messages);
        assert(disconnected_replies(all).take(before.len() as int) =~= before);
    }
}

/// The answer to the initialize request is passed on with another protocol version where one is
/// wanted and its result names one; nothing else of the answer changes, and without a wanted
/// version, or without a version in the result, nothing at all does.
pub proof fn only_the_version_is_overridden(response: ResponseView, version: Option<Seq<char>>)
    ensures
        ({
            let seen = overridden(response, version);
            &&& seen.jsonrpc == response.jsonrpc
            &&& seen.id == response.id
            &&& seen.error == response.error
            &&& seen.result is Some <==> response.result is Some
            &&& version is None ==> seen.result == response.result
            &&& match response.result {
                Some(JsonView::Object(members)) => {
                    &&& seen.result->0 is Object
                    &&& forall|name: Seq<char>| #[trigger]
                        members.contains_key(name)
                            <==> seen.result->0->Object_0.contains_key(name)
                    &&& forall|name: Seq<char>| #[trigger]
                        members.contains_key(name) && name != "protocolVersion"@
                            ==> seen.result->0->Object_0[name] == members[name]
                    &&& version is Some && members.contains_key("protocolVersion"@)
                        ==> seen.result->0->Object_0["protocolVersion"@] == JsonView::String(
                        version->0,
                    )
                },
                _ => seen.result == response.result,
            }
        }),
{
}

} // verus!
