//! The JSON form of the messages.

use crate::json;
use crate::json::{
    is_readable, json_parsed, json_text, no_members, JsonView, NumberView,
    READABLE_DEPTH,
};
use crate::models::{
    id_json, ErrorView, IdView, JSONRPCError, JSONRPCMessage, JSONRPCNotification, JSONRPCRequest,
    JSONRPCResponse, MessageView, NotificationView, RequestView, ResponseView,
};
use vstd::prelude::*;

verus! {

/// The members with one more, where there is a value for it.
pub open spec fn with_member(
    members: Map<Seq<char>, JsonView>,
    name: Seq<char>,
    value: Option<JsonView>,
) -> Map<Seq<char>, JsonView> {
    match value {
        Some(value) => members.insert(name, value),
        None => members,
    }
}

/// An integer as a JSON number.
pub open spec fn integer_json(n: i32) -> JsonView {
    JsonView::Number(
        if n >= 0 {
            NumberView::Natural(n as u64)
        } else {
            NumberView::Negative(n as i64)
        },
    )
}

/// The JSON form of a request.
pub open spec fn request_json(request: RequestView) -> JsonView {
    let members = no_members().insert("jsonrpc"@, JsonView::String(request.jsonrpc)).insert(
        "id"@,
        id_json(request.id),
    ).insert("method"@, JsonView::String(request.method));
    JsonView::Object(with_member(members, "params"@, request.params))
}

/// The JSON form of an error.
pub open spec fn error_json(error: ErrorView) -> JsonView {
    let members = no_members().insert("code"@, integer_json(error.code)).insert(
        "message"@,
        JsonView::String(error.message),
    );
    JsonView::Object(with_member(members, "data"@, error.data))
}

/// The JSON form of a response.
pub open spec fn response_json(response: ResponseView) -> JsonView {
    let members = no_members().insert("jsonrpc"@, JsonView::String(response.jsonrpc)).insert(
        "id"@,
        id_json(response.id),
    );
    let members = with_member(members, "result"@, response.result);
    JsonView::Object(
        with_member(
            members,
            "error"@,
            match response.error {
                Some(error) => Some(error_json(error)),
                None => None,
            },
        ),
    )
}

/// The JSON form of a notification.
pub open spec fn notification_json(notification: NotificationView) -> JsonView {
    let members = no_members().insert("jsonrpc"@, JsonView::String(notification.jsonrpc)).insert(
        "method"@,
        JsonView::String(notification.method),
    );
    JsonView::Object(with_member(members, "params"@, notification.params))
}

/// The JSON form of a message.
pub open spec fn message_json(message: MessageView) -> JsonView {
    match message {
        MessageView::Request(request) => request_json(request),
        MessageView::Response(response) => response_json(response),
        MessageView::Notification(notification) => notification_json(notification),
    }
}

fn insert_optional(
    object: &mut serde_json::Map<String, serde_json::Value>,
    name: &str,
    value: &Option<serde_json::Value>,
)
    ensures
        json::members(*final(object)) == with_member(
            json::members(*old(object)),
            name@,
            crate::models::optional_json(*value),
        ),
{
    if let Some(value) = value {
        json::insert(object, name.to_owned(), value.clone());
    }
}

fn insert_text(
    object: &mut serde_json::Map<String, serde_json::Value>,
    name: &str,
    value: &String,
)
    ensures
        json::members(*final(object)) == json::members(*old(object)).insert(
            name@,
            JsonView::String(value@),
        ),
{
    json::insert(object, name.to_owned(), json::from_string(value.clone()));
}

impl JSONRPCRequest {
    /// The request as a JSON value.
    pub fn to_value(&self) -> (r: serde_json::Value)
        ensures
            json::json(r) == request_json(self@),
    {
        let mut object = json::new_object();
        insert_text(&mut object, "jsonrpc", &self.jsonrpc);
        json::insert(&mut object, "id".to_owned(), self.id.to_value());
        insert_text(&mut object, "method", &self.method);
        insert_optional(&mut object, "params", &self.params);
        json::from_object(object)
    }
}

impl JSONRPCError {
    /// The error as a JSON value.
    pub fn to_value(&self) -> (r: serde_json::Value)
        ensures
            json::json(r) == error_json(self@),
    {
        let mut object = json::new_object();
        json::insert(&mut object, "code".to_owned(), json::from_integer(self.code));
        insert_text(&mut object, "message", &self.message);
        insert_optional(&mut object, "data", &self.data);
        json::from_object(object)
    }
}

impl JSONRPCResponse {
    /// The response as a JSON value.
    pub fn to_value(&self) -> (r: serde_json::Value)
        ensures
            json::json(r) == response_json(self@),
    {
        let mut object = json::new_object();
        insert_text(&mut object, "jsonrpc", &self.jsonrpc);
        json::insert(&mut object, "id".to_owned(), self.id.to_value());
        insert_optional(&mut object, "result", &self.result);
        if let Some(error) = &self.error {
            json::insert(&mut object, "error".to_owned(), error.to_value());
        }
        json::from_object(object)
    }
}

impl JSONRPCNotification {
    /// The notification as a JSON value.
    pub fn to_value(&self) -> (r: serde_json::Value)
        ensures
            json::json(r) == notification_json(self@),
    {
        let mut object = json::new_object();
        insert_text(&mut object, "jsonrpc", &self.jsonrpc);
        insert_text(&mut object, "method", &self.method);
        insert_optional(&mut object, "params", &self.params);
        json::from_object(object)
    }
}

impl JSONRPCMessage {
    /// The message as a JSON value.
    pub fn to_value(&self) -> (r: serde_json::Value)
        ensures
            json::json(r) == message_json(self@),
    {
        match self {
            JSONRPCMessage::Request(request) => request.to_value(),
            JSONRPCMessage::Response(response) => response.to_value(),
            JSONRPCMessage::Notification(notification) => notification.to_value(),
        }
    }

    /// The body of the HTTP request that carries the message.
    pub fn body(&self) -> (r: String)
        ensures
            r@ == json_text(message_json(self@)),
            r@.len() > 0,
            !r@.contains('\n'),
            is_readable(message_json(self@), READABLE_DEPTH as nat) ==> json_parsed(r@) == Some(
                message_json(self@),
            ),
    {
        match json::to_string(&self.to_value()) {
            Ok(text) => text,
            Err(_) => String::new(),
        }
    }
}

/// The names of the members are different.
proof fn lemma_names()
    ensures
        "jsonrpc"@ != "id"@,
        "jsonrpc"@ != "method"@,
        "jsonrpc"@ != "params"@,
        "jsonrpc"@ != "result"@,
        "jsonrpc"@ != "error"@,
        "id"@ != "method"@,
        "id"@ != "params"@,
        "id"@ != "result"@,
        "id"@ != "error"@,
        "method"@ != "params"@,
        "method"@ != "result"@,
        "method"@ != "error"@,
        "result"@ != "error"@,
        "code"@ != "message"@,
        "code"@ != "data"@,
        "message"@ != "data"@,
{
    reveal_strlit("jsonrpc");
    reveal_strlit("id");
    reveal_strlit("method");
    reveal_strlit("params");
    reveal_strlit("result");
    reveal_strlit("error");
    reveal_strlit("code");
    reveal_strlit("message");
    reveal_strlit("data");
    assert("jsonrpc"@.len() == 7);
    assert("id"@.len() == 2);
    assert("method"@[0] == 'm');
    assert("params"@[0] == 'p');
    assert("result"@[0] == 'r');
    assert("error"@.len() == 5);
    assert("message"@.len() == 7);
    assert("code"@[0] == 'c');
    assert("data"@[0] == 'd');
}

/// The JSON form loses nothing: messages with the same JSON form are the same message.
pub proof fn json_form_is_faithful(a: MessageView, b: MessageView)
    requires
        message_json(a) == message_json(b),
    ensures
        a == b,
{
    lemma_names();
    let ma = message_json(a)->Object_0;
    let mb = message_json(b)->Object_0;
    assert(ma.contains_key("id"@) == (a !is Notification));
    assert(mb.contains_key("id"@) == (b !is Notification));
    assert(ma.contains_key("method"@) == (a !is Response));
    assert(mb.contains_key("method"@) == (b !is Response));
    assert(ma["jsonrpc"@] == mb["jsonrpc"@]);
    match (a, b) {
        (MessageView::Request(x), MessageView::Request(y)) => {
            assert(ma["id"@] == id_json(x.id));
            assert(mb["id"@] == id_json(y.id));
            assert(ma["method"@] == mb["method"@]);
            assert(ma.contains_key("params"@) == (x.params is Some));
            assert(mb.contains_key("params"@) == (y.params is Some));
            assert(x.params is Some ==> ma["params"@] == x.params->0);
            assert(y.params is Some ==> mb["params"@] == y.params->0);
        },
        (MessageView::Response(x), MessageView::Response(y)) => {
            assert(ma["id"@] == id_json(x.id));
            assert(mb["id"@] == id_json(y.id));
            assert(ma.contains_key("result"@) == (x.result is Some));
            assert(mb.contains_key("result"@) == (y.result is Some));
            assert(x.result is Some ==> ma["result"@] == x.result->0);
            assert(y.result is Some ==> mb["result"@] == y.result->0);
            assert(ma.contains_key("error"@) == (x.error is Some));
            assert(mb.contains_key("error"@) == (y.error is Some));
            if x.error is Some {
                let ea = error_json(x.error->0)->Object_0;
                let eb = error_json(y.error->0)->Object_0;
                assert(ma["error"@] == JsonView::Object(ea));
                assert(mb["error"@] == JsonView::Object(eb));
                assert(ea["code"@] == integer_json(x.error->0.code));
                assert(eb["code"@] == integer_json(y.error->0.code));
                assert(ea["message"@] == eb["message"@]);
                assert(ea.contains_key("data"@) == (x.error->0.data is Some));
                assert(eb.contains_key("data"@) == (y.error->0.data is Some));
                assert(x.error->0.data is Some ==> ea["data"@] == x.error->0.data->0);
                assert(y.error->0.data is Some ==> eb["data"@] == y.error->0.data->0);
            }
        },
        (MessageView::Notification(x), MessageView::Notification(y)) => {
            assert(ma["method"@] == mb["method"@]);
            assert(ma.contains_key("params"@) == (x.params is Some));
            assert(mb.contains_key("params"@) == (y.params is Some));
            assert(x.params is Some ==> ma["params"@] == x.params->0);
            assert(y.params is Some ==> mb["params"@] == y.params->0);
        },
        _ => {},
    }
}

/// The JSON form of a request is an object with the members `jsonrpc`, `id` and `method`, with
/// the member `params` where the request has parameters, and with no other member. Each holds
/// what the request holds under that name; an identifier stays a number or a text.
pub proof fn request_form_has_its_members(request: RequestView)
    ensures
        message_json(MessageView::Request(request)) == request_json(request),
        match request_json(request) {
            JsonView::Object(members) => {
                &&& forall|name: Seq<char>| #[trigger]
                    members.contains_key(name) <==> name == "jsonrpc"@ || name == "id"@ || name
                        == "method"@ || (name == "params"@ && request.params is Some)
                &&& members["jsonrpc"@] == JsonView::String(request.jsonrpc)
                &&& members["id"@] == match request.id {
                    IdView::Number(n) => JsonView::Number(NumberView::Natural(n as u64)),
                    IdView::String(s) => JsonView::String(s),
                }
                &&& members["method"@] == JsonView::String(request.method)
                &&& request.params is Some ==> members["params"@] == request.params->0
            },
            _ => false,
        },
{
    lemma_names();
}

/// The JSON form of a response is an object with the members `jsonrpc` and `id`, with the members
/// `result` and `error` where the response has them, and with no other member. Each holds what
/// the response holds under that name; an identifier stays a number or a text.
pub proof fn response_form_has_its_members(response: ResponseView)
    ensures
        message_json(MessageView::Response(response)) == response_json(response),
        match response_json(response) {
            JsonView::Object(members) => {
                &&& forall|name: Seq<char>| #[trigger]
                    members.contains_key(name) <==> name == "jsonrpc"@ || name == "id"@ || (name
                        == "result"@ && response.result is Some) || (name == "error"@
                        && response.error is Some)
                &&& members["jsonrpc"@] == JsonView::String(response.jsonrpc)
                &&& members["id"@] == match response.id {
                    IdView::Number(n) => JsonView::Number(NumberView::Natural(n as u64)),
                    IdView::String(s) => JsonView::String(s),
                }
                &&& response.result is Some ==> members["result"@] == response.result->0
                &&& response.error is Some ==> members["error"@] == error_json(response.error->0)
            },
            _ => false,
        },
{
    lemma_names();
}

/// The JSON form of an error is an object with the members `code` and `message`, with the member
/// `data` where the error has data, and with no other member. Each holds what the error holds
/// under that name, the code as an integer.
pub proof fn error_form_has_its_members(error: ErrorView)
    ensures
        match error_json(error) {
            JsonView::Object(members) => {
                &&& forall|name: Seq<char>| #[trigger]
                    members.contains_key(name) <==> name == "code"@ || name == "message"@ || (name
                        == "data"@ && error.data is Some)
                &&& match members["code"@] {
                    JsonView::Number(NumberView::Natural(n)) => n == error.code,
                    JsonView::Number(NumberView::Negative(n)) => n == error.code && n < 0,
                    _ => false,
                }
                &&& members["message"@] == JsonView::String(error.message)
                &&& error.data is Some ==> members["data"@] == error.data->0
            },
            _ => false,
        },
{
    lemma_names();
}

/// The JSON form of a notification is an object with the members `jsonrpc` and `method`, with the
/// member `params` where the notification has parameters, and with no other member. Each holds
/// what the notification holds under that name.
pub proof fn notification_form_has_its_members(notification: NotificationView)
    ensures
        message_json(MessageView::Notification(notification)) == notification_json(notification),
        match notification_json(notification) {
            JsonView::Object(members) => {
                &&& forall|name: Seq<char>| #[trigger]
                    members.contains_key(name) <==> name == "jsonrpc"@ || name == "method"@ || (
                    name == "params"@ && notification.params is Some)
                &&& members["jsonrpc"@] == JsonView::String(notification.jsonrpc)
                &&& members["method"@] == JsonView::String(notification.method)
                &&& notification.params is Some ==> members["params"@] == notification.params->0
            },
            _ => false,
        },
{
    lemma_names();
}

/// The kind of a message shows in its JSON form: only requests and responses have an identifier,
/// and only requests and notifications have a method.
pub proof fn kind_shows_in_the_form(message: MessageView)
    ensures
        match message_json(message) {
            JsonView::Object(members) => {
                &&& members.contains_key("id"@) <==> message !is Notification
                &&& members.contains_key("method"@) <==> message !is Response
            },
            _ => false,
        },
{
    lemma_names();
}

} // verus!
