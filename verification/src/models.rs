//! JSON-RPC messages, server-sent events and the state of the proxy.

use crate::json;
use crate::json::{JsonView, NumberView};
use crate::text;
use std::sync::Arc;
use std::time::Instant;
use vstd::hash_map::StringHashMap;
use vstd::prelude::*;

verus! {

/// `std::time::Instant`.
#[verifier::external_type_specification]
#[verifier::external_body]
pub struct ExInstant(std::time::Instant);

/// The identifier of a request: a number or a text.
#[derive(Debug, Eq, PartialEq, Hash)]
pub enum NumberOrString {
    Number(u32),
    String(Arc<str>),
}

pub type RequestId = NumberOrString;

/// The model of an identifier.
pub enum IdView {
    Number(u32),
    String(Seq<char>),
}

impl View for NumberOrString {
    type V = IdView;

    open spec fn view(&self) -> IdView {
        match self {
            NumberOrString::Number(n) => IdView::Number(*n),
            NumberOrString::String(s) => IdView::String(s@),
        }
    }
}

impl Clone for NumberOrString {
    fn clone(&self) -> (r: Self)
        ensures
            r@ == self@,
    {
        match self {
            NumberOrString::Number(n) => NumberOrString::Number(*n),
            NumberOrString::String(s) => NumberOrString::String(s.clone()),
        }
    }
}

/// The text of an identifier: the number in decimal notation, or the text itself.
pub open spec fn id_text(id: IdView) -> Seq<char> {
    match id {
        IdView::Number(n) => text::decimal(n as nat),
        IdView::String(s) => s,
    }
}

/// An identifier as a JSON value.
pub open spec fn id_json(id: IdView) -> JsonView {
    match id {
        IdView::Number(n) => JsonView::Number(NumberView::Natural(n as u64)),
        IdView::String(s) => JsonView::String(s),
    }
}

/// Why a JSON value is no identifier.
#[derive(Debug, Clone, Copy, PartialEq, Eq, Structural)]
pub enum IdError {
    /// The value is a number that is negative, too large or not an integer.
    NotAnInteger,
    /// The value is neither a number nor a string.
    NotNumberOrString,
}

impl IdError {
    /// The words for the error.
    pub fn message(&self) -> (r: &'static str)
        ensures
            r@ == match self {
                IdError::NotAnInteger => "Expect an integer"@,
                IdError::NotNumberOrString => "Expect number or string"@,
            },
    {
        match self {
            IdError::NotAnInteger => "Expect an integer",
            IdError::NotNumberOrString => "Expect number or string",
        }
    }
}

/// The identifier that a JSON value stands for. Of a number only the low 32 bits count.
pub open spec fn id_of_json(value: JsonView) -> Result<IdView, IdError> {
    match value {
        JsonView::Number(NumberView::Natural(n)) => Ok(
            IdView::Number((n % 0x1_0000_0000) as u32),
        ),
        JsonView::Number(_) => Err(IdError::NotAnInteger),
        JsonView::String(s) => Ok(IdView::String(s)),
        _ => Err(IdError::NotNumberOrString),
    }
}

impl NumberOrString {
    /// The text of the identifier.
    pub fn to_string(&self) -> (r: String)
        ensures
            r@ == id_text(self@),
    {
        match self {
            NumberOrString::Number(n) => text::decimal_text(*n as u64),
            NumberOrString::String(s) => {
                let text: &str = &**s;
                text.to_owned()
            },
        }
    }

    /// The identifier as a JSON value.
    pub fn to_value(&self) -> (r: serde_json::Value)
        ensures
            json::json(r) == id_json(self@),
    {
        match self {
            NumberOrString::Number(n) => json::from_number(*n),
            NumberOrString::String(s) => {
                let text: &str = &**s;
                json::from_string(text.to_owned())
            },
        }
    }

    /// The identifier that a JSON value stands for.
    pub fn from_value(value: &serde_json::Value) -> (r: Result<Self, IdError>)
        ensures
            match r {
                Ok(id) => id_of_json(json::json(*value)) == Ok::<IdView, IdError>(id@),
                Err(e) => id_of_json(json::json(*value)) == Err::<IdView, IdError>(e),
            },
    {
        if json::is_number(value) {
            match json::as_u64(value) {
                Some(n) => {
                    assert(n as u32 == n % 0x1_0000_0000) by (bit_vector);
                    Ok(NumberOrString::Number(#[verifier::truncate] (n as u32)))
                },
                None => Err(IdError::NotAnInteger),
            }
        } else {
            match json::as_str(value) {
                Some(s) => Ok(NumberOrString::String(text::shared(s.to_owned()))),
                None => Err(IdError::NotNumberOrString),
            }
        }
    }

    /// The two identifiers are the same.
    pub fn same(&self, other: &Self) -> (r: bool)
        ensures
            r == (self@ == other@),
    {
        match (self, other) {
            (NumberOrString::Number(a), NumberOrString::Number(b)) => *a == *b,
            (NumberOrString::String(a), NumberOrString::String(b)) => text::same(&**a, &**b),
            _ => false,
        }
    }
}

/// An identifier that was written as JSON is read back as it was.
pub proof fn id_round_trip(id: IdView)
    ensures
        id_of_json(id_json(id)) == Ok::<IdView, IdError>(id),
{
}

/// JSON-RPC 2.0 request
#[derive(Debug, PartialEq, Eq)]
pub struct JSONRPCRequest {
    pub jsonrpc: String,
    pub id: RequestId,
    pub method: String,
    pub params: Option<serde_json::Value>,
}

/// JSON-RPC 2.0 response
#[derive(Debug, PartialEq, Eq)]
pub struct JSONRPCResponse {
    pub jsonrpc: String,
    pub id: RequestId,
    pub result: Option<serde_json::Value>,
    pub error: Option<JSONRPCError>,
}

/// JSON-RPC 2.0 error
#[derive(Debug, PartialEq, Eq)]
pub struct JSONRPCError {
    pub code: i32,
    pub message: String,
    pub data: Option<serde_json::Value>,
}

/// JSON-RPC 2.0 notification
#[derive(Debug, PartialEq, Eq)]
pub struct JSONRPCNotification {
    pub jsonrpc: String,
    pub method: String,
    pub params: Option<serde_json::Value>,
}

/// Any JSON-RPC 2.0 message (request, response, or notification)
#[derive(Debug, PartialEq, Eq)]
pub enum JSONRPCMessage {
    Request(JSONRPCRequest),
    Response(JSONRPCResponse),
    Notification(JSONRPCNotification),
}

/// SSE event types
#[derive(Debug, PartialEq, Eq)]
pub enum SSEEvent {
    Endpoint(String),
    Message(JSONRPCMessage),
    Other(String, String),
}

/// The model of a request.
pub struct RequestView {
    pub jsonrpc: Seq<char>,
    pub id: IdView,
    pub method: Seq<char>,
    pub params: Option<JsonView>,
}

/// The model of an error.
pub struct ErrorView {
    pub code: i32,
    pub message: Seq<char>,
    pub data: Option<JsonView>,
}

/// The model of a response.
pub struct ResponseView {
    pub jsonrpc: Seq<char>,
    pub id: IdView,
    pub result: Option<JsonView>,
    pub error: Option<ErrorView>,
}

/// The model of a notification.
pub struct NotificationView {
    pub jsonrpc: Seq<char>,
    pub method: Seq<char>,
    pub params: Option<JsonView>,
}

/// The model of a message.
pub enum MessageView {
    Request(RequestView),
    Response(ResponseView),
    Notification(NotificationView),
}

/// The model of a server-sent event.
pub enum SseEventView {
    Endpoint(Seq<char>),
    Message(MessageView),
    Other(Seq<char>, Seq<char>),
}

/// The JSON value that may be there.
pub open spec fn optional_json(value: Option<serde_json::Value>) -> Option<JsonView> {
    match value {
        Some(value) => Some(json::json(value)),
        None => None,
    }
}

/// The text that may be there.
pub open spec fn optional_text(text: Option<String>) -> Option<Seq<char>> {
    match text {
        Some(text) => Some(text@),
        None => None,
    }
}

impl View for JSONRPCRequest {
    type V = RequestView;

    open spec fn view(&self) -> RequestView {
        RequestView {
            jsonrpc: self.jsonrpc@,
            id: self.id@,
            method: self.method@,
            params: optional_json(self.params),
        }
    }
}

impl View for JSONRPCError {
    type V = ErrorView;

    open spec fn view(&self) -> ErrorView {
        ErrorView {
            code: self.code,
            message: self.message@,
            data: optional_json(self.data),
        }
    }
}

impl View for JSONRPCResponse {
    type V = ResponseView;

    open spec fn view(&self) -> ResponseView {
        ResponseView {
            jsonrpc: self.jsonrpc@,
            id: self.id@,
            result: optional_json(self.result),
            error: match self.error {
                Some(error) => Some(error@),
                None => None,
            },
        }
    }
}

impl View for JSONRPCNotification {
    type V = NotificationView;

    open spec fn view(&self) -> NotificationView {
        NotificationView {
            jsonrpc: self.jsonrpc@,
            method: self.method@,
            params: optional_json(self.params),
        }
    }
}

impl View for JSONRPCMessage {
    type V = MessageView;

    open spec fn view(&self) -> MessageView {
        match self {
            JSONRPCMessage::Request(m) => MessageView::Request(m@),
            JSONRPCMessage::Response(m) => MessageView::Response(m@),
            JSONRPCMessage::Notification(m) => MessageView::Notification(m@),
        }
    }
}

impl View for SSEEvent {
    type V = SseEventView;

    open spec fn view(&self) -> SseEventView {
        match self {
            SSEEvent::Endpoint(endpoint) => SseEventView::Endpoint(endpoint@),
            SSEEvent::Message(message) => SseEventView::Message(message@),
            SSEEvent::Other(event_type, data) => SseEventView::Other(event_type@, data@),
        }
    }
}

fn clone_value(value: &Option<serde_json::Value>) -> (r: Option<serde_json::Value>)
    ensures
        optional_json(r) == optional_json(*value),
{
    match value {
        Some(value) => Some(value.clone()),
        None => None,
    }
}

impl JSONRPCRequest {
    /// The protocol version that an initialize request asks for, where it asks for one.
    pub fn requested_protocol_version(&self) -> (r: Option<String>)
        ensures
            optional_text(r) == requested_version(self@),
    {
        let params = match &self.params {
            Some(params) => params,
            None => {
                return None;
            },
        };
        match json::as_object(params) {
            Some(members) => match json::get(members, "protocolVersion") {
                Some(version) => match json::as_str(version) {
                    Some(version) => Some(version.to_owned()),
                    None => None,
                },
                None => None,
            },
            None => None,
        }
    }
}

impl Clone for JSONRPCRequest {
    fn clone(&self) -> (r: Self)
        ensures
            r@ == self@,
    {
        JSONRPCRequest {
            jsonrpc: self.jsonrpc.clone(),
            id: self.id.clone(),
            method: self.method.clone(),
            params: clone_value(&self.params),
        }
    }
}

impl Clone for JSONRPCError {
    fn clone(&self) -> (r: Self)
        ensures
            r@ == self@,
    {
        JSONRPCError {
            code: self.code,
            message: self.message.clone(),
            data: clone_value(&self.data),
        }
    }
}

impl Clone for JSONRPCResponse {
    fn clone(&self) -> (r: Self)
        ensures
            r@ == self@,
    {
        JSONRPCResponse {
            jsonrpc: self.jsonrpc.clone(),
            id: self.id.clone(),
            result: clone_value(&self.result),
            error: match &self.error {
                Some(error) => Some(error.clone()),
                None => None,
            },
        }
    }
}

impl Clone for JSONRPCNotification {
    fn clone(&self) -> (r: Self)
        ensures
            r@ == self@,
    {
        JSONRPCNotification {
            jsonrpc: self.jsonrpc.clone(),
            method: self.method.clone(),
            params: clone_value(&self.params),
        }
    }
}

impl Clone for JSONRPCMessage {
    fn clone(&self) -> (r: Self)
        ensures
            r@ == self@,
    {
        match self {
            JSONRPCMessage::Request(m) => JSONRPCMessage::Request(m.clone()),
            JSONRPCMessage::Response(m) => JSONRPCMessage::Response(m.clone()),
            JSONRPCMessage::Notification(m) => JSONRPCMessage::Notification(m.clone()),
        }
    }
}

impl Clone for SSEEvent {
    fn clone(&self) -> (r: Self)
        ensures
            r@ == self@,
    {
        match self {
            SSEEvent::Endpoint(endpoint) => SSEEvent::Endpoint(endpoint.clone()),
            SSEEvent::Message(message) => SSEEvent::Message(message.clone()),
            SSEEvent::Other(event_type, data) => SSEEvent::Other(event_type.clone(), data.clone()),
        }
    }
}

/// Buffer mode
#[derive(Debug, Clone, Copy, PartialEq, Eq, Structural)]
pub enum BufferMode {
    Store,
    Fail,
}

/// Proxy state
#[derive(Debug, PartialEq, Eq)]
pub enum ProxyState {
    Connecting,
    Connected,
    Disconnected,
    WaitingForEndpoint,
    WaitingForClientInit,
    WaitingForServerInit(RequestId),
    WaitingForServerInitHidden(RequestId),
    WaitingForClientInitialized,
}

/// The model of the proxy state.
pub enum StateView {
    Connecting,
    Connected,
    Disconnected,
    WaitingForEndpoint,
    WaitingForClientInit,
    WaitingForServerInit(IdView),
    WaitingForServerInitHidden(IdView),
    WaitingForClientInitialized,
}

impl View for ProxyState {
    type V = StateView;

    open spec fn view(&self) -> StateView {
        match self {
            ProxyState::Connecting => StateView::Connecting,
            ProxyState::Connected => StateView::Connected,
            ProxyState::Disconnected => StateView::Disconnected,
            ProxyState::WaitingForEndpoint => StateView::WaitingForEndpoint,
            ProxyState::WaitingForClientInit => StateView::WaitingForClientInit,
            ProxyState::WaitingForServerInit(id) => StateView::WaitingForServerInit(id@),
            ProxyState::WaitingForServerInitHidden(id) => StateView::WaitingForServerInitHidden(
                id@,
            ),
            ProxyState::WaitingForClientInitialized => StateView::WaitingForClientInitialized,
        }
    }
}

impl Clone for ProxyState {
    fn clone(&self) -> (r: Self)
        ensures
            r@ == self@,
    {
        match self {
            ProxyState::Connecting => ProxyState::Connecting,
            ProxyState::Connected => ProxyState::Connected,
            ProxyState::Disconnected => ProxyState::Disconnected,
            ProxyState::WaitingForEndpoint => ProxyState::WaitingForEndpoint,
            ProxyState::WaitingForClientInit => ProxyState::WaitingForClientInit,
            ProxyState::WaitingForServerInit(id) => ProxyState::WaitingForServerInit(id.clone()),
            ProxyState::WaitingForServerInitHidden(id) => ProxyState::WaitingForServerInitHidden(
                id.clone(),
            ),
            ProxyState::WaitingForClientInitialized => ProxyState::WaitingForClientInitialized,
        }
    }
}

/// Application state
pub struct AppState {
    /// URL of the SSE server
    pub url: String,
    /// Endpoint URL for sending HTTP requests
    pub endpoint: Option<String>,
    /// Maximum time to try reconnecting in seconds (None = infinity)
    pub max_disconnected_time: Option<u64>,
    /// When we were disconnected
    pub disconnected_since: Option<Instant>,
    /// Current state of the application
    pub state: ProxyState,
    /// Number of connection attempts
    pub connect_tries: u32,
    /// The initialization message (for reconnecting)
    pub init_message: Option<JSONRPCRequest>,
    /// Map of generated IDs to original IDs
    pub id_map: StringHashMap<RequestId>,
    /// Buffer for holding messages during reconnection
    pub in_buf: Vec<JSONRPCMessage>,
    /// Buffer mode (store or fail)
    pub buf_mode: BufferMode,
    /// The protocol version to report to the client in place of the server's
    pub override_protocol_version: Option<String>,
    /// Whether to report the protocol version that the client asked for
    pub rewrite_protocol_version: bool,
}

/// The model of the application state.
pub struct AppView {
    pub url: Seq<char>,
    pub endpoint: Option<Seq<char>>,
    pub max_disconnected_time: Option<u64>,
    pub disconnected_since: Option<Instant>,
    pub state: StateView,
    pub connect_tries: u32,
    pub init_message: Option<RequestView>,
    pub id_map: Map<Seq<char>, IdView>,
    pub in_buf: Seq<MessageView>,
    pub buf_mode: BufferMode,
    pub override_protocol_version: Option<Seq<char>>,
    pub rewrite_protocol_version: bool,
}

/// The models of messages, in their order.
pub open spec fn message_views(messages: Seq<JSONRPCMessage>) -> Seq<MessageView> {
    messages.map_values(|m: JSONRPCMessage| m@)
}

/// The models of the original identifiers, by the generated ones.
pub open spec fn id_views(ids: Map<Seq<char>, RequestId>) -> Map<Seq<char>, IdView> {
    ids.map_values(|id: RequestId| id@)
}

impl View for AppState {
    type V = AppView;

    open spec fn view(&self) -> AppView {
        AppView {
            url: self.url@,
            endpoint: optional_text(self.endpoint),
            max_disconnected_time: self.max_disconnected_time,
            disconnected_since: self.disconnected_since,
            state: self.state@,
            connect_tries: self.connect_tries,
            init_message: match self.init_message {
                Some(message) => Some(message@),
                None => None,
            },
            id_map: id_views(self.id_map@),
            in_buf: message_views(self.in_buf@),
            buf_mode: self.buf_mode,
            override_protocol_version: optional_text(self.override_protocol_version),
            rewrite_protocol_version: self.rewrite_protocol_version,
        }
    }
}

/// The state of a proxy that has not connected yet.
pub open spec fn initial(url: Seq<char>, max_disconnected_time: Option<u64>) -> AppView {
    AppView {
        url,
        endpoint: None,
        max_disconnected_time,
        disconnected_since: None,
        state: StateView::Connecting,
        connect_tries: 0,
        init_message: None,
        id_map: Map::empty(),
        in_buf: Seq::empty(),
        buf_mode: BufferMode::Store,
        override_protocol_version: None,
        rewrite_protocol_version: false,
    }
}

/// The state once the handshake with the server is complete.
pub open spec fn when_connected(app: AppView) -> AppView {
    AppView {
        state: StateView::Connected,
        connect_tries: 0,
        disconnected_since: None,
        buf_mode: BufferMode::Store,
        ..app
    }
}

/// The protocol version that an initialize request asks for, where it asks for one.
pub open spec fn requested_version(request: RequestView) -> Option<Seq<char>> {
    match request.params {
        Some(JsonView::Object(members)) if members.contains_key("protocolVersion"@) => {
            match members["protocolVersion"@] {
                JsonView::String(version) => Some(version),
                _ => None,
            }
        },
        _ => None,
    }
}

/// The protocol version that the client is to see in place of the server's, where there is one:
/// the given one, or else, where that is wanted, the one that the client asked for.
pub open spec fn reported_version(app: AppView) -> Option<Seq<char>> {
    match app.override_protocol_version {
        Some(version) => Some(version),
        None => match app.init_message {
            Some(request) if app.rewrite_protocol_version => requested_version(request),
            _ => None,
        },
    }
}

/// After a wait of `waited` seconds without a connection, the time for trying to reconnect is
/// over.
pub open spec fn too_long(app: AppView, waited: u64) -> bool {
    match (app.max_disconnected_time, app.disconnected_since) {
        (Some(max_time), Some(_)) => waited > max_time,
        _ => false,
    }
}

/// `Instant::elapsed`, in whole seconds.
#[verifier::external_body]
pub(crate) fn elapsed_secs(since: &Instant) -> (r: u64) {
    since.elapsed().as_secs()
}

/// `Instant::now`.
#[verifier::external_body]
pub(crate) fn now() -> (r: Instant) {
    Instant::now()
}

impl AppState {
    /// A proxy for the server at `url` that has not connected yet.
    pub fn new(url: String, max_disconnected_time: Option<u64>) -> (r: Self)
        ensures
            r@ == initial(url@, max_disconnected_time),
    {
        let r = AppState {
            url,
            endpoint: None,
            max_disconnected_time,
            disconnected_since: None,
            state: ProxyState::Connecting,
            connect_tries: 0,
            init_message: None,
            id_map: StringHashMap::new(),
            in_buf: Vec::new(),
            buf_mode: BufferMode::Store,
            override_protocol_version: None,
            rewrite_protocol_version: false,
        };
        assert(r@.id_map =~= Map::<Seq<char>, IdView>::empty());
        assert(r@.in_buf =~= Seq::<MessageView>::empty());
        r
    }

    /// The protocol version that the client is to see in place of the server's, where there is
    /// one.
    pub fn reported_protocol_version(&self) -> (r: Option<String>)
        ensures
            optional_text(r) == reported_version(self@),
    {
        if let Some(version) = &self.override_protocol_version {
            return Some(version.clone());
        }
        if !self.rewrite_protocol_version {
            return None;
        }
        match &self.init_message {
            Some(request) => request.requested_protocol_version(),
            None => None,
        }
    }

    /// The handshake with the server is complete.
    pub fn connected(&mut self)
        ensures
            final(self)@ == when_connected(old(self)@),
    {
        self.state = ProxyState::Connected;
        self.connect_tries = 0;
        self.disconnected_since = None;
        self.buf_mode = BufferMode::Store;
    }

    /// The time for trying to reconnect is over, `waited` seconds after the disconnection.
    pub fn waited_too_long(&self, waited: u64) -> (r: bool)
        ensures
            r == too_long(self@, waited),
    {
        match (&self.max_disconnected_time, &self.disconnected_since) {
            (Some(max_time), Some(_)) => waited > *max_time,
            _ => false,
        }
    }

    /// The time for trying to reconnect is over: more seconds than the limit have passed since
    /// the disconnection. How many have passed the clock decides.
    pub fn disconnected_too_long(&self) -> (r: bool)
        ensures
            exists|waited: u64| r == #[trigger] too_long(self@, waited),
            self.max_disconnected_time is None || self.disconnected_since is None ==> !r,
    {
        let waited: u64 = match &self.disconnected_since {
            Some(since) => elapsed_secs(since),
            None => 0,
        };
        self.waited_too_long(waited)
    }
}

/// The model of an identifier tells a number from a text, and holds the number or the text.
pub proof fn identifier_is_modelled(id: NumberOrString)
    ensures
        match id {
            NumberOrString::Number(n) => id@ == IdView::Number(n),
            NumberOrString::String(s) => id@ == IdView::String(s@),
        },
{
}

/// The model of a request holds each of its members.
pub proof fn request_is_modelled(request: JSONRPCRequest)
    ensures
        request@.jsonrpc == request.jsonrpc@,
        request@.id == request.id@,
        request@.method == request.method@,
        request@.params is Some <==> request.params is Some,
        request.params is Some ==> request@.params->0 == json::json(request.params->0),
{
}

/// The model of a response holds each of its members.
pub proof fn response_is_modelled(response: JSONRPCResponse)
    ensures
        response@.jsonrpc == response.jsonrpc@,
        response@.id == response.id@,
        response@.result is Some <==> response.result is Some,
        response.result is Some ==> response@.result->0 == json::json(response.result->0),
        response@.error is Some <==> response.error is Some,
        response.error is Some ==> response@.error->0 == response.error->0@,
{
}

/// The model of an error holds each of its members.
pub proof fn error_is_modelled(error: JSONRPCError)
    ensures
        error@.code == error.code,
        error@.message == error.message@,
        error@.data is Some <==> error.data is Some,
        error.data is Some ==> error@.data->0 == json::json(error.data->0),
{
}

/// The model of a notification holds each of its members.
pub proof fn notification_is_modelled(notification: JSONRPCNotification)
    ensures
        notification@.jsonrpc == notification.jsonrpc@,
        notification@.method == notification.method@,
        notification@.params is Some <==> notification.params is Some,
        notification.params is Some ==> notification@.params->0 == json::json(
            notification.params->0,
        ),
{
}

/// The model of a message is of the kind of the message.
pub proof fn message_is_modelled(message: JSONRPCMessage)
    ensures
        match message {
            JSONRPCMessage::Request(m) => message@ is Request && message@->Request_0 == m@,
            JSONRPCMessage::Response(m) => message@ is Response && message@->Response_0 == m@,
            JSONRPCMessage::Notification(m) => message@ is Notification
                && message@->Notification_0 == m@,
        },
{
}

/// The model of a server-sent event is of the kind of the event.
pub proof fn event_is_modelled(event: SSEEvent)
    ensures
        match event {
            SSEEvent::Endpoint(endpoint) => event@ is Endpoint && event@->Endpoint_0 == endpoint@,
            SSEEvent::Message(message) => event@ is Message && event@->Message_0 == message@,
            SSEEvent::Other(event_type, data) => event@ is Other && event@->Other_0
                == event_type@ && event@->Other_1 == data@,
        },
{
}

/// The model of the application state holds each of its fields, the messages that wait in their
/// order.
pub proof fn state_is_modelled(app: AppState)
    ensures
        app@.url == app.url@,
        app@.endpoint is Some <==> app.endpoint is Some,
        app.endpoint is Some ==> app@.endpoint->0 == app.endpoint->0@,
        app@.max_disconnected_time == app.max_disconnected_time,
        app@.disconnected_since == app.disconnected_since,
        app@.connect_tries == app.connect_tries,
        app@.init_message is Some <==> app.init_message is Some,
        app.init_message is Some ==> app@.init_message->0 == app.init_message->0@,
        app@.id_map.dom() == app.id_map@.dom(),
        forall|id: Seq<char>| #[trigger]
            app.id_map@.contains_key(id) ==> app@.id_map[id] == app.id_map@[id]@,
        app@.in_buf.len() == app.in_buf@.len(),
        forall|i: int|
            0 <= i < app.in_buf@.len() ==> #[trigger] app@.in_buf[i] == app.in_buf@[i]@,
        app@.buf_mode == app.buf_mode,
        app@.override_protocol_version is Some <==> app.override_protocol_version is Some,
        app.override_protocol_version is Some ==> app@.override_protocol_version->0
            == app.override_protocol_version->0@,
        app@.rewrite_protocol_version == app.rewrite_protocol_version,
        app@.state is Connecting <==> app.state is Connecting,
        app@.state is Connected <==> app.state is Connected,
        app@.state is Disconnected <==> app.state is Disconnected,
        app@.state is WaitingForEndpoint <==> app.state is WaitingForEndpoint,
        app@.state is WaitingForClientInit <==> app.state is WaitingForClientInit,
        app@.state is WaitingForClientInitialized <==> app.state is WaitingForClientInitialized,
        match app.state {
            ProxyState::WaitingForServerInit(id) => app@.state is WaitingForServerInit
                && app@.state->WaitingForServerInit_0 == id@,
            ProxyState::WaitingForServerInitHidden(id) => app@.state is WaitingForServerInitHidden
                && app@.state->WaitingForServerInitHidden_0 == id@,
            _ => true,
        },
{
}

/// The text of an identifier that is a text is that text; the text of a number consists of
/// decimal digits without a leading zero, and they are those of the number.
pub proof fn id_text_shows_the_id(id: IdView)
    ensures
        match id {
            IdView::String(s) => id_text(id) == s,
            IdView::Number(n) => id_text(id).len() > 0 && text::all_digits(id_text(id))
                && text::digits_value(id_text(id)) == n && (id_text(id)[0]
                == '0' ==> id_text(id).len() == 1),
        },
{
    if let IdView::Number(n) = id {
        text::lemma_decimal(n as nat);
        text::decimal_has_no_leading_zero(n as nat);
    }
}

/// As JSON, an identifier that is a number is that number, and one that is a text is that text.
pub proof fn id_is_written_as_it_is(id: IdView)
    ensures
        match id {
            IdView::String(s) => id_json(id) is String && id_json(id)->String_0 == s,
            IdView::Number(n) => id_json(id) is Number && id_json(id)->Number_0 is Natural
                && id_json(id)->Number_0->Natural_0 == n,
        },
{
}

/// A JSON string is read as the identifier with that text. A natural number is read as the
/// identifier with that number, where it has 32 bits, and else as one that is smaller by a
/// multiple of two to the power of 32. No other value is an identifier.
pub proof fn id_is_read_as_it_is(value: JsonView)
    ensures
        match value {
            JsonView::String(s) => match id_of_json(value) {
                Ok(id) => id is String && id->String_0 == s,
                Err(_) => false,
            },
            JsonView::Number(NumberView::Natural(n)) => match id_of_json(value) {
                Ok(id) => id is Number && (n <= 0xffff_ffff ==> id->Number_0 == n)
                    && id->Number_0 <= n && (n - id->Number_0) % 0x1_0000_0000 == 0,
                Err(_) => false,
            },
            JsonView::Number(_) => match id_of_json(value) {
                Ok(_) => false,
                Err(error) => error is NotAnInteger,
            },
            _ => match id_of_json(value) {
                Ok(_) => false,
                Err(error) => error is NotNumberOrString,
            },
        },
{
}

/// A new proxy has its URL and its time limit, is connecting for the first time, knows nothing of
/// the server, keeps nothing, stores what cannot be sent, and reports the server's version.
pub proof fn new_proxy_knows_nothing(url: Seq<char>, limit: Option<u64>)
    ensures
        ({
            let app = initial(url, limit);
            &&& app.url == url
            &&& app.max_disconnected_time == limit
            &&& app.state is Connecting
            &&& app.connect_tries == 0
            &&& app.endpoint is None
            &&& app.disconnected_since is None
            &&& app.init_message is None
            &&& forall|id: Seq<char>| !app.id_map.contains_key(id)
            &&& app.in_buf.len() == 0
            &&& app.buf_mode is Store
            &&& app.override_protocol_version is None
            &&& !app.rewrite_protocol_version
        }),
{
}

/// A complete handshake ends the disconnection: no failed attempt and no time of a loss is
/// remembered, and messages are stored again. Everything else stays.
pub proof fn handshake_ends_the_disconnection(app: AppView)
    ensures
        ({
            let after = when_connected(app);
            &&& after.state is Connected
            &&& after.connect_tries == 0
            &&& after.disconnected_since is None
            &&& after.buf_mode is Store
            &&& after.url == app.url
            &&& after.endpoint == app.endpoint
            &&& after.max_disconnected_time == app.max_disconnected_time
            &&& after.init_message == app.init_message
            &&& after.id_map == app.id_map
            &&& after.in_buf == app.in_buf
            &&& after.override_protocol_version == app.override_protocol_version
            &&& after.rewrite_protocol_version == app.rewrite_protocol_version
        }),
{
}

/// The version that the client is to see is the given one; without one, and where that is
/// wanted, the text under `protocolVersion` in the parameters of the stored initialize request;
/// and in every other case the server's own.
pub proof fn reported_version_is_given_or_asked_for(app: AppView)
    ensures
        app.override_protocol_version is Some ==> reported_version(app)
            == app.override_protocol_version,
        app.override_protocol_version is None && (!app.rewrite_protocol_version
            || app.init_message is None) ==> reported_version(app) is None,
        app.override_protocol_version is None && app.rewrite_protocol_version
            && app.init_message is Some ==> match app.init_message->0.params {
            Some(JsonView::Object(members)) => {
                let asked = members.contains_key("protocolVersion"@)
                    && members["protocolVersion"@] is String;
                &&& reported_version(app) is Some <==> asked
                &&& asked ==> reported_version(app)->0 == members["protocolVersion"@]->String_0
            },
            _ => reported_version(app) is None,
        },
{
}

/// The time for trying to reconnect is over as soon as the limit is exceeded, and not before; it
/// is never over without a limit or without a disconnection.
pub proof fn time_is_over_past_the_limit(app: AppView, waited: u64)
    ensures
        app.max_disconnected_time is None ==> !too_long(app, waited),
        app.disconnected_since is None ==> !too_long(app, waited),
        app.max_disconnected_time is Some && app.disconnected_since is Some ==> (too_long(
            app,
            waited,
        ) <==> app.max_disconnected_time->0 < waited),
{
}

/// The models of messages stand in the order of the messages.
pub proof fn messages_are_modelled_in_order(messages: Seq<JSONRPCMessage>)
    ensures
        message_views(messages).len() == messages.len(),
        forall|i: int|
            0 <= i < messages.len() ==> #[trigger] message_views(messages)[i] == messages[i]@,
{
}

} // verus!
