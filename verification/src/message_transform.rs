//! The messages of a client, made to fit the codec of the `rmcp` crate: that crate knows the
//! notification `initialized` under the name `notifications/initialized`, and the notification
//! `progress` not at all.

use crate::json;
use crate::json::{
    error_text, has_exact_numbers, is_nested, is_readable, json, json_parsed, json_read, json_text,
    no_members, JsonView, ReadView, READABLE_DEPTH,
};
use crate::text;
use crate::text::utf8_lossy;
use bytes::BytesMut;
use rmcp::model::ClientJsonRpcMessage;
use rmcp::transport::async_rw::{JsonRpcMessageCodec, JsonRpcMessageCodecError};
use tokio_util::codec::{Decoder, Encoder};
use vstd::prelude::*;
use vstd::slice::{slice_subrange, slice_to_vec};
use vstd::utf8::encode_utf8;

verus! {

/// `bytes::BytesMut`.
#[verifier::external_type_specification]
#[verifier::external_body]
pub struct ExBytesMut(bytes::BytesMut);

/// `rmcp::model::JsonRpcMessage`.
#[verifier::external_type_specification]
#[verifier::external_body]
#[verifier::reject_recursive_types(Req)]
#[verifier::reject_recursive_types(Resp)]
#[verifier::reject_recursive_types(Noti)]
pub struct ExJsonRpcMessage<Req, Resp, Noti>(rmcp::model::JsonRpcMessage<Req, Resp, Noti>);

/// `rmcp::model::ClientRequest`.
#[verifier::external_type_specification]
#[verifier::external_body]
pub struct ExClientRequest(rmcp::model::ClientRequest);

/// `rmcp::model::ClientResult`.
#[verifier::external_type_specification]
#[verifier::external_body]
pub struct ExClientResult(rmcp::model::ClientResult);

/// `rmcp::model::ClientNotification`.
#[verifier::external_type_specification]
#[verifier::external_body]
pub struct ExClientNotification(rmcp::model::ClientNotification);

/// `rmcp::transport::async_rw::JsonRpcMessageCodec`.
#[verifier::external_type_specification]
#[verifier::external_body]
#[verifier::reject_recursive_types(T)]
pub struct ExJsonRpcMessageCodec<T>(rmcp::transport::async_rw::JsonRpcMessageCodec<T>);

/// `rmcp::transport::async_rw::JsonRpcMessageCodecError`.
#[verifier::external_type_specification]
#[verifier::external_body]
pub struct ExJsonRpcMessageCodecError(rmcp::transport::async_rw::JsonRpcMessageCodecError);

/// The bytes that a buffer holds.
pub uninterp spec fn contents(buffer: BytesMut) -> Seq<u8>;

/// `BytesMut` as a slice: the bytes that it holds.
#[verifier::external_body]
fn as_slice(buffer: &BytesMut) -> (r: &[u8])
    ensures
        r@ == contents(*buffer),
{
    buffer.as_ref()
}

/// `BytesMut::from` a slice: a buffer that holds the bytes of the slice.
#[verifier::external_body]
fn buffer_of(bytes: &[u8]) -> (r: BytesMut)
    ensures
        contents(r) == bytes@,
{
    BytesMut::from(bytes)
}

/// How many bytes of its buffer a codec without a limit on the length of a line has searched for
/// the end of a line; nothing for a codec with such a limit.
pub uninterp spec fn searched(codec: JsonRpcMessageCodec<ClientJsonRpcMessage>) -> Option<nat>;

/// What comes of a line: a message, by its JSON value, nothing, or an error, by its words.
pub enum LineView {
    Message(Option<JsonView>),
    Nothing,
    Error(Seq<char>),
}

/// The words of an error of the codec, as its `Display` gives them.
pub uninterp spec fn codec_error_text(error: JsonRpcMessageCodecError) -> Seq<char>;

/// The JSON value of the text that `serde_json` writes for a message, or nothing where it writes
/// none. The order of the members in the text is not part of it.
pub uninterp spec fn message_value(message: ClientJsonRpcMessage) -> Option<JsonView>;

/// What the codec makes of a line: a message, nothing for a notification that it passes over, or
/// an error.
pub uninterp spec fn line_decoded(line: Seq<u8>) -> LineView;

/// What a codec returned.
pub open spec fn outcome(
    r: Result<Option<ClientJsonRpcMessage>, JsonRpcMessageCodecError>,
) -> LineView {
    match r {
        Ok(Some(message)) => LineView::Message(message_value(message)),
        Ok(None) => LineView::Nothing,
        Err(error) => LineView::Error(codec_error_text(error)),
    }
}

/// A line was appended to `before`: a JSON text without a newline, from which `value` is read
/// back where it is readable, and a newline.
pub open spec fn line_appended(before: Seq<u8>, after: Seq<u8>, value: JsonView) -> bool {
    exists|text: Seq<char>|
        {
            &&& after == before + (#[trigger] encode_utf8(text)).push(10)
            &&& text.len() > 0
            &&& !text.contains('\n')
            &&& is_readable(value, READABLE_DEPTH as nat) ==> json_parsed(text) == Some(value)
        }
}

/// `JsonRpcMessageCodec::default`: a codec without a limit on the length of a line, which has
/// searched nothing.
#[verifier::external_body]
fn new_codec() -> (r: JsonRpcMessageCodec<ClientJsonRpcMessage>)
    ensures
        searched(r) == Some(0nat),
{
    JsonRpcMessageCodec::default()
}

/// The position of the first newline of `bytes` at or behind `from`, or nothing where there is
/// none.
pub open spec fn newline_behind(bytes: Seq<u8>, from: int) -> Option<int>
    decreases bytes.len() - from,
{
    if from >= bytes.len() {
        None
    } else if bytes[from] == 10 {
        Some(from)
    } else {
        newline_behind(bytes, from + 1)
    }
}

/// The newline that was found is the first one.
pub proof fn first_newline_is_found(bytes: Seq<u8>, from: int)
    requires
        0 <= from,
    ensures
        match newline_behind(bytes, from) {
            Some(end) => from <= end < bytes.len() && bytes[end] == 10 && forall|i: int|
                from <= i < end ==> bytes[i] != 10,
            None => forall|i: int| from <= i < bytes.len() ==> bytes[i] != 10,
        },
    decreases bytes.len() - from,
{
    if from < bytes.len() && bytes[from] != 10 {
        first_newline_is_found(bytes, from + 1);
    }
}

/// A line without the carriage return at its end.
pub open spec fn without_carriage_return(line: Seq<u8>) -> Seq<u8> {
    if line.len() > 0 && line.last() == 13 {
        line.drop_last()
    } else {
        line
    }
}

/// What a codec that has searched `position` bytes of `bytes` returns, what is left of the
/// bytes, and how many of them are searched then.
pub open spec fn next_line(bytes: Seq<u8>, position: nat) -> (
    LineView,
    Seq<u8>,
    nat,
) {
    match newline_behind(bytes, position as int) {
        Some(end) => (
            line_decoded(without_carriage_return(bytes.take(end))),
            bytes.skip(end + 1),
            0,
        ),
        None => (LineView::Nothing, bytes, bytes.len()),
    }
}

/// `JsonRpcMessageCodec::decode`: the first line that ends where the codec has not searched yet
/// is taken out of the buffer and decoded; where no line ends there, the codec remembers that it
/// has searched the whole buffer. What the line gives is stated by the JSON value of the message
/// and by the words of the error. It is not to be called with a buffer that is shorter than what
/// the codec has searched, where it panics.
#[verifier::external_body]
fn decode_line(
    codec: &mut JsonRpcMessageCodec<ClientJsonRpcMessage>,
    buffer: &mut BytesMut,
) -> (r: Result<Option<ClientJsonRpcMessage>, JsonRpcMessageCodecError>)
    requires
        searched(*old(codec)) is Some,
        searched(*old(codec))->0 <= contents(*old(buffer)).len(),
    ensures
        match newline_behind(contents(*old(buffer)), searched(*old(codec))->0 as int) {
            Some(end) => {
                &&& line_decoded(without_carriage_return(contents(*old(buffer)).take(end)))
                    == match r {
                    Ok(Some(message)) => LineView::Message(message_value(message)),
                    Ok(None) => LineView::Nothing,
                    Err(error) => LineView::Error(codec_error_text(error)),
                }
                &&& contents(*final(buffer)) == contents(*old(buffer)).skip(end + 1)
                &&& searched(*final(codec)) == Some(0nat)
            },
            None => {
                &&& outcome(r) is Nothing
                &&& contents(*final(buffer)) == contents(*old(buffer))
                &&& searched(*final(codec)) == Some(contents(*old(buffer)).len())
            },
        },
{
    codec.decode(buffer)
}

/// `JsonRpcMessageCodec::encode`: a JSON text of the message and a newline are appended to the
/// buffer, and the codec has searched what it had. In which order the members stand in the text
/// is not stated, as a message may hold a hash map. Where the message has no JSON text, the
/// result is an error; what is appended to the buffer then is not stated.
#[verifier::external_body]
fn encode_line(
    codec: &mut JsonRpcMessageCodec<ClientJsonRpcMessage>,
    message: ClientJsonRpcMessage,
    buffer: &mut BytesMut,
) -> (r: Result<(), JsonRpcMessageCodecError>)
    ensures
        r is Ok == message_value(message) is Some,
        searched(*final(codec)) == searched(*old(codec)),
        match message_value(message) {
            Some(value) => line_appended(contents(*old(buffer)), contents(*final(buffer)), value),
            None => contents(*old(buffer)).is_prefix_of(contents(*final(buffer))),
        },
{
    codec.encode(message, buffer)
}

/// The parameters are empty: no value, or an object without members.
pub open spec fn is_empty_params(params: JsonView) -> bool {
    params is Null || params == JsonView::Object(no_members())
}

/// The notification `initialized` under the name that the codec knows, without parameters that
/// are empty.
pub open spec fn renamed_notification(members: Map<Seq<char>, JsonView>) -> JsonView {
    let members = members.insert("method"@, JsonView::String("notifications/initialized"@));
    if members.contains_key("params"@) && is_empty_params(members["params"@]) {
        JsonView::Object(members.remove("params"@))
    } else {
        JsonView::Object(members)
    }
}

/// The method of a message, where it is a text.
pub open spec fn method_of(value: JsonView) -> Option<Seq<char>> {
    match value {
        JsonView::Object(members) if members.contains_key("method"@) => match members["method"@] {
            JsonView::String(method) => Some(method),
            _ => None,
        },
        _ => None,
    }
}

/// A message as the codec is to see it, or nothing where the codec is not to see it.
pub open spec fn transformed_value(value: JsonView) -> Option<JsonView> {
    if method_of(value) == Some("initialized"@) {
        Some(renamed_notification(value->Object_0))
    } else if method_of(value) == Some("progress"@) {
        None
    } else {
        Some(value)
    }
}

/// The text of a message as the codec is to see it, the empty text where the codec is not to see
/// it, or nothing where the text is no JSON.
pub open spec fn transformed_text(text: Seq<char>) -> Option<Seq<char>> {
    match json_parsed(text) {
        None => None,
        Some(value) => match transformed_value(value) {
            Some(value) => Some(json_text(value)),
            None => Some(Seq::empty()),
        },
    }
}

/// A message that was made to fit is nested no deeper than before, and holds no other numbers.
proof fn lemma_fitting_is_readable(value: JsonView, fitting: JsonView)
    requires
        transformed_value(value) == Some(fitting),
    ensures
        is_nested(value, READABLE_DEPTH as nat) ==> is_nested(fitting, READABLE_DEPTH as nat),
        has_exact_numbers(value, READABLE_DEPTH as nat) ==> has_exact_numbers(
            fitting,
            READABLE_DEPTH as nat,
        ),
{
    let below = (READABLE_DEPTH - 1) as nat;
    if method_of(value) == Some("initialized"@) {
        let before = value->Object_0;
        let after = fitting->Object_0;
        let method = JsonView::String("notifications/initialized"@);
        assert(is_nested(method, below) && has_exact_numbers(method, below));
        assert forall|name: Seq<char>| #[trigger] after.contains_key(name) implies after[name]
            == method || before.contains_key(name) && after[name] == before[name] by {}
    }
}

/// A message as the codec is to see it, or nothing where the codec is not to see it.
pub fn transform_value(value: serde_json::Value) -> (r: Option<serde_json::Value>)
    ensures
        match r {
            Some(after) => transformed_value(json(value)) == Some(json(after)),
            None => transformed_value(json(value)) is None,
        },
{
    let mut object = match json::into_object(value) {
        Ok(object) => object,
        Err(other) => {
            return Some(other);
        },
    };
    let (is_initialized, is_progress) = match json::get(&object, "method") {
        Some(method) => match json::as_str(method) {
            Some(method) => (text::same(method, "initialized"), text::same(method, "progress")),
            None => (false, false),
        },
        None => (false, false),
    };
    proof {
        reveal_strlit("initialized");
        reveal_strlit("progress");
        assert("initialized"@.len() != "progress"@.len());
    }
    if is_progress {
        return None;
    }
    if is_initialized {
        json::insert(
            &mut object,
            "method".to_owned(),
            json::from_string("notifications/initialized".to_owned()),
        );
        let is_empty = match json::get(&object, "params") {
            Some(params) => match json::as_object(params) {
                Some(params) => json::is_empty(params),
                None => json::is_null(params),
            },
            None => false,
        };
        if is_empty {
            json::remove(&mut object, "params");
        }
    }
    Some(json::from_object(object))
}

/// What a byte of a message does to the reading of the message: `depth` braces are open,
/// `in_string` says that the byte behind stands in a string, and `escaped` that it is escaped.
pub struct Reading {
    pub depth: int,
    pub in_string: bool,
    pub escaped: bool,
}

/// The reading of a message before its first byte.
pub open spec fn unread() -> Reading {
    Reading { depth: 0, in_string: false, escaped: false }
}

/// The reading of a message behind one more byte.
pub open spec fn read_byte(reading: Reading, byte: u8) -> Reading {
    Reading {
        depth: if reading.in_string {
            reading.depth
        } else if byte == 123 {
            reading.depth + 1
        } else if byte == 125 {
            reading.depth - 1
        } else {
            reading.depth
        },
        in_string: if byte == 34 && !reading.escaped {
            !reading.in_string
        } else {
            reading.in_string
        },
        escaped: byte == 92 && !reading.escaped,
    }
}

/// The length of the message that is read, up to the brace that closes its first one, or nothing
/// where that brace is still to come.
pub open spec fn message_len(bytes: Seq<u8>, reading: Reading) -> Option<nat>
    decreases bytes.len(),
{
    if bytes.len() == 0 {
        None
    } else if read_byte(reading, bytes[0]).depth == 0 {
        Some(1)
    } else {
        match message_len(bytes.drop_first(), read_byte(reading, bytes[0])) {
            Some(n) => Some(n + 1),
            None => None,
        }
    }
}

/// The position of the first brace that opens, or nothing where there is none.
pub open spec fn brace_at(bytes: Seq<u8>) -> Option<nat>
    decreases bytes.len(),
{
    if bytes.len() == 0 {
        None
    } else if bytes[0] == 123 {
        Some(0)
    } else {
        match brace_at(bytes.drop_first()) {
            Some(n) => Some(n + 1),
            None => None,
        }
    }
}

/// The buffer of the codec, made to fit it.
#[derive(Debug, PartialEq, Eq)]
pub enum Rewritten {
    /// No message begins in the buffer.
    Nothing,
    /// The first message was taken out of the buffer, which holds these bytes now.
    Removed(Vec<u8>),
    /// The codec is to decode these bytes.
    Ready(Vec<u8>),
}

/// The model of the buffer of the codec, made to fit it.
pub enum RewrittenView {
    Nothing,
    Removed(Seq<u8>),
    Ready(Seq<u8>),
}

impl View for Rewritten {
    type V = RewrittenView;

    open spec fn view(&self) -> RewrittenView {
        match self {
            Rewritten::Nothing => RewrittenView::Nothing,
            Rewritten::Removed(bytes) => RewrittenView::Removed(bytes@),
            Rewritten::Ready(bytes) => RewrittenView::Ready(bytes@),
        }
    }
}

/// The bytes with those from `start` to `end` replaced.
pub open spec fn replaced(bytes: Seq<u8>, start: int, end: int, by: Seq<u8>) -> Seq<u8> {
    bytes.take(start) + by + bytes.skip(end)
}

/// The bytes with the message from `start` to `end` made to fit the codec, given the JSON value
/// that was read from it: as they are where it is no JSON, without the message where the codec is
/// not to see it.
pub open spec fn with_message(
    bytes: Seq<u8>,
    start: int,
    end: int,
    value: Option<JsonView>,
) -> RewrittenView {
    match value {
        None => RewrittenView::Ready(bytes),
        Some(value) => match transformed_value(value) {
            None => RewrittenView::Removed(replaced(bytes, start, end, Seq::empty())),
            Some(value) => RewrittenView::Ready(
                replaced(bytes, start, end, encode_utf8(json_text(value))),
            ),
        },
    }
}

/// The bytes with the first message in them made to fit the codec, where it is complete.
pub open spec fn rewritten(bytes: Seq<u8>) -> RewrittenView {
    match brace_at(bytes) {
        None => RewrittenView::Nothing,
        Some(start) => match message_len(bytes.skip(start as int), unread()) {
            None => RewrittenView::Ready(bytes),
            Some(len) => with_message(
                bytes,
                start as int,
                (start + len) as int,
                json_parsed(utf8_lossy(bytes.subrange(start as int, (start + len) as int))),
            ),
        },
    }
}

/// The position of the first brace that opens, or nothing where there is none.
pub fn find_brace(bytes: &[u8]) -> (r: Option<usize>)
    ensures
        match r {
            Some(n) => brace_at(bytes@) == Some(n as nat) && n < bytes@.len() && bytes@[n as int]
                == 123,
            None => brace_at(bytes@) is None,
        },
{
    let mut i: usize = 0;
    assert(bytes@.skip(0) =~= bytes@);
    while i < bytes.len()
        invariant
            i <= bytes@.len(),
            brace_at(bytes@) == match brace_at(bytes@.skip(i as int)) {
                Some(n) => Some(n + i as nat),
                None => None,
            },
        decreases bytes@.len() - i,
    {
        if bytes[i] == 123 {
            return Some(i);
        }
        assert(bytes@.skip(i as int).drop_first() =~= bytes@.skip(i + 1));
        i = i + 1;
    }
    None
}

/// The length of the message at the beginning of the bytes, up to the brace that closes its
/// first one, or nothing where that brace is still to come.
pub fn find_message_end(bytes: &[u8]) -> (r: Option<usize>)
    requires
        bytes@.len() > 0,
        bytes@[0] == 123,
    ensures
        match r {
            Some(n) => message_len(bytes@, unread()) == Some(n as nat) && 0 < n <= bytes@.len(),
            None => message_len(bytes@, unread()) is None,
        },
{
    let mut i: usize = 1;
    let mut depth: usize = 1;
    let mut in_string = false;
    let mut escaped = false;
    let ghost mut reading = read_byte(unread(), 123);
    assert(bytes@.drop_first() =~= bytes@.skip(1));
    while i < bytes.len()
        invariant
            1 <= i <= bytes@.len(),
            reading == (Reading { depth: depth as int, in_string, escaped }),
            1 <= depth <= i,
            message_len(bytes@, unread()) == match message_len(bytes@.skip(i as int), reading) {
                Some(n) => Some(n + i as nat),
                None => None,
            },
        decreases bytes@.len() - i,
    {
        let byte = bytes[i];
        let ghost rest = bytes@.skip(i as int);
        assert(rest.drop_first() =~= bytes@.skip(i + 1));
        assert(rest[0] == byte);
        proof {
            reading = read_byte(reading, byte);
        }
        if !in_string && byte == 123 {
            depth = depth + 1;
        } else if !in_string && byte == 125 {
            depth = depth - 1;
            if depth == 0 {
                return Some(i + 1);
            }
        }
        if byte == 34 && !escaped {
            in_string = !in_string;
        }
        escaped = byte == 92 && !escaped;
        i = i + 1;
    }
    None
}

/// The bytes with those from `start` to `end` replaced.
fn replace(bytes: &[u8], start: usize, end: usize, by: &[u8]) -> (r: Vec<u8>)
    requires
        start <= end <= bytes@.len(),
    ensures
        r@ == replaced(bytes@, start as int, end as int, by@),
{
    let mut r: Vec<u8> = Vec::new();
    r.extend_from_slice(slice_subrange(bytes, 0, start));
    r.extend_from_slice(by);
    r.extend_from_slice(slice_subrange(bytes, end, bytes.len()));
    assert(r@ =~= replaced(bytes@, start as int, end as int, by@));
    r
}

/// A codec that makes the messages of a client fit the codec of the `rmcp` crate before that one
/// decodes them.
pub struct McpCompatCodec {
    inner: JsonRpcMessageCodec<ClientJsonRpcMessage>,
    position: usize,
}

impl Default for McpCompatCodec {
    fn default() -> (r: Self)
        ensures
            r.wf(),
            r.position() == 0,
    {
        McpCompatCodec { inner: new_codec(), position: 0 }
    }
}

/// What a codec that has searched `position` bytes returns for the bytes of its buffer, what is
/// left of them, and how many of them are searched then.
pub open spec fn decoded(bytes: Seq<u8>, position: nat) -> (
    LineView,
    Seq<u8>,
    nat,
) {
    match rewritten(bytes) {
        RewrittenView::Nothing => (LineView::Nothing, bytes, position),
        RewrittenView::Removed(rest) => (LineView::Nothing, rest, position),
        RewrittenView::Ready(bytes) => next_line(bytes, position),
    }
}

/// The codec has not searched more than what is left of the bytes once they are made to fit it.
pub open spec fn fits(bytes: Seq<u8>, position: nat) -> bool {
    rewritten(bytes) matches RewrittenView::Ready(bytes) ==> position <= bytes.len()
}

impl McpCompatCodec {
    /// How many bytes of its buffer the codec has searched for the end of a line.
    pub closed spec fn position(&self) -> nat {
        self.position as nat
    }

    /// The codec has searched as many bytes as it says.
    pub closed spec fn wf(&self) -> bool {
        searched(self.inner) == Some(self.position as nat)
    }

    /// The text of a message as the codec is to see it, the empty text where the codec is not to
    /// see it, or the error where the text is no JSON. The text is one line, and the message is
    /// read back from it. Where the numbers of the message are integers, to make the text fit
    /// once more gives the same text.
    pub fn transform_message(json_str: &str) -> (r: Result<String, serde_json::Error>)
        ensures
            match r {
                Ok(text) => transformed_text(json_str@) == Some(text@),
                Err(error) => json_read(json_str@) == ReadView::Error(error_text(error)),
            },
            match json_parsed(json_str@) {
                None => r is Err,
                Some(value) => r matches Ok(text) && match transformed_value(value) {
                    Some(value) => {
                        &&& text@ == json_text(value)
                        &&& text@.len() > 0
                        &&& !text@.contains('\n')
                        &&& is_readable(value, READABLE_DEPTH as nat) ==> json_parsed(text@)
                            == Some(value)
                    },
                    None => text@.len() == 0,
                },
            },
            match r {
                Ok(text) => text@.len() > 0 && has_exact_numbers(
                    json_parsed(json_str@)->0,
                    READABLE_DEPTH as nat,
                ) ==> transformed_text(text@) == Some(text@),
                Err(_) => true,
            },
    {
        let value = match json::from_str(json_str) {
            Ok(value) => value,
            Err(error) => {
                return Err(error);
            },
        };
        let ghost before = json(value);
        match transform_value(value) {
            Some(value) => {
                proof {
                    lemma_fitting_is_readable(before, json(value));
                    fitting_twice_is_fitting_once(before, json(value));
                }
                json::to_string(&value)
            },
            None => {
                let text = String::new();
                assert(text@ =~= Seq::<char>::empty());
                Ok(text)
            },
        }
    }

    /// The bytes with the first message in them made to fit the codec, where it is complete.
    pub fn rewrite(bytes: &[u8]) -> (r: Rewritten)
        ensures
            r@ == rewritten(bytes@),
    {
        let start: usize = match find_brace(bytes) {
            Some(start) => start,
            None => {
                return Rewritten::Nothing;
            },
        };
        let rest = slice_subrange(bytes, start, bytes.len());
        assert(rest@ =~= bytes@.skip(start as int));
        let end: usize = match find_message_end(rest) {
            Some(len) => start + len,
            None => {
                return Rewritten::Ready(slice_to_vec(bytes));
            },
        };
        let message = text::from_utf8_lossy(slice_subrange(bytes, start, end));
        proof {
            reveal_strlit("");
        }
        match Self::transform_message(message.as_str()) {
            Ok(message) => {
                assert(message@.len() == 0 ==> message@ =~= ""@);
                if text::same(message.as_str(), "") {
                    let nothing: Vec<u8> = Vec::new();
                    Rewritten::Removed(replace(bytes, start, end, nothing.as_slice()))
                } else {
                    Rewritten::Ready(replace(bytes, start, end, message.as_str().as_bytes()))
                }
            },
            Err(_) => Rewritten::Ready(slice_to_vec(bytes)),
        }
    }

    /// The next message of the buffer, where it holds a whole line, or the error with which that
    /// line is no message. The bytes that were used are taken out of the buffer.
    pub fn decode(&mut self, src: &mut BytesMut) -> (r: Result<
        Option<ClientJsonRpcMessage>,
        JsonRpcMessageCodecError,
    >)
        requires
            old(self).wf(),
            fits(contents(*old(src)), old(self).position()),
        ensures
            final(self).wf(),
            (outcome(r), contents(*final(src)), final(self).position()) == decoded(
                contents(*old(src)),
                old(self).position(),
            ),
    {
        let rewritten = Self::rewrite(as_slice(src));
        self.decode_rewritten(src, rewritten)
    }

    /// The next message of the buffer, given the bytes of the buffer made to fit the codec.
    fn decode_rewritten(&mut self, src: &mut BytesMut, rewritten: Rewritten) -> (r: Result<
        Option<ClientJsonRpcMessage>,
        JsonRpcMessageCodecError,
    >)
        requires
            old(self).wf(),
            rewritten@ matches RewrittenView::Ready(bytes) ==> old(self).position() <= bytes.len(),
        ensures
            final(self).wf(),
            (outcome(r), contents(*final(src)), final(self).position()) == match rewritten@ {
                RewrittenView::Nothing => (
                    LineView::Nothing,
                    contents(*old(src)),
                    old(self).position(),
                ),
                RewrittenView::Removed(rest) => (LineView::Nothing, rest, old(self).position()),
                RewrittenView::Ready(bytes) => next_line(bytes, old(self).position()),
            },
    {
        match rewritten {
            Rewritten::Nothing => Ok(None),
            Rewritten::Removed(rest) => {
                *src = buffer_of(rest.as_slice());
                Ok(None)
            },
            Rewritten::Ready(bytes) => {
                *src = buffer_of(bytes.as_slice());
                let before: usize = bytes.len();
                proof {
                    first_newline_is_found(bytes@, self.position as int);
                }
                let r = decode_line(&mut self.inner, src);
                let after: usize = as_slice(src).len();
                self.position = if after == before {
                    before
                } else {
                    0
                };
                r
            },
        }
    }

    /// The next message of the buffer, as far as the buffer has not become shorter than what the
    /// codec has searched: then nothing, and nothing is changed.
    pub fn try_decode(&mut self, src: &mut BytesMut) -> (r: Option<
        Result<Option<ClientJsonRpcMessage>, JsonRpcMessageCodecError>,
    >)
        requires
            old(self).wf(),
        ensures
            final(self).wf(),
            match r {
                Some(result) => fits(contents(*old(src)), old(self).position()) && (
                    outcome(result),
                    contents(*final(src)),
                    final(self).position(),
                ) == decoded(contents(*old(src)), old(self).position()),
                None => !fits(contents(*old(src)), old(self).position()) && *final(src) == *old(
                    src,
                ) && *final(self) == *old(self),
            },
    {
        let rewritten = Self::rewrite(as_slice(src));
        if let Rewritten::Ready(bytes) = &rewritten {
            if self.position > bytes.len() {
                return None;
            }
        }
        Some(self.decode(src))
    }

    /// The message and a newline are appended to the buffer.
    pub fn encode(&mut self, item: ClientJsonRpcMessage, dst: &mut BytesMut) -> (r: Result<
        (),
        JsonRpcMessageCodecError,
    >)
        requires
            old(self).wf(),
        ensures
            final(self).wf(),
            final(self).position() == old(self).position(),
            r is Ok == message_value(item) is Some,
            match message_value(item) {
                Some(value) => line_appended(contents(*old(dst)), contents(*final(dst)), value),
                None => contents(*old(dst)).is_prefix_of(contents(*final(dst))),
            },
    {
        encode_line(&mut self.inner, item, dst)
    }
}

/// The notification `initialized` gets the name that the codec knows; its other members stay as
/// they are, but for parameters that are empty, which are gone.
pub proof fn initialized_is_renamed(value: JsonView)
    requires
        method_of(value) == Some("initialized"@),
    ensures
        ({
            let before = value->Object_0;
            let after = transformed_value(value)->0->Object_0;
            &&& transformed_value(value) == Some(JsonView::Object(after))
            &&& method_of(JsonView::Object(after)) == Some("notifications/initialized"@)
            &&& forall|name: Seq<char>|
                name != "method"@ && name != "params"@ ==> (#[trigger] after.contains_key(name)
                    <==> before.contains_key(name)) && after[name] == before[name]
            &&& after.contains_key("params"@) <==> before.contains_key("params"@)
                && !is_empty_params(before["params"@])
            &&& after.contains_key("params"@) ==> after["params"@] == before["params"@]
        }),
{
    reveal_strlit("method");
    reveal_strlit("params");
    assert("method"@[0] != "params"@[0]);
}

/// A message with any other method, or without one, passes as it is.
pub proof fn other_messages_pass(value: JsonView)
    requires
        method_of(value) != Some("initialized"@),
        method_of(value) != Some("progress"@),
    ensures
        transformed_value(value) == Some(value),
{
}

/// A message that fits the codec stays as it is: to make messages fit twice is to do it once.
pub proof fn fitting_twice_is_fitting_once(value: JsonView, fitting: JsonView)
    requires
        transformed_value(value) == Some(fitting),
    ensures
        transformed_value(fitting) == Some(fitting),
{
    reveal_strlit("initialized");
    reveal_strlit("progress");
    reveal_strlit("notifications/initialized");
    assert("notifications/initialized"@.len() > "initialized"@.len());
    assert("notifications/initialized"@.len() > "progress"@.len());
    if method_of(value) == Some("initialized"@) {
        initialized_is_renamed(value);
    }
}

/// The notification `progress` is never decoded: it is taken out of the buffer, and everything
/// around it stays.
pub proof fn progress_is_taken_out(
    bytes: Seq<u8>,
    position: nat,
    start: nat,
    len: nat,
    value: JsonView,
)
    requires
        brace_at(bytes) == Some(start),
        message_len(bytes.skip(start as int), unread()) == Some(len),
        json_parsed(utf8_lossy(bytes.subrange(start as int, (start + len) as int))) == Some(value),
        method_of(value) == Some("progress"@),
    ensures
        decoded(bytes, position) == (
            LineView::Nothing,
            bytes.take(start as int) + bytes.skip((start + len) as int),
            position,
        ),
{
    reveal_strlit("initialized");
    reveal_strlit("progress");
    assert("initialized"@.len() != "progress"@.len());
    assert(replaced(bytes, start as int, (start + len) as int, Seq::empty()) =~= bytes.take(
        start as int,
    ) + bytes.skip((start + len) as int));
}

/// No byte is lost while a message is not complete, and no message is returned.
pub proof fn incomplete_message_waits(bytes: Seq<u8>, position: nat)
    requires
        match brace_at(bytes) {
            Some(start) => message_len(bytes.skip(start as int), unread()) is None
                && newline_behind(bytes, position as int) is None,
            None => true,
        },
    ensures
        decoded(bytes, position).0 == LineView::Nothing,
        decoded(bytes, position).1 == bytes,
{
}

/// A message ends with a brace, and where it ends does not depend on the bytes behind it.
pub proof fn message_ends_at_its_brace(bytes: Seq<u8>, more: Seq<u8>, len: nat)
    requires
        bytes.len() > 0,
        bytes[0] == 123,
        message_len(bytes, unread()) == Some(len),
    ensures
        1 < len <= bytes.len(),
        bytes[len - 1] == 125,
        message_len(bytes + more, unread()) == Some(len),
{
    let reading = read_byte(unread(), 123);
    lemma_message_len(bytes.drop_first(), more, reading, (len - 1) as nat);
    assert((bytes + more).drop_first() =~= bytes.drop_first() + more);
}

proof fn lemma_message_len(bytes: Seq<u8>, more: Seq<u8>, reading: Reading, len: nat)
    requires
        reading.depth > 0,
        message_len(bytes, reading) == Some(len),
    ensures
        0 < len <= bytes.len(),
        bytes[len - 1] == 125,
        message_len(bytes + more, reading) == Some(len),
    decreases bytes.len(),
{
    let next = read_byte(reading, bytes[0]);
    if next.depth != 0 {
        lemma_message_len(bytes.drop_first(), more, next, (len - 1) as nat);
        assert((bytes + more).drop_first() =~= bytes.drop_first() + more);
    }
}

/// A codec that goes on searching behind bytes without a newline finds the line that it would have
/// found from the beginning.
pub proof fn searching_on_finds_the_same_line(bytes: Seq<u8>, position: nat)
    requires
        position <= bytes.len(),
        forall|i: int| 0 <= i < position ==> bytes[i] != 10,
    ensures
        next_line(bytes, position) == next_line(bytes, 0),
{
    first_newline_is_found(bytes, position as int);
    first_newline_is_found(bytes, 0);
}

} // verus!
