//! Server-sent events: how a stream of bytes is read as a stream of events.

use crate::models::{optional_text, JSONRPCMessage, MessageView, SSEEvent, SseEventView};
use crate::text;
use crate::text::{
    has_bare_ends, is_blank, is_whitespace, newline_at, trimmed, trimmed_start, utf8_error,
};
use vstd::prelude::*;
use vstd::utf8::{decode_utf8, pop_first_scalar, valid_utf8, valid_utf8_concat};

verus! {

/// An event whose data was not looked at yet.
#[derive(Debug, PartialEq, Eq)]
pub struct PendingEvent {
    pub event_type: String,
    pub data: String,
}

/// The model of an event whose data was not looked at yet.
pub struct PendingView {
    pub event_type: Seq<char>,
    pub data: Seq<char>,
}

impl View for PendingEvent {
    type V = PendingView;

    open spec fn view(&self) -> PendingView {
        PendingView { event_type: self.event_type@, data: self.data@ }
    }
}

/// The event, given the message that its data is, where it is one.
pub open spec fn resolved(event: PendingView, message: Option<MessageView>) -> SseEventView {
    if event.event_type == "message"@ {
        match message {
            Some(message) => SseEventView::Message(message),
            None => SseEventView::Other(event.event_type, event.data),
        }
    } else if event.event_type == "endpoint"@ {
        SseEventView::Endpoint(event.data)
    } else {
        SseEventView::Other(event.event_type, event.data)
    }
}

impl PendingEvent {
    /// The data of the event is to be read as a message.
    pub fn is_message(&self) -> (r: bool)
        ensures
            r == (self@.event_type == "message"@),
    {
        text::same(self.event_type.as_str(), "message")
    }

    /// The event, given the message that its data is, where it is one.
    pub fn resolve(self, message: Option<JSONRPCMessage>) -> (r: SSEEvent)
        ensures
            r@ == resolved(
                self@,
                match message {
                    Some(message) => Some(message@),
                    None => None,
                },
            ),
    {
        proof {
            reveal_strlit("message");
            reveal_strlit("endpoint");
            assert("message"@.len() != "endpoint"@.len());
        }
        if self.is_message() {
            match message {
                Some(message) => SSEEvent::Message(message),
                None => SSEEvent::Other(self.event_type, self.data),
            }
        } else if text::same(self.event_type.as_str(), "endpoint") {
            SSEEvent::Endpoint(self.data)
        } else {
            SSEEvent::Other(self.event_type, self.data)
        }
    }
}

/// A stream that parses SSE events: the text that is not read yet, and the type and the data of
/// the event that is read.
#[derive(Debug, PartialEq, Eq)]
pub struct SSEStream {
    pub buffer: String,
    pub event_type: Option<String>,
    pub data: String,
}

/// The model of a stream.
pub struct StreamView {
    pub buffer: Seq<char>,
    pub event_type: Option<Seq<char>>,
    pub data: Seq<char>,
}

impl View for SSEStream {
    type V = StreamView;

    open spec fn view(&self) -> StreamView {
        StreamView {
            buffer: self.buffer@,
            event_type: optional_text(self.event_type),
            data: self.data@,
        }
    }
}

/// The stream with more text.
pub open spec fn extended(stream: StreamView, text: Seq<char>) -> StreamView {
    StreamView { buffer: stream.buffer + text, ..stream }
}

/// The stream behind a line, and the event that the line ends. An empty line ends the event, where
/// it has data; a line sets the type or the data of the event; any other line is passed over.
pub open spec fn line_read(stream: StreamView, line: Seq<char>) -> (
    StreamView,
    Option<PendingView>,
) {
    if line.len() == 0 {
        if stream.data.len() == 0 {
            (stream, None)
        } else {
            (
                StreamView { event_type: None, data: Seq::empty(), ..stream },
                Some(
                    PendingView {
                        event_type: match stream.event_type {
                            Some(event_type) => event_type,
                            None => "message"@,
                        },
                        data: stream.data,
                    },
                ),
            )
        }
    } else if "event:"@.is_prefix_of(line) {
        (
            StreamView { event_type: Some(trimmed(line.skip("event:"@.len() as int))), ..stream },
            None,
        )
    } else if "data:"@.is_prefix_of(line) {
        (StreamView { data: trimmed(line.skip("data:"@.len() as int)), ..stream }, None)
    } else {
        (stream, None)
    }
}

/// The stream behind its first line, and the event that the line ends.
pub open spec fn first_line_read(stream: StreamView) -> (StreamView, Option<PendingView>) {
    let end = newline_at(stream.buffer);
    line_read(
        StreamView { buffer: stream.buffer.skip((end + 1) as int), ..stream },
        trimmed(stream.buffer.take(end as int)),
    )
}

/// The stream behind the next event, or behind its last whole line where no event ends in it.
pub open spec fn event_read(stream: StreamView) -> (StreamView, Option<PendingView>)
    decreases stream.buffer.len(),
{
    if newline_at(stream.buffer) >= stream.buffer.len() {
        (stream, None)
    } else {
        let (after, event) = first_line_read(stream);
        if event is Some {
            (after, event)
        } else {
            event_read(after)
        }
    }
}

/// The stream behind its last whole line, and the events that end in it.
pub open spec fn all_read(stream: StreamView) -> (StreamView, Seq<PendingView>)
    decreases stream.buffer.len(),
{
    if newline_at(stream.buffer) >= stream.buffer.len() {
        (stream, Seq::empty())
    } else {
        let (after, event) = first_line_read(stream);
        let (end, events) = all_read(after);
        match event {
            Some(event) => (end, seq![event] + events),
            None => (end, events),
        }
    }
}

/// What comes next from the server.
#[derive(Debug, PartialEq, Eq)]
pub enum StreamInput {
    Bytes(Vec<u8>),
    Failed(String),
    Ended,
}

/// The model of what comes next from the server.
pub enum InputView {
    Bytes(Seq<u8>),
    Failed(Seq<char>),
    Ended,
}

impl View for StreamInput {
    type V = InputView;

    open spec fn view(&self) -> InputView {
        match self {
            StreamInput::Bytes(bytes) => InputView::Bytes(bytes@),
            StreamInput::Failed(error) => InputView::Failed(error@),
            StreamInput::Ended => InputView::Ended,
        }
    }
}

/// What a stream says once something came from the server.
#[derive(Debug, PartialEq, Eq)]
pub enum StreamOutput {
    /// There is more to read.
    More,
    Event(PendingEvent),
    Error(String),
    End,
}

/// The model of what a stream says once something came from the server.
pub enum OutputView {
    More,
    Event(PendingView),
    Error(Seq<char>),
    End,
}

impl View for StreamOutput {
    type V = OutputView;

    open spec fn view(&self) -> OutputView {
        match self {
            StreamOutput::More => OutputView::More,
            StreamOutput::Event(event) => OutputView::Event(event@),
            StreamOutput::Error(error) => OutputView::Error(error@),
            StreamOutput::End => OutputView::End,
        }
    }
}

/// The stream once something came from the server, and what it says. Bytes are text; what is left
/// at the end is a last line.
pub open spec fn received(stream: StreamView, input: InputView) -> (StreamView, OutputView) {
    match input {
        InputView::Bytes(bytes) => if valid_utf8(bytes) {
            (extended(stream, decode_utf8(bytes)), OutputView::More)
        } else {
            (stream, OutputView::Error("Invalid UTF-8: "@ + utf8_error(bytes)))
        },
        InputView::Failed(error) => (stream, OutputView::Error("Stream error: "@ + error)),
        InputView::Ended => if stream.buffer.len() == 0 {
            (stream, OutputView::End)
        } else {
            match line_read(StreamView { buffer: Seq::empty(), ..stream }, stream.buffer) {
                (after, Some(event)) => (after, OutputView::Event(event)),
                (after, None) => (after, OutputView::End),
            }
        },
    }
}

impl SSEStream {
    pub fn new() -> (r: Self)
        ensures
            r@ == (StreamView { buffer: Seq::empty(), event_type: None, data: Seq::empty() }),
    {
        SSEStream { buffer: String::new(), event_type: None, data: String::new() }
    }

    /// Reads a line, and returns the event that it ends.
    pub fn process_line(&mut self, line: &str) -> (r: Option<PendingEvent>)
        ensures
            final(self)@ == line_read(old(self)@, line@).0,
            line_read(old(self)@, line@).1 == match r {
                Some(event) => Some(event@),
                None => None,
            },
    {
        proof {
            reveal_strlit("");
            assert(line@.len() == 0 ==> line@ =~= ""@);
            assert(self.data@.len() == 0 ==> self.data@ =~= ""@);
        }
        if text::same(line, "") {
            if text::same(self.data.as_str(), "") {
                return None;
            }
            let mut data = String::new();
            std::mem::swap(&mut self.data, &mut data);
            let event_type = match self.event_type.take() {
                Some(event_type) => event_type,
                None => "message".to_owned(),
            };
            return Some(PendingEvent { event_type, data });
        }
        if let Some(event_type) = text::strip_prefix(line, "event:") {
            assert(event_type@ =~= line@.skip("event:"@.len() as int));
            self.event_type = Some(text::trim(event_type).to_owned());
        } else if let Some(data) = text::strip_prefix(line, "data:") {
            assert(data@ =~= line@.skip("data:"@.len() as int));
            self.data = text::trim(data).to_owned();
        }
        None
    }

    /// Reads the whole lines up to the end of the next event, and returns it, or all of them where
    /// no event ends in them.
    pub fn next_event(&mut self) -> (r: Option<PendingEvent>)
        ensures
            final(self)@ == event_read(old(self)@).0,
            event_read(old(self)@).1 == match r {
                Some(event) => Some(event@),
                None => None,
            },
    {
        loop
            invariant
                event_read(self@) == event_read(old(self)@),
            decreases self.buffer@.len(),
        {
            let (line, rest) = match text::split_line(self.buffer.as_str()) {
                Some((line, rest)) => {
                    proof {
                        text::lemma_newline_at(self.buffer@, line@, rest@);
                        assert(self.buffer@.take(line@.len() as int) =~= line@);
                        assert(self.buffer@.skip((line@.len() + 1) as int) =~= rest@);
                    }
                    (text::trim(line).to_owned(), rest.to_owned())
                },
                None => {
                    proof {
                        text::lemma_no_newline(self.buffer@);
                    }
                    return None;
                },
            };
            self.buffer = rest;
            let event = self.process_line(line.as_str());
            if event.is_some() {
                return event;
            }
        }
    }

    /// Takes what came from the server, and says what it is.
    pub fn receive(&mut self, input: StreamInput) -> (r: StreamOutput)
        ensures
            (final(self)@, r@) == received(old(self)@, input@),
    {
        match input {
            StreamInput::Bytes(bytes) => match text::from_utf8(bytes) {
                Ok(text) => {
                    self.buffer.append(text.as_str());
                    StreamOutput::More
                },
                Err(error) => StreamOutput::Error(
                    "Invalid UTF-8: ".to_owned().concat(error.as_str()),
                ),
            },
            StreamInput::Failed(error) => StreamOutput::Error(
                "Stream error: ".to_owned().concat(error.as_str()),
            ),
            StreamInput::Ended => {
                proof {
                    reveal_strlit("");
                    assert(self.buffer@.len() == 0 ==> self.buffer@ =~= ""@);
                }
                if text::same(self.buffer.as_str(), "") {
                    return StreamOutput::End;
                }
                let mut line = String::new();
                std::mem::swap(&mut self.buffer, &mut line);
                match self.process_line(line.as_str()) {
                    Some(event) => StreamOutput::Event(event),
                    None => StreamOutput::End,
                }
            },
        }
    }
}

/// How the text of a stream is cut into chunks does not matter: to read the events of a chunk and
/// then those of the next is to read those of the two together.
pub proof fn chunks_do_not_matter(stream: StreamView, first: Seq<char>, second: Seq<char>)
    ensures
        ({
            let (between, events) = all_read(extended(stream, first));
            let (after, more_events) = all_read(extended(between, second));
            all_read(extended(stream, first + second)) == (after, events + more_events)
        }),
{
    assert(stream.buffer + (first + second) =~= (stream.buffer + first) + second);
    lemma_all_read(extended(stream, first), second);
}

/// The chunks of a text, one behind the other.
pub open spec fn joined(chunks: Seq<Seq<char>>) -> Seq<char>
    decreases chunks.len(),
{
    if chunks.len() == 0 {
        Seq::empty()
    } else {
        joined(chunks.drop_last()) + chunks.last()
    }
}

/// The stream behind the chunks of a text, and the events that were read, those of a chunk as soon
/// as it came.
pub open spec fn chunks_read(stream: StreamView, chunks: Seq<Seq<char>>) -> (
    StreamView,
    Seq<PendingView>,
)
    decreases chunks.len(),
{
    if chunks.len() == 0 {
        all_read(stream)
    } else {
        let (between, events) = chunks_read(stream, chunks.drop_last());
        let (after, more_events) = all_read(extended(between, chunks.last()));
        (after, events + more_events)
    }
}

/// To read a text in chunks is to read it at once.
pub proof fn chunks_are_read_as_one(stream: StreamView, chunks: Seq<Seq<char>>)
    ensures
        chunks_read(stream, chunks) == all_read(extended(stream, joined(chunks))),
    decreases chunks.len(),
{
    if chunks.len() == 0 {
        assert(stream.buffer + joined(chunks) =~= stream.buffer);
    } else {
        chunks_are_read_as_one(stream, chunks.drop_last());
        chunks_do_not_matter(stream, joined(chunks.drop_last()), chunks.last());
    }
}

/// The bytes of chunks, one behind the other.
pub open spec fn joined_bytes(chunks: Seq<Seq<u8>>) -> Seq<u8>
    decreases chunks.len(),
{
    if chunks.len() == 0 {
        Seq::empty()
    } else {
        joined_bytes(chunks.drop_last()) + chunks.last()
    }
}

/// The stream behind chunks of bytes that came from the server, and the events that were read,
/// those of a chunk as soon as it came.
pub open spec fn bytes_read(stream: StreamView, chunks: Seq<Seq<u8>>) -> (
    StreamView,
    Seq<PendingView>,
)
    decreases chunks.len(),
{
    if chunks.len() == 0 {
        all_read(stream)
    } else {
        let (between, events) = bytes_read(stream, chunks.drop_last());
        let (after, more_events) = all_read(
            received(between, InputView::Bytes(chunks.last())).0,
        );
        (after, events + more_events)
    }
}

/// All that a stream says of chunks of bytes and the end behind them: the events of the chunks, and
/// what it says at the end.
pub open spec fn whole_read(stream: StreamView, chunks: Seq<Seq<u8>>) -> (
    Seq<PendingView>,
    OutputView,
) {
    let (after, events) = bytes_read(stream, chunks);
    (events, received(after, InputView::Ended).1)
}

/// Every chunk is the text of whole characters.
pub open spec fn all_valid(chunks: Seq<Seq<u8>>) -> bool {
    forall|i: int| 0 <= i < chunks.len() ==> valid_utf8(#[trigger] chunks[i])
}

/// The events of a stream depend on its bytes alone, and not on where they are cut: two streams
/// whose chunks are the same bytes say the same, event by event and at the end, as long as no
/// chunk ends within a character.
pub proof fn cuts_do_not_matter(stream: StreamView, chunks: Seq<Seq<u8>>, others: Seq<Seq<u8>>)
    requires
        all_valid(chunks),
        all_valid(others),
        joined_bytes(chunks) == joined_bytes(others),
    ensures
        bytes_read(stream, chunks) == bytes_read(stream, others),
        whole_read(stream, chunks) == whole_read(stream, others),
{
    lemma_bytes_read(stream, chunks);
    lemma_bytes_read(stream, others);
}

/// Chunks of whole characters are read as the text that their bytes encode, and none is an error.
proof fn lemma_bytes_read(stream: StreamView, chunks: Seq<Seq<u8>>)
    requires
        all_valid(chunks),
    ensures
        valid_utf8(joined_bytes(chunks)),
        bytes_read(stream, chunks) == all_read(
            extended(stream, decode_utf8(joined_bytes(chunks))),
        ),
    decreases chunks.len(),
{
    if chunks.len() == 0 {
        assert(stream.buffer + decode_utf8(joined_bytes(chunks)) =~= stream.buffer);
    } else {
        let before = chunks.drop_last();
        let bytes = joined_bytes(before);
        let chunk = chunks.last();
        assert forall|i: int| 0 <= i < before.len() implies valid_utf8(#[trigger] before[i]) by {
            assert(before[i] == chunks[i]);
        }
        lemma_bytes_read(stream, before);
        lemma_decode_joined(bytes, chunk);
        chunks_do_not_matter(stream, decode_utf8(bytes), decode_utf8(chunk));
    }
}

/// Texts of whole characters are decoded one by one as they are decoded together.
proof fn lemma_decode_joined(first: Seq<u8>, second: Seq<u8>)
    requires
        valid_utf8(first),
        valid_utf8(second),
    ensures
        valid_utf8(first + second),
        decode_utf8(first + second) == decode_utf8(first) + decode_utf8(second),
    decreases first.len(),
{
    valid_utf8_concat(first, second);
    if first.len() == 0 {
        assert(first + second =~= second);
        assert(decode_utf8(first) + decode_utf8(second) =~= decode_utf8(second));
    } else {
        let rest = pop_first_scalar(first);
        assert(pop_first_scalar(first + second) =~= rest + second);
        lemma_decode_joined(rest, second);
        assert(decode_utf8(first + second) =~= decode_utf8(first) + decode_utf8(second));
    }
}

proof fn lemma_all_read(stream: StreamView, text: Seq<char>)
    ensures
        ({
            let (between, events) = all_read(stream);
            let (after, more_events) = all_read(extended(between, text));
            all_read(extended(stream, text)) == (after, events + more_events)
        }),
    decreases stream.buffer.len(),
{
    let buffer = stream.buffer;
    let end = newline_at(buffer);
    text::lemma_no_newline(buffer);
    if end >= buffer.len() {
        let more_events = all_read(extended(stream, text)).1;
        assert(Seq::<PendingView>::empty() + more_events =~= more_events);
    } else {
        let line = buffer.take(end as int);
        let rest = buffer.skip((end + 1) as int);
        lemma_first_line(buffer);
        assert(buffer =~= line + seq!['\n'] + rest);
        assert(buffer + text =~= line + seq!['\n'] + (rest + text));
        text::lemma_newline_at(buffer + text, line, rest + text);
        assert((buffer + text).take(end as int) =~= line);
        assert((buffer + text).skip((end + 1) as int) =~= rest + text);
        let (after, event) = first_line_read(stream);
        assert(first_line_read(extended(stream, text)) == (extended(after, text), event));
        lemma_all_read(after, text);
        let (between, events) = all_read(after);
        let more_events = all_read(extended(between, text)).1;
        if let Some(event) = event {
            assert(seq![event] + (events + more_events) =~= (seq![event] + events) + more_events);
        }
    }
}

/// The text before the first newline has none.
proof fn lemma_first_line(s: Seq<char>)
    ensures
        !s.take(newline_at(s) as int).contains('\n'),
    decreases s.len(),
{
    text::lemma_no_newline(s);
    if s.len() > 0 && s[0] != '\n' {
        let tail = s.drop_first();
        lemma_first_line(tail);
        text::lemma_no_newline(tail);
        let line = s.take(newline_at(s) as int);
        let tail_line = tail.take(newline_at(tail) as int);
        assert forall|i: int| 0 <= i < line.len() implies line[i] != '\n' by {
            if i > 0 {
                assert(tail_line[i - 1] == line[i]);
                assert(tail_line.contains(tail_line[i - 1]));
            }
        }
    }
}

/// The events are read one by one, in their order: the next one is the first of all, and behind
/// it stand the others.
pub proof fn next_event_is_the_first(stream: StreamView)
    ensures
        match event_read(stream) {
            (after, Some(event)) => all_read(stream) == (
                all_read(after).0,
                seq![event] + all_read(after).1,
            ),
            (after, None) => all_read(stream) == (after, Seq::<PendingView>::empty()),
        },
    decreases stream.buffer.len(),
{
    if newline_at(stream.buffer) < stream.buffer.len() {
        let (after, event) = first_line_read(stream);
        if event is None {
            next_event_is_the_first(after);
        }
    }
}

/// A text that is its own trimmed text, with something in it and on one line.
pub open spec fn is_field(s: Seq<char>) -> bool {
    s.len() > 0 && !is_whitespace(s[0]) && !is_whitespace(s.last()) && !s.contains('\n')
}

/// A line of an event.
pub open spec fn field_line(name: Seq<char>, value: Seq<char>) -> Seq<char> {
    name + seq![' '] + value + seq!['\n']
}

/// An event as a server writes it.
pub open spec fn event_text(event: PendingView) -> Seq<char> {
    field_line("event:"@, event.event_type) + field_line("data:"@, event.data) + seq!['\n']
}

/// An event that a server wrote is read back, whatever stands behind it.
pub proof fn written_event_is_read(stream: StreamView, event: PendingView, rest: Seq<char>)
    requires
        stream.buffer.len() == 0,
        is_field(event.event_type),
        is_field(event.data),
    ensures
        event_read(extended(stream, event_text(event) + rest)) == (
            StreamView { buffer: rest, event_type: None, data: Seq::empty() },
            Some(event),
        ),
{
    reveal_strlit("event:");
    reveal_strlit("data:");
    let first = "event:"@ + seq![' '] + event.event_type;
    let second = "data:"@ + seq![' '] + event.data;
    let s0 = extended(stream, event_text(event) + rest);
    let s1 = StreamView {
        buffer: second + seq!['\n'] + (seq!['\n'] + rest),
        event_type: Some(event.event_type),
        ..stream
    };
    let s2 = StreamView { buffer: seq!['\n'] + rest, data: event.data, ..s1 };
    let end = StreamView { buffer: rest, event_type: None, data: Seq::empty() };
    assert(s0.buffer =~= first + seq!['\n'] + s1.buffer);
    lemma_field("event:"@, event.event_type);
    lemma_line(s0, first, s1.buffer);
    assert(first_line_read(s0) == (s1, None::<PendingView>));
    lemma_field("data:"@, event.data);
    lemma_line(s1, second, s2.buffer);
    assert(!"event:"@.is_prefix_of(second)) by {
        assert(second[0] == 'd' && "event:"@[0] == 'e');
    }
    assert(first_line_read(s1) == (s2, None::<PendingView>));
    let empty = Seq::<char>::empty();
    assert(s2.buffer =~= empty + seq!['\n'] + rest);
    lemma_line(s2, empty, rest);
    assert(trimmed(empty) =~= empty);
    assert(first_line_read(s2) == (end, Some(event)));
    assert(event_read(s2) == (end, Some(event)));
    assert(event_read(s1) == (end, Some(event)));
}

/// The first line of a stream is read.
proof fn lemma_line(stream: StreamView, line: Seq<char>, rest: Seq<char>)
    requires
        stream.buffer == line + seq!['\n'] + rest,
        !line.contains('\n'),
    ensures
        newline_at(stream.buffer) < stream.buffer.len(),
        first_line_read(stream) == line_read(
            StreamView { buffer: rest, ..stream },
            trimmed(line),
        ),
{
    text::lemma_newline_at(stream.buffer, line, rest);
    assert(stream.buffer.take(line.len() as int) =~= line);
    assert(stream.buffer.skip((line.len() + 1) as int) =~= rest);
}

/// A line of an event is its own trimmed line, on one line, and shows its value.
proof fn lemma_field(name: Seq<char>, value: Seq<char>)
    requires
        name == "event:"@ || name == "data:"@,
        is_field(value),
    ensures
        ({
            let line = name + seq![' '] + value;
            &&& !line.contains('\n')
            &&& trimmed(line) == line
            &&& name.is_prefix_of(line)
            &&& trimmed(line.skip(name.len() as int)) == value
        }),
{
    reveal_strlit("event:");
    reveal_strlit("data:");
    let line = name + seq![' '] + value;
    assert forall|i: int| 0 <= i < line.len() implies line[i] != '\n' by {
        if i > name.len() {
            assert(value.contains(value[i - name.len() - 1]));
        }
    }
    assert(line[0] == name[0]);
    assert(line.last() == value.last());
    assert(name.is_prefix_of(line));
    let rest = line.skip(name.len() as int);
    assert(rest =~= seq![' '] + value);
    assert(rest.drop_first() =~= value);
    assert(trimmed_start(rest) == trimmed_start(value));
}

/// A line that begins with `event:` sets the type of the event to what stands behind it, whatever
/// white space, none included, stands around that. Nothing else changes, and no event ends.
pub proof fn type_line_sets_the_type(
    stream: StreamView,
    before: Seq<char>,
    value: Seq<char>,
    after: Seq<char>,
)
    requires
        is_blank(before),
        is_blank(after),
        has_bare_ends(value),
    ensures
        ({
            let (next, event) = line_read(stream, "event:"@ + before + value + after);
            &&& next.event_type is Some
            &&& next.event_type->0 == value
            &&& next.data == stream.data
            &&& next.buffer == stream.buffer
            &&& event is None
        }),
{
    reveal_strlit("event:");
    let line = "event:"@ + before + value + after;
    assert("event:"@.is_prefix_of(line));
    assert(line.skip("event:"@.len() as int) =~= before + value + after);
    text::white_space_around_is_taken_off(before, value, after);
}

/// A line that begins with `data:` sets the data of the event to what stands behind it, whatever
/// white space, none included, stands around that. Nothing else changes, and no event ends.
pub proof fn data_line_sets_the_data(
    stream: StreamView,
    before: Seq<char>,
    value: Seq<char>,
    after: Seq<char>,
)
    requires
        is_blank(before),
        is_blank(after),
        has_bare_ends(value),
    ensures
        ({
            let (next, event) = line_read(stream, "data:"@ + before + value + after);
            &&& next.data == value
            &&& next.event_type == stream.event_type
            &&& next.buffer == stream.buffer
            &&& event is None
        }),
{
    reveal_strlit("event:");
    reveal_strlit("data:");
    let line = "data:"@ + before + value + after;
    assert("data:"@.is_prefix_of(line));
    assert(line[0] == 'd' && "event:"@[0] == 'e');
    assert(line.skip("data:"@.len() as int) =~= before + value + after);
    text::white_space_around_is_taken_off(before, value, after);
}

/// An empty line ends an event that has data: the event has the data, and the type that was
/// given, or else the type `message`; the next event begins with no type and no data. Without
/// data an empty line changes nothing.
pub proof fn empty_line_ends_the_event(stream: StreamView, line: Seq<char>)
    requires
        line.len() == 0,
    ensures
        ({
            let (next, event) = line_read(stream, line);
            &&& next.buffer == stream.buffer
            &&& stream.data.len() == 0 ==> event is None && next.event_type == stream.event_type
                && next.data == stream.data
            &&& stream.data.len() > 0 ==> {
                &&& event is Some
                &&& event->0.data == stream.data
                &&& stream.event_type is Some ==> event->0.event_type == stream.event_type->0
                &&& stream.event_type is None ==> event->0.event_type == "message"@
                &&& next.event_type is None
                &&& next.data.len() == 0
            }
        }),
{
}

/// Any other line changes nothing.
pub proof fn other_lines_are_passed_over(stream: StreamView, line: Seq<char>)
    requires
        line.len() > 0,
        line.len() < 6 || line.take(6) != "event:"@,
        line.len() < 5 || line.take(5) != "data:"@,
    ensures
        line_read(stream, line).0 == stream,
        line_read(stream, line).1 is None,
{
    reveal_strlit("event:");
    reveal_strlit("data:");
    if "event:"@.is_prefix_of(line) {
        assert(line.take(6) =~= "event:"@);
    }
    if "data:"@.is_prefix_of(line) {
        assert(line.take(5) =~= "data:"@);
    }
}

/// Of a stream the text up to the first newline is read as a line, without the white space around
/// it, and taken away with the newline. Where it ends an event, that is the next event of the
/// stream; where it does not, the next event is the one of the rest.
pub proof fn stream_is_read_line_by_line(
    stream: StreamView,
    before: Seq<char>,
    line: Seq<char>,
    after: Seq<char>,
    rest: Seq<char>,
)
    requires
        is_blank(before),
        is_blank(after),
        has_bare_ends(line),
        !before.contains('\n'),
        !line.contains('\n'),
        !after.contains('\n'),
        stream.buffer == before + line + after + seq!['\n'] + rest,
    ensures
        ({
            let start = StreamView {
                buffer: rest,
                event_type: stream.event_type,
                data: stream.data,
            };
            let (next, event) = line_read(start, line);
            if event is Some {
                event_read(stream) == (next, event)
            } else {
                event_read(stream) == event_read(next)
            }
        }),
{
    let whole = before + line + after;
    lemma_one_line(before, line, after);
    text::white_space_around_is_taken_off(before, line, after);
    lemma_line(stream, whole, rest);
}

/// Parts without a newline make a text without a newline.
proof fn lemma_one_line(a: Seq<char>, b: Seq<char>, c: Seq<char>)
    requires
        !a.contains('\n'),
        !b.contains('\n'),
        !c.contains('\n'),
    ensures
        !(a + b + c).contains('\n'),
{
    let whole = a + b + c;
    assert forall|i: int| 0 <= i < whole.len() implies whole[i] != '\n' by {
        if i < a.len() {
            assert(a.contains(a[i]));
        } else if i < a.len() + b.len() {
            assert(b.contains(b[i - a.len()]));
        } else {
            assert(c.contains(c[i - a.len() - b.len()]));
        }
    }
}

/// A line that has no newline yet is not read: the stream waits for the rest of it.
pub proof fn unfinished_line_waits(stream: StreamView)
    requires
        !stream.buffer.contains('\n'),
    ensures
        event_read(stream).0 == stream,
        event_read(stream).1 is None,
{
    text::lemma_no_newline(stream.buffer);
}

/// White space on one line, or no text at all.
pub open spec fn is_space(s: Seq<char>) -> bool {
    is_blank(s) && !s.contains('\n')
}

/// An event is read with its type and its data whatever white space, none included, stands around
/// the names and the values, and whatever stands behind the event.
pub proof fn event_is_read_whatever_white_space(
    stream: StreamView,
    event_type: Seq<char>,
    data: Seq<char>,
    spaces: Seq<Seq<char>>,
    rest: Seq<char>,
)
    requires
        spaces.len() == 7,
        forall|i: int| 0 <= i < spaces.len() ==> is_space(#[trigger] spaces[i]),
        is_field(event_type),
        is_field(data),
        stream.buffer == spaces[0] + "event:"@ + spaces[1] + event_type + spaces[2] + seq!['\n']
            + spaces[3] + "data:"@ + spaces[4] + data + spaces[5] + seq!['\n'] + spaces[6]
            + seq!['\n'] + rest,
    ensures
        ({
            let (next, event) = event_read(stream);
            &&& event is Some
            &&& event->0.event_type == event_type
            &&& event->0.data == data
            &&& next.buffer == rest
            &&& next.event_type is None
            &&& next.data.len() == 0
        }),
{
    reveal_strlit("event:");
    reveal_strlit("data:");
    let none = Seq::<char>::empty();
    assert(is_space(spaces[0]) && is_space(spaces[1]) && is_space(spaces[2]) && is_space(spaces[3])
        && is_space(spaces[4]) && is_space(spaces[5]) && is_space(spaces[6]));
    let end = spaces[6] + seq!['\n'] + rest;
    let first = "event:"@ + spaces[1] + event_type;
    let second = "data:"@ + spaces[4] + data;
    let s1 = spaces[3] + second + spaces[5] + seq!['\n'] + end;
    assert(stream.buffer =~= spaces[0] + first + spaces[2] + seq!['\n'] + s1);
    assert(first[0] == 'e' && first.last() == event_type.last());
    assert(second[0] == 'd' && second.last() == data.last());
    lemma_name("event:"@);
    lemma_name("data:"@);
    lemma_one_line("event:"@, spaces[1], event_type);
    lemma_one_line("data:"@, spaces[4], data);
    stream_is_read_line_by_line(stream, spaces[0], first, spaces[2], s1);
    let after_stream = StreamView { buffer: s1, ..stream };
    type_line_sets_the_type(after_stream, spaces[1], event_type, none);
    assert("event:"@ + spaces[1] + event_type + none =~= first);
    let stream1 = line_read(after_stream, first).0;
    stream_is_read_line_by_line(stream1, spaces[3], second, spaces[5], end);
    let after_stream1 = StreamView { buffer: end, ..stream1 };
    data_line_sets_the_data(after_stream1, spaces[4], data, none);
    assert("data:"@ + spaces[4] + data + none =~= second);
    let stream2 = line_read(after_stream1, second).0;
    assert(spaces[6] + none + none + seq!['\n'] + rest =~= end);
    stream_is_read_line_by_line(stream2, spaces[6], none, none, rest);
    empty_line_ends_the_event(StreamView { buffer: rest, ..stream2 }, none);
}

/// The names of the fields stand on one line.
proof fn lemma_name(name: Seq<char>)
    requires
        name == "event:"@ || name == "data:"@,
    ensures
        !name.contains('\n'),
{
    reveal_strlit("event:");
    reveal_strlit("data:");
}

/// Bytes that are text are put behind the text that waits; other bytes, and a failure of the
/// stream, are reported in words and change nothing. The end of the stream ends it, and never
/// gives an event: what waits is no complete event.
pub proof fn input_is_taken_in(stream: StreamView, input: InputView)
    ensures
        ({
            let (next, output) = received(stream, input);
            match input {
                InputView::Bytes(bytes) => if valid_utf8(bytes) {
                    &&& output is More
                    &&& next.buffer == stream.buffer + decode_utf8(bytes)
                    &&& next.event_type == stream.event_type
                    &&& next.data == stream.data
                } else {
                    &&& output is Error
                    &&& output->Error_0 == "Invalid UTF-8: "@ + utf8_error(bytes)
                    &&& next == stream
                },
                InputView::Failed(error) => {
                    &&& output is Error
                    &&& output->Error_0 == "Stream error: "@ + error
                    &&& next == stream
                },
                InputView::Ended => {
                    &&& output is End
                    &&& next.buffer.len() == 0
                },
            }
        }),
{
}

/// An event of type `endpoint` announces its data as the endpoint. One of type `message` is the
/// message that its data is, where it is one. Any other event keeps its type and its data.
pub proof fn events_are_told_apart(event: PendingView, message: Option<MessageView>)
    ensures
        ({
            let result = resolved(event, message);
            &&& event.event_type == "endpoint"@ ==> result is Endpoint && result->Endpoint_0
                == event.data
            &&& event.event_type == "message"@ && message is Some ==> result is Message
                && result->Message_0 == message->0
            &&& event.event_type != "endpoint"@ && (event.event_type != "message"@ || message
                is None) ==> result is Other && result->Other_0 == event.event_type
                && result->Other_1 == event.data
        }),
{
    reveal_strlit("endpoint");
    reveal_strlit("message");
    assert("endpoint"@.len() == 8 && "message"@.len() == 7);
}

/// The model of a stream holds the text that waits, and the type and the data of the event that
/// is being read.
pub proof fn stream_is_modelled(stream: SSEStream)
    ensures
        stream@.buffer == stream.buffer@,
        stream@.event_type is Some <==> stream.event_type is Some,
        stream.event_type is Some ==> stream@.event_type->0 == stream.event_type->0@,
        stream@.data == stream.data@,
{
}

/// The model of an event that was read holds its type and its data.
pub proof fn pending_event_is_modelled(event: PendingEvent)
    ensures
        event@.event_type == event.event_type@,
        event@.data == event.data@,
{
}

/// The model of what comes from the stream holds the bytes or the error.
pub proof fn input_is_modelled(input: StreamInput)
    ensures
        match input {
            StreamInput::Bytes(bytes) => input@ is Bytes && input@->Bytes_0 == bytes@,
            StreamInput::Failed(error) => input@ is Failed && input@->Failed_0 == error@,
            StreamInput::Ended => input@ is Ended,
        },
{
}

/// The model of what comes out holds the event or the error.
pub proof fn output_is_modelled(output: StreamOutput)
    ensures
        match output {
            StreamOutput::More => output@ is More,
            StreamOutput::Event(event) => output@ is Event && output@->Event_0 == event@,
            StreamOutput::Error(error) => output@ is Error && output@->Error_0 == error@,
            StreamOutput::End => output@ is End,
        },
{
}

} // verus!
