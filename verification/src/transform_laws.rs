//! What is made of the bytes of a client before the codec reads them, told by the bytes and by the
//! members of the messages.

use crate::json::{json_parsed, json_text, JsonView};
use crate::message_transform::{
    brace_at, decoded, first_newline_is_found, fits, line_decoded, message_len, newline_behind,
    next_line, read_byte, rewritten, transformed_text, transformed_value, unread,
    Reading, Rewritten, RewrittenView,
};
use crate::text::utf8_lossy;
use vstd::prelude::*;
use vstd::utf8::encode_utf8;

verus! {

/// A message whose method is `initialized` gets the method `notifications/initialized`, and loses
/// its parameters where they are null or an object without members; every other member stays, and
/// none is added. A message whose method is `progress` is taken out. Any other value stays as it
/// is.
pub proof fn message_is_made_to_fit(value: JsonView)
    ensures
        ({
            let members = value->Object_0;
            let method = members["method"@];
            let named = value is Object && members.contains_key("method"@);
            let params = members["params"@];
            let empty = params is Null || (params is Object && params->Object_0 == Map::<
                Seq<char>,
                JsonView,
            >::empty());
            if named && method == JsonView::String("initialized"@) {
                match transformed_value(value) {
                    Some(JsonView::Object(after)) => {
                        &&& forall|name: Seq<char>| #[trigger]
                            after.contains_key(name) <==> members.contains_key(name) && !(name
                                == "params"@ && empty)
                        &&& forall|name: Seq<char>| #[trigger]
                            after.contains_key(name) && name != "method"@ ==> after[name]
                                == members[name]
                        &&& after["method"@] == JsonView::String("notifications/initialized"@)
                    },
                    _ => false,
                }
            } else if named && method == JsonView::String("progress"@) {
                transformed_value(value) is None
            } else {
                transformed_value(value) == Some(value)
            }
        }),
{
    reveal_strlit("method");
    reveal_strlit("params");
    reveal_strlit("initialized");
    reveal_strlit("progress");
    assert("method"@[0] == 'm' && "params"@[0] == 'p');
    assert("initialized"@.len() == 11 && "progress"@.len() == 8);
}

/// A text that is no JSON is not made to fit; one that is taken out becomes the empty text; and
/// any other becomes the text of the value that it is made to be.
pub proof fn text_is_made_to_fit(text: Seq<char>)
    ensures
        match json_parsed(text) {
            None => transformed_text(text) is None,
            Some(value) => {
                &&& transformed_text(text) is Some
                &&& transformed_value(value) is None ==> transformed_text(text)->0.len() == 0
                &&& transformed_value(value) is Some ==> transformed_text(text)->0 == json_text(
                    transformed_value(value)->0,
                )
            },
        },
{
}

/// The first brace is found, where there is one.
pub proof fn first_brace_is_found(bytes: Seq<u8>)
    ensures
        match brace_at(bytes) {
            Some(start) => {
                &&& start < bytes.len()
                &&& bytes[start as int] == 123
                &&& forall|i: int| 0 <= i < start ==> bytes[i] != 123
            },
            None => forall|i: int| 0 <= i < bytes.len() ==> bytes[i] != 123,
        },
    decreases bytes.len(),
{
    if bytes.len() > 0 && bytes[0] != 123 {
        let rest = bytes.drop_first();
        first_brace_is_found(rest);
        match brace_at(rest) {
            Some(start) => {
                assert(rest[start as int] == bytes[start as int + 1]);
                assert forall|i: int| 0 <= i < start + 1 implies bytes[i] != 123 by {
                    if i > 0 {
                        assert(rest[i - 1] == bytes[i]);
                    }
                }
            },
            None => {
                assert forall|i: int| 0 <= i < bytes.len() implies bytes[i] != 123 by {
                    if i > 0 {
                        assert(rest[i - 1] == bytes[i]);
                    }
                }
            },
        }
    }
}

/// How a message is read up to the end of the bytes.
pub open spec fn reading_behind(reading: Reading, bytes: Seq<u8>) -> Reading
    decreases bytes.len(),
{
    if bytes.len() == 0 {
        reading
    } else {
        reading_behind(read_byte(reading, bytes[0]), bytes.drop_first())
    }
}

/// Outside strings an opening brace opens an object, a closing brace closes one, a quotation mark
/// begins a string, and any other byte does nothing of these.
pub proof fn braces_count_outside_strings(depth: int, byte: u8)
    ensures
        ({
            let before = Reading { depth, in_string: false, escaped: false };
            let after = read_byte(before, byte);
            &&& after.depth == if byte == 123 {
                depth + 1
            } else if byte == 125 {
                depth - 1
            } else {
                depth
            }
            &&& after.in_string <==> byte == 34
            &&& after.escaped <==> byte == 92
        }),
{
}

/// What may stand between the quotation marks of a string: any bytes but quotation marks and
/// backslashes, and these behind a backslash.
pub open spec fn is_string_content(bytes: Seq<u8>) -> bool
    decreases bytes.len(),
{
    if bytes.len() == 0 {
        true
    } else if bytes[0] == 92 {
        bytes.len() >= 2 && is_string_content(bytes.skip(2))
    } else {
        bytes[0] != 34 && is_string_content(bytes.drop_first())
    }
}

/// A string is passed over as a whole, whatever braces and escaped quotation marks it holds:
/// behind it as many braces are open as before it, and no string.
pub proof fn strings_are_passed_over(depth: int, content: Seq<u8>)
    requires
        is_string_content(content),
    ensures
        ({
            let before = Reading { depth, in_string: false, escaped: false };
            let after = reading_behind(before, seq![34u8] + content + seq![34u8]);
            after.depth == depth && !after.in_string && !after.escaped
        }),
{
    let whole = seq![34u8] + content + seq![34u8];
    assert(whole.drop_first() =~= content + seq![34u8]);
    assert(whole[0] == 34);
    lemma_inside_a_string(depth, content);
}

/// Behind what a string holds, its quotation mark ends it.
proof fn lemma_inside_a_string(depth: int, content: Seq<u8>)
    requires
        is_string_content(content),
    ensures
        reading_behind(
            Reading { depth, in_string: true, escaped: false },
            content + seq![34u8],
        ) == (Reading { depth, in_string: false, escaped: false }),
    decreases content.len(),
{
    let inside = Reading { depth, in_string: true, escaped: false };
    let whole = content + seq![34u8];
    if content.len() == 0 {
        assert(whole[0] == 34);
        assert(whole.drop_first() =~= Seq::<u8>::empty());
        assert(reading_behind(read_byte(inside, 34), Seq::<u8>::empty()) == read_byte(inside, 34));
    } else if content[0] == 92 {
        let escaped = Reading { depth, in_string: true, escaped: true };
        assert(whole[0] == 92);
        assert(read_byte(inside, 92) == escaped);
        let tail = whole.drop_first();
        assert(tail[0] == content[1]);
        assert(read_byte(escaped, content[1]) == inside);
        assert(tail.drop_first() =~= content.skip(2) + seq![34u8]);
        lemma_inside_a_string(depth, content.skip(2));
        assert(reading_behind(escaped, tail) == reading_behind(inside, tail.drop_first()));
    } else {
        assert(whole[0] == content[0]);
        assert(read_byte(inside, content[0]) == inside);
        assert(whole.drop_first() =~= content.drop_first() + seq![34u8]);
        lemma_inside_a_string(depth, content.drop_first());
    }
}

/// A message is as long as it takes for every brace that was opened to be closed again, and no
/// longer; where that never happens, the message is not complete.
pub proof fn message_ends_where_its_braces_are_closed(bytes: Seq<u8>)
    ensures
        ({
            let start = Reading { depth: 0, in_string: false, escaped: false };
            match message_len(bytes, unread()) {
                Some(len) => {
                    &&& 0 < len <= bytes.len()
                    &&& reading_behind(start, bytes.take(len as int)).depth == 0
                    &&& forall|i: int|
                        0 < i < len ==> reading_behind(start, #[trigger] bytes.take(i)).depth != 0
                },
                None => forall|i: int|
                    0 < i <= bytes.len() ==> reading_behind(start, #[trigger] bytes.take(i)).depth
                        != 0,
            }
        }),
{
    lemma_message_end(bytes, unread());
}

/// The same of a message that was read in part.
proof fn lemma_message_end(bytes: Seq<u8>, reading: Reading)
    ensures
        match message_len(bytes, reading) {
            Some(len) => {
                &&& 0 < len <= bytes.len()
                &&& reading_behind(reading, bytes.take(len as int)).depth == 0
                &&& forall|i: int|
                    0 < i < len ==> reading_behind(reading, #[trigger] bytes.take(i)).depth != 0
            },
            None => forall|i: int|
                0 < i <= bytes.len() ==> reading_behind(reading, #[trigger] bytes.take(i)).depth
                    != 0,
        },
    decreases bytes.len(),
{
    if bytes.len() > 0 {
        let next = read_byte(reading, bytes[0]);
        let rest = bytes.drop_first();
        assert forall|i: int| 0 < i <= bytes.len() implies reading_behind(
            reading,
            #[trigger] bytes.take(i),
        ) == reading_behind(next, rest.take(i - 1)) by {
            assert(bytes.take(i)[0] == bytes[0]);
            assert(bytes.take(i).drop_first() =~= rest.take(i - 1));
        }
        assert(reading_behind(next, rest.take(0)) == next);
        lemma_message_end(rest, next);
        if next.depth == 0 {
            assert(reading_behind(reading, bytes.take(1)) == next);
        } else {
            let end: int = match message_len(rest, next) {
                Some(len) => len as int,
                None => rest.len() as int + 1,
            };
            assert forall|i: int| 0 < i <= bytes.len() && i < end + 1 implies reading_behind(
                reading,
                #[trigger] bytes.take(i),
            ).depth != 0 by {
                if i == 1 {
                    assert(reading_behind(reading, bytes.take(1)) == next);
                } else {
                    assert(reading_behind(next, rest.take(i - 1)).depth != 0);
                }
            }
            if message_len(rest, next) is Some {
                assert(reading_behind(reading, bytes.take(end + 1)) == reading_behind(
                    next,
                    rest.take(end),
                ));
            }
        }
    }
}

/// A complete message is replaced by the text of the value that it is made to be, in its place:
/// the bytes before it and behind it stay.
pub proof fn message_is_replaced_in_its_place(
    before: Seq<u8>,
    message: Seq<u8>,
    behind: Seq<u8>,
    value: JsonView,
)
    requires
        forall|i: int| 0 <= i < before.len() ==> before[i] != 123,
        message.len() > 0,
        message[0] == 123,
        message_len(message + behind, unread()) == Some(message.len()),
        json_parsed(utf8_lossy(message)) == Some(value),
    ensures
        match transformed_value(value) {
            Some(fitting) => rewritten(before + message + behind) == RewrittenView::Ready(
                before + encode_utf8(json_text(fitting)) + behind,
            ),
            None => rewritten(before + message + behind) == RewrittenView::Removed(
                before + behind,
            ),
        },
{
    let bytes = before + message + behind;
    let start = before.len() as int;
    let end = start + message.len();
    lemma_brace_behind(before, message + behind);
    assert(bytes =~= before + (message + behind));
    assert(bytes.skip(start) =~= message + behind);
    assert(bytes.subrange(start, end) =~= message);
    assert(bytes.take(start) =~= before);
    assert(bytes.skip(end) =~= behind);
    assert(before + Seq::<u8>::empty() + behind =~= before + behind);
}

/// The first brace stands behind bytes that are none.
proof fn lemma_brace_behind(before: Seq<u8>, rest: Seq<u8>)
    requires
        forall|i: int| 0 <= i < before.len() ==> before[i] != 123,
        rest.len() > 0,
        rest[0] == 123,
    ensures
        brace_at(before + rest) == Some(before.len()),
    decreases before.len(),
{
    let whole = before + rest;
    if before.len() > 0 {
        assert(whole[0] == before[0]);
        assert(whole.drop_first() =~= before.drop_first() + rest);
        lemma_brace_behind(before.drop_first(), rest);
    } else {
        assert(whole =~= rest);
    }
}

/// Bytes with no brace hold no message. A message that is not complete, and one that is no JSON,
/// stays as it is.
pub proof fn other_bytes_stay_as_they_are(bytes: Seq<u8>)
    ensures
        match brace_at(bytes) {
            None => rewritten(bytes) is Nothing,
            Some(start) => {
                let rest = bytes.skip(start as int);
                match message_len(rest, unread()) {
                    None => rewritten(bytes) is Ready && rewritten(bytes)->Ready_0 == bytes,
                    Some(len) => json_parsed(utf8_lossy(rest.take(len as int))) is None
                        ==> rewritten(bytes) is Ready && rewritten(bytes)->Ready_0 == bytes,
                }
            },
        },
{
    first_brace_is_found(bytes);
    if let Some(start) = brace_at(bytes) {
        let rest = bytes.skip(start as int);
        lemma_message_end(rest, unread());
        if let Some(len) = message_len(rest, unread()) {
            assert(rest.take(len as int) =~= bytes.subrange(start as int, (start + len) as int));
        }
    }
}

/// Where there is no message, nothing is decoded and nothing changes. Where a message is taken
/// out, nothing is decoded, the other bytes stay, and the search goes on where it was. In every
/// other case the next line of the bytes that were made to fit is decoded.
pub proof fn fitting_bytes_are_decoded(bytes: Seq<u8>, position: nat)
    ensures
        ({
            let (line, rest, searched) = decoded(bytes, position);
            match rewritten(bytes) {
                RewrittenView::Nothing => line is Nothing && rest == bytes && searched == position,
                RewrittenView::Removed(others) => line is Nothing && rest == others && searched
                    == position,
                RewrittenView::Ready(fitting) => (line, rest, searched) == next_line(
                    fitting,
                    position,
                ),
            }
        }),
        fits(bytes, position) <==> match rewritten(bytes) {
            RewrittenView::Ready(fitting) => position <= fitting.len(),
            _ => true,
        },
{
}

/// A line is decoded without its newline and without a carriage return before that; behind it the
/// search begins anew, with the bytes behind the newline.
pub proof fn line_is_decoded_without_its_end(
    line: Seq<u8>,
    behind: Seq<u8>,
    position: nat,
    with_return: bool,
)
    requires
        forall|i: int| position <= i < line.len() ==> line[i] != 10,
        position <= line.len(),
        line.len() > 0 ==> line.last() != 13,
    ensures
        ({
            let ended = if with_return {
                line.push(13)
            } else {
                line
            };
            let (decoded_line, rest, searched) = next_line(ended + seq![10u8] + behind, position);
            &&& decoded_line == line_decoded(line)
            &&& rest == behind
            &&& searched == 0
        }),
{
    let ended = if with_return {
        line.push(13)
    } else {
        line
    };
    let bytes = ended + seq![10u8] + behind;
    first_newline_is_found(bytes, position as int);
    assert(bytes[ended.len() as int] == 10);
    let end = newline_behind(bytes, position as int)->0;
    if end < ended.len() {
        assert(bytes[end] == ended[end]);
        if end < line.len() {
            assert(ended[end] == line[end]);
        }
    }
    assert(end == ended.len());
    assert(bytes.take(end) =~= ended);
    assert(bytes.skip(end + 1) =~= behind);
    if with_return {
        assert(ended.drop_last() =~= line);
    }
}

/// Bytes without a newline are no line: they wait for more, and are not searched again.
pub proof fn unfinished_bytes_wait(bytes: Seq<u8>, position: nat)
    requires
        forall|i: int| position <= i < bytes.len() ==> bytes[i] != 10,
    ensures
        ({
            let (line, rest, searched) = next_line(bytes, position);
            line is Nothing && rest == bytes && searched == bytes.len()
        }),
{
    first_newline_is_found(bytes, position as int);
}

/// The model of bytes that were made to fit holds the bytes.
pub proof fn rewritten_bytes_are_modelled(result: Rewritten)
    ensures
        match result {
            Rewritten::Nothing => result@ is Nothing,
            Rewritten::Removed(bytes) => result@ is Removed && result@->Removed_0 == bytes@,
            Rewritten::Ready(bytes) => result@ is Ready && result@->Ready_0 == bytes@,
        },
{
}

} // verus!
