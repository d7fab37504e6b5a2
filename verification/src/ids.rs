//! Request identifiers: fresh ones, and those that a session carries.

use crate::models::{AppView, IdView, NumberOrString, RequestId};
use crate::text;
use crate::text::{is_signed_decimal, lemma_signed_decimal, signed_decimal};
use vstd::prelude::*;

verus! {

/// A lower-case hexadecimal digit.
pub open spec fn is_hex(c: char) -> bool {
    '0' <= c <= '9' || 'a' <= c <= 'f'
}

/// The hyphenated lower-case text of a UUID of version 7.
pub open spec fn is_uuid_text(s: Seq<char>) -> bool {
    &&& s.len() == 36
    &&& forall|i: int|
        0 <= i < 36 ==> if i == 8 || i == 13 || i == 18 || i == 23 {
            #[trigger] s[i] == '-'
        } else {
            is_hex(s[i])
        }
    &&& s[14] == '7'
    &&& s[19] == '8' || s[19] == '9' || s[19] == 'a' || s[19] == 'b'
}

/// `a` and `b` are the same before the position `i`, and there `a` has the smaller character.
pub open spec fn smaller_at(a: Seq<char>, b: Seq<char>, i: int) -> bool {
    &&& 0 <= i < a.len()
    &&& i < b.len()
    &&& a[i] < b[i]
    &&& forall|j: int| 0 <= j < i ==> a[j] == b[j]
}

/// `a` stands before `b` in the order of texts.
pub open spec fn comes_before(a: Seq<char>, b: Seq<char>) -> bool {
    exists|i: int| smaller_at(a, b, i)
}

/// An identifier that was generated. There is no other way to get one.
#[derive(Debug, PartialEq, Eq)]
pub struct GeneratedId {
    text: String,
}

impl View for GeneratedId {
    type V = Seq<char>;

    closed spec fn view(&self) -> Seq<char> {
        self.text@
    }
}

/// `Uuid::now_v7` and the text of what it returns: a UUID of version 7. Which one, the clock and
/// chance decide, but all that one process generates are ordered by their creation, so it comes
/// behind one that was generated earlier.
#[verifier::external_body]
fn uuid_text(earlier: Option<&GeneratedId>) -> (r: GeneratedId)
    ensures
        is_uuid_text(r@),
        match earlier {
            Some(earlier) => comes_before(earlier@, r@),
            None => true,
        },
{
    let _ = earlier;
    GeneratedId { text: uuid::Uuid::now_v7().to_string() }
}

impl GeneratedId {
    /// A random UUID for a request.
    pub fn generate() -> (r: Self)
        ensures
            is_uuid_text(r@),
    {
        uuid_text(None)
    }

    /// A random UUID for a request, which comes behind this one, and so is another one.
    pub fn generate_next(&self) -> (r: Self)
        ensures
            is_uuid_text(r@),
            comes_before(self@, r@),
            r@ != self@,
    {
        let r = uuid_text(Some(self));
        proof {
            later_ids_differ(self@, r@);
        }
        r
    }

    /// The text of the identifier.
    pub fn to_text(&self) -> (r: String)
        ensures
            r@ == self@,
    {
        self.text.clone()
    }
}

/// A random UUID for a request, given the last one that was generated, whose place it takes: it
/// comes behind that one, and so is another one.
pub fn generate_id(last: &mut GeneratedId) -> (r: String)
    ensures
        r@ == final(last)@,
        is_uuid_text(r@),
        comes_before(old(last)@, r@),
        r@ != old(last)@,
{
    let next = last.generate_next();
    *last = next;
    last.to_text()
}

/// The identifiers were generated one after the other behind `first`, and `last` is the last one
/// of all.
pub open spec fn generated_behind(ids: Seq<Seq<char>>, first: Seq<char>, last: Seq<char>) -> bool {
    &&& forall|i: int| 0 <= i < ids.len() ==> is_uuid_text(#[trigger] ids[i])
    &&& forall|i: int| 0 <= i < ids.len() ==> comes_before(first, #[trigger] ids[i])
    &&& forall|i: int, j: int|
        0 <= i < j < ids.len() ==> comes_before(#[trigger] ids[i], #[trigger] ids[j])
    &&& last == if ids.len() == 0 {
        first
    } else {
        ids.last()
    }
}

/// The texts of identifiers, in their order.
pub open spec fn id_texts(ids: Seq<String>) -> Seq<Seq<char>> {
    ids.map_values(|id: String| id@)
}

/// So many random UUIDs, given the last one that was generated, whose place the last of them
/// takes: each one is another.
pub fn generate_ids(last: &mut GeneratedId, count: usize) -> (r: Vec<String>)
    ensures
        r@.len() == count,
        generated_behind(id_texts(r@), old(last)@, final(last)@),
        id_texts(r@).no_duplicates(),
{
    let mut ids: Vec<String> = Vec::new();
    assert(id_texts(ids@) =~= Seq::<Seq<char>>::empty());
    for n in 0..count
        invariant
            ids@.len() == n,
            generated_behind(id_texts(ids@), old(last)@, last@),
    {
        let ghost before = id_texts(ids@);
        let ghost previous = last@;
        let id = generate_id(last);
        ids.push(id);
        proof {
            lemma_generated_next(before, old(last)@, previous, last@);
            assert(id_texts(ids@) =~= before.push(last@));
        }
    }
    proof {
        generated_ids_differ(id_texts(ids@), old(last)@, last@);
    }
    ids
}

/// One more identifier is generated.
proof fn lemma_generated_next(
    ids: Seq<Seq<char>>,
    first: Seq<char>,
    last: Seq<char>,
    next: Seq<char>,
)
    requires
        generated_behind(ids, first, last),
        is_uuid_text(next),
        comes_before(last, next),
    ensures
        generated_behind(ids.push(next), first, next),
{
    let more = ids.push(next);
    assert forall|i: int| 0 <= i < ids.len() implies comes_before(#[trigger] ids[i], next) by {
        if i < ids.len() - 1 {
            assert(comes_before(ids[i], ids[ids.len() - 1]));
            order_is_transitive(ids[i], last, next);
        }
    }
    if ids.len() > 0 {
        assert(comes_before(first, ids[ids.len() - 1]));
        order_is_transitive(first, last, next);
    }
    assert forall|i: int, j: int| 0 <= i < j < more.len() implies comes_before(
        #[trigger] more[i],
        #[trigger] more[j],
    ) by {
        assert(more[i] == ids[i]);
        if j < ids.len() {
            assert(more[j] == ids[j]);
        }
    }
}

/// Of identifiers that were generated one after the other, no two are the same.
pub proof fn generated_ids_differ(ids: Seq<Seq<char>>, first: Seq<char>, last: Seq<char>)
    requires
        generated_behind(ids, first, last),
    ensures
        ids.no_duplicates(),
        !ids.contains(first),
{
    assert forall|i: int, j: int| 0 <= i < ids.len() && 0 <= j < ids.len() && i != j implies ids[i]
        != ids[j] by {
        if i < j {
            later_ids_differ(ids[i], ids[j]);
        } else {
            later_ids_differ(ids[j], ids[i]);
        }
    }
    assert forall|i: int| 0 <= i < ids.len() implies #[trigger] ids[i] != first by {
        later_ids_differ(first, ids[i]);
    }
}

/// `id` was generated no later than `last`.
pub open spec fn not_later(id: Seq<char>, last: Seq<char>) -> bool {
    id == last || comes_before(id, last)
}

/// Every identifier under which an answer is waited for was generated no later than `last`. It is
/// so of a new proxy, and everything that the proxy does keeps it so.
pub open spec fn spent(app: AppView, last: Seq<char>) -> bool {
    forall|id: Seq<char>| #[trigger] app.id_map.contains_key(id) ==> not_later(id, last)
}

/// An identifier that is generated behind all that are in use is not in use, and it may be used.
pub proof fn fresh_id_is_unused(app: AppView, last: Seq<char>, fresh_id: Seq<char>)
    requires
        spent(app, last),
        comes_before(last, fresh_id),
    ensures
        !app.id_map.contains_key(fresh_id),
        spent(app, fresh_id),
        forall|original: IdView|
            spent(
                AppView { id_map: #[trigger] app.id_map.insert(fresh_id, original), ..app },
                fresh_id,
            ),
{
    assert forall|id: Seq<char>| #[trigger] app.id_map.contains_key(id) implies comes_before(
        id,
        fresh_id,
    ) by {
        if id != last {
            order_is_transitive(id, last, fresh_id);
        }
    }
    if app.id_map.contains_key(fresh_id) {
        later_ids_differ(fresh_id, fresh_id);
    }
}

/// An identifier that comes behind another is not the same.
pub proof fn later_ids_differ(earlier: Seq<char>, later: Seq<char>)
    requires
        comes_before(earlier, later),
    ensures
        earlier != later,
{
    let i = choose|i: int| smaller_at(earlier, later, i);
    assert(earlier[i] < later[i]);
}

/// What comes behind an identifier that comes behind another comes behind that one too: of all
/// identifiers, each generated behind the one before, no two are the same.
pub proof fn order_is_transitive(a: Seq<char>, b: Seq<char>, c: Seq<char>)
    requires
        comes_before(a, b),
        comes_before(b, c),
    ensures
        comes_before(a, c),
{
    let i = choose|i: int| smaller_at(a, b, i);
    let j = choose|j: int| smaller_at(b, c, j);
    let k = if i < j {
        i
    } else {
        j
    };
    assert(smaller_at(a, c, k));
}

/// An identifier that a session carries: a number that may be negative or large, or a text.
#[derive(Debug, PartialEq, Eq)]
pub enum WideId {
    Number(i64),
    Text(String),
}

/// The model of an identifier that a session carries.
pub enum WideView {
    Number(i64),
    Text(Seq<char>),
}

impl View for WideId {
    type V = WideView;

    open spec fn view(&self) -> WideView {
        match self {
            WideId::Number(n) => WideView::Number(*n),
            WideId::Text(text) => WideView::Text(text@),
        }
    }
}

/// The text begins with a mark.
pub open spec fn is_marked(text: Seq<char>) -> bool {
    text.len() > 0 && text[0] == '#'
}

/// The identifier as the proxy holds it: a number that does not fit becomes a text with a mark
/// before it, and a text that begins with a mark gets one more.
pub open spec fn narrowed(id: WideView) -> IdView {
    match id {
        WideView::Number(n) => if 0 <= n <= u32::MAX {
            IdView::Number(n as u32)
        } else {
            IdView::String(seq!['#'] + signed_decimal(n as int))
        },
        WideView::Text(text) => if is_marked(text) {
            IdView::String(seq!['#'] + text)
        } else {
            IdView::String(text)
        },
    }
}

/// The identifier as the session carries it.
pub open spec fn widened(id: IdView) -> WideView {
    match id {
        IdView::Number(n) => WideView::Number(n as i64),
        IdView::String(text) => if !is_marked(text) {
            WideView::Text(text)
        } else if is_marked(text.skip(1)) {
            WideView::Text(text.skip(1))
        } else if exists|n: i64| is_signed_decimal(text.skip(1), n) {
            WideView::Number(choose|n: i64| is_signed_decimal(text.skip(1), n))
        } else {
            WideView::Text(text)
        },
    }
}

/// The identifier as the proxy holds it.
pub fn narrow_id(id: WideId) -> (r: RequestId)
    ensures
        r@ == narrowed(id@),
{
    proof {
        reveal_strlit("#");
        assert("#"@ =~= seq!['#']);
    }
    match id {
        WideId::Number(n) => if 0 <= n && n <= u32::MAX as i64 {
            NumberOrString::Number(n as u32)
        } else {
            let digits = text::signed_decimal_text(n);
            NumberOrString::String(text::shared("#".to_owned().concat(digits.as_str())))
        },
        WideId::Text(s) => {
            let marked = text::strip_prefix(s.as_str(), "#").is_some();
            proof {
                lemma_marked(s@);
            }
            if marked {
                NumberOrString::String(text::shared("#".to_owned().concat(s.as_str())))
            } else {
                NumberOrString::String(text::shared(s))
            }
        },
    }
}

/// The identifier as the session carries it.
pub fn widen_id(id: &RequestId) -> (r: WideId)
    ensures
        r@ == widened(id@),
{
    proof {
        reveal_strlit("#");
        assert("#"@ =~= seq!['#']);
    }
    match id {
        NumberOrString::Number(n) => WideId::Number(*n as i64),
        NumberOrString::String(s) => {
            let s: &str = &**s;
            proof {
                lemma_marked(s@);
            }
            let rest = match text::strip_prefix(s, "#") {
                Some(rest) => rest,
                None => {
                    return WideId::Text(s.to_owned());
                },
            };
            proof {
                assert(rest@ =~= s@.skip(1));
                lemma_marked(rest@);
            }
            if text::strip_prefix(rest, "#").is_some() {
                return WideId::Text(rest.to_owned());
            }
            match text::parse_signed_decimal(rest) {
                Some(n) => {
                    proof {
                        let m = choose|m: i64| is_signed_decimal(rest@, m);
                        lemma_signed_decimal(n as int, m as int);
                    }
                    WideId::Number(n)
                },
                None => WideId::Text(s.to_owned()),
            }
        },
    }
}

/// A text begins with a mark where the mark is its prefix.
proof fn lemma_marked(text: Seq<char>)
    ensures
        is_marked(text) <==> "#"@.is_prefix_of(text),
{
    reveal_strlit("#");
    assert("#"@.len() == 1 && "#"@[0] == '#');
    if is_marked(text) {
        assert("#"@ =~= text.take(1));
    }
}

/// Every identifier of a session leaves the proxy as it came.
pub proof fn narrowed_id_is_widened_back(id: WideView)
    ensures
        widened(narrowed(id)) == id,
{
    match id {
        WideView::Number(n) => {
            if !(0 <= n <= u32::MAX) {
                let digits = signed_decimal(n as int);
                let text = seq!['#'] + digits;
                assert(text.skip(1) =~= digits);
                text::lemma_signed_decimal_start(n as int);
                assert(is_signed_decimal(digits, n));
                let m = choose|m: i64| is_signed_decimal(digits, m);
                lemma_signed_decimal(n as int, m as int);
            }
        },
        WideView::Text(s) => {
            if is_marked(s) {
                assert((seq!['#'] + s).skip(1) =~= s);
            }
        },
    }
}

/// A number of 32 bits stays that number, and a text without the mark in front stays that text.
/// Any other identifier becomes a text with the mark in front: a number in decimal notation, and a
/// text as it is.
pub proof fn fitting_id_stays_as_it_is(id: WideView)
    ensures
        match id {
            WideView::Number(n) => if 0 <= n < 0x1_0000_0000 {
                narrowed(id) is Number && narrowed(id)->Number_0 == n
            } else {
                narrowed(id) is String && narrowed(id)->String_0 == seq!['#'] + signed_decimal(
                    n as int,
                )
            },
            WideView::Text(text) => if text.len() > 0 && text[0] == '#' {
                narrowed(id) is String && narrowed(id)->String_0 == seq!['#'] + text
            } else {
                narrowed(id) is String && narrowed(id)->String_0 == text
            },
        },
{
}

/// An identifier that is a number is widened to that number, and a text without the mark in front
/// to that text.
pub proof fn plain_id_is_widened_as_it_is(id: IdView)
    ensures
        match id {
            IdView::Number(n) => widened(id) is Number && widened(id)->Number_0 == n,
            IdView::String(text) => !(text.len() > 0 && text[0] == '#') ==> widened(id) is Text
                && widened(id)->Text_0 == text,
        },
{
}

/// The model of a wide identifier tells a number from a text, and holds the number or the text.
pub proof fn wide_identifier_is_modelled(id: WideId)
    ensures
        match id {
            WideId::Number(n) => id@ is Number && id@->Number_0 == n,
            WideId::Text(text) => id@ is Text && id@->Text_0 == text@,
        },
{
}

/// The texts of identifiers stand in the order of the identifiers.
pub proof fn id_texts_stand_in_order(ids: Seq<String>)
    ensures
        id_texts(ids).len() == ids.len(),
        forall|i: int| 0 <= i < ids.len() ==> #[trigger] id_texts(ids)[i] == ids[i]@,
{
}

} // verus!
