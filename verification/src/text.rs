//! Text: what the string operations of the standard library do, over sequences of characters.

use std::sync::Arc;
use vstd::prelude::*;
use vstd::utf8::{decode_utf8, valid_utf8};

verus! {

/// The characters with the Unicode property `White_Space`.
pub open spec fn is_whitespace(c: char) -> bool {
    ||| '\u{9}' <= c <= '\u{d}'
    ||| c == '\u{20}'
    ||| c == '\u{85}'
    ||| c == '\u{a0}'
    ||| c == '\u{1680}'
    ||| '\u{2000}' <= c <= '\u{200a}'
    ||| c == '\u{2028}'
    ||| c == '\u{2029}'
    ||| c == '\u{202f}'
    ||| c == '\u{205f}'
    ||| c == '\u{3000}'
}

/// `s` without its leading white space.
pub open spec fn trimmed_start(s: Seq<char>) -> Seq<char>
    decreases s.len(),
{
    if s.len() > 0 && is_whitespace(s[0]) {
        trimmed_start(s.drop_first())
    } else {
        s
    }
}

/// `s` without its trailing white space.
pub open spec fn trimmed_end(s: Seq<char>) -> Seq<char>
    decreases s.len(),
{
    if s.len() > 0 && is_whitespace(s.last()) {
        trimmed_end(s.drop_last())
    } else {
        s
    }
}

/// `s` without the white space around it.
pub open spec fn trimmed(s: Seq<char>) -> Seq<char> {
    trimmed_end(trimmed_start(s))
}

/// The position of the first newline of `s`, or the length of `s` where it has none.
pub open spec fn newline_at(s: Seq<char>) -> nat
    decreases s.len(),
{
    if s.len() == 0 || s[0] == '\n' {
        0
    } else {
        1 + newline_at(s.drop_first())
    }
}

/// The decimal digit with the value `d`.
pub open spec fn digit(d: nat) -> char {
    (48 + d) as char
}

/// `n` in decimal notation, without leading zeros.
pub open spec fn decimal(n: nat) -> Seq<char>
    decreases n,
{
    if n < 10 {
        seq![digit(n)]
    } else {
        decimal(n / 10).push(digit(n % 10))
    }
}

/// `str::trim`: the text without the white space around it, where white space is what Unicode
/// says it is.
#[verifier::external_body]
pub(crate) fn trim(s: &str) -> (r: &str)
    ensures
        r@ == trimmed(s@),
{
    s.trim()
}

/// `str::strip_prefix` with a string as the pattern: what follows the prefix, or nothing where
/// the text does not begin with it.
#[verifier::external_body]
pub(crate) fn strip_prefix<'a>(s: &'a str, prefix: &str) -> (r: Option<&'a str>)
    ensures
        match r {
            Some(rest) => s@ == prefix@ + rest@,
            None => !prefix@.is_prefix_of(s@),
        },
{
    s.strip_prefix(prefix)
}

/// `str::strip_suffix` of a newline: what stands before the newline at the end of the text, or
/// nothing where the text does not end with one.
#[verifier::external_body]
pub(crate) fn strip_newline(s: &str) -> (r: Option<&str>)
    ensures
        match r {
            Some(rest) => s@ == rest@.push('\n'),
            None => s@.len() == 0 || s@.last() != '\n',
        },
{
    s.strip_suffix('\n')
}

/// `str::split_once` at a newline: what stands before and after the first newline, or nothing
/// where there is none.
#[verifier::external_body]
pub(crate) fn split_line(s: &str) -> (r: Option<(&str, &str)>)
    ensures
        match r {
            Some((line, rest)) => s@ == line@ + seq!['\n'] + rest@ && !line@.contains('\n'),
            None => !s@.contains('\n'),
        },
{
    s.split_once('\n')
}

/// `==` on `str`: the two texts have the same characters.
#[verifier::external_body]
pub(crate) fn same(a: &str, b: &str) -> (r: bool)
    ensures
        r == (a@ == b@),
{
    a == b
}

/// `Arc::<str>::from`: the same text, shared.
#[verifier::external_body]
pub(crate) fn shared(s: String) -> (r: Arc<str>)
    ensures
        r@ == s@,
{
    Arc::from(s)
}

/// What `String::from_utf8` says of bytes that are not UTF-8.
pub uninterp spec fn utf8_error(bytes: Seq<u8>) -> Seq<char>;

/// `String::from_utf8`: the text that the bytes encode, or a description of what is wrong with
/// them where they are not UTF-8.
#[verifier::external_body]
pub(crate) fn from_utf8(bytes: Vec<u8>) -> (r: Result<String, String>)
    ensures
        match r {
            Ok(s) => valid_utf8(bytes@) && s@ == decode_utf8(bytes@),
            Err(e) => !valid_utf8(bytes@) && e@ == utf8_error(bytes@),
        },
{
    String::from_utf8(bytes).map_err(|e| e.to_string())
}

/// What `String::from_utf8_lossy` reads from bytes.
pub uninterp spec fn utf8_lossy(bytes: Seq<u8>) -> Seq<char>;

/// `String::from_utf8_lossy`: the text that the bytes encode, with replacement characters for
/// what is not UTF-8.
#[verifier::external_body]
pub(crate) fn from_utf8_lossy(bytes: &[u8]) -> (r: String)
    ensures
        r@ == utf8_lossy(bytes@),
        valid_utf8(bytes@) ==> r@ == decode_utf8(bytes@),
{
    String::from_utf8_lossy(bytes).into_owned()
}

fn digit_text(d: u64) -> (r: &'static str)
    requires
        d < 10,
    ensures
        r@ == seq![digit(d as nat)],
{
    proof {
        reveal_strlit("0");
        reveal_strlit("1");
        reveal_strlit("2");
        reveal_strlit("3");
        reveal_strlit("4");
        reveal_strlit("5");
        reveal_strlit("6");
        reveal_strlit("7");
        reveal_strlit("8");
        reveal_strlit("9");
    }
    match d {
        0 => "0",
        1 => "1",
        2 => "2",
        3 => "3",
        4 => "4",
        5 => "5",
        6 => "6",
        7 => "7",
        8 => "8",
        _ => "9",
    }
}

/// `n` in decimal notation.
pub fn decimal_text(n: u64) -> (r: String)
    ensures
        r@ == decimal(n as nat),
    decreases n,
{
    if n < 10 {
        digit_text(n).to_owned()
    } else {
        let mut r = decimal_text(n / 10);
        r.append(digit_text(n % 10));
        assert(r@ == decimal(n as nat));
        r
    }
}

/// `n` in decimal notation, with a minus sign where it is negative.
pub open spec fn signed_decimal(n: int) -> Seq<char> {
    if n < 0 {
        seq!['-'] + decimal((-n) as nat)
    } else {
        decimal(n as nat)
    }
}

/// The text is the decimal notation of `n`.
pub open spec fn is_signed_decimal(s: Seq<char>, n: i64) -> bool {
    s == signed_decimal(n as int)
}

/// The number whose digits the text holds.
pub open spec fn digits_value(s: Seq<char>) -> nat
    decreases s.len(),
{
    if s.len() == 0 {
        0
    } else {
        digits_value(s.drop_last()) * 10 + (s.last() as nat - 48) as nat
    }
}

/// The text holds digits only.
pub open spec fn all_digits(s: Seq<char>) -> bool {
    forall|i: int| 0 <= i < s.len() ==> '0' <= #[trigger] s[i] <= '9'
}

/// The digits of a number give the number.
pub proof fn lemma_decimal(n: nat)
    ensures
        decimal(n).len() > 0,
        all_digits(decimal(n)),
        digits_value(decimal(n)) == n,
    decreases n,
{
    if n >= 10 {
        lemma_decimal(n / 10);
        assert(decimal(n).drop_last() =~= decimal(n / 10));
        assert(digit(n % 10) as nat == 48 + n % 10);
    } else {
        assert(decimal(n).drop_last() =~= Seq::<char>::empty());
        assert(digits_value(Seq::<char>::empty()) == 0);
        assert(digit(n) as nat == 48 + n);
    }
}

/// The decimal notation of a number begins with a digit or a minus sign.
pub proof fn lemma_signed_decimal_start(n: int)
    ensures
        signed_decimal(n).len() > 0,
        n < 0 ==> signed_decimal(n)[0] == '-',
        n >= 0 ==> '0' <= signed_decimal(n)[0] <= '9',
{
    lemma_decimal(
        if n < 0 {
            (-n) as nat
        } else {
            n as nat
        },
    );
}

/// Different numbers have different decimal notations.
pub proof fn lemma_signed_decimal(n: int, m: int)
    ensures
        signed_decimal(n) == signed_decimal(m) ==> n == m,
{
    lemma_signed_decimal_start(n);
    lemma_signed_decimal_start(m);
    if signed_decimal(n) == signed_decimal(m) {
        if n < 0 {
            lemma_decimal((-n) as nat);
            lemma_decimal((-m) as nat);
            assert(signed_decimal(n).skip(1) =~= decimal((-n) as nat));
            assert(signed_decimal(m).skip(1) =~= decimal((-m) as nat));
        } else {
            lemma_decimal(n as nat);
            lemma_decimal(m as nat);
        }
    }
}

/// More digits give no smaller number.
proof fn lemma_digits_value_grows(s: Seq<char>, i: int)
    requires
        0 <= i <= s.len(),
    ensures
        digits_value(s.take(i)) <= digits_value(s),
    decreases s.len(),
{
    if i < s.len() {
        lemma_digits_value_grows(s.drop_last(), i);
        assert(s.drop_last().take(i) =~= s.take(i));
    } else {
        assert(s.take(i) =~= s);
    }
}

/// `n` in decimal notation, with a minus sign where it is negative.
pub fn signed_decimal_text(n: i64) -> (r: String)
    ensures
        r@ == signed_decimal(n as int),
{
    if n < 0 {
        proof {
            reveal_strlit("-");
            assert("-"@ =~= seq!['-']);
        }
        let magnitude: u64 = (-(n as i128)) as u64;
        "-".to_owned().concat(decimal_text(magnitude).as_str())
    } else {
        decimal_text(n as u64)
    }
}

/// The number whose digits the text holds, up to `u64::MAX`, or nothing where it holds anything
/// else.
fn parse_digits(s: &str) -> (r: Option<u64>)
    ensures
        match r {
            Some(n) => all_digits(s@) && digits_value(s@) == n,
            None => !all_digits(s@) || digits_value(s@) > u64::MAX,
        },
{
    let len: usize = s.unicode_len();
    let mut n: u64 = 0;
    assert(s@.take(0) =~= Seq::<char>::empty());
    for i in 0..len
        invariant
            len == s@.len(),
            all_digits(s@.take(i as int)),
            digits_value(s@.take(i as int)) == n,
    {
        let c = s.get_char(i);
        if !('0' <= c && c <= '9') {
            assert(!('0' <= s@[i as int] <= '9'));
            return None;
        }
        let d: u64 = c as u64 - 48;
        assert(s@.take(i + 1).drop_last() =~= s@.take(i as int));
        assert(digits_value(s@.take(i + 1)) == n * 10 + d);
        if n > (u64::MAX - d) / 10 {
            proof {
                lemma_digits_value_grows(s@, i + 1);
            }
            return None;
        }
        n = n * 10 + d;
        assert forall|j: int| 0 <= j < i + 1 implies '0' <= #[trigger] s@.take(i + 1)[j] <= '9' by {
            if j < i {
                assert(s@.take(i as int)[j] == s@[j]);
            }
        }
    }
    assert(s@.take(len as int) =~= s@);
    Some(n)
}

/// The number whose decimal notation the text is, or nothing where it is no such notation.
pub fn parse_signed_decimal(s: &str) -> (r: Option<i64>)
    ensures
        match r {
            Some(n) => is_signed_decimal(s@, n),
            None => forall|n: i64| !is_signed_decimal(s@, n),
        },
{
    proof {
        reveal_strlit("-");
        assert("-"@ =~= seq!['-']);
        assert forall|n: i64| is_signed_decimal(s@, n) implies (if n < 0 {
            s@ == "-"@ + decimal((-n) as nat) && "-"@.is_prefix_of(s@)
        } else {
            s@ == decimal(n as nat) && !"-"@.is_prefix_of(s@)
        }) by {
            lemma_signed_decimal_start(n as int);
            if n < 0 {
                assert("-"@ =~= s@.take(1));
            } else if "-"@.is_prefix_of(s@) {
                assert(s@.subrange(0, 1)[0] == '-');
            }
        }
    }
    let candidate: Option<i64> = match strip_prefix(s, "-") {
        Some(digits) => {
            proof {
                assert(digits@ =~= s@.skip(1));
                assert forall|n: i64| is_signed_decimal(s@, n) implies digits@ == decimal(
                    (-n) as nat,
                ) && digits_value(digits@) == -n && all_digits(digits@) by {
                    lemma_decimal((-n) as nat);
                    assert(digits@ =~= decimal((-n) as nat));
                }
            }
            match parse_digits(digits) {
                Some(n) => if n <= 0x8000_0000_0000_0000 {
                    Some((-(n as i128)) as i64)
                } else {
                    None
                },
                None => None,
            }
        },
        None => {
            proof {
                assert forall|n: i64| is_signed_decimal(s@, n) implies digits_value(s@) == n
                    && all_digits(s@) by {
                    lemma_decimal(n as nat);
                }
            }
            match parse_digits(s) {
                Some(n) => if n <= 0x7fff_ffff_ffff_ffff {
                    Some(n as i64)
                } else {
                    None
                },
                None => None,
            }
        },
    };
    match candidate {
        Some(n) => {
            if same(signed_decimal_text(n).as_str(), s) {
                Some(n)
            } else {
                None
            }
        },
        None => None,
    }
}

/// The first newline is where the text before it has none.
pub proof fn lemma_newline_at(s: Seq<char>, line: Seq<char>, rest: Seq<char>)
    requires
        s == line + seq!['\n'] + rest,
        !line.contains('\n'),
    ensures
        newline_at(s) == line.len(),
    decreases line.len(),
{
    if line.len() > 0 {
        assert(s[0] == line[0]);
        assert(line.contains(line[0]));
        let tail = line.drop_first();
        assert(s.drop_first() =~= tail + seq!['\n'] + rest);
        assert forall|c: char| tail.contains(c) implies line.contains(c) by {
            let i = choose|i: int| 0 <= i < tail.len() && tail[i] == c;
            assert(line[i + 1] == c);
        }
        lemma_newline_at(s.drop_first(), tail, rest);
    } else {
        assert(s[0] == '\n');
    }
}

/// A text without newlines is one line.
pub proof fn lemma_no_newline(s: Seq<char>)
    ensures
        0 <= newline_at(s) <= s.len(),
        newline_at(s) < s.len() ==> s[newline_at(s) as int] == '\n',
        newline_at(s) == s.len() <==> !s.contains('\n'),
    decreases s.len(),
{
    if s.len() > 0 {
        let tail = s.drop_first();
        lemma_no_newline(tail);
        if s[0] == '\n' {
            assert(s.contains(s[0]));
        } else {
            if tail.contains('\n') {
                let i = choose|i: int| 0 <= i < tail.len() && tail[i] == '\n';
                assert(s[i + 1] == '\n');
            }
            if s.contains('\n') {
                let i = choose|i: int| 0 <= i < s.len() && s[i] == '\n';
                assert(tail[i - 1] == '\n');
            }
        }
    }
}

/// White space, or no text at all.
pub open spec fn is_blank(s: Seq<char>) -> bool {
    forall|i: int| 0 <= i < s.len() ==> is_whitespace(#[trigger] s[i])
}

/// A text with no white space at its ends; it may be empty.
pub open spec fn has_bare_ends(s: Seq<char>) -> bool {
    s.len() > 0 ==> !is_whitespace(s[0]) && !is_whitespace(s.last())
}

/// Whatever white space stands around a text, the text without it is what stands between.
pub proof fn white_space_around_is_taken_off(before: Seq<char>, s: Seq<char>, after: Seq<char>)
    requires
        is_blank(before),
        is_blank(after),
        has_bare_ends(s),
    ensures
        trimmed(before + s + after) == s,
    decreases before.len() + after.len(),
{
    let whole = before + s + after;
    if before.len() > 0 {
        assert(whole[0] == before[0]);
        let tail = before.drop_first();
        assert forall|i: int| 0 <= i < tail.len() implies is_whitespace(#[trigger] tail[i]) by {
            assert(tail[i] == before[i + 1]);
        }
        assert(whole.drop_first() =~= tail + s + after);
        white_space_around_is_taken_off(tail, s, after);
    } else if s.len() > 0 {
        assert(whole[0] == s[0]);
        assert(trimmed_start(whole) == whole);
        if after.len() > 0 {
            assert(whole.last() == after.last());
            let head = after.drop_last();
            assert forall|i: int| 0 <= i < head.len() implies is_whitespace(#[trigger] head[i]) by {
                assert(head[i] == after[i]);
            }
            assert(whole.drop_last() =~= before + s + head);
            white_space_around_is_taken_off(before, s, head);
            assert((before + s + head)[0] == s[0]);
            assert(trimmed_start(before + s + head) == before + s + head);
        } else {
            assert(whole =~= s);
        }
    } else if after.len() > 0 {
        assert(whole[0] == after[0]);
        let tail = after.drop_first();
        assert forall|i: int| 0 <= i < tail.len() implies is_whitespace(#[trigger] tail[i]) by {
            assert(tail[i] == after[i + 1]);
        }
        assert(whole.drop_first() =~= before + s + tail);
        white_space_around_is_taken_off(before, s, tail);
    } else {
        assert(whole =~= s);
    }
}

/// The decimal notation of a number has no leading zero, unless the number is zero.
pub proof fn decimal_has_no_leading_zero(n: nat)
    ensures
        decimal(n).len() > 0,
        decimal(n)[0] == '0' <==> n == 0,
        n == 0 ==> decimal(n).len() == 1,
    decreases n,
{
    if n >= 10 {
        decimal_has_no_leading_zero(n / 10);
    } else {
        assert(digit(n) as nat == 48 + n);
    }
}

/// A number that is not negative is written by its decimal digits, and a negative one by a minus
/// sign and the digits of the number without it.
pub proof fn signed_decimal_shows_the_number(n: int)
    ensures
        n >= 0 ==> all_digits(signed_decimal(n)) && digits_value(signed_decimal(n)) == n,
        n < 0 ==> signed_decimal(n).len() > 1 && signed_decimal(n)[0] == '-' && all_digits(
            signed_decimal(n).drop_first(),
        ) && digits_value(signed_decimal(n).drop_first()) == -n,
{
    if n >= 0 {
        lemma_decimal(n as nat);
    } else {
        lemma_decimal((-n) as nat);
        assert(signed_decimal(n).drop_first() =~= decimal((-n) as nat));
    }
}

} // verus!
