//! Base64 text, as the `base64` crate writes and reads it.
//!
//! Both engines in use are strict: a text is accepted only in the one form in which
//! its bytes would be written.

use base64::engine::general_purpose::{STANDARD, URL_SAFE_NO_PAD};
use base64::Engine;
use vstd::prelude::*;

verus! {

/// Which of the two forms a text has.
#[derive(Debug, Clone, Copy, PartialEq, Eq, Structural)]
pub enum Form {
    /// `-` and `_` as the last two symbols, and no padding.
    UrlSafe,
    /// `+` and `/` as the last two symbols, padded with `=` to a multiple of four.
    Standard,
}

/// The symbol for a number below 64.
pub open spec fn symbol(form: Form, v: int) -> char {
    if v < 26 {
        ('A' as int + v) as char
    } else if v < 52 {
        ('a' as int + v - 26) as char
    } else if v < 62 {
        ('0' as int + v - 52) as char
    } else if v == 62 {
        if form == Form::UrlSafe {
            '-'
        } else {
            '+'
        }
    } else {
        if form == Form::UrlSafe {
            '_'
        } else {
            '/'
        }
    }
}

/// The byte at `i`, or zero behind the end.
pub open spec fn byte_or_zero(b: Seq<u8>, i: int) -> int {
    if i < b.len() {
        b[i] as int
    } else {
        0
    }
}

/// The `i`-th group of six bits among the first three bytes.
pub open spec fn sextet(b: Seq<u8>, i: int) -> int {
    let x = byte_or_zero(b, 0);
    let y = byte_or_zero(b, 1);
    let z = byte_or_zero(b, 2);
    if i == 0 {
        x / 4
    } else if i == 1 {
        x % 4 * 16 + y / 16
    } else if i == 2 {
        y % 16 * 4 + z / 64
    } else {
        z % 64
    }
}

/// The text of `b`: four symbols for every three bytes, six bits in each, the last
/// group filled up with zero bits.
pub open spec fn text(form: Form, b: Seq<u8>) -> Seq<char>
    decreases b.len(),
{
    if b.len() == 0 {
        Seq::<char>::empty()
    } else if b.len() < 3 {
        let symbols = Seq::new((b.len() + 1) as nat, |i: int| symbol(form, sextet(b, i)));
        if form == Form::Standard {
            symbols + Seq::new((3 - b.len()) as nat, |i: int| '=')
        } else {
            symbols
        }
    } else {
        Seq::new(4, |i: int| symbol(form, sextet(b, i))) + text(form, b.skip(3))
    }
}

/// How long the text of `n` bytes is.
pub open spec fn text_len(form: Form, n: nat) -> nat {
    if form == Form::Standard {
        4 * ((n + 2) / 3)
    } else {
        (4 * n + 2) / 3
    }
}

/// Whether some bytes have this text.
pub open spec fn is_text(form: Form, s: Seq<char>) -> bool {
    exists|b: Seq<u8>| #[trigger] text(form, b) == s
}

/// Writes the url-safe form with `base64::Engine::encode` of `URL_SAFE_NO_PAD`: the
/// result is the text of the bytes.
#[verifier::external_body]
pub(crate) fn encode_url_safe(bytes: &[u8]) -> (s: String)
    requires
        text_len(Form::UrlSafe, bytes@.len()) <= isize::MAX,
    ensures
        s@ == text(Form::UrlSafe, bytes@),
{
    URL_SAFE_NO_PAD.encode(bytes)
}

/// Reads the url-safe form with `base64::Engine::decode` of `URL_SAFE_NO_PAD`, which
/// refuses padding, foreign symbols and non-zero filling bits: it returns the bytes
/// that have this text, and an error if there are none.
#[verifier::external_body]
pub(crate) fn decode_url_safe(s: &str) -> (r: Option<Vec<u8>>)
    ensures
        r matches Some(b) ==> text(Form::UrlSafe, b@) == s@,
        r is None ==> !is_text(Form::UrlSafe, s@),
{
    match URL_SAFE_NO_PAD.decode(s.as_bytes()) {
        Ok(b) => Some(b),
        Err(_) => None,
    }
}

/// Writes the standard form with `base64::Engine::encode` of `STANDARD`: the result
/// is the text of the bytes.
#[verifier::external_body]
pub(crate) fn encode_standard(bytes: &[u8]) -> (s: String)
    requires
        text_len(Form::Standard, bytes@.len()) <= isize::MAX,
    ensures
        s@ == text(Form::Standard, bytes@),
{
    STANDARD.encode(bytes)
}

/// Reads the standard form with `base64::Engine::decode` of `STANDARD`, which wants
/// the padding to be complete and refuses foreign symbols and non-zero filling bits:
/// it returns the bytes that have this text, and an error if there are none, which
/// depends on the text alone.
#[verifier::external_body]
pub(crate) fn decode_standard(s: &str) -> (r: Result<Vec<u8>, base64::DecodeError>)
    ensures
        r matches Ok(b) ==> text(Form::Standard, b@) == s@,
        r matches Err(e) ==> !is_text(Form::Standard, s@) && e == decode_error(s@),
{
    STANDARD.decode(s.as_bytes())
}

/// `base64::DecodeError`: where a text is malformed. Nothing here looks inside.
#[verifier::external_type_specification]
#[verifier::external_body]
pub struct ExDecodeError(base64::DecodeError);

/// The error with which `base64` refuses a text in the standard form.
pub uninterp spec fn decode_error(s: Seq<char>) -> base64::DecodeError;

/// The explanation that a `base64::DecodeError` gives.
pub uninterp spec fn error_text(e: base64::DecodeError) -> Seq<char>;

/// The explanation that `base64::DecodeError` gives as its `Display`, which depends on
/// the error alone.
#[verifier::external_body]
pub(crate) fn explain(e: &base64::DecodeError) -> (s: String)
    ensures
        s@ == error_text(*e),
{
    format!("{e}")
}

proof fn lemma_symbol_range(form: Form, x: int)
    requires
        0 <= x < 64,
    ensures
        x < 26 ==> symbol(form, x) as int == 65 + x,
        26 <= x < 52 ==> symbol(form, x) as int == 97 + x - 26,
        52 <= x < 62 ==> symbol(form, x) as int == 48 + x - 52,
        x == 62 ==> symbol(form, x) as int == (if form == Form::UrlSafe {
            45int
        } else {
            43
        }),
        x == 63 ==> symbol(form, x) as int == (if form == Form::UrlSafe {
            95int
        } else {
            47
        }),
{
}

proof fn lemma_symbol_injective(form: Form, x: int, y: int)
    requires
        0 <= x < 64,
        0 <= y < 64,
        symbol(form, x) == symbol(form, y),
    ensures
        x == y,
{
    lemma_symbol_range(form, x);
    lemma_symbol_range(form, y);
}

proof fn lemma_sextet_range(b: Seq<u8>)
    ensures
        forall|i: int| 0 <= #[trigger] sextet(b, i) < 64,
{
}

/// The first three bytes follow from their sextets.
proof fn lemma_sextets_injective(a: Seq<u8>, b: Seq<u8>)
    requires
        sextet(a, 0) == sextet(b, 0),
        sextet(a, 1) == sextet(b, 1),
        sextet(a, 2) == sextet(b, 2),
        sextet(a, 3) == sextet(b, 3),
    ensures
        byte_or_zero(a, 0) == byte_or_zero(b, 0),
        byte_or_zero(a, 1) == byte_or_zero(b, 1),
        byte_or_zero(a, 2) == byte_or_zero(b, 2),
{
}

/// The first symbols of a text are those of the first sextets, and `=` stands where
/// there are none.
proof fn lemma_text_head(form: Form, b: Seq<u8>, i: int)
    requires
        b.len() > 0,
        0 <= i < 4,
        i < text(form, b).len(),
    ensures
        text(form, b)[i] == (if i <= b.len() {
            symbol(form, sextet(b, i))
        } else {
            '='
        }),
{
}

/// The text of `n` bytes is `text_len` symbols long, each of them ASCII.
pub proof fn lemma_text_len(form: Form, b: Seq<u8>)
    ensures
        text(form, b).len() == text_len(form, b.len()),
        vstd::utf8::is_ascii_chars(text(form, b)),
    decreases b.len(),
{
    lemma_sextet_range(b);
    if b.len() >= 3 {
        lemma_text_len(form, b.skip(3));
    }
    let s = text(form, b);
    assert forall|i: int| 0 <= i < s.len() implies '\0' <= #[trigger] s[i] <= '\u{7f}' by {
        if i < 4 && i <= b.len() {
            lemma_symbol_range(form, sextet(b, i));
        }
    }
}

/// The url-safe form holds letters, digits, `-` and `_` only.
pub proof fn lemma_url_text_symbols(b: Seq<u8>)
    ensures
        forall|i: int|
            0 <= i < text(Form::UrlSafe, b).len() ==> {
                let x = #[trigger] text(Form::UrlSafe, b)[i] as int;
                x == 45 || x == 95 || 48 <= x <= 57 || 65 <= x <= 90 || 97 <= x <= 122
            },
    decreases b.len(),
{
    lemma_sextet_range(b);
    if b.len() >= 3 {
        lemma_url_text_symbols(b.skip(3));
    }
    let s = text(Form::UrlSafe, b);
    assert forall|i: int| 0 <= i < s.len() implies ({
        let x = #[trigger] s[i] as int;
        x == 45 || x == 95 || 48 <= x <= 57 || 65 <= x <= 90 || 97 <= x <= 122
    }) by {
        if i < 4 {
            lemma_symbol_range(Form::UrlSafe, sextet(b, i));
        } else {
            assert(s[i] == text(Form::UrlSafe, b.skip(3))[i - 4]);
        }
    }
}

/// The standard form holds letters, digits, `+`, `/` and `=` only, so no white space.
pub proof fn lemma_standard_text_not_white(b: Seq<u8>)
    ensures
        forall|i: int|
            0 <= i < text(Form::Standard, b).len() ==> !crate::text::is_white(
                #[trigger] text(Form::Standard, b)[i],
            ),
    decreases b.len(),
{
    lemma_sextet_range(b);
    if b.len() >= 3 {
        lemma_standard_text_not_white(b.skip(3));
    }
    let s = text(Form::Standard, b);
    assert forall|i: int| 0 <= i < s.len() implies !crate::text::is_white(#[trigger] s[i]) by {
        if i < 4 {
            lemma_text_head(Form::Standard, b, i);
            lemma_symbol_range(Form::Standard, sextet(b, i));
        } else {
            assert(s[i] == text(Form::Standard, b.skip(3))[i - 4]);
        }
    }
}

/// Different bytes have different texts.
pub proof fn law_text_injective(form: Form, a: Seq<u8>, b: Seq<u8>)
    requires
        text(form, a) == text(form, b),
    ensures
        a == b,
    decreases a.len(),
{
    lemma_text_len(form, a);
    lemma_text_len(form, b);
    if a.len() == 0 || b.len() == 0 {
        assert(a =~= b);
    } else {
        let s = text(form, a);
        lemma_sextet_range(a);
        lemma_sextet_range(b);
        assert forall|i: int| 0 <= i < 4 && i < s.len() implies (i <= a.len() <==> i <= b.len()) && (
        i <= a.len() ==> #[trigger] sextet(a, i) == sextet(b, i)) by {
            lemma_text_head(form, a, i);
            lemma_text_head(form, b, i);
            lemma_symbol_range(form, sextet(a, i));
            lemma_symbol_range(form, sextet(b, i));
            if i <= a.len() && i <= b.len() {
                lemma_symbol_injective(form, sextet(a, i), sextet(b, i));
            }
        }
        assert(s.len() >= 2);
        assert(sextet(a, 0) == sextet(b, 0));
        assert(sextet(a, 1) == sextet(b, 1));
        if a.len() >= 3 || b.len() >= 3 {
            assert(s.len() >= 4);
            assert(sextet(a, 2) == sextet(b, 2));
            assert(sextet(a, 3) == sextet(b, 3));
            lemma_sextets_injective(a, b);
            assert(s.skip(4) =~= text(form, a.skip(3)));
            assert(s.skip(4) =~= text(form, b.skip(3)));
            law_text_injective(form, a.skip(3), b.skip(3));
            assert(a =~= a.take(3) + a.skip(3));
            assert(b =~= b.take(3) + b.skip(3));
            assert forall|i: int| 0 <= i < 3 implies a[i] == b[i] by {
                assert(byte_or_zero(a, i) == byte_or_zero(b, i));
            }
            assert(a.take(3) =~= b.take(3));
        } else {
            if a.len() == 2 || b.len() == 2 {
                assert(sextet(a, 2) == sextet(b, 2));
            }
            assert(a.len() == b.len());
            assert(byte_or_zero(a, 0) == byte_or_zero(b, 0));
            assert(byte_or_zero(a, 1) == byte_or_zero(b, 1));
            assert(a =~= b);
        }
    }
}

} // verus!
