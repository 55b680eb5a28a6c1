//! Base64 in the two forms the portal uses: the URL-safe alphabet without
//! padding, and the standard alphabet with padding.

use base64::Engine;
use vstd::prelude::*;

verus! {

/// The two forms of base64 text.
#[derive(Debug, Clone, Copy, PartialEq, Eq, Structural)]
pub enum Form {
    /// `-` and `_` for the last two digits, no padding.
    UrlSafe,
    /// `+` and `/` for the last two digits, padded with `=`.
    Standard,
}

/// The character for a six-bit digit.
pub open spec fn digit_char(form: Form, v: int) -> char {
    if v < 26 {
        ('A' as int + v) as char
    } else if v < 52 {
        ('a' as int + (v - 26)) as char
    } else if v < 62 {
        ('0' as int + (v - 52)) as char
    } else if v == 62 {
        if form is UrlSafe { '-' } else { '+' }
    } else {
        if form is UrlSafe { '_' } else { '/' }
    }
}

/// The padding behind a last group that lacks `n` bytes.
pub open spec fn padding(form: Form, n: nat) -> Seq<char> {
    if form is UrlSafe {
        Seq::empty()
    } else {
        Seq::new(n, |i: int| '=')
    }
}

/// The base64 text of some bytes.
pub open spec fn encoded(form: Form, b: Seq<u8>) -> Seq<char>
    decreases b.len(),
{
    let x = b[0] as int;
    let y = b[1] as int;
    let z = b[2] as int;
    if b.len() == 0 {
        Seq::empty()
    } else if b.len() == 1 {
        seq![digit_char(form, x / 4), digit_char(form, x % 4 * 16)] + padding(form, 2)
    } else if b.len() == 2 {
        seq![
            digit_char(form, x / 4),
            digit_char(form, x % 4 * 16 + y / 16),
            digit_char(form, y % 16 * 4),
        ] + padding(form, 1)
    } else {
        seq![
            digit_char(form, x / 4),
            digit_char(form, x % 4 * 16 + y / 16),
            digit_char(form, y % 16 * 4 + z / 64),
            digit_char(form, z % 64),
        ] + encoded(form, b.skip(3))
    }
}

/// The bytes a base64 text stands for, if it is the text of any.
pub open spec fn decoded(form: Form, s: Seq<char>) -> Option<Seq<u8>> {
    if exists|b: Seq<u8>| encoded(form, b) == s {
        Some(choose|b: Seq<u8>| encoded(form, b) == s)
    } else {
        None
    }
}

proof fn lemma_digit(form: Form, v: int, w: int)
    requires
        0 <= v < 64,
        0 <= w < 64,
        digit_char(form, v) == digit_char(form, w),
    ensures
        v == w,
{
}

proof fn lemma_not_padding(form: Form, v: int)
    requires
        0 <= v < 64,
    ensures
        digit_char(form, v) != '=',
{
}

/// Different bytes have different base64 texts.
pub proof fn encoded_is_injective(form: Form, a: Seq<u8>, b: Seq<u8>)
    requires
        encoded(form, a) == encoded(form, b),
    ensures
        a == b,
    decreases a.len(),
{
    let s = encoded(form, a);
    let t = encoded(form, b);
    assert(a.len() == 0 <==> s.len() == 0);
    assert(b.len() == 0 <==> t.len() == 0);
    if a.len() == 0 {
        assert(a =~= b);
    } else {
        let (x, y, z) = (a[0] as int, a[1] as int, a[2] as int);
        let (u, v, w) = (b[0] as int, b[1] as int, b[2] as int);
        assert(s[0] == digit_char(form, x / 4) && t[0] == digit_char(form, u / 4));
        lemma_digit(form, x / 4, u / 4);
        let p1 = if a.len() == 1 { x % 4 * 16 } else { x % 4 * 16 + y / 16 };
        let q1 = if b.len() == 1 { u % 4 * 16 } else { u % 4 * 16 + v / 16 };
        assert(s[1] == digit_char(form, p1) && t[1] == digit_char(form, q1));
        lemma_digit(form, p1, q1);
        let p2 = if a.len() == 2 { y % 16 * 4 } else { y % 16 * 4 + z / 64 };
        let q2 = if b.len() == 2 { v % 16 * 4 } else { v % 16 * 4 + w / 64 };
        lemma_not_padding(form, p2);
        lemma_not_padding(form, q2);
        lemma_not_padding(form, z % 64);
        lemma_not_padding(form, w % 64);
        assert(a.len() > 1 ==> s[2] == digit_char(form, p2));
        assert(b.len() > 1 ==> t[2] == digit_char(form, q2));
        assert(a.len() > 2 ==> s[3] == digit_char(form, z % 64));
        assert(b.len() > 2 ==> t[3] == digit_char(form, w % 64));
        assert(a.len() == 1 ==> s.len() == 2 || s[2] == '=');
        assert(b.len() == 1 ==> t.len() == 2 || t[2] == '=');
        assert(a.len() == 2 ==> s.len() == 3 || s[3] == '=');
        assert(b.len() == 2 ==> t.len() == 3 || t[3] == '=');
        assert(a.len() == 1 <==> b.len() == 1);
        assert(a.len() == 2 <==> b.len() == 2);
        if a.len() > 1 {
            lemma_digit(form, p2, q2);
        }
        if a.len() > 2 {
            lemma_digit(form, z % 64, w % 64);
            assert(encoded(form, a.skip(3)) =~= s.skip(4));
            assert(encoded(form, b.skip(3)) =~= t.skip(4));
            encoded_is_injective(form, a.skip(3), b.skip(3));
            assert(a =~= seq![a[0], a[1], a[2]] + a.skip(3));
            assert(b =~= seq![b[0], b[1], b[2]] + b.skip(3));
        } else {
            assert(a =~= b);
        }
    }
}

/// Decoding gives back what was encoded.
pub proof fn decoded_inverts_encoded(form: Form, b: Seq<u8>)
    ensures
        decoded(form, encoded(form, b)) == Some(b),
{
    let s = encoded(form, b);
    let c = choose|c: Seq<u8>| encoded(form, c) == s;
    assert(encoded(form, c) == s);
    encoded_is_injective(form, b, c);
}

/// How long the base64 text of some bytes is. It holds no blanks.
pub proof fn encoded_shape(form: Form, b: Seq<u8>)
    ensures
        form is Standard ==> encoded(form, b).len() == (b.len() + 2) / 3 * 4,
        form is UrlSafe ==> encoded(form, b).len() == (4 * b.len() + 2) / 3,
        forall|i: int| 0 <= i < encoded(form, b).len() ==> ' ' < #[trigger] encoded(form, b)[i] < '\u{7f}',
    decreases b.len(),
{
    let s = encoded(form, b);
    if b.len() >= 3 {
        encoded_shape(form, b.skip(3));
        assert forall|i: int| 0 <= i < s.len() implies ' ' < #[trigger] s[i] < '\u{7f}' by {
            if i >= 4 {
                assert(s[i] == encoded(form, b.skip(3))[i - 4]);
            }
        }
    }
}

/// Whether a character stands in URL-safe base64.
pub open spec fn is_url_safe(c: char) -> bool {
    ('a' <= c <= 'z') || ('A' <= c <= 'Z') || ('0' <= c <= '9') || c == '-' || c == '_'
}

/// URL-safe base64 is made of letters, digits, `-` and `_` alone, and is empty
/// for no bytes only.
pub proof fn url_safe_alphabet(b: Seq<u8>)
    ensures
        forall|i: int|
            0 <= i < encoded(Form::UrlSafe, b).len() ==> is_url_safe(
                #[trigger] encoded(Form::UrlSafe, b)[i],
            ),
        b.len() > 0 ==> encoded(Form::UrlSafe, b).len() > 0,
    decreases b.len(),
{
    let s = encoded(Form::UrlSafe, b);
    if b.len() >= 3 {
        url_safe_alphabet(b.skip(3));
        assert forall|i: int| 0 <= i < s.len() implies is_url_safe(#[trigger] s[i]) by {
            if i >= 4 {
                assert(s[i] == encoded(Form::UrlSafe, b.skip(3))[i - 4]);
            }
        }
    }
}

/// What the URL-safe decoder says of a text it refuses.
pub uninterp spec fn url_safe_refusal(s: Seq<char>) -> Seq<char>;

/// `Engine::encode` of `URL_SAFE_NO_PAD`: the URL-safe base64 text of the
/// bytes, without padding.
#[verifier::external_body]
pub(crate) fn encode_url_safe(bytes: &[u8]) -> (s: String)
    ensures
        s@ == encoded(Form::UrlSafe, bytes@),
{
    base64::engine::general_purpose::URL_SAFE_NO_PAD.encode(bytes)
}

/// `Engine::decode` of `URL_SAFE_NO_PAD`: succeeds exactly on the texts that
/// encoding produces (no padding, no stray bits in the last digit, no foreign
/// character) and returns the bytes; otherwise returns the error as text,
/// which is a function of the input and not described further.
#[verifier::external_body]
pub(crate) fn decode_url_safe(s: &str) -> (r: Result<Vec<u8>, String>)
    ensures
        match r {
            Ok(b) => encoded(Form::UrlSafe, b@) == s@,
            Err(e) => decoded(Form::UrlSafe, s@) is None && e@ == url_safe_refusal(s@),
        },
{
    base64::engine::general_purpose::URL_SAFE_NO_PAD.decode(s).map_err(|e| e.to_string())
}

/// `Engine::decode` of `STANDARD`: succeeds exactly on the texts that standard
/// encoding produces (padding included) and returns the bytes.
#[verifier::external_body]
pub(crate) fn decode_standard(s: &str) -> (r: Option<Vec<u8>>)
    ensures
        match r {
            Some(b) => encoded(Form::Standard, b@) == s@,
            None => decoded(Form::Standard, s@) is None,
        },
{
    base64::engine::general_purpose::STANDARD.decode(s).ok()
}

} // verus!
