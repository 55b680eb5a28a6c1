//! Signed tokens (JSON Web Tokens with HMAC-SHA-256).

use crate::b64::decode_url_safe;
use crate::json::JsonValue;
use crate::text::pieces_of;
use vstd::prelude::*;

verus! {

/// The HMAC-SHA-256 of a message.
pub uninterp spec fn hs256_mac(key: Seq<u8>, message: Seq<u8>) -> Seq<u8>;

/// Some bytes as one part of a token.
pub open spec fn part(bytes: Seq<u8>) -> Seq<char> {
    crate::b64::encoded(crate::b64::Form::UrlSafe, bytes)
}

/// What the signature of a token is made over.
pub open spec fn signed_part(header: Seq<u8>, payload: Seq<u8>) -> Seq<char> {
    part(header) + seq!['.'] + part(payload)
}

/// A token: header, payload and signature, with dots between them.
pub open spec fn token_of(header: Seq<u8>, payload: Seq<u8>, key: Seq<u8>) -> Seq<char> {
    let message = signed_part(header, payload);
    message + seq!['.'] + part(hs256_mac(key, vstd::utf8::encode_utf8(message)))
}

/// The header of every token that is signed here.
pub open spec fn header_text() -> Seq<char> {
    "{\"typ\":\"JWT\",\"alg\":\"HS256\"}"@
}

/// The header and the payload of the token that carries some claims.
pub open spec fn claims_part(claims: Seq<char>) -> Seq<char> {
    signed_part(vstd::utf8::encode_utf8(header_text()), vstd::utf8::encode_utf8(claims))
}

/// The token that carries some claims.
pub open spec fn signed_token(claims: Seq<char>, key: Seq<u8>) -> Seq<char> {
    token_of(vstd::utf8::encode_utf8(header_text()), vstd::utf8::encode_utf8(claims), key)
}

/// `jsonwebtoken::encode` with an HS256 header and the claims as they are
/// written (`RawValue`). Claims that are JSON can always be signed.
#[verifier::external_body]
pub(crate) fn sign(claims: &JsonValue, key: &[u8]) -> (r: Result<String, String>)
    ensures
        r is Ok,
        r->Ok_0@ == claims_part(crate::json::json_text(claims@)) + seq!['.'] + part(
            hs256_mac(
                key@,
                vstd::utf8::encode_utf8(claims_part(crate::json::json_text(claims@))),
            ),
        ),
{
    let raw = serde_json::value::RawValue::from_string(claims.as_str().to_owned()).map_err(
        |e| e.to_string(),
    )?;
    let header = jsonwebtoken::Header::new(jsonwebtoken::Algorithm::HS256);
    jsonwebtoken::encode(&header, &raw, &jsonwebtoken::EncodingKey::from_secret(key)).map_err(
        |e| e.to_string(),
    )
}

/// Whether `jsonwebtoken` accepts a token, or its error in words and whether
/// that is one of JSON: its signature and, if `validated`, its registered
/// claims with a leeway in seconds when the clock stands at `now`, in Unix
/// seconds.
pub uninterp spec fn token_checked(
    token: Seq<char>,
    key: Seq<u8>,
    validated: bool,
    leeway: u64,
    now: u64,
) -> Result<(), (bool, Seq<char>)>;

/// Whether `jsonwebtoken` can read the header of a token.
pub uninterp spec fn header_read(token: Seq<char>) -> bool;

/// The outcome of a check, in specifications.
pub open spec fn check_outcome(r: Result<(), (bool, String)>) -> Result<(), (bool, Seq<char>)> {
    match r {
        Ok(_) => Ok(()),
        Err((is_json, words)) => Err((is_json, words@)),
    }
}

/// Whether claims hold no more that a decoder looks at than a subject and an
/// expiry.
pub open spec fn are_simple_claims(m: Seq<(Seq<char>, crate::json::Json)>) -> bool {
    &&& forall|i: int|
        0 <= i < m.len() ==> {
            let (name, value) = #[trigger] m[i];
            &&& name != "iss"@ && name != "aud"@ && name != "nbf"@
            &&& name == "sub"@ ==> value is Text
            &&& name == "exp"@ ==> value is Int && i64::MIN <= value->Int_0 <= i64::MAX
        }
    &&& forall|i: int, j: int| 0 <= i < j < m.len() ==> m[i].0 != m[j].0
}

/// Whether claims say that they expired before `now`. An expiry before the
/// epoch is not looked at.
pub open spec fn are_expired(m: Seq<(Seq<char>, crate::json::Json)>, now: u64) -> bool {
    exists|i: int| 0 <= i < m.len() && (#[trigger] m[i]).0 == "exp"@ && 0 <= m[i].1->Int_0 < now
}

/// `jsonwebtoken::decode` of an HS256 token whose claims are passed over
/// (`IgnoredAny`), with no claim required; its expiry and its audience are
/// looked at if `validated`. The result is a function of the arguments and the
/// time the clock gives, which is read only if `validated`. Only a token whose
/// signature the key makes is accepted, or refused for its JSON where the
/// header can be read. A token that was signed with simple claims is refused
/// if and only if they are looked at and are expired. The leeway is taken from
/// the time the clock gives, hence none may be given.
#[verifier::external_body]
pub(crate) fn check(token: &str, key: &[u8], validated: bool, leeway: u64) -> (r: Result<
    (),
    (bool, String),
>)
    requires
        leeway == 0,
    ensures
        exists|now: u64|
            {
                &&& check_outcome(r) == #[trigger] token_checked(
                    token@,
                    key@,
                    validated,
                    leeway,
                    now,
                )
                &&& forall|m: Seq<(Seq<char>, crate::json::Json)>|
                    token@ == signed_token(
                        #[trigger] crate::json::json_text(crate::json::Json::Object(m)),
                        key@,
                    ) && are_simple_claims(m) ==> (r is Ok <==> !(validated && are_expired(m, now)))
            },
        !validated ==> forall|now: u64|
            check_outcome(r) == #[trigger] token_checked(token@, key@, validated, leeway, now),
        r is Ok || (r->Err_0.0 && header_read(token@)) ==> exists|
            header: Seq<u8>,
            payload: Seq<u8>,
        |
            token@ == #[trigger] token_of(header, payload, key@),
{
    let mut v = jsonwebtoken::Validation::new(jsonwebtoken::Algorithm::HS256);
    v.validate_exp = validated;
    v.validate_aud = validated;
    v.leeway = leeway;
    v.required_spec_claims.clear();
    let key = jsonwebtoken::DecodingKey::from_secret(key);
    match jsonwebtoken::decode::<serde::de::IgnoredAny>(token, &key, &v) {
        Ok(_) => Ok(()),
        Err(e) => match e.kind() {
            jsonwebtoken::errors::ErrorKind::Json(_) => Err((true, e.to_string())),
            _ => Err((false, e.to_string())),
        },
    }
}

/// `jsonwebtoken::decode_header`: whether it succeeds, a function of the token.
#[verifier::external_body]
pub(crate) fn header_is_read(token: &str) -> (yes: bool)
    ensures
        yes == header_read(token@),
{
    jsonwebtoken::decode_header(token).is_ok()
}

/// The payload of a token: the second of its three parts.
pub open spec fn token_payload(token: Seq<char>) -> Option<Seq<u8>> {
    let parts = crate::text::pieces(token, '.');
    if parts.len() == 3 {
        crate::b64::decoded(crate::b64::Form::UrlSafe, parts[1])
    } else {
        None
    }
}

/// What a token is found to carry, before any claim of it is looked at.
#[derive(Debug)]
pub enum Signed {
    /// The token is refused, in words.
    Refused(String),
    /// The payload of a token whose signature the key makes, and why it cannot
    /// be read as registered claims.
    Unreadable { payload: Vec<u8>, words: String },
    /// The payload of a token whose signature the key makes.
    Payload(Vec<u8>),
}

/// What a token is found to carry, in specifications.
pub ghost enum SignedModel {
    Refused(Seq<char>),
    Unreadable { payload: Seq<u8>, words: Seq<char> },
    Payload(Seq<u8>),
}

impl View for Signed {
    type V = SignedModel;

    open spec fn view(&self) -> SignedModel {
        match self {
            Signed::Refused(words) => SignedModel::Refused(words@),
            Signed::Unreadable { payload, words } => SignedModel::Unreadable {
                payload: payload@,
                words: words@,
            },
            Signed::Payload(payload) => SignedModel::Payload(payload@),
        }
    }
}

/// What a token carries that the key has to have signed. The date is not
/// looked at, so the time does not count.
pub open spec fn signed_payload(token: Seq<char>, key: Seq<u8>) -> SignedModel {
    match token_checked(token, key, false, 0, 0) {
        Ok(_) => SignedModel::Payload(token_payload(token)->0),
        Err((is_json, words)) => if is_json && header_read(token) {
            SignedModel::Unreadable { payload: token_payload(token)->0, words }
        } else {
            SignedModel::Refused(words)
        },
    }
}

/// The payload that a token was found to carry, if it was.
pub open spec fn carried(s: SignedModel) -> Option<Seq<u8>> {
    match s {
        SignedModel::Refused(_) => None,
        SignedModel::Unreadable { payload, .. } => Some(payload),
        SignedModel::Payload(payload) => Some(payload),
    }
}

/// The payload comes out of a token as it went in.
pub proof fn payload_comes_back(header: Seq<u8>, payload: Seq<u8>, key: Seq<u8>)
    ensures
        token_payload(token_of(header, payload, key)) == Some(payload),
{
    let mac = hs256_mac(key, vstd::utf8::encode_utf8(signed_part(header, payload)));
    lemma_part_has_no_dot(header);
    lemma_part_has_no_dot(payload);
    lemma_part_has_no_dot(mac);
    crate::text::lemma_one_piece(part(header), '.');
    crate::text::lemma_last_piece(part(header), part(payload), '.');
    crate::text::lemma_last_piece(signed_part(header, payload), part(mac), '.');
    assert(crate::text::pieces(token_of(header, payload, key), '.') =~= seq![
        part(header),
        part(payload),
        part(mac),
    ]);
    crate::b64::decoded_inverts_encoded(crate::b64::Form::UrlSafe, payload);
}

/// The payload of a token that the key signed.
fn payload_of(token: &str, key: Ghost<Seq<u8>>) -> (payload: Vec<u8>)
    requires
        exists|header: Seq<u8>, payload: Seq<u8>|
            token@ == #[trigger] token_of(header, payload, key@),
    ensures
        token_payload(token@) == Some(payload@),
        exists|header: Seq<u8>| token@ == #[trigger] token_of(header, payload@, key@),
{
    let ghost (header, expected) = choose|header: Seq<u8>, payload: Seq<u8>|
        token@ == #[trigger] token_of(header, payload, key@);
    proof {
        payload_comes_back(header, expected, key@);
    }
    let parts = pieces_of(token, '.');
    proof {
        assert(crate::text::texts(parts@)[1] == parts@[1]@);
    }
    match decode_url_safe(parts[1].as_str()) {
        Ok(payload) => {
            proof {
                crate::b64::decoded_inverts_encoded(crate::b64::Form::UrlSafe, payload@);
            }
            payload
        },
        Err(_) => Vec::new(),
    }
}

/// What a token carries that the key has to have signed. Simple claims are
/// carried as they were signed.
pub(crate) fn signed_payload_of(token: &str, key: &[u8]) -> (r: Signed)
    ensures
        r@ == signed_payload(token@, key@),
        carried(r@) is Some ==> exists|header: Seq<u8>|
            token@ == #[trigger] token_of(header, carried(r@)->0, key@),
        forall|m: Seq<(Seq<char>, crate::json::Json)>|
            token@ == signed_token(
                #[trigger] crate::json::json_text(crate::json::Json::Object(m)),
                key@,
            ) && are_simple_claims(m) ==> r@ == SignedModel::Payload(
                vstd::utf8::encode_utf8(crate::json::json_text(crate::json::Json::Object(m))),
            ),
{
    let checked = check(token, key, false, 0);
    proof {
        assert(check_outcome(checked) == token_checked(token@, key@, false, 0, 0));
        assert forall|m: Seq<(Seq<char>, crate::json::Json)>|
            token@ == signed_token(
                #[trigger] crate::json::json_text(crate::json::Json::Object(m)),
                key@,
            ) implies token_payload(token@) == Some(
            vstd::utf8::encode_utf8(crate::json::json_text(crate::json::Json::Object(m))),
        ) by {
            payload_comes_back(
                vstd::utf8::encode_utf8(header_text()),
                vstd::utf8::encode_utf8(crate::json::json_text(crate::json::Json::Object(m))),
                key@,
            );
        }
    }
    match checked {
        Ok(_) => Signed::Payload(payload_of(token, Ghost(key@))),
        Err((is_json, words)) => if is_json && header_is_read(token) {
            Signed::Unreadable { payload: payload_of(token, Ghost(key@)), words }
        } else {
            Signed::Refused(words)
        },
    }
}

pub(crate) proof fn lemma_part_has_no_dot(bytes: Seq<u8>)
    ensures
        !part(bytes).contains('.'),
{
    crate::b64::url_safe_alphabet(bytes);
    if part(bytes).contains('.') {
        let i = choose|i: int| 0 <= i < part(bytes).len() && part(bytes)[i] == '.';
        assert(crate::b64::is_url_safe(part(bytes)[i]));
    }
}

} // verus!
