//! The session of a signed-in user: the tokens of the OpenID provider, kept
//! in an encrypted cookie. The cookie holds
//! base64url(nonce || AES-256-GCM(session as JSON)).

use crate::b64::{decode_url_safe, encode_url_safe};
use crate::crypto::{aes_open, aes_seal, random_bytes};
use crate::json::JsonValue;
use crate::record::{
    read_integer_field, read_optional_text_field, read_record_in, read_text_field,
};
use crate::text::{index_of_char, join2, tail_of, to_chars};
use vstd::prelude::*;

verus! {

/// The name of the session cookie.
pub const COOKIE_NAME: &'static str = "office_portal_session";

#[derive(Debug, Clone, PartialEq, Eq)]
pub struct Session {
    pub sub: String,
    pub email: String,
    pub name: Option<String>,
    pub access_token: String,
    pub refresh_token: Option<String>,
    /// Unix-second timestamp the access token expires at.
    pub access_token_exp: i64,
}

/// A session, in specifications.
pub ghost struct SessionModel {
    pub sub: Seq<char>,
    pub email: Seq<char>,
    pub name: Option<Seq<char>>,
    pub access_token: Seq<char>,
    pub refresh_token: Option<Seq<char>>,
    pub access_token_exp: i64,
}

impl View for Session {
    type V = SessionModel;

    open spec fn view(&self) -> SessionModel {
        SessionModel {
            sub: self.sub@,
            email: self.email@,
            name: crate::text::opt_view(self.name),
            access_token: self.access_token@,
            refresh_token: crate::text::opt_view(self.refresh_token),
            access_token_exp: self.access_token_exp,
        }
    }
}

#[derive(Debug)]
pub enum SessionError {
    Encrypt,
    Decrypt,
    Decode,
    /// What was decrypted, which is no session.
    Json(Vec<u8>),
}

/// A session error, in specifications.
pub ghost enum SessionFault {
    Encrypt,
    Decrypt,
    Decode,
    Json(Seq<u8>),
}

impl View for SessionError {
    type V = SessionFault;

    open spec fn view(&self) -> SessionFault {
        match self {
            SessionError::Encrypt => SessionFault::Encrypt,
            SessionError::Decrypt => SessionFault::Decrypt,
            SessionError::Decode => SessionFault::Decode,
            SessionError::Json(plain) => SessionFault::Json(plain@),
        }
    }
}

impl SessionError {
    /// The error in words, where `json_words` are those that `serde_json` has
    /// for what is no session.
    pub fn message(&self, json_words: &str) -> (out: String)
        ensures
            out@ == match self@ {
                SessionFault::Encrypt => "encryption failed"@,
                SessionFault::Decrypt => "decryption failed"@,
                SessionFault::Decode => "cookie decode failed"@,
                SessionFault::Json(_) => "session serialization: "@ + json_words@,
            },
    {
        match self {
            SessionError::Encrypt => "encryption failed".to_owned(),
            SessionError::Decrypt => "decryption failed".to_owned(),
            SessionError::Decode => "cookie decode failed".to_owned(),
            SessionError::Json(_) => join2("session serialization: ", json_words),
        }
    }
}

/// The fields of a written session, in order.
pub open spec fn session_fields() -> Seq<Seq<char>> {
    seq![
        "sub"@,
        "email"@,
        "name"@,
        "access_token"@,
        "refresh_token"@,
        "access_token_exp"@,
    ]
}

/// A session as a JSON value.
pub open spec fn session_json(s: SessionModel) -> crate::json::Json {
    crate::json::Json::Object(
        seq![
            ("sub"@, crate::json::Json::Text(s.sub)),
            ("email"@, crate::json::Json::Text(s.email)),
            ("name"@, crate::json::optional(s.name)),
            ("access_token"@, crate::json::Json::Text(s.access_token)),
            ("refresh_token"@, crate::json::optional(s.refresh_token)),
            ("access_token_exp"@, crate::json::Json::Int(s.access_token_exp as int)),
        ],
    )
}

/// The bytes of a session before encryption.
pub open spec fn session_bytes(s: SessionModel) -> Seq<u8> {
    vstd::utf8::encode_utf8(crate::json::json_text(session_json(s)))
}

/// The value of the session cookie, for a nonce.
pub open spec fn sealed_session(s: SessionModel, key: Seq<u8>, nonce: Seq<u8>) -> Seq<char> {
    crate::b64::encoded(
        crate::b64::Form::UrlSafe,
        nonce + crate::crypto::aes_sealed(key, nonce, session_bytes(s)),
    )
}

/// Whether a cookie value is a session sealed under a key and a nonce.
pub open spec fn is_sealed_session(
    value: Seq<char>,
    s: SessionModel,
    key: Seq<u8>,
    nonce: Seq<u8>,
) -> bool {
    &&& nonce.len() == 12
    &&& session_bytes(s).len() <= crate::crypto::MESSAGE_MAX
    &&& crate::crypto::aes_sealed(key, nonce, session_bytes(s)).len() == session_bytes(s).len() + 16
    &&& value == sealed_session(s, key, nonce)
}

/// Whether a cookie value is what sealing a plaintext under a key and a nonce
/// gives. Nothing is said of plaintexts too long to be sealed.
pub open spec fn is_sealed_by_key(
    value: Seq<char>,
    key: Seq<u8>,
    nonce: Seq<u8>,
    plain: Seq<u8>,
) -> bool {
    nonce.len() == 12 && (plain.len() <= crate::crypto::MESSAGE_MAX ==> value
        == crate::b64::encoded(
        crate::b64::Form::UrlSafe,
        nonce + crate::crypto::aes_sealed(key, nonce, plain),
    ))
}

/// The session that the bytes of a JSON text hold.
pub open spec fn session_from_json(bytes: Seq<u8>) -> Option<SessionModel> {
    match crate::record::record_in(bytes, session_fields(), 6) {
        None => None,
        Some(f) => match (
            crate::record::text_field(f[0]),
            crate::record::text_field(f[1]),
            crate::record::optional_text_field(f[2]),
            crate::record::text_field(f[3]),
            crate::record::optional_text_field(f[4]),
            crate::record::integer_field(f[5]),
        ) {
            (
                Some(sub),
                Some(email),
                Some(name),
                Some(access_token),
                Some(refresh_token),
                Some(access_token_exp),
            ) => Some(
                SessionModel { sub, email, name, access_token, refresh_token, access_token_exp },
            ),
            _ => None,
        },
    }
}

/// The session that a cookie value holds.
pub open spec fn opened_session(value: Seq<char>, key: Seq<u8>) -> Result<
    SessionModel,
    SessionFault,
> {
    match crate::b64::decoded(crate::b64::Form::UrlSafe, value) {
        None => Err(SessionFault::Decode),
        Some(b) => if b.len() < 12 + 16 {
            Err(SessionFault::Decode)
        } else {
            match crate::crypto::aes_opened(key, b.take(12), b.skip(12)) {
                None => Err(SessionFault::Decrypt),
                Some(plain) => match session_from_json(plain) {
                    Some(s) => Ok(s),
                    None => Err(SessionFault::Json(plain)),
                },
            }
        },
    }
}

/// Reads a session from the bytes of a JSON text; a session that was written
/// is read back.
fn read_session(bytes: &[u8]) -> (r: Option<Session>)
    ensures
        match r {
            Some(s) => session_from_json(bytes@) == Some(s@),
            None => session_from_json(bytes@) is None,
        },
        forall|s: SessionModel| bytes@ == #[trigger] session_bytes(s) ==> r is Some && r->0@ == s,
{
    let names: Vec<&str> =
        vec!["sub", "email", "name", "access_token", "refresh_token", "access_token_exp"];
    proof {
        reveal_strlit("sub");
        reveal_strlit("email");
        reveal_strlit("name");
        reveal_strlit("access_token");
        reveal_strlit("refresh_token");
        reveal_strlit("access_token_exp");
        let n = session_fields();
        assert(n[0].len() == 3 && n[1].len() == 5 && n[2].len() == 4);
        assert(n[3].len() == 12 && n[4].len() == 13 && n[5].len() == 16);
        assert(crate::record::name_texts(names@) =~= n);
        assert forall|s: SessionModel| bytes@ == #[trigger] session_bytes(s) implies ({
            let m = session_json(s)->Object_0;
            &&& bytes@ == vstd::utf8::encode_utf8(
                crate::json::json_text(crate::json::Json::Object(m)),
            )
            &&& crate::record::has_fields(m, session_fields())
        }) by {}
    }
    let f = match read_record_in(bytes, &names, 6) {
        Some(f) => f,
        None => return None,
    };
    let ghost g = crate::record::field_texts(f@);
    proof {
        assert forall|i: int| 0 <= i < 6 implies g[i] == crate::text::opt_view(f@[i]) by {}
    }
    match (
        read_text_field(&f[0]),
        read_text_field(&f[1]),
        read_optional_text_field(&f[2]),
        read_text_field(&f[3]),
        read_optional_text_field(&f[4]),
        read_integer_field(&f[5]),
    ) {
        (
            Some(sub),
            Some(email),
            Some(name),
            Some(access_token),
            Some(refresh_token),
            Some(access_token_exp),
        ) => Some(Session { sub, email, name, access_token, refresh_token, access_token_exp }),
        _ => None,
    }
}

impl Session {
    /// The domain of the email address: what follows its first `@`.
    pub fn email_domain(&self) -> (out: Option<&str>)
        ensures
            match out {
                Some(d) => crate::text::split_once(self.email@, '@') == Some(
                    (self.email@.take(crate::text::first_index(self.email@, '@')), d@),
                ),
                None => crate::text::split_once(self.email@, '@') is None,
            },
    {
        let cs = to_chars(self.email.as_str());
        let k = index_of_char(&cs, '@');
        proof {
            crate::text::lemma_first_index(self.email@, '@');
        }
        if k < cs.len() {
            Some(tail_of(self.email.as_str(), k + 1))
        } else {
            None
        }
    }

    /// Whether the access token has expired at `now`, in Unix seconds.
    pub fn is_access_token_expired(&self, now: i64) -> (expired: bool)
        ensures
            expired == (now >= self.access_token_exp),
    {
        now >= self.access_token_exp
    }

    /// The session as JSON.
    pub fn to_json(&self) -> (v: JsonValue)
        ensures
            v@ == session_json(self@),
    {
        let members: Vec<(String, JsonValue)> = vec![
            ("sub".to_owned(), JsonValue::text(self.sub.as_str())),
            ("email".to_owned(), JsonValue::text(self.email.as_str())),
            ("name".to_owned(), JsonValue::optional_text(&self.name)),
            ("access_token".to_owned(), JsonValue::text(self.access_token.as_str())),
            ("refresh_token".to_owned(), JsonValue::optional_text(&self.refresh_token)),
            ("access_token_exp".to_owned(), JsonValue::signed(self.access_token_exp)),
        ];
        proof {
            assert(crate::json::member_values(members@) =~= session_json(self@)->Object_0);
        }
        JsonValue::object(members)
    }

    /// Encrypts the session under a given nonce.
    pub fn encrypt_with_nonce(&self, key: &[u8; 32], nonce: &[u8]) -> (r: Result<
        String,
        SessionError,
    >)
        requires
            nonce@.len() == 12,
        ensures
            match r {
                Ok(value) => is_sealed_session(value@, self@, key@, nonce@),
                Err(e) => e is Encrypt && session_bytes(self@).len() > crate::crypto::MESSAGE_MAX,
            },
    {
        let json = self.to_json();
        let sealed = match aes_seal(key, nonce, json.as_str().as_bytes()) {
            Some(sealed) => sealed,
            None => return Err(SessionError::Encrypt),
        };
        let mut wire: Vec<u8> = Vec::new();
        wire.extend_from_slice(nonce);
        wire.extend_from_slice(sealed.as_slice());
        proof {
            assert(wire@ =~= nonce@ + sealed@);
        }
        Ok(encode_url_safe(wire.as_slice()))
    }

    /// Encrypts the session into the form stored in the cookie value, under a
    /// nonce drawn by chance.
    pub fn encrypt(&self, key: &[u8; 32]) -> (r: Result<String, SessionError>)
        ensures
            match r {
                Ok(value) => exists|nonce: Seq<u8>| #[trigger]
                    is_sealed_session(value@, self@, key@, nonce),
                Err(e) => e is Encrypt && session_bytes(self@).len() > crate::crypto::MESSAGE_MAX,
            },
    {
        let nonce = random_bytes(12);
        self.encrypt_with_nonce(key, nonce.as_slice())
    }

    /// Recovers a session from a cookie value. Whatever `encrypt` made under
    /// the same key comes back as it was, and nothing is accepted that was not
    /// sealed under that key.
    pub fn decrypt(value: &str, key: &[u8; 32]) -> (r: Result<Session, SessionError>)
        ensures
            match r {
                Ok(s) => opened_session(value@, key@) == Ok::<_, SessionFault>(s@),
                Err(e) => opened_session(value@, key@) == Err::<SessionModel, _>(e@),
            },
            forall|s: SessionModel, nonce: Seq<u8>| #[trigger]
                is_sealed_session(value@, s, key@, nonce) ==> r is Ok && r->Ok_0@ == s,
            r is Ok ==> exists|nonce: Seq<u8>, plain: Seq<u8>|
                #[trigger] is_sealed_by_key(value@, key@, nonce, plain) && session_from_json(plain)
                    == Some(r->Ok_0@),
    {
        let ghost url_safe = crate::b64::Form::UrlSafe;
        let wire = match decode_url_safe(value) {
            Ok(wire) => wire,
            Err(_) => {
                proof {
                    assert forall|s: SessionModel, nonce: Seq<u8>| !(#[trigger] is_sealed_session(
                        value@,
                        s,
                        key@,
                        nonce,
                    )) by {
                        crate::b64::decoded_inverts_encoded(
                            url_safe,
                            nonce + crate::crypto::aes_sealed(key@, nonce, session_bytes(s)),
                        );
                    }
                }
                return Err(SessionError::Decode);
            },
        };
        proof {
            crate::b64::decoded_inverts_encoded(url_safe, wire@);
            assert forall|s: SessionModel, nonce: Seq<u8>| #[trigger]
                is_sealed_session(value@, s, key@, nonce) implies {
                &&& wire@.len() >= 12 + 16
                &&& wire@.take(12) == nonce
                &&& wire@.skip(12) == crate::crypto::aes_sealed(key@, nonce, session_bytes(s))
            } by {
                let sealed = crate::crypto::aes_sealed(key@, nonce, session_bytes(s));
                crate::b64::encoded_is_injective(url_safe, wire@, nonce + sealed);
                assert(wire@.take(12) =~= nonce);
                assert(wire@.skip(12) =~= sealed);
            }
        }
        if wire.len() < 12 + 16 {
            return Err(SessionError::Decode);
        }
        let (nonce, sealed) = wire.as_slice().split_at(12);
        proof {
            assert(nonce@ =~= wire@.take(12));
            assert(sealed@ =~= wire@.skip(12));
        }
        let plain = match aes_open(key, nonce, sealed) {
            Some(plain) => plain,
            None => return Err(SessionError::Decrypt),
        };
        proof {
            assert(wire@ =~= nonce@ + sealed@);
            assert(is_sealed_by_key(value@, key@, nonce@, plain@));
        }
        match read_session(plain.as_slice()) {
            Some(s) => Ok(s),
            None => Err(SessionError::Json(plain)),
        }
    }
}

/// The bytes of the key under which the server seals its cookies: the session
/// key twice, since 64 bytes are needed.
pub fn cookie_key_bytes(session_key: &[u8; 32]) -> (out: Vec<u8>)
    ensures
        out@ == session_key@ + session_key@,
        out@.len() == 64,
{
    let mut out: Vec<u8> = Vec::new();
    out.extend_from_slice(session_key.as_slice());
    out.extend_from_slice(session_key.as_slice());
    proof {
        assert(out@ =~= session_key@ + session_key@);
    }
    out
}

} // verus!
