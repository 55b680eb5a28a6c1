//! Short-lived tokens with which OnlyOffice Document Server fetches or saves
//! one file through the portal. The portal mints them for the editor page and
//! verifies them on `/api/file/:jwt` and `/api/callback/:jwt`.
//!
//! A token says which user, which path on WebDAV, and whether its bearer may
//! read or write. It also carries the user's session, encrypted under the
//! session key, so that the portal can act as the user without keeping state.

use crate::crypto::{random_bytes, unix_now};
use crate::json::{read_object, read_string, JsonValue};
use crate::jwt;
use crate::record::{opens_with_of, read_integer_field, read_record_in, read_text_field};
use crate::session::{Session, SessionError};
use crate::text::{join2, same_text};
use vstd::prelude::*;

verus! {

/// What the bearer of a token may do with the file.
#[derive(Debug, Clone, Copy, PartialEq, Eq, Structural)]
pub enum Action {
    Read,
    Write,
}

#[derive(Debug, Clone)]
pub struct FileClaims {
    pub sub: String,
    pub email: String,
    pub path: String,
    pub action: Action,
    /// Encrypted session, in the form of the session cookie.
    pub session_enc: String,
    pub exp: i64,
    pub iat: i64,
}

/// The claims of a file token, in specifications.
pub ghost struct FileClaimsModel {
    pub sub: Seq<char>,
    pub email: Seq<char>,
    pub path: Seq<char>,
    pub action: Action,
    pub session_enc: Seq<char>,
    pub exp: i64,
    pub iat: i64,
}

impl View for FileClaims {
    type V = FileClaimsModel;

    open spec fn view(&self) -> FileClaimsModel {
        FileClaimsModel {
            sub: self.sub@,
            email: self.email@,
            path: self.path@,
            action: self.action,
            session_enc: self.session_enc@,
            exp: self.exp,
            iat: self.iat,
        }
    }
}

/// Why a token is not taken for one.
#[derive(Debug)]
pub enum JwtError {
    /// The token is refused, in words.
    Refused(String),
    /// The payload of the token, which holds no claims of a file token.
    Claims(Vec<u8>),
}

/// Why a token is not taken for one, in specifications.
pub ghost enum JwtFault {
    Refused(Seq<char>),
    Claims(Seq<u8>),
}

impl View for JwtError {
    type V = JwtFault;

    open spec fn view(&self) -> JwtFault {
        match self {
            JwtError::Refused(words) => JwtFault::Refused(words@),
            JwtError::Claims(payload) => JwtFault::Claims(payload@),
        }
    }
}

#[derive(Debug)]
pub enum FileJwtError {
    Jwt(JwtError),
    Session(SessionError),
    SessionDecrypt,
    WrongAction,
}

/// A file token error, in specifications.
pub ghost enum FileJwtFault {
    Jwt(JwtFault),
    Session(crate::session::SessionFault),
    SessionDecrypt,
    WrongAction,
}

impl View for FileJwtError {
    type V = FileJwtFault;

    open spec fn view(&self) -> FileJwtFault {
        match self {
            FileJwtError::Jwt(e) => FileJwtFault::Jwt(e@),
            FileJwtError::Session(e) => FileJwtFault::Session(e@),
            FileJwtError::SessionDecrypt => FileJwtFault::SessionDecrypt,
            FileJwtError::WrongAction => FileJwtFault::WrongAction,
        }
    }
}

impl FileJwtError {
    /// The error in words, where `json_words` are those that `serde_json` has
    /// for a payload that holds no claims.
    pub fn message(&self, json_words: &str) -> (out: String)
        ensures
            out@ == match self@ {
                FileJwtFault::Jwt(JwtFault::Refused(e)) => "jwt error: "@ + e,
                FileJwtFault::Jwt(JwtFault::Claims(_)) => "jwt error: JSON error: "@ + json_words@,
                FileJwtFault::Session(_) => "session encryption failed"@,
                FileJwtFault::SessionDecrypt => "session decrypt failed"@,
                FileJwtFault::WrongAction => "token action doesn't match endpoint"@,
            },
    {
        match self {
            FileJwtError::Jwt(JwtError::Refused(e)) => join2("jwt error: ", e.as_str()),
            FileJwtError::Jwt(JwtError::Claims(_)) => join2("jwt error: JSON error: ", json_words),
            FileJwtError::Session(_) => "session encryption failed".to_owned(),
            FileJwtError::SessionDecrypt => "session decrypt failed".to_owned(),
            FileJwtError::WrongAction => "token action doesn't match endpoint".to_owned(),
        }
    }
}

/// An action as it is written in a token.
pub open spec fn action_text(a: Action) -> Seq<char> {
    match a {
        Action::Read => "read"@,
        Action::Write => "write"@,
    }
}

/// The fields of written claims, in order.
pub open spec fn claims_fields() -> Seq<Seq<char>> {
    seq!["sub"@, "email"@, "path"@, "action"@, "session_enc"@, "exp"@, "iat"@]
}

/// The claims of a token as a JSON value.
pub open spec fn claims_json(c: FileClaimsModel) -> crate::json::Json {
    crate::json::Json::Object(
        seq![
            ("sub"@, crate::json::Json::Text(c.sub)),
            ("email"@, crate::json::Json::Text(c.email)),
            ("path"@, crate::json::Json::Text(c.path)),
            ("action"@, crate::json::Json::Text(action_text(c.action))),
            ("session_enc"@, crate::json::Json::Text(c.session_enc)),
            ("exp"@, crate::json::Json::Int(c.exp as int)),
            ("iat"@, crate::json::Json::Int(c.iat as int)),
        ],
    )
}

/// The action of a name.
pub open spec fn action_named(name: Seq<char>) -> Option<Action> {
    if name == "read"@ {
        Some(Action::Read)
    } else if name == "write"@ {
        Some(Action::Write)
    } else {
        None
    }
}

/// A field that holds an action: its name as a text, or as the key of an
/// object whose one value is `null`.
pub open spec fn action_field(f: Option<Seq<char>>) -> Option<Action> {
    match f {
        None => None,
        Some(t) => if crate::record::opens_with(t, '{') {
            match crate::json::object_members(t) {
                Ok(m) if m.len() == 1 && m[0].1 == "null"@ => action_named(m[0].0),
                _ => None,
            }
        } else {
            match crate::json::string_value(t) {
                Ok(name) => action_named(name),
                Err(_) => None,
            }
        },
    }
}

/// The bytes of written claims.
pub open spec fn claims_bytes(c: FileClaimsModel) -> Seq<u8> {
    vstd::utf8::encode_utf8(crate::json::json_text(claims_json(c)))
}

/// The claims that the bytes of a JSON text hold.
pub open spec fn claims_from_json(bytes: Seq<u8>) -> Option<FileClaimsModel> {
    match crate::record::record_in(bytes, claims_fields(), 7) {
        None => None,
        Some(f) => match (
            crate::record::text_field(f[0]),
            crate::record::text_field(f[1]),
            crate::record::text_field(f[2]),
            action_field(f[3]),
            crate::record::text_field(f[4]),
            crate::record::integer_field(f[5]),
            crate::record::integer_field(f[6]),
        ) {
            (
                Some(sub),
                Some(email),
                Some(path),
                Some(action),
                Some(session_enc),
                Some(exp),
                Some(iat),
            ) => Some(FileClaimsModel { sub, email, path, action, session_enc, exp, iat }),
            _ => None,
        },
    }
}

fn action_of_name(name: &str) -> (r: Option<Action>)
    ensures
        r == action_named(name@),
{
    if same_text(name, "read") {
        Some(Action::Read)
    } else if same_text(name, "write") {
        Some(Action::Write)
    } else {
        None
    }
}

/// Reads a field that holds an action; an action that was written is read
/// back.
fn read_action_field(f: &Option<String>) -> (r: Option<Action>)
    ensures
        r == action_field(crate::text::opt_view(*f)),
        forall|a: Action|
            crate::text::opt_view(*f) == Some(crate::json::quoted(#[trigger] action_text(a)))
                ==> r == Some(a),
{
    let t = match f {
        None => return None,
        Some(t) => t,
    };
    proof {
        reveal_strlit("read");
        reveal_strlit("write");
        assert("read"@.len() == 4 && "write"@.len() == 5);
        assert(action_named(action_text(Action::Read)) == Some(Action::Read));
        assert(action_named(action_text(Action::Write)) == Some(Action::Write));
        assert forall|s: Seq<char>| !crate::record::opens_with(
            #[trigger] crate::json::quoted(s),
            '{',
        ) by {
            assert(crate::json::quoted(s)[0] == '"');
        }
    }
    if opens_with_of(t.as_str(), '{') {
        let m = match read_object(t.as_str()) {
            Ok(m) => m,
            Err(_) => return None,
        };
        let ghost all = crate::json::pair_texts(m@);
        if m.len() == 1 {
            proof {
                assert(all[0] == (m@[0].0@, m@[0].1@));
            }
            if same_text(m[0].1.as_str(), "null") {
                return action_of_name(m[0].0.as_str());
            }
        }
        None
    } else {
        match read_string(t.as_str()) {
            Ok(name) => action_of_name(name.as_str()),
            Err(_) => None,
        }
    }
}

/// Reads claims from the bytes of a JSON text; claims that were written are
/// read back.
fn read_claims(bytes: &[u8]) -> (r: Option<FileClaims>)
    ensures
        match r {
            Some(c) => claims_from_json(bytes@) == Some(c@),
            None => claims_from_json(bytes@) is None,
        },
        forall|c: FileClaimsModel| bytes@ == #[trigger] claims_bytes(c) ==> r is Some && r->0@ == c,
{
    let names: Vec<&str> =
        vec!["sub", "email", "path", "action", "session_enc", "exp", "iat"];
    proof {
        reveal_strlit("sub");
        reveal_strlit("email");
        reveal_strlit("path");
        reveal_strlit("action");
        reveal_strlit("session_enc");
        reveal_strlit("exp");
        reveal_strlit("iat");
        let n = claims_fields();
        assert(n[0].len() == 3 && n[1].len() == 5 && n[2].len() == 4 && n[3].len() == 6);
        assert(n[4].len() == 11 && n[5].len() == 3 && n[6].len() == 3);
        assert(n[0][0] == 's' && n[5][0] == 'e' && n[6][0] == 'i');
        assert(crate::record::name_texts(names@) =~= n);
        assert forall|c: FileClaimsModel| bytes@ == #[trigger] claims_bytes(c) implies ({
            let m = claims_json(c)->Object_0;
            &&& bytes@ == vstd::utf8::encode_utf8(
                crate::json::json_text(crate::json::Json::Object(m)),
            )
            &&& crate::record::has_fields(m, claims_fields())
        }) by {}
    }
    let f = match read_record_in(bytes, &names, 7) {
        Some(f) => f,
        None => return None,
    };
    let ghost g = crate::record::field_texts(f@);
    proof {
        assert forall|i: int| 0 <= i < 7 implies g[i] == crate::text::opt_view(f@[i]) by {}
    }
    match (
        read_text_field(&f[0]),
        read_text_field(&f[1]),
        read_text_field(&f[2]),
        read_action_field(&f[3]),
        read_text_field(&f[4]),
        read_integer_field(&f[5]),
        read_integer_field(&f[6]),
    ) {
        (
            Some(sub),
            Some(email),
            Some(path),
            Some(action),
            Some(session_enc),
            Some(exp),
            Some(iat),
        ) => Some(FileClaims { sub, email, path, action, session_enc, exp, iat }),
        _ => None,
    }
}

/// The claims of a token minted at `now` for a session and a path.
pub open spec fn minted_claims(
    session: crate::session::SessionModel,
    path: Seq<char>,
    action: Action,
    ttl_secs: i64,
    now: i64,
    session_enc: Seq<char>,
) -> FileClaimsModel {
    FileClaimsModel {
        sub: session.sub,
        email: session.email,
        path,
        action,
        session_enc,
        exp: (now + ttl_secs) as i64,
        iat: now,
    }
}

/// The token that carries some claims.
pub open spec fn claims_token(c: FileClaimsModel, jwt_key: Seq<u8>) -> Seq<char> {
    jwt::signed_token(crate::json::json_text(claims_json(c)), jwt_key)
}

/// Whether a token was minted at `now` for a session, a path and an action,
/// with the session encrypted under a nonce.
pub open spec fn is_minted(
    token: Seq<char>,
    session: crate::session::SessionModel,
    path: Seq<char>,
    action: Action,
    ttl_secs: i64,
    now: i64,
    nonce: Seq<u8>,
    jwt_key: Seq<u8>,
    session_key: Seq<u8>,
) -> bool {
    let enc = crate::session::sealed_session(session, session_key, nonce);
    &&& i64::MIN <= now + ttl_secs <= i64::MAX
    &&& crate::session::is_sealed_session(enc, session, session_key, nonce)
    &&& token == claims_token(minted_claims(session, path, action, ttl_secs, now, enc), jwt_key)
}

impl FileClaims {
    /// The claims as JSON.
    pub fn to_json(&self) -> (v: JsonValue)
        ensures
            v@ == claims_json(self@),
    {
        let action = match self.action {
            Action::Read => "read",
            Action::Write => "write",
        };
        let members: Vec<(String, JsonValue)> = vec![
            ("sub".to_owned(), JsonValue::text(self.sub.as_str())),
            ("email".to_owned(), JsonValue::text(self.email.as_str())),
            ("path".to_owned(), JsonValue::text(self.path.as_str())),
            ("action".to_owned(), JsonValue::text(action)),
            ("session_enc".to_owned(), JsonValue::text(self.session_enc.as_str())),
            ("exp".to_owned(), JsonValue::signed(self.exp)),
            ("iat".to_owned(), JsonValue::signed(self.iat)),
        ];
        proof {
            assert(crate::json::member_values(members@) =~= claims_json(self@)->Object_0);
        }
        JsonValue::object(members)
    }
}

/// Mints a token at a given time, with the session encrypted under a given
/// nonce.
pub fn mint_at(
    session: &Session,
    path: &str,
    action: Action,
    ttl_secs: i64,
    now: i64,
    nonce: &[u8],
    jwt_key: &[u8; 32],
    session_key: &[u8; 32],
) -> (r: Result<String, FileJwtError>)
    requires
        nonce@.len() == 12,
        i64::MIN <= now + ttl_secs <= i64::MAX,
    ensures
        match r {
            Ok(token) => is_minted(
                token@,
                session@,
                path@,
                action,
                ttl_secs,
                now,
                nonce@,
                jwt_key@,
                session_key@,
            ),
            Err(e) => e@ == FileJwtFault::Session(crate::session::SessionFault::Encrypt)
                && crate::session::session_bytes(session@).len() > crate::crypto::MESSAGE_MAX,
        },
{
    let session_enc = match session.encrypt_with_nonce(session_key, nonce) {
        Ok(v) => v,
        Err(e) => return Err(FileJwtError::Session(e)),
    };
    let claims = FileClaims {
        sub: session.sub.clone(),
        email: session.email.clone(),
        path: path.to_owned(),
        action,
        session_enc,
        exp: now + ttl_secs,
        iat: now,
    };
    match jwt::sign(&claims.to_json(), jwt_key.as_slice()) {
        Ok(token) => Ok(token),
        Err(e) => Err(FileJwtError::Jwt(JwtError::Refused(e))),
    }
}

/// Mints a token that expires `ttl_secs` seconds from now.
pub fn mint(
    session: &Session,
    path: &str,
    action: Action,
    ttl_secs: i64,
    jwt_key: &[u8; 32],
    session_key: &[u8; 32],
) -> (r: Result<String, FileJwtError>)
    requires
        i64::MIN + 0x1_0000_0000_0000 <= ttl_secs <= i64::MAX - 0x1_0000_0000_0000,
    ensures
        match r {
            Ok(token) => exists|now: i64, nonce: Seq<u8>| #[trigger]
                is_minted(
                    token@,
                    session@,
                    path@,
                    action,
                    ttl_secs,
                    now,
                    nonce,
                    jwt_key@,
                    session_key@,
                ),
            Err(e) => e@ == FileJwtFault::Session(crate::session::SessionFault::Encrypt)
                && crate::session::session_bytes(session@).len() > crate::crypto::MESSAGE_MAX,
        },
{
    let now: i64 = unix_now();
    let nonce = random_bytes(12);
    mint_at(session, path, action, ttl_secs, now, nonce.as_slice(), jwt_key, session_key)
}

/// What a token grants. `signed` is what it carries, and `dated` says whether
/// its date was accepted, or why not. The claims are read before the date
/// counts.
pub open spec fn granted(
    signed: jwt::SignedModel,
    dated: Result<(), (bool, Seq<char>)>,
    expected_action: Action,
    session_key: Seq<u8>,
) -> Result<(FileClaimsModel, crate::session::SessionModel), FileJwtFault> {
    match (signed, jwt::carried(signed)) {
        (jwt::SignedModel::Refused(words), _) => Err(FileJwtFault::Jwt(JwtFault::Refused(words))),
        (_, Some(payload)) if claims_from_json(payload) is None => Err(
            FileJwtFault::Jwt(JwtFault::Claims(payload)),
        ),
        (jwt::SignedModel::Unreadable { words, .. }, _) => Err(
            FileJwtFault::Jwt(JwtFault::Refused(words)),
        ),
        (jwt::SignedModel::Payload(payload), _) => {
            let claims = claims_from_json(payload)->0;
            match dated {
                Err((_, words)) => Err(FileJwtFault::Jwt(JwtFault::Refused(words))),
                Ok(_) => if claims.action != expected_action {
                    Err(FileJwtFault::WrongAction)
                } else {
                    match crate::session::opened_session(claims.session_enc, session_key) {
                        Err(_) => Err(FileJwtFault::SessionDecrypt),
                        Ok(session) => Ok((claims, session)),
                    }
                },
            }
        },
    }
}

/// The outcome of a verification, in specifications.
pub open spec fn outcome(r: Result<(FileClaims, Session), FileJwtError>) -> Result<
    (FileClaimsModel, crate::session::SessionModel),
    FileJwtFault,
> {
    match r {
        Ok((claims, session)) => Ok((claims@, session@)),
        Err(e) => Err(e@),
    }
}

/// Decides what a token grants. `signed` is what it carries, and `dated` says
/// whether its date was accepted, or why not.
pub fn grant(
    signed: jwt::Signed,
    dated: Result<(), (bool, String)>,
    expected_action: Action,
    session_key: &[u8; 32],
) -> (r: Result<(FileClaims, Session), FileJwtError>)
    ensures
        outcome(r) == granted(
            signed@,
            jwt::check_outcome(dated),
            expected_action,
            session_key@,
        ),
        forall|c: FileClaimsModel|
            signed@ == jwt::SignedModel::Payload(#[trigger] claims_bytes(c)) ==> claims_from_json(
                claims_bytes(c),
            ) == Some(c),
        forall|c: FileClaimsModel, s: crate::session::SessionModel, nonce: Seq<u8>|
            signed@ == jwt::SignedModel::Payload(#[trigger] claims_bytes(c))
                && #[trigger] crate::session::is_sealed_session(
                c.session_enc,
                s,
                session_key@,
                nonce,
            ) && dated is Ok ==> outcome(r) == (if c.action == expected_action {
                Ok((c, s))
            } else {
                Err(FileJwtFault::WrongAction)
            }),
{
    let payload = match signed {
        jwt::Signed::Payload(payload) => payload,
        jwt::Signed::Refused(words) => return Err(FileJwtError::Jwt(JwtError::Refused(words))),
        jwt::Signed::Unreadable { payload, words } => {
            return match read_claims(payload.as_slice()) {
                Some(_) => Err(FileJwtError::Jwt(JwtError::Refused(words))),
                None => Err(FileJwtError::Jwt(JwtError::Claims(payload))),
            };
        },
    };
    let claims = match read_claims(payload.as_slice()) {
        Some(claims) => claims,
        None => return Err(FileJwtError::Jwt(JwtError::Claims(payload))),
    };
    match dated {
        Ok(_) => {},
        Err((_, words)) => return Err(FileJwtError::Jwt(JwtError::Refused(words))),
    }
    if claims.action != expected_action {
        return Err(FileJwtError::WrongAction);
    }
    match Session::decrypt(claims.session_enc.as_str(), session_key) {
        Ok(session) => Ok((claims, session)),
        Err(_) => Err(FileJwtError::SessionDecrypt),
    }
}

/// Whether the claims of a token say that it expired before `now`. An expiry
/// before the epoch is not looked at.
pub open spec fn is_expired(c: FileClaimsModel, now: u64) -> bool {
    0 <= c.exp < now
}

proof fn lemma_claims_are_simple(c: FileClaimsModel, now: u64)
    ensures
        jwt::are_simple_claims(claims_json(c)->Object_0),
        jwt::are_expired(claims_json(c)->Object_0, now) <==> is_expired(c, now),
{
    reveal_strlit("sub");
    reveal_strlit("email");
    reveal_strlit("path");
    reveal_strlit("action");
    reveal_strlit("session_enc");
    reveal_strlit("exp");
    reveal_strlit("iat");
    reveal_strlit("iss");
    reveal_strlit("aud");
    reveal_strlit("nbf");
    let m = claims_json(c)->Object_0;
    assert(m[0].0.len() == 3 && m[1].0.len() == 5 && m[2].0.len() == 4 && m[3].0.len() == 6);
    assert(m[4].0.len() == 11 && m[5].0.len() == 3 && m[6].0.len() == 3);
    assert(m[0].0[0] == 's' && m[5].0[0] == 'e' && m[6].0[0] == 'i' && m[6].0[1] == 'a');
    assert("iss"@.len() == 3 && "iss"@[0] == 'i' && "iss"@[1] == 's');
    assert("aud"@.len() == 3 && "aud"@[0] == 'a');
    assert("nbf"@.len() == 3 && "nbf"@[0] == 'n');
    assert(m[5].1->Int_0 == c.exp);
}

/// What a token made of some claims grants when the clock stands at `now`:
/// nothing if it is expired or for another action, and otherwise its claims
/// and the session that the session key opens.
pub open spec fn claims_outcome(
    c: FileClaimsModel,
    expected_action: Action,
    session_key: Seq<u8>,
    now: u64,
    r: Result<(FileClaimsModel, crate::session::SessionModel), FileJwtFault>,
) -> bool {
    if is_expired(c, now) {
        r matches Err(FileJwtFault::Jwt(_))
    } else if c.action != expected_action {
        r == Err::<(FileClaimsModel, crate::session::SessionModel), _>(FileJwtFault::WrongAction)
    } else {
        match crate::session::opened_session(c.session_enc, session_key) {
            Ok(s) => r == Ok::<_, FileJwtFault>((c, s)),
            Err(_) => r == Err::<(FileClaimsModel, crate::session::SessionModel), _>(
                FileJwtFault::SessionDecrypt,
            ),
        }
    }
}

/// Whether an outcome is what a token grants when the clock stands at `now`.
/// Nothing is granted by a token that the key did not sign. A token made of
/// some claims carries them, is in date if and only if they are, and grants
/// what they say; where the session it carries was sealed under the session
/// key, that session.
pub open spec fn is_granted_at(
    r: Result<(FileClaimsModel, crate::session::SessionModel), FileJwtFault>,
    token: Seq<char>,
    expected_action: Action,
    jwt_key: Seq<u8>,
    session_key: Seq<u8>,
    now: u64,
) -> bool {
    let signed = jwt::signed_payload(token, jwt_key);
    let dated = jwt::token_checked(token, jwt_key, true, 0, now);
    &&& r == granted(signed, dated, expected_action, session_key)
    &&& jwt::carried(signed) is Some ==> exists|header: Seq<u8>|
        token == #[trigger] jwt::token_of(header, jwt::carried(signed)->0, jwt_key)
    &&& forall|c: FileClaimsModel|
        token == #[trigger] claims_token(c, jwt_key) ==> {
            &&& signed == jwt::SignedModel::Payload(claims_bytes(c))
            &&& dated is Ok <==> !is_expired(c, now)
            &&& claims_outcome(c, expected_action, session_key, now, r)
        }
    &&& forall|c: FileClaimsModel, s: crate::session::SessionModel, nonce: Seq<u8>|
        token == #[trigger] claims_token(c, jwt_key)
            && #[trigger] crate::session::is_sealed_session(
            c.session_enc,
            s,
            session_key,
            nonce,
        ) && c.action == expected_action && !is_expired(c, now) ==> r == Ok::<_, FileJwtFault>(
            (c, s),
        )
}

/// Verifies a token: its signature, its date, its action and the session it
/// carries. Only a token that the key signed is accepted. A token minted for
/// the same action gives back its claims and its session if and only if it is
/// in date when the clock is read.
pub fn verify(
    token: &str,
    expected_action: Action,
    jwt_key: &[u8; 32],
    session_key: &[u8; 32],
) -> (r: Result<(FileClaims, Session), FileJwtError>)
    ensures
        exists|now: u64| #[trigger]
            is_granted_at(outcome(r), token@, expected_action, jwt_key@, session_key@, now),
{
    let signed = jwt::signed_payload_of(token, jwt_key.as_slice());
    let dated = jwt::check(token, jwt_key.as_slice(), true, 0);
    let ghost sv = signed@;
    let ghost dv = jwt::check_outcome(dated);
    let r = grant(signed, dated, expected_action, session_key);
    proof {
        let now = choose|now: u64|
            {
                &&& dv == #[trigger] jwt::token_checked(token@, jwt_key@, true, 0, now)
                &&& forall|m: Seq<(Seq<char>, crate::json::Json)>|
                    token@ == jwt::signed_token(
                        #[trigger] crate::json::json_text(crate::json::Json::Object(m)),
                        jwt_key@,
                    ) && jwt::are_simple_claims(m) ==> (dated is Ok <==> !(true
                        && jwt::are_expired(m, now)))
            };
        assert forall|c: FileClaimsModel| token@ == #[trigger] claims_token(c, jwt_key@) implies {
            &&& sv == jwt::SignedModel::Payload(claims_bytes(c))
            &&& dv is Ok <==> !is_expired(c, now)
            &&& claims_outcome(c, expected_action, session_key@, now, outcome(r))
        } by {
            lemma_claims_are_simple(c, now);
            let m = claims_json(c)->Object_0;
            assert(crate::json::Json::Object(m) == claims_json(c));
            assert(sv == jwt::SignedModel::Payload(claims_bytes(c)));
        }
        assert(is_granted_at(outcome(r), token@, expected_action, jwt_key@, session_key@, now));
    }
    r
}

/// A minted token carries the claims it was minted with, and the session of
/// its user: `verify` gives both back under the same keys.
pub proof fn minted_token_carries_its_claims(
    token: Seq<char>,
    session: crate::session::SessionModel,
    path: Seq<char>,
    action: Action,
    ttl_secs: i64,
    now: i64,
    nonce: Seq<u8>,
    jwt_key: Seq<u8>,
    session_key: Seq<u8>,
)
    requires
        is_minted(token, session, path, action, ttl_secs, now, nonce, jwt_key, session_key),
    ensures
        exists|c: FileClaimsModel|
            {
                &&& token == #[trigger] claims_token(c, jwt_key)
                &&& crate::session::is_sealed_session(c.session_enc, session, session_key, nonce)
                &&& c.sub == session.sub && c.email == session.email
                &&& c.path == path && c.action == action
                &&& c.iat == now && c.exp == now + ttl_secs
            },
{
    let enc = crate::session::sealed_session(session, session_key, nonce);
    let c = minted_claims(session, path, action, ttl_secs, now, enc);
    assert(token == claims_token(c, jwt_key));
}

/// What `verify` gives for a minted token when the clock stands at `clock`. In
/// date, for the action and under the keys it was minted with, it is the
/// claims and the session as they were; for the other action it is refused as
/// such, whatever the session key; and out of date it is refused.
pub proof fn minted_token_is_verified(
    r: Result<(FileClaimsModel, crate::session::SessionModel), FileJwtFault>,
    token: Seq<char>,
    session: crate::session::SessionModel,
    path: Seq<char>,
    action: Action,
    ttl_secs: i64,
    now: i64,
    nonce: Seq<u8>,
    jwt_key: Seq<u8>,
    session_key: Seq<u8>,
    expected_action: Action,
    other_key: Seq<u8>,
    clock: u64,
)
    requires
        is_minted(token, session, path, action, ttl_secs, now, nonce, jwt_key, session_key),
        is_granted_at(r, token, expected_action, jwt_key, other_key, clock),
    ensures
        ({
            let c = minted_claims(
                session,
                path,
                action,
                ttl_secs,
                now,
                crate::session::sealed_session(session, session_key, nonce),
            );
            &&& c.sub == session.sub && c.email == session.email
            &&& c.path == path && c.action == action
            &&& c.iat == now && c.exp == now + ttl_secs
            &&& now + ttl_secs >= clock ==> {
                &&& expected_action == action && other_key == session_key ==> r == Ok::<
                    _,
                    FileJwtFault,
                >((c, session))
                &&& expected_action != action ==> r == Err::<
                    (FileClaimsModel, crate::session::SessionModel),
                    _,
                >(FileJwtFault::WrongAction)
                &&& expected_action == action && crate::session::opened_session(
                    c.session_enc,
                    other_key,
                ) is Err ==> r == Err::<(FileClaimsModel, crate::session::SessionModel), _>(
                    FileJwtFault::SessionDecrypt,
                )
            }
            &&& 0 <= now + ttl_secs < clock ==> r matches Err(FileJwtFault::Jwt(_))
        }),
{
    let enc = crate::session::sealed_session(session, session_key, nonce);
    let c = minted_claims(session, path, action, ttl_secs, now, enc);
    assert(token == claims_token(c, jwt_key));
    assert(claims_outcome(c, expected_action, other_key, clock, r));
    assert(crate::session::is_sealed_session(c.session_enc, session, session_key, nonce));
}

} // verus!
