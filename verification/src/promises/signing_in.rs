//! What a sign-in makes of a user: the session is that of the tokens, the
//! tokens are those of the provider's reply, and the provider is asked with
//! what the attempt remembers.

use crate::config::ConfigModel;
use crate::json::Json;
use crate::oidc::{
    AuthStateModel, DiscoveryModel, IdTokenModel, OidcClientModel, OidcFault, TokenResponseModel,
    TokensModel,
};
use crate::promises::answers::{is_bare, says};
use crate::promises::requests::server_of;
use crate::reply::{BodyModel, CookieModel};
use crate::session::SessionModel;
use crate::signin::{CallbackStepModel, OidcCallbackQuery};
use vstd::prelude::*;

verus! {

/// Whether a session is that of tokens got at `now`, field by field.
pub open spec fn is_session_of(s: SessionModel, t: TokensModel, now: i64) -> bool {
    &&& s.sub == t.sub
    &&& s.email == t.email
    &&& s.name == t.name
    &&& s.access_token == t.access_token
    &&& s.refresh_token == t.refresh_token
    &&& s.access_token_exp == now + t.expires_in
}

/// A user who has just signed in has the session of the tokens; so the
/// collection is that of the email in the tokens, and requests carry the
/// access token in them.
pub proof fn sessions_are_of_the_tokens(t: TokensModel, now: i64, c: ConfigModel)
    requires
        i64::MIN <= now + t.expires_in <= i64::MAX,
    ensures
        is_session_of(crate::signin::session_of_tokens(t, now), t, now),
        crate::files::client_for(c, crate::signin::session_of_tokens(t, now)) matches Ok(client)
            ==> {
            &&& client.user_root == "/dav/file/"@ + t.email + "/"@
            &&& client.access_token == t.access_token
            &&& server_of(c, crate::signin::session_of_tokens(t, now)) == Some(client.base)
        },
        t.email.contains('@') && server_of(c, crate::signin::session_of_tokens(t, now)) is Some
            ==> crate::files::client_for(c, crate::signin::session_of_tokens(t, now)) is Ok,
{
    crate::promises::requests::clients_are_of_their_user(
        c,
        crate::signin::session_of_tokens(t, now),
    );
}

/// Whether a cookie is kept for the whole site, out of reach of scripts, over
/// HTTPS only and away from other sites, under a name and for some seconds.
pub open spec fn is_kept_safe(c: CookieModel, name: Seq<char>, seconds: nat) -> bool {
    &&& c.name == name
    &&& c.path == "/"@
    &&& c.http_only && c.secure && c.same_site_lax
    &&& c.max_age_secs == seconds
}

/// The session cookie is kept safe for a week, and holds the session sealed
/// under the key: base64 of the nonce and what the session's JSON is encrypted
/// to.
pub proof fn session_cookies_hold_the_session(
    c: CookieModel,
    s: SessionModel,
    key: Seq<u8>,
    nonce: Seq<u8>,
)
    requires
        crate::signin::is_session_cookie(c, s, key, nonce),
    ensures
        is_kept_safe(c, "office_portal_session"@, 7 * 24 * 60 * 60),
        nonce.len() == 12,
        c.value == crate::b64::encoded(
            crate::b64::Form::UrlSafe,
            nonce + crate::crypto::aes_sealed(
                key,
                nonce,
                vstd::utf8::encode_utf8(crate::json::json_text(crate::session::session_json(s))),
            ),
        ),
{
}

/// A user who is signed in is sent to the file browser with the session, and
/// the attempt is forgotten; a session that cannot be sealed is an error.
pub proof fn signing_in_leads_to_the_files(c: CookieModel)
    ensures
        ({
            let r = crate::signin::signed_in(Some(c));
            &&& r.status == 303
            &&& r.body == BodyModel::Redirect("/"@)
            &&& r.set_cookie == Some(c)
            &&& r.remove_cookie == Some("office_portal_auth_state"@)
        }),
        is_bare(
            crate::signin::signed_in(None),
            500,
            BodyModel::Text("session encrypt failed"@),
        ),
{
}

/// A code that could not be exchanged is answered as one of a bad gateway, in
/// words that say what happened.
pub proof fn failed_exchanges_are_answered(e: Seq<char>)
    ensures
        is_bare(
            crate::signin::exchange_failed(OidcFault::Http(e)),
            502,
            BodyModel::Text("token exchange failed: "@ + ("http error: "@ + e)),
        ),
        is_bare(
            crate::signin::exchange_failed(OidcFault::Discovery(e)),
            502,
            BodyModel::Text("token exchange failed: "@ + ("oidc discovery failed: "@ + e)),
        ),
        is_bare(
            crate::signin::exchange_failed(OidcFault::Token(e)),
            502,
            BodyModel::Text("token exchange failed: "@ + ("oidc token exchange failed: "@ + e)),
        ),
{
}

/// A user who asks to sign in is sent to the provider, and the attempt is
/// remembered in a cookie, kept safe for a quarter of an hour.
pub proof fn attempts_are_remembered(url: Seq<char>, s: AuthStateModel)
    ensures
        ({
            let r = crate::signin::login_answered(url, s);
            &&& r.status == 303
            &&& r.body == BodyModel::Redirect(url)
            &&& r.remove_cookie is None
            &&& r.set_cookie matches Some(c)
            &&& is_kept_safe(c, "office_portal_auth_state"@, 15 * 60)
            &&& c.value == crate::json::json_text(crate::oidc::auth_state_json(s))
        }),
        says_attempt(crate::oidc::auth_state_json(s), s),
{
    let m = crate::oidc::auth_state_json(s)->Object_0;
    assert(m[0].0 == "csrf_token"@ && m[1].0 == "nonce"@ && m[2].0 == "pkce_verifier"@);
}

/// Whether an object says all of a sign-in attempt.
pub open spec fn says_attempt(j: Json, s: AuthStateModel) -> bool {
    &&& says(j, "csrf_token"@, Json::Text(s.csrf_token))
    &&& says(j, "nonce"@, Json::Text(s.nonce))
    &&& says(j, "pkce_verifier"@, Json::Text(s.pkce_verifier))
    &&& j->Object_0.len() == 3
}

/// Whether a callback is refused as a bad request, in words.
pub open spec fn is_refused(step: CallbackStepModel, words: Seq<char>) -> bool {
    step matches CallbackStepModel::Answer(r) && is_bare(r, 400, BodyModel::Text(words))
}

/// A user whom the provider sends back is refused if the provider reports an
/// error, if the code or the remembered attempt is missing, if the attempt
/// cannot be read, or if the state is not that of the attempt; and otherwise
/// the code is exchanged, for that attempt.
pub proof fn callbacks_are_taken_up(q: OidcCallbackQuery, cookie: Option<Seq<char>>)
    ensures
        ({
            let step = crate::signin::callback_step(q, cookie);
            let attempt = crate::oidc::auth_state_from_json(cookie->0);
            let returned = match q.state {
                Some(state) => state@,
                None => Seq::empty(),
            };
            &&& q.error is Some ==> is_refused(
                step,
                "oidc error: "@ + q.error->0@ + " "@ + (match q.error_description {
                    Some(d) => d@,
                    None => Seq::empty(),
                }),
            )
            &&& q.error is None && q.code is None ==> is_refused(step, "missing code"@)
            &&& q.error is None && q.code is Some && cookie is None ==> is_refused(
                step,
                "missing auth state"@,
            )
            &&& q.error is None && q.code is Some && cookie is Some && attempt is None
                ==> is_refused(step, "bad auth state"@)
            &&& q.error is None && q.code is Some && cookie is Some && attempt is Some
                && attempt->0.csrf_token != returned ==> is_refused(step, "csrf mismatch"@)
            &&& q.error is None && q.code is Some && cookie is Some && attempt is Some
                && attempt->0.csrf_token == returned ==> step == (CallbackStepModel::Exchange {
                code: q.code->0@,
                state: attempt->0,
            })
        }),
{
}

/// Only a user with a session sees the file browser; another is sent to sign
/// in. A user who signs out is sent there too, and loses the session.
pub proof fn the_files_are_behind_the_sign_in(
    cookie: Option<Seq<char>>,
    key: Seq<u8>,
    page: Seq<char>,
)
    ensures
        is_bare(
            crate::signin::index_answered(cookie, key, page),
            if cookie is Some && crate::session::opened_session(cookie->0, key) is Ok {
                200
            } else {
                303
            },
            if cookie is Some && crate::session::opened_session(cookie->0, key) is Ok {
                BodyModel::Html(page)
            } else {
                BodyModel::Redirect("/oidc/login"@)
            },
        ),
        is_bare(crate::signin::login_redirect(), 303, BodyModel::Redirect("/oidc/login"@)),
        crate::signin::logged_out().status == 303,
        crate::signin::logged_out().body == BodyModel::Redirect("/oidc/login"@),
        crate::signin::logged_out().set_cookie is None,
        crate::signin::logged_out().remove_cookie == Some("office_portal_session"@),
{
}

/// A session is refreshed with its refresh token from a minute before its
/// access token ends, and not where it has none.
pub proof fn sessions_are_refreshed_a_minute_early(s: SessionModel, now: i64)
    ensures
        now >= s.access_token_exp - 60 ==> crate::signin::refresh_asked(s, now) == s.refresh_token,
        now < s.access_token_exp - 60 ==> crate::signin::refresh_asked(s, now) is None,
        crate::files::going_on(s, now) == (match s.refresh_token {
            Some(token) if now >= s.access_token_exp - 60 => crate::files::AccessModel::Refresh {
                session: s,
                token,
            },
            _ => crate::files::AccessModel::Ready(s),
        }),
{
}

/// A refreshed session is that of the new tokens; where the provider refuses,
/// the old one stays.
pub proof fn refreshed_sessions_are_of_the_new_tokens(
    s: SessionModel,
    t: TokensModel,
    e: OidcFault,
    now: i64,
)
    requires
        i64::MIN <= now + t.expires_in <= i64::MAX,
    ensures
        is_session_of(crate::signin::renewed(s, Ok::<_, OidcFault>(t), now), t, now),
        crate::signin::renewed(s, Err::<TokensModel, _>(e), now) == s,
{
}

/// Whether a form or a query has a field of that name and value.
pub open spec fn has_field(
    form: Seq<(Seq<char>, Seq<char>)>,
    name: Seq<char>,
    value: Seq<char>,
) -> bool {
    exists|i: int| 0 <= i < form.len() && #[trigger] form[i] == (name, value)
}

/// A user is sent to the provider with the client's name, the address to come
/// back to, the scopes, and of the attempt its state, its nonce and the SHA-256
/// challenge of its verifier.
pub proof fn users_are_sent_with_the_attempt(c: OidcClientModel, s: AuthStateModel)
    ensures
        ({
            let q = crate::oidc::authorize_query(c, s);
            &&& has_field(q, "response_type"@, "code"@)
            &&& has_field(q, "client_id"@, c.client_id)
            &&& has_field(q, "redirect_uri"@, c.redirect_uri)
            &&& has_field(q, "scope"@, crate::oidc::separated(c.scopes, " "@))
            &&& has_field(q, "state"@, s.csrf_token)
            &&& has_field(q, "nonce"@, s.nonce)
            &&& has_field(
                q,
                "code_challenge"@,
                crate::b64::encoded(
                    crate::b64::Form::UrlSafe,
                    crate::crypto::sha256_digest(vstd::utf8::encode_utf8(s.pkce_verifier)),
                ),
            )
            &&& has_field(q, "code_challenge_method"@, "S256"@)
            &&& q.len() == 8
        }),
        crate::weburl::url_parsed(c.discovery.authorization_endpoint) matches Ok(u) ==> {
            &&& crate::oidc::authorize_url(c, s) is Ok
            &&& !u.contains('?') && !u.contains('#') ==> crate::oidc::authorize_url(c, s)->Ok_0 == u
                + seq!['?'] + crate::weburl::query_text(crate::oidc::authorize_query(c, s))
        },
        crate::weburl::url_parsed(c.discovery.authorization_endpoint) is Err
            ==> crate::oidc::authorize_url(c, s) is Err,
{
    let q = crate::oidc::authorize_query(c, s);
    assert(q[0].0 == "response_type"@ && q[1].0 == "client_id"@ && q[2].0 == "redirect_uri"@);
    assert(q[3].0 == "scope"@ && q[4].0 == "state"@ && q[5].0 == "nonce"@);
    assert(q[6].0 == "code_challenge"@ && q[7].0 == "code_challenge_method"@);
    if let Ok(u) = crate::weburl::url_parsed(c.discovery.authorization_endpoint) {
        crate::promises::formats::queries_stand_behind_the_url(
            u,
            Seq::empty(),
            crate::weburl::query_text(q),
        );
        assert(u + Seq::<char>::empty() =~= u);
        if !u.contains('?') && !u.contains('#') {
            assert(u + seq!['?'] + crate::weburl::query_text(q) + Seq::<char>::empty() =~= u + seq![
                '?',
            ] + crate::weburl::query_text(q));
        }
    }
}

/// Scopes are asked for with a space between them.
pub proof fn texts_are_separated(parts: Seq<Seq<char>>, last: Seq<char>, separator: Seq<char>)
    ensures
        crate::oidc::separated(seq![last], separator) == last,
        parts.len() > 0 ==> crate::oidc::separated(parts.push(last), separator)
            == crate::oidc::separated(parts, separator) + separator + last,
{
    assert(parts.push(last).drop_last() =~= parts);
}

/// A code is exchanged at the provider's token endpoint, under the client's
/// name and secret, with the verifier of the attempt.
pub proof fn codes_are_exchanged_for_the_attempt(
    c: OidcClientModel,
    code: Seq<char>,
    s: AuthStateModel,
)
    ensures
        ({
            let q = crate::oidc::exchange_request(c, code, s);
            &&& q.url == c.discovery.token_endpoint
            &&& q.user == c.client_id
            &&& q.password == c.client_secret
            &&& has_field(q.form, "grant_type"@, "authorization_code"@)
            &&& has_field(q.form, "code"@, code)
            &&& has_field(q.form, "redirect_uri"@, c.redirect_uri)
            &&& has_field(q.form, "client_id"@, c.client_id)
            &&& has_field(q.form, "code_verifier"@, s.pkce_verifier)
            &&& q.form.len() == 5
        }),
{
    let f = crate::oidc::exchange_request(c, code, s).form;
    assert(f[0].0 == "grant_type"@ && f[1].0 == "code"@ && f[2].0 == "redirect_uri"@);
    assert(f[3].0 == "client_id"@ && f[4].0 == "code_verifier"@);
}

/// A refresh token is exchanged at the provider's token endpoint, under the
/// client's name and secret.
pub proof fn refresh_tokens_are_exchanged(c: OidcClientModel, token: Seq<char>)
    ensures
        ({
            let q = crate::oidc::refresh_request(c, token);
            &&& q.url == c.discovery.token_endpoint
            &&& q.user == c.client_id
            &&& q.password == c.client_secret
            &&& has_field(q.form, "grant_type"@, "refresh_token"@)
            &&& has_field(q.form, "refresh_token"@, token)
            &&& has_field(q.form, "client_id"@, c.client_id)
            &&& q.form.len() == 3
        }),
{
    let f = crate::oidc::refresh_request(c, token).form;
    assert(f[0].0 == "grant_type"@ && f[1].0 == "refresh_token"@ && f[2].0 == "client_id"@);
}

/// A successful reply of the token endpoint gives its tokens and the user of
/// its ID token; a life that is not given is an hour, and an email that is not
/// given is empty. Every other reply is refused, with what is wrong.
pub proof fn tokens_are_of_the_reply(
    refused: Seq<char>,
    status: u16,
    body: Seq<u8>,
    t: TokenResponseModel,
    k: IdTokenModel,
    e: Seq<char>,
)
    ensures
        !(200 <= status < 300) ==> forall|
            p: Result<TokenResponseModel, Seq<char>>,
            q: Result<IdTokenModel, Seq<char>>,
        |
            (#[trigger] crate::oidc::replied_tokens(refused, status, body, p, q)) == Err::<
                TokensModel,
                _,
            >(
                refused + crate::numbers::decimal(status as int) + ": "@ + crate::text::lossy(body),
            ),
        200 <= status < 300 ==> {
            &&& forall|q: Result<IdTokenModel, Seq<char>>|
                (#[trigger] crate::oidc::replied_tokens(
                    refused,
                    status,
                    body,
                    Err::<TokenResponseModel, _>(e),
                    q,
                )) == Err::<TokensModel, _>("parse: "@ + e)
            &&& crate::oidc::id_payload(t.id_token) matches Err(w) ==> crate::oidc::replied_tokens(
                refused,
                status,
                body,
                Ok::<_, Seq<char>>(t),
                Ok::<_, Seq<char>>(k),
            ) == Err::<TokensModel, _>(w)
            &&& crate::oidc::id_payload(t.id_token) is Ok ==> {
                &&& crate::oidc::replied_tokens(
                    refused,
                    status,
                    body,
                    Ok::<_, Seq<char>>(t),
                    Err::<IdTokenModel, _>(e),
                ) == Err::<TokensModel, _>("id_token payload parse: "@ + e)
                &&& crate::oidc::replied_tokens(
                    refused,
                    status,
                    body,
                    Ok::<_, Seq<char>>(t),
                    Ok::<_, Seq<char>>(k),
                ) matches Ok(r)
                &&& r.access_token == t.access_token
                &&& r.refresh_token == t.refresh_token
                &&& r.expires_in == (if t.expires_in is Some {
                    t.expires_in->0 as int
                } else {
                    3600
                })
                &&& r.sub == k.sub
                &&& r.name == k.name
                &&& k.email matches Some(m) ==> r.email == m
                &&& k.email is None ==> r.email.len() == 0
            }
        },
{
}

/// The payload of an ID token is what its second part encodes; a token without
/// three parts is malformed.
pub proof fn id_tokens_carry_their_payload(
    id_token: Seq<char>,
    head: Seq<char>,
    payload: Seq<u8>,
    tail: Seq<char>,
)
    ensures
        !head.contains('.') && !tail.contains('.') ==> crate::oidc::id_payload(
            head + seq!['.'] + crate::jwt::part(payload) + seq!['.'] + tail,
        ) == Ok::<_, Seq<char>>(payload),
        crate::text::pieces(id_token, '.').len() != 3 ==> crate::oidc::id_payload(id_token) == Err::<
            Seq<u8>,
            _,
        >("malformed id_token"@),
        crate::oidc::id_payload(id_token) matches Ok(b) ==> crate::text::pieces(id_token, '.').len()
            == 3 && crate::text::pieces(id_token, '.')[1] == crate::b64::encoded(
            crate::b64::Form::UrlSafe,
            b,
        ),
{
    if !head.contains('.') && !tail.contains('.') {
        let middle = crate::jwt::part(payload);
        crate::jwt::lemma_part_has_no_dot(payload);
        crate::text::lemma_one_piece(head, '.');
        crate::text::lemma_last_piece(head, middle, '.');
        crate::text::lemma_last_piece(head + seq!['.'] + middle, tail, '.');
        assert(crate::text::pieces(head + seq!['.'] + middle + seq!['.'] + tail, '.') =~= seq![
            head,
            middle,
            tail,
        ]);
        crate::b64::decoded_inverts_encoded(crate::b64::Form::UrlSafe, payload);
    }
}

/// A provider that describes itself gets a client with what it says and what
/// the portal is configured with; a provider that does not is an error.
pub proof fn clients_are_of_their_provider(
    status: u16,
    d: DiscoveryModel,
    e: Seq<char>,
    id: Seq<char>,
    secret: Seq<char>,
    uri: Seq<char>,
    scopes: Seq<Seq<char>>,
)
    ensures
        200 <= status < 300 ==> {
            &&& crate::oidc::discovered(
                status,
                Ok::<_, Seq<char>>(d),
                id,
                secret,
                uri,
                scopes,
            ) matches Ok(c)
            &&& c.discovery == d
            &&& c.client_id == id
            &&& c.client_secret == secret
            &&& c.redirect_uri == uri
            &&& c.scopes == scopes
        },
        200 <= status < 300 ==> crate::oidc::discovered(
            status,
            Err::<DiscoveryModel, _>(e),
            id,
            secret,
            uri,
            scopes,
        ) == Err::<OidcClientModel, _>(OidcFault::Discovery(e)),
        !(200 <= status < 300) ==> crate::oidc::discovered(
            status,
            Ok::<_, Seq<char>>(d),
            id,
            secret,
            uri,
            scopes,
        ) == Err::<OidcClientModel, _>(
            OidcFault::Discovery("HTTP "@ + crate::numbers::decimal(status as int)),
        ),
{
}

/// Whether a cookie keeps the session of tokens got at `now` safe for a week,
/// sealed under the key.
pub open spec fn keeps_session_of(c: CookieModel, t: TokensModel, now: i64, key: Seq<u8>) -> bool {
    exists|s: SessionModel, nonce: Seq<u8>|
        {
            &&& #[trigger] crate::session::is_sealed_session(c.value, s, key, nonce)
            &&& is_session_of(s, t, now)
            &&& is_kept_safe(c, "office_portal_session"@, 7 * 24 * 60 * 60)
        }
}

/// A user whose code was exchanged is sent to the file browser with the
/// session of the tokens; where it was not, the failure is told.
pub proof fn sign_ins_are_finished(
    r: crate::reply::ReplyModel,
    t: TokensModel,
    e: OidcFault,
    now: i64,
    key: Seq<u8>,
)
    requires
        i64::MIN <= now + t.expires_in <= i64::MAX,
    ensures
        crate::signin::finishes_sign_in(r, Ok::<_, OidcFault>(t), now, key) && r.status != 500 ==> {
            &&& r.status == 303
            &&& r.body == BodyModel::Redirect("/"@)
            &&& r.remove_cookie == Some("office_portal_auth_state"@)
            &&& r.set_cookie matches Some(c) && keeps_session_of(c, t, now, key)
        },
        crate::signin::finishes_sign_in(r, Ok::<_, OidcFault>(t), now, key) && r.status == 500
            ==> !crate::signin::can_be_sealed(crate::signin::session_of_tokens(t, now))
            && r.set_cookie is None,
        crate::signin::finishes_sign_in(r, Err::<TokensModel, _>(e), now, key) ==> {
            &&& r.status == 502
            &&& r.body == BodyModel::Text(
                "token exchange failed: "@ + crate::oidc::fault_message(e),
            )
            &&& r.set_cookie is None
        },
{
    let s = crate::signin::session_of_tokens(t, now);
    if crate::signin::finishes_sign_in(r, Ok::<_, OidcFault>(t), now, key)
        && crate::signin::can_be_sealed(s) {
        let nonce = choose|nonce: Seq<u8>| #[trigger]
            crate::signin::is_session_cookie(r.set_cookie->0, s, key, nonce);
        assert(crate::session::is_sealed_session(r.set_cookie->0.value, s, key, nonce));
    }
}

/// A renewed session is that of the new tokens and is kept in the cookie; a
/// session that was not renewed stays as it is, and no cookie is set.
pub proof fn renewals_are_kept(
    out: SessionModel,
    cookie: Option<CookieModel>,
    s: SessionModel,
    t: TokensModel,
    e: OidcFault,
    now: i64,
    key: Seq<u8>,
)
    requires
        i64::MIN <= now + t.expires_in <= i64::MAX,
    ensures
        crate::signin::is_renewal(out, cookie, s, Ok::<_, OidcFault>(t), now, key) ==> {
            &&& is_session_of(out, t, now)
            &&& cookie matches Some(c) ==> keeps_session_of(c, t, now, key)
            &&& cookie is None ==> crate::session::session_bytes(out).len()
                > crate::crypto::MESSAGE_MAX
        },
        crate::signin::is_renewal(out, cookie, s, Err::<TokensModel, _>(e), now, key) ==> out == s
            && cookie is None,
{
    if crate::signin::is_renewal(out, cookie, s, Ok::<_, OidcFault>(t), now, key) {
        if let Some(c) = cookie {
            let nonce = choose|nonce: Seq<u8>| #[trigger]
                crate::signin::is_session_cookie(c, out, key, nonce);
            assert(crate::session::is_sealed_session(c.value, out, key, nonce));
        }
    }
}

proof fn lemma_random_length(s: Seq<char>, n: nat)
    requires
        crate::oidc::is_random_text(s, n),
    ensures
        s.len() == (4 * n + 2) / 3,
{
    let b = choose|b: Seq<u8>|
        b.len() == n && s == #[trigger] crate::b64::encoded(crate::b64::Form::UrlSafe, b);
    crate::b64::encoded_shape(crate::b64::Form::UrlSafe, b);
}

/// A sign-in sends the user to the provider with the very attempt that the
/// cookie remembers: its state, and the challenge of its verifier.
pub proof fn sign_ins_are_begun(r: crate::reply::ReplyModel, c: OidcClientModel)
    requires
        crate::signin::begins_sign_in(r, c),
    ensures
        exists|s: AuthStateModel|
            {
                &&& #[trigger] says_attempt(crate::oidc::auth_state_json(s), s)
                &&& s.csrf_token.len() == 43 && s.nonce.len() == 43 && s.pkce_verifier.len() == 86
                &&& r.status == 303
                &&& crate::oidc::authorize_url(c, s) matches Ok(url)
                &&& r.body == BodyModel::Redirect(url)
                &&& r.set_cookie matches Some(k)
                &&& is_kept_safe(k, "office_portal_auth_state"@, 15 * 60)
                &&& k.value == crate::json::json_text(crate::oidc::auth_state_json(s))
            },
{
    let s = choose|s: AuthStateModel|
        {
            &&& crate::oidc::is_random_text(s.csrf_token, 32)
            &&& crate::oidc::is_random_text(s.nonce, 32)
            &&& crate::oidc::is_random_text(s.pkce_verifier, 64)
            &&& #[trigger] crate::oidc::authorize_url(c, s) matches Ok(url)
            &&& r == crate::signin::login_answered(url, s)
        };
    attempts_are_remembered(crate::oidc::authorize_url(c, s)->Ok_0, s);
    lemma_random_length(s.csrf_token, 32);
    lemma_random_length(s.nonce, 32);
    lemma_random_length(s.pkce_verifier, 64);
    assert(says_attempt(crate::oidc::auth_state_json(s), s));
}

/// Every session can be sealed whose text is no longer than 64 GiB.
pub proof fn sessions_can_be_sealed(s: SessionModel)
    ensures
        crate::signin::can_be_sealed(s) <==> vstd::utf8::encode_utf8(
            crate::json::json_text(crate::session::session_json(s)),
        ).len() <= 64 * 1024 * 1024 * 1024,
{
}

} // verus!
