//! Signing in and out, and keeping a session fresh.

use crate::crypto::random_bytes;
use crate::oidc::{AuthState, OidcClient, OidcError, Tokens};
use crate::reply::{Body, Cookie, Reply};
use crate::session::{Session, COOKIE_NAME};
use crate::text::{join2, join3, same_text};
use crate::weburl::Url;
use vstd::prelude::*;

verus! {

/// The name of the cookie that remembers a sign-in attempt.
pub const AUTH_STATE_COOKIE: &'static str = "office_portal_auth_state";

/// How long a sign-in attempt is remembered: 15 minutes.
pub const AUTH_STATE_AGE: i64 = 900;

/// How long a session cookie is kept: 7 days.
pub const SESSION_AGE: i64 = 604800;

/// A session that there may be, in specifications.
pub open spec fn session_view(s: Option<Session>) -> Option<crate::session::SessionModel> {
    match s {
        Some(s) => Some(s@),
        None => None,
    }
}

/// The session in a cookie value, if there is a value and it holds one.
pub open spec fn session_in_cookie(cookie: Option<Seq<char>>, key: Seq<u8>) -> Option<
    crate::session::SessionModel,
> {
    match cookie {
        None => None,
        Some(value) => match crate::session::opened_session(value, key) {
            Ok(s) => Some(s),
            Err(_) => None,
        },
    }
}

/// The session in a cookie value, if there is a value and it holds one. A
/// session that was sealed under the key is found again.
pub fn load_session(cookie: &Option<String>, key: &[u8; 32]) -> (out: Option<Session>)
    ensures
        session_view(out) == session_in_cookie(crate::text::opt_view(*cookie), key@),
        forall|s: crate::session::SessionModel, nonce: Seq<u8>|
            *cookie is Some && #[trigger] crate::session::is_sealed_session(
                cookie->0@,
                s,
                key@,
                nonce,
            ) ==> session_view(out) == Some(s),
{
    match cookie {
        None => None,
        Some(value) => match Session::decrypt(value.as_str(), key) {
            Ok(s) => Some(s),
            Err(_) => None,
        },
    }
}

/// Where a user without a session is sent.
pub open spec fn login_redirect() -> crate::reply::ReplyModel {
    crate::reply::redirect("/oidc/login"@)
}

/// The answer to a request for the file browser.
pub open spec fn index_answered(cookie: Option<Seq<char>>, key: Seq<u8>, page: Seq<char>)
    -> crate::reply::ReplyModel {
    if session_in_cookie(cookie, key) is Some {
        crate::reply::plain(200, crate::reply::BodyModel::Html(page))
    } else {
        login_redirect()
    }
}

/// The file browser page, for users with a session.
pub fn index(cookie: &Option<String>, key: &[u8; 32], page: &str) -> (r: Reply)
    ensures
        r@ == index_answered(crate::text::opt_view(*cookie), key@, page@),
        r@ == (if session_in_cookie(crate::text::opt_view(*cookie), key@) is Some {
            crate::reply::plain(200, crate::reply::BodyModel::Html(page@))
        } else {
            login_redirect()
        }),
{
    match load_session(cookie, key) {
        Some(_) => Reply::plain(200, Body::Html(page.to_owned())),
        None => Reply::redirect("/oidc/login"),
    }
}

/// The cookie that remembers a sign-in attempt.
pub open spec fn auth_state_cookie(s: crate::oidc::AuthStateModel) -> crate::reply::CookieModel {
    crate::reply::portal_cookie(
        AUTH_STATE_COOKIE@,
        crate::json::json_text(crate::oidc::auth_state_json(s)),
        AUTH_STATE_AGE,
    )
}

/// The answer to a user who asks to sign in: sent to `url`, with the attempt
/// remembered.
pub open spec fn login_answered(url: Seq<char>, s: crate::oidc::AuthStateModel)
    -> crate::reply::ReplyModel {
    crate::reply::setting(crate::reply::redirect(url), Some(auth_state_cookie(s)))
}

/// The answer to a user who asks to sign in, once an attempt has begun.
pub fn login_reply(begun: Result<(Url, AuthState), OidcError>) -> (r: Reply)
    ensures
        begun matches Ok((url, state)) ==> r@ == login_answered(url@, state@),
        r@ == match begun {
            Ok((url, state)) => crate::reply::setting(
                crate::reply::redirect(url@),
                Some(auth_state_cookie(state@)),
            ),
            Err(_) => crate::reply::plain(
                500,
                crate::reply::BodyModel::Text("oidc begin failed"@),
            ),
        },
{
    match begun {
        Ok((url, state)) => {
            let json = state.to_json();
            let cookie = Cookie::new(AUTH_STATE_COOKIE, json.as_str().to_owned(), AUTH_STATE_AGE);
            Reply::redirect(url.as_str()).setting(Some(cookie))
        },
        Err(_) => Reply::text(500, "oidc begin failed"),
    }
}

/// Whether an answer sends a user to the provider for an attempt that it
/// remembers.
pub open spec fn begins_sign_in(r: crate::reply::ReplyModel, c: crate::oidc::OidcClientModel)
    -> bool {
    exists|s: crate::oidc::AuthStateModel|
        {
            &&& crate::oidc::is_random_text(s.csrf_token, 32)
            &&& crate::oidc::is_random_text(s.nonce, 32)
            &&& crate::oidc::is_random_text(s.pkce_verifier, 64)
            &&& #[trigger] crate::oidc::authorize_url(c, s) matches Ok(url)
            &&& r == login_answered(url, s)
        }
}

/// Begins a sign-in: sends the user to the provider and remembers the attempt.
pub fn oidc_login(client: &OidcClient) -> (r: Reply)
    ensures
        crate::weburl::url_parsed(client@.discovery.authorization_endpoint) is Ok
            ==> begins_sign_in(r@, client@),
        match crate::weburl::url_parsed(client@.discovery.authorization_endpoint) {
            Ok(_) => exists|s: crate::oidc::AuthStateModel|
                {
                    &&& crate::oidc::is_random_text(s.csrf_token, 32)
                    &&& crate::oidc::is_random_text(s.nonce, 32)
                    &&& crate::oidc::is_random_text(s.pkce_verifier, 64)
                    &&& crate::oidc::authorize_url(client@, s) is Ok
                    &&& r@ == crate::reply::setting(
                        crate::reply::redirect(crate::oidc::authorize_url(client@, s)->Ok_0),
                        Some(#[trigger] auth_state_cookie(s)),
                    )
                },
            Err(_) => r@ == crate::reply::plain(
                500,
                crate::reply::BodyModel::Text("oidc begin failed"@),
            ),
        },
{
    let begun = client.begin();
    login_reply(begun)
}

/// What the provider sends the user back with.
#[derive(Debug)]
pub struct OidcCallbackQuery {
    pub code: Option<String>,
    pub state: Option<String>,
    pub error: Option<String>,
    pub error_description: Option<String>,
}

/// What to do with a user whom the provider has sent back.
#[derive(Debug)]
pub enum CallbackStep {
    Answer(Reply),
    /// Exchange the code for tokens, then call `finish_callback`.
    Exchange { code: String, state: AuthState },
}

/// What to do, in specifications.
pub ghost enum CallbackStepModel {
    Answer(crate::reply::ReplyModel),
    Exchange { code: Seq<char>, state: crate::oidc::AuthStateModel },
}

impl View for CallbackStep {
    type V = CallbackStepModel;

    open spec fn view(&self) -> CallbackStepModel {
        match self {
            CallbackStep::Answer(r) => CallbackStepModel::Answer(r@),
            CallbackStep::Exchange { code, state } => CallbackStepModel::Exchange {
                code: code@,
                state: state@,
            },
        }
    }
}

/// A refusal of a callback, in words.
pub open spec fn bad_callback(words: Seq<char>) -> CallbackStepModel {
    CallbackStepModel::Answer(crate::reply::plain(400, crate::reply::BodyModel::Text(words)))
}

/// The characters of an optional text, or none.
pub open spec fn or_empty(s: Option<Seq<char>>) -> Seq<char> {
    match s {
        Some(s) => s,
        None => Seq::empty(),
    }
}

/// What to do with a user whom the provider has sent back: the code is
/// exchanged only if the provider reports no error, and the state it returns
/// is that of the attempt which the user's cookie remembers.
pub open spec fn callback_step(q: OidcCallbackQuery, state_cookie: Option<Seq<char>>)
    -> CallbackStepModel {
    if q.error is Some {
        bad_callback(
            "oidc error: "@ + q.error->0@ + " "@ + or_empty(
                crate::text::opt_view(q.error_description),
            ),
        )
    } else if q.code is None {
        bad_callback("missing code"@)
    } else if state_cookie is None {
        bad_callback("missing auth state"@)
    } else {
        match crate::oidc::auth_state_from_json(state_cookie->0) {
            None => bad_callback("bad auth state"@),
            Some(state) => if state.csrf_token != or_empty(crate::text::opt_view(q.state)) {
                bad_callback("csrf mismatch"@)
            } else {
                CallbackStepModel::Exchange { code: q.code->0@, state }
            },
        }
    }
}

fn text_or_empty(s: Option<String>) -> (out: String)
    ensures
        out@ == or_empty(crate::text::opt_view(s)),
{
    match s {
        Some(s) => s,
        None => {
            let out = String::new();
            proof {
                assert(out@ =~= Seq::<char>::empty());
            }
            out
        },
    }
}

/// Decides what to do with a user whom the provider has sent back.
/// `state_cookie` is what the cookie of the attempt holds. An attempt that
/// `oidc_login` remembered is taken up again if the provider returns its
/// state.
pub fn oidc_callback(q: OidcCallbackQuery, state_cookie: &Option<String>) -> (step: CallbackStep)
    ensures
        step@ == callback_step(q, crate::text::opt_view(*state_cookie)),
        forall|s: crate::oidc::AuthStateModel|
            crate::text::opt_view(*state_cookie) == Some((#[trigger] auth_state_cookie(s)).value)
                && q.error is None && q.code is Some && crate::text::opt_view(q.state) == Some(
                s.csrf_token,
            ) ==> step@ == (CallbackStepModel::Exchange { code: q.code->0@, state: s }),
{
    if let Some(error) = q.error {
        let description = text_or_empty(q.error_description);
        let mut words = join3("oidc error: ", error.as_str(), " ");
        words.append(description.as_str());
        return CallbackStep::Answer(Reply::text(400, words.as_str()));
    }
    let code = match q.code {
        Some(code) => code,
        None => return CallbackStep::Answer(Reply::text(400, "missing code")),
    };
    let returned = text_or_empty(q.state);
    let cookie = match state_cookie {
        Some(cookie) => cookie,
        None => return CallbackStep::Answer(Reply::text(400, "missing auth state")),
    };
    let state = match AuthState::from_json(cookie.as_str()) {
        Some(state) => state,
        None => return CallbackStep::Answer(Reply::text(400, "bad auth state")),
    };
    if !same_text(state.csrf_token.as_str(), returned.as_str()) {
        return CallbackStep::Answer(Reply::text(400, "csrf mismatch"));
    }
    CallbackStep::Exchange { code, state }
}

/// The session of a user who got tokens at `now`.
pub open spec fn session_of_tokens(t: crate::oidc::TokensModel, now: i64)
    -> crate::session::SessionModel {
    crate::session::SessionModel {
        sub: t.sub,
        email: t.email,
        name: t.name,
        access_token: t.access_token,
        refresh_token: t.refresh_token,
        access_token_exp: (now + t.expires_in) as i64,
    }
}

/// The session of a user who got tokens at `now`.
pub fn new_session(tokens: Tokens, now: i64) -> (s: Session)
    requires
        i64::MIN <= now + tokens.expires_in <= i64::MAX,
    ensures
        s@ == session_of_tokens(tokens@, now),
{
    Session {
        sub: tokens.sub,
        email: tokens.email,
        name: tokens.name,
        access_token: tokens.access_token,
        refresh_token: tokens.refresh_token,
        access_token_exp: now + tokens.expires_in,
    }
}

/// Whether a cookie holds a session, sealed under a key and a nonce.
pub open spec fn is_session_cookie(
    c: crate::reply::CookieModel,
    s: crate::session::SessionModel,
    key: Seq<u8>,
    nonce: Seq<u8>,
) -> bool {
    &&& c == crate::reply::portal_cookie(COOKIE_NAME@, c.value, SESSION_AGE)
    &&& crate::session::is_sealed_session(c.value, s, key, nonce)
}

/// Whether a session is short enough to be sealed.
pub open spec fn can_be_sealed(s: crate::session::SessionModel) -> bool {
    crate::session::session_bytes(s).len() <= crate::crypto::MESSAGE_MAX
}

/// The cookie of a session, sealed under a given nonce; none if the session
/// is too long to be sealed.
pub fn session_cookie_with_nonce(session: &Session, key: &[u8; 32], nonce: &[u8]) -> (c: Option<
    Cookie,
>)
    requires
        nonce@.len() == 12,
    ensures
        match c {
            Some(c) => is_session_cookie(c@, session@, key@, nonce@) && can_be_sealed(session@),
            None => !can_be_sealed(session@),
        },
{
    match session.encrypt_with_nonce(key, nonce) {
        Ok(value) => Some(Cookie::new(COOKIE_NAME, value, SESSION_AGE)),
        Err(_) => None,
    }
}

/// The cookie of a session, sealed under a nonce drawn by chance; none if the
/// session is too long to be sealed.
pub fn session_cookie(session: &Session, key: &[u8; 32]) -> (c: Option<Cookie>)
    ensures
        match c {
            Some(c) => can_be_sealed(session@) && exists|nonce: Seq<u8>| #[trigger]
                is_session_cookie(c@, session@, key@, nonce),
            None => !can_be_sealed(session@),
        },
{
    let nonce = random_bytes(12);
    session_cookie_with_nonce(session, key, nonce.as_slice())
}

/// The answer to a user who is signed in now, with the cookie of the session.
pub open spec fn signed_in(cookie: Option<crate::reply::CookieModel>) -> crate::reply::ReplyModel {
    match cookie {
        Some(c) => crate::reply::ReplyModel {
            remove_cookie: Some(AUTH_STATE_COOKIE@),
            ..crate::reply::setting(crate::reply::redirect("/"@), Some(c))
        },
        None => crate::reply::plain(
            500,
            crate::reply::BodyModel::Text("session encrypt failed"@),
        ),
    }
}

/// The answer to a user whose code was exchanged, given the cookie of the
/// session that the tokens make.
fn signed_in_reply(cookie: Option<Cookie>) -> (r: Reply)
    ensures
        r@ == signed_in(crate::reply::cookie_view(cookie)),
{
    match cookie {
        Some(c) => {
            let mut r = Reply::redirect("/").setting(Some(c));
            r.remove_cookie = Some(AUTH_STATE_COOKIE);
            r
        },
        None => Reply::text(500, "session encrypt failed"),
    }
}

/// The answer when a code could not be exchanged.
pub open spec fn exchange_failed(e: crate::oidc::OidcFault) -> crate::reply::ReplyModel {
    crate::reply::plain(
        502,
        crate::reply::BodyModel::Text(
            "token exchange failed: "@ + crate::oidc::fault_message(e),
        ),
    )
}

fn exchange_failed_reply(e: &OidcError) -> (r: Reply)
    ensures
        r@ == exchange_failed(e@),
{
    let words = join2("token exchange failed: ", e.message().as_str());
    Reply::text(502, words.as_str())
}

/// A code is exchanged only for a user who brings back the attempt that the
/// cookie remembers.
pub proof fn exchange_needs_the_remembered_state(
    q: OidcCallbackQuery,
    state_cookie: Option<Seq<char>>,
)
    ensures
        callback_step(q, state_cookie) matches CallbackStepModel::Exchange { code, state } ==> {
            &&& state_cookie is Some
            &&& crate::oidc::auth_state_from_json(state_cookie->0) == Some(state)
            &&& or_empty(crate::text::opt_view(q.state)) == state.csrf_token
            &&& q.error is None
        },
{
}

/// Finishes a sign-in once the code has been exchanged, at `now`, with the
/// session sealed under a given nonce.
pub fn finish_callback_with_nonce(
    exchanged: Result<Tokens, OidcError>,
    now: i64,
    key: &[u8; 32],
    nonce: &[u8],
) -> (r: Reply)
    requires
        nonce@.len() == 12,
        exchanged is Ok ==> i64::MIN <= now + exchanged->Ok_0.expires_in <= i64::MAX,
    ensures
        match exchanged {
            Err(e) => r@ == exchange_failed(e@),
            Ok(t) => {
                let s = session_of_tokens(t@, now);
                if can_be_sealed(s) {
                    r@ == signed_in(r@.set_cookie) && r@.set_cookie is Some && is_session_cookie(
                        r@.set_cookie->0,
                        s,
                        key@,
                        nonce@,
                    )
                } else {
                    r@ == signed_in(None)
                }
            },
        },
{
    match exchanged {
        Err(e) => exchange_failed_reply(&e),
        Ok(tokens) => {
            let session = new_session(tokens, now);
            signed_in_reply(session_cookie_with_nonce(&session, key, nonce))
        },
    }
}

/// Whether an answer finishes a sign-in at `now`, given what came of the
/// exchange of the code.
pub open spec fn finishes_sign_in(
    r: crate::reply::ReplyModel,
    exchanged: Result<crate::oidc::TokensModel, crate::oidc::OidcFault>,
    now: i64,
    key: Seq<u8>,
) -> bool {
    match exchanged {
        Err(e) => r == exchange_failed(e),
        Ok(t) => {
            let s = session_of_tokens(t, now);
            if can_be_sealed(s) {
                r == signed_in(r.set_cookie) && r.set_cookie is Some && exists|nonce: Seq<u8>|
                    #[trigger]
                    is_session_cookie(r.set_cookie->0, s, key, nonce)
            } else {
                r == signed_in(None)
            }
        },
    }
}

/// Finishes a sign-in once the code has been exchanged, at `now`: the user
/// gets a session cookie and is sent to the file browser, and the attempt is
/// forgotten.
pub fn finish_callback(exchanged: Result<Tokens, OidcError>, now: i64, key: &[u8; 32]) -> (r: Reply)
    requires
        exchanged is Ok ==> i64::MIN <= now + exchanged->Ok_0.expires_in <= i64::MAX,
    ensures
        finishes_sign_in(r@, tokens_outcome(exchanged), now, key@),
        match exchanged {
            Err(e) => r@ == exchange_failed(e@),
            Ok(t) => {
                let s = session_of_tokens(t@, now);
                if can_be_sealed(s) {
                    r@ == signed_in(r@.set_cookie) && r@.set_cookie is Some && exists|
                        nonce: Seq<u8>,
                    | #[trigger]
                        is_session_cookie(r@.set_cookie->0, s, key@, nonce)
                } else {
                    r@ == signed_in(None)
                }
            },
        },
{
    let nonce = random_bytes(12);
    finish_callback_with_nonce(exchanged, now, key, nonce.as_slice())
}

/// The answer to a user who signs out.
pub open spec fn logged_out() -> crate::reply::ReplyModel {
    crate::reply::ReplyModel { remove_cookie: Some(COOKIE_NAME@), ..login_redirect() }
}

/// Signs the user out: the session cookie is removed.
pub fn oidc_logout() -> (r: Reply)
    ensures
        r@ == logged_out(),
        r@ == (crate::reply::ReplyModel {
            remove_cookie: Some(COOKIE_NAME@),
            ..login_redirect()
        }),
{
    let mut r = Reply::redirect("/oidc/login");
    r.remove_cookie = Some(COOKIE_NAME);
    r
}

/// How long before its end an access token is refreshed, in seconds.
pub const REFRESH_MARGIN: i64 = 60;

/// Whether the access token of a session has expired at `now`, or is about to.
pub open spec fn is_stale(s: crate::session::SessionModel, now: i64) -> bool {
    now >= s.access_token_exp - REFRESH_MARGIN
}

/// An expired access token is refreshed, and one that has more than the margin
/// to live is not.
pub proof fn staleness_follows_expiry(s: crate::session::SessionModel, now: i64)
    ensures
        now >= s.access_token_exp ==> is_stale(s, now),
        s.access_token_exp - now > REFRESH_MARGIN ==> !is_stale(s, now),
        s.access_token_exp - now <= REFRESH_MARGIN ==> is_stale(s, now),
{
}

/// A session renewed with tokens that outlive the margin is not refreshed again
/// at once.
pub proof fn renewed_session_is_fresh(t: crate::oidc::TokensModel, now: i64)
    requires
        t.expires_in > REFRESH_MARGIN,
        now + t.expires_in <= i64::MAX,
    ensures
        !is_stale(session_of_tokens(t, now), now),
{
}

/// The refresh token with which to renew a session at `now`: none if its
/// access token is still good, or if there is none to renew it with.
pub open spec fn refresh_asked(s: crate::session::SessionModel, now: i64) -> Option<Seq<char>> {
    if is_stale(s, now) {
        s.refresh_token
    } else {
        None
    }
}

/// The refresh token with which to renew a session at `now`, if it is to be
/// renewed.
pub fn refresh_needed(session: &Session, now: i64) -> (token: Option<String>)
    ensures
        crate::text::opt_view(token) == refresh_asked(session@, now),
{
    if (now as i128) < session.access_token_exp as i128 - REFRESH_MARGIN as i128 {
        return None;
    }
    match &session.refresh_token {
        Some(token) => Some(token.clone()),
        None => None,
    }
}

/// A session after an attempt at `now` to renew it.
pub open spec fn renewed(
    s: crate::session::SessionModel,
    refreshed: Result<crate::oidc::TokensModel, crate::oidc::OidcFault>,
    now: i64,
) -> crate::session::SessionModel {
    match refreshed {
        Ok(t) => session_of_tokens(t, now),
        Err(_) => s,
    }
}

/// The outcome of a refresh, in specifications.
pub open spec fn tokens_outcome(r: Result<Tokens, OidcError>) -> Result<
    crate::oidc::TokensModel,
    crate::oidc::OidcFault,
> {
    match r {
        Ok(t) => Ok(t@),
        Err(e) => Err(e@),
    }
}

/// The session to go on with after an attempt at `now` to renew one that was
/// recovered from a file token: the new one, or the old one if the provider
/// refused.
pub fn maybe_refresh_session_bare(
    session: Session,
    refreshed: Result<Tokens, OidcError>,
    now: i64,
) -> (s: Session)
    requires
        refreshed is Ok ==> i64::MIN <= now + refreshed->Ok_0.expires_in <= i64::MAX,
    ensures
        s@ == renewed(session@, tokens_outcome(refreshed), now),
{
    match refreshed {
        Ok(tokens) => new_session(tokens, now),
        Err(_) => session,
    }
}

/// Whether a session and a cookie are those to go on with after an attempt at
/// `now` to renew a session that came in a cookie.
pub open spec fn is_renewal(
    out: crate::session::SessionModel,
    cookie: Option<crate::reply::CookieModel>,
    s: crate::session::SessionModel,
    refreshed: Result<crate::oidc::TokensModel, crate::oidc::OidcFault>,
    now: i64,
    key: Seq<u8>,
) -> bool {
    &&& out == renewed(s, refreshed, now)
    &&& cookie is Some <==> refreshed is Ok && can_be_sealed(out)
    &&& cookie matches Some(c) ==> exists|nonce: Seq<u8>| #[trigger]
        is_session_cookie(c, out, key, nonce)
}

/// The session to go on with after an attempt at `now` to renew one that came
/// in a cookie, and the cookie to set: that of the new session, or none if the
/// provider refused.
pub fn maybe_refresh_session(
    session: Session,
    refreshed: Result<Tokens, OidcError>,
    now: i64,
    key: &[u8; 32],
) -> (out: (Session, Option<Cookie>))
    requires
        refreshed is Ok ==> i64::MIN <= now + refreshed->Ok_0.expires_in <= i64::MAX,
    ensures
        is_renewal(
            out.0@,
            crate::reply::cookie_view(out.1),
            session@,
            tokens_outcome(refreshed),
            now,
            key@,
        ),
        out.0@ == renewed(session@, tokens_outcome(refreshed), now),
        match out.1 {
            Some(c) => refreshed is Ok && can_be_sealed(out.0@) && exists|nonce: Seq<u8>| #[trigger]
                is_session_cookie(c@, out.0@, key@, nonce),
            None => refreshed is Err || !can_be_sealed(out.0@),
        },
{
    let is_new = refreshed.is_ok();
    let session = maybe_refresh_session_bare(session, refreshed, now);
    let cookie = if is_new {
        session_cookie(&session, key)
    } else {
        None
    };
    proof {
        if cookie is Some {
            let nonce = choose|nonce: Seq<u8>| #[trigger]
                is_session_cookie(cookie->0@, session@, key@, nonce);
            assert(crate::reply::cookie_view(cookie) == Some(cookie->0@));
            assert(is_session_cookie(
                crate::reply::cookie_view(cookie)->0,
                session@,
                key@,
                nonce,
            ));
        }
    }
    (session, cookie)
}

} // verus!
