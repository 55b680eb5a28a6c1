//! What the document server asks of the portal: to fetch a file, and to save
//! one. Each request carries a file token in its address.

use crate::config::Config;
use crate::dav::{DavError, DavOp, DavRequest};
use crate::file_jwt::{verify, Action, FileClaims, FileJwtError};
use crate::files::{dav_client_for, go_on, Access};
use crate::json::JsonValue;
use crate::metrics::CallbackLabels;
use crate::onlyoffice::{Callback, CallbackStatus};
use crate::reply::{Body, Reply};
use crate::session::Session;
use crate::text::join2;
use vstd::prelude::*;

verus! {

/// The media type that `mime_guess` finds for a path.
pub uninterp spec fn media_type_of(path: Seq<char>) -> Seq<char>;

/// `mime_guess::from_path` and `first_or_octet_stream`: the media type that the
/// extension of the path stands for, a function of the path. The path is read
/// as one of Unix.
#[verifier::external_body]
pub(crate) fn guess_media_type(path: &str) -> (out: String)
    ensures
        out@ == media_type_of(path@),
{
    mime_guess::from_path(path).first_or_octet_stream().as_ref().to_owned()
}

/// Whether a request with a file token may go on, and with what.
#[derive(Debug)]
pub enum TokenAccess {
    Denied,
    Granted { path: String, access: Access },
}

/// Whether a request with a file token may go on, in specifications.
pub ghost enum TokenAccessModel {
    Denied,
    Granted { path: Seq<char>, access: crate::files::AccessModel },
}

impl View for TokenAccess {
    type V = TokenAccessModel;

    open spec fn view(&self) -> TokenAccessModel {
        match self {
            TokenAccess::Denied => TokenAccessModel::Denied,
            TokenAccess::Granted { path, access } => TokenAccessModel::Granted {
                path: path@,
                access: access@,
            },
        }
    }
}

/// How a request goes on at `now`, given what its token grants.
pub open spec fn token_access(
    verified: Result<
        (crate::file_jwt::FileClaimsModel, crate::session::SessionModel),
        crate::file_jwt::FileJwtFault,
    >,
    now: i64,
) -> TokenAccessModel {
    match verified {
        Err(_) => TokenAccessModel::Denied,
        Ok((claims, session)) => TokenAccessModel::Granted {
            path: claims.path,
            access: crate::files::going_on(session, now),
        },
    }
}

/// Decides how a request goes on at `now`, given what its token grants.
pub fn access_for(verified: Result<(FileClaims, Session), FileJwtError>, now: i64) -> (a: TokenAccess)
    ensures
        a@ == token_access(crate::file_jwt::outcome(verified), now),
{
    match verified {
        Err(_) => TokenAccess::Denied,
        Ok((claims, session)) => TokenAccess::Granted {
            path: claims.path,
            access: go_on(session, now),
        },
    }
}

/// Whether a request with a token goes on at `now` as the token allows. `clock`
/// is the time at which the date of the token was looked at.
pub open spec fn follows_token_at(
    a: TokenAccessModel,
    token: Seq<char>,
    action: Action,
    c: crate::config::ConfigModel,
    now: i64,
    clock: u64,
) -> bool {
    exists|
        outcome: Result<
            (crate::file_jwt::FileClaimsModel, crate::session::SessionModel),
            crate::file_jwt::FileJwtFault,
        >,
    |
        a == token_access(outcome, now) && #[trigger] crate::file_jwt::is_granted_at(
            outcome,
            token,
            action,
            c.file_jwt_key,
            c.session_key,
            clock,
        )
}

/// Whether a request with a token goes on at `now` as the token allows. Only a
/// token that the portal signed, for the same action, lets it go on.
pub open spec fn follows_token(
    a: TokenAccessModel,
    token: Seq<char>,
    action: Action,
    c: crate::config::ConfigModel,
    now: i64,
) -> bool {
    exists|clock: u64| #[trigger] follows_token_at(a, token, action, c, now, clock)
}

/// A token of the portal lets a request go on with the path and the session it
/// was minted for, if and only if it is in date and for the same action.
pub proof fn minted_token_opens_its_file(
    a: TokenAccessModel,
    token: Seq<char>,
    action: Action,
    c: crate::config::ConfigModel,
    now: i64,
    clock: u64,
    claims: crate::file_jwt::FileClaimsModel,
    s: crate::session::SessionModel,
    nonce: Seq<u8>,
)
    requires
        follows_token_at(a, token, action, c, now, clock),
        token == crate::file_jwt::claims_token(claims, c.file_jwt_key),
        crate::session::is_sealed_session(claims.session_enc, s, c.session_key, nonce),
    ensures
        a == (if crate::file_jwt::is_expired(claims, clock) || claims.action != action {
            TokenAccessModel::Denied
        } else {
            TokenAccessModel::Granted {
                path: claims.path,
                access: crate::files::going_on(s, now),
            }
        }),
{
    let outcome = choose|
        outcome: Result<
            (crate::file_jwt::FileClaimsModel, crate::session::SessionModel),
            crate::file_jwt::FileJwtFault,
        >,
    |
        a == token_access(outcome, now) && #[trigger] crate::file_jwt::is_granted_at(
            outcome,
            token,
            action,
            c.file_jwt_key,
            c.session_key,
            clock,
        );
    assert(crate::file_jwt::claims_outcome(claims, action, c.session_key, clock, outcome));
}

/// What is asked of the provider before a request goes on: a refresh token to
/// exchange, or nothing.
pub open spec fn exchanged_first(a: crate::files::AccessModel) -> Option<Seq<char>> {
    match a {
        crate::files::AccessModel::Refresh { token, .. } => Some(token),
        _ => None,
    }
}

/// The session with which a request goes on, where `refreshed` is the reply to
/// what was asked of the provider.
pub open spec fn session_used(
    a: crate::files::AccessModel,
    refreshed: Result<crate::oidc::TokensModel, crate::oidc::OidcFault>,
    now: i64,
) -> Option<crate::session::SessionModel> {
    match a {
        crate::files::AccessModel::Denied(_) => None,
        crate::files::AccessModel::Ready(s) => Some(s),
        crate::files::AccessModel::Refresh { session, .. } => Some(
            crate::signin::renewed(session, refreshed, now),
        ),
    }
}

/// A session is refreshed alike whether it came in a cookie or in a file token:
/// the same is asked of the provider, namely nothing while the access token
/// has more than the margin to live or where there is no refresh token, and
/// the same reply gives the same session to go on with.
pub proof fn cookie_and_token_refresh_alike(
    s: crate::session::SessionModel,
    claims: crate::file_jwt::FileClaimsModel,
    cookie: Option<Seq<char>>,
    key: Seq<u8>,
    denial: crate::reply::ReplyModel,
    refreshed: Result<crate::oidc::TokensModel, crate::oidc::OidcFault>,
    now: i64,
)
    requires
        crate::signin::session_in_cookie(cookie, key) == Some(s),
    ensures
        ({
            let in_cookie = crate::files::access_of(cookie, key, now, denial);
            let verified = Ok::<_, crate::file_jwt::FileJwtFault>((claims, s));
            &&& token_access(verified, now) matches TokenAccessModel::Granted {
                access: in_token,
                ..
            }
            &&& exchanged_first(in_cookie) == exchanged_first(in_token)
            &&& session_used(in_cookie, refreshed, now) == session_used(in_token, refreshed, now)
            &&& now < s.access_token_exp - crate::signin::REFRESH_MARGIN || s.refresh_token is None
                ==> exchanged_first(in_token) is None && session_used(in_token, refreshed, now)
                == Some(s)
            &&& now >= s.access_token_exp - crate::signin::REFRESH_MARGIN && s.refresh_token
                is Some ==> exchanged_first(in_token) == s.refresh_token && session_used(
                in_token,
                refreshed,
                now,
            ) == Some(crate::signin::renewed(s, refreshed, now))
        }),
{
}

fn access_with_token(token: &str, action: Action, config: &Config, now: i64) -> (a: TokenAccess)
    ensures
        follows_token(a@, token@, action, config@, now),
{
    let verified = verify(token, action, &config.file_jwt_key, &config.session_key);
    let ghost outcome = crate::file_jwt::outcome(verified);
    let a = access_for(verified, now);
    proof {
        let clock = choose|clock: u64| #[trigger]
            crate::file_jwt::is_granted_at(
                outcome,
                token@,
                action,
                config.file_jwt_key@,
                config.session_key@,
                clock,
            );
        assert(config@.session_key == config.session_key@);
        assert(config@.file_jwt_key == config.file_jwt_key@);
        assert(follows_token_at(a@, token@, action, config@, now, clock));
    }
    a
}

/// Whether a request to fetch a file goes on at `now` as its token allows.
pub open spec fn may_read(
    a: TokenAccessModel,
    token: Seq<char>,
    c: crate::config::ConfigModel,
    now: i64,
) -> bool {
    follows_token(a, token, Action::Read, c, now)
}

/// Whether a callback goes on at `now` as its token allows.
pub open spec fn may_save(
    a: TokenAccessModel,
    token: Seq<char>,
    c: crate::config::ConfigModel,
    now: i64,
) -> bool {
    follows_token(a, token, Action::Write, c, now)
}

/// Decides how a request to fetch a file goes on at `now`. One that is denied
/// is answered with `download_denied`.
pub fn file_get(token: &str, config: &Config, now: i64) -> (a: TokenAccess)
    ensures
        may_read(a@, token@, config@, now),
        follows_token(a@, token@, Action::Read, config@, now),
{
    access_with_token(token, Action::Read, config, now)
}

/// The answer to a request to fetch a file without the right to.
pub open spec fn denied_download() -> crate::reply::ReplyModel {
    crate::reply::plain(403, crate::reply::BodyModel::Empty)
}

/// The answer to a request to fetch a file without the right to.
pub fn download_denied() -> (r: Reply)
    ensures
        r@ == denied_download(),
        r@ == crate::reply::plain(403, crate::reply::BodyModel::Empty),
{
    Reply::plain(403, Body::Empty)
}

/// The answer when the file could not be had from the WebDAV server.
pub open spec fn download_failure(e: crate::dav::DavFault) -> crate::reply::ReplyModel {
    crate::files::gateway_failure("dav get: "@, e)
}

fn download_failure_reply(e: &DavError) -> (r: Reply)
    ensures
        r@ == download_failure(e@),
{
    Reply::text(502, join2("dav get: ", e.message().as_str()).as_str())
}

/// The request for a file, or the answer if there can be none.
pub open spec fn download_asked(
    c: crate::config::ConfigModel,
    s: crate::session::SessionModel,
    path: Seq<char>,
) -> Result<crate::dav::RequestModel, crate::reply::ReplyModel> {
    match crate::files::client_for(c, s) {
        Err(r) => Err(r),
        Ok(client) => match crate::dav::requested(
            client,
            "GET"@,
            path,
            seq![crate::dav::authorization(client)],
            Seq::empty(),
        ) {
            Err(e) => Err(download_failure(e)),
            Ok(q) => Ok(q),
        },
    }
}

/// The request for a file, or the answer if there can be none.
pub fn download_request(config: &Config, session: &Session, path: &str) -> (r: Result<
    DavRequest,
    Reply,
>)
    ensures
        match r {
            Ok(q) => download_asked(config@, session@, path@) == Ok::<
                _,
                crate::reply::ReplyModel,
            >(q@),
            Err(a) => download_asked(config@, session@, path@) == Err::<
                crate::dav::RequestModel,
                _,
            >(a@),
        },
        r is Ok ==> crate::dav::is_confined(
            crate::files::client_for(config@, session@)->Ok_0,
            r->Ok_0.url@,
        ),
{
    let client = match dav_client_for(config, session) {
        Ok(client) => client,
        Err(r) => return Err(r),
    };
    match client.get(path) {
        Ok(q) => Ok(q),
        Err(e) => Err(download_failure_reply(&e)),
    }
}

/// The answer to a download that the WebDAV server did not grant; none if it
/// did grant it.
pub open spec fn download_refused(sent: Result<(u16, Seq<char>), Seq<char>>) -> Option<
    crate::reply::ReplyModel,
> {
    match sent {
        Err(e) => Some(download_failure(crate::dav::DavFault::Http(e))),
        Ok((status, body)) => if crate::dav::accepted(DavOp::Get, status) {
            None
        } else {
            Some(download_failure(crate::dav::DavFault::Status(status, body)))
        },
    }
}

/// The answer to a download that the WebDAV server did not grant: it said so
/// with a status and a body, or could not be asked. None if it did grant it.
pub fn download_refusal(sent: Result<(u16, String), String>) -> (r: Option<Reply>)
    ensures
        match r {
            Some(a) => download_refused(crate::files::sent_view(sent)) == Some(a@),
            None => download_refused(crate::files::sent_view(sent)) is None,
        },
        match r {
            Some(a) => a@ == match sent {
                Err(e) => download_failure(crate::dav::DavFault::Http(e@)),
                Ok((status, body)) => download_failure(
                    crate::dav::DavFault::Status(status, body@),
                ),
            } && (sent is Ok ==> !crate::dav::accepted(DavOp::Get, sent->Ok_0.0)),
            None => sent is Ok && crate::dav::accepted(DavOp::Get, sent->Ok_0.0),
        },
{
    match sent {
        Err(e) => Some(download_failure_reply(&DavError::Http(e))),
        Ok((status, body)) => match DavOp::Get.reply(status, body) {
            Ok(_) => None,
            Err(e) => Some(download_failure_reply(&e)),
        },
    }
}

/// The media type of a download: that which the WebDAV server gives, or that
/// which the path suggests.
pub open spec fn download_type(given: Option<Seq<u8>>, path: Seq<char>) -> Seq<u8> {
    match given {
        Some(t) => t,
        None => vstd::utf8::encode_utf8(media_type_of(path)),
    }
}

/// The media type of a download. `given` is that which the WebDAV server
/// gives.
pub fn download_media_type(given: Option<Vec<u8>>, path: &str) -> (out: Vec<u8>)
    ensures
        out@ == download_type(
            match given {
                Some(t) => Some(t@),
                None => None,
            },
            path@,
        ),
{
    match given {
        Some(t) => t,
        None => vstd::slice::slice_to_vec(guess_media_type(path).as_str().as_bytes()),
    }
}

/// What the document server is answered about a save.
#[derive(Debug)]
pub struct OoCallbackResponse {
    /// 0 if all is well.
    pub error: i32,
}

/// An answer about a save as a JSON value.
pub open spec fn response_json(error: int) -> crate::json::Json {
    crate::json::Json::Object(seq![("error"@, crate::json::Json::Int(error))])
}

impl OoCallbackResponse {
    /// The answer as JSON.
    pub fn to_json(&self) -> (v: JsonValue)
        ensures
            v@ == response_json(self.error as int),
    {
        let members: Vec<(String, JsonValue)> = vec![
            ("error".to_owned(), JsonValue::signed(self.error as i64)),
        ];
        proof {
            assert(crate::json::member_values(members@) =~= response_json(
                self.error as int,
            )->Object_0);
        }
        JsonValue::object(members)
    }
}

/// The answer to a callback, and how it is counted.
#[derive(Debug)]
pub struct CallbackAnswer {
    pub reply: Reply,
    pub labels: CallbackLabels,
}

/// The answer to a callback, in specifications.
pub ghost struct CallbackAnswerModel {
    pub reply: crate::reply::ReplyModel,
    pub result: Seq<char>,
}

impl View for CallbackAnswer {
    type V = CallbackAnswerModel;

    open spec fn view(&self) -> CallbackAnswerModel {
        CallbackAnswerModel { reply: self.reply@, result: self.labels.result@ }
    }
}

/// The answer to a callback: a status and an error code, and how it is
/// counted.
pub open spec fn answered(status: u16, error: int, result: Seq<char>) -> CallbackAnswerModel {
    CallbackAnswerModel {
        reply: crate::reply::plain(
            status,
            crate::reply::BodyModel::Json(crate::json::json_text(response_json(error))),
        ),
        result,
    }
}

fn answer(status: u16, error: i32, result: &'static str) -> (a: CallbackAnswer)
    ensures
        a@ == answered(status, error as int, result@),
{
    let json = OoCallbackResponse { error }.to_json();
    CallbackAnswer {
        reply: Reply::plain(status, Body::Json(json.as_str().to_owned())),
        labels: CallbackLabels { result },
    }
}

/// Decides how a callback goes on at `now`. One that is denied is answered
/// with `callback_denied`.
pub fn file_callback(token: &str, config: &Config, now: i64) -> (a: TokenAccess)
    ensures
        may_save(a@, token@, config@, now),
        follows_token(a@, token@, Action::Write, config@, now),
{
    access_with_token(token, Action::Write, config, now)
}

/// The answer to a callback without the right to save.
pub open spec fn denied_callback() -> CallbackAnswerModel {
    answered(403, 1, "jwt_error"@)
}

/// The answer to a callback without the right to save.
pub fn callback_denied() -> (a: CallbackAnswer)
    ensures
        a@ == denied_callback(),
        a@ == answered(403, 1, "jwt_error"@),
{
    answer(403, 1, "jwt_error")
}

/// What to do about a callback.
#[derive(Debug)]
pub enum SaveStep {
    Answer(CallbackAnswer),
    /// Fetch the document, then call `store_fetched`.
    Fetch(String),
    /// Send the request, then call `finish_save`.
    Send(DavRequest),
}

/// What to do about a callback, in specifications.
pub ghost enum SaveStepModel {
    Answer(CallbackAnswerModel),
    Fetch(Seq<char>),
    Send(crate::dav::RequestModel),
}

impl View for SaveStep {
    type V = SaveStepModel;

    open spec fn view(&self) -> SaveStepModel {
        match self {
            SaveStep::Answer(a) => SaveStepModel::Answer(a@),
            SaveStep::Fetch(url) => SaveStepModel::Fetch(url@),
            SaveStep::Send(q) => SaveStepModel::Send(q@),
        }
    }
}

/// Whether a document is to be saved when its status is this.
pub open spec fn is_to_be_saved(status: CallbackStatus) -> bool {
    status is ReadyToSave || status is Forcesave
}

/// What to do about a callback that may save: the document is fetched if it is
/// ready or saved by force, and nothing is done otherwise.
pub open spec fn save_planned(status: i64, url: Option<Seq<char>>) -> SaveStepModel {
    if is_to_be_saved(crate::onlyoffice::status_of(status)) {
        match url {
            Some(url) => SaveStepModel::Fetch(url),
            None => SaveStepModel::Answer(answered(200, 1, "missing_url"@)),
        }
    } else {
        SaveStepModel::Answer(answered(200, 0, "noop"@))
    }
}

/// Decides what to do about a callback that may save.
pub fn plan_save(cb: &Callback) -> (step: SaveStep)
    ensures
        step@ == save_planned(cb.status, crate::text::opt_view(cb.url)),
{
    match cb.status_enum() {
        CallbackStatus::ReadyToSave | CallbackStatus::Forcesave => match &cb.url {
            Some(url) => SaveStep::Fetch(url.clone()),
            None => SaveStep::Answer(answer(200, 1, "missing_url")),
        },
        _ => SaveStep::Answer(answer(200, 0, "noop")),
    }
}

/// What came of fetching a document.
#[derive(Debug)]
pub struct Fetched {
    pub status: u16,
    /// The document; none if it could not be read to its end.
    pub body: Option<Vec<u8>>,
}

/// The document that was fetched, if one was.
pub open spec fn fetched_document(fetched: Option<Fetched>) -> Option<Seq<u8>> {
    match fetched {
        Some(f) => if crate::oidc::is_success(f.status) && f.body is Some {
            Some(f.body->0@)
        } else {
            None
        },
        None => None,
    }
}

/// What to do once the document has been fetched: it is stored at the path of
/// the token.
pub open spec fn store_planned(
    c: crate::config::ConfigModel,
    s: crate::session::SessionModel,
    path: Seq<char>,
    document: Option<Seq<u8>>,
) -> SaveStepModel {
    match document {
        None => SaveStepModel::Answer(answered(200, 1, "fetch_error"@)),
        Some(bytes) => match crate::files::client_for(c, s) {
            Err(_) => SaveStepModel::Answer(answered(200, 1, "dav_error"@)),
            Ok(client) => match crate::dav::requested(
                client,
                "PUT"@,
                path,
                seq![crate::dav::authorization(client)],
                bytes,
            ) {
                Err(_) => SaveStepModel::Answer(answered(200, 1, "dav_error"@)),
                Ok(q) => SaveStepModel::Send(q),
            },
        },
    }
}

/// Decides what to do once an attempt has been made to fetch the document.
/// `fetched` is none if no answer came.
pub fn store_fetched(config: &Config, session: &Session, path: &str, fetched: Option<Fetched>)
    -> (step: SaveStep)
    ensures
        step@ == store_planned(config@, session@, path@, fetched_document(fetched)),
        step is Send ==> crate::dav::is_confined(
            crate::files::client_for(config@, session@)->Ok_0,
            step->Send_0.url@,
        ),
{
    let bytes = match fetched {
        Some(f) if 200 <= f.status && f.status <= 299 => match f.body {
            Some(bytes) => bytes,
            None => return SaveStep::Answer(answer(200, 1, "fetch_error")),
        },
        _ => return SaveStep::Answer(answer(200, 1, "fetch_error")),
    };
    let client = match dav_client_for(config, session) {
        Ok(client) => client,
        Err(_) => return SaveStep::Answer(answer(200, 1, "dav_error")),
    };
    match client.put_bytes(path, bytes) {
        Ok(q) => SaveStep::Send(q),
        Err(_) => SaveStep::Answer(answer(200, 1, "dav_error")),
    }
}

/// Whether the WebDAV server has stored the document.
pub open spec fn is_stored(sent: Result<(u16, String), String>) -> bool {
    sent is Ok && crate::dav::accepted(DavOp::Put, sent->Ok_0.0)
}

/// The answer to a callback once the document has been sent to the WebDAV
/// server.
pub open spec fn save_answered(sent: Result<(u16, Seq<char>), Seq<char>>) -> CallbackAnswerModel {
    match sent {
        Ok((status, _)) if crate::dav::accepted(DavOp::Put, status) => answered(200, 0, "saved"@),
        _ => answered(200, 1, "dav_error"@),
    }
}

/// Answers a callback once the document has been sent to the WebDAV server.
pub fn finish_save(sent: Result<(u16, String), String>) -> (a: CallbackAnswer)
    ensures
        a@ == save_answered(crate::files::sent_view(sent)),
        a@ == (if is_stored(sent) {
            answered(200, 0, "saved"@)
        } else {
            answered(200, 1, "dav_error"@)
        }),
{
    match sent {
        Ok((status, _)) if DavOp::Put.accepts(status) => answer(200, 0, "saved"),
        _ => answer(200, 1, "dav_error"),
    }
}

/// No callback stores anything but a document that OnlyOffice reports as ready
/// or as saved by force.
pub proof fn only_ready_documents_are_fetched(status: i64, url: Option<Seq<char>>)
    ensures
        save_planned(status, url) is Fetch <==> (status == 2 || status == 6) && url is Some,
        save_planned(status, url) !is Send,
{
}

} // verus!
