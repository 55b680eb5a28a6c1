//! That what is said of values in specifications is said of the values
//! themselves: each field of a view is the field of that name.

use crate::config::{Config, ConfigError, ConfigFault};
use crate::dav::{DavEntry, DavError, DavFault, DavRequest, Listing, RawEntry};
use crate::docserver::{
    CallbackAnswer, SaveStep, SaveStepModel, TokenAccess, TokenAccessModel,
};
use crate::file_jwt::{FileClaims, FileJwtError, FileJwtFault, JwtError, JwtFault};
use crate::files::{
    Access, AccessModel, FileOp, FileOpModel, FileStep, FileStepModel, UploadEnd, UploadEndModel,
    UploadStep, UploadStepModel,
};
use crate::oidc::{
    AuthState, Discovery, IdTokenClaimsRaw, OidcError, OidcFault, TokenRequest, TokenResponse,
    Tokens,
};
use crate::reply::{Body, BodyModel, Cookie, Reply};
use crate::session::{Session, SessionError, SessionFault};
use crate::signin::{CallbackStep, CallbackStepModel};
use vstd::prelude::*;

verus! {

/// Whether an optional text is seen as it is.
pub open spec fn is_seen(o: Option<String>, v: Option<Seq<char>>) -> bool {
    match o {
        Some(s) => v == Some(s@),
        None => v is None,
    }
}

/// Whether pairs of texts are seen as they are, in order.
pub open spec fn are_seen(pairs: Seq<(String, String)>, v: Seq<(Seq<char>, Seq<char>)>) -> bool {
    &&& v.len() == pairs.len()
    &&& forall|i: int| 0 <= i < v.len() ==> #[trigger] v[i] == (pairs[i].0@, pairs[i].1@)
}

/// Texts, optional ones and pairs of them are seen as they are.
pub proof fn texts_are_seen(o: Option<String>, ts: Seq<String>, ps: Seq<(String, String)>)
    ensures
        is_seen(o, crate::text::opt_view(o)),
        crate::text::texts(ts).len() == ts.len(),
        forall|i: int| 0 <= i < ts.len() ==> (#[trigger] crate::text::texts(ts)[i]) == ts[i]@,
        are_seen(ps, crate::json::pair_texts(ps)),
{
}

/// A session is seen field by field.
pub proof fn sessions_are_seen(s: Session)
    ensures
        s@.sub == s.sub@,
        s@.email == s.email@,
        is_seen(s.name, s@.name),
        s@.access_token == s.access_token@,
        is_seen(s.refresh_token, s@.refresh_token),
        s@.access_token_exp == s.access_token_exp,
        crate::signin::session_view(Some(s)) == Some(s@),
        crate::signin::session_view(None) is None,
{
}

/// Tokens, and what they are read from, are seen field by field.
pub proof fn tokens_are_seen(t: Tokens, r: TokenResponse, c: IdTokenClaimsRaw, e: OidcError, w: String)
    ensures
        t@.access_token == t.access_token@,
        is_seen(t.refresh_token, t@.refresh_token),
        t@.expires_in == t.expires_in,
        t@.sub == t.sub@,
        t@.email == t.email@,
        is_seen(t.name, t@.name),
        r@.access_token == r.access_token@,
        is_seen(r.refresh_token, r@.refresh_token),
        r@.expires_in == r.expires_in,
        r@.id_token == r.id_token@,
        c@.sub == c.sub@,
        is_seen(c.email, c@.email),
        is_seen(c.name, c@.name),
        crate::oidc::response_outcome(Ok::<_, String>(r)) == Ok::<_, Seq<char>>(r@),
        crate::oidc::response_outcome(Err::<TokenResponse, _>(w)) == Err::<
            crate::oidc::TokenResponseModel,
            _,
        >(w@),
        crate::oidc::claims_outcome(Ok::<_, String>(c)) == Ok::<_, Seq<char>>(c@),
        crate::oidc::claims_outcome(Err::<IdTokenClaimsRaw, _>(w)) == Err::<
            crate::oidc::IdTokenModel,
            _,
        >(w@),
        crate::signin::tokens_outcome(Ok::<_, OidcError>(t)) == Ok::<_, OidcFault>(t@),
        crate::signin::tokens_outcome(Err::<Tokens, _>(e)) == Err::<
            crate::oidc::TokensModel,
            _,
        >(e@),
{
}

/// What passes between the portal and its provider is seen field by field.
pub proof fn sign_ins_are_seen(a: AuthState, d: Discovery, q: TokenRequest)
    ensures
        a@.csrf_token == a.csrf_token@,
        a@.nonce == a.nonce@,
        a@.pkce_verifier == a.pkce_verifier@,
        d@.issuer == d.issuer@,
        d@.authorization_endpoint == d.authorization_endpoint@,
        d@.token_endpoint == d.token_endpoint@,
        is_seen(d.userinfo_endpoint, d@.userinfo_endpoint),
        is_seen(d.jwks_uri, d@.jwks_uri),
        q@.url == q.url@,
        q@.user == q.user@,
        q@.password == q.password@,
        are_seen(q.form@, q@.form),
{
}

/// Claims of a file token are seen field by field.
pub proof fn claims_are_seen(c: FileClaims, s: Session, e: FileJwtError)
    ensures
        c@.sub == c.sub@,
        c@.email == c.email@,
        c@.path == c.path@,
        c@.action == c.action,
        c@.session_enc == c.session_enc@,
        c@.exp == c.exp,
        c@.iat == c.iat,
        crate::file_jwt::outcome(Ok::<_, FileJwtError>((c, s))) == Ok::<_, FileJwtFault>((c@, s@)),
        crate::file_jwt::outcome(Err::<(FileClaims, Session), _>(e)) == Err::<
            (crate::file_jwt::FileClaimsModel, crate::session::SessionModel),
            _,
        >(e@),
{
}

/// A configuration is seen field by field.
pub proof fn configurations_are_seen(c: Config)
    ensures
        c@.bind == c.bind@,
        c@.metrics_bind == c.metrics_bind@,
        c@.public_base_url == c.public_base_url@,
        c@.oidc_issuer == c.oidc_issuer@,
        c@.oidc_client_id == c.oidc_client_id@,
        c@.oidc_client_secret == c.oidc_client_secret@,
        c@.oo_document_server_url == c.oo_document_server_url@,
        c@.oo_jwt_secret == c.oo_jwt_secret@,
        c@.file_jwt_key == c.file_jwt_key@,
        c@.session_key == c.session_key@,
        c@.dav_base_url_template == c.dav_base_url_template@,
{
}

/// Entries, and what they are read from, are seen field by field.
pub proof fn entries_are_seen(e: DavEntry, r: RawEntry, l: Listing)
    ensures
        e@.path == e.path@,
        e@.name == e.name@,
        e@.is_collection == e.is_collection,
        e@.size == e.size,
        is_seen(e.content_type, e@.content_type),
        is_seen(e.last_modified, e@.last_modified),
        r@.href == r.href@,
        is_seen(r.displayname, r@.displayname),
        r@.is_collection == r.is_collection,
        r@.size == r.size,
        is_seen(r.content_type, r@.content_type),
        is_seen(r.last_modified, r@.last_modified),
        l@.entries.len() == l.entries@.len(),
        forall|i: int| 0 <= i < l.entries@.len() ==> (#[trigger] l@.entries[i]) == l.entries@[i]@,
{
}

/// Requests and answers are seen field by field.
pub proof fn messages_are_seen(q: DavRequest, r: Reply, c: Cookie, s: String)
    ensures
        q@.method == q.method@,
        q@.url == q.url@,
        are_seen(q.headers@, q@.headers),
        q@.body == q.body@,
        r@.status == r.status,
        r@.body == r.body@,
        r@.set_cookie == crate::reply::cookie_view(r.set_cookie),
        r.remove_cookie matches Some(n) ==> r@.remove_cookie == Some(n@),
        r.remove_cookie is None ==> r@.remove_cookie is None,
        crate::reply::cookie_view(Some(c)) == Some(c@),
        crate::reply::cookie_view(None) is None,
        c@.name == c.name@,
        c@.value == c.value@,
        c@.path == c.path@,
        c@.http_only == c.http_only,
        c@.secure == c.secure,
        c@.same_site_lax == c.same_site_lax,
        c@.max_age_secs == c.max_age_secs,
        Body::Empty@ == BodyModel::Empty,
        Body::Text(s)@ == BodyModel::Text(s@),
        Body::Html(s)@ == BodyModel::Html(s@),
        Body::Json(s)@ == BodyModel::Json(s@),
        Body::Redirect(s)@ == BodyModel::Redirect(s@),
{
}

/// What the file browser asks for, and what is to be done about it, is seen as
/// it is.
pub proof fn operations_are_seen(
    path: String,
    to: String,
    f: FileStep,
    u: UploadStep,
    e: UploadEnd,
    status: u16,
)
    ensures
        (FileOp::List { path })@ == (FileOpModel::List { path: path@ }),
        (FileOp::Mkdir { path })@ == (FileOpModel::Mkdir { path: path@ }),
        (FileOp::Rename { from: path, to })@ == (FileOpModel::Rename { from: path@, to: to@ }),
        (FileOp::Delete { path })@ == (FileOpModel::Delete { path: path@ }),
        f matches FileStep::Answer(r) ==> f@ == FileStepModel::Answer(r@),
        f matches FileStep::Send { client, request, cookie } ==> f@ == (FileStepModel::Send {
            client: client@,
            request: request@,
            cookie: crate::reply::cookie_view(cookie),
        }),
        u is Next ==> u@ is Next,
        u matches UploadStep::Send(q) ==> u@ == UploadStepModel::Send(q@),
        u matches UploadStep::Stop(end) ==> u@ == UploadStepModel::Stop(end@),
        e is Done ==> e@ is Done,
        e matches UploadEnd::Unreadable(w) ==> e@ == UploadEndModel::Unreadable(w@),
        e matches UploadEnd::Failed(w) ==> e@ == UploadEndModel::Failed(w@),
        crate::files::sent_view(Ok::<_, String>((status, path))) == Ok::<_, Seq<char>>(
            (status, path@),
        ),
        crate::files::sent_view(Err::<(u16, String), _>(path)) == Err::<(u16, Seq<char>), _>(path@),
{
}

/// Whether a request may go on, and what is to be done, is seen as it is.
pub proof fn decisions_are_seen(
    a: Access,
    t: TokenAccess,
    s: SaveStep,
    c: CallbackAnswer,
    p: CallbackStep,
)
    ensures
        a matches Access::Denied(r) ==> a@ == AccessModel::Denied(r@),
        a matches Access::Ready(x) ==> a@ == AccessModel::Ready(x@),
        a matches Access::Refresh { session, token } ==> a@ == (AccessModel::Refresh {
            session: session@,
            token: token@,
        }),
        t is Denied ==> t@ is Denied,
        t matches TokenAccess::Granted { path, access } ==> t@ == (TokenAccessModel::Granted {
            path: path@,
            access: access@,
        }),
        s matches SaveStep::Answer(x) ==> s@ == SaveStepModel::Answer(x@),
        s matches SaveStep::Fetch(x) ==> s@ == SaveStepModel::Fetch(x@),
        s matches SaveStep::Send(x) ==> s@ == SaveStepModel::Send(x@),
        c@.reply == c.reply@,
        c@.result == c.labels.result@,
        p matches CallbackStep::Answer(r) ==> p@ == CallbackStepModel::Answer(r@),
        p matches CallbackStep::Exchange { code, state } ==> p@ == (CallbackStepModel::Exchange {
            code: code@,
            state: state@,
        }),
{
}

/// Errors are seen as they are.
pub proof fn errors_are_seen(
    d: DavError,
    o: OidcError,
    s: SessionError,
    j: FileJwtError,
    c: ConfigError,
)
    ensures
        d matches DavError::Http(e) ==> d@ == DavFault::Http(e@),
        d matches DavError::Url(e) ==> d@ == DavFault::Url(e@),
        d matches DavError::Status(n, e) ==> d@ == DavFault::Status(n, e@),
        d matches DavError::Xml(e) ==> d@ == DavFault::Xml(e@),
        o matches OidcError::Http(e) ==> o@ == OidcFault::Http(e@),
        o matches OidcError::Discovery(e) ==> o@ == OidcFault::Discovery(e@),
        o matches OidcError::Token(e) ==> o@ == OidcFault::Token(e@),
        s is Encrypt ==> s@ is Encrypt,
        s is Decrypt ==> s@ is Decrypt,
        s is Decode ==> s@ is Decode,
        s matches SessionError::Json(b) ==> s@ == SessionFault::Json(b@),
        j matches FileJwtError::Jwt(JwtError::Refused(e)) ==> j@ == FileJwtFault::Jwt(
            JwtFault::Refused(e@),
        ),
        j matches FileJwtError::Jwt(JwtError::Claims(b)) ==> j@ == FileJwtFault::Jwt(
            JwtFault::Claims(b@),
        ),
        j matches FileJwtError::Session(e) ==> j@ == FileJwtFault::Session(e@),
        j is SessionDecrypt ==> j@ is SessionDecrypt,
        j is WrongAction ==> j@ is WrongAction,
        c matches ConfigError::Missing(e) ==> c@ == ConfigFault::Missing(e@),
        c matches ConfigError::Addr(e) ==> c@ == ConfigFault::Addr(e@),
        c matches ConfigError::Url(e) ==> c@ == ConfigFault::Url(e@),
        c matches ConfigError::Key { var, reason } ==> c@ == (ConfigFault::Key {
            var: var@,
            reason: reason@,
        }),
{
}

} // verus!
