//! The file browser's operations: who may ask, what is asked of the WebDAV
//! server, and what the browser is answered.

use crate::config::Config;
use crate::dav::{DavClient, DavEntry, DavError, DavOp, DavRequest};
use crate::json::JsonValue;
use crate::reply::{Body, Cookie, Reply};
use crate::session::Session;
use crate::signin::{load_session, refresh_needed};
use crate::text::{join2, join3, trim_end_of};
use vstd::prelude::*;

verus! {

/// Whether a request may go on, and with what.
#[derive(Debug)]
pub enum Access {
    Denied(Reply),
    /// Renew the session with the token first.
    Refresh { session: Session, token: String },
    Ready(Session),
}

/// Whether a request may go on, in specifications.
pub ghost enum AccessModel {
    Denied(crate::reply::ReplyModel),
    Refresh { session: crate::session::SessionModel, token: Seq<char> },
    Ready(crate::session::SessionModel),
}

impl View for Access {
    type V = AccessModel;

    open spec fn view(&self) -> AccessModel {
        match self {
            Access::Denied(r) => AccessModel::Denied(r@),
            Access::Refresh { session, token } => AccessModel::Refresh {
                session: session@,
                token: token@,
            },
            Access::Ready(s) => AccessModel::Ready(s@),
        }
    }
}

/// How a session goes on at `now`: as it is if its access token is good, or if
/// it has no refresh token.
pub open spec fn going_on(s: crate::session::SessionModel, now: i64) -> AccessModel {
    match crate::signin::refresh_asked(s, now) {
        Some(token) => AccessModel::Refresh { session: s, token },
        None => AccessModel::Ready(s),
    }
}

/// How a request with a session cookie goes on at `now`. Without a session it
/// is answered with `denial`.
pub open spec fn access_of(
    cookie: Option<Seq<char>>,
    key: Seq<u8>,
    now: i64,
    denial: crate::reply::ReplyModel,
) -> AccessModel {
    match crate::signin::session_in_cookie(cookie, key) {
        None => AccessModel::Denied(denial),
        Some(s) => going_on(s, now),
    }
}

/// How a session goes on at `now`.
pub fn go_on(session: Session, now: i64) -> (a: Access)
    ensures
        a@ == going_on(session@, now),
{
    match refresh_needed(&session, now) {
        Some(token) => Access::Refresh { session, token },
        None => Access::Ready(session),
    }
}

/// How a request of the file browser goes on at `now`: without a session it is
/// unauthorized.
pub fn file_access(cookie: &Option<String>, key: &[u8; 32], now: i64) -> (a: Access)
    ensures
        a@ == access_of(
            crate::text::opt_view(*cookie),
            key@,
            now,
            crate::reply::plain(401, crate::reply::BodyModel::Empty),
        ),
{
    match load_session(cookie, key) {
        None => Access::Denied(Reply::plain(401, Body::Empty)),
        Some(session) => go_on(session, now),
    }
}

/// How a request for the editor page goes on at `now`: without a session the
/// user is sent to sign in.
pub fn editor_access(cookie: &Option<String>, key: &[u8; 32], now: i64) -> (a: Access)
    ensures
        a@ == access_of(
            crate::text::opt_view(*cookie),
            key@,
            now,
            crate::signin::login_redirect(),
        ),
{
    match load_session(cookie, key) {
        None => Access::Denied(Reply::redirect("/oidc/login")),
        Some(session) => go_on(session, now),
    }
}

/// The client for a user's collection, or the answer if there can be none.
pub open spec fn client_for(c: crate::config::ConfigModel, s: crate::session::SessionModel)
    -> Result<crate::dav::ClientModel, crate::reply::ReplyModel> {
    match crate::text::split_once(s.email, '@') {
        None => Err(
            crate::reply::plain(
                400,
                crate::reply::BodyModel::Text("session has no email domain"@),
            ),
        ),
        Some((_, domain)) => match crate::config::dav_base(c, domain) {
            Err(e) => Err(
                crate::reply::plain(500, crate::reply::BodyModel::Text("bad dav base: "@ + e)),
            ),
            Ok(base) => Ok(
                crate::dav::ClientModel {
                    base,
                    user_root: crate::dav::root_of(s.email),
                    access_token: s.access_token,
                },
            ),
        },
    }
}

/// A client or an answer, in specifications.
pub open spec fn client_outcome(r: Result<DavClient, Reply>) -> Result<
    crate::dav::ClientModel,
    crate::reply::ReplyModel,
> {
    match r {
        Ok(c) => Ok(c@),
        Err(r) => Err(r@),
    }
}

/// The client for a user's collection: on the server of the domain of the
/// user's email, with the user's access token.
pub fn dav_client_for(config: &Config, session: &Session) -> (r: Result<DavClient, Reply>)
    ensures
        client_outcome(r) == client_for(config@, session@),
{
    let domain = match session.email_domain() {
        Some(domain) => domain,
        None => return Err(Reply::text(400, "session has no email domain")),
    };
    let base = match config.dav_base_url(domain) {
        Ok(base) => base,
        Err(e) => return Err(Reply::text(500, join2("bad dav base: ", e.as_str()).as_str())),
    };
    Ok(DavClient::new(base, session.email.as_str(), session.access_token.clone()))
}

/// What the file browser asks for.
#[derive(Debug)]
pub enum FileOp {
    List { path: String },
    Mkdir { path: String },
    Rename { from: String, to: String },
    Delete { path: String },
}

/// What the file browser asks for, in specifications.
pub ghost enum FileOpModel {
    List { path: Seq<char> },
    Mkdir { path: Seq<char> },
    Rename { from: Seq<char>, to: Seq<char> },
    Delete { path: Seq<char> },
}

impl View for FileOp {
    type V = FileOpModel;

    open spec fn view(&self) -> FileOpModel {
        match self {
            FileOp::List { path } => FileOpModel::List { path: path@ },
            FileOp::Mkdir { path } => FileOpModel::Mkdir { path: path@ },
            FileOp::Rename { from, to } => FileOpModel::Rename { from: from@, to: to@ },
            FileOp::Delete { path } => FileOpModel::Delete { path: path@ },
        }
    }
}

/// What is asked of the WebDAV server.
pub open spec fn op_of(op: FileOpModel) -> DavOp {
    match op {
        FileOpModel::List { .. } => DavOp::List,
        FileOpModel::Mkdir { .. } => DavOp::Mkcol,
        FileOpModel::Rename { .. } => DavOp::Move,
        FileOpModel::Delete { .. } => DavOp::Delete,
    }
}

/// The request to the WebDAV server.
pub open spec fn request_for(c: crate::dav::ClientModel, op: FileOpModel) -> Result<
    crate::dav::RequestModel,
    crate::dav::DavFault,
> {
    match op {
        FileOpModel::List { path } => crate::dav::list_request(c, path),
        FileOpModel::Mkdir { path } => crate::dav::requested(
            c,
            "MKCOL"@,
            path,
            seq![crate::dav::authorization(c)],
            Seq::empty(),
        ),
        FileOpModel::Rename { from, to } => crate::dav::move_request(c, from, to),
        FileOpModel::Delete { path } => crate::dav::requested(
            c,
            "DELETE"@,
            path,
            seq![crate::dav::authorization(c)],
            Seq::empty(),
        ),
    }
}

/// On a server of the web, a request stays inside the user's collection: its
/// address does, and so does the destination of a rename.
pub open spec fn op_is_confined(
    c: crate::dav::ClientModel,
    op: FileOpModel,
    request: DavRequest,
) -> bool {
    match op {
        FileOpModel::Rename { .. } => crate::dav::is_confined(c, request.url@)
            && crate::dav::is_confined(c, request.headers@[1].1@),
        _ => crate::dav::is_confined(c, request.url@),
    }
}

/// What opens the words for a failure.
pub open spec fn failure_words(op: FileOpModel) -> Seq<char> {
    match op {
        FileOpModel::List { .. } => "list failed: "@,
        FileOpModel::Mkdir { .. } => "mkdir: "@,
        FileOpModel::Rename { .. } => "rename: "@,
        FileOpModel::Delete { .. } => "delete: "@,
    }
}

/// The answer to a failure of the WebDAV server.
pub open spec fn gateway_failure(words: Seq<char>, e: crate::dav::DavFault)
    -> crate::reply::ReplyModel {
    crate::reply::plain(
        502,
        crate::reply::BodyModel::Text(words + crate::dav::fault_message(e)),
    )
}

fn gateway_failure_reply(words: &str, e: &DavError) -> (r: Reply)
    ensures
        r@ == gateway_failure(words@, e@),
{
    Reply::text(502, join2(words, e.message().as_str()).as_str())
}

impl FileOp {
    /// What is asked of the WebDAV server.
    pub fn dav_op(&self) -> (op: DavOp)
        ensures
            op == op_of(self@),
    {
        match self {
            FileOp::List { .. } => DavOp::List,
            FileOp::Mkdir { .. } => DavOp::Mkcol,
            FileOp::Rename { .. } => DavOp::Move,
            FileOp::Delete { .. } => DavOp::Delete,
        }
    }

    fn words(&self) -> (s: &'static str)
        ensures
            s@ == failure_words(self@),
    {
        match self {
            FileOp::List { .. } => "list failed: ",
            FileOp::Mkdir { .. } => "mkdir: ",
            FileOp::Rename { .. } => "rename: ",
            FileOp::Delete { .. } => "delete: ",
        }
    }

    /// The request to the WebDAV server.
    pub fn request(&self, client: &DavClient) -> (r: Result<DavRequest, DavError>)
        ensures
            crate::dav::request_outcome(r) == request_for(client@, self@),
            r is Ok ==> op_is_confined(client@, self@, r->Ok_0),
    {
        match self {
            FileOp::List { path } => client.list(path.as_str()),
            FileOp::Mkdir { path } => client.mkcol(path.as_str()),
            FileOp::Rename { from, to } => client.mv(from.as_str(), to.as_str()),
            FileOp::Delete { path } => client.delete(path.as_str()),
        }
    }
}

/// What to do about an operation.
#[derive(Debug)]
pub enum FileStep {
    Answer(Reply),
    /// Send the request, then call `finish_file_op`.
    Send { client: DavClient, request: DavRequest, cookie: Option<Cookie> },
}

/// What to do about an operation, in specifications.
pub ghost enum FileStepModel {
    Answer(crate::reply::ReplyModel),
    Send {
        client: crate::dav::ClientModel,
        request: crate::dav::RequestModel,
        cookie: Option<crate::reply::CookieModel>,
    },
}

impl View for FileStep {
    type V = FileStepModel;

    open spec fn view(&self) -> FileStepModel {
        match self {
            FileStep::Answer(r) => FileStepModel::Answer(r@),
            FileStep::Send { client, request, cookie } => FileStepModel::Send {
                client: client@,
                request: request@,
                cookie: crate::reply::cookie_view(*cookie),
            },
        }
    }
}

/// What to do about an operation of a user, who gets `cookie` if the session
/// was renewed. The cookie is not set where there can be no client.
pub open spec fn op_begun(
    c: crate::config::ConfigModel,
    s: crate::session::SessionModel,
    op: FileOpModel,
    cookie: Option<crate::reply::CookieModel>,
) -> FileStepModel {
    match client_for(c, s) {
        Err(r) => FileStepModel::Answer(r),
        Ok(client) => match request_for(client, op) {
            Err(e) => FileStepModel::Answer(
                crate::reply::setting(gateway_failure(failure_words(op), e), cookie),
            ),
            Ok(request) => FileStepModel::Send { client, request, cookie },
        },
    }
}

/// Decides what to do about an operation of a user, who gets `cookie` if the
/// session was renewed.
pub fn begin_file_op(config: &Config, session: &Session, op: &FileOp, cookie: Option<Cookie>)
    -> (step: FileStep)
    ensures
        step@ == op_begun(config@, session@, op@, crate::reply::cookie_view(cookie)),
        step is Send ==> op_is_confined(step->client@, op@, step->request),
{
    let client = match dav_client_for(config, session) {
        Ok(client) => client,
        Err(r) => return FileStep::Answer(r),
    };
    match op.request(&client) {
        Ok(request) => FileStep::Send { client, request, cookie },
        Err(e) => FileStep::Answer(gateway_failure_reply(op.words(), &e).setting(cookie)),
    }
}

/// A directory entry as a JSON value.
pub open spec fn entry_json(e: crate::dav::EntryModel) -> crate::json::Json {
    crate::json::Json::Object(
        seq![
            ("path"@, crate::json::Json::Text(e.path)),
            ("name"@, crate::json::Json::Text(e.name)),
            ("is_collection"@, crate::json::Json::Bool(e.is_collection)),
            ("size"@, crate::json::Json::Int(e.size as int)),
            ("content_type"@, crate::json::optional(e.content_type)),
            ("last_modified"@, crate::json::optional(e.last_modified)),
        ],
    )
}

/// A listing as a JSON value.
pub open spec fn listing_json(entries: Seq<crate::dav::EntryModel>) -> crate::json::Json {
    crate::json::Json::Object(
        seq![
            (
                "entries"@,
                crate::json::Json::Array(
                    entries.map_values(|e: crate::dav::EntryModel| entry_json(e)),
                ),
            ),
        ],
    )
}

fn entry_to_json(e: &DavEntry) -> (v: JsonValue)
    ensures
        v@ == entry_json(e@),
{
    let members: Vec<(String, JsonValue)> = vec![
        ("path".to_owned(), JsonValue::text(e.path.as_str())),
        ("name".to_owned(), JsonValue::text(e.name.as_str())),
        ("is_collection".to_owned(), JsonValue::boolean(e.is_collection)),
        ("size".to_owned(), JsonValue::unsigned(e.size)),
        ("content_type".to_owned(), JsonValue::optional_text(&e.content_type)),
        ("last_modified".to_owned(), JsonValue::optional_text(&e.last_modified)),
    ];
    proof {
        assert(crate::json::member_values(members@) =~= entry_json(e@)->Object_0);
    }
    JsonValue::object(members)
}

/// What a listing is answered with.
#[derive(Debug)]
pub struct ListResponse {
    pub entries: Vec<DavEntry>,
}

impl ListResponse {
    /// The listing as JSON.
    pub fn to_json(&self) -> (v: JsonValue)
        ensures
            v@ == listing_json(crate::dav::entry_views(self.entries@)),
    {
        let ghost models = crate::dav::entry_views(self.entries@);
        let mut items: Vec<JsonValue> = Vec::new();
        let mut i: usize = 0;
        while i < self.entries.len()
            invariant
                i <= self.entries@.len(),
                items@.len() == i,
                models == crate::dav::entry_views(self.entries@),
                forall|j: int| 0 <= j < i ==> (#[trigger] items@[j])@ == entry_json(models[j]),
            decreases self.entries@.len() - i,
        {
            items.push(entry_to_json(&self.entries[i]));
            i = i + 1;
        }
        proof {
            assert(crate::json::item_values(items@) =~= models.map_values(
                |e: crate::dav::EntryModel| entry_json(e),
            ));
        }
        let members: Vec<(String, JsonValue)> = vec![
            ("entries".to_owned(), JsonValue::array(items)),
        ];
        proof {
            assert(crate::json::member_values(members@) =~= listing_json(models)->Object_0);
        }
        JsonValue::object(members)
    }
}

/// What came of sending a request: a status and a body, or why nothing came.
pub open spec fn sent_view(sent: Result<(u16, String), String>) -> Result<
    (u16, Seq<char>),
    Seq<char>,
> {
    match sent {
        Ok((status, body)) => Ok((status, body@)),
        Err(e) => Err(e@),
    }
}

/// The answer to an operation, given the reply of the WebDAV server, but for
/// the cookie.
pub open spec fn op_finished(
    op: FileOpModel,
    user_root: Seq<char>,
    sent: Result<(u16, Seq<char>), Seq<char>>,
) -> crate::reply::ReplyModel {
    match sent {
        Err(e) => gateway_failure(failure_words(op), crate::dav::DavFault::Http(e)),
        Ok((status, body)) => if !crate::dav::accepted(op_of(op), status) {
            gateway_failure(failure_words(op), crate::dav::DavFault::Status(status, body))
        } else {
            match op {
                FileOpModel::List { .. } => match crate::dav::propfind_entries(body, user_root) {
                    Err(e) => gateway_failure(failure_words(op), e),
                    Ok(entries) => crate::reply::plain(
                        200,
                        crate::reply::BodyModel::Json(
                            crate::json::json_text(listing_json(entries)),
                        ),
                    ),
                },
                FileOpModel::Mkdir { .. } => crate::reply::plain(
                    201,
                    crate::reply::BodyModel::Empty,
                ),
                FileOpModel::Rename { .. } => crate::reply::plain(
                    204,
                    crate::reply::BodyModel::Empty,
                ),
                FileOpModel::Delete { .. } => crate::reply::plain(
                    204,
                    crate::reply::BodyModel::Empty,
                ),
            }
        },
    }
}

/// Answers an operation, given the reply of the WebDAV server.
pub fn finish_file_op(
    op: &FileOp,
    client: &DavClient,
    sent: Result<(u16, String), String>,
    cookie: Option<Cookie>,
) -> (r: Reply)
    ensures
        r@ == crate::reply::setting(
            op_finished(op@, client@.user_root, sent_view(sent)),
            crate::reply::cookie_view(cookie),
        ),
{
    let (status, body) = match sent {
        Ok((status, body)) => (status, body),
        Err(e) => return gateway_failure_reply(op.words(), &DavError::Http(e)).setting(cookie),
    };
    let answer = match op {
        FileOp::List { .. } => match client.list_reply(status, body) {
            Ok(entries) => {
                let json = ListResponse { entries }.to_json();
                Reply::plain(200, Body::Json(json.as_str().to_owned()))
            },
            Err(e) => gateway_failure_reply(op.words(), &e),
        },
        _ => match op.dav_op().reply(status, body) {
            Ok(_) => match op {
                FileOp::Mkdir { .. } => Reply::plain(201, Body::Empty),
                _ => Reply::plain(204, Body::Empty),
            },
            Err(e) => gateway_failure_reply(op.words(), &e),
        },
    };
    answer.setting(cookie)
}

/// The path of a file uploaded into a directory.
pub open spec fn uploaded_path(dir: Seq<char>, filename: Seq<char>) -> Seq<char> {
    if dir.len() == 0 {
        filename
    } else {
        crate::text::trim_end(dir, '/') + "/"@ + filename
    }
}

/// The path of a file uploaded into a directory.
pub fn upload_path(dir: &str, filename: String) -> (path: String)
    ensures
        path@ == uploaded_path(dir@, filename@),
{
    if dir.is_empty() {
        filename
    } else {
        join3(trim_end_of(dir, '/').as_str(), "/", filename.as_str())
    }
}

/// How an upload ended.
#[derive(Debug)]
pub enum UploadEnd {
    /// Every file was stored.
    Done,
    /// A file could not be read from the request.
    Unreadable(String),
    /// A file could not be stored.
    Failed(DavError),
}

/// How an upload ended, in specifications.
pub ghost enum UploadEndModel {
    Done,
    Unreadable(Seq<char>),
    Failed(crate::dav::DavFault),
}

impl View for UploadEnd {
    type V = UploadEndModel;

    open spec fn view(&self) -> UploadEndModel {
        match self {
            UploadEnd::Done => UploadEndModel::Done,
            UploadEnd::Unreadable(e) => UploadEndModel::Unreadable(e@),
            UploadEnd::Failed(e) => UploadEndModel::Failed(e@),
        }
    }
}

/// What to do next in an upload.
#[derive(Debug)]
pub enum UploadStep {
    /// Go on with the next field of the form.
    Next,
    /// Send the request, then call `upload_sent`.
    Send(DavRequest),
    /// Go no further.
    Stop(UploadEnd),
}

/// What to do next in an upload, in specifications.
pub ghost enum UploadStepModel {
    Next,
    Send(crate::dav::RequestModel),
    Stop(UploadEndModel),
}

impl View for UploadStep {
    type V = UploadStepModel;

    open spec fn view(&self) -> UploadStepModel {
        match self {
            UploadStep::Next => UploadStepModel::Next,
            UploadStep::Send(q) => UploadStepModel::Send(q@),
            UploadStep::Stop(end) => UploadStepModel::Stop(end@),
        }
    }
}

/// The content of a field, in specifications.
pub open spec fn content_view(body: Result<Vec<u8>, String>) -> Result<Seq<u8>, Seq<char>> {
    match body {
        Ok(b) => Ok(b@),
        Err(e) => Err(e@),
    }
}

/// What to do with a field of an upload: one that is no file is passed over,
/// one that cannot be read ends the upload, and another is stored in the
/// directory under its name.
pub open spec fn upload_planned(
    c: crate::dav::ClientModel,
    dir: Seq<char>,
    name: Option<Seq<char>>,
    body: Result<Seq<u8>, Seq<char>>,
) -> UploadStepModel {
    match name {
        None => UploadStepModel::Next,
        Some(name) => match body {
            Err(e) => UploadStepModel::Stop(UploadEndModel::Unreadable(e)),
            Ok(bytes) => match crate::dav::requested(
                c,
                "PUT"@,
                uploaded_path(dir, name),
                seq![crate::dav::authorization(c)],
                bytes,
            ) {
                Err(e) => UploadStepModel::Stop(UploadEndModel::Failed(e)),
                Ok(q) => UploadStepModel::Send(q),
            },
        },
    }
}

/// Decides what to do with a field of an upload. A request that is to be sent
/// stays inside the user's collection.
pub fn upload_step(
    client: &DavClient,
    dir: &str,
    name: Option<String>,
    body: Result<Vec<u8>, String>,
) -> (step: UploadStep)
    ensures
        step@ == upload_planned(
            client@,
            dir@,
            crate::text::opt_view(name),
            content_view(body),
        ),
        step is Send ==> crate::dav::is_confined(client@, step->Send_0.url@),
{
    let name = match name {
        Some(name) => name,
        None => return UploadStep::Next,
    };
    let bytes = match body {
        Ok(bytes) => bytes,
        Err(e) => return UploadStep::Stop(UploadEnd::Unreadable(e)),
    };
    match client.put_bytes(upload_path(dir, name).as_str(), bytes) {
        Ok(q) => UploadStep::Send(q),
        Err(e) => UploadStep::Stop(UploadEnd::Failed(e)),
    }
}

/// How an upload goes on, given the reply to a request to store a file.
pub open spec fn upload_replied(sent: Result<(u16, Seq<char>), Seq<char>>) -> UploadStepModel {
    match sent {
        Err(e) => UploadStepModel::Stop(UploadEndModel::Failed(crate::dav::DavFault::Http(e))),
        Ok((status, body)) => if crate::dav::accepted(DavOp::Put, status) {
            UploadStepModel::Next
        } else {
            UploadStepModel::Stop(
                UploadEndModel::Failed(crate::dav::DavFault::Status(status, body)),
            )
        },
    }
}

/// Decides how an upload goes on, given the reply to a request to store a
/// file: it stops at the first file that was not stored.
pub fn upload_sent(sent: Result<(u16, String), String>) -> (step: UploadStep)
    ensures
        step@ == upload_replied(sent_view(sent)),
{
    let (status, body) = match sent {
        Ok((status, body)) => (status, body),
        Err(e) => return UploadStep::Stop(UploadEnd::Failed(DavError::Http(e))),
    };
    match DavOp::Put.reply(status, body) {
        Ok(_) => UploadStep::Next,
        Err(e) => UploadStep::Stop(UploadEnd::Failed(e)),
    }
}

/// The answer to an upload, but for the cookie.
pub open spec fn upload_answered(end: UploadEndModel) -> crate::reply::ReplyModel {
    match end {
        UploadEndModel::Done => crate::reply::plain(204, crate::reply::BodyModel::Empty),
        UploadEndModel::Unreadable(e) => crate::reply::plain(
            400,
            crate::reply::BodyModel::Text("read: "@ + e),
        ),
        UploadEndModel::Failed(e) => gateway_failure("upload: "@, e),
    }
}

/// Answers an upload.
pub fn finish_upload(end: UploadEnd, cookie: Option<Cookie>) -> (r: Reply)
    ensures
        r@ == crate::reply::setting(upload_answered(end@), crate::reply::cookie_view(cookie)),
        r@ == crate::reply::setting(
            match end@ {
                UploadEndModel::Done => crate::reply::plain(204, crate::reply::BodyModel::Empty),
                UploadEndModel::Unreadable(e) => crate::reply::plain(
                    400,
                    crate::reply::BodyModel::Text("read: "@ + e),
                ),
                UploadEndModel::Failed(e) => gateway_failure("upload: "@, e),
            },
            crate::reply::cookie_view(cookie),
        ),
{
    let answer = match end {
        UploadEnd::Done => Reply::plain(204, Body::Empty),
        UploadEnd::Unreadable(e) => Reply::text(400, join2("read: ", e.as_str()).as_str()),
        UploadEnd::Failed(e) => gateway_failure_reply("upload: ", &e),
    };
    answer.setting(cookie)
}

} // verus!
