//! What the portal answers about files: how it reads the replies of the WebDAV
//! server, and what it tells the browser.

use crate::dav::{DavFault, DavOp, EntryModel, RawModel};
use crate::files::{FileOpModel, UploadEndModel, UploadStepModel};
use crate::json::Json;
use crate::reply::{BodyModel, CookieModel, ReplyModel};
use vstd::prelude::*;

verus! {

/// Whether an object has a member of that name and value.
pub open spec fn says(j: Json, name: Seq<char>, value: Json) -> bool {
    j matches Json::Object(m) && exists|i: int| 0 <= i < m.len() && #[trigger] m[i] == (name, value)
}

/// An answer that touches no cookie.
pub open spec fn is_bare(r: ReplyModel, status: int, body: BodyModel) -> bool {
    r.status == status && r.body == body && r.set_cookie is None && r.remove_cookie is None
}

/// What was asked has been done exactly when the server says so with a status
/// that means it.
pub proof fn replies_are_taken_by_their_status(status: u16)
    ensures
        crate::dav::accepted(DavOp::List, status) <==> 200 <= status && status < 300,
        crate::dav::accepted(DavOp::Get, status) <==> 200 <= status && status < 300,
        crate::dav::accepted(DavOp::Put, status) <==> status == 200 || status == 201 || status
            == 204,
        crate::dav::accepted(DavOp::Delete, status) <==> status == 200 || status == 204,
        crate::dav::accepted(DavOp::Mkcol, status) <==> status == 201,
        crate::dav::accepted(DavOp::Move, status) <==> status == 201 || status == 204,
{
}

/// A failure is told in words: what was tried, what kind of failure it was,
/// and what is known of it.
pub proof fn failures_are_told(e: Seq<char>, status: u16)
    ensures
        crate::dav::fault_message(DavFault::Http(e)) == "http error: "@ + e,
        crate::dav::fault_message(DavFault::Url(e)) == "url error: "@ + e,
        crate::dav::fault_message(DavFault::Xml(e)) == "xml parse error: "@ + e,
        crate::dav::fault_message(DavFault::Status(status, e)) == "dav status "@
            + crate::numbers::decimal(status as int) + ": "@ + e,
{
}

/// An operation that failed is answered as one of a bad gateway, with words
/// that say which operation it was and what happened.
pub proof fn failed_operations_are_answered(
    op: FileOpModel,
    user_root: Seq<char>,
    status: u16,
    words: Seq<char>,
)
    ensures
        ({
            let what = match op {
                FileOpModel::List { .. } => "list failed: "@,
                FileOpModel::Mkdir { .. } => "mkdir: "@,
                FileOpModel::Rename { .. } => "rename: "@,
                FileOpModel::Delete { .. } => "delete: "@,
            };
            let done = match op {
                FileOpModel::List { .. } => 200 <= status && status < 300,
                FileOpModel::Mkdir { .. } => status == 201,
                FileOpModel::Rename { .. } => status == 201 || status == 204,
                FileOpModel::Delete { .. } => status == 200 || status == 204,
            };
            &&& is_bare(
                crate::files::op_finished(op, user_root, Err::<(u16, Seq<char>), _>(words)),
                502,
                BodyModel::Text(what + ("http error: "@ + words)),
            )
            &&& !done ==> is_bare(
                crate::files::op_finished(op, user_root, Ok::<_, Seq<char>>((status, words))),
                502,
                BodyModel::Text(
                    what + ("dav status "@ + crate::numbers::decimal(status as int) + ": "@
                        + words),
                ),
            )
        }),
{
}

/// A folder that was made is answered as created, and what was renamed or
/// deleted with no content.
pub proof fn done_operations_are_answered(
    path: Seq<char>,
    to: Seq<char>,
    user_root: Seq<char>,
    words: Seq<char>,
)
    ensures
        is_bare(
            crate::files::op_finished(
                FileOpModel::Mkdir { path },
                user_root,
                Ok::<_, Seq<char>>((201, words)),
            ),
            201,
            BodyModel::Empty,
        ),
        forall|status: u16|
            status == 201 || status == 204 ==> is_bare(
                #[trigger] crate::files::op_finished(
                    FileOpModel::Rename { from: path, to },
                    user_root,
                    Ok::<_, Seq<char>>((status, words)),
                ),
                204,
                BodyModel::Empty,
            ),
        forall|status: u16|
            status == 200 || status == 204 ==> is_bare(
                #[trigger] crate::files::op_finished(
                    FileOpModel::Delete { path },
                    user_root,
                    Ok::<_, Seq<char>>((status, words)),
                ),
                204,
                BodyModel::Empty,
            ),
{
}

/// A listing is answered with the entries that the server's document lists, in
/// order, each with all that is known of it.
pub proof fn listings_show_the_entries(
    path: Seq<char>,
    user_root: Seq<char>,
    status: u16,
    xml: Seq<char>,
)
    requires
        200 <= status < 300,
    ensures
        ({
            let r = crate::files::op_finished(
                FileOpModel::List { path },
                user_root,
                Ok::<_, Seq<char>>((status, xml)),
            );
            match crate::dav::propfind_entries(xml, user_root) {
                Err(e) => is_bare(
                    r,
                    502,
                    BodyModel::Text("list failed: "@ + crate::dav::fault_message(e)),
                ),
                Ok(entries) => exists|items: Seq<Json>|
                    {
                        &&& #[trigger] is_bare(
                            r,
                            200,
                            BodyModel::Json(
                                crate::json::json_text(
                                    Json::Object(seq![("entries"@, Json::Array(items))]),
                                ),
                            ),
                        )
                        &&& items.len() == entries.len()
                        &&& forall|i: int|
                            0 <= i < items.len() ==> {
                                let j = #[trigger] items[i];
                                let e = entries[i];
                                &&& says(j, "path"@, Json::Text(e.path))
                                &&& says(j, "name"@, Json::Text(e.name))
                                &&& says(j, "is_collection"@, Json::Bool(e.is_collection))
                                &&& says(j, "size"@, Json::Int(e.size as int))
                                &&& says(
                                    j,
                                    "content_type"@,
                                    match e.content_type {
                                        Some(t) => Json::Text(t),
                                        None => Json::Null,
                                    },
                                )
                                &&& says(
                                    j,
                                    "last_modified"@,
                                    match e.last_modified {
                                        Some(t) => Json::Text(t),
                                        None => Json::Null,
                                    },
                                )
                                &&& j->Object_0.len() == 6
                            }
                    },
            }
        }),
{
    if let Ok(entries) = crate::dav::propfind_entries(xml, user_root) {
        let items = entries.map_values(|e: EntryModel| crate::files::entry_json(e));
        let r = crate::files::op_finished(
            FileOpModel::List { path },
            user_root,
            Ok::<_, Seq<char>>((status, xml)),
        );
        assert forall|i: int| 0 <= i < items.len() implies {
            let j = #[trigger] items[i];
            let e = entries[i];
            &&& says(j, "path"@, Json::Text(e.path))
            &&& says(j, "name"@, Json::Text(e.name))
            &&& says(j, "is_collection"@, Json::Bool(e.is_collection))
            &&& says(j, "size"@, Json::Int(e.size as int))
            &&& says(
                j,
                "content_type"@,
                match e.content_type {
                    Some(t) => Json::Text(t),
                    None => Json::Null,
                },
            )
            &&& says(
                j,
                "last_modified"@,
                match e.last_modified {
                    Some(t) => Json::Text(t),
                    None => Json::Null,
                },
            )
            &&& j->Object_0.len() == 6
        } by {
            let m = items[i]->Object_0;
            assert(m[0].0 == "path"@ && m[1].0 == "name"@ && m[2].0 == "is_collection"@);
            assert(m[3].0 == "size"@ && m[4].0 == "content_type"@ && m[5].0 == "last_modified"@);
        }
        assert(is_bare(
            r,
            200,
            BodyModel::Json(
                crate::json::json_text(Json::Object(seq![("entries"@, Json::Array(items))])),
            ),
        ));
    }
}

/// An entry is listed where its decoded address lies under the user's root.
/// The root, its path and only slashes make up that address; its path ends in
/// no slash; its name is the one displayed, or else the last segment of its
/// path; and all else is as the server says.
pub proof fn entries_are_what_the_server_says(r: RawModel, user_root: Seq<char>)
    ensures
        crate::dav::entry_of(r, user_root) is Some <==> user_root.is_prefix_of(
            crate::dav::url_decoded(r.href),
        ),
        crate::dav::entry_of(r, user_root) matches Some(e) ==> {
            let address = crate::dav::url_decoded(r.href);
            &&& (user_root + e.path).is_prefix_of(address)
            &&& forall|i: int| user_root.len() + e.path.len() <= i < address.len() ==> address[i]
                == '/'
            &&& e.path.len() > 0 ==> e.path.last() != '/'
            &&& r.displayname matches Some(n) ==> e.name == n
            &&& r.displayname is None ==> {
                &&& e.name.is_suffix_of(e.path)
                &&& !e.name.contains('/')
                &&& e.name.len() == e.path.len() || e.path[e.path.len() - e.name.len() - 1] == '/'
            }
            &&& e.is_collection == r.is_collection
            &&& e.size == r.size
            &&& e.content_type == r.content_type
            &&& e.last_modified == r.last_modified
        },
{
    if let Some(e) = crate::dav::entry_of(r, user_root) {
        let address = crate::dav::url_decoded(r.href);
        let rest = address.skip(user_root.len() as int);
        crate::text::trim_end_takes_the_trailing(rest, '/');
        crate::text::after_last_is_the_last_segment(e.path, '/');
        let n = user_root.len() as int;
        assert(user_root =~= address.subrange(0, n));
        assert(e.path =~= rest.subrange(0, e.path.len() as int));
        assert(user_root + e.path =~= address.subrange(0, n + e.path.len()));
        assert forall|i: int| n + e.path.len() <= i < address.len() implies address[i] == '/' by {
            assert(rest[i - n] == address[i]);
        }
    }
}

/// An address with percent escapes is read as the bytes that it encodes.
pub proof fn addresses_are_decoded(s: Seq<char>, bytes: Seq<u8>)
    requires
        crate::dav::is_percent_encoding(vstd::utf8::encode_utf8(s), bytes),
    ensures
        crate::dav::url_decoded(s) == crate::text::lossy(bytes),
{
    crate::dav::unescaping_undoes_percent_encoding(vstd::utf8::encode_utf8(s), bytes);
}

/// A size that is no number is taken for none.
pub proof fn sizes_that_are_no_numbers_are_none(r: RawModel, text: Seq<char>)
    ensures
        crate::dav::with_text(r, "getcontentlength"@, text).size == (
        match crate::numbers::parsed_u64(text) {
            Some(n) => n,
            None => 0,
        }),
{
    reveal_strlit("href");
    reveal_strlit("displayname");
    reveal_strlit("getcontentlength");
    assert("href"@.len() == 4 && "displayname"@.len() == 11 && "getcontentlength"@.len() == 16);
}

/// The prefix of a tag name, up to the first colon, does not count.
pub proof fn tag_prefixes_do_not_count(name: Seq<u8>, prefix: Seq<char>, local: Seq<char>)
    ensures
        !prefix.contains(':') && crate::text::lossy(name) == prefix + seq![':'] + local
            ==> crate::dav::local_name(name) == local,
        crate::text::lossy(name) == local && !local.contains(':') ==> crate::dav::local_name(name)
            == local,
{
    crate::text::split_once_cuts_at_the_first(crate::text::lossy(name), ':');
}

/// An upload goes on while files are stored, and stops at the first that is
/// not, with what is known of the failure.
pub proof fn uploads_stop_at_the_first_failure(status: u16, words: Seq<char>)
    ensures
        crate::files::upload_replied(Ok::<_, Seq<char>>((status, words))) == (if status == 200
            || status == 201 || status == 204 {
            UploadStepModel::Next
        } else {
            UploadStepModel::Stop(UploadEndModel::Failed(DavFault::Status(status, words)))
        }),
        crate::files::upload_replied(Err::<(u16, Seq<char>), _>(words)) == UploadStepModel::Stop(
            UploadEndModel::Failed(DavFault::Http(words)),
        ),
{
}

/// An upload that stored every file is answered with no content, one that
/// could not be read as a bad request, and one that could not be stored as one
/// of a bad gateway.
pub proof fn uploads_are_answered(words: Seq<char>, e: DavFault)
    ensures
        is_bare(crate::files::upload_answered(UploadEndModel::Done), 204, BodyModel::Empty),
        is_bare(
            crate::files::upload_answered(UploadEndModel::Unreadable(words)),
            400,
            BodyModel::Text("read: "@ + words),
        ),
        is_bare(
            crate::files::upload_answered(UploadEndModel::Failed(e)),
            502,
            BodyModel::Text("upload: "@ + crate::dav::fault_message(e)),
        ),
{
}

/// A cookie that goes with an answer changes nothing else of it.
pub proof fn cookies_go_with_answers(r: ReplyModel, cookie: Option<CookieModel>)
    ensures
        crate::reply::setting(r, cookie).set_cookie == cookie,
        crate::reply::setting(r, cookie).status == r.status,
        crate::reply::setting(r, cookie).body == r.body,
        crate::reply::setting(r, cookie).remove_cookie == r.remove_cookie,
{
}

/// A request of the file browser without a session is unauthorized, and one
/// for the editor is sent to sign in; with a session neither is denied.
pub proof fn access_needs_a_session(
    cookie: Option<Seq<char>>,
    key: Seq<u8>,
    now: i64,
    denial: ReplyModel,
)
    ensures
        crate::signin::session_in_cookie(cookie, key) is None ==> crate::files::access_of(
            cookie,
            key,
            now,
            denial,
        ) == crate::files::AccessModel::Denied(denial),
        crate::signin::session_in_cookie(cookie, key) is Some ==> crate::files::access_of(
            cookie,
            key,
            now,
            denial,
        ) !is Denied,
        cookie is None ==> crate::signin::session_in_cookie(cookie, key) is None,
        cookie matches Some(value) ==> (crate::signin::session_in_cookie(cookie, key) is Some
            <==> crate::session::opened_session(value, key) is Ok),
{
}

/// A WebDAV operation is timed under its own name.
pub proof fn operations_are_timed_by_name()
    ensures
        crate::metrics::op_name(DavOp::List) == "list"@,
        crate::metrics::op_name(DavOp::Get) == "get"@,
        crate::metrics::op_name(DavOp::Put) == "put"@,
        crate::metrics::op_name(DavOp::Delete) == "delete"@,
        crate::metrics::op_name(DavOp::Mkcol) == "mkcol"@,
        crate::metrics::op_name(DavOp::Move) == "move"@,
{
}

} // verus!
