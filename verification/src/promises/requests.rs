//! Where requests for files go: to the file that was asked for, on the user's
//! own server, in the user's name.

use crate::config::ConfigModel;
use crate::dav::{ClientModel, DavFault, RequestModel};
use crate::docserver::SaveStepModel;
use crate::files::{FileOpModel, FileStepModel, UploadEndModel, UploadStepModel};
use crate::reply::{BodyModel, CookieModel, ReplyModel};
use crate::session::SessionModel;
use vstd::prelude::*;

verus! {

/// Whether a path is an ordinary one: it does not begin with a slash, no
/// segment of it begins with an escape or is made of dots, and it holds nothing
/// that a URL drops or ends a path at. A segment may begin with a dot that
/// another character follows.
pub open spec fn is_ordinary(path: Seq<char>) -> bool {
    &&& has_ordinary_characters(path)
    &&& path.len() > 0 ==> path[0] != '/' && path[0] != '%' && path.last() > ' '
    &&& path.len() > 0 && path[0] == '.' ==> is_hidden_name(path, 0)
}

/// Whether the dot at `i` is followed by a character of a name.
pub open spec fn is_hidden_name(path: Seq<char>, i: int) -> bool {
    i + 1 < path.len() && path[i + 1] != '.' && path[i + 1] != '%' && path[i + 1] != '/'
}

/// Whether a path holds nothing that a URL drops or ends a path at, and no
/// segment behind a slash begins with an escape or is made of dots.
pub open spec fn has_ordinary_characters(path: Seq<char>) -> bool {
    forall|i: int|
        0 <= i < path.len() ==> {
            let c = #[trigger] path[i];
            &&& c != '?' && c != '#' && c != '\\' && c != '\t' && c != '\n' && c != '\r'
            &&& i > 0 && path[i - 1] == '/' ==> c != '%' && (c == '.' ==> is_hidden_name(path, i))
        }
}

proof fn lemma_ordinary_does_not_climb(s: Seq<char>, segment: Seq<char>, depth: nat)
    requires
        has_ordinary_characters(s),
        segment.len() == 0 && s.len() > 0 ==> s[0] != '%' && (s[0] == '.' ==> is_hidden_name(s, 0)),
        segment.len() > 0 ==> segment[0] != '%',
        segment.len() == 1 && segment[0] == '.' ==> s.len() > 0 && s[0] != '.' && s[0] != '%' && s[0]
            != '/',
        segment.len() >= 2 && segment[0] == '.' ==> segment[1] != '.' && segment[1] != '%',
    ensures
        !crate::weburl::climbs(s, segment, depth),
    decreases s.len(),
{
    reveal_strlit(".");
    reveal_strlit("..");
    reveal_strlit("%2e");
    reveal_strlit("%2E");
    reveal_strlit(".%2e");
    reveal_strlit(".%2E");
    reveal_strlit("%2e.");
    reveal_strlit("%2E.");
    reveal_strlit("%2e%2e");
    reveal_strlit("%2e%2E");
    reveal_strlit("%2E%2e");
    reveal_strlit("%2E%2E");
    assert(".."@[0] == '.' && ".."@[1] == '.');
    assert(".%2e"@[0] == '.' && ".%2e"@[1] == '%' && ".%2E"@[0] == '.' && ".%2E"@[1] == '%');
    assert("%2e."@[0] == '%' && "%2E."@[0] == '%');
    assert("%2e%2e"@[0] == '%' && "%2e%2E"@[0] == '%' && "%2E%2e"@[0] == '%' && "%2E%2E"@[0] == '%');
    assert(!crate::weburl::is_dot_dot(segment));
    if s.len() > 0 {
        let t = s.skip(1);
        let c = s[0];
        assert(has_ordinary_characters(t)) by {
            assert forall|i: int| 0 <= i < t.len() implies {
                let c = #[trigger] t[i];
                &&& c != '?' && c != '#' && c != '\\' && c != '\t' && c != '\n' && c != '\r'
                &&& i > 0 && t[i - 1] == '/' ==> c != '%' && (c == '.' ==> is_hidden_name(t, i))
            } by {
                assert(t[i] == s[i + 1]);
                if i > 0 {
                    assert(t[i - 1] == s[i]);
                }
                if i + 1 < t.len() {
                    assert(t[i + 1] == s[i + 2]);
                }
            }
        }
        if t.len() > 0 {
            assert(t[0] == s[1]);
        }
        if t.len() > 1 {
            assert(t[1] == s[2]);
        }
        if c == '/' {
            if !crate::weburl::is_drive(segment) {
                lemma_ordinary_does_not_climb(
                    t,
                    Seq::empty(),
                    crate::weburl::depth_behind(segment, depth) as nat,
                );
            }
        } else {
            let longer = segment.push(c);
            if segment.len() > 0 {
                assert(longer[0] == segment[0]);
            }
            if segment.len() > 1 {
                assert(longer[1] == segment[1]);
            }
            lemma_ordinary_does_not_climb(t, longer, depth);
        }
    }
}

/// An address is always what the path without its leading slashes, behind the
/// collection's own path, resolves to on the server.
pub proof fn addresses_are_of_the_whole_path(c: ClientModel, path: Seq<char>)
    ensures
        crate::dav::address(c, path) matches Ok(url) ==> crate::weburl::url_joined(
            c.base,
            c.user_root + crate::text::trim_start(path, '/'),
        ) == Ok::<_, Seq<char>>(url),
        crate::dav::address(c, path) is Err ==> crate::dav::address(c, path)->Err_0 is Url,
{
}

/// Whether a request is one of the client's, by some method, to the address of
/// a path.
pub open spec fn is_sent_to(
    c: ClientModel,
    method: Seq<char>,
    path: Seq<char>,
    r: Result<RequestModel, DavFault>,
) -> bool {
    match crate::dav::address(c, path) {
        Ok(url) => r matches Ok(q) && q.method == method && q.url == url && has_header(
            q,
            "Authorization"@,
            "Bearer "@ + c.access_token,
        ),
        Err(e) => r == Err::<RequestModel, _>(e),
    }
}

/// What the file browser asks for is asked of the WebDAV server by the method
/// that does it and at the address of the path, whatever the path; and where
/// the path has no address, that is the fault.
pub proof fn operations_go_to_their_path(c: ClientModel, path: Seq<char>, to: Seq<char>)
    ensures
        is_sent_to(
            c,
            "PROPFIND"@,
            path,
            crate::files::request_for(c, FileOpModel::List { path }),
        ),
        is_sent_to(c, "MKCOL"@, path, crate::files::request_for(c, FileOpModel::Mkdir { path })),
        is_sent_to(c, "DELETE"@, path, crate::files::request_for(c, FileOpModel::Delete { path })),
        crate::dav::address(c, to) is Ok ==> is_sent_to(
            c,
            "MOVE"@,
            path,
            crate::files::request_for(c, FileOpModel::Rename { from: path, to }),
        ),
        crate::dav::address(c, path) is Ok ==> (match crate::dav::address(c, to) {
            Ok(url) => crate::files::request_for(c, FileOpModel::Rename { from: path, to }) matches Ok(q)
                && has_header(q, "Destination"@, url) && has_header(q, "Overwrite"@, "F"@),
            Err(e) => crate::files::request_for(c, FileOpModel::Rename { from: path, to }) == Err::<
                RequestModel,
                _,
            >(e),
        }),
{
    let bearer = ("Authorization"@, "Bearer "@ + c.access_token);
    if let Ok(q) = crate::files::request_for(c, FileOpModel::List { path }) {
        assert(q.headers[1] == bearer);
    }
    if let Ok(q) = crate::files::request_for(c, FileOpModel::Mkdir { path }) {
        assert(q.headers[0] == bearer);
    }
    if let Ok(q) = crate::files::request_for(c, FileOpModel::Delete { path }) {
        assert(q.headers[0] == bearer);
    }
    if let Ok(q) = crate::files::request_for(c, FileOpModel::Rename { from: path, to }) {
        assert(q.headers[0] == bearer);
        assert(q.headers[1] == ("Destination"@, crate::dav::address(c, to)->Ok_0));
        assert(q.headers[2] == ("Overwrite"@, "F"@));
    }
}

/// What cannot be sent is answered: for want of a client as that says, and for
/// want of an address as a failure of the operation, with the cookie.
pub proof fn what_cannot_be_sent_is_answered(
    c: ConfigModel,
    s: SessionModel,
    op: FileOpModel,
    cookie: Option<CookieModel>,
    path: Seq<char>,
)
    ensures
        crate::files::client_for(c, s) matches Err(r) ==> {
            &&& crate::files::op_begun(c, s, op, cookie) == FileStepModel::Answer(r)
            &&& crate::docserver::download_asked(c, s, path) == Err::<RequestModel, _>(r)
        },
        crate::files::client_for(c, s) matches Ok(client) ==> {
            &&& crate::files::request_for(client, op) matches Err(e) ==> {
                let what = match op {
                    FileOpModel::List { .. } => "list failed: "@,
                    FileOpModel::Mkdir { .. } => "mkdir: "@,
                    FileOpModel::Rename { .. } => "rename: "@,
                    FileOpModel::Delete { .. } => "delete: "@,
                };
                &&& crate::files::op_begun(c, s, op, cookie) matches FileStepModel::Answer(r)
                &&& r.status == 502
                &&& r.body == BodyModel::Text(what + crate::dav::fault_message(e))
                &&& r.set_cookie == cookie
            }
            &&& crate::files::request_for(client, op) matches Ok(q) ==> crate::files::op_begun(
                c,
                s,
                op,
                cookie,
            ) == (FileStepModel::Send { client, request: q, cookie })
            &&& crate::dav::address(client, path) matches Err(e) ==> {
                &&& crate::docserver::download_asked(c, s, path) matches Err(r)
                &&& r.status == 502
                &&& r.body == BodyModel::Text("dav get: "@ + crate::dav::fault_message(e))
            }
            &&& crate::dav::address(client, path) matches Ok(url) ==> {
                &&& crate::docserver::download_asked(c, s, path) matches Ok(q)
                &&& q.url == url
                &&& q.method == "GET"@
            }
        },
{
}

/// An ordinary path of a collection has the address that the whole path,
/// behind the collection's own, resolves to on the server; leading slashes
/// make no difference.
pub proof fn ordinary_paths_have_their_address(c: ClientModel, path: Seq<char>)
    requires
        crate::weburl::is_sound_path(c.user_root),
        is_ordinary(path),
    ensures
        crate::dav::address(c, path) == (match crate::weburl::url_joined(
            c.base,
            c.user_root + path,
        ) {
            Ok(url) => Ok(url),
            Err(e) => Err(DavFault::Url(e)),
        }),
        crate::dav::address(c, seq!['/'] + path) == crate::dav::address(c, path),
{
    crate::text::trim_start_takes_the_leading(path, '/');
    assert(crate::text::trim_start(path, '/') == path);
    assert(crate::weburl::trim_end_control(path) == path);
    assert(path.len() > 0 ==> path[0] != '%');
    lemma_ordinary_does_not_climb(path, Seq::empty(), 0);
}

proof fn lemma_trimmed_behind(a: Seq<char>, b: Seq<char>)
    requires
        a.len() > 0,
        a.last() > ' ',
    ensures
        crate::weburl::trim_end_control(a + b) == a + crate::weburl::trim_end_control(b),
    decreases b.len(),
{
    if b.len() == 0 {
        assert(a + b =~= a);
        assert(a + crate::weburl::trim_end_control(b) =~= a);
    } else if b.last() <= ' ' {
        assert((a + b).drop_last() =~= a + b.drop_last());
        lemma_trimmed_behind(a, b.drop_last());
    }
}

/// A path that begins by climbing has no address, whatever follows, and
/// neither has any path of a user whose collection has no sound path.
pub proof fn climbing_paths_have_no_address(c: ClientModel, rest: Seq<char>)
    ensures
        crate::dav::address(c, seq!['.', '.', '/'] + rest) is Err,
        crate::dav::address(c, seq!['.', '.']) is Err,
        !crate::weburl::is_sound_path(c.user_root) ==> crate::dav::address(c, rest) is Err,
{
    reveal_strlit("..");
    let up = seq!['.', '.', '/'];
    let dots = seq!['.', '.'];
    assert(dots =~= ".."@);
    assert(Seq::<char>::empty().push('.').push('.') =~= ".."@);
    let s = up + rest;
    assert(crate::text::trim_start(s, '/') == s);
    lemma_trimmed_behind(up, rest);
    let t = crate::weburl::trim_end_control(s);
    assert(t[0] == '.' && t[1] == '.' && t[2] == '/');
    assert(t.skip(1)[0] == '.' && t.skip(1).skip(1)[0] == '/');
    reveal_with_fuel(crate::weburl::climbs, 4);
    assert(crate::weburl::climbs(t, Seq::empty(), 0));
    assert(crate::text::trim_start(dots, '/') == dots);
    assert(crate::weburl::trim_end_control(dots) == dots);
    assert(dots.skip(1).skip(1) =~= Seq::empty());
    assert(crate::weburl::climbs(dots, Seq::empty(), 0));
}

/// Whether a text is a name that a folder may have: no part of it means
/// anything in a path.
pub open spec fn is_name(w: Seq<char>) -> bool {
    &&& w.len() > 0 && w[0] != '.' && w[0] != '%' && !crate::weburl::is_drive(w)
    &&& forall|i: int|
        0 <= i < w.len() ==> {
            let c = #[trigger] w[i];
            c != '/' && c != '?' && c != '#' && c != '\\' && c != '\t' && c != '\n' && c != '\r'
        }
}

proof fn lemma_name_is_read(w: Seq<char>, s: Seq<char>, segment: Seq<char>, depth: nat)
    requires
        forall|i: int|
            0 <= i < w.len() ==> {
                let c = #[trigger] w[i];
                c != '/' && c != '?' && c != '#' && c != '\\' && c != '\t' && c != '\n' && c
                    != '\r'
            },
    ensures
        crate::weburl::climbs(w + s, segment, depth) == crate::weburl::climbs(
            s,
            segment + w,
            depth,
        ),
    decreases w.len(),
{
    if w.len() == 0 {
        assert(w + s =~= s);
        assert(segment + w =~= segment);
    } else {
        let t = w.skip(1);
        assert((w + s)[0] == w[0]);
        assert((w + s).skip(1) =~= t + s);
        assert(segment.push(w[0]) + t =~= segment + w);
        assert forall|i: int| 0 <= i < t.len() implies {
            let c = #[trigger] t[i];
            c != '/' && c != '?' && c != '#' && c != '\\' && c != '\t' && c != '\n' && c != '\r'
        } by {
            assert(t[i] == w[i + 1]);
        }
        lemma_name_is_read(t, s, segment.push(w[0]), depth);
    }
}

/// A path that goes into a folder and out again climbs out of the collection
/// exactly if the rest of it does.
pub proof fn going_in_and_out_changes_nothing(w: Seq<char>, rest: Seq<char>)
    requires
        is_name(w),
    ensures
        crate::weburl::stays_inside(w + seq!['/', '.', '.', '/'] + rest)
            == crate::weburl::stays_inside(rest),
{
    reveal_strlit(".");
    reveal_strlit("..");
    reveal_strlit("%2e");
    reveal_strlit("%2E");
    reveal_strlit(".%2e");
    reveal_strlit(".%2E");
    reveal_strlit("%2e.");
    reveal_strlit("%2E.");
    reveal_strlit("%2e%2e");
    reveal_strlit("%2e%2E");
    reveal_strlit("%2E%2e");
    reveal_strlit("%2E%2E");
    assert("."@[0] == '.' && ".."@[0] == '.' && ".%2e"@[0] == '.' && ".%2E"@[0] == '.');
    assert("%2e"@[0] == '%' && "%2E"@[0] == '%' && "%2e."@[0] == '%' && "%2E."@[0] == '%');
    assert("%2e%2e"@[0] == '%' && "%2e%2E"@[0] == '%' && "%2E%2e"@[0] == '%' && "%2E%2E"@[0] == '%');
    assert(!crate::weburl::is_dot(w) && !crate::weburl::is_dot_dot(w));
    let turn = seq!['/', '.', '.', '/'];
    lemma_trimmed_behind(w + turn, rest);
    let r = crate::weburl::trim_end_control(rest);
    let s = turn + r;
    assert(w + turn + r =~= w + s);
    lemma_name_is_read(w, s, Seq::empty(), 0);
    assert(Seq::<char>::empty() + w =~= w);
    assert(s[0] == '/' && s[1] == '.' && s[2] == '.' && s[3] == '/');
    let s1 = s.skip(1);
    let s2 = s1.skip(1);
    let s3 = s2.skip(1);
    assert(s1[0] == '.' && s2[0] == '.' && s3[0] == '/');
    assert(s3.skip(1) =~= r);
    assert(Seq::<char>::empty().push('.').push('.') =~= ".."@);
    assert(crate::weburl::climbs(s3, ".."@, 1) == crate::weburl::climbs(r, Seq::empty(), 0));
    assert(crate::weburl::climbs(s2, Seq::empty().push('.'), 1) == crate::weburl::climbs(
        s3,
        ".."@,
        1,
    ));
    assert(crate::weburl::climbs(s1, Seq::empty(), 1) == crate::weburl::climbs(
        s2,
        Seq::empty().push('.'),
        1,
    ));
    assert(crate::weburl::climbs(s, w, 0) == crate::weburl::climbs(s1, Seq::empty(), 1));
}

/// A user whose email would lead the collection elsewhere, or cut its path
/// short, is refused whatever is asked for.
pub proof fn misleading_emails_are_refused(
    c: ClientModel,
    a: Seq<char>,
    b: Seq<char>,
    i: int,
    path: Seq<char>,
)
    ensures
        c.user_root == a + seq!['/', '.', '.', '/'] + b ==> crate::dav::address(c, path) is Err,
        c.user_root == a + seq!['/', '.', '/'] + b ==> crate::dav::address(c, path) is Err,
        0 <= i < c.user_root.len() && (c.user_root[i] == '?' || c.user_root[i] == '#'
            || c.user_root[i] == '\\' || c.user_root[i] == '\t' || c.user_root[i] == '\n'
            || c.user_root[i] == '\r') ==> crate::dav::address(c, path) is Err,
{
    reveal_strlit(".");
    reveal_strlit("..");
    let parts = crate::text::pieces(c.user_root, '/');
    let front = crate::text::pieces(a, '/');
    if c.user_root == a + seq!['/', '.', '.', '/'] + b {
        let up = seq!['.', '.'];
        assert(up =~= ".."@);
        assert(c.user_root =~= a + seq!['/'] + (up + seq!['/'] + b));
        crate::text::pieces_stand_side_by_side(a, up + seq!['/'] + b, '/');
        crate::text::pieces_stand_side_by_side(up, b, '/');
        crate::text::lemma_one_piece(up, '/');
        assert(parts[front.len() as int] == up);
        assert(crate::weburl::is_dot_dot(parts[front.len() as int]));
    }
    if c.user_root == a + seq!['/', '.', '/'] + b {
        let here = seq!['.'];
        assert(here =~= "."@);
        assert(c.user_root =~= a + seq!['/'] + (here + seq!['/'] + b));
        crate::text::pieces_stand_side_by_side(a, here + seq!['/'] + b, '/');
        crate::text::pieces_stand_side_by_side(here, b, '/');
        crate::text::lemma_one_piece(here, '/');
        assert(parts[front.len() as int] == here);
        assert(crate::weburl::is_dot(parts[front.len() as int]));
    }
}

/// The server of a user: that of the domain behind the first `@` of the email,
/// put in the configured template.
pub open spec fn server_of(c: ConfigModel, s: SessionModel) -> Option<Seq<char>> {
    match crate::text::split_once(s.email, '@') {
        None => None,
        Some((_, domain)) => match crate::weburl::url_parsed(
            crate::text::replace_all(c.dav_base_url_template, "{domain}"@, domain),
        ) {
            Ok(base) => Some(base),
            Err(_) => None,
        },
    }
}

/// Whether `url` is where a path of the user's collection is found on the
/// user's server.
pub open spec fn is_place_of(
    c: ConfigModel,
    s: SessionModel,
    path: Seq<char>,
    url: Seq<char>,
) -> bool {
    server_of(c, s) matches Some(base) && crate::weburl::url_joined(
        base,
        "/dav/file/"@ + s.email + "/"@ + path,
    ) == Ok::<_, Seq<char>>(url)
}

/// Whether a request carries the user's own access token.
pub open spec fn is_in_the_name_of(s: SessionModel, q: RequestModel) -> bool {
    exists|i: int|
        0 <= i < q.headers.len() && #[trigger] q.headers[i] == (
            "Authorization"@,
            "Bearer "@ + s.access_token,
        )
}

/// Whether a request has a header of that name and value.
pub open spec fn has_header(q: RequestModel, name: Seq<char>, value: Seq<char>) -> bool {
    exists|i: int| 0 <= i < q.headers.len() && #[trigger] q.headers[i] == (name, value)
}

/// Whether an email address is one segment of a path: it has its `@`, and
/// nothing that parts a path, ends it or is dropped from it.
pub open spec fn is_one_segment(email: Seq<char>) -> bool {
    email.contains('@') && forall|i: int|
        0 <= i < email.len() ==> {
            let c = #[trigger] email[i];
            c != '/' && c != '?' && c != '#' && c != '\\' && c != '\t' && c != '\n' && c != '\r'
        }
}

/// Whether ordinary paths of a user can be asked for: the user's email address
/// names one folder, and there is a server.
pub open spec fn can_be_served(c: ConfigModel, s: SessionModel) -> bool {
    is_one_segment(s.email) && server_of(c, s) is Some
}

/// A user whose email address is one segment of a path has a collection of
/// their own.
pub proof fn emails_name_a_collection(email: Seq<char>)
    requires
        is_one_segment(email),
    ensures
        crate::weburl::is_sound_path("/dav/file/"@ + email + "/"@),
{
    reveal_strlit("/dav/file/");
    reveal_strlit("/");
    reveal_strlit(".");
    reveal_strlit("%2e");
    reveal_strlit("%2E");
    reveal_strlit("..");
    reveal_strlit(".%2e");
    reveal_strlit(".%2E");
    reveal_strlit("%2e.");
    reveal_strlit("%2E.");
    reveal_strlit("%2e%2e");
    reveal_strlit("%2e%2E");
    reveal_strlit("%2E%2e");
    reveal_strlit("%2E%2E");
    let root = "/dav/file/"@ + email + "/"@;
    let none = Seq::<char>::empty();
    let dav = seq!['d', 'a', 'v'];
    let file = seq!['f', 'i', 'l', 'e'];
    let to_dav = none + seq!['/'] + dav;
    let to_file = to_dav + seq!['/'] + file;
    let to_email = to_file + seq!['/'] + email;
    assert(root =~= to_email + seq!['/'] + none);
    crate::text::lemma_one_piece(none, '/');
    crate::text::lemma_last_piece(none, dav, '/');
    crate::text::lemma_last_piece(to_dav, file, '/');
    crate::text::lemma_last_piece(to_file, email, '/');
    crate::text::lemma_last_piece(to_email, none, '/');
    let parts = crate::text::pieces(root, '/');
    assert(parts =~= seq![none, dav, file, email, none]);
    let at = choose|i: int| 0 <= i < email.len() && email[i] == '@';
    assert forall|i: int| 0 <= i < parts.len() implies {
        let s = #[trigger] parts[i];
        !crate::weburl::is_dot(s) && !crate::weburl::is_dot_dot(s)
    } by {
        if i == 1 {
            assert(parts[1][0] == 'd');
        } else if i == 2 {
            assert(parts[2][0] == 'f');
        } else if i == 3 {
            assert(parts[3][at] == '@');
        } else {
            assert(parts[i].len() == 0);
        }
    }
    assert forall|i: int| 0 <= i < root.len() implies {
        let c = #[trigger] root[i];
        c != '?' && c != '#' && c != '\\' && c != '\t' && c != '\n' && c != '\r'
    } by {
        if i < 10 {
            assert(root[i] == "/dav/file/"@[i]);
        } else if i < 10 + email.len() {
            assert(root[i] == email[i - 10]);
        } else {
            assert(root[i] == '/');
        }
    }
}

/// The client of a user is on the user's server, in the user's collection, and
/// carries the user's access token; there is one where the email has a domain
/// and the server's address can be read.
pub proof fn clients_are_of_their_user(c: ConfigModel, s: SessionModel)
    ensures
        crate::files::client_for(c, s) is Ok <==> server_of(c, s) is Some,
        crate::files::client_for(c, s) matches Ok(client) ==> {
            &&& server_of(c, s) == Some(client.base)
            &&& client.user_root == "/dav/file/"@ + s.email + "/"@
            &&& client.access_token == s.access_token
        },
        !s.email.contains('@') ==> crate::files::client_for(c, s) == Err::<ClientModel, _>(
            (ReplyModel {
                status: 400,
                body: BodyModel::Text("session has no email domain"@),
                set_cookie: None,
                remove_cookie: None,
            }),
        ),
        s.email.contains('@') && crate::files::client_for(c, s) is Err ==> {
            &&& crate::files::client_for(c, s)->Err_0.status == 500
            &&& crate::files::client_for(c, s)->Err_0.body matches BodyModel::Text(words)
            &&& "bad dav base: "@.is_prefix_of(words)
        },
{
    if s.email.contains('@') && crate::files::client_for(c, s) is Err {
        let (_, domain) = crate::text::split_once(s.email, '@')->0;
        let e = crate::config::dav_base(c, domain)->Err_0;
        let words = "bad dav base: "@ + e;
        assert("bad dav base: "@ =~= words.subrange(0, "bad dav base: "@.len() as int));
    }
}

proof fn lemma_request(c: ConfigModel, s: SessionModel, path: Seq<char>)
    requires
        is_ordinary(path),
    ensures
        crate::files::client_for(c, s) matches Ok(client) ==> {
            &&& crate::dav::address(client, path) matches Ok(url) ==> is_place_of(c, s, path, url)
            &&& can_be_served(c, s) ==> (crate::dav::address(client, path) is Ok
                <==> crate::weburl::url_joined(
                client.base,
                "/dav/file/"@ + s.email + "/"@ + path,
            ) is Ok)
        },
{
    clients_are_of_their_user(c, s);
    if let Ok(client) = crate::files::client_for(c, s) {
        if crate::weburl::is_sound_path(client.user_root) {
            ordinary_paths_have_their_address(client, path);
        }
        if is_one_segment(s.email) {
            emails_name_a_collection(s.email);
        }
    }
}

/// The request for the entries of a folder goes to that folder, in the name of
/// the user, and asks one level deep; folders in different places get
/// different requests. It is sent where the folder has an address.
pub proof fn listing_goes_to_the_folder(
    c: ConfigModel,
    s: SessionModel,
    path: Seq<char>,
    cookie: Option<CookieModel>,
)
    requires
        is_ordinary(path),
    ensures
        crate::files::op_begun(c, s, FileOpModel::List { path }, cookie) matches FileStepModel::Send {
            request,
            cookie: set,
            ..
        } ==> {
            &&& request.method == "PROPFIND"@
            &&& is_place_of(c, s, path, request.url)
            &&& is_in_the_name_of(s, request)
            &&& has_header(request, "Depth"@, "1"@)
            &&& set == cookie
        },
        can_be_served(c, s) && crate::weburl::url_joined(
            server_of(c, s)->0,
            "/dav/file/"@ + s.email + "/"@ + path,
        ) is Ok ==> crate::files::op_begun(c, s, FileOpModel::List { path }, cookie) is Send,
{
    lemma_request(c, s, path);
    clients_are_of_their_user(c, s);
    if let FileStepModel::Send { request, client, .. } = crate::files::op_begun(
        c,
        s,
        FileOpModel::List { path },
        cookie,
    ) {
        assert(request.headers[0] == ("Depth"@, "1"@));
        assert(request.headers[1] == ("Authorization"@, "Bearer "@ + s.access_token));
    }
}

/// The request to make a folder goes to its place, in the name of the user.
pub proof fn making_goes_to_the_new_folder(
    c: ConfigModel,
    s: SessionModel,
    path: Seq<char>,
    cookie: Option<CookieModel>,
)
    requires
        is_ordinary(path),
    ensures
        crate::files::op_begun(c, s, FileOpModel::Mkdir { path }, cookie) matches FileStepModel::Send {
            request,
            cookie: set,
            ..
        } ==> {
            &&& request.method == "MKCOL"@
            &&& is_place_of(c, s, path, request.url)
            &&& is_in_the_name_of(s, request)
            &&& request.body.len() == 0
            &&& set == cookie
        },
        can_be_served(c, s) && crate::weburl::url_joined(
            server_of(c, s)->0,
            "/dav/file/"@ + s.email + "/"@ + path,
        ) is Ok ==> crate::files::op_begun(c, s, FileOpModel::Mkdir { path }, cookie) is Send,
{
    lemma_request(c, s, path);
    clients_are_of_their_user(c, s);
    if let FileStepModel::Send { request, .. } = crate::files::op_begun(
        c,
        s,
        FileOpModel::Mkdir { path },
        cookie,
    ) {
        assert(request.headers[0] == ("Authorization"@, "Bearer "@ + s.access_token));
    }
}

/// The request to delete goes to what is to be deleted, in the name of the
/// user.
pub proof fn deleting_goes_to_what_is_deleted(
    c: ConfigModel,
    s: SessionModel,
    path: Seq<char>,
    cookie: Option<CookieModel>,
)
    requires
        is_ordinary(path),
    ensures
        crate::files::op_begun(c, s, FileOpModel::Delete { path }, cookie) matches FileStepModel::Send {
            request,
            cookie: set,
            ..
        } ==> {
            &&& request.method == "DELETE"@
            &&& is_place_of(c, s, path, request.url)
            &&& is_in_the_name_of(s, request)
            &&& request.body.len() == 0
            &&& set == cookie
        },
        can_be_served(c, s) && crate::weburl::url_joined(
            server_of(c, s)->0,
            "/dav/file/"@ + s.email + "/"@ + path,
        ) is Ok ==> crate::files::op_begun(c, s, FileOpModel::Delete { path }, cookie) is Send,
{
    lemma_request(c, s, path);
    clients_are_of_their_user(c, s);
    if let FileStepModel::Send { request, .. } = crate::files::op_begun(
        c,
        s,
        FileOpModel::Delete { path },
        cookie,
    ) {
        assert(request.headers[0] == ("Authorization"@, "Bearer "@ + s.access_token));
    }
}

/// The request to rename goes to the old place and names the new one, in the
/// name of the user, and lets nothing that stands there be overwritten.
pub proof fn renaming_goes_from_the_old_place_to_the_new(
    c: ConfigModel,
    s: SessionModel,
    from: Seq<char>,
    to: Seq<char>,
    cookie: Option<CookieModel>,
)
    requires
        is_ordinary(from),
        is_ordinary(to),
    ensures
        crate::files::op_begun(c, s, FileOpModel::Rename { from, to }, cookie) matches
            FileStepModel::Send { request, cookie: set, .. } ==> {
            &&& request.method == "MOVE"@
            &&& is_place_of(c, s, from, request.url)
            &&& exists|url: Seq<char>| #[trigger]
                is_place_of(c, s, to, url) && has_header(request, "Destination"@, url)
            &&& has_header(request, "Overwrite"@, "F"@)
            &&& is_in_the_name_of(s, request)
            &&& request.body.len() == 0
            &&& set == cookie
        },
        can_be_served(c, s) && crate::weburl::url_joined(
            server_of(c, s)->0,
            "/dav/file/"@ + s.email + "/"@ + from,
        ) is Ok && crate::weburl::url_joined(
            server_of(c, s)->0,
            "/dav/file/"@ + s.email + "/"@ + to,
        ) is Ok ==> crate::files::op_begun(c, s, FileOpModel::Rename { from, to }, cookie) is Send,
{
    lemma_request(c, s, from);
    lemma_request(c, s, to);
    clients_are_of_their_user(c, s);
    if let FileStepModel::Send { request, client, .. } = crate::files::op_begun(
        c,
        s,
        FileOpModel::Rename { from, to },
        cookie,
    ) {
        let url = crate::dav::address(client, to)->Ok_0;
        assert(request.headers[0] == ("Authorization"@, "Bearer "@ + s.access_token));
        assert(request.headers[1] == ("Destination"@, url));
        assert(request.headers[2] == ("Overwrite"@, "F"@));
        assert(is_place_of(c, s, to, url));
    }
}

/// A file is fetched from its place, in the name of the user.
pub proof fn downloads_come_from_the_file(c: ConfigModel, s: SessionModel, path: Seq<char>)
    requires
        is_ordinary(path),
    ensures
        crate::docserver::download_asked(c, s, path) matches Ok(q) ==> {
            &&& q.method == "GET"@
            &&& is_place_of(c, s, path, q.url)
            &&& is_in_the_name_of(s, q)
            &&& q.body.len() == 0
        },
        can_be_served(c, s) && crate::weburl::url_joined(
            server_of(c, s)->0,
            "/dav/file/"@ + s.email + "/"@ + path,
        ) is Ok ==> crate::docserver::download_asked(c, s, path) is Ok,
{
    lemma_request(c, s, path);
    clients_are_of_their_user(c, s);
    if let Ok(q) = crate::docserver::download_asked(c, s, path) {
        assert(q.headers[0] == ("Authorization"@, "Bearer "@ + s.access_token));
    }
}

/// A document is saved to the place that it was read from, whatever its path,
/// with the bytes that were fetched; and to the place of the whole path where
/// that is an ordinary one.
pub proof fn saves_go_back_to_the_file(
    c: ConfigModel,
    s: SessionModel,
    path: Seq<char>,
    bytes: Seq<u8>,
)
    ensures
        crate::docserver::store_planned(c, s, path, Some(bytes)) matches SaveStepModel::Send(q) ==> {
            &&& q.method == "PUT"@
            &&& q.body == bytes
            &&& is_in_the_name_of(s, q)
            &&& crate::docserver::download_asked(c, s, path) matches Ok(d) && d.url == q.url
            &&& is_ordinary(path) ==> is_place_of(c, s, path, q.url)
        },
        crate::docserver::download_asked(c, s, path) is Ok ==> crate::docserver::store_planned(
            c,
            s,
            path,
            Some(bytes),
        ) is Send,
        crate::docserver::store_planned(c, s, path, None) !is Send,
{
    if is_ordinary(path) {
        lemma_request(c, s, path);
    }
    clients_are_of_their_user(c, s);
    if let SaveStepModel::Send(q) = crate::docserver::store_planned(c, s, path, Some(bytes)) {
        assert(q.headers[0] == ("Authorization"@, "Bearer "@ + s.access_token));
    }
}

/// The path of an upload into a directory is the directory without its
/// trailing slashes, a slash, and the file name; so a trailing slash makes no
/// difference. Into no directory it is the file name.
pub proof fn uploads_land_in_the_directory(dir: Seq<char>, name: Seq<char>)
    ensures
        dir.len() == 0 ==> crate::files::uploaded_path(dir, name) == name,
        dir.len() > 0 ==> {
            let path = crate::files::uploaded_path(dir, name);
            let n = path.len() - name.len() - 1;
            &&& 0 <= n <= dir.len()
            &&& path.take(n) == dir.take(n)
            &&& path[n] == '/'
            &&& path.skip(n + 1) == name
            &&& n > 0 ==> dir[n - 1] != '/'
            &&& forall|i: int| n <= i < dir.len() ==> dir[i] == '/'
            &&& crate::files::uploaded_path(dir.push('/'), name) == path
        },
{
    reveal_strlit("/");
    crate::text::trim_end_takes_the_trailing(dir, '/');
    if dir.len() > 0 {
        let head = crate::text::trim_end(dir, '/');
        let path = crate::files::uploaded_path(dir, name);
        let n = path.len() - name.len() - 1;
        assert(n == head.len());
        assert(head =~= dir.subrange(0, n));
        assert(path.take(n) =~= dir.take(n));
        assert(path.skip(n + 1) =~= name);
        if n > 0 {
            assert(dir[n - 1] == head.last());
        }
    }
}

/// A file of an upload is stored under its name in the directory, with its
/// bytes and in the name of the user; a field that is no file is passed over,
/// and one that cannot be read ends the upload.
pub proof fn uploads_store_what_was_sent(
    c: ConfigModel,
    s: SessionModel,
    dir: Seq<char>,
    name: Seq<char>,
    bytes: Seq<u8>,
    words: Seq<char>,
)
    ensures
        crate::files::client_for(c, s) matches Ok(client) ==> {
            &&& crate::files::upload_planned(
                client,
                dir,
                Some(name),
                Ok::<_, Seq<char>>(bytes),
            ) matches UploadStepModel::Send(q) ==> {
                &&& q.method == "PUT"@
                &&& q.body == bytes
                &&& is_in_the_name_of(s, q)
                &&& crate::dav::address(client, crate::files::uploaded_path(dir, name)) == Ok::<
                    _,
                    DavFault,
                >(q.url)
                &&& is_ordinary(name) && dir.len() == 0 ==> is_place_of(c, s, name, q.url)
                &&& is_ordinary(dir + "/"@ + name) && dir.len() > 0 && dir.last() != '/'
                    ==> is_place_of(c, s, dir + "/"@ + name, q.url)
            }
            &&& crate::files::upload_planned(
                client,
                dir,
                Some(name),
                Err::<Seq<u8>, _>(words),
            ) == UploadStepModel::Stop(UploadEndModel::Unreadable(words))
            &&& crate::files::upload_planned(
                client,
                dir,
                None,
                Ok::<_, Seq<char>>(bytes),
            ) is Next
            &&& crate::files::upload_planned(
                client,
                dir,
                None,
                Err::<Seq<u8>, _>(words),
            ) is Next
            &&& crate::files::upload_planned(
                client,
                dir,
                Some(name),
                Ok::<_, Seq<char>>(bytes),
            ) is Send <==> crate::dav::address(
                client,
                crate::files::uploaded_path(dir, name),
            ) is Ok
        },
{
    clients_are_of_their_user(c, s);
    uploads_land_in_the_directory(dir, name);
    if dir.len() == 0 {
        if is_ordinary(name) {
            lemma_request(c, s, name);
        }
    } else if dir.last() != '/' {
        reveal_strlit("/");
        let path = crate::files::uploaded_path(dir, name);
        let n = path.len() - name.len() - 1;
        assert(n == dir.len());
        assert(path =~= path.take(n) + seq![path[n]] + path.skip(n + 1));
        assert(path =~= dir + "/"@ + name);
        if is_ordinary(path) {
            lemma_request(c, s, path);
        }
    }
    if let Ok(client) = crate::files::client_for(c, s) {
        if let UploadStepModel::Send(q) = crate::files::upload_planned(
            client,
            dir,
            Some(name),
            Ok::<_, Seq<char>>(bytes),
        ) {
            assert(q.headers[0] == ("Authorization"@, "Bearer "@ + s.access_token));
        }
    }
}

} // verus!
