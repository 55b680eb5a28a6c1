//! The editor page: two file tokens, the signed editor config, and the page
//! that loads it.

use crate::b64::encode_url_safe;
use crate::config::Config;
use crate::crypto::sha256;
use crate::file_jwt::{mint, Action};
use crate::onlyoffice::{build_and_sign, EditorConfig, FileKind};
use crate::reply::{Body, Reply};
use crate::session::Session;
use crate::text::{after_last_of, join3, replace_of, to_chars, trim_end_of};
use vstd::prelude::*;

verus! {

/// How long the editor may fetch and save a file, in seconds: 4 hours.
pub const EDITOR_TTL: i64 = 14400;

/// One character as it stands in HTML text.
pub open spec fn html_char(c: char) -> Seq<char> {
    if c == '&' {
        "&amp;"@
    } else if c == '<' {
        "&lt;"@
    } else if c == '>' {
        "&gt;"@
    } else if c == '"' {
        "&quot;"@
    } else if c == '\'' {
        "&#39;"@
    } else {
        seq![c]
    }
}

/// A text as it stands in HTML text.
pub open spec fn html_escaped(s: Seq<char>) -> Seq<char>
    decreases s.len(),
{
    if s.len() == 0 {
        Seq::empty()
    } else {
        html_escaped(s.drop_last()) + html_char(s.last())
    }
}

/// Escapes a text for HTML: `&`, `<`, `>` and both quotes.
pub fn html_escape(s: &str) -> (out: String)
    ensures
        out@ == html_escaped(s@),
{
    let cs = to_chars(s);
    let mut out = String::new();
    let mut i: usize = 0;
    proof {
        assert(out@ =~= html_escaped(cs@.take(0)));
    }
    while i < cs.len()
        invariant
            i <= cs@.len(),
            out@ == html_escaped(cs@.take(i as int)),
        decreases cs@.len() - i,
    {
        let c: char = cs[i];
        if c == '&' {
            out.append("&amp;");
        } else if c == '<' {
            out.append("&lt;");
        } else if c == '>' {
            out.append("&gt;");
        } else if c == '"' {
            out.append("&quot;");
        } else if c == '\'' {
            out.append("&#39;");
        } else {
            out.push(c);
        }
        i = i + 1;
        proof {
            assert(cs@.take(i as int).drop_last() =~= cs@.take(i - 1));
            assert(cs@.take(i as int).last() == c);
            assert(out@ =~= html_escaped(cs@.take(i as int)));
        }
    }
    proof {
        assert(cs@.take(i as int) =~= s@);
    }
    out
}

/// Escaped text opens no tag and ends no attribute.
pub proof fn escaped_text_is_inert(s: Seq<char>)
    ensures
        forall|i: int|
            0 <= i < html_escaped(s).len() ==> {
                let c = #[trigger] html_escaped(s)[i];
                c != '<' && c != '>' && c != '"' && c != '\''
            },
    decreases s.len(),
{
    if s.len() > 0 {
        let head = html_escaped(s.drop_last());
        let tail = html_char(s.last());
        escaped_text_is_inert(s.drop_last());
        reveal_strlit("&amp;");
        reveal_strlit("&lt;");
        reveal_strlit("&gt;");
        reveal_strlit("&quot;");
        reveal_strlit("&#39;");
        assert forall|i: int| 0 <= i < html_escaped(s).len() implies {
            let c = #[trigger] html_escaped(s)[i];
            c != '<' && c != '>' && c != '"' && c != '\''
        } by {
            if i < head.len() {
                assert(html_escaped(s)[i] == head[i]);
            } else {
                assert(html_escaped(s)[i] == tail[i - head.len()]);
            }
        }
    }
}

/// The key under which the document server knows one editing of a file: it
/// differs from one read token to the next.
pub open spec fn document_key(sub: Seq<char>, path: Seq<char>, read_jwt: Seq<char>) -> Seq<char> {
    crate::b64::encoded(
        crate::b64::Form::UrlSafe,
        crate::crypto::sha256_digest(
            vstd::utf8::encode_utf8(sub + ":"@ + path + ":"@ + read_jwt),
        ).take(16),
    )
}

/// The address at which the document server finds something of the portal.
pub open spec fn portal_address(c: crate::config::ConfigModel, place: Seq<char>, token: Seq<char>)
    -> Seq<char> {
    crate::text::trim_end(c.public_base_url, '/') + place + token
}

/// The name under which the user is shown to others.
pub open spec fn shown_name(s: crate::session::SessionModel) -> Seq<char> {
    match s.name {
        Some(n) => n,
        None => s.email,
    }
}

/// Whether an editor config is the one for a user and a path, given the file
/// tokens.
pub open spec fn is_editor_config(
    e: EditorConfig,
    c: crate::config::ConfigModel,
    s: crate::session::SessionModel,
    path: Seq<char>,
    read_jwt: Seq<char>,
    write_jwt: Seq<char>,
) -> bool {
    &&& crate::onlyoffice::is_config_for(
        e,
        crate::text::after_last(path, '/'),
        crate::onlyoffice::kind_of(path),
        document_key(s.sub, path, read_jwt),
        portal_address(c, "/api/file/"@, read_jwt),
        portal_address(c, "/api/callback/"@, write_jwt),
        s.sub,
        shown_name(s),
    )
    &&& crate::onlyoffice::is_signed(e, vstd::utf8::encode_utf8(c.oo_jwt_secret))
}

/// The editor page: the template with the title, the address of the document
/// server and the editor config put in, in that order.
pub open spec fn editor_html(
    template: Seq<char>,
    title: Seq<char>,
    document_server: Seq<char>,
    config_json: Seq<char>,
) -> Seq<char> {
    crate::text::replace_all(
        crate::text::replace_all(
            crate::text::replace_all(template, "{{TITLE}}"@, html_escaped(title)),
            "{{DOC_SERVER}}"@,
            crate::text::trim_end(document_server, '/'),
        ),
        "{{CONFIG_JSON}}"@,
        config_json,
    )
}

/// Whether an answer is the editor page for a user and a path, given the file
/// tokens.
pub open spec fn is_editor_page(
    r: crate::reply::ReplyModel,
    c: crate::config::ConfigModel,
    s: crate::session::SessionModel,
    path: Seq<char>,
    template: Seq<char>,
    read_jwt: Seq<char>,
    write_jwt: Seq<char>,
) -> bool {
    exists|e: EditorConfig|
        is_editor_config(e, c, s, path, read_jwt, write_jwt) && r == crate::reply::plain(
            200,
            crate::reply::BodyModel::Html(
                editor_html(
                    template,
                    crate::text::after_last(path, '/'),
                    c.oo_document_server_url,
                    crate::json::json_text(#[trigger] crate::onlyoffice::config_json(e)),
                ),
            ),
        )
}

/// The editor page for a user and a path, given the file tokens.
pub fn editor_page(
    config: &Config,
    session: &Session,
    path: &str,
    template: &str,
    read_jwt: &str,
    write_jwt: &str,
) -> (r: Reply)
    ensures
        is_editor_page(r@, config@, session@, path@, template@, read_jwt@, write_jwt@),
{
    let base = trim_end_of(config.public_base_url.as_str(), '/');
    let file_url = join3(base.as_str(), "/api/file/", read_jwt);
    let callback_url = join3(base.as_str(), "/api/callback/", write_jwt);
    let title = after_last_of(path, '/');
    let mut identity = join3(session.sub.as_str(), ":", path);
    identity.append(":");
    identity.append(read_jwt);
    let digest = sha256(identity.as_str().as_bytes());
    let (half, _) = digest.as_slice().split_at(16);
    let key = encode_url_safe(half);
    proof {
        assert(identity@ =~= session@.sub + ":"@ + path@ + ":"@ + read_jwt@);
        assert(half@ =~= digest@.take(16));
    }
    let name = match &session.name {
        Some(name) => name.as_str(),
        None => session.email.as_str(),
    };
    let editor_config = match build_and_sign(
        title.as_str(),
        FileKind::from_path(path),
        key.as_str(),
        file_url.as_str(),
        callback_url.as_str(),
        session.sub.as_str(),
        name,
        config.oo_jwt_secret.as_str().as_bytes(),
    ) {
        Ok(c) => c,
        Err(_) => return Reply::text(500, "oo config sign"),
    };
    let json = editor_config.to_json();
    let server = trim_end_of(config.oo_document_server_url.as_str(), '/');
    proof {
        reveal_strlit("{{TITLE}}");
        reveal_strlit("{{DOC_SERVER}}");
        reveal_strlit("{{CONFIG_JSON}}");
    }
    let html = replace_of(template, "{{TITLE}}", html_escape(title.as_str()).as_str());
    let html = replace_of(html.as_str(), "{{DOC_SERVER}}", server.as_str());
    let html = replace_of(html.as_str(), "{{CONFIG_JSON}}", json.as_str());
    let ghost page = html@;
    proof {
        assert(is_editor_config(
            editor_config,
            config@,
            session@,
            path@,
            read_jwt@,
            write_jwt@,
        ));
        assert(page == editor_html(
            template@,
            crate::text::after_last(path@, '/'),
            config@.oo_document_server_url,
            crate::json::json_text(crate::onlyoffice::config_json(editor_config)),
        ));
    }
    Reply::plain(200, Body::Html(html))
}

/// Whether a token was minted for the editor, for a user, a path and an
/// action.
pub open spec fn is_editor_token(
    token: Seq<char>,
    c: crate::config::ConfigModel,
    s: crate::session::SessionModel,
    path: Seq<char>,
    action: Action,
) -> bool {
    exists|now: i64, nonce: Seq<u8>| #[trigger]
        crate::file_jwt::is_minted(
            token,
            s,
            path,
            action,
            EDITOR_TTL,
            now,
            nonce,
            c.file_jwt_key,
            c.session_key,
        )
}

fn mint_editor_token(config: &Config, session: &Session, path: &str, action: Action)
    -> (token: Option<String>)
    ensures
        match token {
            Some(t) => is_editor_token(t@, config@, session@, path@, action),
            None => !crate::signin::can_be_sealed(session@),
        },
        token is Some ==> crate::signin::can_be_sealed(session@),
{
    match mint(
        session,
        path,
        action,
        EDITOR_TTL,
        &config.file_jwt_key,
        &config.session_key,
    ) {
        Ok(t) => {
            proof {
                let (now, nonce) = choose|now: i64, nonce: Seq<u8>| #[trigger]
                    crate::file_jwt::is_minted(
                        t@,
                        session@,
                        path@,
                        action,
                        EDITOR_TTL,
                        now,
                        nonce,
                        config.file_jwt_key@,
                        config.session_key@,
                    );
                assert(crate::file_jwt::is_minted(
                    t@,
                    session@,
                    path@,
                    action,
                    EDITOR_TTL,
                    now,
                    nonce,
                    config.file_jwt_key@,
                    config.session_key@,
                ));
                assert(config@.file_jwt_key == config.file_jwt_key@);
                assert(config@.session_key == config.session_key@);
            }
            Some(t)
        },
        Err(_) => None,
    }
}

/// Whether an answer is the editor page for a user and a path, with a token to
/// read the file and one to write it.
pub open spec fn is_editor_answer(
    r: crate::reply::ReplyModel,
    c: crate::config::ConfigModel,
    s: crate::session::SessionModel,
    path: Seq<char>,
    template: Seq<char>,
) -> bool {
    exists|read_jwt: Seq<char>, write_jwt: Seq<char>|
        {
            &&& is_editor_token(read_jwt, c, s, path, Action::Read)
            &&& is_editor_token(write_jwt, c, s, path, Action::Write)
            &&& #[trigger] is_editor_page(r, c, s, path, template, read_jwt, write_jwt)
        }
}

/// The editor page for a user and a path: a token to read the file and one to
/// write it are minted, each good for four hours.
pub fn editor(config: &Config, session: &Session, path: &str, template: &str) -> (r: Reply)
    ensures
        crate::signin::can_be_sealed(session@) ==> is_editor_answer(
            r@,
            config@,
            session@,
            path@,
            template@,
        ),
        if crate::signin::can_be_sealed(session@) {
            exists|read_jwt: Seq<char>, write_jwt: Seq<char>|
                {
                    &&& is_editor_token(read_jwt, config@, session@, path@, Action::Read)
                    &&& is_editor_token(write_jwt, config@, session@, path@, Action::Write)
                    &&& #[trigger] is_editor_page(
                        r@,
                        config@,
                        session@,
                        path@,
                        template@,
                        read_jwt,
                        write_jwt,
                    )
                }
        } else {
            r@ == crate::reply::plain(500, crate::reply::BodyModel::Text("jwt mint"@))
        },
{
    let read_jwt = match mint_editor_token(config, session, path, Action::Read) {
        Some(t) => t,
        None => return Reply::text(500, "jwt mint"),
    };
    let write_jwt = match mint_editor_token(config, session, path, Action::Write) {
        Some(t) => t,
        None => return Reply::text(500, "jwt mint"),
    };
    editor_page(config, session, path, template, read_jwt.as_str(), write_jwt.as_str())
}

} // verus!
