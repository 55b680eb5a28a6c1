//! What the editor is told of a document, and what the document server may do
//! with the tokens it gets.

use crate::config::ConfigModel;
use crate::docserver::{Fetched, SaveStepModel, TokenAccessModel};
use crate::file_jwt::{Action, FileClaimsModel};
use crate::json::Json;
use crate::onlyoffice::{CallbackStatus, EditorConfig};
use crate::reply::{BodyModel, ReplyModel};
use crate::session::SessionModel;
use vstd::prelude::*;

verus! {

/// Whether a text is a word of small letters, each of them perhaps written as
/// a capital.
pub open spec fn is_spelled(s: Seq<char>, word: Seq<char>) -> bool {
    &&& s.len() == word.len()
    &&& forall|i: int|
        0 <= i < s.len() ==> #[trigger] s[i] == word[i] || ('a' <= word[i] <= 'z' && s[i] as int
            == word[i] as int - 32)
}

/// Whether a path ends in an extension, in letters of either case.
pub open spec fn ends_in(path: Seq<char>, extension: Seq<char>) -> bool {
    path.len() >= extension.len() && is_spelled(
        path.skip(path.len() - extension.len()),
        extension,
    )
}

proof fn lemma_extension(path: Seq<char>, extension: Seq<char>)
    requires
        forall|i: int|
            0 <= i < extension.len() ==> #[trigger] extension[i] == '.' || 'a' <= extension[i]
                <= 'z',
    ensures
        crate::onlyoffice::has_extension(path, extension) <==> ends_in(path, extension),
{
    let low = path.map_values(|c: char| crate::text::lower_char(c));
    let n = path.len() - extension.len();
    if path.len() >= extension.len() {
        let tail = path.skip(n);
        if ends_in(path, extension) {
            assert forall|i: int| 0 <= i < extension.len() implies low[n + i] == extension[i] by {
                assert(tail[i] == path[n + i]);
                assert(tail[i] == extension[i] || ('a' <= extension[i] <= 'z' && tail[i] as int
                    == extension[i] as int - 32));
                assert(extension[i] == '.' || 'a' <= extension[i] <= 'z');
            }
            assert(extension =~= low.subrange(n, low.len() as int));
        }
        if crate::onlyoffice::has_extension(path, extension) {
            assert forall|i: int| 0 <= i < tail.len() implies #[trigger] tail[i] == extension[i]
                || ('a' <= extension[i] <= 'z' && tail[i] as int == extension[i] as int - 32) by {
                assert(low.subrange(n, low.len() as int)[i] == extension[i]);
                assert(low[n + i] == crate::text::lower_char(path[n + i]));
                assert(tail[i] == path[n + i]);
            }
        }
    }
}

/// Whether a path ends in one of two extensions.
pub open spec fn ends_in_either(path: Seq<char>, a: Seq<char>, b: Seq<char>) -> bool {
    ends_in(path, a) || ends_in(path, b)
}

/// What OnlyOffice is to be told of a file: which editor, and which format.
pub open spec fn is_told_as(
    kind: crate::onlyoffice::FileKind,
    editor: Seq<char>,
    format: Seq<char>,
) -> bool {
    crate::onlyoffice::editor_of(kind) == editor && crate::onlyoffice::format_of(kind) == format
}

/// A file is edited by the extension of its path, in letters of either case:
/// text documents as such, spreadsheets as such, presentations as such, and
/// any other file as plain text.
pub proof fn files_are_edited_by_extension(path: Seq<char>)
    ensures
        ends_in_either(path, ".docx"@, ".doc"@) ==> is_told_as(
            crate::onlyoffice::kind_of(path),
            "word"@,
            "docx"@,
        ),
        ends_in_either(path, ".xlsx"@, ".xls"@) ==> is_told_as(
            crate::onlyoffice::kind_of(path),
            "cell"@,
            "xlsx"@,
        ),
        ends_in_either(path, ".pptx"@, ".ppt"@) ==> is_told_as(
            crate::onlyoffice::kind_of(path),
            "slide"@,
            "pptx"@,
        ),
        !ends_in_either(path, ".docx"@, ".doc"@) && !ends_in_either(path, ".xlsx"@, ".xls"@)
            && !ends_in_either(path, ".pptx"@, ".ppt"@) ==> is_told_as(
            crate::onlyoffice::kind_of(path),
            "word"@,
            "txt"@,
        ),
{
    reveal_strlit(".docx");
    reveal_strlit(".doc");
    reveal_strlit(".xlsx");
    reveal_strlit(".xls");
    reveal_strlit(".pptx");
    reveal_strlit(".ppt");
    lemma_extension(path, ".docx"@);
    lemma_extension(path, ".doc"@);
    lemma_extension(path, ".xlsx"@);
    lemma_extension(path, ".xls"@);
    lemma_extension(path, ".pptx"@);
    lemma_extension(path, ".ppt"@);
    let low = path.map_values(|c: char| crate::text::lower_char(c));
    let n = low.len() as int;
    if crate::onlyoffice::has_extension(path, ".docx"@) {
        assert(low.subrange(n - 5, n)[4] == 'x' && low.subrange(n - 5, n)[3] == 'c');
        assert(low[n - 1] == 'x' && low[n - 2] == 'c');
    }
    if crate::onlyoffice::has_extension(path, ".doc"@) {
        assert(low.subrange(n - 4, n)[3] == 'c');
        assert(low[n - 1] == 'c');
    }
    if crate::onlyoffice::has_extension(path, ".xlsx"@) {
        assert(low.subrange(n - 5, n)[4] == 'x' && low.subrange(n - 5, n)[3] == 's');
        assert(low[n - 1] == 'x' && low[n - 2] == 's');
    }
    if crate::onlyoffice::has_extension(path, ".xls"@) {
        assert(low.subrange(n - 4, n)[3] == 's');
        assert(low[n - 1] == 's');
    }
    if crate::onlyoffice::has_extension(path, ".pptx"@) {
        assert(low.subrange(n - 5, n)[4] == 'x' && low.subrange(n - 5, n)[3] == 't');
        assert(low[n - 1] == 'x' && low[n - 2] == 't');
    }
    if crate::onlyoffice::has_extension(path, ".ppt"@) {
        assert(low.subrange(n - 4, n)[3] == 't');
        assert(low[n - 1] == 't');
    }
}

/// Whether an object has a member of that name and value.
pub open spec fn says(j: Json, name: Seq<char>, value: Json) -> bool {
    crate::promises::answers::says(j, name, value)
}

/// What the config in the editor page says of the document: its format, where
/// it is fetched, under which key and title, and that it may be edited.
pub open spec fn says_of_document(
    config: Json,
    format: Seq<char>,
    key: Seq<char>,
    title: Seq<char>,
    url: Seq<char>,
) -> bool {
    exists|d: Json, p: Json|
        {
            &&& #[trigger] says(config, "document"@, d)
            &&& #[trigger] says(d, "permissions"@, p)
            &&& says(d, "fileType"@, Json::Text(format))
            &&& says(d, "key"@, Json::Text(key))
            &&& says(d, "title"@, Json::Text(title))
            &&& says(d, "url"@, Json::Text(url))
            &&& says(p, "edit"@, Json::Bool(true))
            &&& says(p, "download"@, Json::Bool(true))
            &&& says(p, "print"@, Json::Bool(true))
        }
}

/// What the config in the editor page says of the editing: where it is
/// reported, and who edits.
pub open spec fn says_of_editing(
    config: Json,
    callback_url: Seq<char>,
    user_id: Seq<char>,
    user_name: Seq<char>,
) -> bool {
    exists|e: Json, u: Json|
        {
            &&& #[trigger] says(config, "editorConfig"@, e)
            &&& #[trigger] says(e, "user"@, u)
            &&& says(e, "mode"@, Json::Text("edit"@))
            &&& says(e, "callbackUrl"@, Json::Text(callback_url))
            &&& says(e, "lang"@, Json::Text("en"@))
            &&& says(u, "id"@, Json::Text(user_id))
            &&& says(u, "name"@, Json::Text(user_name))
        }
}

/// The config in the editor page is that of the file and the user: it names
/// the editor and the format that fit the extension, the last segment of the
/// path as the title, the addresses under which the portal takes the two file
/// tokens, and the user under the name shown to others.
pub proof fn editor_configs_fit_the_file(
    e: EditorConfig,
    c: ConfigModel,
    s: SessionModel,
    path: Seq<char>,
    read_jwt: Seq<char>,
    write_jwt: Seq<char>,
)
    requires
        crate::editor::is_editor_config(e, c, s, path, read_jwt, write_jwt),
    ensures
        ({
            let config = crate::onlyoffice::config_json(e);
            let (editor, format) = if ends_in_either(path, ".xlsx"@, ".xls"@) {
                ("cell"@, "xlsx"@)
            } else if ends_in_either(path, ".pptx"@, ".ppt"@) {
                ("slide"@, "pptx"@)
            } else if ends_in_either(path, ".docx"@, ".doc"@) {
                ("word"@, "docx"@)
            } else {
                ("word"@, "txt"@)
            };
            let portal = crate::text::trim_end(c.public_base_url, '/');
            &&& says(config, "documentType"@, Json::Text(editor))
            &&& says_of_document(
                config,
                format,
                crate::b64::encoded(
                    crate::b64::Form::UrlSafe,
                    crate::crypto::sha256_digest(
                        vstd::utf8::encode_utf8(s.sub + ":"@ + path + ":"@ + read_jwt),
                    ).take(16),
                ),
                crate::text::after_last(path, '/'),
                portal + "/api/file/"@ + read_jwt,
            )
            &&& says_of_editing(
                config,
                portal + "/api/callback/"@ + write_jwt,
                s.sub,
                match s.name {
                    Some(name) => name,
                    None => s.email,
                },
            )
            &&& says(config, "width"@, Json::Text("100%"@))
            &&& says(config, "height"@, Json::Text("100%"@))
            &&& says(config, "token"@, Json::Text(e.token@))
        }),
{
    files_are_edited_by_extension(path);
    let config = crate::onlyoffice::config_json(e);
    let m = config->Object_0;
    assert(m[0].0 == "document"@ && m[1].0 == "documentType"@ && m[2].0 == "editorConfig"@);
    assert(m[3].0 == "width"@ && m[4].0 == "height"@ && m[5].0 == "token"@);
    let d = m[0].1;
    let dm = d->Object_0;
    assert(dm[0].0 == "fileType"@ && dm[1].0 == "key"@ && dm[2].0 == "title"@);
    assert(dm[3].0 == "url"@ && dm[4].0 == "permissions"@);
    let p = dm[4].1;
    let pm = p->Object_0;
    assert(pm[0].0 == "edit"@ && pm[1].0 == "download"@ && pm[2].0 == "print"@);
    let i = m[2].1;
    let im = i->Object_0;
    assert(im[0].0 == "mode"@ && im[1].0 == "callbackUrl"@ && im[2].0 == "user"@);
    assert(im[3].0 == "lang"@);
    let u = im[2].1;
    let um = u->Object_0;
    assert(um[0].0 == "id"@ && um[1].0 == "name"@);
    assert(says(config, "document"@, d) && says(d, "permissions"@, p));
    assert(says(config, "editorConfig"@, i) && says(i, "user"@, u));
}

/// The token in the editor config signs, under the secret that is shared with
/// the document server, the document, its type and the settings of the editor
/// as the config says them.
pub proof fn editor_configs_are_signed(
    e: EditorConfig,
    c: ConfigModel,
    s: SessionModel,
    path: Seq<char>,
    read_jwt: Seq<char>,
    write_jwt: Seq<char>,
)
    requires
        crate::editor::is_editor_config(e, c, s, path, read_jwt, write_jwt),
    ensures
        exists|m: Seq<(Seq<char>, Json)>|
            {
                &&& e.token@ == #[trigger] crate::jwt::signed_token(
                    crate::json::json_text(Json::Object(m)),
                    vstd::utf8::encode_utf8(c.oo_jwt_secret),
                )
                &&& crate::jwt::token_payload(e.token@) == Some(
                    vstd::utf8::encode_utf8(crate::json::json_text(Json::Object(m))),
                )
                &&& m.len() == 3
                &&& m[0].0 == "document"@ && m[1].0 == "documentType"@ && m[2].0 == "editorConfig"@
                &&& forall|i: int|
                    0 <= i < 3 ==> says(
                        crate::onlyoffice::config_json(e),
                        (#[trigger] m[i]).0,
                        m[i].1,
                    )
            },
{
    let m = crate::onlyoffice::unsigned_json(e)->Object_0;
    let text = crate::json::json_text(Json::Object(m));
    let secret = vstd::utf8::encode_utf8(c.oo_jwt_secret);
    assert(Json::Object(m) == crate::onlyoffice::unsigned_json(e));
    crate::jwt::payload_comes_back(
        vstd::utf8::encode_utf8(crate::jwt::header_text()),
        vstd::utf8::encode_utf8(text),
        secret,
    );
    assert forall|i: int| 0 <= i < 3 implies says(
        crate::onlyoffice::config_json(e),
        (#[trigger] m[i]).0,
        m[i].1,
    ) by {
        assert(crate::onlyoffice::config_json(e)->Object_0[i] == m[i]);
    }
    assert(e.token@ == crate::jwt::signed_token(text, secret));
}

/// Whether `pat` stands nowhere in a text.
pub open spec fn is_free_of(s: Seq<char>, pat: Seq<char>) -> bool {
    forall|i: int| 0 <= i < s.len() ==> !pat.is_prefix_of(#[trigger] s.skip(i))
}

/// Whether `pat` stands behind `a` for the first time in a text that goes on
/// with `b`, and not again.
pub open spec fn stands_once(a: Seq<char>, pat: Seq<char>, b: Seq<char>) -> bool {
    &&& forall|i: int| 0 <= i < a.len() ==> !pat.is_prefix_of(#[trigger] (a + pat + b).skip(i))
    &&& is_free_of(b, pat)
}

proof fn lemma_put_in(a: Seq<char>, pat: Seq<char>, b: Seq<char>, to: Seq<char>)
    requires
        pat.len() > 0,
        stands_once(a, pat, b),
    ensures
        crate::text::replace_all(a + pat + b, pat, to) == a + to + b,
{
    crate::text::replacing_puts_in_place(a, pat, b, to);
    crate::text::replacing_keeps_the_rest(b, pat, to);
}

/// The title, made harmless in HTML, stands where the page has the mark for
/// it; so do the address of the document server without trailing slashes, and
/// the config.
pub proof fn pages_are_filled_in(
    a: Seq<char>,
    b: Seq<char>,
    title: Seq<char>,
    server: Seq<char>,
    config: Seq<char>,
)
    ensures
        ({
            let t = "{{TITLE}}"@;
            let escaped = a + crate::editor::html_escaped(title) + b;
            stands_once(a, t, b) && is_free_of(escaped, "{{DOC_SERVER}}"@) && is_free_of(
                escaped,
                "{{CONFIG_JSON}}"@,
            ) ==> crate::editor::editor_html(a + t + b, title, server, config) == escaped
        }),
        ({
            let t = "{{DOC_SERVER}}"@;
            let filled = a + crate::text::trim_end(server, '/') + b;
            stands_once(a, t, b) && is_free_of(a + t + b, "{{TITLE}}"@) && is_free_of(
                filled,
                "{{CONFIG_JSON}}"@,
            ) ==> crate::editor::editor_html(a + t + b, title, server, config) == filled
        }),
        ({
            let t = "{{CONFIG_JSON}}"@;
            stands_once(a, t, b) && is_free_of(a + t + b, "{{TITLE}}"@) && is_free_of(
                a + t + b,
                "{{DOC_SERVER}}"@,
            ) ==> crate::editor::editor_html(a + t + b, title, server, config) == a + config + b
        }),
{
    reveal_strlit("{{TITLE}}");
    reveal_strlit("{{DOC_SERVER}}");
    reveal_strlit("{{CONFIG_JSON}}");
    let name = crate::editor::html_escaped(title);
    let place = crate::text::trim_end(server, '/');
    let t1 = "{{TITLE}}"@;
    let t2 = "{{DOC_SERVER}}"@;
    let t3 = "{{CONFIG_JSON}}"@;
    if stands_once(a, t1, b) && is_free_of(a + name + b, t2) && is_free_of(a + name + b, t3) {
        lemma_put_in(a, t1, b, name);
        crate::text::replacing_keeps_the_rest(a + name + b, t2, place);
        crate::text::replacing_keeps_the_rest(a + name + b, t3, config);
    }
    if stands_once(a, t2, b) && is_free_of(a + t2 + b, t1) && is_free_of(a + place + b, t3) {
        crate::text::replacing_keeps_the_rest(a + t2 + b, t1, name);
        lemma_put_in(a, t2, b, place);
        crate::text::replacing_keeps_the_rest(a + place + b, t3, config);
    }
    if stands_once(a, t3, b) && is_free_of(a + t3 + b, t1) && is_free_of(a + t3 + b, t2) {
        crate::text::replacing_keeps_the_rest(a + t3 + b, t1, name);
        crate::text::replacing_keeps_the_rest(a + t3 + b, t2, place);
        lemma_put_in(a, t3, b, config);
    }
}

/// The editor page is filled in with the title of the file, the configured
/// document server and a config of the file.
pub proof fn editor_pages_show_the_file(
    r: ReplyModel,
    c: ConfigModel,
    s: SessionModel,
    path: Seq<char>,
    template: Seq<char>,
    read_jwt: Seq<char>,
    write_jwt: Seq<char>,
)
    requires
        crate::editor::is_editor_page(r, c, s, path, template, read_jwt, write_jwt),
    ensures
        r.status == 200,
        r.set_cookie is None,
        exists|e: EditorConfig|
            {
                &&& #[trigger] crate::editor::is_editor_config(e, c, s, path, read_jwt, write_jwt)
                &&& r.body == BodyModel::Html(
                    crate::editor::editor_html(
                        template,
                        crate::text::after_last(path, '/'),
                        c.oo_document_server_url,
                        crate::json::json_text(crate::onlyoffice::config_json(e)),
                    ),
                )
            },
{
    let e = choose|e: EditorConfig|
        crate::editor::is_editor_config(e, c, s, path, read_jwt, write_jwt) && r
            == crate::reply::plain(
            200,
            crate::reply::BodyModel::Html(
                crate::editor::editor_html(
                    template,
                    crate::text::after_last(path, '/'),
                    c.oo_document_server_url,
                    crate::json::json_text(#[trigger] crate::onlyoffice::config_json(e)),
                ),
            ),
        );
    assert(crate::editor::is_editor_config(e, c, s, path, read_jwt, write_jwt));
}

/// Text in HTML is escaped character by character: the five that mean
/// something there as references, and every other as it is.
pub proof fn html_is_escaped_by_character(a: Seq<char>, b: Seq<char>)
    ensures
        crate::editor::html_escaped(a + b) == crate::editor::html_escaped(a)
            + crate::editor::html_escaped(b),
        crate::editor::html_escaped(seq!['&']) == "&amp;"@,
        crate::editor::html_escaped(seq!['<']) == "&lt;"@,
        crate::editor::html_escaped(seq!['>']) == "&gt;"@,
        crate::editor::html_escaped(seq!['"']) == "&quot;"@,
        crate::editor::html_escaped(seq!['\'']) == "&#39;"@,
        (forall|i: int|
            0 <= i < a.len() ==> {
                let c = #[trigger] a[i];
                c != '&' && c != '<' && c != '>' && c != '"' && c != '\''
            }) ==> crate::editor::html_escaped(a) == a,
    decreases a.len() + b.len(),
{
    assert forall|c: char| #[trigger]
        crate::editor::html_escaped(seq![c]) == crate::editor::html_char(c) by {
        assert(seq![c].drop_last() =~= Seq::empty());
        assert(crate::editor::html_escaped(seq![c].drop_last()) =~= Seq::empty());
        assert(seq![c].last() == c);
        assert(Seq::<char>::empty() + crate::editor::html_char(c) =~= crate::editor::html_char(c));
    }
    if b.len() > 0 {
        html_is_escaped_by_character(a, b.drop_last());
        assert((a + b).drop_last() =~= a + b.drop_last());
        assert(crate::editor::html_escaped(a + b) =~= crate::editor::html_escaped(a)
            + crate::editor::html_escaped(b));
    } else {
        assert(a + b =~= a);
        assert(crate::editor::html_escaped(a + b) =~= crate::editor::html_escaped(a)
            + crate::editor::html_escaped(b));
        if a.len() > 0 {
            html_is_escaped_by_character(a.drop_last(), b);
            if forall|i: int|
                0 <= i < a.len() ==> {
                    let c = #[trigger] a[i];
                    c != '&' && c != '<' && c != '>' && c != '"' && c != '\''
                } {
                assert forall|i: int| 0 <= i < a.drop_last().len() implies {
                    let c = #[trigger] a.drop_last()[i];
                    c != '&' && c != '<' && c != '>' && c != '"' && c != '\''
                } by {
                    assert(a.drop_last()[i] == a[i]);
                }
                let c = a[a.len() - 1];
                assert(crate::editor::html_char(a.last()) == seq![a.last()]);
                assert(a.drop_last() + seq![a.last()] =~= a);
            }
        }
    }
    if b.len() > 0 {
        html_is_escaped_by_character(a, Seq::empty());
    }
}

/// Whether claims are those of a token for the editor: of the user, for the
/// file and the action, good for four hours, with the user's session sealed
/// under the portal's key.
pub open spec fn are_editor_claims(
    k: FileClaimsModel,
    c: ConfigModel,
    s: SessionModel,
    path: Seq<char>,
    action: Action,
) -> bool {
    &&& k.sub == s.sub && k.email == s.email
    &&& k.path == path
    &&& k.action == action
    &&& k.exp == k.iat + 4 * 60 * 60
    &&& exists|nonce: Seq<u8>| #[trigger]
        crate::session::is_sealed_session(k.session_enc, s, c.session_key, nonce)
}

proof fn lemma_editor_token(
    token: Seq<char>,
    c: ConfigModel,
    s: SessionModel,
    path: Seq<char>,
    action: Action,
) -> (k: FileClaimsModel)
    requires
        crate::editor::is_editor_token(token, c, s, path, action),
    ensures
        token == crate::file_jwt::claims_token(k, c.file_jwt_key),
        are_editor_claims(k, c, s, path, action),
{
    let (now, nonce) = choose|now: i64, nonce: Seq<u8>| #[trigger]
        crate::file_jwt::is_minted(
            token,
            s,
            path,
            action,
            crate::editor::EDITOR_TTL,
            now,
            nonce,
            c.file_jwt_key,
            c.session_key,
        );
    let enc = crate::session::sealed_session(s, c.session_key, nonce);
    let k = crate::file_jwt::minted_claims(
        s,
        path,
        action,
        crate::editor::EDITOR_TTL,
        now,
        enc,
    );
    assert(crate::session::is_sealed_session(k.session_enc, s, c.session_key, nonce));
    k
}

/// The editor page carries a token with which the file can be read and one
/// with which it can be written, each for the file and in the name of the
/// user, and for four hours.
pub proof fn editors_may_read_and_write_the_file(
    r: ReplyModel,
    c: ConfigModel,
    s: SessionModel,
    path: Seq<char>,
    template: Seq<char>,
)
    requires
        crate::editor::is_editor_answer(r, c, s, path, template),
    ensures
        exists|k: FileClaimsModel, l: FileClaimsModel|
            {
                &&& are_editor_claims(k, c, s, path, Action::Read)
                &&& are_editor_claims(l, c, s, path, Action::Write)
                &&& #[trigger] crate::editor::is_editor_page(
                    r,
                    c,
                    s,
                    path,
                    template,
                    crate::file_jwt::claims_token(k, c.file_jwt_key),
                    crate::file_jwt::claims_token(l, c.file_jwt_key),
                )
            },
{
    let (read_jwt, write_jwt) = choose|read_jwt: Seq<char>, write_jwt: Seq<char>|
        {
            &&& crate::editor::is_editor_token(read_jwt, c, s, path, Action::Read)
            &&& crate::editor::is_editor_token(write_jwt, c, s, path, Action::Write)
            &&& #[trigger] crate::editor::is_editor_page(
                r,
                c,
                s,
                path,
                template,
                read_jwt,
                write_jwt,
            )
        };
    let k = lemma_editor_token(read_jwt, c, s, path, Action::Read);
    let l = lemma_editor_token(write_jwt, c, s, path, Action::Write);
    assert(crate::editor::is_editor_page(
        r,
        c,
        s,
        path,
        template,
        crate::file_jwt::claims_token(k, c.file_jwt_key),
        crate::file_jwt::claims_token(l, c.file_jwt_key),
    ));
}

/// A token to write opens no download, and a token to read no save; and
/// nothing is opened by a token that the portal's key did not sign.
pub proof fn tokens_open_only_what_they_are_for(
    a: TokenAccessModel,
    token: Seq<char>,
    c: ConfigModel,
    now: i64,
    k: FileClaimsModel,
)
    ensures
        token == crate::file_jwt::claims_token(k, c.file_jwt_key) && k.action == Action::Write
            && crate::docserver::may_read(a, token, c, now) ==> a is Denied,
        token == crate::file_jwt::claims_token(k, c.file_jwt_key) && k.action == Action::Read
            && crate::docserver::may_save(a, token, c, now) ==> a is Denied,
        a is Granted && (crate::docserver::may_read(a, token, c, now) || crate::docserver::may_save(
            a,
            token,
            c,
            now,
        )) ==> exists|header: Seq<u8>, payload: Seq<u8>|
            token == #[trigger] crate::jwt::token_of(header, payload, c.file_jwt_key),
{
    if crate::docserver::may_read(a, token, c, now) {
        lemma_token_for(a, token, Action::Read, c, now, k);
    }
    if crate::docserver::may_save(a, token, c, now) {
        lemma_token_for(a, token, Action::Write, c, now, k);
    }
}

proof fn lemma_token_for(
    a: TokenAccessModel,
    token: Seq<char>,
    action: Action,
    c: ConfigModel,
    now: i64,
    k: FileClaimsModel,
)
    requires
        crate::docserver::follows_token(a, token, action, c, now),
    ensures
        token == crate::file_jwt::claims_token(k, c.file_jwt_key) && k.action != action ==> a
            is Denied,
        a is Granted ==> exists|header: Seq<u8>, payload: Seq<u8>|
            token == #[trigger] crate::jwt::token_of(header, payload, c.file_jwt_key),
{
    let clock = choose|clock: u64| #[trigger]
        crate::docserver::follows_token_at(a, token, action, c, now, clock);
    let outcome = choose|
        outcome: Result<(FileClaimsModel, SessionModel), crate::file_jwt::FileJwtFault>,
    |
        a == crate::docserver::token_access(outcome, now)
            && #[trigger] crate::file_jwt::is_granted_at(
            outcome,
            token,
            action,
            c.file_jwt_key,
            c.session_key,
            clock,
        );
    if token == crate::file_jwt::claims_token(k, c.file_jwt_key) {
        assert(crate::file_jwt::claims_outcome(k, action, c.session_key, clock, outcome));
    }
    if a is Granted {
        let signed = crate::jwt::signed_payload(token, c.file_jwt_key);
        assert(crate::jwt::carried(signed) is Some);
        let header = choose|header: Seq<u8>|
            token == #[trigger] crate::jwt::token_of(
                header,
                crate::jwt::carried(signed)->0,
                c.file_jwt_key,
            );
        assert(token == crate::jwt::token_of(
            header,
            crate::jwt::carried(signed)->0,
            c.file_jwt_key,
        ));
    }
}

/// A token of the portal, in date when it is looked at, lets the document
/// server read or save the file that it names, as the user whose session it
/// carries.
pub proof fn tokens_open_their_file(
    a: TokenAccessModel,
    token: Seq<char>,
    c: ConfigModel,
    now: i64,
    k: FileClaimsModel,
    s: SessionModel,
    nonce: Seq<u8>,
)
    requires
        token == crate::file_jwt::claims_token(k, c.file_jwt_key),
        crate::session::is_sealed_session(k.session_enc, s, c.session_key, nonce),
        (k.action == Action::Read && crate::docserver::may_read(a, token, c, now)) || (k.action
            == Action::Write && crate::docserver::may_save(a, token, c, now)),
    ensures
        exists|clock: u64|
            #![trigger crate::file_jwt::is_expired(k, clock)]
            if 0 <= k.exp < clock {
                a is Denied
            } else {
                &&& a matches TokenAccessModel::Granted { path, access }
                &&& path == k.path
                &&& access == (if s.refresh_token is Some && now >= s.access_token_exp - 60 {
                    crate::files::AccessModel::Refresh {
                        session: s,
                        token: s.refresh_token->0,
                    }
                } else {
                    crate::files::AccessModel::Ready(s)
                })
            },
{
    let clock = choose|clock: u64| #[trigger]
        crate::docserver::follows_token_at(a, token, k.action, c, now, clock);
    crate::docserver::minted_token_opens_its_file(a, token, k.action, c, now, clock, k, s, nonce);
    assert(crate::file_jwt::is_expired(k, clock) == (0 <= k.exp < clock));
}

/// A token is judged in order: one that is not signed is refused in the words
/// of the decoder, then one that holds no claims, then one that is out of date,
/// then one for another action, then one whose session cannot be opened; and
/// what is left gives its claims and its session.
pub proof fn tokens_are_judged_in_order(
    words: Seq<char>,
    payload: Seq<u8>,
    dated: Result<(), (bool, Seq<char>)>,
    action: Action,
    key: Seq<u8>,
)
    ensures
        crate::file_jwt::granted(crate::jwt::SignedModel::Refused(words), dated, action, key)
            == Err::<(FileClaimsModel, SessionModel), _>(
            crate::file_jwt::FileJwtFault::Jwt(crate::file_jwt::JwtFault::Refused(words)),
        ),
        ({
            let r = crate::file_jwt::granted(
                crate::jwt::SignedModel::Payload(payload),
                dated,
                action,
                key,
            );
            match crate::file_jwt::claims_from_json(payload) {
                None => r == Err::<(FileClaimsModel, SessionModel), _>(
                    crate::file_jwt::FileJwtFault::Jwt(crate::file_jwt::JwtFault::Claims(payload)),
                ),
                Some(k) => if dated is Err {
                    r matches Err(
                        crate::file_jwt::FileJwtFault::Jwt(crate::file_jwt::JwtFault::Refused(w)),
                    ) && Err::<(), _>((dated->Err_0.0, w)) == dated
                } else if k.action != action {
                    r == Err::<(FileClaimsModel, SessionModel), _>(
                        crate::file_jwt::FileJwtFault::WrongAction,
                    )
                } else {
                    match crate::session::opened_session(k.session_enc, key) {
                        Ok(s) => r == Ok::<_, crate::file_jwt::FileJwtFault>((k, s)),
                        Err(_) => r == Err::<(FileClaimsModel, SessionModel), _>(
                            crate::file_jwt::FileJwtFault::SessionDecrypt,
                        ),
                    }
                },
            }
        }),
{
}

/// Each code of the document server has its own meaning.
pub proof fn callback_codes_have_their_meaning(n: i64)
    ensures
        crate::onlyoffice::status_of(0) == CallbackStatus::NotFound,
        crate::onlyoffice::status_of(1) == CallbackStatus::Editing,
        crate::onlyoffice::status_of(2) == CallbackStatus::ReadyToSave,
        crate::onlyoffice::status_of(3) == CallbackStatus::SaveError,
        crate::onlyoffice::status_of(4) == CallbackStatus::ClosedNoChanges,
        crate::onlyoffice::status_of(6) == CallbackStatus::Forcesave,
        crate::onlyoffice::status_of(7) == CallbackStatus::ForcesaveError,
        n < 0 || n == 5 || n > 7 ==> crate::onlyoffice::status_of(n) == CallbackStatus::Other(n),
{
}

/// Whether an answer tells the document server that all is well, or not, with
/// a status, and is counted under a name.
pub open spec fn is_told(
    a: crate::docserver::CallbackAnswerModel,
    status: int,
    well: bool,
    result: Seq<char>,
) -> bool {
    crate::promises::answers::is_bare(
        a.reply,
        status,
        BodyModel::Json(
            if well {
                "{\"error\":0}"@
            } else {
                "{\"error\":1}"@
            },
        ),
    ) && a.result == result
}

proof fn lemma_told(status: u16, result: Seq<char>)
    ensures
        is_told(crate::docserver::answered(status, 0, result), status as int, true, result),
        is_told(crate::docserver::answered(status, 1, result), status as int, false, result),
{
    reveal_strlit("error");
    reveal_strlit("{\"error\":0}");
    reveal_strlit("{\"error\":1}");
    let word = "error"@;
    assert(crate::json::escaped(word) =~= word) by {
        reveal_with_fuel(crate::json::escaped, 6);
        assert(word.drop_last().drop_last().drop_last().drop_last().drop_last() =~= Seq::empty());
        assert(crate::json::escaped(word) =~= seq!['e', 'r', 'r', 'o', 'r']);
    }
    assert forall|n: int| 0 <= n <= 1 implies #[trigger] crate::json::json_text(
        crate::docserver::response_json(n),
    ) =~= seq!['{', '"', 'e', 'r', 'r', 'o', 'r', '"', ':', crate::numbers::digit(n), '}'] by {
        let m = seq![("error"@, Json::Int(n))];
        assert(m.last() == m[0]);
        reveal_with_fuel(crate::json::json_text, 3);
        reveal_with_fuel(crate::json::members_text, 3);
        assert(crate::json::json_text(Json::Int(n)) == crate::numbers::decimal(n));
        assert(crate::json::members_text(m) =~= crate::json::quoted(word) + seq![':']
            + crate::numbers::decimal(n));
        assert(crate::numbers::decimal(n) =~= seq![crate::numbers::digit(n)]);
    }
    assert(crate::json::json_text(crate::docserver::response_json(0)) =~= "{\"error\":0}"@);
    assert(crate::json::json_text(crate::docserver::response_json(1)) =~= "{\"error\":1}"@);
}

/// A document that is ready, or saved by force, is fetched from where the
/// document server says; without such a place, that is an error. Any other
/// report is well and changes nothing.
pub proof fn reported_documents_are_fetched(status: i64, url: Seq<char>)
    ensures
        status == 2 || status == 6 ==> {
            &&& crate::docserver::save_planned(status, Some(url)) == SaveStepModel::Fetch(url)
            &&& crate::docserver::save_planned(status, None) matches SaveStepModel::Answer(a)
            &&& is_told(a, 200, false, "missing_url"@)
        },
        status != 2 && status != 6 ==> forall|u: Option<Seq<char>>|
            (#[trigger] crate::docserver::save_planned(status, u)) matches SaveStepModel::Answer(a)
                && is_told(a, 200, true, "noop"@),
{
    lemma_told(200, "missing_url"@);
    lemma_told(200, "noop"@);
}

/// The bytes to save are those of an answer that was a success and could be
/// read to its end.
pub proof fn fetched_documents_are_whole(f: Fetched)
    ensures
        crate::docserver::fetched_document(None) is None,
        crate::docserver::fetched_document(Some(f)) == (if 200 <= f.status && f.status < 300
            && f.body is Some {
            Some(f.body->0@)
        } else {
            None
        }),
{
}

/// The document server is told that all is well only once the document is
/// stored; and otherwise that it is not, and why it is so is counted.
pub proof fn saves_are_answered(
    c: ConfigModel,
    s: SessionModel,
    path: Seq<char>,
    bytes: Seq<u8>,
    status: u16,
    words: Seq<char>,
)
    ensures
        is_told(
            crate::docserver::save_answered(Ok::<_, Seq<char>>((status, words))),
            200,
            status == 200 || status == 201 || status == 204,
            if status == 200 || status == 201 || status == 204 {
                "saved"@
            } else {
                "dav_error"@
            },
        ),
        is_told(
            crate::docserver::save_answered(Err::<(u16, Seq<char>), _>(words)),
            200,
            false,
            "dav_error"@,
        ),
        crate::docserver::store_planned(c, s, path, None) matches SaveStepModel::Answer(a)
            && is_told(a, 200, false, "fetch_error"@),
        crate::docserver::store_planned(c, s, path, Some(bytes)) !is Send ==> (
        crate::docserver::store_planned(c, s, path, Some(bytes)) matches SaveStepModel::Answer(a)
            && is_told(a, 200, false, "dav_error"@)),
        is_told(crate::docserver::denied_callback(), 403, false, "jwt_error"@),
{
    lemma_told(200, "saved"@);
    lemma_told(200, "dav_error"@);
    lemma_told(200, "fetch_error"@);
    lemma_told(403, "jwt_error"@);
}

/// A download without the right to it is forbidden, one that the WebDAV server
/// refuses is answered as one of a bad gateway with what it said, and one that
/// it grants is not refused.
pub proof fn downloads_are_answered(status: u16, words: Seq<char>)
    ensures
        crate::promises::answers::is_bare(
            crate::docserver::denied_download(),
            403,
            BodyModel::Empty,
        ),
        200 <= status < 300 ==> crate::docserver::download_refused(
            Ok::<_, Seq<char>>((status, words)),
        ) is None,
        !(200 <= status < 300) ==> (crate::docserver::download_refused(
            Ok::<_, Seq<char>>((status, words)),
        ) matches Some(r) && crate::promises::answers::is_bare(
            r,
            502,
            BodyModel::Text(
                "dav get: "@ + ("dav status "@ + crate::numbers::decimal(status as int) + ": "@
                    + words),
            ),
        )),
        crate::docserver::download_refused(Err::<(u16, Seq<char>), _>(words)) matches Some(r)
            && crate::promises::answers::is_bare(
            r,
            502,
            BodyModel::Text("dav get: "@ + ("http error: "@ + words)),
        ),
{
}

/// A download has the media type that the WebDAV server gives, or else the one
/// that its path suggests.
pub proof fn downloads_have_a_type(given: Seq<u8>, path: Seq<char>)
    ensures
        crate::docserver::download_type(Some(given), path) == given,
        crate::docserver::download_type(None, path) == vstd::utf8::encode_utf8(
            crate::docserver::media_type_of(path),
        ),
{
}

} // verus!
