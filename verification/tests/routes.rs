use base64::engine::general_purpose::URL_SAFE_NO_PAD;
use base64::Engine;
use dav_office_portal::config::Config;
use dav_office_portal::dav::{DavClient, DavEntry, DavError, DavOp};
use dav_office_portal::docserver::{
    access_for, callback_denied, download_denied, download_media_type, download_refusal,
    download_request, file_callback, file_get, finish_save, plan_save, store_fetched,
    CallbackAnswer, Fetched, OoCallbackResponse, SaveStep, TokenAccess,
};
use dav_office_portal::editor::{editor, editor_page, html_escape};
use dav_office_portal::file_jwt::{mint, verify, Action, FileJwtError};
use dav_office_portal::files::{
    begin_file_op, dav_client_for, editor_access, file_access, finish_file_op, finish_upload,
    upload_path, upload_sent, upload_step, Access, FileOp, FileStep, ListResponse, UploadEnd,
    UploadStep,
};
use dav_office_portal::oidc::{AuthState, Discovery, OidcClient, OidcError, Tokens};
use dav_office_portal::onlyoffice::Callback;
use dav_office_portal::reply::{Body, Cookie, Reply};
use dav_office_portal::session::Session;
use dav_office_portal::signin::{
    finish_callback, index, load_session, login_reply, maybe_refresh_session,
    maybe_refresh_session_bare, oidc_callback, oidc_login, oidc_logout, refresh_needed,
    session_cookie, CallbackStep, OidcCallbackQuery,
};
use dav_office_portal::weburl::Url;
use sha2::Digest;

const KEY: [u8; 32] = [4u8; 32];

fn config() -> Config {
    Config {
        bind: "0.0.0.0:3000".into(),
        metrics_bind: "0.0.0.0:9090".into(),
        public_base_url: Url::parse("https://office.x.org").unwrap(),
        oidc_issuer: Url::parse("https://id.x.org").unwrap(),
        oidc_client_id: "me".into(),
        oidc_client_secret: "secret".into(),
        oo_document_server_url: Url::parse("https://docs.x.org").unwrap(),
        oo_jwt_secret: "oo".into(),
        file_jwt_key: [3u8; 32],
        session_key: KEY,
        dav_base_url_template: "https://dav.{domain}".into(),
    }
}

fn session() -> Session {
    Session {
        sub: "u1".into(),
        email: "u@x.org".into(),
        name: None,
        access_token: "at".into(),
        refresh_token: Some("rt".into()),
        access_token_exp: 1000,
    }
}

fn tokens() -> Tokens {
    Tokens {
        access_token: "at2".into(),
        refresh_token: None,
        expires_in: 50,
        sub: "u1".into(),
        email: "u@x.org".into(),
        name: Some("U".into()),
    }
}

fn cookie_value() -> Option<String> {
    Some(session().encrypt(&KEY).unwrap())
}

fn text(r: &Reply) -> &str {
    match &r.body {
        Body::Text(s) => s,
        _ => panic!("no text"),
    }
}

fn target(r: &Reply) -> &str {
    match &r.body {
        Body::Redirect(s) => s,
        _ => panic!("no redirect"),
    }
}

fn json(r: &Reply) -> &str {
    match &r.body {
        Body::Json(s) => s,
        _ => panic!("no JSON"),
    }
}

fn cookie() -> Option<Cookie> {
    Some(Cookie::new("c", "v".into(), 1))
}

fn answer(step: SaveStep) -> CallbackAnswer {
    match step {
        SaveStep::Answer(a) => a,
        _ => panic!("no answer"),
    }
}

#[test]
fn html_escape_handles_specials() {
    assert_eq!(
        html_escape(r#"a&b<c>d"e'f"#),
        "a&amp;b&lt;c&gt;d&quot;e&#39;f"
    );
}

#[test]
fn callback_response_serializes() {
    let response = OoCallbackResponse { error: 0 };
    assert_eq!(response.to_json().as_str(), r#"{"error":0}"#);
}

#[test]
fn html_escape_escapes_each_character_once() {
    assert_eq!(html_escape("&lt;"), "&amp;lt;");
    assert_eq!(html_escape(""), "");
    assert!(html_escape("<a href='x'>\"</a>").chars().all(|c| !"<>\"'".contains(c)));
}

#[test]
fn index_shows_the_browser_to_users_with_a_session() {
    let r = index(&cookie_value(), &KEY, "<p>");
    assert_eq!(r.status, 200);
    assert!(matches!(&r.body, Body::Html(s) if s == "<p>"));
    let r = index(&None, &KEY, "<p>");
    assert_eq!(r.status, 303);
    assert_eq!(target(&r), "/oidc/login");
    assert!(load_session(&Some("junk".into()), &KEY).is_none());
    assert_eq!(load_session(&cookie_value(), &KEY).unwrap(), session());
}

#[test]
fn login_redirects_and_remembers_the_attempt() {
    let state = AuthState {
        csrf_token: "c".into(),
        nonce: "n".into(),
        pkce_verifier: "v".into(),
    };
    let value = state.to_json().as_str().to_string();
    let r = login_reply(Ok((Url::parse("https://id.x.org/a").unwrap(), state)));
    assert_eq!(r.status, 303);
    assert_eq!(target(&r), "https://id.x.org/a");
    let c = r.set_cookie.unwrap();
    assert_eq!(c.name, "office_portal_auth_state");
    assert_eq!(c.value, value);
    assert_eq!(c.path, "/");
    assert!(c.http_only && c.secure && c.same_site_lax);
    assert_eq!(c.max_age_secs, 15 * 60);
    let r = login_reply(Err(OidcError::Discovery("x".into())));
    assert_eq!(r.status, 500);
    assert_eq!(text(&r), "oidc begin failed");
}

fn client() -> OidcClient {
    OidcClient::discover(
        200,
        Ok(Discovery {
            issuer: "i".into(),
            authorization_endpoint: "https://id.x.org/a".into(),
            token_endpoint: "https://id.x.org/t".into(),
            userinfo_endpoint: None,
            jwks_uri: None,
        }),
        "me".into(),
        "secret".into(),
        Url::parse("https://office.x.org/cb").unwrap(),
        vec!["openid".into()],
    )
    .unwrap()
}

fn query(code: Option<&str>, state: Option<&str>, error: Option<&str>) -> OidcCallbackQuery {
    OidcCallbackQuery {
        code: code.map(|s| s.into()),
        state: state.map(|s| s.into()),
        error: error.map(|s| s.into()),
        error_description: None,
    }
}

#[test]
fn a_sign_in_that_was_begun_is_taken_up_again() {
    let r = oidc_login(&client());
    let value = r.set_cookie.unwrap().value;
    let state = AuthState::from_json(&value).unwrap();
    assert!(target_of(&r.body).contains(&state.csrf_token));
    let q = query(Some("code"), Some(&state.csrf_token), None);
    match oidc_callback(q, &Some(value)) {
        CallbackStep::Exchange { code, state: s } => {
            assert_eq!(code, "code");
            assert_eq!(s.pkce_verifier, state.pkce_verifier);
        }
        _ => panic!("not taken up"),
    }
}

fn target_of(body: &Body) -> &str {
    match body {
        Body::Redirect(s) => s,
        _ => panic!("no redirect"),
    }
}

#[test]
fn callbacks_that_do_not_fit_are_refused() {
    let refusal = |q: OidcCallbackQuery, cookie: Option<&str>| {
        match oidc_callback(q, &cookie.map(|s| s.into())) {
            CallbackStep::Answer(r) => {
                assert_eq!(r.status, 400);
                text(&r).to_string()
            }
            _ => panic!("accepted"),
        }
    };
    let cookie = "{\"csrf_token\":\"c\",\"nonce\":\"n\",\"pkce_verifier\":\"v\"}";
    let mut q = query(Some("x"), None, Some("denied"));
    q.error_description = Some("by user".into());
    assert_eq!(refusal(q, Some(cookie)), "oidc error: denied by user");
    assert_eq!(refusal(query(None, None, Some("e")), None), "oidc error: e ");
    assert_eq!(refusal(query(None, Some("c"), None), Some(cookie)), "missing code");
    assert_eq!(refusal(query(Some("x"), Some("c"), None), None), "missing auth state");
    assert_eq!(refusal(query(Some("x"), Some("c"), None), Some("{}")), "bad auth state");
    assert_eq!(refusal(query(Some("x"), Some("d"), None), Some(cookie)), "csrf mismatch");
    assert_eq!(refusal(query(Some("x"), None, None), Some(cookie)), "csrf mismatch");
}

#[test]
fn a_finished_sign_in_sets_the_session() {
    let r = finish_callback(Ok(tokens()), 100, &KEY);
    assert_eq!(r.status, 303);
    assert_eq!(target(&r), "/");
    assert_eq!(r.remove_cookie, Some("office_portal_auth_state"));
    let c = r.set_cookie.unwrap();
    assert_eq!(c.name, "office_portal_session");
    assert_eq!(c.max_age_secs, 7 * 24 * 3600);
    let s = Session::decrypt(&c.value, &KEY).unwrap();
    assert_eq!(s.access_token, "at2");
    assert_eq!(s.access_token_exp, 150);
    assert_eq!(s.name.as_deref(), Some("U"));
    assert_eq!(s.refresh_token, None);
    let r = finish_callback(Err(OidcError::Token("no".into())), 100, &KEY);
    assert_eq!(r.status, 502);
    assert_eq!(text(&r), "token exchange failed: oidc token exchange failed: no");
    assert!(r.set_cookie.is_none());
}

#[test]
fn logout_removes_the_session() {
    let r = oidc_logout();
    assert_eq!(r.status, 303);
    assert_eq!(target(&r), "/oidc/login");
    assert_eq!(r.remove_cookie, Some("office_portal_session"));
}

#[test]
fn sessions_are_renewed_a_minute_before_they_end() {
    let mut s = session();
    assert_eq!(refresh_needed(&s, 939), None);
    assert_eq!(refresh_needed(&s, 940).as_deref(), Some("rt"));
    assert_eq!(refresh_needed(&s, 5000).as_deref(), Some("rt"));
    s.refresh_token = None;
    assert_eq!(refresh_needed(&s, 5000), None);
    s.refresh_token = Some("rt".into());
    s.access_token_exp = i64::MIN;
    assert_eq!(refresh_needed(&s, 0).as_deref(), Some("rt"));
}

#[test]
fn a_renewed_session_replaces_the_old_one() {
    let (s, c) = maybe_refresh_session(session(), Ok(tokens()), 100, &KEY);
    assert_eq!(s.access_token, "at2");
    assert_eq!(s.access_token_exp, 150);
    assert_eq!(Session::decrypt(&c.unwrap().value, &KEY).unwrap(), s);
    let (s, c) = maybe_refresh_session(session(), Err(OidcError::Http("x".into())), 100, &KEY);
    assert_eq!(s, session());
    assert!(c.is_none());
    let s = maybe_refresh_session_bare(session(), Ok(tokens()), 100);
    assert_eq!(s.access_token_exp, 150);
    let s = maybe_refresh_session_bare(session(), Err(OidcError::Http("x".into())), 100);
    assert_eq!(s, session());
    assert_eq!(
        Session::decrypt(&session_cookie(&session(), &KEY).unwrap().value, &KEY).unwrap(),
        session()
    );
}

#[test]
fn file_requests_need_a_session() {
    match file_access(&None, &KEY, 0) {
        Access::Denied(r) => {
            assert_eq!(r.status, 401);
            assert!(matches!(r.body, Body::Empty));
        }
        _ => panic!("granted"),
    }
    match editor_access(&Some("junk".into()), &KEY, 0) {
        Access::Denied(r) => assert_eq!(target(&r), "/oidc/login"),
        _ => panic!("granted"),
    }
    assert!(matches!(file_access(&cookie_value(), &KEY, 0), Access::Ready(_)));
    match editor_access(&cookie_value(), &KEY, 999) {
        Access::Refresh { session: s, token } => {
            assert_eq!(s, session());
            assert_eq!(token, "rt");
        }
        _ => panic!("no refresh"),
    }
}

#[test]
fn sessions_in_cookies_and_in_tokens_are_renewed_alike() {
    let token = mint(&session(), "p", Action::Read, 60, &[7u8; 32], &KEY).unwrap();
    for now in [0, 939, 940, 5000] {
        let in_cookie = file_access(&cookie_value(), &KEY, now);
        let verified = verify(&token, Action::Read, &[7u8; 32], &KEY);
        let in_token = match access_for(verified, now) {
            TokenAccess::Granted { access, .. } => access,
            TokenAccess::Denied => panic!("denied"),
        };
        match (in_cookie, in_token) {
            (Access::Ready(a), Access::Ready(b)) => {
                assert!(now < 940);
                assert_eq!(a, b);
            }
            (Access::Refresh { session: a, token: t }, Access::Refresh { session: b, token: u }) => {
                assert!(now >= 940);
                assert_eq!(t, u);
                assert_eq!(
                    maybe_refresh_session(a, Ok(tokens()), now, &KEY).0,
                    maybe_refresh_session_bare(b, Ok(tokens()), now)
                );
            }
            _ => panic!("unlike"),
        }
    }
}

#[test]
fn clients_are_of_the_domain_of_the_user() {
    let c = dav_client_for(&config(), &session()).unwrap();
    assert_eq!(
        c.url_for("a").unwrap().as_str(),
        "https://dav.x.org/dav/file/u@x.org/a"
    );
    let mut s = session();
    s.email = "nobody".into();
    let r = dav_client_for(&config(), &s).unwrap_err();
    assert_eq!(r.status, 400);
    assert_eq!(text(&r), "session has no email domain");
    let mut cfg = config();
    cfg.dav_base_url_template = "{domain}".into();
    let r = dav_client_for(&cfg, &session()).unwrap_err();
    assert_eq!(r.status, 500);
    assert_eq!(text(&r), "bad dav base: relative URL without a base");
}

#[test]
fn operations_become_requests() {
    let method = |op: FileOp| match begin_file_op(&config(), &session(), &op, cookie()) {
        FileStep::Send { request, cookie, .. } => {
            assert_eq!(cookie.unwrap().value, "v");
            request.method
        }
        _ => panic!("answered"),
    };
    assert_eq!(method(FileOp::List { path: "".into() }), "PROPFIND");
    assert_eq!(method(FileOp::Mkdir { path: "a".into() }), "MKCOL");
    assert_eq!(method(FileOp::Rename { from: "a".into(), to: "b".into() }), "MOVE");
    assert_eq!(method(FileOp::Delete { path: "a".into() }), "DELETE");
    assert_eq!(FileOp::List { path: "".into() }.dav_op(), DavOp::List);
    let mut s = session();
    s.email = "nobody".into();
    match begin_file_op(&config(), &s, &FileOp::List { path: "".into() }, cookie()) {
        FileStep::Answer(r) => {
            assert_eq!(r.status, 400);
            assert!(r.set_cookie.is_none());
        }
        _ => panic!("sent"),
    }
    let mut cfg = config();
    cfg.dav_base_url_template = "mailto:{domain}".into();
    match begin_file_op(&cfg, &session(), &FileOp::Mkdir { path: "a".into() }, cookie()) {
        FileStep::Answer(r) => {
            assert_eq!(r.status, 502);
            assert_eq!(
                text(&r),
                "mkdir: url error: relative URL with a cannot-be-a-base base"
            );
            assert!(r.set_cookie.is_some());
        }
        _ => panic!("sent"),
    }
}

#[test]
fn operations_are_answered() {
    let c = dav_client_for(&config(), &session()).unwrap();
    let finish = |op: &FileOp, status: u16, body: &str| {
        finish_file_op(op, &c, Ok((status, body.into())), cookie())
    };
    let list = FileOp::List { path: "".into() };
    let r = finish(
        &list,
        207,
        "<m><response><href>/dav/file/u@x.org/a</href></response></m>",
    );
    assert_eq!(r.status, 200);
    assert_eq!(
        json(&r),
        "{\"entries\":[{\"path\":\"a\",\"name\":\"a\",\"is_collection\":false,\"size\":0,\
         \"content_type\":null,\"last_modified\":null}]}"
    );
    assert_eq!(r.set_cookie.unwrap().value, "v");
    let r = finish(&list, 500, "oops");
    assert_eq!(r.status, 502);
    assert_eq!(text(&r), "list failed: dav status 500: oops");
    assert!(r.set_cookie.is_some());
    assert!(text(&finish(&list, 207, "<a></b>")).starts_with("list failed: xml parse error: "));
    let mkdir = FileOp::Mkdir { path: "a".into() };
    assert_eq!(finish(&mkdir, 201, "").status, 201);
    assert_eq!(text(&finish(&mkdir, 405, "x")), "mkdir: dav status 405: x");
    let rename = FileOp::Rename { from: "a".into(), to: "b".into() };
    assert_eq!(finish(&rename, 204, "").status, 204);
    assert_eq!(text(&finish(&rename, 412, "x")), "rename: dav status 412: x");
    let delete = FileOp::Delete { path: "a".into() };
    assert_eq!(finish(&delete, 200, "").status, 204);
    let r = finish_file_op(&delete, &c, Err("down".into()), None);
    assert_eq!(text(&r), "delete: http error: down");
    assert!(r.set_cookie.is_none());
}

#[test]
fn listings_are_written_in_full() {
    let entry = DavEntry {
        path: "d/ä".into(),
        name: "ä\u{1f}".into(),
        is_collection: true,
        size: u64::MAX,
        content_type: Some("t".into()),
        last_modified: Some("m".into()),
    };
    assert_eq!(
        ListResponse { entries: vec![entry] }.to_json().as_str(),
        "{\"entries\":[{\"path\":\"d/ä\",\"name\":\"ä\\u001f\",\"is_collection\":true,\
         \"size\":18446744073709551615,\"content_type\":\"t\",\"last_modified\":\"m\"}]}"
    );
    assert_eq!(
        ListResponse { entries: vec![] }.to_json().as_str(),
        "{\"entries\":[]}"
    );
}

#[test]
fn uploads_go_on_field_by_field() {
    let client = DavClient::new(Url::parse("https://dav.x.org").unwrap(), "u@x.org", "tok".into());
    let step = |name: Option<&str>, body: Result<Vec<u8>, String>| {
        upload_step(&client, "d/", name.map(|n| n.to_string()), body)
    };
    assert!(matches!(step(None, Ok(vec![1])), UploadStep::Next));
    assert!(matches!(step(None, Err("cut".into())), UploadStep::Next));
    match step(Some("f"), Err("cut".into())) {
        UploadStep::Stop(UploadEnd::Unreadable(e)) => assert_eq!(e, "cut"),
        other => panic!("{other:?}"),
    }
    match step(Some("f"), Ok(vec![1, 2])) {
        UploadStep::Send(q) => {
            assert_eq!(q.method, "PUT");
            assert_eq!(q.url.as_str(), "https://dav.x.org/dav/file/u@x.org/d/f");
            assert_eq!(q.body, vec![1, 2]);
        }
        other => panic!("{other:?}"),
    }
    match step(Some("../../f"), Ok(vec![])) {
        UploadStep::Stop(UploadEnd::Failed(DavError::Url(e))) => {
            assert_eq!(e, "path leaves the collection");
        }
        other => panic!("{other:?}"),
    }
    for status in [200, 201, 204] {
        assert!(matches!(upload_sent(Ok((status, String::new()))), UploadStep::Next));
    }
    match upload_sent(Ok((507, "full".into()))) {
        UploadStep::Stop(UploadEnd::Failed(e)) => assert_eq!(e.message(), "dav status 507: full"),
        other => panic!("{other:?}"),
    }
    match upload_sent(Err("gone".into())) {
        UploadStep::Stop(UploadEnd::Failed(e)) => assert_eq!(e.message(), "http error: gone"),
        other => panic!("{other:?}"),
    }
}

#[test]
fn uploads_go_into_the_directory() {
    assert_eq!(upload_path("", "f".into()), "f");
    assert_eq!(upload_path("a/b//", "f".into()), "a/b/f");
    assert_eq!(upload_path("/", "f".into()), "/f");
    assert_eq!(finish_upload(UploadEnd::Done, cookie()).status, 204);
    let r = finish_upload(UploadEnd::Unreadable("cut".into()), None);
    assert_eq!(r.status, 400);
    assert_eq!(text(&r), "read: cut");
    let r = finish_upload(UploadEnd::Failed(DavError::Status(507, "full".into())), cookie());
    assert_eq!(r.status, 502);
    assert_eq!(text(&r), "upload: dav status 507: full");
    assert!(r.set_cookie.is_some());
}

#[test]
fn the_editor_page_holds_the_signed_config() {
    let r = editor_page(
        &config(),
        &session(),
        "a/<q>.docx",
        "{{TITLE}}|{{DOC_SERVER}}|{{CONFIG_JSON}}|{{TITLE}}",
        "RJ",
        "WJ",
    );
    assert_eq!(r.status, 200);
    let page = match &r.body {
        Body::Html(s) => s.clone(),
        _ => panic!("no page"),
    };
    let parts: Vec<&str> = page.split('|').collect();
    assert_eq!(parts[0], "&lt;q&gt;.docx");
    assert_eq!(parts[1], "https://docs.x.org");
    assert_eq!(parts[3], "&lt;q&gt;.docx");
    let cfg: serde_json::Value = serde_json::from_str(parts[2]).unwrap();
    let hash = sha2::Sha256::digest("u1:a/<q>.docx:RJ");
    assert_eq!(cfg["document"]["key"], URL_SAFE_NO_PAD.encode(&hash[..16]));
    assert_eq!(cfg["document"]["title"], "<q>.docx");
    assert_eq!(cfg["document"]["url"], "https://office.x.org/api/file/RJ");
    assert_eq!(cfg["documentType"], "word");
    assert_eq!(cfg["editorConfig"]["callbackUrl"], "https://office.x.org/api/callback/WJ");
    assert_eq!(cfg["editorConfig"]["user"]["id"], "u1");
    assert_eq!(cfg["editorConfig"]["user"]["name"], "u@x.org");
}

#[test]
fn the_editor_mints_a_token_for_each_action() {
    let cfg = config();
    let r = editor(&cfg, &session(), "a.docx", "{{CONFIG_JSON}}");
    let page = match &r.body {
        Body::Html(s) => s.clone(),
        _ => panic!("no page"),
    };
    let value: serde_json::Value = serde_json::from_str(&page).unwrap();
    let url = value["document"]["url"].as_str().unwrap();
    let token = url.strip_prefix("https://office.x.org/api/file/").unwrap();
    let (claims, s) = verify(token, Action::Read, &cfg.file_jwt_key, &KEY).unwrap();
    assert_eq!(claims.path, "a.docx");
    assert_eq!(claims.exp - claims.iat, 4 * 3600);
    assert_eq!(s, session());
    let url = value["editorConfig"]["callbackUrl"].as_str().unwrap();
    let token = url.strip_prefix("https://office.x.org/api/callback/").unwrap();
    assert!(verify(token, Action::Write, &cfg.file_jwt_key, &KEY).is_ok());
}

#[test]
fn file_tokens_open_the_way_for_their_action() {
    let cfg = config();
    let read = mint(&session(), "p", Action::Read, 60, &cfg.file_jwt_key, &KEY).unwrap();
    match file_get(&read, &cfg, 0) {
        TokenAccess::Granted { path, access } => {
            assert_eq!(path, "p");
            assert!(matches!(access, Access::Ready(s) if s == session()));
        }
        _ => panic!("denied"),
    }
    assert!(matches!(file_callback(&read, &cfg, 0), TokenAccess::Denied));
    assert!(matches!(file_get("junk", &cfg, 0), TokenAccess::Denied));
    let late = mint(&session(), "p", Action::Read, -10, &cfg.file_jwt_key, &KEY).unwrap();
    assert!(matches!(file_get(&late, &cfg, 0), TokenAccess::Denied));
    let write = mint(&session(), "p", Action::Write, 60, &cfg.file_jwt_key, &KEY).unwrap();
    match file_callback(&write, &cfg, 2000) {
        TokenAccess::Granted { access, .. } => {
            assert!(matches!(access, Access::Refresh { token, .. } if token == "rt"));
        }
        _ => panic!("denied"),
    }
    assert!(matches!(access_for(Err(FileJwtError::WrongAction), 0), TokenAccess::Denied));
    assert_eq!(download_denied().status, 403);
    let a = callback_denied();
    assert_eq!(a.reply.status, 403);
    assert_eq!(json(&a.reply), "{\"error\":1}");
    assert_eq!(a.labels.result, "jwt_error");
}

#[test]
fn downloads_are_requested_and_refused() {
    let q = download_request(&config(), &session(), "a").unwrap();
    assert_eq!(q.method, "GET");
    assert_eq!(q.url.as_str(), "https://dav.x.org/dav/file/u@x.org/a");
    let mut cfg = config();
    cfg.dav_base_url_template = "mailto:{domain}".into();
    let r = download_request(&cfg, &session(), "a").unwrap_err();
    assert_eq!(r.status, 502);
    assert!(text(&r).starts_with("dav get: url error: "));
    let mut s = session();
    s.email = "nobody".into();
    assert_eq!(download_request(&config(), &s, "a").unwrap_err().status, 400);
    assert!(download_refusal(Ok((200, "".into()))).is_none());
    let r = download_refusal(Ok((404, "gone".into()))).unwrap();
    assert_eq!(r.status, 502);
    assert_eq!(text(&r), "dav get: dav status 404: gone");
    let r = download_refusal(Err("down".into())).unwrap();
    assert_eq!(text(&r), "dav get: http error: down");
}

#[test]
fn downloads_have_a_media_type() {
    assert_eq!(download_media_type(Some(b"x/y".to_vec()), "a.txt"), b"x/y".to_vec());
    assert_eq!(download_media_type(None, "d/a.txt"), b"text/plain".to_vec());
    assert_eq!(
        download_media_type(None, "noext"),
        b"application/octet-stream".to_vec()
    );
}

#[test]
fn callbacks_are_planned_by_status() {
    let cb = |status: i64, url: Option<&str>| Callback {
        status,
        url: url.map(|s| s.into()),
        key: None,
    };
    for status in [2, 6] {
        assert!(matches!(plan_save(&cb(status, Some("u"))), SaveStep::Fetch(u) if u == "u"));
        let a = answer(plan_save(&cb(status, None)));
        assert_eq!(a.reply.status, 200);
        assert_eq!(json(&a.reply), "{\"error\":1}");
        assert_eq!(a.labels.result, "missing_url");
    }
    for status in [0, 1, 3, 4, 5, 7, 99] {
        let a = answer(plan_save(&cb(status, Some("u"))));
        assert_eq!(json(&a.reply), "{\"error\":0}");
        assert_eq!(a.labels.result, "noop");
    }
}

#[test]
fn fetched_documents_are_stored() {
    let store = |cfg: &Config, f: Option<Fetched>| store_fetched(cfg, &session(), "a", f);
    let good = || Some(Fetched { status: 200, body: Some(vec![7]) });
    match store(&config(), good()) {
        SaveStep::Send(q) => {
            assert_eq!(q.method, "PUT");
            assert_eq!(q.url.as_str(), "https://dav.x.org/dav/file/u@x.org/a");
            assert_eq!(q.body, vec![7]);
        }
        _ => panic!("not sent"),
    }
    for bad in [
        None,
        Some(Fetched { status: 404, body: Some(vec![7]) }),
        Some(Fetched { status: 200, body: None }),
    ] {
        let a = answer(store(&config(), bad));
        assert_eq!(json(&a.reply), "{\"error\":1}");
        assert_eq!(a.labels.result, "fetch_error");
    }
    for template in ["{domain}", "mailto:{domain}"] {
        let mut cfg = config();
        cfg.dav_base_url_template = template.into();
        assert_eq!(answer(store(&cfg, good())).labels.result, "dav_error");
    }
}

#[test]
fn saves_are_answered() {
    for status in [200, 201, 204] {
        let a = finish_save(Ok((status, "".into())));
        assert_eq!(a.reply.status, 200);
        assert_eq!(json(&a.reply), "{\"error\":0}");
        assert_eq!(a.labels.result, "saved");
    }
    for sent in [Ok((202, "".into())), Ok((500, "x".into())), Err("down".into())] {
        let a = finish_save(sent);
        assert_eq!(json(&a.reply), "{\"error\":1}");
        assert_eq!(a.labels.result, "dav_error");
    }
}
