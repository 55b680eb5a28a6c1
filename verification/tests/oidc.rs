use base64::engine::general_purpose::URL_SAFE_NO_PAD;
use base64::Engine;
use dav_office_portal::oidc::{
    discovery_url, extract_claims_unverified, id_token_payload, pkce_s256, random_string,
    AuthState, Discovery, IdTokenClaimsRaw, OidcClient, OidcError, TokenResponse,
};
use dav_office_portal::weburl::Url;

fn discovery() -> Discovery {
    Discovery {
        issuer: "https://id.x.org".into(),
        authorization_endpoint: "https://id.x.org/authorize?a=b#top".into(),
        token_endpoint: "https://id.x.org/token".into(),
        userinfo_endpoint: None,
        jwks_uri: Some("https://id.x.org/jwks".into()),
    }
}

fn client() -> OidcClient {
    OidcClient::discover(
        200,
        Ok(discovery()),
        "me".into(),
        "secret".into(),
        Url::parse("https://office.x.org/oidc/callback").unwrap(),
        vec!["openid".into(), "offline_access".into()],
    )
    .unwrap()
}

fn id_token(payload: &str) -> String {
    format!("h.{}.s", URL_SAFE_NO_PAD.encode(payload))
}

/// What the payload of an ID token reads as.
fn read_claims(id_token: &str) -> Result<IdTokenClaimsRaw, String> {
    let payload = id_token_payload(id_token).map_err(|e| e.message())?;
    let v: serde_json::Value = serde_json::from_slice(&payload).map_err(|e| e.to_string())?;
    let text = |name: &str| v[name].as_str().map(|s| s.to_string());
    Ok(IdTokenClaimsRaw {
        sub: text("sub").ok_or("missing field `sub`")?,
        email: text("email"),
        name: text("name"),
    })
}

fn words<T>(r: Result<T, OidcError>) -> String {
    match r {
        Err(OidcError::Token(e)) => e,
        Err(OidcError::Discovery(e)) => e,
        Err(OidcError::Http(e)) => e,
        Ok(_) => panic!("no error"),
    }
}

#[test]
fn extract_claims_parses_minimal_jwt_payload() {
    let payload = URL_SAFE_NO_PAD.encode(br#"{"sub":"u1","email":"e@x","name":"E"}"#);
    let header = URL_SAFE_NO_PAD.encode(br#"{"alg":"none"}"#);
    let token = format!("{header}.{payload}.sig");
    let claims = extract_claims_unverified(&token, read_claims(&token)).unwrap();
    assert_eq!(claims.sub, "u1");
    assert_eq!(claims.email.as_deref(), Some("e@x"));
}

#[test]
fn pkce_s256_is_deterministic() {
    let a = pkce_s256("verifier-abcdef-0123456789-very-long-string");
    let b = pkce_s256("verifier-abcdef-0123456789-very-long-string");
    assert_eq!(a, b);
    let c = pkce_s256("different");
    assert_ne!(a, c);
}

#[test]
fn random_string_yields_url_safe_chars() {
    let s = random_string(32);
    assert!(s.chars().all(|c| c.is_ascii_alphanumeric() || c == '-' || c == '_'));
    assert!(!s.is_empty());
}

#[test]
fn pkce_s256_of_a_known_verifier() {
    assert_eq!(
        pkce_s256("dBjftJeZ4CVP-mB92K27uhbUJU1p1r_wW1gFWFOEjXk"),
        "E9Melhoa2OwvFrEMTJguCHaoeK1t8URWbuGJSstw-cM"
    );
}

#[test]
fn random_strings_differ_and_have_the_length_asked_for() {
    assert_ne!(random_string(32), random_string(32));
    assert_eq!(URL_SAFE_NO_PAD.decode(random_string(64)).unwrap().len(), 64);
    assert_eq!(random_string(0), "");
}

#[test]
fn payloads_are_the_second_of_three_parts() {
    assert_eq!(id_token_payload(&id_token("{\"sub\":\"u\"}")).unwrap(), b"{\"sub\":\"u\"}");
    assert_eq!(id_token_payload("..").unwrap(), b"");
    let raw = format!("h.{}.s", URL_SAFE_NO_PAD.encode([0xffu8]));
    assert_eq!(id_token_payload(&raw).unwrap(), [0xff]);
}

#[test]
fn claims_may_lack_what_is_optional() {
    let token = id_token("{\"sub\":\"u\",\"aud\":[1]}");
    let c = extract_claims_unverified(&token, read_claims(&token)).unwrap();
    assert_eq!(c.sub, "u");
    assert_eq!(c.email, None);
    assert_eq!(c.name, None);
}

#[test]
fn bad_id_tokens_are_refused() {
    let claims = || IdTokenClaimsRaw { sub: "u".into(), email: None, name: None };
    for token in ["", "a.b", "a.b.c.d"] {
        assert_eq!(words(id_token_payload(token)), "malformed id_token");
        assert_eq!(words(extract_claims_unverified(token, Ok(claims()))), "malformed id_token");
        assert_eq!(
            words(extract_claims_unverified(token, Err("e".into()))),
            "malformed id_token"
        );
    }
    let decode = format!(
        "id_token payload decode: {}",
        URL_SAFE_NO_PAD.decode("b!").unwrap_err()
    );
    assert_eq!(words(id_token_payload("a.b!.c")), decode);
    assert_eq!(words(extract_claims_unverified("a.b!.c", Ok(claims()))), decode);
    assert_eq!(
        words(extract_claims_unverified(&id_token("{}"), Err("missing field".into()))),
        "id_token payload parse: missing field"
    );
}

#[test]
fn discovery_stands_beside_the_issuer() {
    let issuer = Url::parse("https://id.x.org").unwrap();
    assert_eq!(
        discovery_url(&issuer).unwrap().as_str(),
        "https://id.x.org/.well-known/openid-configuration"
    );
    let issuer = Url::parse("mailto:x").unwrap();
    assert!(matches!(discovery_url(&issuer), Err(OidcError::Discovery(_))));
}

#[test]
fn discover_needs_a_success_and_a_document() {
    let uri = || Url::parse("https://office.x.org/cb").unwrap();
    let c = client();
    assert_eq!(c.discovery().issuer, "https://id.x.org");
    let r = OidcClient::discover(404, Ok(discovery()), "".into(), "".into(), uri(), vec![]);
    assert_eq!(words(r), "HTTP 404");
    let r = OidcClient::discover(200, Err("bad".into()), "".into(), "".into(), uri(), vec![]);
    assert_eq!(words(r), "bad");
}

#[test]
fn begin_sends_the_challenge_of_the_verifier() {
    let c = client();
    let state = AuthState {
        csrf_token: "c&s".into(),
        nonce: "n".into(),
        pkce_verifier: "dBjftJeZ4CVP-mB92K27uhbUJU1p1r_wW1gFWFOEjXk".into(),
    };
    assert_eq!(
        c.begin_with(&state).unwrap().as_str(),
        "https://id.x.org/authorize?a=b&response_type=code&client_id=me\
         &redirect_uri=https%3A%2F%2Foffice.x.org%2Foidc%2Fcallback\
         &scope=openid+offline_access&state=c%26s&nonce=n\
         &code_challenge=E9Melhoa2OwvFrEMTJguCHaoeK1t8URWbuGJSstw-cM\
         &code_challenge_method=S256#top"
    );
    let (url, state) = c.begin().unwrap();
    assert_eq!(url, c.begin_with(&state).unwrap());
    assert_eq!(URL_SAFE_NO_PAD.decode(&state.csrf_token).unwrap().len(), 32);
    assert_eq!(URL_SAFE_NO_PAD.decode(&state.nonce).unwrap().len(), 32);
    assert_eq!(URL_SAFE_NO_PAD.decode(&state.pkce_verifier).unwrap().len(), 64);
}

#[test]
fn begin_needs_an_endpoint() {
    let mut d = discovery();
    d.authorization_endpoint = "nowhere".into();
    let uri = Url::parse("https://office.x.org/cb").unwrap();
    let c = OidcClient::discover(200, Ok(d), "".into(), "".into(), uri, vec![]).unwrap();
    match c.begin() {
        Err(OidcError::Discovery(e)) => assert_eq!(e, "relative URL without a base"),
        _ => panic!("begun"),
    }
}

#[test]
fn auth_state_roundtrips_through_json() {
    let state = AuthState {
        csrf_token: "c".into(),
        nonce: "n\"".into(),
        pkce_verifier: "v".into(),
    };
    let json = state.to_json();
    assert_eq!(
        json.as_str(),
        "{\"csrf_token\":\"c\",\"nonce\":\"n\\\"\",\"pkce_verifier\":\"v\"}"
    );
    let back = AuthState::from_json(json.as_str()).unwrap();
    assert_eq!(back.csrf_token, "c");
    assert_eq!(back.nonce, "n\"");
    assert_eq!(back.pkce_verifier, "v");
    assert!(AuthState::from_json("{}").is_none());
    assert!(AuthState::from_json("").is_none());
}

#[test]
fn exchange_code_sends_the_verifier() {
    let state = AuthState {
        csrf_token: "c".into(),
        nonce: "n".into(),
        pkce_verifier: "v".into(),
    };
    let q = client().exchange_code("the code", &state);
    assert_eq!(q.url, "https://id.x.org/token");
    assert_eq!(q.user, "me");
    assert_eq!(q.password, "secret");
    let pair = |n: &str, v: &str| (n.to_string(), v.to_string());
    assert_eq!(
        q.form,
        vec![
            pair("grant_type", "authorization_code"),
            pair("code", "the code"),
            pair("redirect_uri", "https://office.x.org/oidc/callback"),
            pair("client_id", "me"),
            pair("code_verifier", "v"),
        ]
    );
}

#[test]
fn refresh_sends_the_refresh_token() {
    let q = client().refresh("rt");
    let pair = |n: &str, v: &str| (n.to_string(), v.to_string());
    assert_eq!(q.url, "https://id.x.org/token");
    assert_eq!(
        q.form,
        vec![
            pair("grant_type", "refresh_token"),
            pair("refresh_token", "rt"),
            pair("client_id", "me"),
        ]
    );
}

fn response(id_token: &str) -> TokenResponse {
    TokenResponse {
        access_token: "a".into(),
        refresh_token: None,
        expires_in: None,
        id_token: id_token.into(),
    }
}

#[test]
fn token_replies_are_read() {
    let id = id_token("{\"sub\":\"u\",\"email\":\"e@x\",\"name\":\"N\"}");
    let full = TokenResponse {
        refresh_token: Some("r".into()),
        expires_in: Some(7),
        ..response(&id)
    };
    let body = b"{\"x\":\"\xff\"}";
    let t = OidcClient::exchange_reply(200, body, Ok(full), read_claims(&id)).unwrap();
    assert_eq!(t.access_token, "a");
    assert_eq!(t.refresh_token.as_deref(), Some("r"));
    assert_eq!(t.expires_in, 7);
    assert_eq!(t.sub, "u");
    assert_eq!(t.email, "e@x");
    assert_eq!(t.name.as_deref(), Some("N"));
    let id = id_token("{\"sub\":\"u\"}");
    let t = OidcClient::refresh_reply(201, b"", Ok(response(&id)), read_claims(&id)).unwrap();
    assert_eq!(t.refresh_token, None);
    assert_eq!(t.expires_in, 3600);
    assert_eq!(t.email, "");
    assert_eq!(t.name, None);
}

#[test]
fn refused_token_replies_are_reported() {
    let id = id_token("{\"sub\":\"u\"}");
    assert_eq!(
        words(OidcClient::exchange_reply(400, b"no\xff", Ok(response(&id)), read_claims(&id))),
        "token endpoint returned 400: no\u{fffd}"
    );
    assert_eq!(
        words(OidcClient::refresh_reply(500, b"x", Err("e".into()), Err("f".into()))),
        "refresh returned 500: x"
    );
    assert_eq!(
        words(OidcClient::exchange_reply(200, b"{}", Err("cut".into()), Err("f".into()))),
        "parse: cut"
    );
    assert_eq!(
        words(OidcClient::refresh_reply(299, b"{}", Err("cut".into()), read_claims(&id))),
        "parse: cut"
    );
    assert_eq!(
        words(OidcClient::exchange_reply(200, b"", Ok(response("b")), Err("f".into()))),
        "malformed id_token"
    );
    assert_eq!(
        words(OidcClient::exchange_reply(200, b"", Ok(response(&id)), Err("cut".into()))),
        "id_token payload parse: cut"
    );
}

#[test]
fn oidc_errors_have_words() {
    assert_eq!(OidcError::Http("e".into()).message(), "http error: e");
    assert_eq!(OidcError::Discovery("e".into()).message(), "oidc discovery failed: e");
    assert_eq!(OidcError::Token("e".into()).message(), "oidc token exchange failed: e");
}
