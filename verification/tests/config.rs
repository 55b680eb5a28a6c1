use base64::engine::general_purpose::{STANDARD, URL_SAFE_NO_PAD};
use base64::Engine;
use dav_office_portal::config::{decode_key, Config, ConfigError, Environment};
use dav_office_portal::weburl::Url;

fn full_environment() -> Environment {
    Environment {
        bind_addr: None,
        metrics_addr: None,
        public_base_url: Some("https://office.example.com".into()),
        oidc_issuer: None,
        oidc_client_id: None,
        oidc_client_secret: Some("cs".into()),
        oo_document_server_url: Some("https://docs.example.com/".into()),
        oo_jwt_secret: Some("oo".into()),
        file_jwt_key: Some("01".repeat(32)),
        session_key: Some("fF".repeat(32)),
        dav_base_url_template: None,
    }
}

#[test]
fn dav_base_url_substitutes_domain() {
    let cfg = Config {
        bind: "0.0.0.0:3000".into(),
        metrics_bind: "0.0.0.0:9090".into(),
        public_base_url: Url::parse("https://office.hr-home.xyz").unwrap(),
        oidc_issuer: Url::parse("https://stalwart.hr-home.xyz").unwrap(),
        oidc_client_id: "office-portal".into(),
        oidc_client_secret: "x".into(),
        oo_document_server_url: Url::parse("https://docs.hr-home.xyz").unwrap(),
        oo_jwt_secret: "x".into(),
        file_jwt_key: [0u8; 32],
        session_key: [0u8; 32],
        dav_base_url_template: "https://dav.{domain}".into(),
    };
    let url = cfg.dav_base_url("fida.finance").unwrap();
    assert_eq!(url.as_str(), "https://dav.fida.finance/");
}

#[test]
fn decode_key_accepts_hex_and_base64() {
    // hex (64 chars)
    let hex = "0".repeat(64);
    assert_eq!(decode_key("K_HEX", Some(hex)).unwrap(), [0u8; 32]);

    // base64 (44 chars w/ padding)
    let b64 = STANDARD.encode([1u8; 32]);
    assert_eq!(decode_key("K_B64", Some(b64)).unwrap(), [1u8; 32]);
}

#[test]
fn decode_key_accepts_url_safe_base64_and_white_space() {
    let key = [0xfbu8; 32];
    let url_safe = URL_SAFE_NO_PAD.encode(key);
    assert_eq!(decode_key("K", Some(url_safe)).unwrap(), key);
    let standard = format!(" \t{}\n\u{3000}", STANDARD.encode(key));
    assert_eq!(decode_key("K", Some(standard)).unwrap(), key);
}

#[test]
fn decode_key_reads_hex_digits_in_pairs() {
    let mut raw = "00".repeat(31);
    raw.push_str("aF");
    let key = decode_key("K", Some(raw)).unwrap();
    assert_eq!(key[31], 0xaf);
    assert_eq!(key[0], 0);
}

#[test]
fn decode_key_says_what_is_wrong() {
    match decode_key("K", None) {
        Err(ConfigError::Missing(v)) => assert_eq!(v, "K"),
        _ => panic!("not missing"),
    }
    match decode_key("K", Some("AAAA".into())) {
        Err(ConfigError::Key { var, reason }) => {
            assert_eq!(var, "K");
            assert_eq!(reason, "expected 32 bytes, got 3");
        }
        _ => panic!("not a bad key"),
    }
    match decode_key("K", Some("a!".into())) {
        Err(ConfigError::Key { reason, .. }) => {
            assert_eq!(reason, URL_SAFE_NO_PAD.decode("a!").unwrap_err().to_string());
        }
        _ => panic!("not a bad key"),
    }
    assert!(decode_key("K", Some("é".repeat(32))).is_err());
}

#[test]
fn from_env_fills_in_defaults() {
    let env = full_environment();
    assert_eq!(env.bind_address(), "0.0.0.0:3000");
    assert_eq!(env.metrics_address(), "0.0.0.0:9090");
    let cfg = Config::from_env(env, None, None).unwrap();
    assert_eq!(cfg.bind, "0.0.0.0:3000");
    assert_eq!(cfg.metrics_bind, "0.0.0.0:9090");
    assert_eq!(cfg.public_base_url.as_str(), "https://office.example.com/");
    assert_eq!(cfg.oidc_issuer.as_str(), "https://auth.example.com/");
    assert_eq!(cfg.oidc_client_id, "office-portal");
    assert_eq!(cfg.dav_base_url_template, "https://dav.{domain}");
    assert_eq!(cfg.file_jwt_key, [1u8; 32]);
    assert_eq!(cfg.session_key, [0xffu8; 32]);
}

#[test]
fn from_env_takes_what_is_set() {
    let mut env = full_environment();
    env.bind_addr = Some("127.0.0.1:1".into());
    env.metrics_addr = Some("127.0.0.1:2".into());
    env.oidc_issuer = Some("https://id.example.org/realm".into());
    env.oidc_client_id = Some("me".into());
    env.dav_base_url_template = Some("https://{domain}/x/{domain}".into());
    let cfg = Config::from_env(env, None, None).unwrap();
    assert_eq!(cfg.bind, "127.0.0.1:1");
    assert_eq!(cfg.metrics_bind, "127.0.0.1:2");
    assert_eq!(cfg.oidc_issuer.as_str(), "https://id.example.org/realm");
    assert_eq!(cfg.oidc_client_id, "me");
    assert_eq!(cfg.dav_base_url("a.b").unwrap().as_str(), "https://a.b/x/a.b");
}

#[test]
fn from_env_reports_the_first_fault() {
    let missing = |env: Environment| match Config::from_env(env, None, None) {
        Err(ConfigError::Missing(v)) => v,
        _ => panic!("nothing missing"),
    };
    let mut env = full_environment();
    env.public_base_url = None;
    env.session_key = None;
    assert_eq!(missing(env), "PUBLIC_BASE_URL");
    let mut env = full_environment();
    env.oidc_client_secret = None;
    assert_eq!(missing(env), "OIDC_CLIENT_SECRET");
    let mut env = full_environment();
    env.oo_document_server_url = None;
    assert_eq!(missing(env), "OO_DOCUMENT_SERVER_URL");
    let mut env = full_environment();
    env.oo_jwt_secret = None;
    assert_eq!(missing(env), "OO_JWT_SECRET");
    let mut env = full_environment();
    env.file_jwt_key = None;
    assert_eq!(missing(env), "FILE_JWT_KEY");
    let mut env = full_environment();
    env.session_key = None;
    assert_eq!(missing(env), "SESSION_KEY");
}

#[test]
fn from_env_reports_bad_addresses_and_urls() {
    match Config::from_env(full_environment(), Some("bad".into()), Some("worse".into())) {
        Err(ConfigError::Addr(e)) => assert_eq!(e, "bad"),
        _ => panic!("accepted"),
    }
    match Config::from_env(full_environment(), None, Some("worse".into())) {
        Err(ConfigError::Addr(e)) => assert_eq!(e, "worse"),
        _ => panic!("accepted"),
    }
    let mut env = full_environment();
    env.oidc_issuer = Some("not a url".into());
    match Config::from_env(env, None, None) {
        Err(ConfigError::Url(e)) => assert_eq!(e, "relative URL without a base"),
        _ => panic!("accepted"),
    }
}

#[test]
fn config_errors_have_words() {
    assert_eq!(
        ConfigError::Missing("X".into()).message(),
        "missing required env var X"
    );
    assert_eq!(ConfigError::Addr("e".into()).message(), "invalid socket address: e");
    assert_eq!(ConfigError::Url("e".into()).message(), "invalid URL: e");
    assert_eq!(
        ConfigError::Key { var: "K".into(), reason: "r".into() }.message(),
        "invalid key for K: r"
    );
}

#[test]
fn dav_base_url_may_be_none() {
    let mut env = full_environment();
    env.dav_base_url_template = Some("https://[{domain}".into());
    let cfg = Config::from_env(env, None, None).unwrap();
    assert!(cfg.dav_base_url("x").is_err());
}
