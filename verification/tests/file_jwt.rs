use base64::engine::general_purpose::URL_SAFE_NO_PAD;
use base64::Engine;
use dav_office_portal::file_jwt::{
    grant, mint, mint_at, verify, Action, FileClaims, FileJwtError, JwtError,
};
use dav_office_portal::jwt::Signed;
use dav_office_portal::session::{Session, SessionError};
use jsonwebtoken::{encode, Algorithm, EncodingKey, Header};

fn session() -> Session {
    Session {
        sub: "u1".into(),
        email: "rhansen@fida.finance".into(),
        name: None,
        access_token: "at".into(),
        refresh_token: None,
        access_token_exp: 9_999_999_999,
    }
}

/// A token with some claims, made without the library.
fn sign(claims: &str, key: &[u8]) -> String {
    let value: serde_json::Value = serde_json::from_str(claims).unwrap();
    encode(&Header::new(Algorithm::HS256), &value, &EncodingKey::from_secret(key)).unwrap()
}

#[test]
fn mint_and_verify_roundtrip() {
    let jk = [3u8; 32];
    let sk = [4u8; 32];
    let s = session();
    let tok = mint(&s, "/dav/file/x.docx", Action::Write, 60, &jk, &sk).unwrap();
    let (claims, recovered) = verify(&tok, Action::Write, &jk, &sk).unwrap();
    assert_eq!(claims.path, "/dav/file/x.docx");
    assert_eq!(claims.email, "rhansen@fida.finance");
    assert_eq!(recovered.access_token, "at");
}

#[test]
fn verify_rejects_wrong_action() {
    let jk = [3u8; 32];
    let sk = [4u8; 32];
    let tok = mint(&session(), "/x", Action::Read, 60, &jk, &sk).unwrap();
    let res = verify(&tok, Action::Write, &jk, &sk);
    assert!(matches!(res, Err(FileJwtError::WrongAction)));
}

#[test]
fn verify_rejects_expired() {
    let jk = [3u8; 32];
    let sk = [4u8; 32];
    let tok = mint(&session(), "/x", Action::Read, -10, &jk, &sk).unwrap();
    assert!(verify(&tok, Action::Read, &jk, &sk).is_err());
}

#[test]
fn verify_rejects_wrong_jwt_key() {
    let tok = mint(&session(), "/x", Action::Read, 60, &[1u8; 32], &[2u8; 32]).unwrap();
    assert!(verify(&tok, Action::Read, &[9u8; 32], &[2u8; 32]).is_err());
}

#[test]
fn verify_rejects_wrong_session_key() {
    let tok = mint(&session(), "/x", Action::Read, 60, &[1u8; 32], &[2u8; 32]).unwrap();
    let res = verify(&tok, Action::Read, &[1u8; 32], &[3u8; 32]);
    assert!(matches!(res, Err(FileJwtError::SessionDecrypt)));
}

#[test]
fn verify_gives_back_the_whole_session() {
    let s = session();
    let tok = mint(&s, "a/b.docx", Action::Read, 60, &[1u8; 32], &[2u8; 32]).unwrap();
    let (claims, recovered) = verify(&tok, Action::Read, &[1u8; 32], &[2u8; 32]).unwrap();
    assert_eq!(recovered, s);
    assert_eq!(claims.sub, "u1");
    assert_eq!(claims.action, Action::Read);
    assert_eq!(claims.exp, claims.iat + 60);
}

#[test]
fn minted_token_is_the_signed_claims() {
    let jk = [3u8; 32];
    let sk = [4u8; 32];
    let s = session();
    let enc = s.encrypt_with_nonce(&sk, &[8u8; 12]).unwrap();
    let claims = FileClaims {
        sub: "u1".into(),
        email: "rhansen@fida.finance".into(),
        path: "p".into(),
        action: Action::Write,
        session_enc: enc,
        exp: 107,
        iat: 100,
    };
    let tok = mint_at(&s, "p", Action::Write, 7, 100, &[8u8; 12], &jk, &sk).unwrap();
    assert_eq!(tok, sign(claims.to_json().as_str(), &jk));
    assert!(tok.starts_with("eyJ0eXAiOiJKV1QiLCJhbGciOiJIUzI1NiJ9."));
}

#[test]
fn an_expiry_before_the_epoch_is_not_looked_at() {
    let (jk, sk) = ([3u8; 32], [4u8; 32]);
    let expired = mint_at(&session(), "p", Action::Read, 5, 100, &[8u8; 12], &jk, &sk).unwrap();
    assert!(matches!(
        verify(&expired, Action::Read, &jk, &sk),
        Err(FileJwtError::Jwt(_))
    ));
    let before = mint_at(&session(), "p", Action::Read, -5, 0, &[8u8; 12], &jk, &sk).unwrap();
    assert_eq!(verify(&before, Action::Read, &jk, &sk).unwrap().0.exp, -5);
}

#[test]
fn verify_rejects_malformed_tokens() {
    for token in ["", "a.b", "a.b.c.d", "..", "not a token"] {
        let res = verify(token, Action::Read, &[1u8; 32], &[2u8; 32]);
        assert!(matches!(res, Err(FileJwtError::Jwt(_))));
    }
}

#[test]
fn verify_rejects_claims_that_lack_a_field() {
    let jk = [1u8; 32];
    for claims in ["{\"sub\":\"u\"}", "{}", "5", "[]", "{\"exp\":5}"] {
        match verify(&sign(claims, &jk), Action::Read, &jk, &[2u8; 32]) {
            Err(FileJwtError::Jwt(JwtError::Claims(payload))) => {
                assert_eq!(payload, claims.as_bytes());
            }
            _ => panic!("{claims}"),
        }
    }
}

#[test]
fn actions_are_read_by_name() {
    let sk = [2u8; 32];
    let enc = session().encrypt(&sk).unwrap();
    let claims = |action: &str| {
        Signed::Payload(
            format!(
                "{{\"sub\":\"u\",\"email\":\"e\",\"path\":\"p\",\"action\":{action},\
                 \"session_enc\":\"{enc}\",\"exp\":1,\"iat\":0}}"
            )
            .into_bytes(),
        )
    };
    let (c, _) = grant(claims("\"read\""), Ok(()), Action::Read, &sk).unwrap();
    assert_eq!(c.action, Action::Read);
    let (c, _) = grant(claims("{\"write\": null}"), Ok(()), Action::Write, &sk).unwrap();
    assert_eq!(c.action, Action::Write);
    for bad in ["\"Read\"", "null", "3", "{\"read\":1}", "{\"read\":null,\"write\":null}", "{}"] {
        assert!(matches!(
            grant(claims(bad), Ok(()), Action::Read, &sk),
            Err(FileJwtError::Jwt(JwtError::Claims(_)))
        ));
    }
}

#[test]
fn grant_passes_on_refusals_in_order() {
    let sk = [2u8; 32];
    let late = || Err((false, "late".to_string()));
    let words = |signed: Signed| match grant(signed, late(), Action::Read, &sk) {
        Err(FileJwtError::Jwt(JwtError::Refused(e))) => e,
        Err(FileJwtError::Jwt(JwtError::Claims(p))) => String::from_utf8(p).unwrap(),
        _ => panic!("granted"),
    };
    let claims = b"{\"sub\":\"u\",\"email\":\"e\",\"path\":\"p\",\"action\":\"write\",\
                   \"session_enc\":\"\",\"exp\":1,\"iat\":0}";
    let unreadable = |payload: &[u8]| Signed::Unreadable {
        payload: payload.to_vec(),
        words: "odd".into(),
    };
    assert_eq!(words(Signed::Refused("forged".into())), "forged");
    assert_eq!(words(Signed::Payload(b"{}".to_vec())), "{}");
    assert_eq!(words(unreadable(b"{}")), "{}");
    assert_eq!(words(unreadable(claims)), "odd");
    assert_eq!(words(Signed::Payload(claims.to_vec())), "late");
    assert!(matches!(
        grant(Signed::Payload(claims.to_vec()), Ok(()), Action::Read, &sk),
        Err(FileJwtError::WrongAction)
    ));
    assert!(matches!(
        grant(Signed::Payload(claims.to_vec()), Ok(()), Action::Write, &sk),
        Err(FileJwtError::SessionDecrypt)
    ));
}

#[test]
fn refusals_have_the_words_of_the_decoder() {
    let jk = [1u8; 32];
    let words = |token: &str| match verify(token, Action::Read, &jk, &jk) {
        Err(FileJwtError::Jwt(JwtError::Refused(e))) => e,
        _ => panic!("{token}"),
    };
    let expired = mint_at(&session(), "p", Action::Read, 5, 100, &[8u8; 12], &jk, &jk).unwrap();
    assert_eq!(words(&expired), "ExpiredSignature");
    assert_eq!(words("a.b"), "InvalidToken");
    let header = |text: &str| format!("{}.e30.x", URL_SAFE_NO_PAD.encode(text));
    assert!(words(&header("no")).starts_with("JSON error: "));
    assert_eq!(words(&header("{\"alg\":\"HS256\"}")), "InvalidSignature");
    assert_eq!(words(&header("{\"alg\":\"HS384\"}")), "InvalidAlgorithm");
}

#[test]
fn another_action_is_refused_whatever_the_session_key() {
    let tok = mint(&session(), "p", Action::Read, 60, &[1u8; 32], &[2u8; 32]).unwrap();
    for key in [[2u8; 32], [3u8; 32]] {
        assert!(matches!(
            verify(&tok, Action::Write, &[1u8; 32], &key),
            Err(FileJwtError::WrongAction)
        ));
    }
}

#[test]
fn claims_that_are_not_read_may_hold_any_bytes() {
    let (jk, sk) = ([1u8; 32], [2u8; 32]);
    let enc = session().encrypt(&sk).unwrap();
    let token = |odd: &[u8]| {
        let mut claims = format!(
            "{{\"sub\":\"u\",\"email\":\"e\",\"path\":\"p\",\"action\":\"read\",\
             \"session_enc\":\"{enc}\",\"exp\":9999999999,\"iat\":0,"
        )
        .into_bytes();
        claims.extend_from_slice(odd);
        claims.push(b'}');
        let message = format!(
            "{}.{}",
            URL_SAFE_NO_PAD.encode("{\"alg\":\"HS256\"}"),
            URL_SAFE_NO_PAD.encode(claims)
        );
        let key = EncodingKey::from_secret(&jk);
        let mac = jsonwebtoken::crypto::sign(message.as_bytes(), &key, Algorithm::HS256).unwrap();
        format!("{message}.{mac}")
    };
    let (claims, s) = verify(&token(b"\"x\":\"\xff\""), Action::Read, &jk, &sk).unwrap();
    assert_eq!(claims.path, "p");
    assert_eq!(s, session());
    assert!(verify(&token(b"\"\xff\":1"), Action::Read, &jk, &sk).is_err());
    match verify(&token(b"\"aud\":\"them\""), Action::Read, &jk, &sk) {
        Err(FileJwtError::Jwt(JwtError::Refused(e))) => assert_eq!(e, "InvalidAudience"),
        _ => panic!("accepted"),
    }
}

#[test]
fn file_jwt_errors_have_words() {
    assert_eq!(FileJwtError::Jwt(JwtError::Refused("x".into())).message("w"), "jwt error: x");
    assert_eq!(
        FileJwtError::Jwt(JwtError::Claims(vec![])).message("w"),
        "jwt error: JSON error: w"
    );
    assert_eq!(
        FileJwtError::Session(SessionError::Encrypt).message("w"),
        "session encryption failed"
    );
    assert_eq!(FileJwtError::SessionDecrypt.message("w"), "session decrypt failed");
    assert_eq!(
        FileJwtError::WrongAction.message("w"),
        "token action doesn't match endpoint"
    );
}
