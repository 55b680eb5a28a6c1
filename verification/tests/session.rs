use aes_gcm::aead::generic_array::GenericArray;
use aes_gcm::aead::{Aead, KeyInit};
use aes_gcm::Aes256Gcm;
use base64::engine::general_purpose::URL_SAFE_NO_PAD;
use base64::Engine;
use dav_office_portal::session::{cookie_key_bytes, Session, SessionError, COOKIE_NAME};
use time::OffsetDateTime;

fn sample() -> Session {
    Session {
        sub: "abc".into(),
        email: "user@example.com".into(),
        name: Some("Test User".into()),
        access_token: "at".into(),
        refresh_token: Some("rt".into()),
        access_token_exp: 9_999_999_999,
    }
}

/// A cookie value that holds some plaintext, made without the library.
fn seal(key: &[u8; 32], plain: &[u8]) -> String {
    let nonce = [9u8; 12];
    let cipher = Aes256Gcm::new(key.into());
    let sealed = cipher.encrypt(GenericArray::from_slice(&nonce), plain).unwrap();
    let mut wire = nonce.to_vec();
    wire.extend_from_slice(&sealed);
    URL_SAFE_NO_PAD.encode(wire)
}

#[test]
fn encrypt_decrypt_roundtrip() {
    let key = [7u8; 32];
    let s = sample();
    let enc = s.encrypt(&key).unwrap();
    let dec = Session::decrypt(&enc, &key).unwrap();
    assert_eq!(s, dec);
}

#[test]
fn decrypt_rejects_wrong_key() {
    let s = sample();
    let enc = s.encrypt(&[1u8; 32]).unwrap();
    assert!(Session::decrypt(&enc, &[2u8; 32]).is_err());
}

#[test]
fn decrypt_rejects_garbage() {
    assert!(Session::decrypt("not-base64!!!", &[0u8; 32]).is_err());
    assert!(Session::decrypt("AAAA", &[0u8; 32]).is_err());
}

#[test]
fn email_domain_extracts() {
    assert_eq!(sample().email_domain(), Some("example.com"));
}

#[test]
fn access_token_expiry_check() {
    let mut s = sample();
    s.access_token_exp = 100;
    let now = OffsetDateTime::from_unix_timestamp(99).unwrap().unix_timestamp();
    assert!(!s.is_access_token_expired(now));
    let later = OffsetDateTime::from_unix_timestamp(100).unwrap().unix_timestamp();
    assert!(s.is_access_token_expired(later));
}

#[test]
fn email_domain_cuts_at_the_first_at_sign() {
    let mut s = sample();
    s.email = "ä@b@c".into();
    assert_eq!(s.email_domain(), Some("b@c"));
    s.email = "nobody".into();
    assert_eq!(s.email_domain(), None);
    s.email = "nobody@".into();
    assert_eq!(s.email_domain(), Some(""));
}

#[test]
fn session_json_has_the_fields_in_order() {
    assert_eq!(
        sample().to_json().as_str(),
        "{\"sub\":\"abc\",\"email\":\"user@example.com\",\"name\":\"Test User\",\
         \"access_token\":\"at\",\"refresh_token\":\"rt\",\"access_token_exp\":9999999999}"
    );
}

#[test]
fn encryption_is_base64_of_nonce_and_ciphertext() {
    let key = [5u8; 32];
    let s = sample();
    let expected = seal(&key, s.to_json().as_str().as_bytes());
    assert_eq!(s.encrypt_with_nonce(&key, &[9u8; 12]).unwrap(), expected);
}

#[test]
fn encryption_draws_a_new_nonce_each_time() {
    let s = sample();
    assert_ne!(s.encrypt(&[5u8; 32]).unwrap(), s.encrypt(&[5u8; 32]).unwrap());
}

#[test]
fn roundtrip_keeps_special_characters_and_absent_fields() {
    let key = [3u8; 32];
    let s = Session {
        sub: "a\"b\\c\n\t\u{1}\u{7f}é\u{1f600}".into(),
        email: "".into(),
        name: None,
        access_token: "null".into(),
        refresh_token: None,
        access_token_exp: i64::MIN,
    };
    let dec = Session::decrypt(&s.encrypt(&key).unwrap(), &key).unwrap();
    assert_eq!(s, dec);
}

#[test]
fn decrypt_says_what_is_wrong() {
    let key = [1u8; 32];
    assert!(matches!(Session::decrypt("not-base64!!!", &key), Err(SessionError::Decode)));
    assert!(matches!(Session::decrypt("AAAA", &key), Err(SessionError::Decode)));
    let long = URL_SAFE_NO_PAD.encode([0u8; 28]);
    assert!(matches!(Session::decrypt(&long, &key), Err(SessionError::Decrypt)));
    assert!(matches!(
        Session::decrypt(&seal(&key, b"not json"), &key),
        Err(SessionError::Json(_))
    ));
}

#[test]
fn decrypt_reads_records_as_objects_and_arrays() {
    let key = [1u8; 32];
    let read = |plain: &str| Session::decrypt(&seal(&key, plain.as_bytes()), &key);
    let object = "{ \"access_token_exp\": 5, \"extra\": [1, {}], \"sub\": \"s\", \
                  \"email\": \"e\", \"access_token\": \"a\" } ";
    let s = read(object).unwrap();
    assert_eq!(s.sub, "s");
    assert_eq!(s.name, None);
    assert_eq!(s.refresh_token, None);
    assert_eq!(s.access_token_exp, 5);
    let array = " [\"s\", \"e\", null, \"a\", \"r\", 5]";
    let s = read(array).unwrap();
    assert_eq!(s.email, "e");
    assert_eq!(s.name, None);
    assert_eq!(s.refresh_token.as_deref(), Some("r"));
}

#[test]
fn decrypt_refuses_bad_records() {
    let key = [1u8; 32];
    for plain in [
        &b""[..],
        b"{\"sub\":\"s\"}",
        b"{\"sub\":\"s\",\"sub\":\"s\",\"email\":\"e\",\"access_token\":\"a\",\"access_token_exp\":5}",
        b"[\"s\",\"e\",null,\"a\",\"r\"]",
        b"[\"s\",\"e\",null,\"a\",\"r\",5,6]",
        b"[\"s\",\"\xff\",null,\"a\",\"r\",5]",
        b"[1,\"e\",null,\"a\",\"r\",5]",
        b"[\"s\",\"e\",null,\"a\",\"r\",1.5]",
        b"[\"s\",\"e\",3,\"a\",\"r\",5]",
        b"[\"s\",\"e\",null,\"a\",\"r\",5] x",
        b"\xff",
        b"{} x",
    ] {
        match Session::decrypt(&seal(&key, plain), &key) {
            Err(SessionError::Json(unread)) => assert_eq!(unread, plain),
            _ => panic!("{plain:?}"),
        }
    }
}

#[test]
fn decrypt_passes_over_members_that_are_not_unicode() {
    let key = [1u8; 32];
    let read = |plain: &[u8]| Session::decrypt(&seal(&key, plain), &key);
    let mut plain = b"{\"x\":\"\xff\xe2\x82\",\"y\":[\"\x80\"],".to_vec();
    plain.extend_from_slice(&sample().to_json().as_str().as_bytes()[1..]);
    assert_eq!(read(&plain).unwrap(), sample());
    let mut plain = b"{\"\xff\":1,".to_vec();
    plain.extend_from_slice(&sample().to_json().as_str().as_bytes()[1..]);
    match read(&plain) {
        Err(SessionError::Json(unread)) => assert_eq!(unread, plain),
        _ => panic!("read"),
    }
}

#[test]
fn session_errors_have_words() {
    assert_eq!(SessionError::Encrypt.message("w"), "encryption failed");
    assert_eq!(SessionError::Decrypt.message("w"), "decryption failed");
    assert_eq!(SessionError::Decode.message("w"), "cookie decode failed");
    assert_eq!(SessionError::Json(vec![]).message("x"), "session serialization: x");
}

#[test]
fn cookie_key_is_the_session_key_twice() {
    let mut key = [0u8; 32];
    key[0] = 1;
    key[31] = 2;
    let bytes = cookie_key_bytes(&key);
    assert_eq!(bytes.len(), 64);
    assert_eq!(&bytes[..32], &key);
    assert_eq!(&bytes[32..], &key);
    assert_eq!(COOKIE_NAME, "office_portal_session");
}
