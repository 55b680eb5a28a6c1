use dav_office_portal::onlyoffice::{build_and_sign, Callback, CallbackStatus, FileKind};
use jsonwebtoken::{decode, DecodingKey, Validation};

#[test]
fn file_kind_from_path() {
    assert!(matches!(FileKind::from_path("foo.docx"), FileKind::Docx));
    assert!(matches!(FileKind::from_path("/a/b.xlsx"), FileKind::Xlsx));
    assert!(matches!(FileKind::from_path("DECK.PPTX"), FileKind::Pptx));
    assert!(matches!(FileKind::from_path("readme.md"), FileKind::Other));
}

#[test]
fn build_and_sign_yields_valid_jwt() {
    let secret = b"shared-secret-1234";
    let cfg = build_and_sign(
        "q4.docx",
        FileKind::Docx,
        "doc-key-abc",
        "https://office.example/api/file/JWT",
        "https://office.example/api/callback/JWT",
        "user-1",
        "Test User",
        secret,
    )
    .unwrap();
    assert_eq!(cfg.document.title, "q4.docx");
    assert_eq!(cfg.document_type, "word");
    // token decodes with the same secret
    let mut v = Validation::new(jsonwebtoken::Algorithm::HS256);
    v.required_spec_claims.clear();
    v.validate_exp = false;
    let _ = decode::<serde_json::Value>(&cfg.token, &DecodingKey::from_secret(secret), &v)
        .unwrap();
}

#[test]
fn callback_status_mapping() {
    assert_eq!(CallbackStatus::from(2), CallbackStatus::ReadyToSave);
    assert_eq!(CallbackStatus::from(6), CallbackStatus::Forcesave);
    assert_eq!(CallbackStatus::from(99), CallbackStatus::Other(99));
}

#[test]
fn callback_status_of_every_code() {
    let expected = [
        (0, CallbackStatus::NotFound),
        (1, CallbackStatus::Editing),
        (2, CallbackStatus::ReadyToSave),
        (3, CallbackStatus::SaveError),
        (4, CallbackStatus::ClosedNoChanges),
        (5, CallbackStatus::Other(5)),
        (6, CallbackStatus::Forcesave),
        (7, CallbackStatus::ForcesaveError),
        (-1, CallbackStatus::Other(-1)),
    ];
    for (n, status) in expected {
        let cb = Callback { status: n, url: None, key: None };
        assert_eq!(cb.status_enum(), status);
    }
}

#[test]
fn older_formats_have_the_same_kinds() {
    assert_eq!(FileKind::from_path("a.Doc"), FileKind::Docx);
    assert_eq!(FileKind::from_path("a.xls"), FileKind::Xlsx);
    assert_eq!(FileKind::from_path("a.ppt"), FileKind::Pptx);
    assert_eq!(FileKind::from_path("docx"), FileKind::Other);
    assert_eq!(FileKind::from_path(""), FileKind::Other);
}

#[test]
fn kinds_have_types_and_extensions() {
    assert_eq!(FileKind::Docx.document_type(), "word");
    assert_eq!(FileKind::Xlsx.document_type(), "cell");
    assert_eq!(FileKind::Pptx.document_type(), "slide");
    assert_eq!(FileKind::Other.document_type(), "word");
    assert_eq!(FileKind::Docx.extension(), "docx");
    assert_eq!(FileKind::Xlsx.extension(), "xlsx");
    assert_eq!(FileKind::Pptx.extension(), "pptx");
    assert_eq!(FileKind::Other.extension(), "txt");
}

#[test]
fn config_is_written_with_its_token() {
    let cfg = build_and_sign("T", FileKind::Xlsx, "k", "f", "c", "i", "N", b"s").unwrap();
    let unsigned = "\"document\":{\"fileType\":\"xlsx\",\"key\":\"k\",\"title\":\"T\",\
                    \"url\":\"f\",\"permissions\":{\"edit\":true,\"download\":true,\
                    \"print\":true}},\"documentType\":\"cell\",\"editorConfig\":{\
                    \"mode\":\"edit\",\"callbackUrl\":\"c\",\"user\":{\"id\":\"i\",\
                    \"name\":\"N\"},\"lang\":\"en\"}";
    assert_eq!(
        cfg.to_json().as_str(),
        format!(
            "{{{unsigned},\"width\":\"100%\",\"height\":\"100%\",\"token\":\"{}\"}}",
            cfg.token
        )
    );
    let mut v = Validation::new(jsonwebtoken::Algorithm::HS256);
    v.required_spec_claims.clear();
    v.validate_exp = false;
    let signed = decode::<serde_json::Value>(&cfg.token, &DecodingKey::from_secret(b"s"), &v)
        .unwrap()
        .claims;
    assert_eq!(signed.to_string(), format!("{{{unsigned}}}"));
}
