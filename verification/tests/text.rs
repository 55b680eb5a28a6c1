use dav_office_portal::json::JsonValue;
use dav_office_portal::numbers::{decimal_of, decimal_of_signed, hex_value_of, parse_u64};
use dav_office_portal::text::{
    after_last_of, ends_with_text, lower_of, pieces_of, replace_of, same_text, split_once_of,
    strip_prefix_of, tail_of, trim_end_of, trim_start_of, trim_white_of,
};
use dav_office_portal::weburl::Url;

#[test]
fn text_operations_agree_with_the_standard_library() {
    let samples = ["", "a", "/a//b/", "a.b.c", "..", " \u{a0}x y\t", "äÖ@@ß", "aXaXa", "XX"];
    for s in samples {
        assert_eq!(trim_start_of(s, '/'), s.trim_start_matches('/'));
        assert_eq!(trim_end_of(s, '/'), s.trim_end_matches('/'));
        assert_eq!(after_last_of(s, '/'), s.rsplit('/').next().unwrap());
        assert_eq!(lower_of(s), s.to_ascii_lowercase());
        assert_eq!(trim_white_of(s), s.trim());
        assert_eq!(replace_of(s, "X", "yy"), s.replace('X', "yy"));
        assert_eq!(pieces_of(s, '.'), s.split('.').collect::<Vec<&str>>());
        let halves = split_once_of(s, '@');
        assert_eq!(
            halves.as_ref().map(|(a, b)| (a.as_str(), b.as_str())),
            s.split_once('@')
        );
        assert_eq!(strip_prefix_of(s, "/a").as_deref(), s.strip_prefix("/a"));
        assert_eq!(ends_with_text(s, "b/"), s.ends_with("b/"));
        assert!(same_text(s, s));
    }
    assert!(!same_text("a", "b"));
    assert_eq!(replace_of("aaa", "aa", "b"), "ba");
    assert_eq!(tail_of("äöü", 1), "öü");
    assert_eq!(tail_of("a", 1), "");
}

#[test]
fn white_space_is_that_of_unicode() {
    for n in 0..0x3100 {
        if let Some(c) = char::from_u32(n) {
            let s = c.to_string();
            assert_eq!(trim_white_of(&s), s.trim());
        }
    }
}

#[test]
fn numbers_are_written_and_read_in_decimal() {
    for n in [0, 9, 10, 1234, u64::MAX] {
        assert_eq!(decimal_of(n), n.to_string());
    }
    for n in [i64::MIN, -10, -1, 0, 7, i64::MAX] {
        assert_eq!(decimal_of_signed(n), n.to_string());
    }
    for s in [
        "", "+", "+5", "-5", "0", "007", "18446744073709551615", "18446744073709551616", "1 ",
        "99999999999999999999999", "5+", "٣",
    ] {
        assert_eq!(parse_u64(s), s.parse::<u64>().ok());
    }
}

#[test]
fn hex_digits_have_values() {
    for b in 0..=255u8 {
        assert_eq!(hex_value_of(b).map(|v| v as u32), (b as char).to_digit(16));
    }
}

#[test]
fn json_text_agrees_with_serde_json() {
    let all: String = (0..0x250).filter_map(char::from_u32).collect();
    assert_eq!(
        JsonValue::text(&all).as_str(),
        serde_json::to_string(&all).unwrap()
    );
    let v = JsonValue::array(vec![
        JsonValue::null(),
        JsonValue::boolean(true),
        JsonValue::boolean(false),
        JsonValue::signed(-5),
        JsonValue::unsigned(7),
        JsonValue::optional_text(&None),
        JsonValue::object(vec![("k\"".into(), JsonValue::array(vec![]))]),
    ]);
    let text = "[null,true,false,-5,7,null,{\"k\\\"\":[]}]";
    assert_eq!(v.as_str(), text);
    let value: serde_json::Value = serde_json::from_str(text).unwrap();
    assert_eq!(value.to_string(), text);
}

#[test]
fn queries_are_added_before_the_fragment() {
    let pairs = vec![("a b".to_string(), "1&2".to_string()), ("é*-._".into(), "".into())];
    for base in [
        "https://x.org/p",
        "https://x.org/p?",
        "https://x.org/p?q=1",
        "https://x.org/p#f?g",
        "https://x.org/p?q#f#g",
        "https://x.org/p?#f",
        "mailto:u@x.org",
    ] {
        let mut expected = url::Url::parse(base).unwrap();
        expected.query_pairs_mut().extend_pairs(pairs.iter());
        let got = Url::parse(base).unwrap().with_pairs(&pairs);
        assert_eq!(got.as_str(), expected.as_str());
    }
}

#[test]
fn urls_are_kept_in_normal_form() {
    assert_eq!(Url::parse("HTTPS://X.org/a/../b").unwrap().as_str(), "https://x.org/b");
    assert_eq!(Url::parse("x").unwrap_err(), "relative URL without a base");
    let base = Url::parse("https://x.org/a/b").unwrap();
    assert_eq!(base.join("../c").unwrap().as_str(), "https://x.org/c");
}
