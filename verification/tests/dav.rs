use dav_office_portal::dav::{
    parse_propfind, percent_decode, strip_ns, url_decode, DavClient, DavError, DavOp, Listing,
    RawEntry,
};
use dav_office_portal::weburl::Url;
use dav_office_portal::xml::XmlEvent;

const ROOT: &str = "/dav/file/u@x.org/";

fn client() -> DavClient {
    DavClient::new(Url::parse("https://dav.x.org").unwrap(), "u@x.org", "tok".into())
}

/// A multistatus document with one response.
fn response(inner: &str) -> String {
    format!("<D:multistatus xmlns:D=\"DAV:\"><D:response>{inner}</D:response></D:multistatus>")
}

#[test]
fn url_for_handles_root_and_subpath() {
    let c = DavClient::new(
        Url::parse("https://dav.fida.finance").unwrap(),
        "rhansen@fida.finance",
        "t".into(),
    );
    assert_eq!(
        c.url_for("").unwrap().as_str(),
        "https://dav.fida.finance/dav/file/rhansen@fida.finance/"
    );
    assert_eq!(
        c.url_for("docs/q4.docx").unwrap().as_str(),
        "https://dav.fida.finance/dav/file/rhansen@fida.finance/docs/q4.docx"
    );
    // Leading slash on rel is tolerated
    assert_eq!(
        c.url_for("/docs").unwrap().as_str(),
        "https://dav.fida.finance/dav/file/rhansen@fida.finance/docs"
    );
}

#[test]
fn parse_propfind_recognizes_collection_and_file() {
    let xml = r#"<?xml version="1.0" encoding="utf-8"?>
<D:multistatus xmlns:D="DAV:">
  <D:response>
    <D:href>/dav/file/rhansen@fida.finance/</D:href>
    <D:propstat><D:prop><D:resourcetype><D:collection/></D:resourcetype></D:prop></D:propstat>
  </D:response>
  <D:response>
    <D:href>/dav/file/rhansen@fida.finance/q4.docx</D:href>
    <D:propstat><D:prop>
      <D:displayname>q4.docx</D:displayname>
      <D:resourcetype/>
      <D:getcontentlength>1234</D:getcontentlength>
      <D:getcontenttype>application/vnd.openxmlformats-officedocument.wordprocessingml.document</D:getcontenttype>
      <D:getlastmodified>Mon, 11 May 2026 12:00:00 GMT</D:getlastmodified>
    </D:prop></D:propstat>
  </D:response>
  <D:response>
    <D:href>/dav/file/rhansen@fida.finance/reports/</D:href>
    <D:propstat><D:prop>
      <D:resourcetype><D:collection/></D:resourcetype>
    </D:prop></D:propstat>
  </D:response>
</D:multistatus>"#;
    let user_root = "/dav/file/rhansen@fida.finance/";
    let entries = parse_propfind(xml, user_root).unwrap();
    assert_eq!(entries.len(), 2);
    let doc = entries.iter().find(|e| e.path == "q4.docx").unwrap();
    assert!(!doc.is_collection);
    assert_eq!(doc.size, 1234);
    assert_eq!(doc.name, "q4.docx");
    let dir = entries.iter().find(|e| e.path == "reports").unwrap();
    assert!(dir.is_collection);
}

#[test]
fn parse_propfind_decodes_percent_encoded_href() {
    let xml = r#"<?xml version="1.0" encoding="utf-8"?>
<D:multistatus xmlns:D="DAV:">
  <D:response>
    <D:href>/dav/file/rhansen%40fida.finance/q4.docx</D:href>
    <D:propstat><D:prop>
      <D:displayname>q4.docx</D:displayname>
      <D:resourcetype/>
      <D:getcontentlength>10</D:getcontentlength>
    </D:prop></D:propstat>
  </D:response>
</D:multistatus>"#;
    let entries = parse_propfind(xml, "/dav/file/rhansen@fida.finance/").unwrap();
    assert_eq!(entries.len(), 1);
    assert_eq!(entries[0].path, "q4.docx");
}

#[test]
fn percent_decode_replaces_escapes_and_keeps_the_rest() {
    assert_eq!(percent_decode(b"a%41%7eb"), "aA~b");
    assert_eq!(percent_decode(b"%41"), "A");
    assert_eq!(percent_decode(b"%4"), "%4");
    assert_eq!(percent_decode(b"100%"), "100%");
    assert_eq!(percent_decode(b"%zz%4g"), "%zz%4g");
    assert_eq!(percent_decode(b"%%41"), "%A");
    assert_eq!(percent_decode(b"a+b"), "a+b");
    assert_eq!(percent_decode(b""), "");
}

#[test]
fn percent_decode_reads_utf8_and_marks_what_is_none() {
    assert_eq!(url_decode("%E2%82%ac \u{e9}"), "\u{20ac} \u{e9}");
    assert_eq!(percent_decode(b"a%ffb"), "a\u{fffd}b");
}

#[test]
fn strip_ns_cuts_at_the_first_colon() {
    assert_eq!(strip_ns(b"D:href"), "href");
    assert_eq!(strip_ns(b"href"), "href");
    assert_eq!(strip_ns(b"a:b:c"), "b:c");
}

#[test]
fn into_entry_takes_the_path_behind_the_root() {
    let entry = |href: &str, name: Option<&str>| {
        let raw = RawEntry {
            href: href.into(),
            displayname: name.map(|n| n.into()),
            is_collection: true,
            size: 7,
            content_type: Some("t".into()),
            last_modified: None,
        };
        raw.into_entry(ROOT)
    };
    let e = entry("/dav/file/u%40x.org/a%20b/c//", None).unwrap();
    assert_eq!(e.path, "a b/c");
    assert_eq!(e.name, "c");
    assert!(e.is_collection);
    assert_eq!(e.size, 7);
    assert_eq!(e.content_type.as_deref(), Some("t"));
    assert_eq!(e.last_modified, None);
    assert_eq!(entry("/dav/file/u@x.org/c", Some("shown")).unwrap().name, "shown");
    let root = entry(ROOT, None).unwrap();
    assert_eq!(root.path, "");
    assert_eq!(root.name, "");
    assert!(entry("/dav/file/other@x.org/c", None).is_none());
    assert!(entry("/dav/file/u@x.org", None).is_none());
}

#[test]
fn default_raw_entry_says_nothing() {
    let raw = RawEntry::default();
    assert_eq!(raw.href, "");
    assert_eq!(raw.displayname, None);
    assert!(!raw.is_collection);
    assert_eq!(raw.size, 0);
}

#[test]
fn parse_propfind_reads_every_property() {
    let xml = response(
        "<D:href> /dav/file/u@x.org/a&amp;b </D:href><D:getcontentlength>+12</D:getcontentlength>\
         <D:getcontenttype>text/plain</D:getcontenttype>\
         <D:getlastmodified>Mon</D:getlastmodified>",
    );
    let entries = parse_propfind(&xml, ROOT).unwrap();
    assert_eq!(entries.len(), 1);
    let e = &entries[0];
    assert_eq!(e.path, "a&b");
    assert_eq!(e.name, "a&b");
    assert_eq!(e.size, 12);
    assert!(!e.is_collection);
    assert_eq!(e.content_type.as_deref(), Some("text/plain"));
    assert_eq!(e.last_modified.as_deref(), Some("Mon"));
}

#[test]
fn parse_propfind_forgives_bad_values() {
    let size = |text: &str| {
        let xml = response(&format!(
            "<D:href>/dav/file/u@x.org/a</D:href><D:getcontentlength>{text}</D:getcontentlength>"
        ));
        parse_propfind(&xml, ROOT).unwrap()[0].size
    };
    assert_eq!(size("18446744073709551615"), u64::MAX);
    assert_eq!(size("18446744073709551616"), 0);
    assert_eq!(size("-1"), 0);
    assert_eq!(size("x"), 0);
    let xml = response("<D:href>/dav/file/u@x.org/a</D:href><D:displayname>&nope;</D:displayname>");
    assert_eq!(parse_propfind(&xml, ROOT).unwrap()[0].name, "");
}

#[test]
fn parse_propfind_knows_collections_in_both_forms() {
    let xml = response(
        "<D:href>/dav/file/u@x.org/a</D:href><D:resourcetype><D:collection></D:collection>\
         </D:resourcetype>",
    );
    assert!(parse_propfind(&xml, ROOT).unwrap()[0].is_collection);
}

#[test]
fn parse_propfind_shows_only_children_of_the_root() {
    let xml = "<m><response><href>/dav/file/u@x.org/</href></response>\
               <response><href>/dav/file/v@x.org/secret</href></response>\
               <response><href>/dav/file/u@x.org/%2fb</href></response>\
               <href>/dav/file/u@x.org/stray</href></m>";
    let entries = parse_propfind(xml, ROOT).unwrap();
    assert_eq!(entries.len(), 1);
    assert_eq!(entries[0].path, "/b");
    assert!(parse_propfind("", ROOT).unwrap().is_empty());
}

#[test]
fn parse_propfind_refuses_malformed_documents() {
    match parse_propfind("<a></b>", ROOT) {
        Err(DavError::Xml(e)) => assert!(!e.is_empty()),
        _ => panic!("accepted"),
    }
}

#[test]
fn listing_advances_by_events() {
    let mut l = Listing::new();
    for e in [
        XmlEvent::Other,
        XmlEvent::End(b"D:stray".to_vec()),
        XmlEvent::Start(b"D:response".to_vec()),
        XmlEvent::Start(b"D:href".to_vec()),
        XmlEvent::Text(Some("/dav/file/u@x.org/d/".into())),
        XmlEvent::End(b"D:href".to_vec()),
        XmlEvent::Empty(b"D:collection".to_vec()),
        XmlEvent::End(b"D:response".to_vec()),
    ] {
        l = l.advance(e, ROOT);
    }
    assert!(l.current.is_none());
    assert!(l.open_tags.is_empty());
    let entries = l.children();
    assert_eq!(entries.len(), 1);
    assert_eq!(entries[0].path, "d");
    assert!(entries[0].is_collection);
}

#[test]
fn listings_are_read_in_any_order_and_within_other_elements() {
    let xml = "<m:multistatus xmlns:m=\"DAV:\"><m:sync-token>t</m:sync-token>\
               <m:response><m:propstat><m:prop><m:getlastmodified>then</m:getlastmodified>\
               <m:getetag>e</m:getetag><m:displayname>N</m:displayname>\
               <m:getcontentlength>7</m:getcontentlength></m:prop>\
               <m:status>HTTP/1.1 200 OK</m:status></m:propstat>\
               <m:href>/dav/file/u@x.org/f</m:href></m:response>\
               <x><m:response><m:href>/dav/file/u@x.org/d/</m:href><m:propstat><m:prop>\
               <m:resourcetype><m:collection></m:collection></m:resourcetype></m:prop>\
               </m:propstat></m:response></x>\
               <m:response><m:href>/dav/file/v@x.org/g</m:href></m:response></m:multistatus>";
    let entries = parse_propfind(xml, ROOT).unwrap();
    assert_eq!(entries.len(), 2);
    assert_eq!(entries[0].path, "f");
    assert_eq!(entries[0].name, "N");
    assert_eq!(entries[0].size, 7);
    assert_eq!(entries[0].last_modified.as_deref(), Some("then"));
    assert!(!entries[0].is_collection);
    assert_eq!(entries[1].path, "d");
    assert_eq!(entries[1].name, "d");
    assert!(entries[1].is_collection);
}

#[test]
fn requests_carry_the_token_and_the_address() {
    let c = client();
    assert_eq!(c.user_root(), ROOT);
    let q = c.list("docs").unwrap();
    assert_eq!(q.method, "PROPFIND");
    assert_eq!(q.url.as_str(), "https://dav.x.org/dav/file/u@x.org/docs");
    let header = |name: &str, value: &str| (name.to_string(), value.to_string());
    assert_eq!(
        q.headers,
        vec![
            header("Depth", "1"),
            header("Authorization", "Bearer tok"),
            header("Content-Type", "application/xml; charset=utf-8"),
        ]
    );
    let body = String::from_utf8(q.body).unwrap();
    assert_eq!(
        body,
        "<?xml version=\"1.0\" encoding=\"utf-8\"?>\n<D:propfind xmlns:D=\"DAV:\">\n  <D:prop>\n\
         \x20   <D:displayname/>\n    <D:resourcetype/>\n    <D:getcontentlength/>\n\
         \x20   <D:getcontenttype/>\n    <D:getlastmodified/>\n  </D:prop>\n</D:propfind>"
    );
    let q = c.put_bytes("/a b", vec![1, 2]).unwrap();
    assert_eq!(q.method, "PUT");
    assert_eq!(q.url.as_str(), "https://dav.x.org/dav/file/u@x.org/a%20b");
    assert_eq!(q.headers, vec![header("Authorization", "Bearer tok")]);
    assert_eq!(q.body, vec![1, 2]);
    assert_eq!(c.get("a").unwrap().method, "GET");
    assert_eq!(c.delete("a").unwrap().method, "DELETE");
    assert_eq!(c.mkcol("a").unwrap().method, "MKCOL");
    let q = c.mv("a", "b").unwrap();
    assert_eq!(q.method, "MOVE");
    assert_eq!(q.url.as_str(), "https://dav.x.org/dav/file/u@x.org/a");
    assert_eq!(
        q.headers,
        vec![
            header("Authorization", "Bearer tok"),
            header("Destination", "https://dav.x.org/dav/file/u@x.org/b"),
            header("Overwrite", "F"),
        ]
    );
}

#[test]
fn paths_that_do_not_climb_stay_in_the_collection() {
    let c = client();
    let root = c.url_for("").unwrap();
    for rel in [
        "a/../b", "a/./b", "a//../..", "a/%2e%2E/b", "a\\..\\b", "?..", "a?/../..", ".\ta/..",
        "..a/b. ", "c:/../../d", "a/C|/x/../..\\../..",
    ] {
        let url = c.url_for(rel).unwrap();
        assert!(url.as_str().starts_with(root.as_str()));
    }
}

#[test]
fn paths_that_leave_the_collection_are_refused() {
    let c = client();
    let refused = |e: DavError| -> bool {
        matches!(e, DavError::Url(ref words) if words == "path leaves the collection")
    };
    for rel in [
        "../v@x.org/f", "..", "/..", "a/../..", "%2e%2E/b", "a\\..\\..", ".\t./b", "a/../%2e./c?d", "./../b", "cc:/../..", "b/../.. ",
    ] {
        assert!(refused(c.url_for(rel).unwrap_err()), "{rel:?}");
        assert!(refused(c.list(rel).unwrap_err()));
        assert!(refused(c.get(rel).unwrap_err()));
        assert!(refused(c.put_bytes(rel, vec![1]).unwrap_err()));
        assert!(refused(c.delete(rel).unwrap_err()));
        assert!(refused(c.mkcol(rel).unwrap_err()));
        assert!(refused(c.mv(rel, "b").unwrap_err()));
        assert!(refused(c.mv("a", rel).unwrap_err()));
    }
}

#[test]
fn users_whose_collection_has_no_path_of_its_own_are_refused() {
    let client_of = |email: &str| {
        DavClient::new(Url::parse("https://dav.x.org").unwrap(), email, "tok".into())
    };
    for email in ["..", ".", "a/../b", "%2e%2E", "a?b", "a#b", "a\\b", "a\tb", "a\nb", ".\r."] {
        match client_of(email).url_for("f") {
            Err(DavError::Url(words)) => assert_eq!(words, "path leaves the collection"),
            _ => panic!("{email:?}"),
        }
    }
    for (email, address) in [
        ("u+x@y.org", "https://dav.x.org/dav/file/u+x@y.org/f"),
        ("a/b", "https://dav.x.org/dav/file/a/b/f"),
        ("a b", "https://dav.x.org/dav/file/a%20b/f"),
        ("..a", "https://dav.x.org/dav/file/..a/f"),
    ] {
        assert_eq!(client_of(email).url_for("f").unwrap().as_str(), address);
    }
}

#[test]
fn addresses_that_cannot_be_are_reported() {
    let c = DavClient::new(Url::parse("mailto:u@x.org").unwrap(), "u@x.org", "t".into());
    match c.url_for("a") {
        Err(DavError::Url(e)) => {
            assert_eq!(e, "relative URL with a cannot-be-a-base base");
        }
        _ => panic!("resolved"),
    }
    assert!(matches!(c.list("a"), Err(DavError::Url(_))));
    assert!(matches!(c.mv("a", "b"), Err(DavError::Url(_))));
}

#[test]
fn replies_are_accepted_by_status() {
    let accepted = |op: DavOp| -> Vec<u16> { (100..600).filter(|s| op.accepts(*s)).collect() };
    assert_eq!(accepted(DavOp::List), (200..300).collect::<Vec<u16>>());
    assert_eq!(accepted(DavOp::Get), (200..300).collect::<Vec<u16>>());
    assert_eq!(accepted(DavOp::Put), vec![200, 201, 204]);
    assert_eq!(accepted(DavOp::Delete), vec![200, 204]);
    assert_eq!(accepted(DavOp::Mkcol), vec![201]);
    assert_eq!(accepted(DavOp::Move), vec![201, 204]);
    assert!(DavOp::Mkcol.reply(201, "".into()).is_ok());
    match DavOp::Mkcol.reply(405, "no".into()) {
        Err(DavError::Status(s, b)) => {
            assert_eq!(s, 405);
            assert_eq!(b, "no");
        }
        _ => panic!("accepted"),
    }
}

#[test]
fn list_reply_reads_the_document_or_the_status() {
    let c = client();
    let xml = response("<D:href>/dav/file/u@x.org/a</D:href>");
    assert_eq!(c.list_reply(207, xml).unwrap()[0].path, "a");
    match c.list_reply(404, "gone".into()) {
        Err(e) => assert_eq!(e.message(), "dav status 404: gone"),
        Ok(_) => panic!("accepted"),
    }
}

#[test]
fn dav_errors_have_words() {
    assert_eq!(DavError::Http("e".into()).message(), "http error: e");
    assert_eq!(DavError::Url("e".into()).message(), "url error: e");
    assert_eq!(DavError::Status(500, "e".into()).message(), "dav status 500: e");
    assert_eq!(DavError::Xml("e".into()).message(), "xml parse error: e");
}
