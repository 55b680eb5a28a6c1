//! XML as a stream of events, read with `quick_xml`.

use vstd::prelude::*;

verus! {

/// One event of a document. Names are as they are written, prefix included.
#[derive(Debug)]
pub enum XmlEvent {
    Start(Vec<u8>),
    Empty(Vec<u8>),
    /// Text between tags; `None` where its character references cannot be
    /// resolved.
    Text(Option<String>),
    End(Vec<u8>),
    /// A comment, a declaration or the like.
    Other,
    Eof,
    /// The document is malformed.
    Failed(String),
}

/// An event, in specifications.
pub ghost enum XmlEv {
    Start(Seq<u8>),
    Empty(Seq<u8>),
    Text(Option<Seq<char>>),
    End(Seq<u8>),
    Other,
    Eof,
    Failed(Seq<char>),
}

impl View for XmlEvent {
    type V = XmlEv;

    open spec fn view(&self) -> XmlEv {
        match self {
            XmlEvent::Start(n) => XmlEv::Start(n@),
            XmlEvent::Empty(n) => XmlEv::Empty(n@),
            XmlEvent::Text(t) => XmlEv::Text(crate::text::opt_view(*t)),
            XmlEvent::End(n) => XmlEv::End(n@),
            XmlEvent::Other => XmlEv::Other,
            XmlEvent::Eof => XmlEv::Eof,
            XmlEvent::Failed(e) => XmlEv::Failed(e@),
        }
    }
}

/// `quick_xml::Reader`.
#[verifier::external_type_specification]
#[verifier::external_body]
#[verifier::reject_recursive_types(R)]
pub struct ExReader<R>(quick_xml::Reader<R>);

/// The events of a document, up to and with the first that ends it: `Eof`, or
/// `Failed` where the document is malformed. With `trim`, texts are without
/// the white space around them, and empty texts are no events.
pub uninterp spec fn document_events(xml: Seq<char>, trim: bool) -> Seq<XmlEv>;

/// The events that a reader has still to give, up to and with the first that
/// ends the document.
pub uninterp spec fn pending(reader: quick_xml::Reader<&[u8]>) -> Seq<XmlEv>;

/// Whether an event ends the document.
pub open spec fn is_last(e: XmlEv) -> bool {
    e is Eof || e is Failed
}

/// `Reader::from_str` and `Config::trim_text`: all the events of the document
/// are pending. There are finitely many, since each but the last consumes
/// some of the text.
#[verifier::external_body]
pub(crate) fn open_document(xml: &str, trim: bool) -> (reader: quick_xml::Reader<&[u8]>)
    ensures
        pending(reader) == document_events(xml@, trim),
        pending(reader).len() > 0,
        is_last(pending(reader).last()),
{
    let mut reader = quick_xml::Reader::from_str(xml);
    reader.config_mut().trim_text(trim);
    reader
}

/// `Reader::read_event_into`, and `BytesText::unescape` on the text of a text
/// event: gives the first pending event.
#[verifier::external_body]
pub(crate) fn next_event(reader: &mut quick_xml::Reader<&[u8]>) -> (e: XmlEvent)
    requires
        pending(*old(reader)).len() > 0,
    ensures
        e@ == pending(*old(reader))[0],
        pending(*final(reader)) == pending(*old(reader)).skip(1),
{
    match reader.read_event_into(&mut Vec::new()) {
        Ok(quick_xml::events::Event::Start(e)) => XmlEvent::Start(e.name().as_ref().to_vec()),
        Ok(quick_xml::events::Event::Empty(e)) => XmlEvent::Empty(e.name().as_ref().to_vec()),
        Ok(quick_xml::events::Event::Text(e)) => XmlEvent::Text(
            e.unescape().ok().map(|s| s.into_owned()),
        ),
        Ok(quick_xml::events::Event::End(e)) => XmlEvent::End(e.name().as_ref().to_vec()),
        Ok(quick_xml::events::Event::Eof) => XmlEvent::Eof,
        Ok(_) => XmlEvent::Other,
        Err(e) => XmlEvent::Failed(e.to_string()),
    }
}

} // verus!
