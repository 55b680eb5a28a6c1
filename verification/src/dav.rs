//! WebDAV client that authenticates with the user's bearer token.
//!
//! The server keeps per-user collections at `/dav/file/<user@domain>/`. Every
//! operation is scoped to the user's own collection and never reaches outside
//! it. Paths here are relative to the collection root (for example
//! `"reports/q4.docx"`, and `""` for the root); one that would leave the
//! collection is refused.

use crate::numbers::{decimal_of, hex_value_of, parse_u64};
use crate::text::{
    after_last_of, join2, join3, lossy_text, same_text, split_once_of, strip_prefix_of, trim_end_of,
    trim_start_of,
};
use crate::weburl::{is_sound_path_of, stays_inside_of, Url};
use crate::xml::{next_event, open_document, XmlEvent};
use vstd::prelude::*;

verus! {

/// Some bytes with their percent escapes replaced by the bytes they stand
/// for. A `%` that two hexadecimal digits do not follow stands for itself.
pub open spec fn unescaped(b: Seq<u8>) -> Seq<u8>
    decreases b.len(),
{
    if b.len() == 0 {
        Seq::empty()
    } else if b[0] == '%' as u8 && b.len() >= 3 && crate::numbers::hex_value(b[1] as int) is Some
        && crate::numbers::hex_value(b[2] as int) is Some {
        seq![
            (crate::numbers::hex_value(b[1] as int)->0 * 16 + crate::numbers::hex_value(
                b[2] as int,
            )->0) as u8,
        ] + unescaped(b.skip(3))
    } else {
        seq![b[0]] + unescaped(b.skip(1))
    }
}

/// Whether `e` is a percent encoding of `b`: each byte stands as it is or as an
/// escape with two hexadecimal digits of either case, and `%` as an escape.
pub open spec fn is_percent_encoding(e: Seq<u8>, b: Seq<u8>) -> bool
    decreases b.len(),
{
    if b.len() == 0 {
        e.len() == 0
    } else {
        ||| {
            &&& e.len() >= 1 && e[0] == b[0] && b[0] != '%' as u8
            &&& is_percent_encoding(e.skip(1), b.skip(1))
        }
        ||| {
            &&& e.len() >= 3 && e[0] == '%' as u8
            &&& crate::numbers::hex_value(e[1] as int) == Some(b[0] as int / 16)
            &&& crate::numbers::hex_value(e[2] as int) == Some(b[0] as int % 16)
            &&& is_percent_encoding(e.skip(3), b.skip(1))
        }
    }
}

/// Decoding gives back what was percent-encoded, whichever bytes were escaped
/// and in whichever case the digits were written.
pub proof fn unescaping_undoes_percent_encoding(e: Seq<u8>, b: Seq<u8>)
    requires
        is_percent_encoding(e, b),
    ensures
        unescaped(e) == b,
    decreases b.len(),
{
    if b.len() > 0 {
        assert(b =~= seq![b[0]] + b.skip(1));
        if e[0] == b[0] && b[0] != '%' as u8 && is_percent_encoding(e.skip(1), b.skip(1)) {
            unescaping_undoes_percent_encoding(e.skip(1), b.skip(1));
        } else {
            unescaping_undoes_percent_encoding(e.skip(3), b.skip(1));
        }
    } else {
        assert(e =~= b);
    }
}

/// A text with its percent escapes decoded.
pub open spec fn url_decoded(s: Seq<char>) -> Seq<char> {
    crate::text::lossy(unescaped(vstd::utf8::encode_utf8(s)))
}

/// Decodes percent escapes, and the result as UTF-8.
pub fn percent_decode(input: &[u8]) -> (out: String)
    ensures
        out@ == crate::text::lossy(unescaped(input@)),
{
    let mut out: Vec<u8> = Vec::new();
    let mut i: usize = 0;
    let n: usize = input.len();
    proof {
        assert(input@.skip(0) =~= input@);
        assert(out@ + unescaped(input@.skip(0)) =~= unescaped(input@));
    }
    while i < n
        invariant
            i <= n == input@.len(),
            out@ + unescaped(input@.skip(i as int)) == unescaped(input@),
        decreases n - i,
    {
        let ghost rest = input@.skip(i as int);
        let ghost before = out@;
        let mut byte: u8 = input[i];
        let mut taken: usize = 1;
        if byte == 0x25 && n - i > 2 {
            if let (Some(h), Some(l)) = (hex_value_of(input[i + 1]), hex_value_of(input[i + 2])) {
                byte = h * 16 + l;
                taken = 3;
            }
        }
        out.push(byte);
        i = i + taken;
        proof {
            assert(rest.skip(taken as int) =~= input@.skip(i as int));
            assert(unescaped(rest) == seq![byte] + unescaped(rest.skip(taken as int)));
            assert(before + (seq![byte] + unescaped(input@.skip(i as int))) =~= out@ + unescaped(
                input@.skip(i as int),
            ));
        }
    }
    proof {
        assert(input@.skip(i as int) =~= Seq::<u8>::empty());
        assert(out@ + unescaped(input@.skip(i as int)) =~= out@);
    }
    lossy_text(out.as_slice())
}

/// Decodes the percent escapes of a text.
pub fn url_decode(s: &str) -> (out: String)
    ensures
        out@ == url_decoded(s@),
{
    percent_decode(s.as_bytes())
}

/// A tag name without its namespace prefix.
pub open spec fn local_name(name: Seq<u8>) -> Seq<char> {
    let raw = crate::text::lossy(name);
    match crate::text::split_once(raw, ':') {
        Some((_, after)) => after,
        None => raw,
    }
}

/// Strips the namespace prefix of a tag name.
pub fn strip_ns(name: &[u8]) -> (out: String)
    ensures
        out@ == local_name(name@),
{
    let raw = lossy_text(name);
    match split_once_of(raw.as_str(), ':') {
        Some((_, after)) => after,
        None => raw,
    }
}

#[derive(Debug, Clone, PartialEq, Eq)]
pub struct DavEntry {
    /// Path relative to the user's collection. `""` means the collection root.
    pub path: String,
    pub name: String,
    pub is_collection: bool,
    pub size: u64,
    pub content_type: Option<String>,
    pub last_modified: Option<String>,
}

/// A directory entry, in specifications.
pub ghost struct EntryModel {
    pub path: Seq<char>,
    pub name: Seq<char>,
    pub is_collection: bool,
    pub size: u64,
    pub content_type: Option<Seq<char>>,
    pub last_modified: Option<Seq<char>>,
}

impl View for DavEntry {
    type V = EntryModel;

    open spec fn view(&self) -> EntryModel {
        EntryModel {
            path: self.path@,
            name: self.name@,
            is_collection: self.is_collection,
            size: self.size,
            content_type: crate::text::opt_view(self.content_type),
            last_modified: crate::text::opt_view(self.last_modified),
        }
    }
}

/// What one `response` element of a listing says.
#[derive(Debug)]
pub struct RawEntry {
    pub href: String,
    pub displayname: Option<String>,
    pub is_collection: bool,
    pub size: u64,
    pub content_type: Option<String>,
    pub last_modified: Option<String>,
}

/// A `response` element, in specifications.
pub ghost struct RawModel {
    pub href: Seq<char>,
    pub displayname: Option<Seq<char>>,
    pub is_collection: bool,
    pub size: u64,
    pub content_type: Option<Seq<char>>,
    pub last_modified: Option<Seq<char>>,
}

impl View for RawEntry {
    type V = RawModel;

    open spec fn view(&self) -> RawModel {
        RawModel {
            href: self.href@,
            displayname: crate::text::opt_view(self.displayname),
            is_collection: self.is_collection,
            size: self.size,
            content_type: crate::text::opt_view(self.content_type),
            last_modified: crate::text::opt_view(self.last_modified),
        }
    }
}

/// A `response` element that has said nothing yet.
pub open spec fn blank_entry() -> RawModel {
    RawModel {
        href: Seq::empty(),
        displayname: None,
        is_collection: false,
        size: 0,
        content_type: None,
        last_modified: None,
    }
}

impl Default for RawEntry {
    fn default() -> (r: RawEntry)
        ensures
            r@ == blank_entry(),
    {
        let r = RawEntry {
            href: String::new(),
            displayname: None,
            is_collection: false,
            size: 0,
            content_type: None,
            last_modified: None,
        };
        proof {
            assert(r@.href =~= Seq::<char>::empty());
        }
        r
    }
}

/// The directory entry that a `response` element describes: none if its
/// address, decoded, is not under the user's root. The path is what follows
/// the root, without trailing slashes; the name is the display name, or else
/// the last segment of the path.
pub open spec fn entry_of(r: RawModel, user_root: Seq<char>) -> Option<EntryModel> {
    let href = url_decoded(r.href);
    if user_root.is_prefix_of(href) {
        let path = crate::text::trim_end(href.skip(user_root.len() as int), '/');
        Some(
            EntryModel {
                path,
                name: match r.displayname {
                    Some(n) => n,
                    None => crate::text::after_last(path, '/'),
                },
                is_collection: r.is_collection,
                size: r.size,
                content_type: r.content_type,
                last_modified: r.last_modified,
            },
        )
    } else {
        None
    }
}

impl RawEntry {
    /// The directory entry this element describes.
    pub fn into_entry(self, user_root: &str) -> (out: Option<DavEntry>)
        ensures
            match out {
                Some(e) => entry_of(self@, user_root@) == Some(e@),
                None => entry_of(self@, user_root@) is None,
            },
    {
        let href = url_decode(self.href.as_str());
        let rel = match strip_prefix_of(href.as_str(), user_root) {
            Some(rel) => rel,
            None => return None,
        };
        let path = trim_end_of(rel.as_str(), '/');
        let name = match self.displayname {
            Some(n) => n,
            None => after_last_of(path.as_str(), '/'),
        };
        Some(
            DavEntry {
                path,
                name,
                is_collection: self.is_collection,
                size: self.size,
                content_type: self.content_type,
                last_modified: self.last_modified,
            },
        )
    }
}

/// A listing while it is being read.
#[derive(Debug)]
pub struct Listing {
    /// The entries of the `response` elements that have ended.
    pub entries: Vec<DavEntry>,
    /// The `response` element that has begun, if one has.
    pub current: Option<RawEntry>,
    /// The names of the elements that have begun and not ended.
    pub open_tags: Vec<String>,
}

/// A listing while it is being read, in specifications.
pub ghost struct ListingModel {
    pub entries: Seq<EntryModel>,
    pub current: Option<RawModel>,
    pub open_tags: Seq<Seq<char>>,
}

/// Directory entries, in specifications.
pub open spec fn entry_views(entries: Seq<DavEntry>) -> Seq<EntryModel> {
    entries.map_values(|e: DavEntry| e@)
}

impl View for Listing {
    type V = ListingModel;

    open spec fn view(&self) -> ListingModel {
        ListingModel {
            entries: entry_views(self.entries@),
            current: match self.current {
                Some(r) => Some(r@),
                None => None,
            },
            open_tags: crate::text::texts(self.open_tags@),
        }
    }
}

/// A listing of which nothing has been read.
pub open spec fn blank_listing() -> ListingModel {
    ListingModel { entries: Seq::empty(), current: None, open_tags: Seq::empty() }
}

/// The current element, marked as a collection.
pub open spec fn marked_collection(current: Option<RawModel>) -> Option<RawModel> {
    match current {
        Some(r) => Some(RawModel { is_collection: true, ..r }),
        None => None,
    }
}

/// A `response` element with a text read inside the element `tag`.
pub open spec fn with_text(r: RawModel, tag: Seq<char>, text: Seq<char>) -> RawModel {
    if tag == "href"@ {
        RawModel { href: text, ..r }
    } else if tag == "displayname"@ {
        RawModel { displayname: Some(text), ..r }
    } else if tag == "getcontentlength"@ {
        RawModel {
            size: match crate::numbers::parsed_u64(text) {
                Some(n) => n,
                None => 0,
            },
            ..r
        }
    } else if tag == "getcontenttype"@ {
        RawModel { content_type: Some(text), ..r }
    } else if tag == "getlastmodified"@ {
        RawModel { last_modified: Some(text), ..r }
    } else {
        r
    }
}

/// A listing after one more event of the document.
pub open spec fn advanced(
    l: ListingModel,
    event: crate::xml::XmlEv,
    user_root: Seq<char>,
) -> ListingModel {
    match event {
        crate::xml::XmlEv::Start(n) => ListingModel {
            open_tags: l.open_tags.push(local_name(n)),
            current: if local_name(n) == "response"@ {
                Some(blank_entry())
            } else if local_name(n) == "collection"@ {
                marked_collection(l.current)
            } else {
                l.current
            },
            ..l
        },
        crate::xml::XmlEv::Empty(n) => if local_name(n) == "collection"@ {
            ListingModel { current: marked_collection(l.current), ..l }
        } else {
            l
        },
        crate::xml::XmlEv::Text(t) => match l.current {
            Some(r) if l.open_tags.len() > 0 => ListingModel {
                current: Some(
                    with_text(
                        r,
                        l.open_tags.last(),
                        match t {
                            Some(s) => s,
                            None => Seq::empty(),
                        },
                    ),
                ),
                ..l
            },
            _ => l,
        },
        crate::xml::XmlEv::End(n) => {
            let open_tags = if l.open_tags.len() > 0 {
                l.open_tags.drop_last()
            } else {
                l.open_tags
            };
            if local_name(n) == "response"@ {
                ListingModel {
                    open_tags,
                    current: None,
                    entries: match l.current {
                        Some(r) => match entry_of(r, user_root) {
                            Some(e) => l.entries.push(e),
                            None => l.entries,
                        },
                        None => l.entries,
                    },
                }
            } else {
                ListingModel { open_tags, ..l }
            }
        },
        _ => l,
    }
}

/// What a reading of the remaining events makes of a listing: the children of
/// the collection listed, or why the document is malformed.
pub open spec fn listed(
    l: ListingModel,
    events: Seq<crate::xml::XmlEv>,
    user_root: Seq<char>,
) -> Result<Seq<EntryModel>, Seq<char>>
    decreases events.len(),
{
    if events.len() == 0 || events[0] is Eof {
        Ok(l.entries.filter(|e: EntryModel| e.path.len() > 0))
    } else {
        match events[0] {
            crate::xml::XmlEv::Failed(e) => Err(e),
            e => listed(advanced(l, e, user_root), events.skip(1), user_root),
        }
    }
}

impl RawEntry {
    /// Marks the element as a collection.
    fn mark_collection(self) -> (r: RawEntry)
        ensures
            Some(r@) == marked_collection(Some(self@)),
    {
        RawEntry {
            href: self.href,
            displayname: self.displayname,
            is_collection: true,
            size: self.size,
            content_type: self.content_type,
            last_modified: self.last_modified,
        }
    }

    /// Takes in a text read inside the element `tag`.
    fn take_text(self, tag: &str, text: String) -> (r: RawEntry)
        ensures
            r@ == with_text(self@, tag@, text@),
    {
        let mut r = self;
        if same_text(tag, "href") {
            r.href = text;
        } else if same_text(tag, "displayname") {
            r.displayname = Some(text);
        } else if same_text(tag, "getcontentlength") {
            r.size = match parse_u64(text.as_str()) {
                Some(n) => n,
                None => 0,
            };
        } else if same_text(tag, "getcontenttype") {
            r.content_type = Some(text);
        } else if same_text(tag, "getlastmodified") {
            r.last_modified = Some(text);
        }
        r
    }
}

impl Listing {
    pub fn new() -> (l: Listing)
        ensures
            l@ == blank_listing(),
    {
        let l = Listing { entries: Vec::new(), current: None, open_tags: Vec::new() };
        proof {
            assert(l@.entries =~= blank_listing().entries);
            assert(l@.open_tags =~= blank_listing().open_tags);
        }
        l
    }

    /// Takes in one event of the document.
    pub fn advance(self, event: XmlEvent, user_root: &str) -> (l: Listing)
        ensures
            l@ == advanced(self@, event@, user_root@),
    {
        let mut entries = self.entries;
        let mut current = self.current;
        let mut open_tags = self.open_tags;
        let ghost before = self@;
        match event {
            XmlEvent::Start(n) => {
                let name = strip_ns(n.as_slice());
                if same_text(name.as_str(), "response") {
                    current = Some(RawEntry::default());
                } else if same_text(name.as_str(), "collection") {
                    current = match current {
                        Some(r) => Some(r.mark_collection()),
                        None => None,
                    };
                }
                open_tags.push(name);
                proof {
                    assert(crate::text::texts(open_tags@) =~= before.open_tags.push(name@));
                }
            },
            XmlEvent::Empty(n) => {
                let name = strip_ns(n.as_slice());
                if same_text(name.as_str(), "collection") {
                    current = match current {
                        Some(r) => Some(r.mark_collection()),
                        None => None,
                    };
                }
            },
            XmlEvent::Text(t) => {
                let text = match t {
                    Some(s) => s,
                    None => String::new(),
                };
                proof {
                    assert(t is None ==> text@ =~= Seq::<char>::empty());
                }
                if open_tags.len() > 0 {
                    let tag = &open_tags[open_tags.len() - 1];
                    current = match current {
                        Some(r) => Some(r.take_text(tag.as_str(), text)),
                        None => None,
                    };
                }
            },
            XmlEvent::End(n) => {
                let name = strip_ns(n.as_slice());
                let _ = open_tags.pop();
                proof {
                    if before.open_tags.len() > 0 {
                        assert(crate::text::texts(open_tags@) =~= before.open_tags.drop_last());
                    } else {
                        assert(crate::text::texts(open_tags@) =~= before.open_tags);
                    }
                }
                if same_text(name.as_str(), "response") {
                    if let Some(r) = current {
                        if let Some(e) = r.into_entry(user_root) {
                            let ghost seen = entries@;
                            entries.push(e);
                            proof {
                                assert(entry_views(entries@) =~= entry_views(seen).push(e@));
                            }
                        }
                    }
                    current = None;
                }
            },
            _ => {},
        }
        Listing { entries, current, open_tags }
    }
}

#[derive(Debug)]
pub enum DavError {
    Http(String),
    Url(String),
    Status(u16, String),
    Xml(String),
}

/// A WebDAV error, in specifications.
pub ghost enum DavFault {
    Http(Seq<char>),
    Url(Seq<char>),
    Status(u16, Seq<char>),
    Xml(Seq<char>),
}

impl View for DavError {
    type V = DavFault;

    open spec fn view(&self) -> DavFault {
        match self {
            DavError::Http(e) => DavFault::Http(e@),
            DavError::Url(e) => DavFault::Url(e@),
            DavError::Status(s, b) => DavFault::Status(*s, b@),
            DavError::Xml(e) => DavFault::Xml(e@),
        }
    }
}

/// A WebDAV error in words.
pub open spec fn fault_message(e: DavFault) -> Seq<char> {
    match e {
        DavFault::Http(e) => "http error: "@ + e,
        DavFault::Url(e) => "url error: "@ + e,
        DavFault::Status(s, b) => "dav status "@ + crate::numbers::decimal_nat(s as nat) + ": "@
            + b,
        DavFault::Xml(e) => "xml parse error: "@ + e,
    }
}

impl DavError {
    /// The error in words.
    pub fn message(&self) -> (out: String)
        ensures
            out@ == fault_message(self@),
    {
        match self {
            DavError::Http(e) => join2("http error: ", e.as_str()),
            DavError::Url(e) => join2("url error: ", e.as_str()),
            DavError::Status(s, b) => {
                let mut out = join3("dav status ", decimal_of(*s as u64).as_str(), ": ");
                out.append(b.as_str());
                out
            },
            DavError::Xml(e) => join2("xml parse error: ", e.as_str()),
        }
    }
}

/// The outcome of a listing, in specifications.
pub open spec fn listing_outcome(r: Result<Vec<DavEntry>, DavError>) -> Result<
    Seq<EntryModel>,
    DavFault,
> {
    match r {
        Ok(entries) => Ok(entry_views(entries@)),
        Err(e) => Err(e@),
    }
}

/// What a multistatus document lists under the user's root.
pub open spec fn propfind_entries(xml: Seq<char>, user_root: Seq<char>) -> Result<
    Seq<EntryModel>,
    DavFault,
> {
    match listed(blank_listing(), crate::xml::document_events(xml, true), user_root) {
        Ok(entries) => Ok(entries),
        Err(e) => Err(DavFault::Xml(e)),
    }
}

impl Listing {
    /// The children of the collection listed: every entry but the collection
    /// itself, which a listing of depth one names too.
    pub fn children(self) -> (out: Vec<DavEntry>)
        ensures
            entry_views(out@) == self@.entries.filter(|e: EntryModel| e.path.len() > 0),
    {
        let ghost all = self@.entries;
        let ghost pred = |e: EntryModel| e.path.len() > 0;
        let mut out: Vec<DavEntry> = Vec::new();
        proof {
            assert(entry_views(out@) =~= all.take(0).filter(pred)) by {
                reveal(Seq::filter);
            }
        }
        for e in it: self.entries
            invariant
                entry_views(it.seq()) == all,
                entry_views(out@) == all.take(it.index()).filter(pred),
                pred == (|e: EntryModel| e.path.len() > 0),
        {
            proof {
                reveal(Seq::filter);
                assert(all.take(it.index() + 1).drop_last() =~= all.take(it.index()));
                assert(all.take(it.index() + 1).last() == e@);
            }
            let ghost kept = out@;
            if !e.path.as_str().is_empty() {
                out.push(e);
                proof {
                    assert(entry_views(out@) =~= entry_views(kept).push(e@));
                }
            }
        }
        proof {
            assert(all.take(all.len() as int) =~= all);
        }
        out
    }
}

/// Reads a multistatus document into the entries it lists under the user's
/// root, without the root itself.
pub fn parse_propfind(xml: &str, user_root: &str) -> (r: Result<Vec<DavEntry>, DavError>)
    ensures
        listing_outcome(r) == propfind_entries(xml@, user_root@),
{
    let mut reader = open_document(xml, true);
    let mut listing = Listing::new();
    loop
        invariant
            crate::xml::pending(reader).len() > 0,
            crate::xml::is_last(crate::xml::pending(reader).last()),
            listed(listing@, crate::xml::pending(reader), user_root@) == listed(
                blank_listing(),
                crate::xml::document_events(xml@, true),
                user_root@,
            ),
        decreases crate::xml::pending(reader).len(),
    {
        let ghost events = crate::xml::pending(reader);
        match next_event(&mut reader) {
            XmlEvent::Eof => return Ok(listing.children()),
            XmlEvent::Failed(e) => return Err(DavError::Xml(e)),
            event => {
                proof {
                    assert(events.len() > 1);
                    assert(events.skip(1).last() == events.last());
                }
                listing = listing.advance(event, user_root);
            },
        }
    }
}

/// Whether an entry is what follows the user's root in some decoded address.
pub open spec fn is_under_root(e: EntryModel, user_root: Seq<char>) -> bool {
    exists|href: Seq<char>|
        user_root.is_prefix_of(#[trigger] url_decoded(href)) && e.path == crate::text::trim_end(
            url_decoded(href).skip(user_root.len() as int),
            '/',
        )
}

/// What a filter keeps satisfies it, and stood in the sequence.
proof fn lemma_kept_entry(s: Seq<EntryModel>, pred: spec_fn(EntryModel) -> bool, i: int) -> (k: int)
    requires
        0 <= i < s.filter(pred).len(),
    ensures
        0 <= k < s.len(),
        s[k] == s.filter(pred)[i],
        pred(s[k]),
    decreases s.len(),
{
    reveal(Seq::filter);
    let head = s.drop_last().filter(pred);
    if i < head.len() {
        lemma_kept_entry(s.drop_last(), pred, i)
    } else {
        s.len() - 1
    }
}

proof fn lemma_listed_under_root(
    l: ListingModel,
    events: Seq<crate::xml::XmlEv>,
    user_root: Seq<char>,
)
    requires
        forall|i: int|
            0 <= i < l.entries.len() ==> is_under_root(#[trigger] l.entries[i], user_root),
    ensures
        listed(l, events, user_root) matches Ok(entries) ==> forall|i: int|
            0 <= i < entries.len() ==> (#[trigger] entries[i]).path.len() > 0 && is_under_root(
                entries[i],
                user_root,
            ),
    decreases events.len(),
{
    if events.len() == 0 || events[0] is Eof {
        let pred = |e: EntryModel| e.path.len() > 0;
        let kept = l.entries.filter(pred);
        assert forall|i: int| 0 <= i < kept.len() implies (#[trigger] kept[i]).path.len() > 0
            && is_under_root(kept[i], user_root) by {
            let k = lemma_kept_entry(l.entries, pred, i);
            assert(kept[i] == l.entries[k]);
        }
    } else if events[0] is Failed {
    } else {
        let next = advanced(l, events[0], user_root);
        assert forall|i: int| 0 <= i < next.entries.len() implies is_under_root(
            #[trigger] next.entries[i],
            user_root,
        ) by {
            if i < l.entries.len() {
                assert(next.entries[i] == l.entries[i]);
            } else {
                let r = l.current->0;
                assert(Some(next.entries[i]) == entry_of(r, user_root));
                assert(user_root.is_prefix_of(url_decoded(r.href)));
            }
        }
        lemma_listed_under_root(next, events.skip(1), user_root);
    }
}

/// A listing shows only what lies under the user's root, and never the root
/// itself, whatever the server's document says.
pub proof fn listing_stays_under_root(xml: Seq<char>, user_root: Seq<char>)
    ensures
        propfind_entries(xml, user_root) matches Ok(entries) ==> forall|i: int|
            0 <= i < entries.len() ==> (#[trigger] entries[i]).path.len() > 0 && is_under_root(
                entries[i],
                user_root,
            ),
{
    lemma_listed_under_root(
        blank_listing(),
        crate::xml::document_events(xml, true),
        user_root,
    );
}

/// What a listing asks the server for.
pub const PROPFIND_BODY: &'static str =
    "<?xml version=\"1.0\" encoding=\"utf-8\"?>\n<D:propfind xmlns:D=\"DAV:\">\n  <D:prop>\n    <D:displayname/>\n    <D:resourcetype/>\n    <D:getcontentlength/>\n    <D:getcontenttype/>\n    <D:getlastmodified/>\n  </D:prop>\n</D:propfind>";

/// A request to the WebDAV server.
#[derive(Debug)]
pub struct DavRequest {
    pub method: &'static str,
    pub url: Url,
    pub headers: Vec<(String, String)>,
    pub body: Vec<u8>,
}

/// A request, in specifications.
pub ghost struct RequestModel {
    pub method: Seq<char>,
    pub url: Seq<char>,
    pub headers: Seq<(Seq<char>, Seq<char>)>,
    pub body: Seq<u8>,
}

impl View for DavRequest {
    type V = RequestModel;

    open spec fn view(&self) -> RequestModel {
        RequestModel {
            method: self.method@,
            url: self.url@,
            headers: crate::json::pair_texts(self.headers@),
            body: self.body@,
        }
    }
}

/// Client for one user's collection.
#[derive(Debug)]
pub struct DavClient {
    base: Url,
    user_root: String,
    access_token: String,
}

/// A client, in specifications.
pub ghost struct ClientModel {
    pub base: Seq<char>,
    pub user_root: Seq<char>,
    pub access_token: Seq<char>,
}

impl View for DavClient {
    type V = ClientModel;

    closed spec fn view(&self) -> ClientModel {
        ClientModel {
            base: self.base@,
            user_root: self.user_root@,
            access_token: self.access_token@,
        }
    }
}

/// The root of a user's collection on the server.
pub open spec fn root_of(email: Seq<char>) -> Seq<char> {
    "/dav/file/"@ + email + "/"@
}

/// Whether a path relative to a collection names something in it: the
/// collection's own path names one place, and the path does not climb out.
pub open spec fn is_inside(user_root: Seq<char>, rel: Seq<char>) -> bool {
    crate::weburl::is_sound_path(user_root) && crate::weburl::stays_inside(
        crate::text::trim_start(rel, '/'),
    )
}

/// The address of a path relative to the user's collection.
pub open spec fn address(c: ClientModel, rel: Seq<char>) -> Result<Seq<char>, DavFault> {
    if !is_inside(c.user_root, rel) {
        Err(DavFault::Url("path leaves the collection"@))
    } else {
        match crate::weburl::url_joined(c.base, c.user_root + crate::text::trim_start(rel, '/')) {
            Ok(u) => Ok(u),
            Err(e) => Err(DavFault::Url(e)),
        }
    }
}

/// The outcome of building a request, in specifications.
pub open spec fn request_outcome(r: Result<DavRequest, DavError>) -> Result<
    RequestModel,
    DavFault,
> {
    match r {
        Ok(q) => Ok(q@),
        Err(e) => Err(e@),
    }
}

/// The header that carries the user's token.
pub open spec fn authorization(c: ClientModel) -> (Seq<char>, Seq<char>) {
    ("Authorization"@, "Bearer "@ + c.access_token)
}

/// The request for a path of the user's collection: to its address.
pub open spec fn requested(
    c: ClientModel,
    method: Seq<char>,
    rel: Seq<char>,
    headers: Seq<(Seq<char>, Seq<char>)>,
    body: Seq<u8>,
) -> Result<RequestModel, DavFault> {
    match address(c, rel) {
        Ok(url) => Ok(RequestModel { method, url, headers, body }),
        Err(e) => Err(e),
    }
}

/// The request for the entries of a collection.
pub open spec fn list_request(c: ClientModel, rel: Seq<char>) -> Result<RequestModel, DavFault> {
    requested(
        c,
        "PROPFIND"@,
        rel,
        seq![
            ("Depth"@, "1"@),
            authorization(c),
            ("Content-Type"@, "application/xml; charset=utf-8"@),
        ],
        vstd::utf8::encode_utf8(PROPFIND_BODY@),
    )
}

/// The request to move a file or a collection, unless something stands in its
/// new place.
pub open spec fn move_request(c: ClientModel, from_rel: Seq<char>, to_rel: Seq<char>) -> Result<
    RequestModel,
    DavFault,
> {
    match (address(c, from_rel), address(c, to_rel)) {
        (Err(e), _) => Err(e),
        (_, Err(e)) => Err(e),
        (_, Ok(to)) => requested(
            c,
            "MOVE"@,
            from_rel,
            seq![authorization(c), ("Destination"@, to), ("Overwrite"@, "F"@)],
            Seq::empty(),
        ),
    }
}

/// What is asked of the server.
#[derive(Debug, Clone, Copy, PartialEq, Eq, Structural)]
pub enum DavOp {
    List,
    Get,
    Put,
    Delete,
    Mkcol,
    Move,
}

/// Whether a status says that what was asked has been done.
pub open spec fn accepted(op: DavOp, status: u16) -> bool {
    match op {
        DavOp::List => status == 207 || 200 <= status <= 299,
        DavOp::Get => 200 <= status <= 299,
        DavOp::Put => status == 200 || status == 201 || status == 204,
        DavOp::Delete => status == 200 || status == 204,
        DavOp::Mkcol => status == 201,
        DavOp::Move => status == 201 || status == 204,
    }
}

impl DavOp {
    /// Whether a status says that what was asked has been done.
    pub fn accepts(self, status: u16) -> (yes: bool)
        ensures
            yes == accepted(self, status),
    {
        match self {
            DavOp::List => status == 207 || (200 <= status && status <= 299),
            DavOp::Get => 200 <= status && status <= 299,
            DavOp::Put => status == 200 || status == 201 || status == 204,
            DavOp::Delete => status == 200 || status == 204,
            DavOp::Mkcol => status == 201,
            DavOp::Move => status == 201 || status == 204,
        }
    }

    /// What the server's reply says: done, or its status and its words.
    pub fn reply(self, status: u16, body: String) -> (r: Result<(), DavError>)
        ensures
            match r {
                Ok(_) => accepted(self, status),
                Err(e) => !accepted(self, status) && e@ == DavFault::Status(status, body@),
            },
    {
        if self.accepts(status) {
            Ok(())
        } else {
            Err(DavError::Status(status, body))
        }
    }
}

/// Whether an address lies inside the collection that `root` is the address of.
pub open spec fn lies_inside(url: Seq<char>, root: Result<Seq<char>, DavFault>) -> bool {
    root is Ok && root->Ok_0.is_prefix_of(url)
}

/// Whether an address stands under a path on the server that `base` names.
pub open spec fn stands_under(url: Seq<char>, base: Seq<char>, path: Seq<char>) -> bool {
    crate::weburl::url_parsed(base) matches Ok(b) && (crate::weburl::origin_of(b)
        + path).is_prefix_of(url)
}

/// On a server of the web, an address lies inside the user's collection; and
/// where the collection's path is a plain one, it has the scheme, the host and
/// the port of the server, and its path begins with the collection's.
pub open spec fn is_confined(c: ClientModel, url: Seq<char>) -> bool {
    crate::weburl::is_web(c.base) ==> {
        &&& lies_inside(url, address(c, ""@))
        &&& crate::weburl::is_plain_path(c.user_root) ==> stands_under(url, c.base, c.user_root)
    }
}

/// Whether an email address is made of letters, digits and a few signs around
/// its `@`, so that it stands in a URL as it is.
pub open spec fn is_plain_email(email: Seq<char>) -> bool {
    email.contains('@') && forall|i: int|
        0 <= i < email.len() ==> {
            let c = #[trigger] email[i];
            ('a' <= c <= 'z') || ('A' <= c <= 'Z') || ('0' <= c <= '9') || c == '-' || c == '.' || c
                == '_' || c == '+' || c == '@'
        }
}

/// The collection of a user with a plain email address has a plain path.
proof fn lemma_plain_root(email: Seq<char>)
    requires
        is_plain_email(email),
    ensures
        crate::weburl::is_plain_path(root_of(email)),
{
    reveal_strlit("/dav/file/");
    reveal_strlit("/");
    reveal_strlit(".");
    reveal_strlit("%2e");
    reveal_strlit("%2E");
    reveal_strlit("..");
    reveal_strlit(".%2e");
    reveal_strlit(".%2E");
    reveal_strlit("%2e.");
    reveal_strlit("%2E.");
    reveal_strlit("%2e%2e");
    reveal_strlit("%2e%2E");
    reveal_strlit("%2E%2e");
    reveal_strlit("%2E%2E");
    let root = root_of(email);
    let none = Seq::<char>::empty();
    let dav = seq!['d', 'a', 'v'];
    let file = seq!['f', 'i', 'l', 'e'];
    let to_dav = none + seq!['/'] + dav;
    let to_file = to_dav + seq!['/'] + file;
    let to_email = to_file + seq!['/'] + email;
    assert(root =~= to_email + seq!['/'] + none);
    crate::text::lemma_one_piece(none, '/');
    crate::text::lemma_last_piece(none, dav, '/');
    crate::text::lemma_last_piece(to_dav, file, '/');
    crate::text::lemma_last_piece(to_file, email, '/');
    crate::text::lemma_last_piece(to_email, none, '/');
    let parts = crate::text::pieces(root, '/');
    assert(parts =~= seq![none, dav, file, email, none]);
    let at = choose|i: int| 0 <= i < email.len() && email[i] == '@';
    assert forall|i: int| 0 <= i < parts.len() implies {
        let s = #[trigger] parts[i];
        !crate::weburl::is_dot(s) && !crate::weburl::is_dot_dot(s)
    } by {
        if i == 1 {
            assert(parts[1][0] == 'd');
        } else if i == 2 {
            assert(parts[2][0] == 'f');
        } else if i == 3 {
            assert(parts[3][at] == '@');
        } else {
            assert(parts[i].len() == 0);
        }
    }
    assert forall|i: int| 0 <= i < root.len() implies {
        let c = #[trigger] root[i];
        ('a' <= c <= 'z') || ('A' <= c <= 'Z') || ('0' <= c <= '9') || c == '-' || c == '.' || c
            == '_' || c == '+' || c == '@' || c == '/'
    } by {
        if i < 10 {
            assert(root[i] == "/dav/file/"@[i]);
        } else if i < 10 + email.len() {
            assert(root[i] == email[i - 10]);
        } else {
            assert(root[i] == '/');
        }
    }
}

/// Whatever path a user with a plain email address asks for, its address has
/// the scheme, the host and the port of the server, and its path lies in the
/// user's own collection.
pub proof fn users_stay_in_their_collection(c: ClientModel, email: Seq<char>, url: Seq<char>)
    requires
        crate::weburl::is_web(c.base),
        crate::weburl::url_parsed(c.base) == Ok::<_, Seq<char>>(c.base),
        is_plain_email(email),
        c.user_root == root_of(email),
        is_confined(c, url),
    ensures
        (crate::weburl::origin_of(c.base) + root_of(email)).is_prefix_of(url),
{
    lemma_plain_root(email);
}

impl DavClient {
    #[verifier::type_invariant]
    spec fn rooted(self) -> bool {
        &&& self.user_root@.len() >= 11
        &&& "/dav/file/"@.is_prefix_of(self.user_root@)
        &&& self.user_root@.last() == '/'
    }

    pub fn new(base: Url, email: &str, access_token: String) -> (c: DavClient)
        ensures
            c@ == (ClientModel {
                base: base@,
                user_root: root_of(email@),
                access_token: access_token@,
            }),
    {
        let user_root = join3("/dav/file/", email, "/");
        proof {
            reveal_strlit("/dav/file/");
            reveal_strlit("/");
            assert("/dav/file/"@ =~= user_root@.subrange(0, 10));
        }
        DavClient { base, user_root, access_token }
    }

    /// The root of the user's collection, as a path on the server.
    pub fn user_root(&self) -> (s: &str)
        ensures
            s@ == self@.user_root,
    {
        self.user_root.as_str()
    }

    /// Builds an absolute URL for a path relative to the user's collection.
    /// Empty `rel` means the collection root. A path that leaves the
    /// collection is refused, so that every address lies inside it.
    pub fn url_for(&self, rel: &str) -> (r: Result<Url, DavError>)
        ensures
            match r {
                Ok(u) => address(self@, rel@) == Ok::<_, DavFault>(u@),
                Err(e) => address(self@, rel@) == Err::<Seq<char>, _>(e@),
            },
            r is Ok ==> is_confined(self@, r->Ok_0@),
    {
        let trimmed = trim_start_of(rel, '/');
        if !is_sound_path_of(self.user_root.as_str()) || !stays_inside_of(trimmed.as_str()) {
            return Err(DavError::Url("path leaves the collection".to_owned()));
        }
        let full = join2(self.user_root.as_str(), trimmed.as_str());
        proof {
            use_type_invariant(self);
            reveal_strlit("/dav/file/");
            reveal_strlit("");
            let root = self.user_root@;
            let k = root.len() as int;
            assert(full@.take(k) =~= root);
            assert(full@.skip(k) =~= trimmed@);
            assert(full@[k - 1] == '/');
            assert(root[0] == root.subrange(0, 10)[0] && root[1] == root.subrange(0, 10)[1]);
            assert(full@[0] == '/' && full@[1] == 'd');
            assert(crate::weburl::is_cut(full@, k));
            assert(""@ =~= Seq::<char>::empty());
            assert(crate::text::trim_start(""@, '/') =~= ""@);
            crate::weburl::lemma_empty_path_stays_inside();
            assert(root + crate::text::trim_start(""@, '/') =~= root);
        }
        match self.base.join(full.as_str()) {
            Ok(u) => Ok(u),
            Err(e) => Err(DavError::Url(e)),
        }
    }

    fn authorization_value(&self) -> (v: String)
        ensures
            v@ == authorization(self@).1,
    {
        join2("Bearer ", self.access_token.as_str())
    }

    /// A request for a path.
    fn request(
        &self,
        method: &'static str,
        rel: &str,
        headers: Vec<(String, String)>,
        body: Vec<u8>,
    ) -> (r: Result<DavRequest, DavError>)
        ensures
            request_outcome(r) == requested(
                self@,
                method@,
                rel@,
                crate::json::pair_texts(headers@),
                body@,
            ),
            r is Ok ==> is_confined(self@, r->Ok_0.url@),
    {
        match self.url_for(rel) {
            Ok(url) => Ok(DavRequest { method, url, headers, body }),
            Err(e) => Err(e),
        }
    }

    /// Asks for the entries of a collection.
    pub fn list(&self, rel: &str) -> (r: Result<DavRequest, DavError>)
        ensures
            request_outcome(r) == list_request(self@, rel@),
            r is Ok ==> is_confined(self@, r->Ok_0.url@),
    {
        let headers: Vec<(String, String)> = vec![
            ("Depth".to_owned(), "1".to_owned()),
            ("Authorization".to_owned(), self.authorization_value()),
            ("Content-Type".to_owned(), "application/xml; charset=utf-8".to_owned()),
        ];
        proof {
            assert(crate::json::pair_texts(headers@) =~= seq![
                ("Depth"@, "1"@),
                authorization(self@),
                ("Content-Type"@, "application/xml; charset=utf-8"@),
            ]);
        }
        let body = vstd::slice::slice_to_vec(PROPFIND_BODY.as_bytes());
        self.request("PROPFIND", rel, headers, body)
    }

    /// The entries in the server's reply to `list`.
    pub fn list_reply(&self, status: u16, body: String) -> (r: Result<Vec<DavEntry>, DavError>)
        ensures
            listing_outcome(r) == (if accepted(DavOp::List, status) {
                propfind_entries(body@, self@.user_root)
            } else {
                Err(DavFault::Status(status, body@))
            }),
    {
        if !DavOp::List.accepts(status) {
            return Err(DavError::Status(status, body));
        }
        parse_propfind(body.as_str(), self.user_root.as_str())
    }

    /// Asks for the contents of a file.
    pub fn get(&self, rel: &str) -> (r: Result<DavRequest, DavError>)
        ensures
            request_outcome(r) == requested(self@, "GET"@, rel@, seq![authorization(self@)], Seq::empty()),
            r is Ok ==> is_confined(self@, r->Ok_0.url@),
    {
        self.plain_request("GET", rel, Vec::new())
    }

    /// Asks for the contents of a file to be replaced.
    pub fn put_bytes(&self, rel: &str, body: Vec<u8>) -> (r: Result<DavRequest, DavError>)
        ensures
            request_outcome(r) == requested(self@, "PUT"@, rel@, seq![authorization(self@)], body@),
            r is Ok ==> is_confined(self@, r->Ok_0.url@),
    {
        self.plain_request("PUT", rel, body)
    }

    /// Asks for a file or a collection to be deleted.
    pub fn delete(&self, rel: &str) -> (r: Result<DavRequest, DavError>)
        ensures
            request_outcome(r) == requested(self@, "DELETE"@, rel@, seq![authorization(self@)], Seq::empty()),
            r is Ok ==> is_confined(self@, r->Ok_0.url@),
    {
        self.plain_request("DELETE", rel, Vec::new())
    }

    /// Asks for a collection to be made.
    pub fn mkcol(&self, rel: &str) -> (r: Result<DavRequest, DavError>)
        ensures
            request_outcome(r) == requested(self@, "MKCOL"@, rel@, seq![authorization(self@)], Seq::empty()),
            r is Ok ==> is_confined(self@, r->Ok_0.url@),
    {
        self.plain_request("MKCOL", rel, Vec::new())
    }

    fn plain_request(&self, method: &'static str, rel: &str, body: Vec<u8>) -> (r: Result<
        DavRequest,
        DavError,
    >)
        ensures
            request_outcome(r) == requested(self@, method@, rel@, seq![authorization(self@)], body@),
            r is Ok ==> is_confined(self@, r->Ok_0.url@),
    {
        let headers: Vec<(String, String)> = vec![
            ("Authorization".to_owned(), self.authorization_value()),
        ];
        proof {
            assert(crate::json::pair_texts(headers@) =~= seq![authorization(self@)]);
        }
        self.request(method, rel, headers, body)
    }

    /// Asks for a file or a collection to be moved, unless something stands
    /// in its new place.
    pub fn mv(&self, from_rel: &str, to_rel: &str) -> (r: Result<DavRequest, DavError>)
        ensures
            request_outcome(r) == move_request(self@, from_rel@, to_rel@),
            r is Ok ==> is_confined(self@, r->Ok_0.url@) && is_confined(
                self@,
                r->Ok_0.headers@[1].1@,
            ),
    {
        match self.url_for(from_rel) {
            Ok(_) => {},
            Err(e) => return Err(e),
        }
        let to = match self.url_for(to_rel) {
            Ok(to) => to,
            Err(e) => return Err(e),
        };
        let headers: Vec<(String, String)> = vec![
            ("Authorization".to_owned(), self.authorization_value()),
            ("Destination".to_owned(), to.as_str().to_owned()),
            ("Overwrite".to_owned(), "F".to_owned()),
        ];
        proof {
            assert(crate::json::pair_texts(headers@) =~= seq![
                authorization(self@),
                ("Destination"@, to@),
                ("Overwrite"@, "F"@),
            ]);
        }
        self.request("MOVE", from_rel, headers, Vec::new())
    }
}

} // verus!
