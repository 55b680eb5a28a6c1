//! What a multistatus document says, told by the tree of its elements: the
//! laws of reading a listing.

use crate::dav::{EntryModel, ListingModel, RawModel};
use crate::xml::XmlEv;
use vstd::prelude::*;

verus! {

/// A piece of a document: an element with what it holds, or an event that
/// opens or closes nothing.
pub ghost enum XmlNode {
    Element { tag: Seq<u8>, children: Seq<XmlNode> },
    Leaf(XmlEv),
}

/// The events of a piece of a document.
pub open spec fn node_events(n: XmlNode) -> Seq<XmlEv>
    decreases n,
{
    match n {
        XmlNode::Element { tag, children } => seq![XmlEv::Start(tag)] + nodes_events(children)
            + seq![XmlEv::End(tag)],
        XmlNode::Leaf(e) => seq![e],
    }
}

/// The events of pieces of a document, one after the other.
pub open spec fn nodes_events(ns: Seq<XmlNode>) -> Seq<XmlEv>
    decreases ns,
{
    if ns.len() == 0 {
        Seq::empty()
    } else {
        nodes_events(ns.drop_last()) + node_events(ns.last())
    }
}

/// Whether an event opens, closes and ends nothing.
pub open spec fn is_content(e: XmlEv) -> bool {
    e is Empty || e is Text || e is Other
}

/// Whether no element of a piece is a `response`.
pub open spec fn has_no_response(n: XmlNode) -> bool
    decreases n,
{
    match n {
        XmlNode::Element { tag, children } => crate::dav::local_name(tag) != "response"@
            && have_no_response(children),
        XmlNode::Leaf(e) => is_content(e),
    }
}

/// Whether no element of some pieces is a `response`.
pub open spec fn have_no_response(ns: Seq<XmlNode>) -> bool
    decreases ns,
{
    ns.len() == 0 || (have_no_response(ns.drop_last()) && has_no_response(ns.last()))
}

/// Whether no `response` of a piece stands within another.
pub open spec fn is_listing(n: XmlNode) -> bool
    decreases n,
{
    match n {
        XmlNode::Element { tag, children } => if crate::dav::local_name(tag) == "response"@ {
            have_no_response(children)
        } else {
            are_listing(children)
        },
        XmlNode::Leaf(e) => is_content(e),
    }
}

/// Whether no `response` of some pieces stands within another.
pub open spec fn are_listing(ns: Seq<XmlNode>) -> bool
    decreases ns,
{
    ns.len() == 0 || (are_listing(ns.drop_last()) && is_listing(ns.last()))
}

/// What a `response` says of its entry, one thing at a time: a text, with the
/// local name of the element that it stands in, or that it is a collection.
pub ghost enum Mention {
    Text { tag: Seq<char>, text: Seq<char> },
    Collection,
}

/// That an element is a collection, if it is one by its name.
pub open spec fn collection_mention(tag: Seq<u8>) -> Seq<Mention> {
    if crate::dav::local_name(tag) == "collection"@ {
        seq![Mention::Collection]
    } else {
        Seq::empty()
    }
}

/// What a piece inside the element `parent` says, in order.
pub open spec fn mentions(n: XmlNode, parent: Seq<char>) -> Seq<Mention>
    decreases n,
{
    match n {
        XmlNode::Element { tag, children } => collection_mention(tag) + mentions_of(
            children,
            crate::dav::local_name(tag),
        ),
        XmlNode::Leaf(XmlEv::Empty(tag)) => collection_mention(tag),
        XmlNode::Leaf(XmlEv::Text(text)) => seq![
            Mention::Text {
                tag: parent,
                text: match text {
                    Some(text) => text,
                    None => Seq::empty(),
                },
            },
        ],
        XmlNode::Leaf(_) => Seq::empty(),
    }
}

/// What pieces inside the element `parent` say, in order.
pub open spec fn mentions_of(ns: Seq<XmlNode>, parent: Seq<char>) -> Seq<Mention>
    decreases ns,
{
    if ns.len() == 0 {
        Seq::empty()
    } else {
        mentions_of(ns.drop_last(), parent) + mentions(ns.last(), parent)
    }
}

/// What is known of an entry after one more mention.
pub open spec fn noted(r: RawModel, m: Mention) -> RawModel {
    match m {
        Mention::Text { tag, text } => crate::dav::with_text(r, tag, text),
        Mention::Collection => RawModel { is_collection: true, ..r },
    }
}

/// What is known of an entry after some more mentions.
pub open spec fn noted_all(r: RawModel, ms: Seq<Mention>) -> RawModel
    decreases ms.len(),
{
    if ms.len() == 0 {
        r
    } else {
        noted(noted_all(r, ms.drop_last()), ms.last())
    }
}

/// An entry as a sequence of at most one.
pub open spec fn entry_if_any(r: RawModel, user_root: Seq<char>) -> Seq<EntryModel> {
    match crate::dav::entry_of(r, user_root) {
        Some(e) => seq![e],
        None => Seq::empty(),
    }
}

/// The entries under the user's root that the `response` elements of a piece
/// speak of, in order.
pub open spec fn entries_in(n: XmlNode, user_root: Seq<char>) -> Seq<EntryModel>
    decreases n,
{
    match n {
        XmlNode::Element { tag, children } => if crate::dav::local_name(tag) == "response"@ {
            entry_if_any(
                noted_all(crate::dav::blank_entry(), mentions_of(children, "response"@)),
                user_root,
            )
        } else {
            entries_of(children, user_root)
        },
        XmlNode::Leaf(_) => Seq::empty(),
    }
}

/// The entries under the user's root that the `response` elements of some
/// pieces speak of, in order.
pub open spec fn entries_of(ns: Seq<XmlNode>, user_root: Seq<char>) -> Seq<EntryModel>
    decreases ns,
{
    if ns.len() == 0 {
        Seq::empty()
    } else {
        entries_of(ns.drop_last(), user_root) + entries_in(ns.last(), user_root)
    }
}

/// A listing after some more events of the document.
pub open spec fn advanced_by(
    l: ListingModel,
    events: Seq<XmlEv>,
    user_root: Seq<char>,
) -> ListingModel
    decreases events.len(),
{
    if events.len() == 0 {
        l
    } else {
        crate::dav::advanced(
            advanced_by(l, events.drop_last(), user_root),
            events.last(),
            user_root,
        )
    }
}

proof fn lemma_advanced_by_concat(
    l: ListingModel,
    a: Seq<XmlEv>,
    b: Seq<XmlEv>,
    user_root: Seq<char>,
)
    ensures
        advanced_by(l, a + b, user_root) == advanced_by(
            advanced_by(l, a, user_root),
            b,
            user_root,
        ),
    decreases b.len(),
{
    if b.len() == 0 {
        assert(a + b =~= a);
    } else {
        assert((a + b).drop_last() =~= a + b.drop_last());
        lemma_advanced_by_concat(l, a, b.drop_last(), user_root);
    }
}

proof fn lemma_advanced_by_one(l: ListingModel, e: XmlEv, user_root: Seq<char>)
    ensures
        advanced_by(l, seq![e], user_root) == crate::dav::advanced(l, e, user_root),
{
    assert(seq![e].drop_last() =~= Seq::empty());
    reveal_with_fuel(advanced_by, 2);
}

proof fn lemma_listed_concat(
    l: ListingModel,
    a: Seq<XmlEv>,
    b: Seq<XmlEv>,
    user_root: Seq<char>,
)
    requires
        forall|i: int| 0 <= i < a.len() ==> !crate::xml::is_last(#[trigger] a[i]),
    ensures
        crate::dav::listed(l, a + b, user_root) == crate::dav::listed(
            advanced_by(l, a, user_root),
            b,
            user_root,
        ),
    decreases a.len(),
{
    if a.len() == 0 {
        assert(a + b =~= b);
    } else {
        let head = a.drop_last();
        let tail = seq![a.last()] + b;
        assert(a + b =~= head + tail);
        lemma_listed_concat(l, head, tail, user_root);
        assert(tail.skip(1) =~= b);
        assert(!crate::xml::is_last(a[a.len() - 1]));
    }
}

proof fn lemma_noted_concat(r: RawModel, a: Seq<Mention>, b: Seq<Mention>)
    ensures
        noted_all(r, a + b) == noted_all(noted_all(r, a), b),
    decreases b.len(),
{
    if b.len() == 0 {
        assert(a + b =~= a);
    } else {
        assert((a + b).drop_last() =~= a + b.drop_last());
        lemma_noted_concat(r, a, b.drop_last());
    }
}

proof fn lemma_noted_one(r: RawModel, m: Mention)
    ensures
        noted_all(r, seq![m]) == noted(r, m),
{
    assert(seq![m].drop_last() =~= Seq::empty());
    reveal_with_fuel(noted_all, 2);
}

/// A listing with what is known of its current entry replaced.
spec fn with_current(l: ListingModel, r: RawModel) -> ListingModel {
    ListingModel { current: Some(r), ..l }
}

/// Inside a `response`, a piece adds what it mentions and leaves the rest as
/// it was.
proof fn lemma_piece_inside(
    l: ListingModel,
    n: XmlNode,
    parent: Seq<char>,
    user_root: Seq<char>,
)
    requires
        l.current is Some,
        l.open_tags.len() > 0,
        l.open_tags.last() == parent,
        has_no_response(n),
    ensures
        advanced_by(l, node_events(n), user_root) == with_current(
            l,
            noted_all(l.current->0, mentions(n, parent)),
        ),
    decreases n,
{
    let r = l.current->0;
    match n {
        XmlNode::Element { tag, children } => {
            let name = crate::dav::local_name(tag);
            let start = seq![XmlEv::Start(tag)];
            let end = seq![XmlEv::End(tag)];
            let inner = nodes_events(children);
            lemma_advanced_by_one(l, start[0], user_root);
            let l1 = advanced_by(l, start, user_root);
            let r1 = noted_all(r, collection_mention(tag));
            if name == "collection"@ {
                lemma_noted_one(r, Mention::Collection);
            }
            assert(l1.current == Some(r1));
            assert(l1.open_tags.last() == name);
            lemma_pieces_inside(l1, children, name, user_root);
            lemma_noted_concat(r, collection_mention(tag), mentions_of(children, name));
            let l2 = advanced_by(l1, inner, user_root);
            lemma_advanced_by_concat(l, start, inner, user_root);
            lemma_advanced_by_concat(l, start + inner, end, user_root);
            lemma_advanced_by_one(l2, end[0], user_root);
            assert(l1.open_tags.drop_last() =~= l.open_tags);
        },
        XmlNode::Leaf(e) => {
            lemma_advanced_by_one(l, e, user_root);
            match e {
                XmlEv::Text(_) => {
                    lemma_noted_one(r, mentions(n, parent)[0]);
                },
                XmlEv::Empty(tag) => {
                    if crate::dav::local_name(tag) == "collection"@ {
                        lemma_noted_one(r, Mention::Collection);
                    }
                },
                _ => {},
            }
        },
    }
}

proof fn lemma_pieces_inside(
    l: ListingModel,
    ns: Seq<XmlNode>,
    parent: Seq<char>,
    user_root: Seq<char>,
)
    requires
        l.current is Some,
        l.open_tags.len() > 0,
        l.open_tags.last() == parent,
        have_no_response(ns),
    ensures
        advanced_by(l, nodes_events(ns), user_root) == with_current(
            l,
            noted_all(l.current->0, mentions_of(ns, parent)),
        ),
    decreases ns,
{
    if ns.len() > 0 {
        let head = ns.drop_last();
        lemma_pieces_inside(l, head, parent, user_root);
        let l1 = advanced_by(l, nodes_events(head), user_root);
        lemma_piece_inside(l1, ns.last(), parent, user_root);
        lemma_advanced_by_concat(l, nodes_events(head), node_events(ns.last()), user_root);
        lemma_noted_concat(
            l.current->0,
            mentions_of(head, parent),
            mentions(ns.last(), parent),
        );
    }
}

/// A listing with some entries added.
spec fn with_entries(l: ListingModel, entries: Seq<EntryModel>) -> ListingModel {
    ListingModel { entries: l.entries + entries, ..l }
}

/// Outside any `response`, a piece adds its entries and leaves the rest as it
/// was.
proof fn lemma_piece_outside(l: ListingModel, n: XmlNode, user_root: Seq<char>)
    requires
        l.current is None,
        is_listing(n),
    ensures
        advanced_by(l, node_events(n), user_root) == with_entries(l, entries_in(n, user_root)),
    decreases n,
{
    match n {
        XmlNode::Element { tag, children } => {
            let name = crate::dav::local_name(tag);
            let start = seq![XmlEv::Start(tag)];
            let end = seq![XmlEv::End(tag)];
            let inner = nodes_events(children);
            lemma_advanced_by_one(l, start[0], user_root);
            let l1 = advanced_by(l, start, user_root);
            assert(l1.open_tags == l.open_tags.push(name));
            assert(l1.open_tags.drop_last() =~= l.open_tags);
            let l2 = advanced_by(l1, inner, user_root);
            lemma_advanced_by_concat(l, start, inner, user_root);
            lemma_advanced_by_concat(l, start + inner, end, user_root);
            lemma_advanced_by_one(l2, end[0], user_root);
            if name == "response"@ {
                lemma_pieces_inside(l1, children, name, user_root);
                assert(advanced_by(l2, end, user_root).entries =~= l.entries + entries_in(
                    n,
                    user_root,
                ));
            } else {
                lemma_pieces_outside(l1, children, user_root);
            }
        },
        XmlNode::Leaf(e) => {
            lemma_advanced_by_one(l, e, user_root);
            assert(l.entries + Seq::<EntryModel>::empty() =~= l.entries);
        },
    }
}

proof fn lemma_pieces_outside(l: ListingModel, ns: Seq<XmlNode>, user_root: Seq<char>)
    requires
        l.current is None,
        are_listing(ns),
    ensures
        advanced_by(l, nodes_events(ns), user_root) == with_entries(l, entries_of(ns, user_root)),
    decreases ns,
{
    if ns.len() > 0 {
        let head = ns.drop_last();
        lemma_pieces_outside(l, head, user_root);
        let l1 = advanced_by(l, nodes_events(head), user_root);
        lemma_piece_outside(l1, ns.last(), user_root);
        lemma_advanced_by_concat(l, nodes_events(head), node_events(ns.last()), user_root);
        assert(l.entries + (entries_of(head, user_root) + entries_in(ns.last(), user_root))
            =~= l.entries + entries_of(head, user_root) + entries_in(ns.last(), user_root));
    } else {
        assert(l.entries + Seq::<EntryModel>::empty() =~= l.entries);
    }
}

proof fn lemma_no_last_inside(n: XmlNode)
    requires
        has_no_response(n) || is_listing(n),
    ensures
        forall|i: int|
            0 <= i < node_events(n).len() ==> !crate::xml::is_last(#[trigger] node_events(n)[i]),
    decreases n,
{
    match n {
        XmlNode::Element { tag, children } => {
            lemma_no_last_of(children);
            let inner = nodes_events(children);
            assert forall|i: int| 0 <= i < node_events(n).len() implies !crate::xml::is_last(
                #[trigger] node_events(n)[i],
            ) by {
                if 0 < i && i <= inner.len() {
                    assert(node_events(n)[i] == inner[i - 1]);
                }
            }
        },
        XmlNode::Leaf(_) => {},
    }
}

proof fn lemma_no_last_of(ns: Seq<XmlNode>)
    requires
        have_no_response(ns) || are_listing(ns),
    ensures
        forall|i: int|
            0 <= i < nodes_events(ns).len() ==> !crate::xml::is_last(
                #[trigger] nodes_events(ns)[i],
            ),
    decreases ns,
{
    if ns.len() > 0 {
        let head = nodes_events(ns.drop_last());
        let tail = node_events(ns.last());
        lemma_no_last_of(ns.drop_last());
        lemma_no_last_inside(ns.last());
        assert forall|i: int| 0 <= i < nodes_events(ns).len() implies !crate::xml::is_last(
            #[trigger] nodes_events(ns)[i],
        ) by {
            if i < head.len() {
                assert(nodes_events(ns)[i] == head[i]);
            } else {
                assert(nodes_events(ns)[i] == tail[i - head.len()]);
            }
        }
    }
}

/// A document is listed as the entries that its `response` elements speak of,
/// those under the user's root, in order and without the root itself. Other
/// elements may stand around the `response` elements, between them and within
/// them, and within a `response` the order does not count but for what is said
/// twice.
pub proof fn listing_reads_every_response(
    xml: Seq<char>,
    document: Seq<XmlNode>,
    user_root: Seq<char>,
)
    requires
        crate::xml::document_events(xml, true) == nodes_events(document).push(XmlEv::Eof),
        are_listing(document),
    ensures
        crate::dav::propfind_entries(xml, user_root) == Ok::<_, crate::dav::DavFault>(
            entries_of(document, user_root).filter(|e: EntryModel| e.path.len() > 0),
        ),
{
    let blank = crate::dav::blank_listing();
    let events = nodes_events(document);
    let end = seq![XmlEv::Eof];
    lemma_no_last_of(document);
    lemma_pieces_outside(blank, document, user_root);
    lemma_listed_concat(blank, events, end, user_root);
    assert(events.push(XmlEv::Eof) =~= events + end);
    assert(blank.entries + entries_of(document, user_root) =~= entries_of(document, user_root));
}

/// Whether the local name of a tag means nothing in a listing.
pub open spec fn is_other_name(name: Seq<char>) -> bool {
    &&& name != "response"@ && name != "href"@ && name != "displayname"@ && name != "collection"@
    &&& name != "getcontentlength"@ && name != "getcontenttype"@ && name != "getlastmodified"@
}

/// The tags of other elements, and the texts in them, leave the entries and
/// what is known of the current one as they are.
pub proof fn other_elements_are_passed_over(l: ListingModel, tag: Seq<u8>, user_root: Seq<char>)
    requires
        is_other_name(crate::dav::local_name(tag)),
    ensures
        forall|e: XmlEv|
            e == XmlEv::Start(tag) || e == XmlEv::End(tag) || e == XmlEv::Empty(tag) || (e is Text
                && l.open_tags.len() > 0 && l.open_tags.last() == crate::dav::local_name(tag)) ==> {
                &&& (#[trigger] crate::dav::advanced(l, e, user_root)).entries == l.entries
                &&& crate::dav::advanced(l, e, user_root).current == l.current
            },
{
}

/// An element around pieces of a document changes nothing of what they list.
pub proof fn wrapping_keeps_the_entries(tag: Seq<u8>, ns: Seq<XmlNode>, user_root: Seq<char>)
    requires
        crate::dav::local_name(tag) != "response"@,
    ensures
        entries_of(seq![XmlNode::Element { tag, children: ns }], user_root) == entries_of(
            ns,
            user_root,
        ),
        are_listing(seq![XmlNode::Element { tag, children: ns }]) == are_listing(ns),
{
    let n = XmlNode::Element { tag, children: ns };
    assert(seq![n].drop_last() =~= Seq::empty());
    assert(seq![n].last() == n);
    reveal_with_fuel(entries_of, 2);
    reveal_with_fuel(are_listing, 2);
    assert(entries_of(seq![n], user_root) =~= entries_of(ns, user_root));
}

/// Whether a text is mentioned as that of the element `tag`.
pub open spec fn speaks_of(ms: Seq<Mention>, tag: Seq<char>) -> bool {
    exists|i: int| 0 <= i < ms.len() && (#[trigger] ms[i]) is Text && ms[i]->tag == tag
}

/// Whether one is mentioned to be a collection.
pub open spec fn speaks_of_collection(ms: Seq<Mention>) -> bool {
    exists|i: int| 0 <= i < ms.len() && (#[trigger] ms[i]) is Collection
}

/// Whether a mention says of an entry what holds of it.
pub open spec fn agrees(m: Mention, r: RawModel) -> bool {
    m matches Mention::Text { tag, text } ==> {
        &&& tag == "href"@ ==> text == r.href
        &&& tag == "displayname"@ ==> r.displayname == Some(text)
        &&& tag == "getcontentlength"@ ==> crate::numbers::parsed_u64(text) == Some(r.size)
        &&& tag == "getcontenttype"@ ==> r.content_type == Some(text)
        &&& tag == "getlastmodified"@ ==> r.last_modified == Some(text)
    }
}

/// Whether mentions say of an entry all that is not blank, and nothing else,
/// in whatever order.
pub open spec fn describe(ms: Seq<Mention>, r: RawModel) -> bool {
    &&& forall|i: int| 0 <= i < ms.len() ==> agrees(#[trigger] ms[i], r)
    &&& speaks_of_collection(ms) == r.is_collection
    &&& !speaks_of(ms, "href"@) ==> r.href.len() == 0
    &&& !speaks_of(ms, "displayname"@) ==> r.displayname is None
    &&& !speaks_of(ms, "getcontentlength"@) ==> r.size == 0
    &&& !speaks_of(ms, "getcontenttype"@) ==> r.content_type is None
    &&& !speaks_of(ms, "getlastmodified"@) ==> r.last_modified is None
}

proof fn lemma_speaks_of(ms: Seq<Mention>, tag: Seq<char>)
    requires
        ms.len() > 0,
    ensures
        speaks_of(ms, tag) == (speaks_of(ms.drop_last(), tag) || (ms.last() is Text
            && ms.last()->tag == tag)),
        speaks_of_collection(ms) == (speaks_of_collection(ms.drop_last())
            || ms.last() is Collection),
{
    let head = ms.drop_last();
    if speaks_of(head, tag) {
        let i = choose|i: int| 0 <= i < head.len() && (#[trigger] head[i]) is Text && head[i]->tag
            == tag;
        assert(ms[i] == head[i]);
    }
    if speaks_of(ms, tag) {
        let i = choose|i: int| 0 <= i < ms.len() && (#[trigger] ms[i]) is Text && ms[i]->tag == tag;
        assert(i < head.len() ==> head[i] == ms[i]);
    }
    if speaks_of_collection(head) {
        let i = choose|i: int| 0 <= i < head.len() && (#[trigger] head[i]) is Collection;
        assert(ms[i] == head[i]);
    }
    if speaks_of_collection(ms) {
        let i = choose|i: int| 0 <= i < ms.len() && (#[trigger] ms[i]) is Collection;
        assert(i < head.len() ==> head[i] == ms[i]);
    }
    assert(ms[ms.len() - 1] == ms.last());
}

/// What is known of an entry so far: of what was mentioned, what holds of the
/// entry; otherwise nothing.
spec fn known(ms: Seq<Mention>, r: RawModel, k: RawModel) -> bool {
    &&& k.is_collection == speaks_of_collection(ms)
    &&& k.href == (if speaks_of(ms, "href"@) {
        r.href
    } else {
        Seq::empty()
    })
    &&& k.displayname == (if speaks_of(ms, "displayname"@) {
        r.displayname
    } else {
        None
    })
    &&& k.size == (if speaks_of(ms, "getcontentlength"@) {
        r.size
    } else {
        0
    })
    &&& k.content_type == (if speaks_of(ms, "getcontenttype"@) {
        r.content_type
    } else {
        None
    })
    &&& k.last_modified == (if speaks_of(ms, "getlastmodified"@) {
        r.last_modified
    } else {
        None
    })
}

proof fn lemma_known(ms: Seq<Mention>, r: RawModel)
    requires
        forall|i: int| 0 <= i < ms.len() ==> agrees(#[trigger] ms[i], r),
    ensures
        known(ms, r, noted_all(crate::dav::blank_entry(), ms)),
    decreases ms.len(),
{
    if ms.len() > 0 {
        let head = ms.drop_last();
        assert forall|i: int| 0 <= i < head.len() implies agrees(#[trigger] head[i], r) by {
            assert(head[i] == ms[i]);
        }
        lemma_known(head, r);
        lemma_speaks_of(ms, "href"@);
        lemma_speaks_of(ms, "displayname"@);
        lemma_speaks_of(ms, "getcontentlength"@);
        lemma_speaks_of(ms, "getcontenttype"@);
        lemma_speaks_of(ms, "getlastmodified"@);
        assert(agrees(ms[ms.len() - 1], r));
        reveal_strlit("href");
        reveal_strlit("displayname");
        reveal_strlit("getcontentlength");
        reveal_strlit("getcontenttype");
        reveal_strlit("getlastmodified");
        assert("href"@.len() == 4 && "displayname"@.len() == 11);
        assert("getcontentlength"@.len() == 16 && "getcontenttype"@.len() == 14);
        assert("getlastmodified"@.len() == 15);
    }
}

/// A `response` element that describes an entry lists that entry if it lies
/// under the user's root, and nothing else, in whatever order and within
/// whatever other elements its fields stand.
pub proof fn response_lists_its_entry(
    tag: Seq<u8>,
    children: Seq<XmlNode>,
    r: RawModel,
    user_root: Seq<char>,
)
    requires
        crate::dav::local_name(tag) == "response"@,
        describe(mentions_of(children, "response"@), r),
    ensures
        entries_in(XmlNode::Element { tag, children }, user_root) == entry_if_any(r, user_root),
{
    let ms = mentions_of(children, "response"@);
    lemma_known(ms, r);
    let k = noted_all(crate::dav::blank_entry(), ms);
    assert(r.href.len() == 0 ==> r.href =~= Seq::empty());
    assert(k == r);
}

} // verus!
