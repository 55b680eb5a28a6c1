//! Absolute URLs, kept as their text in normal form. What is read as a URL
//! and how a relative one is resolved is decided by the `url` crate.

use crate::text::{index_of_char, pieces_of, same_text, slice_text, to_chars};
use vstd::prelude::*;

verus! {

/// An absolute URL. Its view is its text.
#[derive(Debug, Clone, PartialEq, Eq)]
pub struct Url {
    text: String,
}

impl View for Url {
    type V = Seq<char>;

    closed spec fn view(&self) -> Seq<char> {
        self.text@
    }
}

/// A URL, or an error in words, in specifications.
pub open spec fn url_outcome(r: Result<Url, String>) -> Result<Seq<char>, Seq<char>> {
    match r {
        Ok(u) => Ok(u@),
        Err(e) => Err(e@),
    }
}

/// A text, or an error in words, in specifications.
pub open spec fn text_outcome(r: Result<String, String>) -> Result<Seq<char>, Seq<char>> {
    match r {
        Ok(s) => Ok(s@),
        Err(e) => Err(e@),
    }
}

/// The text of the URL that a text is read as, or why it is none.
pub uninterp spec fn url_parsed(s: Seq<char>) -> Result<Seq<char>, Seq<char>>;

/// The text of the URL that `rel` is resolved to against a base, or why it
/// cannot be.
pub uninterp spec fn url_joined(base: Seq<char>, rel: Seq<char>) -> Result<Seq<char>, Seq<char>>;

/// Whether a URL is one of the web.
pub open spec fn is_web(url: Seq<char>) -> bool {
    "http://"@.is_prefix_of(url) || "https://"@.is_prefix_of(url)
}

/// Whether a path segment means the current directory.
pub open spec fn is_dot(s: Seq<char>) -> bool {
    s == "."@ || s == "%2e"@ || s == "%2E"@
}

/// Whether a path segment means the parent directory.
pub open spec fn is_dot_dot(s: Seq<char>) -> bool {
    s == ".."@ || s == ".%2e"@ || s == ".%2E"@ || s == "%2e."@ || s == "%2E."@ || s == "%2e%2e"@
        || s == "%2e%2E"@ || s == "%2E%2e"@ || s == "%2E%2E"@
}

/// `s` without the control characters and spaces at its end.
pub open spec fn trim_end_control(s: Seq<char>) -> Seq<char>
    decreases s.len(),
{
    if s.len() > 0 && s.last() <= ' ' {
        trim_end_control(s.drop_last())
    } else {
        s
    }
}

/// How deep a path lies behind a segment that follows at some depth.
pub open spec fn depth_behind(segment: Seq<char>, depth: nat) -> int {
    if is_dot_dot(segment) {
        depth - 1
    } else if is_dot(segment) {
        depth as int
    } else {
        (depth + 1) as int
    }
}

/// Whether a path segment is a drive letter of Windows.
pub open spec fn is_drive(s: Seq<char>) -> bool {
    s.len() == 2 && ('a' <= s[0] <= 'z' || 'A' <= s[0] <= 'Z') && (s[1] == ':' || s[1] == '|')
}

/// Whether a relative path climbs above where it starts. Tabs and line breaks
/// do not count, `\` separates as `/` does, the path ends at `?` or `#`, and
/// there is no way up from a drive letter. `segment` is what has been read of
/// the current segment, `depth` how deep the path lay before it.
pub open spec fn climbs(s: Seq<char>, segment: Seq<char>, depth: nat) -> bool
    decreases s.len(),
{
    let below = depth_behind(segment, depth);
    if s.len() == 0 || s[0] == '?' || s[0] == '#' {
        below < 0
    } else if s[0] == '\t' || s[0] == '\n' || s[0] == '\r' {
        climbs(s.skip(1), segment, depth)
    } else if s[0] == '/' || s[0] == '\\' {
        !is_drive(segment) && (below < 0 || climbs(s.skip(1), Seq::empty(), below as nat))
    } else {
        climbs(s.skip(1), segment.push(s[0]), depth)
    }
}

/// Whether a relative path stays inside the directory it starts from.
pub open spec fn stays_inside(rel: Seq<char>) -> bool {
    !climbs(trim_end_control(rel), Seq::empty(), 0)
}

pub(crate) proof fn lemma_empty_path_stays_inside()
    ensures
        stays_inside(Seq::empty()),
{
    reveal_strlit("..");
    reveal_strlit(".%2e");
    reveal_strlit(".%2E");
    reveal_strlit("%2e.");
    reveal_strlit("%2E.");
    reveal_strlit("%2e%2e");
    reveal_strlit("%2e%2E");
    reveal_strlit("%2E%2e");
    reveal_strlit("%2E%2E");
    assert(trim_end_control(Seq::empty()) =~= Seq::empty());
}

fn is_drive_of(segment: &str) -> (yes: bool)
    ensures
        yes == is_drive(segment@),
{
    let cs = to_chars(segment);
    cs.len() == 2 && (('a' <= cs[0] && cs[0] <= 'z') || ('A' <= cs[0] && cs[0] <= 'Z')) && (cs[1]
        == ':' || cs[1] == '|')
}

fn depth_behind_of(segment: &str, depth: usize) -> (below: Option<usize>)
    requires
        depth < usize::MAX,
    ensures
        match below {
            Some(d) => d == depth_behind(segment@, depth as nat),
            None => depth_behind(segment@, depth as nat) < 0,
        },
{
    let up = same_text(segment, "..") || same_text(segment, ".%2e") || same_text(segment, ".%2E")
        || same_text(segment, "%2e.") || same_text(segment, "%2E.") || same_text(segment, "%2e%2e")
        || same_text(segment, "%2e%2E") || same_text(segment, "%2E%2e") || same_text(
        segment,
        "%2E%2E",
    );
    let here = same_text(segment, ".") || same_text(segment, "%2e") || same_text(segment, "%2E");
    if up {
        if depth == 0 {
            None
        } else {
            Some(depth - 1)
        }
    } else if here {
        Some(depth)
    } else {
        Some(depth + 1)
    }
}

/// Whether a relative path stays inside the directory it starts from.
pub fn stays_inside_of(rel: &str) -> (yes: bool)
    ensures
        yes == stays_inside(rel@),
{
    let cs = to_chars(rel);
    let mut n: usize = cs.len();
    proof {
        assert(cs@.take(n as int) =~= rel@);
    }
    while n > 0 && cs[n - 1] <= ' '
        invariant
            n <= cs@.len(),
            trim_end_control(cs@.take(n as int)) == trim_end_control(rel@),
        decreases n,
    {
        proof {
            assert(cs@.take(n as int).drop_last() =~= cs@.take(n - 1));
        }
        n = n - 1;
    }
    let ghost all = cs@.take(n as int);
    let mut segment = String::new();
    let mut depth: usize = 0;
    let mut i: usize = 0;
    proof {
        assert(all == trim_end_control(rel@));
        assert(all.skip(0) =~= all);
        assert(segment@ =~= Seq::<char>::empty());
    }
    while i < n && cs[i] != '?' && cs[i] != '#'
        invariant
            i <= n <= cs@.len(),
            depth <= i,
            all == cs@.take(n as int),
            climbs(all.skip(i as int), segment@, depth as nat) == !stays_inside(rel@),
        decreases n - i,
    {
        let c: char = cs[i];
        proof {
            assert(all.skip(i as int)[0] == c);
            assert(all.skip(i as int).skip(1) =~= all.skip(i + 1));
        }
        if c == '/' || c == '\\' {
            if is_drive_of(segment.as_str()) {
                return true;
            }
            match depth_behind_of(segment.as_str(), depth) {
                Some(d) => {
                    depth = d;
                },
                None => return false,
            }
            segment = String::new();
            proof {
                assert(segment@ =~= Seq::<char>::empty());
            }
        } else if c != '\t' && c != '\n' && c != '\r' {
            segment.push(c);
        }
        i = i + 1;
    }
    proof {
        if i < n {
            assert(all.skip(i as int)[0] == cs@[i as int]);
        }
    }
    let lies_deeper: usize = if depth > 0 {
        1
    } else {
        0
    };
    match depth_behind_of(segment.as_str(), lies_deeper) {
        Some(_) => true,
        None => false,
    }
}

/// Whether a path names the same place as it stands: nothing in it is dropped,
/// cut off or taken for a separator, and no segment of it is a dot segment.
pub open spec fn is_sound_path(path: Seq<char>) -> bool {
    &&& forall|i: int|
        0 <= i < path.len() ==> {
            let c = #[trigger] path[i];
            c != '?' && c != '#' && c != '\\' && c != '\t' && c != '\n' && c != '\r'
        }
    &&& forall|i: int|
        0 <= i < crate::text::pieces(path, '/').len() ==> {
            let s = #[trigger] crate::text::pieces(path, '/')[i];
            !is_dot(s) && !is_dot_dot(s)
        }
}

/// Whether a path names the same place as it stands.
pub fn is_sound_path_of(path: &str) -> (yes: bool)
    ensures
        yes == is_sound_path(path@),
{
    let cs = to_chars(path);
    let mut i: usize = 0;
    while i < cs.len()
        invariant
            i <= cs@.len(),
            cs@ == path@,
            forall|j: int|
                0 <= j < i ==> {
                    let c = #[trigger] path@[j];
                    c != '?' && c != '#' && c != '\\' && c != '\t' && c != '\n' && c != '\r'
                },
        decreases cs@.len() - i,
    {
        let c: char = cs[i];
        if c == '?' || c == '#' || c == '\\' || c == '\t' || c == '\n' || c == '\r' {
            proof {
                assert(path@[i as int] == c);
            }
            return false;
        }
        i = i + 1;
    }
    let parts = pieces_of(path, '/');
    let ghost all = crate::text::pieces(path@, '/');
    let mut k: usize = 0;
    while k < parts.len()
        invariant
            k <= parts@.len(),
            crate::text::texts(parts@) == all,
            all == crate::text::pieces(path@, '/'),
            forall|j: int|
                0 <= j < k ==> {
                    let s = #[trigger] all[j];
                    !is_dot(s) && !is_dot_dot(s)
                },
        decreases parts@.len() - k,
    {
        proof {
            assert(all[k as int] == parts@[k as int]@);
        }
        match depth_behind_of(parts[k].as_str(), 1) {
            Some(2) => {},
            _ => return false,
        }
        k = k + 1;
    }
    true
}

/// The scheme and the authority of a URL of the web: what stands before its
/// path.
pub open spec fn origin_of(url: Seq<char>) -> Seq<char> {
    let start = if "https://"@.is_prefix_of(url) {
        8int
    } else {
        7int
    };
    url.take(start + crate::text::first_index(url.skip(start), '/'))
}

/// Whether a path is made of characters that stand in a URL as they are.
pub open spec fn is_plain_path(path: Seq<char>) -> bool {
    is_sound_path(path) && forall|i: int|
        0 <= i < path.len() ==> {
            let c = #[trigger] path[i];
            ('a' <= c <= 'z') || ('A' <= c <= 'Z') || ('0' <= c <= '9') || c == '-' || c == '.' || c
                == '_' || c == '+' || c == '@' || c == '/'
        }
}

/// Whether a path can be cut at `k` into a directory and a part that stays
/// inside it.
pub open spec fn is_cut(rel: Seq<char>, k: int) -> bool {
    &&& 2 <= k <= rel.len()
    &&& rel[0] == '/' && 'a' <= rel[1] <= 'z'
    &&& rel[k - 1] == '/'
    &&& stays_inside(rel.skip(k))
}

/// `Url::parse`: a function of the text. The text of a URL of the web reads as
/// that URL again, which is an invariant of the type (`check_invariants`).
#[verifier::external_body]
pub(crate) fn parse_text(s: &str) -> (r: Result<String, String>)
    ensures
        text_outcome(r) == url_parsed(s@),
        r is Ok && is_web(r->Ok_0@) ==> url_parsed(r->Ok_0@) == Ok::<_, Seq<char>>(r->Ok_0@),
{
    url::Url::parse(s).map(|u| u.to_string()).map_err(|e| e.to_string())
}

/// `Url::parse` of the base and `Url::join`: a function of the two texts. On
/// a base of the web and a path that begins with one slash and a small letter,
/// a part behind some later slash that does not climb only extends what the
/// part before it resolves to; and where that part is a plain path, it stands
/// as it is behind the scheme and the authority of the base.
#[verifier::external_body]
pub(crate) fn join_text(base: &str, rel: &str) -> (r: Result<String, String>)
    ensures
        text_outcome(r) == url_joined(base@, rel@),
        forall|k: int|
            is_web(base@) && #[trigger] is_cut(rel@, k) && r is Ok ==> (url_joined(
                base@,
                rel@.take(k),
            ) matches Ok(u) && u.is_prefix_of(r->Ok_0@)),
        forall|k: int|
            is_web(base@) && #[trigger] is_cut(rel@, k) && is_plain_path(rel@.take(k)) && r is Ok
                ==> (url_parsed(base@) matches Ok(b) && (origin_of(b) + rel@.take(k)).is_prefix_of(
                r->Ok_0@,
            )),
{
    url::Url::parse(base).and_then(|b| b.join(rel)).map(|u| u.to_string()).map_err(
        |e| e.to_string(),
    )
}

/// One byte as it stands in a form-encoded text.
pub open spec fn form_byte(b: u8) -> Seq<char> {
    if ('a' as u8 <= b <= 'z' as u8) || ('A' as u8 <= b <= 'Z' as u8) || ('0' as u8 <= b
        <= '9' as u8) || b == '*' as u8 || b == '-' as u8 || b == '.' as u8 || b == '_' as u8 {
        seq![b as char]
    } else if b == ' ' as u8 {
        seq!['+']
    } else {
        seq![
            '%',
            crate::numbers::hex_upper(b as int / 16),
            crate::numbers::hex_upper(b as int % 16),
        ]
    }
}

/// Some bytes as they stand in a form-encoded text.
pub open spec fn form_bytes(b: Seq<u8>) -> Seq<char>
    decreases b.len(),
{
    if b.len() == 0 {
        Seq::empty()
    } else {
        form_bytes(b.drop_last()) + form_byte(b.last())
    }
}

/// A text, form-encoded.
pub open spec fn form_encoded(s: Seq<char>) -> Seq<char> {
    form_bytes(vstd::utf8::encode_utf8(s))
}

/// `form_urlencoded::byte_serialize`: letters, digits and `*-._` as they are,
/// a space as `+`, every other byte as `%` and two capital hexadecimal digits.
#[verifier::external_body]
pub(crate) fn form_encode(s: &str) -> (out: String)
    ensures
        out@ == form_encoded(s@),
{
    url::form_urlencoded::byte_serialize(s.as_bytes()).collect()
}

/// Name and value pairs as a query, with `&` between them.
pub open spec fn query_text(pairs: Seq<(Seq<char>, Seq<char>)>) -> Seq<char>
    decreases pairs.len(),
{
    if pairs.len() == 0 {
        Seq::empty()
    } else {
        let pair = form_encoded(pairs.last().0) + seq!['='] + form_encoded(pairs.last().1);
        if pairs.len() == 1 {
            pair
        } else {
            query_text(pairs.drop_last()) + seq!['&'] + pair
        }
    }
}

/// A URL with a query added: behind the query it has, or as its query, and in
/// any case before the fragment.
pub open spec fn with_query(url: Seq<char>, query: Seq<char>) -> Seq<char> {
    let cut = crate::text::first_index(url, '#');
    let main = url.take(cut);
    let separator = if !main.contains('?') {
        seq!['?']
    } else if crate::text::first_index(main, '?') == main.len() - 1 {
        Seq::empty()
    } else {
        seq!['&']
    };
    main + separator + query + url.skip(cut)
}

/// Pairs of texts as a query.
pub(crate) fn query_of(pairs: &Vec<(String, String)>) -> (out: String)
    ensures
        out@ == query_text(crate::json::pair_texts(pairs@)),
{
    let ghost all = crate::json::pair_texts(pairs@);
    let mut out = String::new();
    let mut i: usize = 0;
    proof {
        assert(out@ =~= query_text(all.take(0)));
    }
    while i < pairs.len()
        invariant
            i <= pairs@.len(),
            all == crate::json::pair_texts(pairs@),
            out@ == query_text(all.take(i as int)),
        decreases pairs@.len() - i,
    {
        if i > 0 {
            out.push('&');
        }
        out.append(form_encode(pairs[i].0.as_str()).as_str());
        out.push('=');
        out.append(form_encode(pairs[i].1.as_str()).as_str());
        i = i + 1;
        proof {
            assert(all.take(i as int).drop_last() =~= all.take(i - 1));
            assert(all.take(i as int).last() == (pairs@[i - 1].0@, pairs@[i - 1].1@));
            assert(out@ =~= query_text(all.take(i as int)));
        }
    }
    proof {
        assert(all.take(i as int) =~= all);
    }
    out
}

impl Url {
    /// Reads a URL. One of the web is read back from its own text.
    pub fn parse(s: &str) -> (r: Result<Url, String>)
        ensures
            url_outcome(r) == url_parsed(s@),
            r is Ok && is_web(r->Ok_0@) ==> url_parsed(r->Ok_0@) == Ok::<_, Seq<char>>(r->Ok_0@),
    {
        match parse_text(s) {
            Ok(text) => Ok(Url { text }),
            Err(e) => Err(e),
        }
    }

    /// The text of the URL.
    pub fn as_str(&self) -> (s: &str)
        ensures
            s@ == self@,
    {
        self.text.as_str()
    }

    /// Resolves a URL relative to this one.
    pub fn join(&self, rel: &str) -> (r: Result<Url, String>)
        ensures
            url_outcome(r) == url_joined(self@, rel@),
            forall|k: int|
                is_web(self@) && #[trigger] is_cut(rel@, k) && r is Ok ==> (url_joined(
                    self@,
                    rel@.take(k),
                ) matches Ok(u) && u.is_prefix_of(r->Ok_0@)),
            forall|k: int|
                is_web(self@) && #[trigger] is_cut(rel@, k) && is_plain_path(rel@.take(k)) && r
                    is Ok ==> (url_parsed(self@) matches Ok(b) && (origin_of(b) + rel@.take(
                    k,
                )).is_prefix_of(r->Ok_0@)),
    {
        match join_text(self.text.as_str(), rel) {
            Ok(text) => Ok(Url { text }),
            Err(e) => Err(e),
        }
    }

    /// This URL with name and value pairs added to its query.
    pub fn with_pairs(&self, pairs: &Vec<(String, String)>) -> (out: Url)
        ensures
            out@ == with_query(self@, query_text(crate::json::pair_texts(pairs@))),
    {
        let cs = to_chars(self.text.as_str());
        let cut = index_of_char(&cs, '#');
        let mut text = slice_text(&cs, 0, cut);
        let main = to_chars(text.as_str());
        let mark = index_of_char(&main, '?');
        proof {
            crate::text::lemma_first_index(main@, '?');
            assert(text@ =~= self@.take(cut as int));
        }
        if mark == main.len() {
            text.push('?');
        } else if mark + 1 < main.len() {
            text.push('&');
        }
        text.append(query_of(pairs).as_str());
        text.append(slice_text(&cs, cut, cs.len()).as_str());
        let out = Url { text };
        proof {
            assert(self@.skip(cut as int) =~= cs@.subrange(cut as int, cs@.len() as int));
            assert(out@ =~= with_query(self@, query_text(crate::json::pair_texts(pairs@))));
        }
        out
    }
}

} // verus!
