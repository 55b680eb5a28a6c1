//! Text as sequences of characters: the small string operations that the
//! other modules are written with, each with what it means on `Seq<char>`.

use vstd::prelude::*;
use vstd::slice::slice_subrange;

verus! {

/// `String::push`: appends the given character to the end of the string.
pub assume_specification[ String::push ](s: &mut String, c: char)
    ensures
        final(s)@ == old(s)@.push(c),
;

/// The characters of an optional text.
pub open spec fn opt_view(o: Option<String>) -> Option<Seq<char>> {
    match o {
        Some(s) => Some(s@),
        None => None,
    }
}

/// The characters of a text, as a vector.
pub fn to_chars(s: &str) -> (out: Vec<char>)
    ensures
        out@ == s@,
{
    let mut out: Vec<char> = Vec::new();
    for c in it: s.chars()
        invariant
            out@ == it.seq().take(it.index()),
            it.seq() == s@,
    {
        out.push(c);
        proof {
            assert(it.seq().take(it.index()).push(c) =~= it.seq().take(it.index() + 1));
        }
    }
    proof {
        assert(s@.take(s@.len() as int) =~= s@);
    }
    out
}

/// The text made of the characters `from..to` of `cs`.
pub fn slice_text(cs: &Vec<char>, from: usize, to: usize) -> (out: String)
    requires
        from <= to <= cs@.len(),
    ensures
        out@ == cs@.subrange(from as int, to as int),
{
    let mut out = String::new();
    let mut i: usize = from;
    proof {
        assert(out@ =~= cs@.subrange(from as int, from as int));
    }
    while i < to
        invariant
            from <= i <= to <= cs@.len(),
            out@ == cs@.subrange(from as int, i as int),
        decreases to - i,
    {
        out.push(cs[i]);
        i = i + 1;
        proof {
            assert(out@ =~= cs@.subrange(from as int, i as int));
        }
    }
    out
}

/// Two texts joined.
pub fn join2(a: &str, b: &str) -> (out: String)
    ensures
        out@ == a@ + b@,
{
    let mut out = a.to_owned();
    out.append(b);
    out
}

/// Three texts joined.
pub fn join3(a: &str, b: &str, c: &str) -> (out: String)
    ensures
        out@ == a@ + b@ + c@,
{
    let mut out = a.to_owned();
    out.append(b);
    out.append(c);
    out
}

/// Whether two texts have the same characters.
pub fn same_text(a: &str, b: &str) -> (same: bool)
    ensures
        same == (a@ == b@),
{
    a.to_owned() == b.to_owned()
}

/// `s` without the leading occurrences of `c`.
pub open spec fn trim_start(s: Seq<char>, c: char) -> Seq<char>
    decreases s.len(),
{
    if s.len() > 0 && s[0] == c {
        trim_start(s.skip(1), c)
    } else {
        s
    }
}

/// `s` without the trailing occurrences of `c`.
pub open spec fn trim_end(s: Seq<char>, c: char) -> Seq<char>
    decreases s.len(),
{
    if s.len() > 0 && s.last() == c {
        trim_end(s.drop_last(), c)
    } else {
        s
    }
}

/// What follows the last `c` of `s`; all of `s` where it has none.
pub open spec fn after_last(s: Seq<char>, c: char) -> Seq<char>
    decreases s.len(),
{
    if s.len() == 0 || s.last() == c {
        Seq::empty()
    } else {
        after_last(s.drop_last(), c).push(s.last())
    }
}

/// The position of the first `c` in `s`, or the length of `s`.
pub open spec fn first_index(s: Seq<char>, c: char) -> int
    decreases s.len(),
{
    if s.len() == 0 || s[0] == c {
        0
    } else {
        1 + first_index(s.skip(1), c)
    }
}

/// `s` cut at its first `c`: what stands before it and what stands after it.
pub open spec fn split_once(s: Seq<char>, c: char) -> Option<(Seq<char>, Seq<char>)> {
    if s.contains(c) {
        Some((s.take(first_index(s, c)), s.skip(first_index(s, c) + 1)))
    } else {
        None
    }
}

/// `s` cut at every `c`.
pub open spec fn pieces(s: Seq<char>, c: char) -> Seq<Seq<char>>
    decreases s.len(),
{
    if s.len() == 0 {
        seq![Seq::empty()]
    } else if s.last() == c {
        pieces(s.drop_last(), c).push(Seq::empty())
    } else {
        let head = pieces(s.drop_last(), c);
        head.drop_last().push(head.last().push(s.last()))
    }
}

/// `first_index` is the least index at which `c` stands.
pub proof fn lemma_first_index(s: Seq<char>, c: char)
    ensures
        0 <= first_index(s, c) <= s.len(),
        first_index(s, c) < s.len() ==> s[first_index(s, c)] == c,
        forall|i: int| 0 <= i < first_index(s, c) ==> s[i] != c,
        s.contains(c) <==> first_index(s, c) < s.len(),
    decreases s.len(),
{
    if s.len() == 0 || s[0] == c {
    } else {
        lemma_first_index(s.skip(1), c);
        let k = first_index(s.skip(1), c);
        assert forall|i: int| 0 <= i < k + 1 implies s[i] != c by {
            if i > 0 {
                assert(s[i] == s.skip(1)[i - 1]);
            }
        }
        if s.contains(c) {
            let i = choose|i: int| 0 <= i < s.len() && s[i] == c;
            assert(s.skip(1)[i - 1] == c);
        }
        if k < s.skip(1).len() {
            assert(s[k + 1] == c);
        }
    }
}

/// `str::trim_start_matches` with a character.
pub fn trim_start_of(s: &str, c: char) -> (out: String)
    ensures
        out@ == trim_start(s@, c),
{
    let cs = to_chars(s);
    let mut i: usize = 0;
    proof {
        assert(cs@.skip(0) =~= s@);
    }
    while i < cs.len() && cs[i] == c
        invariant
            i <= cs@.len(),
            trim_start(cs@.skip(i as int), c) == trim_start(s@, c),
        decreases cs@.len() - i,
    {
        proof {
            assert(cs@.skip(i as int).skip(1) =~= cs@.skip(i + 1));
        }
        i = i + 1;
    }
    proof {
        assert(cs@.skip(i as int) =~= cs@.subrange(i as int, cs@.len() as int));
    }
    slice_text(&cs, i, cs.len())
}

/// `str::trim_end_matches` with a character.
pub fn trim_end_of(s: &str, c: char) -> (out: String)
    ensures
        out@ == trim_end(s@, c),
{
    let cs = to_chars(s);
    let mut n: usize = cs.len();
    proof {
        assert(cs@.take(n as int) =~= s@);
    }
    while n > 0 && cs[n - 1] == c
        invariant
            n <= cs@.len(),
            trim_end(cs@.take(n as int), c) == trim_end(s@, c),
        decreases n,
    {
        proof {
            assert(cs@.take(n as int).drop_last() =~= cs@.take(n - 1));
        }
        n = n - 1;
    }
    proof {
        assert(cs@.take(n as int) =~= cs@.subrange(0, n as int));
    }
    slice_text(&cs, 0, n)
}

proof fn lemma_after_last(s: Seq<char>, c: char, k: int)
    requires
        0 <= k <= s.len(),
        forall|i: int| k <= i < s.len() ==> s[i] != c,
        k > 0 ==> s[k - 1] == c,
    ensures
        after_last(s, c) == s.skip(k),
    decreases s.len(),
{
    if s.len() == k {
        assert(s.skip(k) =~= Seq::<char>::empty());
    } else {
        lemma_after_last(s.drop_last(), c, k);
        assert(s.drop_last().skip(k).push(s.last()) =~= s.skip(k));
    }
}

/// What follows the last `c` of a text.
pub fn after_last_of(s: &str, c: char) -> (out: String)
    ensures
        out@ == after_last(s@, c),
{
    let cs = to_chars(s);
    let mut k: usize = cs.len();
    while k > 0 && cs[k - 1] != c
        invariant
            k <= cs@.len(),
            forall|i: int| k <= i < cs@.len() ==> cs@[i] != c,
        decreases k,
    {
        k = k - 1;
    }
    proof {
        lemma_after_last(cs@, c, k as int);
        assert(cs@.skip(k as int) =~= cs@.subrange(k as int, cs@.len() as int));
    }
    slice_text(&cs, k, cs.len())
}

/// The position of the first `c` among the characters, or their number.
pub fn index_of_char(cs: &Vec<char>, c: char) -> (k: usize)
    ensures
        k == first_index(cs@, c),
        k <= cs@.len(),
{
    let mut i: usize = 0;
    while i < cs.len() && cs[i] != c
        invariant
            i <= cs@.len(),
            forall|j: int| 0 <= j < i ==> cs@[j] != c,
        decreases cs@.len() - i,
    {
        i = i + 1;
    }
    proof {
        lemma_first_index(cs@, c);
        let k = first_index(cs@, c);
        if i < k {
            assert(cs@[i as int] == c);
        }
        if k < i {
            assert(cs@[k] == c);
        }
    }
    i
}

/// `str::split_once` with a character.
pub fn split_once_of(s: &str, c: char) -> (out: Option<(String, String)>)
    ensures
        match out {
            Some((a, b)) => split_once(s@, c) == Some((a@, b@)),
            None => split_once(s@, c) is None,
        },
{
    let cs = to_chars(s);
    let k = index_of_char(&cs, c);
    proof {
        lemma_first_index(s@, c);
    }
    if k < cs.len() {
        let a = slice_text(&cs, 0, k);
        let b = slice_text(&cs, k + 1, cs.len());
        proof {
            assert(s@.take(k as int) =~= a@);
            assert(s@.skip(k + 1) =~= b@);
        }
        Some((a, b))
    } else {
        None
    }
}

proof fn lemma_pieces_len(s: Seq<char>, c: char)
    ensures
        pieces(s, c).len() >= 1,
    decreases s.len(),
{
    if s.len() > 0 {
        lemma_pieces_len(s.drop_last(), c);
    }
}

/// A text without `c` is one piece.
pub(crate) proof fn lemma_one_piece(s: Seq<char>, c: char)
    requires
        !s.contains(c),
    ensures
        pieces(s, c) == seq![s],
    decreases s.len(),
{
    if s.len() > 0 {
        let t = s.drop_last();
        assert(s.contains(s.last()));
        assert forall|i: int| 0 <= i < t.len() implies t[i] != c by {
            assert(s[i] == t[i]);
        }
        lemma_one_piece(t, c);
        assert(t.push(s.last()) =~= s);
        assert(pieces(s, c) =~= seq![s]);
    } else {
        assert(s =~= Seq::empty());
    }
}

/// What stands behind the last `c` is the last piece.
pub(crate) proof fn lemma_last_piece(head: Seq<char>, s: Seq<char>, c: char)
    requires
        !s.contains(c),
    ensures
        pieces(head + seq![c] + s, c) == pieces(head, c).push(s),
    decreases s.len(),
{
    let whole = head + seq![c] + s;
    if s.len() > 0 {
        let t = s.drop_last();
        assert(s.contains(s.last()));
        assert forall|i: int| 0 <= i < t.len() implies t[i] != c by {
            assert(s[i] == t[i]);
        }
        lemma_last_piece(head, t, c);
        assert(whole.drop_last() =~= head + seq![c] + t);
        assert(t.push(s.last()) =~= s);
        assert(pieces(whole, c) =~= pieces(head, c).push(s));
    } else {
        assert(whole.drop_last() =~= head);
        assert(s =~= Seq::empty());
    }
}

/// The texts of a vector, as sequences of characters.
pub open spec fn texts(v: Seq<String>) -> Seq<Seq<char>> {
    v.map_values(|s: String| s@)
}

/// `str::split` with a character.
pub fn pieces_of(s: &str, c: char) -> (out: Vec<String>)
    ensures
        texts(out@) == pieces(s@, c),
        out@.len() >= 1,
{
    let cs = to_chars(s);
    let mut out: Vec<String> = Vec::new();
    let mut from: usize = 0;
    let mut i: usize = 0;
    proof {
        assert(cs@.take(0) =~= Seq::<char>::empty());
        assert(texts(out@).push(cs@.subrange(0, 0)) =~= pieces(cs@.take(0), c));
    }
    while i < cs.len()
        invariant
            from <= i <= cs@.len(),
            texts(out@).push(cs@.subrange(from as int, i as int)) == pieces(cs@.take(i as int), c),
        decreases cs@.len() - i,
    {
        let ghost head = pieces(cs@.take(i as int), c);
        proof {
            assert(cs@.take(i + 1).drop_last() =~= cs@.take(i as int));
            assert(cs@.take(i + 1).last() == cs@[i as int]);
            assert(head.drop_last() =~= texts(out@));
            assert(head.last() == cs@.subrange(from as int, i as int));
        }
        if cs[i] == c {
            let piece = slice_text(&cs, from, i);
            let ghost before = out@;
            out.push(piece);
            from = i + 1;
            proof {
                assert(texts(out@) =~= texts(before).push(piece@));
                assert(texts(out@) =~= head);
                assert(cs@.subrange(from as int, i + 1) =~= Seq::<char>::empty());
            }
        } else {
            proof {
                assert(cs@.subrange(from as int, i as int).push(cs@[i as int]) =~= cs@.subrange(
                    from as int,
                    i + 1,
                ));
            }
        }
        i = i + 1;
    }
    let ghost before = out@;
    let piece = slice_text(&cs, from, cs.len());
    out.push(piece);
    proof {
        assert(cs@.take(cs@.len() as int) =~= s@);
        assert(texts(out@) =~= texts(before).push(piece@));
        lemma_pieces_len(s@, c);
    }
    out
}

/// Whether `pat` stands in `cs` at position `at`.
fn stands_at(cs: &Vec<char>, at: usize, pat: &Vec<char>) -> (yes: bool)
    requires
        at <= cs@.len(),
    ensures
        yes == pat@.is_prefix_of(cs@.skip(at as int)),
{
    if cs.len() - at < pat.len() {
        return false;
    }
    let n: usize = cs.len();
    let mut i: usize = 0;
    while i < pat.len()
        invariant
            i <= pat@.len(),
            n == cs@.len(),
            at + pat@.len() <= n,
            forall|j: int| 0 <= j < i ==> pat@[j] == cs@[at + j],
        decreases pat@.len() - i,
    {
        if cs[at + i] != pat[i] {
            proof {
                assert(cs@.skip(at as int)[i as int] != pat@[i as int]);
                if pat@.is_prefix_of(cs@.skip(at as int)) {
                    assert(pat@[i as int] == cs@.skip(at as int).subrange(
                        0,
                        pat@.len() as int,
                    )[i as int]);
                }
            }
            return false;
        }
        i = i + 1;
    }
    proof {
        assert(pat@ =~= cs@.skip(at as int).subrange(0, pat@.len() as int));
    }
    true
}

/// `str::strip_prefix` with a text.
pub fn strip_prefix_of(s: &str, prefix: &str) -> (out: Option<String>)
    ensures
        match out {
            Some(rest) => prefix@.is_prefix_of(s@) && rest@ == s@.skip(prefix@.len() as int),
            None => !prefix@.is_prefix_of(s@),
        },
{
    let cs = to_chars(s);
    let pat = to_chars(prefix);
    proof {
        assert(cs@.skip(0) =~= s@);
    }
    if stands_at(&cs, 0, &pat) {
        let rest = slice_text(&cs, pat.len(), cs.len());
        proof {
            assert(rest@ =~= s@.skip(prefix@.len() as int));
        }
        Some(rest)
    } else {
        None
    }
}

/// `str::ends_with` with a text.
pub fn ends_with_text(s: &str, suffix: &str) -> (yes: bool)
    ensures
        yes == suffix@.is_suffix_of(s@),
{
    let cs = to_chars(s);
    let pat = to_chars(suffix);
    if cs.len() < pat.len() {
        return false;
    }
    let at: usize = cs.len() - pat.len();
    proof {
        assert(cs@.skip(at as int) =~= s@.subrange(at as int, s@.len() as int));
        assert(cs@.skip(at as int).subrange(0, pat@.len() as int) =~= cs@.skip(at as int));
    }
    stands_at(&cs, at, &pat)
}

/// `s` with every occurrence of `pat` replaced by `to`; occurrences are found
/// from the left and do not overlap.
pub open spec fn replace_all(s: Seq<char>, pat: Seq<char>, to: Seq<char>) -> Seq<char>
    decreases s.len(),
{
    if pat.len() == 0 || s.len() == 0 {
        s
    } else if pat.is_prefix_of(s) {
        to + replace_all(s.skip(pat.len() as int), pat, to)
    } else {
        seq![s[0]] + replace_all(s.skip(1), pat, to)
    }
}

/// `str::replace` with a text that is not empty.
pub fn replace_of(s: &str, pat: &str, to: &str) -> (out: String)
    requires
        pat@.len() > 0,
    ensures
        out@ == replace_all(s@, pat@, to@),
{
    let cs = to_chars(s);
    let p = to_chars(pat);
    let mut out = String::new();
    let mut i: usize = 0;
    proof {
        assert(cs@.skip(0) =~= s@);
        assert(out@ + replace_all(cs@.skip(0), p@, to@) =~= replace_all(s@, pat@, to@));
    }
    while i < cs.len()
        invariant
            i <= cs@.len(),
            p@ == pat@,
            pat@.len() > 0,
            out@ + replace_all(cs@.skip(i as int), p@, to@) == replace_all(s@, pat@, to@),
        decreases cs@.len() - i,
    {
        let ghost rest = cs@.skip(i as int);
        let ghost before = out@;
        if stands_at(&cs, i, &p) {
            out.append(to);
            i = i + p.len();
            proof {
                assert(rest.skip(p@.len() as int) =~= cs@.skip(i as int));
                assert(before + (to@ + replace_all(cs@.skip(i as int), p@, to@)) =~= out@
                    + replace_all(cs@.skip(i as int), p@, to@));
            }
        } else {
            out.push(cs[i]);
            i = i + 1;
            proof {
                assert(rest.skip(1) =~= cs@.skip(i as int));
                assert(before + (seq![rest[0]] + replace_all(cs@.skip(i as int), p@, to@))
                    =~= out@ + replace_all(cs@.skip(i as int), p@, to@));
            }
        }
    }
    proof {
        assert(cs@.skip(i as int) =~= Seq::<char>::empty());
        assert(out@ + replace_all(cs@.skip(i as int), p@, to@) =~= out@);
    }
    out
}

/// Unicode's `White_Space` property.
pub open spec fn is_white(c: char) -> bool {
    ||| 0x9 <= c as u32 <= 0xd
    ||| c as u32 == 0x20
    ||| c as u32 == 0x85
    ||| c as u32 == 0xa0
    ||| c as u32 == 0x1680
    ||| 0x2000 <= c as u32 <= 0x200a
    ||| c as u32 == 0x2028
    ||| c as u32 == 0x2029
    ||| c as u32 == 0x202f
    ||| c as u32 == 0x205f
    ||| c as u32 == 0x3000
}

/// `s` without white space at either end.
pub open spec fn trim_white(s: Seq<char>) -> Seq<char>
    decreases s.len(),
{
    if s.len() > 0 && is_white(s[0]) {
        trim_white(s.skip(1))
    } else if s.len() > 0 && is_white(s.last()) {
        trim_white(s.drop_last())
    } else {
        s
    }
}

/// Whether a text is white space only.
pub open spec fn is_all_white(s: Seq<char>) -> bool {
    forall|i: int| 0 <= i < s.len() ==> is_white(#[trigger] s[i])
}

/// White space around a text is trimmed.
pub(crate) proof fn lemma_trim_white(before: Seq<char>, s: Seq<char>, after: Seq<char>)
    requires
        is_all_white(before),
        is_all_white(after),
        s.len() > 0,
        !is_white(s[0]),
        !is_white(s.last()),
    ensures
        trim_white(before + s + after) == s,
    decreases before.len() + after.len(),
{
    let all = before + s + after;
    if before.len() > 0 {
        assert(all[0] == before[0]);
        assert(all.skip(1) =~= before.skip(1) + s + after);
        lemma_trim_white(before.skip(1), s, after);
    } else if after.len() > 0 {
        assert(all[0] == s[0]);
        assert(all.last() == after[after.len() - 1]);
        assert(all.drop_last() =~= before + s + after.drop_last());
        lemma_trim_white(before, s, after.drop_last());
    } else {
        assert(all =~= s);
    }
}

fn white(c: char) -> (yes: bool)
    ensures
        yes == is_white(c),
{
    let v: u32 = c as u32;
    (0x9 <= v && v <= 0xd) || v == 0x20 || v == 0x85 || v == 0xa0 || v == 0x1680 || (0x2000 <= v
        && v <= 0x200a) || v == 0x2028 || v == 0x2029 || v == 0x202f || v == 0x205f || v == 0x3000
}

/// `str::trim`.
pub fn trim_white_of(s: &str) -> (out: String)
    ensures
        out@ == trim_white(s@),
{
    let cs = to_chars(s);
    let mut i: usize = 0;
    let mut n: usize = cs.len();
    proof {
        assert(cs@.subrange(0, n as int) =~= s@);
    }
    while i < n && white(cs[i])
        invariant
            i <= n == cs@.len(),
            trim_white(cs@.subrange(i as int, n as int)) == trim_white(s@),
        decreases n - i,
    {
        proof {
            assert(cs@.subrange(i as int, n as int).skip(1) =~= cs@.subrange(i + 1, n as int));
        }
        i = i + 1;
    }
    while i < n && white(cs[n - 1])
        invariant
            i <= n <= cs@.len(),
            i < cs@.len() ==> !is_white(cs@[i as int]),
            trim_white(cs@.subrange(i as int, n as int)) == trim_white(s@),
        decreases n - i,
    {
        proof {
            assert(cs@.subrange(i as int, n as int).drop_last() =~= cs@.subrange(
                i as int,
                n - 1,
            ));
        }
        n = n - 1;
    }
    slice_text(&cs, i, n)
}

/// An ASCII capital letter made small; any other character as it is.
pub open spec fn lower_char(c: char) -> char {
    if 'A' <= c <= 'Z' {
        (c as u32 + 32) as char
    } else {
        c
    }
}

/// `str::to_ascii_lowercase`.
pub fn lower_of(s: &str) -> (out: String)
    ensures
        out@ == s@.map_values(|c: char| lower_char(c)),
{
    let cs = to_chars(s);
    let mut out = String::new();
    let mut i: usize = 0;
    while i < cs.len()
        invariant
            i <= cs@.len(),
            out@ == cs@.take(i as int).map_values(|c: char| lower_char(c)),
        decreases cs@.len() - i,
    {
        let c: char = cs[i];
        let l: char = if 'A' <= c && c <= 'Z' {
            (c as u8 + 32) as char
        } else {
            c
        };
        out.push(l);
        i = i + 1;
        proof {
            assert(out@ =~= cs@.take(i as int).map_values(|c: char| lower_char(c)));
        }
    }
    proof {
        assert(cs@.take(i as int) =~= s@);
    }
    out
}

/// `str::from_utf8`: the text that some bytes encode, if they are UTF-8.
#[verifier::external_body]
pub(crate) fn utf8_text(bytes: &[u8]) -> (out: Option<String>)
    ensures
        match out {
            Some(s) => vstd::utf8::valid_utf8(bytes@) && s@ == vstd::utf8::decode_utf8(bytes@),
            None => !vstd::utf8::valid_utf8(bytes@),
        },
{
    std::str::from_utf8(bytes).ok().map(|s| s.to_owned())
}

/// The text that some bytes encode, with `mark` for each byte that begins no
/// character.
pub open spec fn marked(bytes: Seq<u8>, mark: char) -> Seq<char>
    decreases bytes.len(),
{
    if bytes.len() == 0 {
        Seq::empty()
    } else if vstd::utf8::valid_first_scalar(bytes) {
        seq![vstd::utf8::decode_first_scalar(bytes) as char] + marked(
            vstd::utf8::pop_first_scalar(bytes),
            mark,
        )
    } else {
        seq![mark] + marked(bytes.skip(1), mark)
    }
}

proof fn lemma_first_scalar(bytes: Seq<u8>, n: int)
    requires
        1 <= n <= bytes.len(),
    ensures
        vstd::utf8::valid_first_scalar(bytes) && vstd::utf8::length_of_first_scalar(bytes) == n
            ==> vstd::utf8::valid_utf8(bytes.take(n)) && vstd::utf8::decode_utf8(bytes.take(n))
            == seq![vstd::utf8::decode_first_scalar(bytes) as char],
        vstd::utf8::valid_utf8(bytes.take(n)) ==> vstd::utf8::valid_first_scalar(bytes)
            && vstd::utf8::length_of_first_scalar(bytes) <= n,
{
    let head = bytes.take(n);
    assert(forall|j: int| 0 <= j < n ==> head[j] == bytes[j]);
    if vstd::utf8::valid_first_scalar(bytes) && vstd::utf8::length_of_first_scalar(bytes) == n {
        assert(vstd::utf8::valid_first_scalar(head));
        assert(vstd::utf8::pop_first_scalar(head) =~= Seq::<u8>::empty());
        assert(vstd::utf8::valid_utf8(Seq::<u8>::empty()));
        assert(vstd::utf8::decode_utf8(Seq::<u8>::empty()) =~= Seq::<char>::empty());
        assert(vstd::utf8::decode_utf8(head) =~= seq![
            vstd::utf8::decode_first_scalar(bytes) as char,
        ]);
    }
}

/// The character that some bytes begin with, and how many bytes it takes.
fn first_character(bytes: &[u8]) -> (r: Option<(String, usize)>)
    ensures
        match r {
            Some((c, n)) => 1 <= n <= bytes@.len() && vstd::utf8::valid_first_scalar(bytes@) && n
                == vstd::utf8::length_of_first_scalar(bytes@) && c@ == seq![
                vstd::utf8::decode_first_scalar(bytes@) as char,
            ],
            None => bytes@.len() == 0 || !vstd::utf8::valid_first_scalar(bytes@),
        },
{
    let mut n: usize = 1;
    while n <= 4 && n <= bytes.len()
        invariant
            1 <= n <= 5,
            vstd::utf8::valid_first_scalar(bytes@) ==> vstd::utf8::length_of_first_scalar(bytes@)
                >= n,
        decreases 5 - n,
    {
        proof {
            lemma_first_scalar(bytes@, n as int);
        }
        match utf8_text(slice_subrange(bytes, 0, n)) {
            Some(c) => return Some((c, n)),
            None => {},
        }
        n = n + 1;
    }
    None
}

/// The text that some bytes encode, with `mark` for each byte that begins no
/// character.
pub(crate) fn mark_text(bytes: &[u8], mark: char) -> (out: String)
    ensures
        out@ == marked(bytes@, mark),
{
    let mut out = String::new();
    let mut i: usize = 0;
    proof {
        assert(bytes@.skip(0) =~= bytes@);
        assert(out@ + marked(bytes@.skip(0), mark) =~= marked(bytes@, mark));
    }
    while i < bytes.len()
        invariant
            i <= bytes@.len(),
            out@ + marked(bytes@.skip(i as int), mark) == marked(bytes@, mark),
        decreases bytes@.len() - i,
    {
        let ghost rest = bytes@.skip(i as int);
        let ghost before = out@;
        let tail = slice_subrange(bytes, i, bytes.len());
        proof {
            assert(tail@ =~= rest);
        }
        match first_character(tail) {
            Some((c, n)) => {
                out.append(c.as_str());
                i = i + n;
                proof {
                    assert(vstd::utf8::pop_first_scalar(rest) =~= bytes@.skip(i as int));
                    assert(out@ + marked(bytes@.skip(i as int), mark) =~= before + marked(
                        rest,
                        mark,
                    ));
                }
            },
            None => {
                out.push(mark);
                i = i + 1;
                proof {
                    assert(rest.skip(1) =~= bytes@.skip(i as int));
                    assert(out@ + marked(bytes@.skip(i as int), mark) =~= before + marked(
                        rest,
                        mark,
                    ));
                }
            },
        }
    }
    proof {
        assert(out@ + marked(bytes@.skip(i as int), mark) =~= out@);
    }
    out
}

/// What `String::from_utf8_lossy` makes of some bytes.
pub uninterp spec fn lossy(bytes: Seq<u8>) -> Seq<char>;

/// `String::from_utf8_lossy`: the text that the bytes encode; where they are
/// not UTF-8, a text with replacement characters, which is a function of the
/// bytes and not described further.
#[verifier::external_body]
pub(crate) fn lossy_text(bytes: &[u8]) -> (out: String)
    ensures
        out@ == lossy(bytes@),
        vstd::utf8::valid_utf8(bytes@) ==> out@ == vstd::utf8::decode_utf8(bytes@),
{
    String::from_utf8_lossy(bytes).into_owned()
}

/// The bytes of a text behind its first `k` characters are the bytes of what
/// stands behind them.
proof fn lemma_bytes_of_tail(s: Seq<char>, k: int)
    requires
        0 <= k <= s.len(),
    ensures
        ({
            let bytes = vstd::utf8::encode_utf8(s);
            let n = vstd::utf8::encode_utf8(s.take(k)).len() as int;
            &&& n <= bytes.len()
            &&& vstd::utf8::is_char_boundary(bytes, n)
            &&& bytes.subrange(n, bytes.len() as int) == vstd::utf8::encode_utf8(s.skip(k))
        }),
    decreases k,
{
    let bytes = vstd::utf8::encode_utf8(s);
    vstd::utf8::encode_utf8_valid_utf8(s);
    if k == 0 {
        assert(s.take(0) =~= Seq::<char>::empty());
        assert(s.skip(0) =~= s);
        assert(bytes.subrange(0, bytes.len() as int) =~= bytes);
    } else {
        vstd::utf8::encode_utf8_first_scalar(s);
        lemma_bytes_of_tail(s.drop_first(), k - 1);
        let rest = vstd::utf8::encode_utf8(s.drop_first());
        let n = vstd::utf8::encode_utf8(s.take(k)).len() as int;
        let m = vstd::utf8::encode_utf8(s.drop_first().take(k - 1)).len() as int;
        assert(s.take(k).drop_first() =~= s.drop_first().take(k - 1));
        assert(s.drop_first().skip(k - 1) =~= s.skip(k));
        assert(vstd::utf8::pop_first_scalar(bytes) =~= rest);
        assert(n == m + vstd::utf8::length_of_first_scalar(bytes));
        assert(bytes.subrange(n, bytes.len() as int) =~= rest.subrange(m, rest.len() as int));
    }
}

/// The part of a text behind its first `k` characters.
pub fn tail_of(s: &str, k: usize) -> (out: &str)
    requires
        k <= s@.len(),
    ensures
        out@ == s@.skip(k as int),
{
    let cs = to_chars(s);
    let head = slice_text(&cs, 0, k);
    proof {
        lemma_bytes_of_tail(s@, k as int);
        assert(head@ =~= s@.take(k as int));
    }
    let out = s.split_at(head.as_str().as_bytes().len()).1;
    proof {
        vstd::utf8::encode_utf8_decode_utf8(out@);
        vstd::utf8::encode_utf8_decode_utf8(s@.skip(k as int));
    }
    out
}

/// A text cut at every `c` is cut at each of them alike.
pub proof fn pieces_stand_side_by_side(a: Seq<char>, b: Seq<char>, c: char)
    ensures
        pieces(a + seq![c] + b, c) == pieces(a, c) + pieces(b, c),
    decreases b.len(),
{
    let all = a + seq![c] + b;
    if b.len() == 0 {
        assert(all.drop_last() =~= a);
        assert(b =~= Seq::empty());
        assert(pieces(all, c) =~= pieces(a, c) + pieces(b, c));
    } else {
        let t = b.drop_last();
        assert(all.drop_last() =~= a + seq![c] + t);
        pieces_stand_side_by_side(a, t, c);
        lemma_pieces_len(t, c);
        assert(pieces(all, c) =~= pieces(a, c) + pieces(b, c));
    }
}

/// Trimming at the end takes away every trailing `c` and nothing else.
pub proof fn trim_end_takes_the_trailing(s: Seq<char>, c: char)
    ensures
        trim_end(s, c).is_prefix_of(s),
        forall|i: int| trim_end(s, c).len() <= i < s.len() ==> s[i] == c,
        trim_end(s, c).len() > 0 ==> trim_end(s, c).last() != c,
        trim_end(s.push(c), c) == trim_end(s, c),
    decreases s.len(),
{
    assert(s.push(c).drop_last() =~= s);
    if s.len() > 0 && s.last() == c {
        trim_end_takes_the_trailing(s.drop_last(), c);
        let t = trim_end(s, c);
        assert(t =~= s.subrange(0, t.len() as int)) by {
            assert(t =~= s.drop_last().subrange(0, t.len() as int));
        }
        assert forall|i: int| t.len() <= i < s.len() implies s[i] == c by {
            if i < s.len() - 1 {
                assert(s.drop_last()[i] == s[i]);
            }
        }
    } else {
        assert(s =~= s.subrange(0, s.len() as int));
    }
}

/// Trimming at the start takes away every leading `c` and nothing else.
pub proof fn trim_start_takes_the_leading(s: Seq<char>, c: char)
    ensures
        trim_start(s, c).is_suffix_of(s),
        forall|i: int| 0 <= i < s.len() - trim_start(s, c).len() ==> s[i] == c,
        trim_start(s, c).len() > 0 ==> trim_start(s, c)[0] != c,
        trim_start(seq![c] + s, c) == trim_start(s, c),
    decreases s.len(),
{
    assert((seq![c] + s).skip(1) =~= s);
    if s.len() > 0 && s[0] == c {
        trim_start_takes_the_leading(s.skip(1), c);
        let t = trim_start(s, c);
        assert(t =~= s.subrange(s.len() - t.len(), s.len() as int)) by {
            let r = s.skip(1);
            assert(t =~= r.subrange(r.len() - t.len(), r.len() as int));
        }
        assert forall|i: int| 0 <= i < s.len() - t.len() implies s[i] == c by {
            if i > 0 {
                assert(s.skip(1)[i - 1] == s[i]);
            }
        }
    } else {
        assert(s =~= s.subrange(0, s.len() as int));
    }
}

/// What follows the last `c` ends the text, holds no `c`, and has one before
/// it unless it is all of the text.
pub proof fn after_last_is_the_last_segment(s: Seq<char>, c: char)
    ensures
        after_last(s, c).is_suffix_of(s),
        !after_last(s, c).contains(c),
        after_last(s, c).len() == s.len() || s[s.len() - after_last(s, c).len() - 1] == c,
    decreases s.len(),
{
    let t = after_last(s, c);
    if s.len() == 0 || s.last() == c {
        assert(t =~= s.subrange(s.len() as int, s.len() as int));
    } else {
        let r = s.drop_last();
        after_last_is_the_last_segment(r, c);
        let u = after_last(r, c);
        assert(u =~= r.subrange(r.len() - u.len(), r.len() as int));
        assert(t =~= s.subrange(s.len() - t.len(), s.len() as int));
        assert forall|i: int| 0 <= i < t.len() implies t[i] != c by {
            if i < u.len() {
                assert(u.contains(u[i]));
            }
        }
    }
}

/// A text cut at its first `c` is what stands before it, `c`, and what stands
/// after it; and it is cut if it holds a `c`.
pub proof fn split_once_cuts_at_the_first(s: Seq<char>, c: char)
    ensures
        split_once(s, c) is Some <==> s.contains(c),
        split_once(s, c) matches Some((a, b)) ==> s == a + seq![c] + b && !a.contains(c),
        forall|a: Seq<char>, b: Seq<char>|
            !a.contains(c) && s == #[trigger] (a + seq![c] + b) ==> split_once(s, c) == Some((a, b)),
{
    lemma_first_index(s, c);
    let k = first_index(s, c);
    if s.contains(c) {
        let a = s.take(k);
        let b = s.skip(k + 1);
        assert(s =~= a + seq![c] + b);
        assert forall|i: int| 0 <= i < a.len() implies a[i] != c by {
            assert(a[i] == s[i]);
        }
    }
    assert forall|a: Seq<char>, b: Seq<char>|
        !a.contains(c) && s == #[trigger] (a + seq![c] + b) implies split_once(s, c) == Some(
        (a, b),
    ) by {
        let n = a.len() as int;
        assert(s[n] == c);
        assert(s.contains(s[n]));
        if k < n {
            assert(a[k] == s[k]);
            assert(a.contains(a[k]));
        }
        if n < k {
            assert(s[n] != c);
        }
        assert(s.take(n) =~= a);
        assert(s.skip(n + 1) =~= b);
    }
}

/// Where `pat` stands for the first time, `to` takes its place, and the rest
/// is gone through likewise; a text without `pat` stays as it is.
pub proof fn replacing_puts_in_place(
    a: Seq<char>,
    pat: Seq<char>,
    b: Seq<char>,
    to: Seq<char>,
)
    requires
        pat.len() > 0,
        forall|i: int| 0 <= i < a.len() ==> !pat.is_prefix_of(#[trigger] (a + pat + b).skip(i)),
    ensures
        replace_all(a + pat + b, pat, to) == a + to + replace_all(b, pat, to),
    decreases a.len(),
{
    let s = a + pat + b;
    if a.len() == 0 {
        assert(pat =~= s.subrange(0, pat.len() as int));
        assert(s.skip(pat.len() as int) =~= b);
        assert(a + to + replace_all(b, pat, to) =~= to + replace_all(b, pat, to));
    } else {
        assert(s.skip(0) =~= s);
        assert(!pat.is_prefix_of(s.skip(0)));
        let t = a.skip(1);
        assert(s.skip(1) =~= t + pat + b);
        assert forall|i: int| 0 <= i < t.len() implies !pat.is_prefix_of(
            #[trigger] (t + pat + b).skip(i),
        ) by {
            assert((t + pat + b).skip(i) =~= s.skip(i + 1));
        }
        replacing_puts_in_place(t, pat, b, to);
        assert(seq![s[0]] + (t + to + replace_all(b, pat, to)) =~= a + to + replace_all(
            b,
            pat,
            to,
        ));
    }
}

/// A text that holds no `pat` stays as it is.
pub proof fn replacing_keeps_the_rest(s: Seq<char>, pat: Seq<char>, to: Seq<char>)
    requires
        forall|i: int| 0 <= i < s.len() ==> !pat.is_prefix_of(#[trigger] s.skip(i)),
    ensures
        replace_all(s, pat, to) == s,
    decreases s.len(),
{
    if s.len() > 0 && pat.len() > 0 {
        assert(s.skip(0) =~= s);
        assert(!pat.is_prefix_of(s.skip(0)));
        let t = s.skip(1);
        assert forall|i: int| 0 <= i < t.len() implies !pat.is_prefix_of(#[trigger] t.skip(i)) by {
            assert(t.skip(i) =~= s.skip(i + 1));
        }
        replacing_keeps_the_rest(t, pat, to);
        assert(seq![s[0]] + t =~= s);
    }
}

/// A text cut at every `c` is its pieces with `c` between them, and no piece
/// holds a `c`.
pub proof fn pieces_make_up_the_text(s: Seq<char>, c: char)
    ensures
        pieces(s, c).len() >= 1,
        forall|i: int| 0 <= i < pieces(s, c).len() ==> !(#[trigger] pieces(s, c)[i]).contains(c),
        crate::oidc::separated(pieces(s, c), seq![c]) == s,
    decreases s.len(),
{
    let ps = pieces(s, c);
    if s.len() == 0 {
        assert(crate::oidc::separated(ps, seq![c]) =~= s);
    } else {
        let t = s.drop_last();
        pieces_make_up_the_text(t, c);
        let head = pieces(t, c);
        let d = s.last();
        if d == c {
            assert(ps.drop_last() =~= head);
            assert(ps.last() == Seq::<char>::empty());
            assert(t + seq![c] + Seq::<char>::empty() =~= s);
            assert forall|i: int| 0 <= i < ps.len() implies !(#[trigger] ps[i]).contains(c) by {
                if i < head.len() {
                    assert(ps[i] == head[i]);
                }
            }
        } else {
            assert(ps.drop_last() =~= head.drop_last());
            assert(ps.last() == head.last().push(d));
            assert(!head[head.len() - 1].contains(c));
            assert forall|i: int| 0 <= i < ps.len() implies !(#[trigger] ps[i]).contains(c) by {
                if i < head.len() - 1 {
                    assert(ps[i] == head[i]);
                } else {
                    let l = head.last();
                    assert forall|j: int| 0 <= j < ps[i].len() implies ps[i][j] != c by {
                        if j < l.len() {
                            assert(l.contains(l[j]));
                        }
                    }
                }
            }
            assert(crate::oidc::separated(ps, seq![c]) =~= s) by {
                if head.len() == 1 {
                    assert(head.last() =~= t);
                } else {
                    let front = crate::oidc::separated(head.drop_last(), seq![c]);
                    assert(t =~= front + seq![c] + head.last());
                    assert(front + seq![c] + head.last().push(d) =~= (front + seq![c]
                        + head.last()).push(d));
                }
                assert(t.push(d) =~= s);
            }
        }
    }
}

} // verus!
