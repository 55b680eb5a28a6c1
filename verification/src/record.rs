//! Reading a record with named fields from JSON text: as an object, whose
//! members may stand in any order, or as an array with the fields in order.

use crate::json::{read_array, read_integer, read_object, read_string};
use crate::text::{mark_text, same_text, to_chars, utf8_text};
use vstd::prelude::*;

verus! {

/// Whether `c` may stand between the tokens of JSON text.
pub open spec fn is_blank(c: char) -> bool {
    c == ' ' || c == '\t' || c == '\n' || c == '\r'
}

/// Whether the first character of `s` that is not blank is `c`.
pub open spec fn opens_with(s: Seq<char>, c: char) -> bool
    decreases s.len(),
{
    s.len() > 0 && (s[0] == c || (is_blank(s[0]) && opens_with(s.skip(1), c)))
}

/// The value of the first member of that name.
pub open spec fn lookup(m: Seq<(Seq<char>, Seq<char>)>, name: Seq<char>) -> Option<Seq<char>>
    decreases m.len(),
{
    if m.len() == 0 {
        None
    } else if m[0].0 == name {
        Some(m[0].1)
    } else {
        lookup(m.skip(1), name)
    }
}

/// Whether two members have that name.
pub open spec fn repeats(m: Seq<(Seq<char>, Seq<char>)>, name: Seq<char>) -> bool {
    exists|i: int, j: int| 0 <= i < j < m.len() && m[i].0 == name && m[j].0 == name
}

/// Whether two members have one of the names.
pub open spec fn any_repeats(m: Seq<(Seq<char>, Seq<char>)>, names: Seq<Seq<char>>) -> bool {
    exists|k: int| 0 <= k < names.len() && repeats(m, #[trigger] names[k])
}

/// The source texts of the fields of a record, `None` for a field that is
/// absent; none at all if the text is no such record. In an object no field
/// may stand twice, and other members are passed over. In an array the fields
/// stand in order; the fields behind the first `least` may be absent.
pub open spec fn record(text: Seq<char>, names: Seq<Seq<char>>, least: nat) -> Option<
    Seq<Option<Seq<char>>>,
> {
    if opens_with(text, '[') {
        match crate::json::array_items(text) {
            Ok(items) if least <= items.len() <= names.len() => Some(
                Seq::new(
                    names.len(),
                    |i: int|
                        if i < items.len() {
                            Some(items[i])
                        } else {
                            None
                        },
                ),
            ),
            _ => None,
        }
    } else {
        match crate::json::object_members(text) {
            Ok(m) if !any_repeats(m, names) => Some(names.map_values(|n: Seq<char>| lookup(m, n))),
            _ => None,
        }
    }
}

pub(crate) fn opens_with_of(s: &str, c: char) -> (yes: bool)
    ensures
        yes == opens_with(s@, c),
{
    let cs = to_chars(s);
    let mut i: usize = 0;
    proof {
        assert(cs@.skip(0) =~= s@);
    }
    while i < cs.len()
        invariant
            i <= cs@.len(),
            opens_with(s@, c) == opens_with(cs@.skip(i as int), c),
        decreases cs@.len() - i,
    {
        let d: char = cs[i];
        if d == c {
            return true;
        }
        if !(d == ' ' || d == '\t' || d == '\n' || d == '\r') {
            return false;
        }
        proof {
            assert(cs@.skip(i as int).skip(1) =~= cs@.skip(i + 1));
        }
        i = i + 1;
    }
    false
}

proof fn lemma_lookup(m: Seq<(Seq<char>, Seq<char>)>, name: Seq<char>, k: int)
    requires
        0 <= k <= m.len(),
        forall|i: int| 0 <= i < k ==> m[i].0 != name,
        k < m.len() ==> m[k].0 == name,
    ensures
        lookup(m, name) == (if k < m.len() {
            Some(m[k].1)
        } else {
            None
        }),
    decreases k,
{
    if k > 0 {
        assert(m.len() > 0 && m[0].0 != name);
        assert forall|i: int| 0 <= i < k - 1 implies m.skip(1)[i].0 != name by {
            assert(m.skip(1)[i] == m[i + 1]);
        }
        lemma_lookup(m.skip(1), name, k - 1);
    }
}

/// The value of the only member of that name; an error if there are two.
fn single_member(m: &Vec<(String, String)>, name: &str) -> (r: Result<Option<String>, ()>)
    ensures
        match r {
            Ok(v) => !repeats(crate::json::pair_texts(m@), name@) && crate::text::opt_view(v)
                == lookup(crate::json::pair_texts(m@), name@),
            Err(_) => repeats(crate::json::pair_texts(m@), name@),
        },
{
    let ghost all = crate::json::pair_texts(m@);
    let mut found: Option<String> = None;
    let ghost mut at: int = 0;
    let mut i: usize = 0;
    while i < m.len()
        invariant
            i <= m@.len(),
            all == crate::json::pair_texts(m@),
            match found {
                Some(v) => 0 <= at < i && all[at].0 == name@ && all[at].1 == v@ && forall|j: int|
                    0 <= j < i && j != at ==> (#[trigger] all[j]).0 != name@,
                None => forall|j: int| 0 <= j < i ==> (#[trigger] all[j]).0 != name@,
            },
        decreases m@.len() - i,
    {
        proof {
            assert(all[i as int] == (m@[i as int].0@, m@[i as int].1@));
        }
        if same_text(m[i].0.as_str(), name) {
            if found.is_some() {
                proof {
                    assert(all[at].0 == name@ && all[i as int].0 == name@);
                }
                return Err(());
            }
            found = Some(m[i].1.clone());
            proof {
                at = i as int;
            }
        }
        i = i + 1;
    }
    proof {
        if found is Some {
            lemma_lookup(all, name@, at);
        } else {
            lemma_lookup(all, name@, m@.len() as int);
        }
        if repeats(all, name@) {
            let (a, b) = choose|a: int, b: int|
                0 <= a < b < all.len() && all[a].0 == name@ && all[b].0 == name@;
            assert(all[a].0 == name@ && all[b].0 == name@);
        }
    }
    Ok(found)
}

/// Names, as characters.
pub open spec fn name_texts(names: Seq<&str>) -> Seq<Seq<char>> {
    names.map_values(|n: &str| n@)
}

/// Fields, as characters.
pub open spec fn field_texts(fields: Seq<Option<String>>) -> Seq<Option<Seq<char>>> {
    fields.map_values(|f: Option<String>| crate::text::opt_view(f))
}

/// Whether an object has the fields named, each once and in order, and no
/// other member.
pub open spec fn has_fields(
    m: Seq<(Seq<char>, crate::json::Json)>,
    names: Seq<Seq<char>>,
) -> bool {
    &&& m.len() == names.len()
    &&& forall|i: int| 0 <= i < m.len() ==> (#[trigger] m[i]).0 == names[i]
    &&& forall|i: int, j: int| 0 <= i < j < names.len() ==> names[i] != names[j]
}

/// The fields of an object, each written out.
pub open spec fn written_fields(m: Seq<(Seq<char>, crate::json::Json)>) -> Seq<Option<Seq<char>>> {
    m.map_values(|p: (Seq<char>, crate::json::Json)| Some(crate::json::json_text(p.1)))
}

/// The fields of a written object are found again.
proof fn lemma_written_fields(m: Seq<(Seq<char>, crate::json::Json)>, names: Seq<Seq<char>>)
    requires
        has_fields(m, names),
    ensures
        forall|k: int|
            0 <= k < names.len() ==> !repeats(
                crate::json::written_members(m),
                #[trigger] names[k],
            ),
        names.map_values(|n: Seq<char>| lookup(crate::json::written_members(m), n))
            == written_fields(m),
{
    let all = crate::json::written_members(m);
    assert forall|k: int| 0 <= k < names.len() implies !repeats(all, #[trigger] names[k])
        && lookup(all, names[k]) == Some(crate::json::json_text(m[k].1)) by {
        assert forall|i: int| 0 <= i < all.len() implies (#[trigger] all[i]).0 == names[i] by {
            assert(all[i].0 == m[i].0);
        }
        lemma_lookup(all, names[k], k);
        assert(all[k].1 == crate::json::json_text(m[k].1));
    }
    assert(names.map_values(|n: Seq<char>| lookup(all, n)) =~= written_fields(m));
}

/// The source texts of the fields of a record; a record that was written is
/// read back.
pub(crate) fn read_record(text: &str, names: &Vec<&str>, least: usize) -> (r: Option<
    Vec<Option<String>>,
>)
    ensures
        match r {
            Some(fields) => record(text@, name_texts(names@), least as nat) == Some(
                field_texts(fields@),
            ) && fields@.len() == names@.len(),
            None => record(text@, name_texts(names@), least as nat) is None,
        },
        forall|m: Seq<(Seq<char>, crate::json::Json)>|
            text@ == #[trigger] crate::json::json_text(crate::json::Json::Object(m)) && has_fields(
                m,
                name_texts(names@),
            ) ==> r is Some && field_texts(r->0@) == written_fields(m),
{
    let ghost wanted = name_texts(names@);
    let mut fields: Vec<Option<String>> = Vec::new();
    let mut i: usize = 0;
    proof {
        assert forall|m: Seq<(Seq<char>, crate::json::Json)>| #[trigger]
            crate::json::json_text(crate::json::Json::Object(m))[0] == '{' by {}
    }
    if opens_with_of(text, '[') {
        let items = match read_array(text) {
            Ok(items) => items,
            Err(_) => return None,
        };
        if items.len() < least || items.len() > names.len() {
            return None;
        }
        let ghost all = crate::text::texts(items@);
        while i < names.len()
            invariant
                i <= names@.len(),
                all == crate::text::texts(items@),
                fields@.len() == i,
                forall|j: int|
                    0 <= j < i ==> crate::text::opt_view(#[trigger] fields@[j]) == (if j
                        < all.len() {
                        Some(all[j])
                    } else {
                        None
                    }),
            decreases names@.len() - i,
        {
            if i < items.len() {
                fields.push(Some(items[i].clone()));
            } else {
                fields.push(None);
            }
            i = i + 1;
        }
        proof {
            let expected = Seq::new(
                wanted.len(),
                |i: int|
                    if i < all.len() {
                        Some(all[i])
                    } else {
                        None
                    },
            );
            assert(field_texts(fields@) =~= expected);
        }
        Some(fields)
    } else {
        let members = match read_object(text) {
            Ok(members) => members,
            Err(_) => return None,
        };
        let ghost all = crate::json::pair_texts(members@);
        proof {
            assert forall|m: Seq<(Seq<char>, crate::json::Json)>|
                text@ == #[trigger] crate::json::json_text(crate::json::Json::Object(m))
                    && has_fields(m, wanted) implies !any_repeats(all, wanted)
                && wanted.map_values(|n: Seq<char>| lookup(all, n)) == written_fields(m) by {
                lemma_written_fields(m, wanted);
            }
        }
        while i < names.len()
            invariant
                i <= names@.len(),
                all == crate::json::pair_texts(members@),
                wanted == name_texts(names@),
                fields@.len() == i,
                !opens_with(text@, '['),
                crate::json::object_members(text@) == Ok::<_, Seq<char>>(all),
                forall|j: int|
                    0 <= j < i ==> crate::text::opt_view(#[trigger] fields@[j]) == lookup(
                        all,
                        wanted[j],
                    ),
                forall|j: int| 0 <= j < i ==> !repeats(all, #[trigger] wanted[j]),
                forall|m: Seq<(Seq<char>, crate::json::Json)>|
                    text@ == #[trigger] crate::json::json_text(crate::json::Json::Object(m))
                        && has_fields(m, wanted) ==> !any_repeats(all, wanted),
            decreases names@.len() - i,
        {
            proof {
                assert(wanted[i as int] == names@[i as int]@);
            }
            match single_member(&members, names[i]) {
                Ok(v) => {
                    fields.push(v);
                },
                Err(_) => {
                    proof {
                        assert(repeats(all, wanted[i as int]));
                        assert(any_repeats(all, wanted));
                    }
                    return None;
                },
            }
            i = i + 1;
        }
        proof {
            assert(field_texts(fields@) =~= wanted.map_values(|n: Seq<char>| lookup(all, n)));
        }
        Some(fields)
    }
}

/// The names of the members of an object, in order; none of an array.
pub open spec fn member_names(text: Seq<char>) -> Option<Seq<Seq<char>>> {
    if opens_with(text, '[') {
        Some(Seq::empty())
    } else {
        match crate::json::object_members(text) {
            Err(_) => None,
            Ok(m) => Some(m.map_values(|p: (Seq<char>, Seq<char>)| p.0)),
        }
    }
}

/// The source texts of the fields of a record in some bytes. The names of the
/// members and the fields must be UTF-8; in what is passed over, other bytes
/// may stand within a string. That is told apart by setting two different
/// marks in turn for the bytes that are not UTF-8: the record stands if it
/// reads the same under both.
pub open spec fn record_in(bytes: Seq<u8>, names: Seq<Seq<char>>, least: nat) -> Option<
    Seq<Option<Seq<char>>>,
> {
    let one = crate::text::marked(bytes, '\u{E000}');
    let other = crate::text::marked(bytes, '\u{E001}');
    if vstd::utf8::valid_utf8(bytes) {
        record(vstd::utf8::decode_utf8(bytes), names, least)
    } else if record(one, names, least) == record(other, names, least) && member_names(one)
        == member_names(other) {
        record(one, names, least)
    } else {
        None
    }
}

/// The names of the members of an object, in order; none of an array.
fn read_member_names(text: &str) -> (r: Option<Vec<String>>)
    ensures
        match r {
            Some(names) => member_names(text@) == Some(crate::text::texts(names@)),
            None => member_names(text@) is None,
        },
{
    let mut names: Vec<String> = Vec::new();
    if opens_with_of(text, '[') {
        proof {
            assert(crate::text::texts(names@) =~= Seq::empty());
        }
        return Some(names);
    }
    let members = match read_object(text) {
        Ok(members) => members,
        Err(_) => return None,
    };
    let ghost all = crate::json::pair_texts(members@);
    let mut i: usize = 0;
    while i < members.len()
        invariant
            i <= members@.len(),
            all == crate::json::pair_texts(members@),
            names@.len() == i,
            forall|j: int| 0 <= j < i ==> (#[trigger] names@[j])@ == all[j].0,
        decreases members@.len() - i,
    {
        names.push(members[i].0.clone());
        i = i + 1;
    }
    proof {
        assert(crate::text::texts(names@) =~= all.map_values(|p: (Seq<char>, Seq<char>)| p.0));
    }
    Some(names)
}

fn same_texts(a: &Vec<String>, b: &Vec<String>) -> (yes: bool)
    ensures
        yes == (crate::text::texts(a@) == crate::text::texts(b@)),
{
    let ghost s = crate::text::texts(a@);
    let ghost t = crate::text::texts(b@);
    if a.len() != b.len() {
        proof {
            assert(s.len() != t.len());
        }
        return false;
    }
    let mut i: usize = 0;
    while i < a.len()
        invariant
            i <= a@.len(),
            a@.len() == b@.len(),
            s == crate::text::texts(a@),
            t == crate::text::texts(b@),
            forall|j: int| 0 <= j < i ==> s[j] == t[j],
        decreases a@.len() - i,
    {
        if !same_text(a[i].as_str(), b[i].as_str()) {
            proof {
                assert(s[i as int] != t[i as int]);
            }
            return false;
        }
        i = i + 1;
    }
    proof {
        assert(s =~= t);
    }
    true
}

fn same_fields(a: &Vec<Option<String>>, b: &Vec<Option<String>>) -> (yes: bool)
    ensures
        yes == (field_texts(a@) == field_texts(b@)),
{
    let ghost s = field_texts(a@);
    let ghost t = field_texts(b@);
    if a.len() != b.len() {
        proof {
            assert(s.len() != t.len());
        }
        return false;
    }
    let mut i: usize = 0;
    while i < a.len()
        invariant
            i <= a@.len(),
            a@.len() == b@.len(),
            s == field_texts(a@),
            t == field_texts(b@),
            forall|j: int| 0 <= j < i ==> s[j] == t[j],
        decreases a@.len() - i,
    {
        let same = match (&a[i], &b[i]) {
            (Some(x), Some(y)) => same_text(x.as_str(), y.as_str()),
            (None, None) => true,
            _ => false,
        };
        if !same {
            proof {
                assert(s[i as int] != t[i as int]);
            }
            return false;
        }
        i = i + 1;
    }
    proof {
        assert(s =~= t);
    }
    true
}

/// The source texts of the fields of a record in some bytes; a record that
/// was written is read back.
pub(crate) fn read_record_in(bytes: &[u8], names: &Vec<&str>, least: usize) -> (r: Option<
    Vec<Option<String>>,
>)
    ensures
        match r {
            Some(fields) => record_in(bytes@, name_texts(names@), least as nat) == Some(
                field_texts(fields@),
            ) && fields@.len() == names@.len(),
            None => record_in(bytes@, name_texts(names@), least as nat) is None,
        },
        forall|m: Seq<(Seq<char>, crate::json::Json)>|
            bytes@ == vstd::utf8::encode_utf8(
                #[trigger] crate::json::json_text(crate::json::Json::Object(m)),
            ) && has_fields(m, name_texts(names@)) ==> r is Some && field_texts(r->0@)
                == written_fields(m),
{
    proof {
        assert forall|m: Seq<(Seq<char>, crate::json::Json)>|
            bytes@ == vstd::utf8::encode_utf8(
                #[trigger] crate::json::json_text(crate::json::Json::Object(m)),
            ) implies vstd::utf8::valid_utf8(bytes@) && vstd::utf8::decode_utf8(bytes@)
            == crate::json::json_text(crate::json::Json::Object(m)) by {
            vstd::utf8::encode_utf8_valid_utf8(
                crate::json::json_text(crate::json::Json::Object(m)),
            );
            vstd::utf8::encode_utf8_decode_utf8(
                crate::json::json_text(crate::json::Json::Object(m)),
            );
        }
    }
    match utf8_text(bytes) {
        Some(text) => return read_record(text.as_str(), names, least),
        None => {},
    }
    let one = mark_text(bytes, '\u{E000}');
    let other = mark_text(bytes, '\u{E001}');
    match (
        read_record(one.as_str(), names, least),
        read_record(other.as_str(), names, least),
        read_member_names(one.as_str()),
        read_member_names(other.as_str()),
    ) {
        (Some(fields), Some(f), Some(a), Some(b)) => if same_fields(&fields, &f) && same_texts(
            &a,
            &b,
        ) {
            Some(fields)
        } else {
            None
        },
        _ => None,
    }
}

/// A field that holds a text.
pub open spec fn text_field(f: Option<Seq<char>>) -> Option<Seq<char>> {
    match f {
        None => None,
        Some(t) => match crate::json::string_value(t) {
            Ok(s) => Some(s),
            Err(_) => None,
        },
    }
}

/// A field that holds a text or `null`, or is absent.
pub open spec fn optional_text_field(f: Option<Seq<char>>) -> Option<Option<Seq<char>>> {
    match f {
        None => Some(None),
        Some(t) => if t == "null"@ {
            Some(None)
        } else {
            match crate::json::string_value(t) {
                Ok(s) => Some(Some(s)),
                Err(_) => None,
            }
        },
    }
}

/// A field that holds an integer.
pub open spec fn integer_field(f: Option<Seq<char>>) -> Option<i64> {
    match f {
        None => None,
        Some(t) => match crate::json::integer_value(t) {
            Ok(n) => Some(n),
            Err(_) => None,
        },
    }
}

/// Reads a field that holds a text; a text that was written is read back.
pub(crate) fn read_text_field(f: &Option<String>) -> (r: Option<String>)
    ensures
        crate::text::opt_view(r) == text_field(crate::text::opt_view(*f)),
        forall|s: Seq<char>|
            crate::text::opt_view(*f) == Some(#[trigger] crate::json::quoted(s)) ==> r is Some
                && r->0@ == s,
{
    match f {
        None => None,
        Some(t) => read_string(t.as_str()).ok(),
    }
}

/// Reads a field that holds a text or `null`; what was written is read back.
pub(crate) fn read_optional_text_field(f: &Option<String>) -> (r: Option<Option<String>>)
    ensures
        match r {
            Some(o) => optional_text_field(crate::text::opt_view(*f)) == Some(
                crate::text::opt_view(o),
            ),
            None => optional_text_field(crate::text::opt_view(*f)) is None,
        },
        forall|o: Option<Seq<char>>|
            crate::text::opt_view(*f) == Some(
                crate::json::json_text(#[trigger] crate::json::optional(o)),
            ) ==> r is Some && crate::text::opt_view(r->0) == o,
{
    proof {
        reveal_strlit("null");
        assert forall|s: Seq<char>| #[trigger] crate::json::quoted(s) != "null"@ by {
            assert(crate::json::quoted(s)[0] == '"');
            assert("null"@[0] == 'n');
        }
        assert forall|o: Option<Seq<char>>|
            crate::json::json_text(#[trigger] crate::json::optional(o)) == (match o {
                Some(s) => crate::json::quoted(s),
                None => "null"@,
            }) by {}
    }
    match f {
        None => Some(None),
        Some(t) => {
            if same_text(t.as_str(), "null") {
                Some(None)
            } else {
                match read_string(t.as_str()) {
                    Ok(s) => Some(Some(s)),
                    Err(_) => None,
                }
            }
        },
    }
}

/// Reads a field that holds an integer; an integer that was written is read
/// back.
pub(crate) fn read_integer_field(f: &Option<String>) -> (r: Option<i64>)
    ensures
        r == integer_field(crate::text::opt_view(*f)),
        forall|n: i64|
            crate::text::opt_view(*f) == Some(#[trigger] crate::numbers::decimal(n as int)) ==> r
                == Some(n),
{
    match f {
        None => None,
        Some(t) => read_integer(t.as_str()).ok(),
    }
}

} // verus!
