//! JSON text: what a value looks like when it is written compactly, and how
//! the members of a written record are found again.

use crate::numbers::{decimal_of, decimal_of_signed, hex_lower};
use vstd::prelude::*;

verus! {

/// A JSON value, in specifications.
pub ghost enum Json {
    Null,
    Bool(bool),
    Int(int),
    Text(Seq<char>),
    Array(Seq<Json>),
    Object(Seq<(Seq<char>, Json)>),
}

/// One character as it stands inside a JSON string.
pub open spec fn escaped_char(c: char) -> Seq<char> {
    if c == '"' || c == '\\' {
        seq!['\\', c]
    } else if c as int == 0x8 {
        seq!['\\', 'b']
    } else if c as int == 0x9 {
        seq!['\\', 't']
    } else if c as int == 0xa {
        seq!['\\', 'n']
    } else if c as int == 0xc {
        seq!['\\', 'f']
    } else if c as int == 0xd {
        seq!['\\', 'r']
    } else if (c as int) < 0x20 {
        seq!['\\', 'u', '0', '0', hex_lower(c as int / 16), hex_lower(c as int % 16)]
    } else {
        seq![c]
    }
}

/// A text as it stands inside a JSON string.
pub open spec fn escaped(s: Seq<char>) -> Seq<char>
    decreases s.len(),
{
    if s.len() == 0 {
        Seq::empty()
    } else {
        escaped(s.drop_last()) + escaped_char(s.last())
    }
}

/// A text as a JSON string.
pub open spec fn quoted(s: Seq<char>) -> Seq<char> {
    seq!['"'] + escaped(s) + seq!['"']
}

/// A value written compactly: no white space, members in the order given.
pub open spec fn json_text(j: Json) -> Seq<char>
    decreases j,
{
    match j {
        Json::Null => "null"@,
        Json::Bool(true) => "true"@,
        Json::Bool(false) => "false"@,
        Json::Int(n) => crate::numbers::decimal(n),
        Json::Text(s) => quoted(s),
        Json::Array(a) => seq!['['] + items_text(a) + seq![']'],
        Json::Object(m) => seq!['{'] + members_text(m) + seq!['}'],
    }
}

/// The items of an array, written with commas between them.
pub open spec fn items_text(a: Seq<Json>) -> Seq<char>
    decreases a,
{
    if a.len() == 0 {
        Seq::empty()
    } else if a.len() == 1 {
        json_text(a.last())
    } else {
        items_text(a.drop_last()) + seq![','] + json_text(a.last())
    }
}

/// The members of an object, written with commas between them.
pub open spec fn members_text(m: Seq<(Seq<char>, Json)>) -> Seq<char>
    decreases m,
{
    if m.len() == 0 {
        Seq::empty()
    } else if m.len() == 1 {
        quoted(m.last().0) + seq![':'] + json_text(m.last().1)
    } else {
        members_text(m.drop_last()) + seq![','] + (quoted(m.last().0) + seq![':'] + json_text(
            m.last().1,
        ))
    }
}

/// `Value::to_string` of a JSON string: the text in double quotes, with
/// quotes, backslashes and control characters escaped.
#[verifier::external_body]
pub(crate) fn quote(s: &str) -> (out: String)
    ensures
        out@ == quoted(s@),
{
    serde_json::Value::from(s).to_string()
}

/// A written JSON value. Its view is the value.
pub struct JsonValue {
    text: String,
    value: Ghost<Json>,
}

impl View for JsonValue {
    type V = Json;

    closed spec fn view(&self) -> Json {
        self.value@
    }
}

/// The members of an object, as values.
pub open spec fn member_values(m: Seq<(String, JsonValue)>) -> Seq<(Seq<char>, Json)> {
    m.map_values(|p: (String, JsonValue)| (p.0@, p.1@))
}

/// The items of an array, as values.
pub open spec fn item_values(a: Seq<JsonValue>) -> Seq<Json> {
    a.map_values(|v: JsonValue| v@)
}

impl JsonValue {
    #[verifier::type_invariant]
    spec fn written(self) -> bool {
        self.text@ == json_text(self.value@)
    }

    /// The text of the value.
    pub fn as_str(&self) -> (s: &str)
        ensures
            s@ == json_text(self@),
    {
        proof {
            use_type_invariant(self);
        }
        self.text.as_str()
    }

    pub fn null() -> (v: JsonValue)
        ensures
            v@ == Json::Null,
    {
        JsonValue { text: "null".to_owned(), value: Ghost(Json::Null) }
    }

    pub fn boolean(b: bool) -> (v: JsonValue)
        ensures
            v@ == Json::Bool(b),
    {
        let text = if b {
            "true".to_owned()
        } else {
            "false".to_owned()
        };
        JsonValue { text, value: Ghost(Json::Bool(b)) }
    }

    pub fn signed(n: i64) -> (v: JsonValue)
        ensures
            v@ == Json::Int(n as int),
    {
        JsonValue { text: decimal_of_signed(n), value: Ghost(Json::Int(n as int)) }
    }

    pub fn unsigned(n: u64) -> (v: JsonValue)
        ensures
            v@ == Json::Int(n as int),
    {
        JsonValue { text: decimal_of(n), value: Ghost(Json::Int(n as int)) }
    }

    pub fn text(s: &str) -> (v: JsonValue)
        ensures
            v@ == Json::Text(s@),
    {
        JsonValue { text: quote(s), value: Ghost(Json::Text(s@)) }
    }

    /// A text, or `null`.
    pub fn optional_text(s: &Option<String>) -> (v: JsonValue)
        ensures
            v@ == optional(crate::text::opt_view(*s)),
    {
        match s {
            Some(t) => JsonValue::text(t.as_str()),
            None => JsonValue::null(),
        }
    }

    pub fn array(items: Vec<JsonValue>) -> (v: JsonValue)
        ensures
            v@ == Json::Array(item_values(items@)),
    {
        let ghost all = item_values(items@);
        let mut text = String::new();
        text.push('[');
        let mut i: usize = 0;
        proof {
            assert(text@ =~= seq!['['] + items_text(all.take(0)));
        }
        while i < items.len()
            invariant
                i <= items@.len(),
                all == item_values(items@),
                text@ == seq!['['] + items_text(all.take(i as int)),
            decreases items@.len() - i,
        {
            if i > 0 {
                text.push(',');
            }
            text.append(items[i].as_str());
            i = i + 1;
            proof {
                assert(all.take(i as int).drop_last() =~= all.take(i - 1));
                assert(all.take(i as int).last() == items@[i - 1]@);
                assert(text@ =~= seq!['['] + items_text(all.take(i as int)));
            }
        }
        text.push(']');
        proof {
            assert(all.take(i as int) =~= all);
            assert(text@ =~= json_text(Json::Array(all)));
        }
        JsonValue { text, value: Ghost(Json::Array(all)) }
    }

    pub fn object(members: Vec<(String, JsonValue)>) -> (v: JsonValue)
        ensures
            v@ == Json::Object(member_values(members@)),
    {
        let ghost all = member_values(members@);
        let mut text = String::new();
        text.push('{');
        let mut i: usize = 0;
        proof {
            assert(text@ =~= seq!['{'] + members_text(all.take(0)));
        }
        while i < members.len()
            invariant
                i <= members@.len(),
                all == member_values(members@),
                text@ == seq!['{'] + members_text(all.take(i as int)),
            decreases members@.len() - i,
        {
            if i > 0 {
                text.push(',');
            }
            text.append(quote(members[i].0.as_str()).as_str());
            text.push(':');
            text.append(members[i].1.as_str());
            i = i + 1;
            proof {
                assert(all.take(i as int).drop_last() =~= all.take(i - 1));
                assert(all.take(i as int).last() == (members@[i - 1].0@, members@[i - 1].1@));
                assert(text@ =~= seq!['{'] + members_text(all.take(i as int)));
            }
        }
        text.push('}');
        proof {
            assert(all.take(i as int) =~= all);
            assert(text@ =~= json_text(Json::Object(all)));
        }
        JsonValue { text, value: Ghost(Json::Object(all)) }
    }
}

/// A text, or `null`, as a value.
pub open spec fn optional(s: Option<Seq<char>>) -> Json {
    match s {
        Some(t) => Json::Text(t),
        None => Json::Null,
    }
}

/// What `serde_json` reads from a text as the members of one object: the keys
/// and the source texts of the values, in order; or its error.
pub uninterp spec fn object_members(text: Seq<char>) -> Result<
    Seq<(Seq<char>, Seq<char>)>,
    Seq<char>,
>;

/// What `serde_json` reads from a text as the items of one array: the source
/// texts of the values, in order; or its error.
pub uninterp spec fn array_items(text: Seq<char>) -> Result<Seq<Seq<char>>, Seq<char>>;

/// What `serde_json` reads from a text as one string; or its error.
pub uninterp spec fn string_value(text: Seq<char>) -> Result<Seq<char>, Seq<char>>;

/// What `serde_json` reads from a text as one `i64`; or its error.
pub uninterp spec fn integer_value(text: Seq<char>) -> Result<i64, Seq<char>>;

/// Pairs of texts, as characters.
pub open spec fn pair_texts(v: Seq<(String, String)>) -> Seq<(Seq<char>, Seq<char>)> {
    v.map_values(|p: (String, String)| (p.0@, p.1@))
}

/// The members of an object with each value written out.
pub open spec fn written_members(m: Seq<(Seq<char>, Json)>) -> Seq<(Seq<char>, Seq<char>)> {
    m.map_values(|p: (Seq<char>, Json)| (p.0, json_text(p.1)))
}

/// `serde_json::Deserializer`, read through `serde_with::Map` so that every
/// member is kept, in order and with repetitions, each value as the text it
/// was written with (`RawValue`); then `Deserializer::end`. The members of a
/// compactly written object come back as they were written.
#[verifier::external_body]
pub(crate) fn read_object(text: &str) -> (r: Result<Vec<(String, String)>, String>)
    ensures
        match r {
            Ok(m) => object_members(text@) == Ok::<_, Seq<char>>(pair_texts(m@)),
            Err(e) => object_members(text@) == Err::<Seq<(Seq<char>, Seq<char>)>, _>(e@),
        },
        forall|m: Seq<(Seq<char>, Json)>|
            text@ == #[trigger] json_text(Json::Object(m)) ==> r is Ok && pair_texts(r->Ok_0@)
                == written_members(m),
{
    let mut de = serde_json::Deserializer::from_str(text);
    let members: Result<Vec<(String, Box<serde_json::value::RawValue>)>, serde_json::Error> =
        <serde_with::Map<serde_with::Same, serde_with::Same> as serde_with::DeserializeAs<
            '_,
            Vec<(String, Box<serde_json::value::RawValue>)>,
        >>::deserialize_as(&mut de);
    let members = members.map_err(|e| e.to_string())?;
    de.end().map_err(|e| e.to_string())?;
    Ok(members.into_iter().map(|(k, v)| (k, v.get().to_owned())).collect())
}

/// `serde_json::from_str` into a vector of `RawValue`: the items of one array,
/// each as the text it was written with.
#[verifier::external_body]
pub(crate) fn read_array(text: &str) -> (r: Result<Vec<String>, String>)
    ensures
        match r {
            Ok(a) => array_items(text@) == Ok::<_, Seq<char>>(crate::text::texts(a@)),
            Err(e) => array_items(text@) == Err::<Seq<Seq<char>>, _>(e@),
        },
{
    let items: Vec<Box<serde_json::value::RawValue>> = serde_json::from_str(text).map_err(
        |e| e.to_string(),
    )?;
    Ok(items.into_iter().map(|v| v.get().to_owned()).collect())
}

/// `serde_json::from_str::<String>`: reads back every text that was written
/// as a JSON string.
#[verifier::external_body]
pub(crate) fn read_string(text: &str) -> (r: Result<String, String>)
    ensures
        match r {
            Ok(s) => string_value(text@) == Ok::<_, Seq<char>>(s@),
            Err(e) => string_value(text@) == Err::<Seq<char>, _>(e@),
        },
        forall|s: Seq<char>| text@ == #[trigger] quoted(s) ==> r is Ok && r->Ok_0@ == s,
{
    serde_json::from_str::<String>(text).map_err(|e| e.to_string())
}

/// `serde_json::from_str::<i64>`: reads back every `i64` that was written in
/// decimal.
#[verifier::external_body]
pub(crate) fn read_integer(text: &str) -> (r: Result<i64, String>)
    ensures
        match r {
            Ok(n) => integer_value(text@) == Ok::<_, Seq<char>>(n),
            Err(e) => integer_value(text@) == Err::<i64, _>(e@),
        },
        forall|n: i64|
            text@ == #[trigger] crate::numbers::decimal(n as int) ==> r is Ok && r->Ok_0 == n,
{
    serde_json::from_str::<i64>(text).map_err(|e| e.to_string())
}

} // verus!
