//! JSON text through `serde_json`: reading the members of an object, and
//! writing a flat object of plain text and number members.
use vstd::prelude::*;
use crate::json::{Json, JsonV, JsonNumber, jv_pairs};
use crate::order::lex_lt;
use crate::text::dec;

verus! {

/// Text that JSON carries as it is: printable ASCII without quotes or backslashes.
pub open spec fn json_plain(s: Seq<char>) -> bool {
    forall|i: int| 0 <= i < s.len() ==> ' ' <= #[trigger] s[i] && s[i] <= '~' && s[i] != '"' && s[i] != '\\'
}

/// Members that a flat JSON object can carry as they are: keys strictly
/// increasing and plain, values plain strings or non-negative integers.
pub open spec fn plain_members_ok(ms: Seq<(Seq<char>, JsonV)>) -> bool {
    &&& forall|i: int, j: int| 0 <= i < j < ms.len() ==> lex_lt(#[trigger] ms[i].0, #[trigger] ms[j].0)
    &&& forall|i: int| 0 <= i < ms.len() ==> json_plain((#[trigger] ms[i]).0) && match ms[i].1 {
        JsonV::Str(s) => json_plain(s),
        JsonV::PosInt(_) => true,
        _ => false,
    }
}

/// The JSON text of a plain value.
pub open spec fn value_text(v: JsonV) -> Seq<char> {
    match v {
        JsonV::Str(s) => seq!['"'] + s + seq!['"'],
        JsonV::PosInt(n) => dec(n as nat),
        _ => seq!['n', 'u', 'l', 'l'],
    }
}

/// The JSON text of one member: its quoted key, a colon, its value.
pub open spec fn member_text(m: (Seq<char>, JsonV)) -> Seq<char> {
    seq!['"'] + m.0 + seq!['"', ':'] + value_text(m.1)
}

/// The members' texts joined with commas.
pub open spec fn members_text(ms: Seq<(Seq<char>, JsonV)>) -> Seq<char>
    decreases ms.len(),
{
    if ms.len() == 0 {
        Seq::empty()
    } else if ms.len() == 1 {
        member_text(ms[0])
    } else {
        members_text(ms.drop_last()) + seq![','] + member_text(ms.last())
    }
}

/// The compact JSON text of a flat object with these members.
pub open spec fn object_text(ms: Seq<(Seq<char>, JsonV)>) -> Seq<char> {
    seq!['{'] + members_text(ms) + seq!['}']
}

/// Each member's key, with its text when the value is a string.
pub open spec fn string_members(ms: Seq<(Seq<char>, JsonV)>) -> Seq<(Seq<char>, Option<Seq<char>>)> {
    ms.map_values(|m: (Seq<char>, JsonV)| (m.0, match m.1 {
        JsonV::Str(s) => Some(s),
        _ => None,
    }))
}

pub open spec fn strings_view(ms: Seq<(String, Option<String>)>) -> Seq<(Seq<char>, Option<Seq<char>>)> {
    ms.map_values(|m: (String, Option<String>)| (m.0@, match m.1 {
        Some(s) => Some(s@),
        None => None,
    }))
}

/// The members of the JSON object that `bytes` hold, in the order of
/// `serde_json::Map`, each with its text when it is a string; `None` when the
/// bytes are not a JSON object.
pub uninterp spec fn json_object_strings_of(bytes: Seq<u8>) -> Option<Seq<(Seq<char>, Option<Seq<char>>)>>;

/// `serde_json::from_slice::<serde_json::Map<String, Value>>`, each member
/// turned into its key and, for a `Value::String`, its text.
#[verifier::external_body]
pub(crate) fn json_object_strings(bytes: &[u8]) -> (r: Option<Vec<(String, Option<String>)>>)
    ensures
        match r {
            Some(ms) => json_object_strings_of(bytes@) == Some(strings_view(ms@)),
            None => json_object_strings_of(bytes@) is None,
        },
{
    let m: serde_json::Map<String, serde_json::Value> = serde_json::from_slice(bytes).ok()?;
    Some(m.into_iter().map(|(k, v)| match v {
        serde_json::Value::String(s) => (k, Some(s)),
        _ => (k, None),
    }).collect())
}

/// `serde_json::to_vec` of the object built by `Map::insert` of each member
/// (a string as `Value::String`, an integer as a number), in order. Plain
/// members in key order are written as they are, without spaces, and
/// `serde_json::from_slice` reads the same members back.
#[verifier::external_body]
pub(crate) fn json_object_bytes(members: &Vec<(String, Json)>) -> (r: Vec<u8>)
    requires
        plain_members_ok(jv_pairs(members@)),
    ensures
        r@ == vstd::utf8::encode_utf8(object_text(jv_pairs(members@))),
        json_object_strings_of(r@) == Some(string_members(jv_pairs(members@))),
{
    let mut m = serde_json::Map::new();
    for (k, v) in members.iter() {
        let value = match v {
            Json::Str(s) => serde_json::Value::from(s.as_str()),
            Json::Number(JsonNumber::PosInt(n)) => serde_json::Value::from(*n),
            _ => serde_json::Value::Null,
        };
        m.insert(k.clone(), value);
    }
    serde_json::to_vec(&serde_json::Value::Object(m)).unwrap_or_default()
}

/// The text of the first member named `k`, when it is a string
/// (`Value::get(k).and_then(Value::as_str)` on an object).
pub open spec fn member_str(ms: Seq<(Seq<char>, Option<Seq<char>>)>, k: Seq<char>) -> Option<Seq<char>>
    decreases ms.len(),
{
    if ms.len() == 0 {
        None
    } else if ms[0].0 == k {
        ms[0].1
    } else {
        member_str(ms.drop_first(), k)
    }
}

/// The text of the first member named `k` (see `member_str`).
pub(crate) fn find_member_str(ms: &Vec<(String, Option<String>)>, k: &str) -> (r: Option<String>)
    ensures
        match r {
            Some(s) => member_str(strings_view(ms@), k@) == Some(s@),
            None => member_str(strings_view(ms@), k@) is None,
        },
{
    let ghost all = strings_view(ms@);
    let mut i: usize = 0;
    assert(all.skip(0) =~= all);
    while i < ms.len()
        invariant
            i <= ms.len(),
            all == strings_view(ms@),
            member_str(all, k@) == member_str(all.skip(i as int), k@),
        decreases ms.len() - i,
    {
        proof {
            assert(all.skip(i as int)[0] == all[i as int]);
            assert(all.skip(i as int).drop_first() =~= all.skip(i + 1));
        }
        if crate::text::str_eq(ms[i].0.as_str(), k) {
            return match &ms[i].1 {
                Some(s) => Some(s.clone()),
                None => None,
            };
        }
        i += 1;
    }
    None
}

/// How JSON writes one character inside a string: quote and backslash
/// escaped, the control characters with a short escape or `\u00` and two
/// lower-case hex digits, anything else as it is.
pub open spec fn json_escape(c: char) -> Seq<char> {
    if c == '"' {
        seq!['\\', '"']
    } else if c == '\\' {
        seq!['\\', '\\']
    } else if c == '\u{8}' {
        seq!['\\', 'b']
    } else if c == '\u{c}' {
        seq!['\\', 'f']
    } else if c == '\n' {
        seq!['\\', 'n']
    } else if c == '\r' {
        seq!['\\', 'r']
    } else if c == '\t' {
        seq!['\\', 't']
    } else if (c as u32) < 0x20 {
        seq!['\\', 'u', '0', '0', crate::digest::hex_digit((c as u32 / 16) as nat), crate::digest::hex_digit((c as u32 % 16) as nat)]
    } else {
        seq![c]
    }
}

/// The characters of a string as JSON writes them inside quotes.
pub open spec fn json_escaped(s: Seq<char>) -> Seq<char>
    decreases s.len(),
{
    if s.len() == 0 {
        Seq::empty()
    } else {
        json_escaped(s.drop_last()) + json_escape(s.last())
    }
}

/// A string as a JSON string literal.
pub open spec fn json_quoted(s: Seq<char>) -> Seq<char> {
    seq!['"'] + json_escaped(s) + seq!['"']
}

/// `serde_json::to_string` of a string: its JSON string literal (see
/// `json_escape`).
#[verifier::external_body]
pub(crate) fn json_quote(s: &str) -> (r: String)
    ensures
        r@ == json_quoted(s@),
{
    serde_json::to_string(s).unwrap_or_default()
}

} // verus!
