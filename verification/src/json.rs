//! A plain tree for JSON documents read through the `json` crate, and the
//! navigation the Spotify responses need: member and index lookup that yield
//! `null` when absent, string and unsigned number views, lengths and the
//! text form `to_string` gives.
use vstd::prelude::*;
use crate::search::{first_index, lemma_first_index_is};
use crate::text::chars_of;

verus! {

/// The parts of a JSON number: sign, decimal mantissa and decimal exponent.
pub struct JsonNumber {
    pub positive: bool,
    pub mantissa: u64,
    pub exponent: i16,
}

/// A parsed JSON value. Numbers, arrays and objects also carry the text the
/// `json` crate renders for them (`Display`, which is the compact JSON form
/// for arrays and objects).
pub enum Json {
    Null,
    Bool(bool),
    Str(String),
    Num(JsonNumber, String),
    Array(Vec<Json>, String),
    Object(Vec<(String, Json)>, String),
}

/// The value an optional reference stands for: `null` when there is none.
pub open spec fn node(o: Option<&Json>) -> Json {
    match o {
        Some(v) => *v,
        None => Json::Null,
    }
}

/// Index of the first entry of `entries` whose key is `key`.
pub open spec fn first_key_index(entries: Seq<(String, Json)>, key: Seq<char>) -> Option<int> {
    first_index(entries, |e: (String, Json)| e.0@ == key)
}

/// `v[key]`: the member named `key` of an object, `null` otherwise.
pub open spec fn member(v: Json, key: Seq<char>) -> Json {
    match v {
        Json::Object(entries, _) => match first_key_index(entries@, key) {
            Some(i) => entries@[i].1,
            None => Json::Null,
        },
        _ => Json::Null,
    }
}

/// `v[i]`: the `i`-th element of an array, `null` otherwise.
pub open spec fn item(v: Json, i: int) -> Json {
    match v {
        Json::Array(items, _) => if 0 <= i < items.len() {
            items@[i]
        } else {
            Json::Null
        },
        _ => Json::Null,
    }
}

/// `v.len()`: elements of an array, members of an object, 0 otherwise.
pub open spec fn json_len(v: Json) -> nat {
    match v {
        Json::Array(items, _) => items@.len(),
        Json::Object(entries, _) => entries@.len(),
        _ => 0,
    }
}

/// `v.as_str()`.
pub open spec fn as_text(v: Json) -> Option<Seq<char>> {
    match v {
        Json::Str(s) => Some(s@),
        _ => None,
    }
}

/// `v.is_null()`.
pub open spec fn is_null(v: Json) -> bool {
    v is Null
}

/// `v.as_u64()`: a number with a positive sign and no decimal exponent.
pub open spec fn as_unsigned(v: Json) -> Option<u64> {
    match v {
        Json::Num(n, _) => if n.positive && n.exponent == 0 {
            Some(n.mantissa)
        } else {
            None
        },
        _ => None,
    }
}

/// `v.as_u32()`.
pub open spec fn as_u32(v: Json) -> Option<u32> {
    match as_unsigned(v) {
        Some(m) => if m <= u32::MAX {
            Some(m as u32)
        } else {
            None
        },
        None => None,
    }
}

/// `v.as_usize()`.
pub open spec fn as_usize(v: Json) -> Option<usize> {
    match as_unsigned(v) {
        Some(m) => if m <= usize::MAX {
            Some(m as usize)
        } else {
            None
        },
        None => None,
    }
}

/// `v.to_string()`: strings without quotes, `null`, `true`/`false`, and the
/// crate's own rendering of numbers, arrays and objects.
pub open spec fn display(v: Json) -> Seq<char> {
    match v {
        Json::Null => seq!['n', 'u', 'l', 'l'],
        Json::Bool(b) => if b {
            seq!['t', 'r', 'u', 'e']
        } else {
            seq!['f', 'a', 'l', 's', 'e']
        },
        Json::Str(s) => s@,
        Json::Num(_, t) => t@,
        Json::Array(_, t) => t@,
        Json::Object(_, t) => t@,
    }
}

/// Equality of character vectors.
pub fn chars_eq(a: &Vec<char>, b: &Vec<char>) -> (r: bool)
    ensures
        r == (a@ == b@),
{
    if a.len() != b.len() {
        return false;
    }
    let mut i: usize = 0;
    while i < a.len()
        invariant
            a.len() == b.len(),
            i <= a.len(),
            forall|k: int| 0 <= k < i ==> a@[k] == b@[k],
        decreases a.len() - i,
    {
        if a[i] != b[i] {
            return false;
        }
        i = i + 1;
    }
    assert(a@ =~= b@);
    true
}

/// Equality of string slices.
pub fn str_eq(a: &str, b: &str) -> (r: bool)
    ensures
        r == (a@ == b@),
{
    chars_eq(&chars_of(a), &chars_of(b))
}

/// `v[key]` on a value that may be absent (absent stands for `null`).
pub fn get<'a>(v: Option<&'a Json>, key: &str) -> (r: Option<&'a Json>)
    ensures
        node(r) == member(node(v), key@),
{
    match v {
        Some(Json::Object(entries, _)) => {
            let mut i: usize = 0;
            while i < entries.len()
                invariant
                    node(v) is Object && node(v)->Object_0 == *entries,
                    i <= entries.len(),
                    forall|j: int| 0 <= j < i ==> (#[trigger] entries@[j]).0@ != key@,
                decreases entries.len() - i,
            {
                if str_eq(entries[i].0.as_str(), key) {
                    proof {
                        lemma_first_index_is(entries@, |e: (String, Json)| e.0@ == key@, i as int);
                    }
                    return Some(&entries[i].1);
                }
                i = i + 1;
            }
            None
        },
        _ => None,
    }
}

/// `v[i]` on a value that may be absent.
pub fn at<'a>(v: Option<&'a Json>, i: usize) -> (r: Option<&'a Json>)
    ensures
        node(r) == item(node(v), i as int),
{
    match v {
        Some(Json::Array(items, _)) => {
            if i < items.len() {
                Some(&items[i])
            } else {
                None
            }
        },
        _ => None,
    }
}

/// `v.len()` on a value that may be absent.
pub fn len_of(v: Option<&Json>) -> (n: usize)
    ensures
        n == json_len(node(v)),
{
    match v {
        Some(Json::Array(items, _)) => items.len(),
        Some(Json::Object(entries, _)) => entries.len(),
        _ => 0,
    }
}

/// `v.as_str()` on a value that may be absent.
pub fn text_of<'a>(v: Option<&'a Json>) -> (r: Option<&'a String>)
    ensures
        match r {
            Some(s) => as_text(node(v)) == Some(s@),
            None => as_text(node(v)) is None,
        },
{
    match v {
        Some(Json::Str(s)) => Some(s),
        _ => None,
    }
}

/// `v.is_null()` on a value that may be absent.
pub fn null_at(v: Option<&Json>) -> (b: bool)
    ensures
        b == is_null(node(v)),
{
    match v {
        Some(Json::Null) => true,
        Some(_) => false,
        None => true,
    }
}

/// `v.as_u64()` on a value that may be absent.
pub fn unsigned_of(v: Option<&Json>) -> (r: Option<u64>)
    ensures
        r == as_unsigned(node(v)),
{
    match v {
        Some(Json::Num(n, _)) => {
            if n.positive && n.exponent == 0 {
                Some(n.mantissa)
            } else {
                None
            }
        },
        _ => None,
    }
}

/// `v.as_u32()` on a value that may be absent.
pub fn u32_of(v: Option<&Json>) -> (r: Option<u32>)
    ensures
        r == as_u32(node(v)),
{
    match unsigned_of(v) {
        Some(m) => if m <= 0xffff_ffffu64 {
            Some(m as u32)
        } else {
            None
        },
        None => None,
    }
}

/// `v.as_usize()` on a value that may be absent.
pub fn usize_of(v: Option<&Json>) -> (r: Option<usize>)
    ensures
        r == as_usize(node(v)),
{
    match unsigned_of(v) {
        Some(m) => if m <= usize::MAX as u64 {
            Some(m as usize)
        } else {
            None
        },
        None => None,
    }
}

/// `v.to_string()` on a value that may be absent.
pub fn display_of(v: Option<&Json>) -> (s: String)
    ensures
        s@ == display(node(v)),
{
    match v {
        Some(Json::Bool(b)) => if *b {
            proof {
                reveal_strlit("true");
            }
            "true".to_owned()
        } else {
            proof {
                reveal_strlit("false");
            }
            "false".to_owned()
        },
        Some(Json::Str(s)) => s.clone(),
        Some(Json::Num(_, t)) => t.clone(),
        Some(Json::Array(_, t)) => t.clone(),
        Some(Json::Object(_, t)) => t.clone(),
        _ => {
            proof {
                reveal_strlit("null");
            }
            "null".to_owned()
        },
    }
}

#[verifier::external_type_specification]
#[verifier::external_body]
pub struct ExJsonValue(json::JsonValue);

/// Name for the tree that `json::parse` yields for a text (`None` when the
/// text is not JSON). The parser's grammar is the `json` crate's own.
pub uninterp spec fn parsed_json(text: Seq<char>) -> Option<Json>;

/// Calls `json::parse` and turns the value it yields into a `Json` tree.
/// Claimed: the result depends on the text alone.
#[verifier::external_body]
fn parse_text(text: &str) -> (r: Option<Json>)
    ensures
        r == parsed_json(text@),
{
    match json::parse(text) {
        Ok(value) => Some(tree_of(&value)),
        Err(_) => None,
    }
}

/// Turns a `json::JsonValue` into a `Json` tree node for node, keeping the
/// parts (`Number::as_parts`) and the `to_string` text of numbers, arrays and
/// objects. Nothing is claimed of it beyond what `parse_text` names.
#[verifier::external_body]
fn tree_of(value: &json::JsonValue) -> Json {
    match value {
        json::JsonValue::Boolean(b) => Json::Bool(*b),
        json::JsonValue::Number(n) => {
            let (positive, mantissa, exponent) = n.as_parts();
            Json::Num(JsonNumber { positive, mantissa, exponent }, value.to_string())
        },
        json::JsonValue::Array(a) => Json::Array(a.iter().map(tree_of).collect(), value.to_string()),
        json::JsonValue::Object(o) => Json::Object(o.iter().map(|(k, v)| (k.to_string(), tree_of(v))).collect(), value.to_string()),
        _ => match value.as_str() {
            Some(s) => Json::Str(s.to_string()),
            None => Json::Null,
        },
    }
}

/// Why a Spotify response gave no JSON document.
#[derive(Debug, Clone, Copy, PartialEq, Eq)]
pub enum ResponseError {
    /// The status code was not 200.
    Status,
    /// The body is not JSON.
    NotJson,
}

/// The JSON document of a Spotify response: only a 200 answer is read, and
/// its body is parsed.
pub fn read_response(status: u16, body: &str) -> (r: Result<Json, ResponseError>)
    ensures
        status != 200 ==> r == Err::<Json, ResponseError>(ResponseError::Status),
        status == 200 ==> r == match parsed_json(body@) {
            Some(j) => Ok(j),
            None => Err(ResponseError::NotJson),
        },
{
    if status != 200 {
        return Err(ResponseError::Status);
    }
    match parse_text(body) {
        Some(j) => Ok(j),
        None => Err(ResponseError::NotJson),
    }
}

} // verus!
