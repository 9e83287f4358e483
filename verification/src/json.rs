//! A JSON document as the status line reads it: objects looked up by key,
//! strings, and numbers seen as unsigned integers.
use vstd::prelude::*;
use crate::text::str_equal;

verus! {

/// A JSON number, held as the two unsigned readings that the status line
/// uses.
pub struct JsonNumber {
    /// The number when it is a non-negative integer that fits in `u64`.
    pub exact: Option<u64>,
    /// The number read as a 64-bit float and then converted to `u64` with
    /// truncation toward zero and saturation at both ends (negative values
    /// give 0); `None` when no float reading exists.
    pub truncated: Option<u64>,
}

/// A JSON value. An array carries no contents. An object holds its members
/// as a list of key and value; a lookup takes the first member with the key.
pub enum JsonValue {
    Null,
    Bool(bool),
    Number(JsonNumber),
    Text(String),
    Array,
    Object(Vec<(String, JsonValue)>),
}

/// The value of the first member named `key` among `members`.
pub open spec fn member(members: Seq<(String, JsonValue)>, key: Seq<char>) -> Option<JsonValue>
    decreases members.len(),
{
    if members.len() == 0 {
        None
    } else if members[0].0@ == key {
        Some(members[0].1)
    } else {
        member(members.skip(1), key)
    }
}

/// The value under `key` when `v` is an object holding such a member.
pub open spec fn json_get(v: JsonValue, key: Seq<char>) -> Option<JsonValue> {
    match v {
        JsonValue::Object(members) => member(members@, key),
        _ => None,
    }
}

/// `json_get` applied to an optional value.
pub open spec fn json_get_opt(v: Option<JsonValue>, key: Seq<char>) -> Option<JsonValue> {
    match v {
        Some(inner) => json_get(inner, key),
        None => None,
    }
}

/// The characters of `v` when it is a string.
pub open spec fn json_text(v: JsonValue) -> Option<Seq<char>> {
    match v {
        JsonValue::Text(s) => Some(s@),
        _ => None,
    }
}

/// `json_text` applied to an optional value.
pub open spec fn json_text_opt(v: Option<JsonValue>) -> Option<Seq<char>> {
    match v {
        Some(inner) => json_text(inner),
        None => None,
    }
}

/// The value of `v` when it is a number that is a non-negative integer
/// within `u64`.
pub open spec fn json_u64(v: JsonValue) -> Option<u64> {
    match v {
        JsonValue::Number(n) => n.exact,
        _ => None,
    }
}

/// `json_u64` applied to an optional value, 0 when absent or not such a number.
pub open spec fn json_u64_or_zero(v: Option<JsonValue>) -> u64 {
    match v {
        Some(inner) => match json_u64(inner) {
            Some(n) => n,
            None => 0,
        },
        None => 0,
    }
}

impl JsonValue {
    /// The value under `key`, when `self` is an object with such a member
    /// (the first one, in document order).
    pub fn get(&self, key: &str) -> (res: Option<&JsonValue>)
        ensures
            res is Some == json_get(*self, key@) is Some,
            res matches Some(r) ==> *r == json_get(*self, key@)->0,
    {
        match self {
            JsonValue::Object(members) => {
                let n = members.len();
                let mut i: usize = 0;
                assert(members@.skip(0) =~= members@);
                while i < n
                    invariant
                        n == members@.len(),
                        json_get(*self, key@) == member(members@, key@),
                        i <= n,
                        member(members@, key@) == member(members@.skip(i as int), key@),
                    decreases n - i,
                {
                    assert(members@.skip(i as int).skip(1) =~= members@.skip(i + 1));
                    assert(members@.skip(i as int)[0] == members@[i as int]);
                    if str_equal(members[i].0.as_str(), key) {
                        return Some(&members[i].1);
                    }
                    i = i + 1;
                }
                assert(members@.skip(n as int).len() == 0);
                None
            },
            _ => None,
        }
    }

    /// The string held by `self`, when it is a string.
    pub fn as_text(&self) -> (res: Option<&str>)
        ensures
            res is Some == json_text(*self) is Some,
            res matches Some(r) ==> r@ == json_text(*self)->0,
    {
        match self {
            JsonValue::Text(s) => Some(s.as_str()),
            _ => None,
        }
    }

    /// `self` is a string.
    pub fn is_text(&self) -> (res: bool)
        ensures
            res == json_text(*self) is Some,
    {
        match self {
            JsonValue::Text(_) => true,
            _ => false,
        }
    }

    /// The number held by `self`, when it is a non-negative integer within
    /// `u64`.
    pub fn as_u64(&self) -> (res: Option<u64>)
        ensures
            res == json_u64(*self),
    {
        match self {
            JsonValue::Number(n) => n.exact,
            _ => None,
        }
    }
}

// ---------------------------------------------------------------------------
// Parsing a document with serde_json
// ---------------------------------------------------------------------------

#[verifier::external_type_specification]
#[verifier::external_body]
pub struct ExSerdeValue(serde_json::Value);

#[verifier::external_type_specification]
#[verifier::external_body]
pub struct ExSerdeNumber(serde_json::Number);

/// The value that serde_json parses `text` into, as a `JsonValue`; `None`
/// when `text` is not a JSON document.
pub uninterp spec fn json_document(text: Seq<char>) -> Option<JsonValue>;

/// Converts a `serde_json::Number`: `as_u64` gives the exact reading, and
/// `as_f64` cast to `u64` (truncating, saturating) the truncated one. No
/// contract is stated; `parse_json` is the only caller.
#[verifier::external_body]
fn number_from_serde(n: &serde_json::Number) -> JsonNumber {
    JsonNumber { exact: n.as_u64(), truncated: n.as_f64().map(|f| f as u64) }
}

/// Converts a `serde_json::Value` variant by variant, objects member by
/// member in the map's order. No contract is stated; `parse_json` is the
/// only caller.
#[verifier::external_body]
fn value_from_serde(v: &serde_json::Value) -> JsonValue {
    match v {
        serde_json::Value::Null => JsonValue::Null,
        serde_json::Value::Bool(b) => JsonValue::Bool(*b),
        serde_json::Value::Number(n) => JsonValue::Number(number_from_serde(n)),
        serde_json::Value::String(t) => JsonValue::Text(t.clone()),
        serde_json::Value::Array(_) => JsonValue::Array,
        serde_json::Value::Object(map) => JsonValue::Object(
            map.iter().map(|(k, x)| (k.clone(), value_from_serde(x))).collect(),
        ),
    }
}

/// Calls `serde_json::from_str::<serde_json::Value>` on `text` and converts
/// the value. The contract says only that the result is a function of the
/// text, named `json_document`; what serde_json accepts as JSON is not
/// restated.
#[verifier::external_body]
pub(crate) fn parse_json(text: &str) -> (res: Option<JsonValue>)
    ensures
        res == json_document(text@),
{
    match serde_json::from_str::<serde_json::Value>(text) {
        Ok(v) => Some(value_from_serde(&v)),
        Err(_) => None,
    }
}

} // verus!
