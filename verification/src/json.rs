//! A JSON document as plain values, and the lookups that the account logic makes in it.
use vstd::prelude::*;

verus! {

/// A JSON value. Numbers keep the text they were written with; an object keeps its
/// entries in order.
#[derive(Debug)]
pub enum JsonValue {
    Null,
    Bool(bool),
    Number(String),
    Str(String),
    Array(Vec<JsonValue>),
    Object(Vec<(String, JsonValue)>),
}

#[verifier::external_type_specification]
#[verifier::external_body]
pub struct ExSerdeValue(serde_json::Value);

#[verifier::external_type_specification]
#[verifier::external_body]
pub struct ExSerdeJsonError(serde_json::Error);

/// The JSON document that `bytes` hold, as `serde_json` reads it, if they hold one.
pub uninterp spec fn json_of(bytes: Seq<u8>) -> Option<JsonValue>;

/// `serde_json::from_slice::<serde_json::Value>`: claimed to succeed exactly when the bytes
/// hold a JSON document, and then to give the same document for the same bytes (`json_of`).
/// Which document that is, and which error comes otherwise, is left unsaid.
#[verifier::external_body]
pub(crate) fn parse_json(bytes: &[u8]) -> (r: Result<JsonValue, serde_json::Error>)
    ensures
        r is Ok <==> json_of(bytes@) is Some,
        r matches Ok(v) ==> json_of(bytes@) == Some(v),
{
    match serde_json::from_slice::<serde_json::Value>(bytes) {
        Ok(v) => Ok(json_from_serde(&v)),
        Err(e) => Err(e),
    }
}

/// Converts a `serde_json::Value` into a `JsonValue` variant by variant, the result of
/// `parse_json`; a number keeps the text `serde_json` prints for it. Nothing is claimed.
#[verifier::external_body]
fn json_from_serde(v: &serde_json::Value) -> JsonValue {
    match v {
        serde_json::Value::Null => JsonValue::Null,
        serde_json::Value::Bool(b) => JsonValue::Bool(*b),
        serde_json::Value::Number(n) => JsonValue::Number(n.to_string()),
        serde_json::Value::String(t) => JsonValue::Str(t.clone()),
        serde_json::Value::Array(items) => JsonValue::Array(items.iter().map(json_from_serde).collect()),
        serde_json::Value::Object(map) => JsonValue::Object(
            map.iter().map(|(k, x)| (k.clone(), json_from_serde(x))).collect(),
        ),
    }
}

/// The message of a `serde_json::Error`, as its `Display` prints it; nothing is claimed of
/// the text.
#[verifier::external_body]
pub(crate) fn json_error_text(e: &serde_json::Error) -> String {
    e.to_string()
}

/// The value of the first entry named `key`, if any.
pub open spec fn entries_get(entries: Seq<(String, JsonValue)>, key: Seq<char>) -> Option<JsonValue>
    decreases entries.len(),
{
    if entries.len() == 0 {
        None
    } else if entries[0].0@ == key {
        Some(entries[0].1)
    } else {
        entries_get(entries.drop_first(), key)
    }
}

/// `value[key]` for an object; nothing for any other value.
pub open spec fn json_get(value: JsonValue, key: Seq<char>) -> Option<JsonValue> {
    match value {
        JsonValue::Object(entries) => entries_get(entries@, key),
        _ => None,
    }
}

/// The text of `value[key]` when that is a string.
pub open spec fn json_get_str(value: JsonValue, key: Seq<char>) -> Option<Seq<char>> {
    match json_get(value, key) {
        Some(JsonValue::Str(s)) => Some(s@),
        _ => None,
    }
}

/// The text of `value[key]` when that is a non-empty string.
pub open spec fn json_get_text(value: JsonValue, key: Seq<char>) -> Option<Seq<char>> {
    match json_get_str(value, key) {
        Some(s) => if s.len() > 0 { Some(s) } else { None },
        None => None,
    }
}

/// `value[key]` when that is an object.
pub open spec fn json_get_object(value: JsonValue, key: Seq<char>) -> Option<JsonValue> {
    match json_get(value, key) {
        Some(JsonValue::Object(e)) => Some(JsonValue::Object(e)),
        _ => None,
    }
}

/// Looks `key` up in an object; any other value has no entries.
pub fn get<'a>(value: &'a JsonValue, key: &str) -> (r: Option<&'a JsonValue>)
    ensures
        match r {
            Some(v) => json_get(*value, key@) == Some(*v),
            None => json_get(*value, key@) is None,
        },
{
    match value {
        JsonValue::Object(entries) => {
            let n: usize = entries.len();
            let mut i: usize = 0;
            assert(entries@.skip(0) =~= entries@);
            while i < n
                invariant
                    n == entries@.len(),
                    i <= n,
                    json_get(*value, key@) == entries_get(entries@.skip(i as int), key@),
                decreases n - i,
            {
                let entry = &entries[i];
                if crate::text::same_text(entry.0.as_str(), key) {
                    return Some(&entry.1);
                }
                assert(entries@.skip(i as int).drop_first() =~= entries@.skip(i + 1));
                i = i + 1;
            }
            None
        },
        _ => None,
    }
}

/// The string at `value[key]`, if it is one.
pub fn get_str<'a>(value: &'a JsonValue, key: &str) -> (r: Option<&'a String>)
    ensures
        match r {
            Some(s) => json_get_str(*value, key@) == Some(s@),
            None => json_get_str(*value, key@) is None,
        },
{
    match get(value, key) {
        Some(JsonValue::Str(s)) => Some(s),
        _ => None,
    }
}

/// A copy of the non-empty string at `value[key]`, if it is one.
pub fn string_field(value: &JsonValue, key: &str) -> (r: Option<String>)
    ensures
        crate::text::opt_view(r) == json_get_text(*value, key@),
{
    match get_str(value, key) {
        Some(s) => {
            if s.as_str().is_empty() {
                None
            } else {
                Some(s.clone())
            }
        },
        None => None,
    }
}

/// `value[key]` when it is an object.
pub fn get_object<'a>(value: &'a JsonValue, key: &str) -> (r: Option<&'a JsonValue>)
    ensures
        match r {
            Some(v) => json_get_object(*value, key@) == Some(*v),
            None => json_get_object(*value, key@) is None,
        },
{
    match get(value, key) {
        Some(v) => match v {
            JsonValue::Object(_) => Some(v),
            _ => None,
        },
        None => None,
    }
}

} // verus!
