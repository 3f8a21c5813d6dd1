use vstd::prelude::*;

verus! {

/// A JSON value as the library reads it. A number carries its value when it
/// is a non-negative integer that fits in 64 bits, and its text.
pub enum JsonView {
    Null,
    Bool(bool),
    Number { uint: Option<u64>, text: Seq<char> },
    Str(Seq<char>),
    Array(Seq<JsonView>),
    /// Members in serde_json's order, one per key.
    Object(Seq<(Seq<char>, JsonView)>),
}

#[verifier::external_type_specification]
#[verifier::external_body]
pub struct ExJsonValue(serde_json::Value);

/// What a serde_json value holds.
pub uninterp spec fn json_value(v: serde_json::Value) -> JsonView;

/// The value serde_json parses from a whole text, if it is JSON.
pub uninterp spec fn json_of(text: Seq<char>) -> Option<JsonView>;

/// The compact JSON text serde_json writes for a value.
pub uninterp spec fn json_text_of(j: JsonView) -> Seq<char>;

/// The text with leading and trailing whitespace removed, as `str::trim` does it.
pub uninterp spec fn trimmed(s: Seq<char>) -> Seq<char>;

/// The value of the first member named `key`.
pub open spec fn member(members: Seq<(Seq<char>, JsonView)>, key: Seq<char>) -> Option<JsonView>
    decreases members.len(),
{
    if members.len() == 0 {
        None
    } else if members[0].0 == key {
        Some(members[0].1)
    } else {
        member(members.drop_first(), key)
    }
}

/// Relies on serde_json::Value::as_str: the text of a JSON string, `None` for
/// any other value.
pub assume_specification<'a>[ serde_json::Value::as_str ](v: &'a serde_json::Value) -> (r: Option<&'a str>)
    ensures
        match json_value(*v) {
            JsonView::Str(s) => r.is_some() && r.unwrap()@ == s,
            _ => r.is_none(),
        },
;

/// Relies on serde_json::Value::as_u64: the value of a non-negative integer that
/// fits in 64 bits, `None` for any other value.
pub assume_specification[ serde_json::Value::as_u64 ](v: &serde_json::Value) -> (r: Option<u64>)
    ensures
        match json_value(*v) {
            JsonView::Number { uint, text } => r == uint,
            _ => r.is_none(),
        },
;

/// Relies on serde_json::from_str: parses a whole JSON document.
#[verifier::external_body]
pub(crate) fn parse_json(text: &str) -> (r: Option<serde_json::Value>)
    ensures
        match r {
            Some(v) => json_of(text@) == Some(json_value(v)),
            None => json_of(text@).is_none(),
        },
{
    serde_json::from_str::<serde_json::Value>(text).ok()
}

/// Relies on serde_json::Value::get with a string key: the member `key` of a
/// JSON object, `None` for any other value.
#[verifier::external_body]
pub(crate) fn json_member(v: &serde_json::Value, key: &str) -> (r: Option<serde_json::Value>)
    ensures
        match json_value(*v) {
            JsonView::Object(ms) => match r {
                Some(x) => member(ms, key@) == Some(json_value(x)),
                None => member(ms, key@).is_none(),
            },
            _ => r.is_none(),
        },
{
    v.get(key).cloned()
}

/// Relies on serde_json::Value::as_object: the members of a JSON object, in
/// the map's order; `None` for any other value.
#[verifier::external_body]
pub(crate) fn json_members(v: &serde_json::Value) -> (r: Option<Vec<(String, serde_json::Value)>>)
    ensures
        match json_value(*v) {
            JsonView::Object(ms) => r.is_some() && r.unwrap()@.map_values(
                |m: (String, serde_json::Value)| (m.0@, json_value(m.1)),
            ) == ms,
            _ => r.is_none(),
        },
{
    v.as_object().map(|m| m.iter().map(|(k, x)| (k.clone(), x.clone())).collect())
}

/// Relies on serde_json's Display for Value: the value as compact JSON text.
#[verifier::external_body]
pub(crate) fn json_text(v: &serde_json::Value) -> (r: String)
    ensures
        r@ == json_text_of(json_value(*v)),
{
    v.to_string()
}

/// Relies on str::trim: removes leading and trailing whitespace.
#[verifier::external_body]
pub(crate) fn trim(s: &str) -> (r: &str)
    ensures
        r@ == trimmed(s@),
{
    s.trim()
}

} // verus!
