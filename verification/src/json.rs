//! JSON text.

use vstd::prelude::*;

verus! {

/// The compact text that serde_json writes for the value it reads from a text; `None` where the
/// text is not JSON.
pub uninterp spec fn json_compact(text: Seq<char>) -> Option<Seq<char>>;

/// `serde_json::from_str` into a `serde_json::Value`, then `serde_json::to_string`, which does
/// not fail on a `Value`.
#[verifier::external_body]
pub(crate) fn compact_json(text: &str) -> (compact: Option<String>)
    ensures
        match json_compact(text@) {
            Some(expected) => compact is Some && compact->0@ == expected,
            None => compact is None,
        },
{
    let value = serde_json::from_str::<serde_json::Value>(text).ok()?;
    serde_json::to_string(&value).ok()
}

/// A value in a JSON object, as far as it matters here.
#[derive(Debug)]
pub enum JsonField<T> {
    Null,
    /// A number that a `u64` holds.
    Number(u64),
    Text(T),
    Other,
}

impl DeepView for JsonField<String> {
    type V = JsonField<Seq<char>>;

    open spec fn deep_view(&self) -> JsonField<Seq<char>> {
        match self {
            JsonField::Null => JsonField::Null,
            JsonField::Number(number) => JsonField::Number(*number),
            JsonField::Text(text) => JsonField::Text(text@),
            JsonField::Other => JsonField::Other,
        }
    }
}

/// The fields of the object that serde_json reads from a text; `None` where the text is not a
/// JSON object.
pub uninterp spec fn json_fields(text: Seq<char>) -> Option<Map<Seq<char>, JsonField<Seq<char>>>>;

/// `serde_json::from_str` into a `serde_json::Value`, and `Value::get` on it where it is an
/// object: the field of that name.
#[verifier::external_body]
pub(crate) fn json_field(text: &str, name: &str) -> (field: Option<Option<JsonField<String>>>)
    ensures
        match json_fields(text@) {
            Some(fields) => field is Some && match field->0 {
                Some(value) => fields.dom().contains(name@) && value.deep_view() == fields[name@],
                None => !fields.dom().contains(name@),
            },
            None => field is None,
        },
{
    let value = serde_json::from_str::<serde_json::Value>(text).ok()?;
    let field = value.as_object()?.get(name);
    Some(field.map(|field| match field {
        serde_json::Value::Null => JsonField::Null,
        serde_json::Value::String(text) => JsonField::Text(text.clone()),
        serde_json::Value::Number(number) => number.as_u64().map_or(JsonField::Other, JsonField::Number),
        _ => JsonField::Other,
    }))
}

} // verus!
