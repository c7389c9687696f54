use crate::json::Json;
use crate::json::JsonView;
use crate::json::Member;
use serde_json::Value;
use vstd::prelude::*;

verus! {

/// A value of `serde_json`, carried as it is.
#[verifier::external_type_specification]
#[verifier::external_body]
pub struct ExValue(Value);

/// What a value of `serde_json` holds: its variant and what stands in it,
/// the members of an object in the order in which its map yields them.
pub uninterp spec fn value_view(v: Value) -> JsonView;

/// What `serde_json` holds once a value was handed to it: the same value as
/// `serde_json` keeps it.
pub uninterp spec fn kept_json(doc: JsonView) -> JsonView;

/// What `serde_json::from_str` makes of a text: the value that it reads, or
/// the message of the error that it reports.
pub uninterp spec fn parsed_json(text: Seq<char>) -> Result<JsonView, Seq<char>>;

/// What `serde_json::to_string_pretty` makes of a value that `serde_json`
/// holds: the indented text, or the message of the error that it reports.
pub uninterp spec fn rendered_json(held: JsonView) -> Result<Seq<char>, Seq<char>>;

/// What writing a value yields: the indented text of the value as
/// `serde_json` keeps it, or the message of the error.
pub open spec fn written_json(doc: JsonView) -> Result<Seq<char>, Seq<char>> {
    rendered_json(kept_json(doc))
}

/// Calls `serde_json::from_str` for a `serde_json::Value`. The outcome is a
/// function of the text alone: the value read, or the error's message.
#[verifier::external_body]
pub(crate) fn value_from_text(text: &str) -> (r: Result<Value, String>)
    ensures
        match r {
            Ok(v) => parsed_json(text@) == Ok::<JsonView, Seq<char>>(value_view(v)),
            Err(e) => parsed_json(text@) == Err::<JsonView, Seq<char>>(e@),
        },
{
    serde_json::from_str::<Value>(text).map_err(|e| e.to_string())
}

/// Calls `serde_json::to_string_pretty`. The outcome is a function of what
/// the value holds: the indented text, or the error's message.
#[verifier::external_body]
pub(crate) fn text_from_value(v: &Value) -> (r: Result<String, String>)
    ensures
        match r {
            Ok(t) => rendered_json(value_view(*v)) == Ok::<Seq<char>, Seq<char>>(t@),
            Err(e) => rendered_json(value_view(*v)) == Err::<Seq<char>, Seq<char>>(e@),
        },
{
    serde_json::to_string_pretty(v).map_err(|e| e.to_string())
}

/// Rebuilds a value of `serde_json` as a [`Json`], variant by variant, so
/// that the result holds what the value holds. A number goes to `Unsigned`
/// where `as_u64` has it, else to `Signed` where `as_i64` has it, else to
/// `Real`.
#[verifier::external_body]
pub(crate) fn json_from_value(v: Value) -> (r: Json)
    ensures
        r@ == value_view(v),
{
    match v {
        Value::Null => Json::Null,
        Value::Bool(b) => Json::Bool(b),
        Value::Number(n) => match (n.as_u64(), n.as_i64()) {
            (Some(u), _) => Json::Unsigned(u),
            (None, Some(i)) => Json::Signed(i),
            (None, None) => Json::Real(n),
        },
        Value::String(s) => Json::Str(s),
        Value::Array(a) => Json::Array(a.into_iter().map(json_from_value).collect()),
        Value::Object(m) => Json::Object(
            m.into_iter().map(|(key, x)| Member { key, value: json_from_value(x) }).collect(),
        ),
    }
}

/// Rebuilds a [`Json`] as a value of `serde_json`, variant by variant. The
/// members of an object are put into its map with `Map::insert`, one after
/// the other. What the result holds is a function of what `j` holds.
#[verifier::external_body]
pub(crate) fn value_from_json(j: &Json) -> (r: Value)
    ensures
        value_view(r) == kept_json(j@),
{
    match j {
        Json::Null => Value::Null,
        Json::Bool(b) => Value::Bool(*b),
        Json::Unsigned(n) => Value::from(*n),
        Json::Signed(n) => Value::from(*n),
        Json::Real(n) => Value::Number(n.clone()),
        Json::Str(s) => Value::String(s.clone()),
        Json::Array(items) => Value::Array(items.iter().map(value_from_json).collect()),
        Json::Object(members) => {
            let mut map = serde_json::Map::new();
            members.iter().for_each(|m| drop(map.insert(m.key.clone(), value_from_json(&m.value))));
            Value::Object(map)
        },
    }
}

/// Reads a JSON text.
pub fn parse(text: &str) -> (r: Result<Json, String>)
    ensures
        match r {
            Ok(j) => parsed_json(text@) == Ok::<JsonView, Seq<char>>(j@),
            Err(e) => parsed_json(text@) == Err::<JsonView, Seq<char>>(e@),
        },
{
    match value_from_text(text) {
        Ok(v) => Ok(json_from_value(v)),
        Err(e) => Err(e),
    }
}

/// Writes a value as indented JSON text.
pub fn render(doc: &Json) -> (r: Result<String, String>)
    ensures
        match r {
            Ok(t) => written_json(doc@) == Ok::<Seq<char>, Seq<char>>(t@),
            Err(e) => written_json(doc@) == Err::<Seq<char>, Seq<char>>(e@),
        },
{
    let held = value_from_json(doc);
    text_from_value(&held)
}

} // verus!
