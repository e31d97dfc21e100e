use vstd::prelude::*;


verus! {

#[verifier::external_type_specification]
#[verifier::external_body]
pub struct ExJsonValue(serde_json::Value);

/// A JSON document, as `serde_json` reads it: numbers keep their text,
/// objects their entries in the order the parser keeps them.
#[derive(Debug)]
pub enum JsonValue {
    Null,
    Bool(bool),
    Number(String),
    Str(String),
    Array(Vec<JsonValue>),
    Object(Vec<(String, JsonValue)>),
}

/// The model of a JSON value.
pub enum JsonView {
    Null,
    Bool(bool),
    Number(Seq<char>),
    Str(Seq<char>),
    Array(Seq<JsonView>),
    Object(Seq<(Seq<char>, JsonView)>),
}

pub open spec fn json_view(v: JsonValue) -> JsonView
    decreases v,
{
    match v {
        JsonValue::Null => JsonView::Null,
        JsonValue::Bool(b) => JsonView::Bool(b),
        JsonValue::Number(n) => JsonView::Number(n@),
        JsonValue::Str(s) => JsonView::Str(s@),
        JsonValue::Array(items) => JsonView::Array(json_views(items@)),
        JsonValue::Object(entries) => JsonView::Object(entry_views(entries@)),
    }
}

pub open spec fn json_views(s: Seq<JsonValue>) -> Seq<JsonView>
    decreases s,
{
    if s.len() == 0 {
        Seq::empty()
    } else {
        json_views(s.drop_last()).push(json_view(s.last()))
    }
}

pub open spec fn entry_views(s: Seq<(String, JsonValue)>) -> Seq<(Seq<char>, JsonView)>
    decreases s,
{
    if s.len() == 0 {
        Seq::empty()
    } else {
        entry_views(s.drop_last()).push((s.last().0@, json_view(s.last().1)))
    }
}

pub open spec fn json_view_opt(v: Option<JsonValue>) -> Option<JsonView> {
    match v {
        Some(x) => Some(json_view(x)),
        None => None,
    }
}

/// What `serde_json::from_slice` reads from `bytes`: `None` where it
/// refuses them.
pub uninterp spec fn json_of(bytes: Seq<u8>) -> Option<JsonView>;

/// Reads a JSON document.
/// Trusted: `serde_json::from_slice::<serde_json::Value>`, a function of the
/// bytes alone; `Err` becomes `None`, and the value is converted variant
/// by variant (numbers by their text). What it accepts and builds is left
/// to the name `json_of`.
#[verifier::external_body]
pub fn parse_json(bytes: &[u8]) -> (r: Option<JsonValue>)
    ensures
        json_view_opt(r) == json_of(bytes@),
{
    serde_json::from_slice::<serde_json::Value>(bytes).ok().map(|v| json_value_from(&v))
}

/// The conversion of a parsed `serde_json::Value`, one arm per variant;
/// it is the second half of `parse_json`, whose contract covers it.
#[verifier::external_body]
fn json_value_from(v: &serde_json::Value) -> JsonValue {
    match v {
        serde_json::Value::Null => JsonValue::Null,
        serde_json::Value::Bool(b) => JsonValue::Bool(*b),
        serde_json::Value::Number(n) => JsonValue::Number(n.to_string()),
        serde_json::Value::String(s) => JsonValue::Str(s.clone()),
        serde_json::Value::Array(a) => JsonValue::Array(a.iter().map(json_value_from).collect()),
        serde_json::Value::Object(o) => JsonValue::Object(
            o.iter().map(|(k, x)| (k.clone(), json_value_from(x))).collect(),
        ),
    }
}

pub proof fn lemma_json_views(s: Seq<JsonValue>)
    ensures
        json_views(s).len() == s.len(),
        forall|k: int| 0 <= k < s.len() ==> #[trigger] json_views(s)[k] == json_view(s[k]),
    decreases s.len(),
{
    if s.len() > 0 {
        lemma_json_views(s.drop_last());
        assert forall|k: int| 0 <= k < s.len() implies #[trigger] json_views(s)[k] == json_view(s[k]) by {
            if k < s.len() - 1 {
                assert(s.drop_last()[k] == s[k]);
            }
        }
    }
}

pub proof fn lemma_entry_views(s: Seq<(String, JsonValue)>)
    ensures
        entry_views(s).len() == s.len(),
        forall|k: int| 0 <= k < s.len() ==> #[trigger] entry_views(s)[k] == (s[k].0@, json_view(s[k].1)),
    decreases s.len(),
{
    if s.len() > 0 {
        lemma_entry_views(s.drop_last());
        assert forall|k: int| 0 <= k < s.len() implies #[trigger] entry_views(s)[k] == (s[k].0@, json_view(s[k].1)) by {
            if k < s.len() - 1 {
                assert(s.drop_last()[k] == s[k]);
            }
        }
    }
}

/// The compact text that `serde_json` prints (`Display` for `Value`) for
/// the value built from `j`: each number read back from its text by
/// `str::parse::<Value>` (a text it refuses becomes `null`), each object
/// collected into `serde_json`'s map. The printing rules are left to the
/// name.
pub uninterp spec fn json_string(j: JsonView) -> Seq<char>;

/// The compact JSON text of a value.
/// Trusted: `serde_json::Value`'s `Display`, applied to the value converted
/// variant by variant; a function of the value alone, named `json_string`.
#[verifier::external_body]
pub fn json_to_string(v: &JsonValue) -> (r: String)
    ensures
        r@ == json_string(json_view(*v)),
{
    serde_value_of(v).to_string()
}

/// The conversion into a `serde_json::Value`, one arm per variant; it is
/// the first half of `json_to_string`, whose contract covers it.
#[verifier::external_body]
fn serde_value_of(v: &JsonValue) -> serde_json::Value {
    match v {
        JsonValue::Null => serde_json::Value::Null,
        JsonValue::Bool(b) => serde_json::Value::Bool(*b),
        JsonValue::Number(n) => n.parse::<serde_json::Value>().unwrap_or(serde_json::Value::Null),
        JsonValue::Str(s) => serde_json::Value::String(s.clone()),
        JsonValue::Array(a) => serde_json::Value::Array(a.iter().map(serde_value_of).collect()),
        JsonValue::Object(o) => serde_json::Value::Object(
            o.iter().map(|(k, x)| (k.clone(), serde_value_of(x))).collect(),
        ),
    }
}

} // verus!
