//! The top-level fields of a JSON object document, as the account logic
//! reads them: text, flags and integers by key, with the trimming and
//! fallback rules of the stored auth payloads.
use vstd::prelude::*;
use crate::text::{str_equals, string_from_chars, trim, trimmed_chars};

verus! {

/// The value of one top-level field.
#[derive(Debug, Clone)]
pub enum JsonFieldValue {
    /// A JSON string.
    Text(String),
    /// A JSON boolean.
    Flag(bool),
    /// A JSON number: its value as `u64` and as `i64`, where it is one.
    Number { unsigned: Option<u64>, signed: Option<i64> },
    /// Anything else (null, a float-only number, an array or an object).
    Other,
}

/// One top-level field of an object.
#[derive(Debug, Clone)]
pub struct JsonField {
    pub key: String,
    pub value: JsonFieldValue,
}

/// What a field value holds.
pub enum JsonFieldView {
    Text(Seq<char>),
    Flag(bool),
    Number(Option<u64>, Option<i64>),
    Other,
}

pub open spec fn field_value_view(v: JsonFieldValue) -> JsonFieldView {
    match v {
        JsonFieldValue::Text(s) => JsonFieldView::Text(s@),
        JsonFieldValue::Flag(b) => JsonFieldView::Flag(b),
        JsonFieldValue::Number { unsigned, signed } => JsonFieldView::Number(unsigned, signed),
        JsonFieldValue::Other => JsonFieldView::Other,
    }
}

pub open spec fn fields_view(fields: Seq<JsonField>) -> Seq<(Seq<char>, JsonFieldView)> {
    Seq::new(fields.len(), |i: int| (fields[i].key@, field_value_view(fields[i].value)))
}

/// The top-level fields of a JSON document: `None` when it does not parse,
/// no fields when it is not an object.
pub uninterp spec fn json_object_fields(text: Seq<char>) -> Option<Seq<(Seq<char>, JsonFieldView)>>;

/// `serde_json::from_str::<serde_json::Value>`, then the entries of the
/// object, each value told apart by its kind (numbers read with
/// `Number::as_u64` and `Number::as_i64`). The fields are a function of the
/// text alone, and an object's keys are distinct.
#[verifier::external_body]
fn json_top_level_fields(text: &str) -> (r: Option<Vec<JsonField>>)
    ensures
        match r {
            Some(v) => json_object_fields(text@) == Some(fields_view(v@)),
            None => json_object_fields(text@) is None,
        },
        r matches Some(v) ==> forall|i: int, j: int| 0 <= i < j < v@.len() ==> v@[i].key@ != v@[j].key@,
{
    let Ok(value) = serde_json::from_str::<serde_json::Value>(text) else { return None };
    let mut out = Vec::new();
    if let serde_json::Value::Object(map) = value {
        for (key, item) in map {
            let value = match item {
                serde_json::Value::String(s) => JsonFieldValue::Text(s),
                serde_json::Value::Bool(b) => JsonFieldValue::Flag(b),
                serde_json::Value::Number(n) => JsonFieldValue::Number { unsigned: n.as_u64(), signed: n.as_i64() },
                _ => JsonFieldValue::Other,
            };
            out.push(JsonField { key, value });
        }
    }
    Some(out)
}

/// The parsed top-level fields of a JSON document, or `None` when it does
/// not parse.
pub fn parse_json_fields(text: &str) -> (r: Option<Vec<JsonField>>)
    ensures
        match r {
            Some(v) => json_object_fields(text@) == Some(fields_view(v@)),
            None => json_object_fields(text@) is None,
        },
{
    json_top_level_fields(text)
}

/// The value under `key` (the first field with that key).
pub open spec fn field_get(fields: Seq<(Seq<char>, JsonFieldView)>, key: Seq<char>) -> Option<JsonFieldView>
    decreases fields.len(),
{
    if fields.len() == 0 {
        None
    } else if fields[0].0 == key {
        Some(fields[0].1)
    } else {
        field_get(fields.drop_first(), key)
    }
}

/// The trimmed text under `key`, when it is a non-blank string.
pub open spec fn field_text(fields: Seq<(Seq<char>, JsonFieldView)>, key: Seq<char>) -> Option<Seq<char>> {
    match field_get(fields, key) {
        Some(JsonFieldView::Text(s)) => if trim(s).len() > 0 { Some(trim(s)) } else { None },
        _ => None,
    }
}

/// The flag under `key`, when it is a boolean.
pub open spec fn field_flag(fields: Seq<(Seq<char>, JsonFieldView)>, key: Seq<char>) -> Option<bool> {
    match field_get(fields, key) {
        Some(JsonFieldView::Flag(b)) => Some(b),
        _ => None,
    }
}

/// The count under `key`: the number as `u64`, else as `i64` clamped at
/// zero.
pub open spec fn field_count(fields: Seq<(Seq<char>, JsonFieldView)>, key: Seq<char>) -> Option<u64> {
    match field_get(fields, key) {
        Some(JsonFieldView::Number(u, s)) => match u {
            Some(x) => Some(x),
            None => match s {
                Some(y) => Some((if y < 0 { 0 } else { y }) as u64),
                None => None,
            },
        },
        _ => None,
    }
}

/// The integer under `key`, when it is one that fits `i64`.
pub open spec fn field_integer(fields: Seq<(Seq<char>, JsonFieldView)>, key: Seq<char>) -> Option<i64> {
    match field_get(fields, key) {
        Some(JsonFieldView::Number(_, s)) => s,
        _ => None,
    }
}

fn find_field<'a>(fields: &'a Vec<JsonField>, key: &str) -> (r: Option<&'a JsonFieldValue>)
    ensures
        match r {
            Some(v) => field_get(fields_view(fields@), key@) == Some(field_value_view(*v)),
            None => field_get(fields_view(fields@), key@) is None,
        },
{
    let ghost fv = fields_view(fields@);
    let mut i: usize = 0;
    assert(fv.subrange(0, fv.len() as int) =~= fv);
    while i < fields.len()
        invariant
            i <= fields@.len(),
            fv == fields_view(fields@),
            field_get(fv, key@) == field_get(fv.subrange(i as int, fv.len() as int), key@),
        decreases fields.len() - i,
    {
        let ghost rest = fv.subrange(i as int, fv.len() as int);
        assert(rest.drop_first() =~= fv.subrange(i + 1, fv.len() as int));
        assert(rest[0] == fv[i as int]);
        if str_equals(fields[i].key.as_str(), key) {
            return Some(&fields[i].value);
        }
        i = i + 1;
    }
    None
}

/// The trimmed non-blank text under `key`.
pub fn json_text(fields: &Vec<JsonField>, key: &str) -> (r: Option<String>)
    ensures
        r.deep_view() == field_text(fields_view(fields@), key@),
{
    match find_field(fields, key) {
        Some(JsonFieldValue::Text(s)) => {
            let t = trimmed_chars(s.as_str());
            if t.len() > 0 {
                Some(string_from_chars(&t))
            } else {
                None
            }
        },
        _ => None,
    }
}

/// The flag under `key`.
pub fn json_flag(fields: &Vec<JsonField>, key: &str) -> (r: Option<bool>)
    ensures
        r == field_flag(fields_view(fields@), key@),
{
    match find_field(fields, key) {
        Some(JsonFieldValue::Flag(b)) => Some(*b),
        _ => None,
    }
}

/// The count under `key`.
pub fn json_count(fields: &Vec<JsonField>, key: &str) -> (r: Option<u64>)
    ensures
        r == field_count(fields_view(fields@), key@),
{
    match find_field(fields, key) {
        Some(JsonFieldValue::Number { unsigned, signed }) => match unsigned {
            Some(x) => Some(*x),
            None => match signed {
                Some(y) => Some(if *y < 0 { 0 } else { *y as u64 }),
                None => None,
            },
        },
        _ => None,
    }
}

/// The integer under `key`.
pub fn json_integer(fields: &Vec<JsonField>, key: &str) -> (r: Option<i64>)
    ensures
        r == field_integer(fields_view(fields@), key@),
{
    match find_field(fields, key) {
        Some(JsonFieldValue::Number { unsigned: _, signed }) => *signed,
        _ => None,
    }
}

} // verus!
