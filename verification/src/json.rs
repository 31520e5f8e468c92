//! The engine's own JSON model. Document text is parsed by `serde_json`
//! behind a trusted boundary; every shape check and field extraction is then
//! verified code over this model.
use vstd::prelude::*;
use vstd::string::*;

verus! {

/// The JSON shapes the engine reads and writes. A number outside `u64`
/// (floating-point or negative) is carried as `Unsupported`, so shape checks
/// reject it explicitly rather than coercing it.
pub enum Json {
    Null,
    Bool(bool),
    UInt(u64),
    Str(String),
    Arr(Vec<Json>),
    Obj(Vec<(String, Json)>),
    Unsupported,
}

#[verifier::external_type_specification]
#[verifier::external_body]
pub struct ExValue(serde_json::Value);

/// What `serde_json` parses a document's text into, mapped onto `Json`;
/// `None` where the text is not valid JSON. The result is a function of the
/// text alone.
pub uninterp spec fn parsed_json(s: Seq<char>) -> Option<Json>;

/// The document text `serde_json` renders for a JSON value. The result is a
/// function of the value alone.
pub uninterp spec fn json_text(j: Json) -> Seq<char>;

/// Relies on serde_json::Value: tells its variants apart, one arm each;
/// numbers that do not fit `u64` become `Unsupported`. Called only inside the
/// trusted parse boundary below.
#[verifier::external_body]
fn json_of_value(v: &serde_json::Value) -> Json {
    match v {
        serde_json::Value::Null => Json::Null,
        serde_json::Value::Bool(b) => Json::Bool(*b),
        serde_json::Value::Number(n) => match n.as_u64() {
            Some(u) => Json::UInt(u),
            None => Json::Unsupported,
        },
        serde_json::Value::String(s) => Json::Str(s.clone()),
        serde_json::Value::Array(a) => Json::Arr(a.iter().map(json_of_value).collect()),
        serde_json::Value::Object(m) => Json::Obj(
            m.iter().map(|(k, x)| (k.clone(), json_of_value(x))).collect(),
        ),
    }
}

/// Relies on serde_json::Value: the mirror of `json_of_value`, one arm per
/// variant. Values the engine writes never contain `Unsupported`.
#[verifier::external_body]
fn value_of_json(j: &Json) -> serde_json::Value {
    match j {
        Json::Null => serde_json::Value::Null,
        Json::Unsupported => serde_json::Value::Null,
        Json::Bool(b) => serde_json::Value::Bool(*b),
        Json::UInt(u) => serde_json::Value::Number(serde_json::Number::from(*u)),
        Json::Str(s) => serde_json::Value::String(s.clone()),
        Json::Arr(a) => serde_json::Value::Array(a.iter().map(value_of_json).collect()),
        Json::Obj(f) => serde_json::Value::Object(
            f.iter().map(|(k, x)| (k.clone(), value_of_json(x))).collect(),
        ),
    }
}

/// Relies on serde_json::from_str::<Value>: parses one JSON document, failing
/// exactly on text that is not valid JSON.
#[verifier::external_body]
pub(crate) fn parse_json(s: &str) -> (r: Option<Json>)
    ensures
        r == parsed_json(s@),
{
    match serde_json::from_str::<serde_json::Value>(s) {
        Ok(v) => Some(json_of_value(&v)),
        Err(_) => None,
    }
}

/// Relies on serde_json::to_string_pretty: renders a value as document text;
/// rendering a `Value` tree never fails.
#[verifier::external_body]
pub(crate) fn json_to_text(j: &Json) -> (r: String)
    ensures
        r@ == json_text(*j),
{
    serde_json::to_string_pretty(&value_of_json(j)).unwrap_or_else(|_| String::new())
}

/// The first binding of `key` among an object's fields, if any.
pub open spec fn spec_obj_lookup(fields: Seq<(String, Json)>, key: Seq<char>) -> Option<Json>
    decreases fields.len(),
{
    if fields.len() == 0 {
        None
    } else if fields[0].0@ == key {
        Some(fields[0].1)
    } else {
        spec_obj_lookup(fields.drop_first(), key)
    }
}

/// Looks a key up in an object's field list.
pub fn obj_lookup<'a>(fields: &'a Vec<(String, Json)>, key: &String) -> (r: Option<&'a Json>)
    ensures
        match r {
            Some(j) => spec_obj_lookup(fields@, key@) == Some(*j),
            None => spec_obj_lookup(fields@, key@) is None,
        },
{
    let mut i: usize = 0;
    proof {
        assert(fields@.skip(0) =~= fields@);
    }
    while i < fields.len()
        invariant
            0 <= i <= fields@.len(),
            spec_obj_lookup(fields@, key@) == spec_obj_lookup(fields@.skip(i as int), key@),
        decreases fields@.len() - i,
    {
        let pair: &(String, Json) = &fields[i];
        proof {
            assert(fields@.skip(i as int)[0] == fields@[i as int]);
            assert(fields@.skip(i as int).drop_first() =~= fields@.skip(i as int + 1));
        }
        if pair.0 == *key {
            return Some(&pair.1);
        }
        i += 1;
    }
    proof {
        assert(fields@.skip(fields@.len() as int).len() == 0);
    }
    None
}

} // verus!
