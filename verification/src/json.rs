//! The JSON reader and writer the validators rely on.

use vstd::prelude::*;

verus! {

/// The top-level shape of a JSON document.
#[derive(Debug, Clone, Copy, PartialEq, Eq, Structural)]
pub enum JsonShape {
    Object,
    Array,
    Scalar,
}

/// What reading `raw` as a JSON document gives: its shape and its canonical
/// re-serialization, or `(true, message)` when `raw` is not JSON and
/// `(false, message)` when re-serializing failed.
pub uninterp spec fn json_reading(raw: Seq<char>) -> Result<(JsonShape, Seq<char>), (bool, Seq<char>)>;

/// `serde_json::from_str::<serde_json::Value>`, followed by
/// `serde_json::to_string` of the value read; the shape is the value's
/// variant. The result is named, not described: it is a function of `raw`.
#[verifier::external_body]
pub(crate) fn read_json(raw: &str) -> (r: Result<(JsonShape, String), (bool, String)>)
    ensures
        match r {
            Ok((shape, text)) => json_reading(raw@) == Ok::<(JsonShape, Seq<char>), (bool, Seq<char>)>((shape, text@)),
            Err((syntax, e)) => json_reading(raw@) == Err::<(JsonShape, Seq<char>), (bool, Seq<char>)>((syntax, e@)),
        },
{
    let value: serde_json::Value = serde_json::from_str(raw).map_err(|err| (true, err.to_string()))?;
    let shape = match &value {
        serde_json::Value::Object(_) => JsonShape::Object,
        serde_json::Value::Array(_) => JsonShape::Array,
        serde_json::Value::Null => JsonShape::Scalar,
        serde_json::Value::Bool(_) => JsonShape::Scalar,
        serde_json::Value::Number(_) => JsonShape::Scalar,
        serde_json::Value::String(_) => JsonShape::Scalar,
    };
    serde_json::to_string(&value).map(|text| (shape, text)).map_err(|err| (false, err.to_string()))
}

/// What reading `raw` as a JSON array of strings gives: the strings, or the
/// reader's error message.
pub uninterp spec fn json_string_array(raw: Seq<char>) -> Result<Seq<Seq<char>>, Seq<char>>;

/// `serde_json::from_str::<Vec<String>>`.
#[verifier::external_body]
pub(crate) fn read_string_array(raw: &str) -> (r: Result<Vec<String>, String>)
    ensures
        match r {
            Ok(v) => json_string_array(raw@) == Ok::<Seq<Seq<char>>, Seq<char>>(v.deep_view()),
            Err(e) => json_string_array(raw@) == Err::<Seq<Seq<char>>, Seq<char>>(e@),
        },
{
    serde_json::from_str::<Vec<String>>(raw).map_err(|err| err.to_string())
}

/// What writing `args` as a JSON array of strings gives.
pub uninterp spec fn json_strings_text(args: Seq<Seq<char>>) -> Result<Seq<char>, Seq<char>>;

/// `serde_json::to_string` of a list of strings.
#[verifier::external_body]
pub(crate) fn write_string_array(args: &Vec<String>) -> (r: Result<String, String>)
    ensures
        match r {
            Ok(t) => json_strings_text(args.deep_view()) == Ok::<Seq<char>, Seq<char>>(t@),
            Err(e) => json_strings_text(args.deep_view()) == Err::<Seq<char>, Seq<char>>(e@),
        },
{
    serde_json::to_string(args).map_err(|err| err.to_string())
}

} // verus!
