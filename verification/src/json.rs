//! JSON text and the values it holds.
use serde_json::Value;
use vstd::prelude::*;
use vstd::string::*;

verus! {

/// A JSON value of `serde_json`.
#[verifier::external_type_specification]
#[verifier::external_body]
pub struct ExValue(serde_json::Value);

/// What a JSON value holds, as its compact text says it.
pub uninterp spec fn json_text(value: Value) -> Seq<char>;

/// The compact text of the JSON value that `text` holds, or why it holds none.
pub uninterp spec fn json_value(text: Seq<char>) -> Result<Seq<char>, Seq<char>>;

/// Whether JSON values with these compact texts are equal.
pub uninterp spec fn json_same(left: Seq<char>, right: Seq<char>) -> bool;

/// `serde_json::from_str` into a `serde_json::Value`: what the value holds, or
/// the text of the error, is a function of `text`.
#[verifier::external_body]
pub(crate) fn json_parse(text: &str) -> (r: Result<Value, String>)
    ensures
        match r {
            Ok(value) => json_value(text@) matches Ok(held) && held == json_text(value),
            Err(reason) => json_value(text@) matches Err(why) && why == reason@,
        },
{
    serde_json::from_str(text).map_err(|error| error.to_string())
}

/// `==` of `serde_json::Value`: the answer is a function of what the values
/// hold, and values with the same compact text are equal. That text tells
/// integers from floats and gives every number exactly. It also gives the sign
/// of a zero, which equality ignores.
#[verifier::external_body]
pub(crate) fn json_equal(left: &Value, right: &Value) -> (r: bool)
    ensures
        r == json_same(json_text(*left), json_text(*right)),
        json_text(*left) == json_text(*right) ==> r,
{
    left == right
}

} // verus!
