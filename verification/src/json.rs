//! JSON texts, read and written by the `serde_json` crate.

use vstd::prelude::*;

verus! {

/// What reading a text as a JSON value gives: the value's compact text, or the message with
/// which the text is rejected.
pub uninterp spec fn json_reading(text: Seq<char>) -> Result<Seq<char>, Seq<char>>;

/// The JSON string literal of a text, quotes included.
pub uninterp spec fn json_literal(text: Seq<char>) -> Seq<char>;

/// `serde_json::from_str`, reading a `serde_json::Value`, which is kept as its compact text; an
/// error is kept as its message.
#[verifier::external_body]
pub(crate) fn read_json(text: &str) -> (r: Result<String, String>)
    ensures
        match r {
            Ok(v) => json_reading(text@) == Ok::<Seq<char>, Seq<char>>(v@),
            Err(e) => json_reading(text@) == Err::<Seq<char>, Seq<char>>(e@),
        },
{
    serde_json::from_str::<serde_json::Value>(text).map(|v| v.to_string()).map_err(|e| e.to_string())
}

/// `serde_json::to_string` of a text: the JSON string literal. Writing a text does not fail.
#[verifier::external_body]
pub(crate) fn quote_json(text: &str) -> (r: String)
    ensures
        r@ == json_literal(text@),
{
    serde_json::to_string(text).unwrap()
}

} // verus!
