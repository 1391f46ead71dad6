//! Reading and comparing JSON text, through `serde_json`.

use vstd::prelude::*;

verus! {

/// What `serde_json` makes of `text`: on success, the compact rendering of
/// the JSON value it holds (object keys in sorted order); on failure, the
/// parse error's message.
pub uninterp spec fn json_parse(text: Seq<char>) -> Result<Seq<char>, Seq<char>>;

/// Parses `text` as a JSON value with `serde_json::from_str`, handing back
/// the value rendered compactly (its `Display`), or the error's message.
///
/// The result is named, not stated: it is whatever `serde_json` computes
/// from `text`, and the same `text` always gives the same result.
#[verifier::external_body]
pub(crate) fn parse_json(text: &str) -> (r: Result<String, String>)
    ensures
        match r {
            Ok(value) => json_parse(text@) == Ok::<Seq<char>, Seq<char>>(value@),
            Err(message) => json_parse(text@) == Err::<Seq<char>, Seq<char>>(message@),
        },
{
    match serde_json::from_str::<serde_json::Value>(text) {
        Ok(value) => Ok(value.to_string()),
        Err(error) => Err(error.to_string()),
    }
}

/// Whether `serde_json` reads both `a` and `b` as JSON values and holds
/// the two values equal: objects compared as maps (key order does not
/// matter), numbers compared as `serde_json` compares them (so `0.0` equals
/// `-0.0`). `false` when either text does not parse.
pub uninterp spec fn json_equal(a: Seq<char>, b: Seq<char>) -> bool;

/// Parses `a` and `b` with `serde_json::from_str` into `serde_json::Value`s
/// and compares them with `Value`'s `==`; a text that does not parse
/// compares unequal.
///
/// The result is named, not stated: it is whatever `serde_json` computes
/// from the two texts, and the same texts always give the same result.
#[verifier::external_body]
pub(crate) fn same_json(a: &str, b: &str) -> (r: bool)
    ensures
        r == json_equal(a@, b@),
{
    match (
        serde_json::from_str::<serde_json::Value>(a),
        serde_json::from_str::<serde_json::Value>(b),
    ) {
        (Ok(x), Ok(y)) => x == y,
        _ => false,
    }
}

} // verus!
