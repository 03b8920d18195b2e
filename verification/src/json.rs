//! The one piece of JSON text encoding that is delegated to the external
//! serializer: quoting and escaping a string. Everything built on top of it
//! (numbers, objects, field order) is rendered by this crate itself.

use vstd::prelude::*;

verus! {

/// The JSON string literal (opening quote, escaped characters, closing
/// quote) that the external serializer produces for a given text. It is a
/// function of the characters alone.
pub uninterp spec fn json_str_lit(s: Seq<char>) -> Seq<char>;

/// Relies on serde_json::to_string on a string slice: it writes an opening
/// double quote, the escaped characters, and a closing double quote, and it
/// cannot fail for a string input.
#[verifier::external_body]
pub fn json_quote(s: &str) -> (r: String)
    ensures
        r@ == json_str_lit(s@),
        r@.len() >= 2,
        r@[0] == '"',
        r@.last() == '"',
{
    serde_json::to_string(s).unwrap()
}

} // verus!
