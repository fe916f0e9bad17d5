//! Parameter schema loader: reads the ordered list of parameter names a
//! module type declares from the text of its schema file, a JSON array
//! of strings.  Reading the file itself is the caller's work; this
//! module only parses.

use vstd::prelude::*;

verus! {

/// What `serde_json::from_str::<Vec<String>>` yields for a given text:
/// the parameter names if the text is a well-formed JSON array of
/// strings, nothing otherwise.  A function of the text alone.
pub uninterp spec fn json_string_list(s: Seq<char>) -> Option<Seq<Seq<char>>>;

#[verifier::external_type_specification]
#[verifier::external_body]
pub struct ExSerdeJsonError(serde_json::Error);

/// Relies on `serde_json::from_str::<Vec<String>>`: succeeds exactly on
/// the texts that parse as a JSON array of strings, and then returns
/// those strings in order; the outcome depends on the text alone.
#[verifier::external_body]
fn parse_string_array(s: &str) -> (r: Result<Vec<String>, serde_json::Error>)
    ensures
        r is Ok <==> json_string_list(s@) is Some,
        r is Ok ==> json_string_list(s@) == Some(r->Ok_0.deep_view()),
{
    serde_json::from_str::<Vec<String>>(s)
}

/// Why a schema text was rejected.
#[derive(PartialEq, Eq, Structural, Clone, Copy, Debug)]
pub enum SchemaError {
    /// The text is not a well-formed JSON array of strings.
    NotAStringArray,
}

/// Loads a parameter schema from the text of a schema file: the ordered
/// parameter names if the text is a JSON array of strings, an error
/// exactly otherwise.  Duplicate names are kept as given; deciding what
/// they mean is the renderer's business, not the loader's.
pub fn load_schema(text: &str) -> (r: Result<Vec<String>, SchemaError>)
    ensures
        match r {
            Ok(v) => json_string_list(text@) == Some(v.deep_view()),
            Err(e) => json_string_list(text@) is None && e == SchemaError::NotAStringArray,
        },
{
    match parse_string_array(text) {
        Ok(v) => Ok(v),
        Err(_) => Err(SchemaError::NotAStringArray),
    }
}

} // verus!
