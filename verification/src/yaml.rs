use vstd::prelude::*;
use crate::text::pairs_view;

verus! {

/// What parsing a document as a flat mapping of strings to strings yields:
/// the key/value pairs in the parser's (key-sorted) order, or nothing when
/// the document does not have that shape.
pub uninterp spec fn yaml_string_map(s: Seq<char>) -> Option<Seq<(Seq<char>, Seq<char>)>>;

/// What parsing a document as a two-level mapping yields: for each top-level
/// key, in the parser's (key-sorted) order, the inner key/value pairs; or
/// nothing when the document does not have that shape.
pub uninterp spec fn yaml_nested_map(s: Seq<char>) -> Option<
    Seq<(Seq<char>, Seq<(Seq<char>, Seq<char>)>)>,
>;

/// Relies on `serde_yml::from_str` for `BTreeMap<String, String>`: parsing is
/// a pure function of the input text, succeeds exactly when the document is a
/// mapping of string-shaped scalars to string-shaped scalars, and the map
/// iterates its entries sorted by key.
#[verifier::external_body]
#[allow(deprecated)]
pub(crate) fn parse_string_map(s: &str) -> (r: Result<Vec<(String, String)>, String>)
    ensures
        match r {
            Ok(v) => yaml_string_map(s@) == Some(pairs_view(v@)),
            Err(_) => yaml_string_map(s@) is None,
        },
{
    match serde_yml::from_str::<std::collections::BTreeMap<String, String>>(s) {
        Ok(m) => Ok(m.into_iter().collect()),
        Err(e) => Err(format!("{}", e)),
    }
}

/// Relies on `serde_yml::from_str` for `BTreeMap<String, BTreeMap<String,
/// String>>`: parsing is a pure function of the input text, succeeds exactly
/// when the document is a mapping of strings to mappings of strings to
/// string-shaped scalars, and both levels iterate sorted by key.
#[verifier::external_body]
#[allow(deprecated)]
pub(crate) fn parse_nested_map(s: &str) -> (r: Result<
    Vec<(String, Vec<(String, String)>)>,
    String,
>)
    ensures
        match r {
            Ok(v) => yaml_nested_map(s@) == Some(
                v@.map_values(|e: (String, Vec<(String, String)>)| (e.0@, pairs_view(e.1@))),
            ),
            Err(_) => yaml_nested_map(s@) is None,
        },
{
    match serde_yml::from_str::<
        std::collections::BTreeMap<String, std::collections::BTreeMap<String, String>>,
    >(s) {
        Ok(m) => Ok(m.into_iter().map(|(k, f)| (k, f.into_iter().collect())).collect()),
        Err(e) => Err(format!("{}", e)),
    }
}

} // verus!
