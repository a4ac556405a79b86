//! The trusted boundary around serde_json.
//!
//! Wire records and watchlist files carry JSON. Parsing the text and
//! reading the protocol fields out of it is delegated to serde_json
//! behind the two extractors below. What each extractor returns is a
//! function of the input bytes alone, so the result carries a name —
//! an uninterpreted spec function — that the wrapper's contract
//! applies; everything done with the extracted plain values (field
//! checks, validation, normalization) is verified code in the
//! neighbouring modules against those names.

use vstd::prelude::*;

use crate::watchlist::entries_fields;
use crate::watchlist::RawEntry;

verus! {

/// The character sequence of one extracted string field, if present.
pub open spec fn opt_view(s: Option<String>) -> Option<Seq<char>> {
    match s {
        Some(x) => Some(x@),
        None => None,
    }
}

/// The views of one record's five extracted wire fields.
pub open spec fn fields_view(
    f: (Option<String>, Option<String>, Option<String>, Option<i64>, Option<i64>),
) -> (Option<Seq<char>>, Option<Seq<char>>, Option<Seq<char>>, Option<i64>, Option<i64>) {
    (opt_view(f.0), opt_view(f.1), opt_view(f.2), f.3, f.4)
}

/// What serde_json extracts from one wire record: `None` when the
/// bytes are not a single well-formed JSON value, otherwise the five
/// wire fields (`a`, `c`, `p` as strings, `t`, `t_p` as integers read
/// from the parsed object), each field `None` when the object lacks
/// the key or holds a value of another type.
pub uninterp spec fn wire_fields_of(payload: Seq<u8>) -> Option<
    (Option<Seq<char>>, Option<Seq<char>>, Option<Seq<char>>, Option<i64>, Option<i64>),
>;

/// What serde_json extracts from a watchlist file: `None` when the
/// bytes are not a well-formed JSON array, otherwise one entry per
/// element, in order, holding the element's `chain` and `address`
/// string fields (each `None` when absent or not a string).
pub uninterp spec fn watchlist_fields_of(content: Seq<u8>) -> Option<
    Seq<(Option<Seq<char>>, Option<Seq<char>>)>,
>;

/// Relies on serde_json::from_slice::<Value> and Value::get, as_str,
/// as_i64: parse one wire record and read the five wire keys out of
/// it. The result depends on the bytes alone, which is what lets
/// [`wire_fields_of`] name it.
#[verifier::external_body]
pub(crate) fn extract_wire_fields(payload: &[u8]) -> (r: Option<
    (Option<String>, Option<String>, Option<String>, Option<i64>, Option<i64>),
>)
    ensures
        match r {
            None => wire_fields_of(payload@) is None,
            Some(f) => wire_fields_of(payload@) == Some(fields_view(f)),
        },
{
    let v: serde_json::Value = match serde_json::from_slice(payload) {
        Ok(v) => v,
        Err(_) => return None,
    };
    Some((
        v.get("a").and_then(|x| x.as_str()).map(|s| s.to_string()),
        v.get("c").and_then(|x| x.as_str()).map(|s| s.to_string()),
        v.get("p").and_then(|x| x.as_str()).map(|s| s.to_string()),
        v.get("t").and_then(|x| x.as_i64()),
        v.get("t_p").and_then(|x| x.as_i64()),
    ))
}

/// Relies on serde_json::from_slice::<Vec<Value>> and Value::get,
/// as_str: parse a watchlist file as a JSON array and read each
/// element's `chain` and `address` fields. The result depends on the
/// bytes alone, which is what lets [`watchlist_fields_of`] name it.
#[verifier::external_body]
pub(crate) fn extract_watchlist_fields(content: &[u8]) -> (r: Option<Vec<RawEntry>>)
    ensures
        match r {
            None => watchlist_fields_of(content@) is None,
            Some(es) => watchlist_fields_of(content@) == Some(entries_fields(es@)),
        },
{
    let vs: Vec<serde_json::Value> = match serde_json::from_slice(content) {
        Ok(v) => v,
        Err(_) => return None,
    };
    Some(
        vs.iter().map(
            |v| RawEntry {
                chain: v.get("chain").and_then(|x| x.as_str()).map(|s| s.to_string()),
                address: v.get("address").and_then(|x| x.as_str()).map(|s| s.to_string()),
            },
        ).collect(),
    )
}

} // verus!
