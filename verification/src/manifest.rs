//! The manifest decoder: a manifest is the ground-truth list of on-disk
//! files and their byte lengths, written as a self-describing structured
//! text document. The outside parser turns the text into a document value;
//! turning that value into file records is verified here and shares the
//! field rules of the torrent decoder, so `"path": "a"` and `"path": ["a"]`
//! are equivalent.

use vstd::prelude::*;
use crate::value::{DecodeError, SpecValue, DocValue, value_view, as_list, decode_each};
use crate::torrent::{File, SpecFile, sfile_fn, decode_files};

verus! {

/// The document value that a manifest text denotes, if it parses at all.
pub uninterp spec fn json_doc(s: Seq<char>) -> Option<DocValue>;

/// Relies on serde_json::Value: each variant is mapped to the library's own
/// document node, one arm each; strings and object keys become their UTF-8
/// bytes, and a number that is not a signed 64-bit integer becomes `Other`.
#[verifier::external_body]
fn value_of_json(v: serde_json::Value) -> DocValue {
    match v {
        serde_json::Value::Null => DocValue::Null,
        serde_json::Value::Bool(b) => DocValue::Bool(b),
        serde_json::Value::Number(n) => n.as_i64().map_or(DocValue::Other, DocValue::Int),
        serde_json::Value::String(s) => DocValue::Bytes(s.into_bytes()),
        serde_json::Value::Array(a) => DocValue::List(a.into_iter().map(value_of_json).collect()),
        serde_json::Value::Object(m) => DocValue::Dict(
            m.into_iter().map(|(k, w)| (k.into_bytes(), value_of_json(w))).collect(),
        ),
    }
}

/// Relies on serde_json::from_str: whether a manifest text parses, and the
/// value tree it parses to, depend on the input text alone.
#[verifier::external_body]
fn parse_json_value(s: &str) -> (r: Option<DocValue>)
    ensures
        r == json_doc(s@),
{
    serde_json::from_str::<serde_json::Value>(s).ok().map(value_of_json)
}

/// The rule for a manifest document: a list of file records, each decoded by
/// the shared file-record rule; the first malformed record fails the whole
/// decode.
pub open spec fn smanifest_of(v: SpecValue) -> Result<Seq<SpecFile>, DecodeError> {
    match v {
        SpecValue::List(vs) => decode_each(vs, sfile_fn()),
        _ => Err(DecodeError::InvalidShape),
    }
}

/// What decoding a manifest text yields, for every input.
pub open spec fn spec_parse_json(s: Seq<char>) -> Result<Seq<SpecFile>, DecodeError> {
    match json_doc(s) {
        None => Err(DecodeError::MalformedBytes),
        Some(v) => smanifest_of(value_view(v)),
    }
}

/// Decodes the file records out of an already-parsed manifest document;
/// verified for every document value.
pub fn manifest_from_value(v: &DocValue) -> (r: Result<Vec<File>, DecodeError>)
    ensures
        r matches Ok(fs) ==> smanifest_of(v@) == Ok::<Seq<SpecFile>, DecodeError>(fs.deep_view()),
        r matches Err(e) ==> smanifest_of(v@) == Err::<Seq<SpecFile>, DecodeError>(e),
{
    match as_list(v) {
        Some(l) => decode_files(l),
        None => Err(DecodeError::InvalidShape),
    }
}

/// Decodes a manifest text into its ordered file records. The decode is
/// atomic: a single malformed record fails the whole manifest, and a text
/// that does not parse at all is `MalformedBytes`.
pub fn parse_json(input: String) -> (r: Result<Vec<File>, DecodeError>)
    ensures
        r matches Ok(fs) ==> spec_parse_json(input@) == Ok::<Seq<SpecFile>, DecodeError>(
            fs.deep_view(),
        ),
        r matches Err(e) ==> spec_parse_json(input@) == Err::<Seq<SpecFile>, DecodeError>(e),
{
    match parse_json_value(input.as_str()) {
        None => Err(DecodeError::MalformedBytes),
        Some(v) => manifest_from_value(&v),
    }
}

} // verus!
