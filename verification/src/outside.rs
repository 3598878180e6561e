//! Trusted declarations and wrappers around the outside crates the library
//! leans on: `serde_json` for decoding the metadata document, `url` for
//! taking the image URL apart, and the pieces of `std` that vstd does not
//! specify. Each call here is a deterministic function of its text input, so
//! its result bears a name that the wrapper's contract applies; the verified
//! logic above states success and failure over those names. Nothing more is
//! assumed of a name than what the called function's own source shows.

use vstd::prelude::*;

verus! {

/// The string value under `key` in the JSON document `doc`: `Some` exactly
/// when `doc` is a valid JSON object whose `key` member is a string.
pub uninterp spec fn json_str_field(doc: Seq<char>, key: Seq<char>) -> Option<Seq<char>>;

/// The unsigned-integer value under `key` in the JSON document `doc`:
/// `Some` exactly when `doc` is a valid JSON object whose `key` member is a
/// non-negative integer that fits in 64 bits.
pub uninterp spec fn json_u64_field(doc: Seq<char>, key: Seq<char>) -> Option<u64>;

/// The path segments of the URL written in `s`: `Some` exactly when `s`
/// parses as an absolute URL that can be a base.
pub uninterp spec fn url_segments_of(s: Seq<char>) -> Option<Seq<Seq<char>>>;

/// Relies on serde_json's from_str, Value::get and Value::as_str: looks one
/// string-valued field up in a JSON document. The result depends on the
/// text and the key alone; parse failures return errors, never panic.
#[verifier::external_body]
pub(crate) fn lookup_str_field(doc: &str, key: &str) -> (r: Option<String>)
    ensures
        r matches Some(x) ==> json_str_field(doc@, key@) == Some(x@),
        r is None ==> json_str_field(doc@, key@) is None,
{
    serde_json::from_str::<serde_json::Value>(doc)
        .ok()
        .and_then(|v| v.get(key).and_then(|f| f.as_str().map(|s| s.to_string())))
}

/// Relies on serde_json's from_str, Value::get and Value::as_u64: looks one
/// unsigned-integer field up in a JSON document. The result depends on the
/// text and the key alone; parse failures return errors, never panic.
#[verifier::external_body]
pub(crate) fn lookup_u64_field(doc: &str, key: &str) -> (r: Option<u64>)
    ensures
        r == json_u64_field(doc@, key@),
{
    serde_json::from_str::<serde_json::Value>(doc)
        .ok()
        .and_then(|v| v.get(key).and_then(|f| f.as_u64()))
}

/// Relies on url::Url::parse, Url::path_segments and str::split: the path
/// segments of an absolute URL. `parse` is deterministic in the text and
/// returns errors, never panics; `path_segments` is `Some` exactly when the
/// path starts with `/`, and a split yields at least one item.
#[verifier::external_body]
pub(crate) fn lookup_url_segments(s: &str) -> (r: Option<Vec<String>>)
    ensures
        r matches Some(v) ==> url_segments_of(s@) == Some(v.deep_view()) && v@.len() >= 1,
        r is None ==> url_segments_of(s@) is None,
{
    url::Url::parse(s)
        .ok()
        .and_then(|u| u.path_segments().map(|it| it.map(|seg| seg.to_string()).collect()))
}

/// Relies on String::push: appends the given character to the end.
#[verifier::external_body]
pub(crate) fn push_char(s: &mut String, c: char)
    ensures
        final(s)@ == old(s)@.push(c),
{
    s.push(c)
}

/// Relies on std::io::Write::write_all: hands the text to standard output;
/// a write failure is ignored.
#[verifier::external_body]
pub(crate) fn write_stdout(s: &str) {
    let mut out = std::io::stdout();
    let _ = std::io::Write::write_all(&mut out, s.as_bytes());
}

} // verus!
