//! The trusted boundary to the `chrono` and `base64` crates.
//!
//! Each wrapper makes exactly one outside call.  The results are pure
//! functions of the arguments, so they are given names (`rfc3339_parse`,
//! `rfc3339_of`, `b64_of`) that the callers' contracts speak of exactly.

use base64::Engine;
use vstd::prelude::*;

verus! {

/// What `chrono::DateTime::parse_from_rfc3339` accepts and returns for a
/// given text: `Some` of the instant in milliseconds since the Unix epoch
/// when the text is valid RFC 3339, `None` otherwise.
pub uninterp spec fn rfc3339_parse(s: Seq<char>) -> Option<i64>;

/// The RFC 3339 rendering that `chrono` gives an instant, in UTC, for
/// instants that `chrono` can represent; the empty text for the few
/// out-of-range values of `t`.
pub uninterp spec fn rfc3339_of(t: i64) -> Seq<char>;

/// The standard base64 encoding of a text's bytes.
pub uninterp spec fn b64_of(s: Seq<char>) -> Seq<char>;

/// Relies on `chrono::DateTime::parse_from_rfc3339` and
/// `timestamp_millis`: parsing depends on the text alone, and a parsed
/// instant is returned as milliseconds since the Unix epoch.
#[verifier::external_body]
pub(crate) fn parse_rfc3339_millis(s: &str) -> (r: Option<i64>)
    ensures
        r == rfc3339_parse(s@),
{
    match chrono::DateTime::parse_from_rfc3339(s) {
        Ok(d) => Some(d.timestamp_millis()),
        Err(_) => None,
    }
}

/// Relies on `chrono::DateTime::from_timestamp_millis` and `to_rfc3339`:
/// the rendering depends on the instant alone.  `from_timestamp_millis`
/// returns `None` only for instants outside chrono's representable range.
#[verifier::external_body]
pub(crate) fn format_rfc3339_millis(t: i64) -> (r: String)
    ensures
        r@ == rfc3339_of(t),
{
    match chrono::DateTime::<chrono::Utc>::from_timestamp_millis(t) {
        Some(d) => d.to_rfc3339(),
        None => String::new(),
    }
}

/// Relies on `base64::prelude::BASE64_STANDARD.encode`: the encoding
/// depends on the input bytes alone.
#[verifier::external_body]
pub(crate) fn b64_encode_str(s: &str) -> (r: String)
    ensures
        r@ == b64_of(s@),
{
    base64::prelude::BASE64_STANDARD.encode(s)
}

} // verus!
