//! Trusted bridge to the outside crates that the record keeping relies on:
//! `chrono` for timestamps, `uuid` for job identifiers, and the standard
//! library's Unicode case folding.  Each wrapper states only what the
//! called function's source or documentation shows.

use vstd::prelude::*;

verus! {

/// The milliseconds since the Unix epoch that `chrono::DateTime::parse_from_rfc3339`
/// followed by `timestamp_millis` computes for a string, `None` where the string is
/// not a valid RFC 3339 timestamp.  The result depends on the characters alone.
pub uninterp spec fn rfc3339_millis(s: Seq<char>) -> Option<int>;

/// The lowercase form of a string as `str::to_lowercase` computes it.  The result
/// depends on the characters alone.
pub uninterp spec fn lower_of(s: Seq<char>) -> Seq<char>;

/// Relies on chrono's `Utc::now`, `DateTime::to_rfc3339` and `timestamp_millis`:
/// `to_rfc3339` renders the instant with its full sub-second precision, so
/// `parse_from_rfc3339` recovers the same instant from the returned string, and
/// `timestamp_millis` of that instant is the returned integer.
#[verifier::external_body]
pub fn now_rfc3339() -> (r: (String, i64))
    ensures
        rfc3339_millis(r.0@) == Some(r.1 as int),
{
    let now = chrono::Utc::now();
    (now.to_rfc3339(), now.timestamp_millis())
}

/// Relies on chrono's `DateTime::parse_from_rfc3339` and `timestamp_millis`:
/// parsing either fails or yields an instant whose millisecond count is an `i64`.
#[verifier::external_body]
pub fn parse_rfc3339_millis(s: &str) -> (r: Option<i64>)
    ensures
        r is Some <==> rfc3339_millis(s@) is Some,
        r is Some ==> rfc3339_millis(s@) == Some(r->0 as int),
{
    match chrono::DateTime::parse_from_rfc3339(s) {
        Ok(dt) => Some(dt.timestamp_millis()),
        Err(_) => None,
    }
}

/// Relies on uuid's `Uuid::new_v4` and its `Display` impl: the hyphenated form
/// of a UUID is exactly 36 characters.  The value itself is random, so nothing
/// more is promised of it.
#[verifier::external_body]
pub fn new_history_id() -> (r: String)
    ensures
        r@.len() == 36,
{
    uuid::Uuid::new_v4().to_string()
}

/// Relies on `str::to_lowercase`: the result is a function of the characters
/// alone, and an empty string stays empty.
#[verifier::external_body]
pub fn to_lowercase(s: &str) -> (r: String)
    ensures
        r@ == lower_of(s@),
        s@.len() == 0 ==> r@.len() == 0,
{
    s.to_lowercase()
}

} // verus!
