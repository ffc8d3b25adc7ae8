//! The wall clock and RFC 3339 timestamps, through chrono.
use vstd::prelude::*;

verus! {

/// The instant, in milliseconds since the Unix epoch, that chrono's RFC 3339
/// parser reads from a text; `None` where the text is not RFC 3339.
pub uninterp spec fn rfc3339_millis_of(s: Seq<char>) -> Option<i64>;

/// The RFC 3339 text that chrono writes for an instant given in milliseconds
/// since the Unix epoch; `None` where the instant is outside chrono's range.
pub uninterp spec fn rfc3339_text_of(ms: i64) -> Option<Seq<char>>;

/// Relies on `chrono::Utc::now` and `DateTime::timestamp_millis`: the current
/// time in milliseconds since the Unix epoch. Nothing is known of its value.
#[verifier::external_body]
pub(crate) fn now_millis() -> (r: i64) {
    chrono::Utc::now().timestamp_millis()
}

/// Relies on `chrono::DateTime::parse_from_rfc3339` and
/// `DateTime::timestamp_millis`: the instant a text names, if it is RFC 3339.
#[verifier::external_body]
pub(crate) fn parse_rfc3339_millis(s: &str) -> (r: Option<i64>)
    ensures
        r == rfc3339_millis_of(s@),
{
    match chrono::DateTime::parse_from_rfc3339(s) {
        Ok(d) => Some(d.timestamp_millis()),
        Err(_) => None,
    }
}

/// First millisecond of year 0000 (UTC), the earliest instant whose RFC 3339
/// text has the four-digit year that chrono's parser reads.
pub const RFC3339_MIN_MS: i64 = -62167219200000;

/// Last millisecond of year 9999 (UTC).
pub const RFC3339_MAX_MS: i64 = 253402300799999;

/// Relies on `chrono::DateTime::from_timestamp_millis` and
/// `DateTime::to_rfc3339`: the RFC 3339 text of an instant in UTC. For an
/// instant in years 0000 to 9999 the conversion succeeds and the text (four
/// year digits, the milliseconds as a fraction when not zero, offset
/// `+00:00`) parses back to the same instant.
#[verifier::external_body]
pub(crate) fn rfc3339_text(ms: i64) -> (r: Option<String>)
    ensures
        match r {
            Some(t) => rfc3339_text_of(ms) == Some(t@),
            None => rfc3339_text_of(ms) is None,
        },
        RFC3339_MIN_MS <= ms <= RFC3339_MAX_MS ==> (r is Some && rfc3339_millis_of(r->0@) == Some(ms)),
{
    match chrono::DateTime::from_timestamp_millis(ms) {
        Some(d) => Some(d.to_rfc3339()),
        None => None,
    }
}

} // verus!
