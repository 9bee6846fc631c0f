//! Timestamps. The persisted form of a point in time is an RFC 2822 date
//! string; in-memory arithmetic works on Unix seconds. Rendering and parsing
//! are delegated to the chrono crate behind trusted declarations.

use vstd::prelude::*;

verus! {

/// Latest second that can be rendered (end of year 9999): the RFC 2822 form
/// has a four-digit year.
pub const TIMESTAMP_MAX: i64 = 253_402_300_799;

/// The RFC 2822 rendering of a Unix timestamp, at UTC. A pure function of
/// the timestamp; its content is known only through `format_rfc2822`.
pub uninterp spec fn rfc2822_of(t: int) -> Seq<char>;

/// The Unix timestamp that an RFC 2822 date string denotes, or `None` if the
/// string does not parse. A pure function of the string; its content is known
/// only through `parse_rfc2822`.
pub uninterp spec fn rfc2822_parse(s: Seq<char>) -> Option<int>;

/// Relies on chrono's `DateTime::to_rfc2822`: the rendering is a pure
/// function of the instant (formatted at UTC), it panics only for years
/// outside 0..=9999, and `DateTime::parse_from_rfc2822` recovers the same
/// instant from it.
#[verifier::external_body]
pub(crate) fn format_rfc2822(t: i64) -> (r: String)
    requires
        0 <= t <= TIMESTAMP_MAX,
    ensures
        r@ == rfc2822_of(t as int),
        rfc2822_parse(r@) == Some(t as int),
{
    chrono::DateTime::<chrono::Utc>::from_timestamp(t, 0).unwrap().to_rfc2822()
}

/// Relies on chrono's `DateTime::parse_from_rfc2822`: the result is a pure
/// function of the string, and `timestamp()` gives the instant it denotes
/// in Unix seconds.
#[verifier::external_body]
pub(crate) fn parse_rfc2822(s: &str) -> (r: Option<i64>)
    ensures
        (r is Some) == (rfc2822_parse(s@) is Some),
        r matches Some(t) ==> rfc2822_parse(s@) == Some(t as int),
{
    match chrono::DateTime::parse_from_rfc2822(s) {
        Ok(dt) => Some(dt.timestamp()),
        Err(_) => None,
    }
}

} // verus!
