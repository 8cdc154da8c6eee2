//! Instants of time, as the calendar library reads, writes and reports them.

use vstd::prelude::*;

verus! {

/// An instant: whole seconds since 1970-01-01 00:00:00 UTC, leap seconds not
/// counted, and the nanoseconds since the last whole second.
#[derive(Debug, Clone, Copy, PartialEq, Eq, Structural)]
pub struct Timestamp {
    pub secs: i64,
    pub nanos: u32,
}

/// The instant that an RFC 3339 date and time denotes, as seconds and
/// nanoseconds, or `None` where the text is no such date and time.
pub uninterp spec fn rfc3339_instant(text: Seq<char>) -> Option<(i64, u32)>;

/// An instant in UTC as text, or `None` where the instant lies outside the
/// calendar's range.
pub uninterp spec fn utc_display(secs: i64, nanos: u32) -> Option<Seq<char>>;

/// Reads an RFC 3339 date and time.
///
/// Trusted: this is `chrono::DateTime::parse_from_rfc3339`, followed by
/// `timestamp` and `timestamp_subsec_nanos` of the parsed value. The result
/// depends on the text alone; the contract names it `rfc3339_instant`.
#[verifier::external_body]
pub(crate) fn parse_rfc3339(text: &str) -> (out: Option<Timestamp>)
    ensures
        out is Some <==> rfc3339_instant(text@) is Some,
        out matches Some(t) ==> rfc3339_instant(text@) == Some((t.secs, t.nanos)),
{
    let parsed = chrono::DateTime::parse_from_rfc3339(text).ok();
    parsed.map(|d| Timestamp { secs: d.timestamp(), nanos: d.timestamp_subsec_nanos() })
}

/// Writes an instant as a date and time in UTC.
///
/// Trusted: this is `chrono::DateTime::from_timestamp`, which gives `None`
/// outside the range of the calendar, followed by `to_string` of the value.
/// The result depends on the instant alone; the contract names it
/// `utc_display`.
#[verifier::external_body]
pub(crate) fn utc_text(at: Timestamp) -> (out: Option<String>)
    ensures
        out is Some <==> utc_display(at.secs, at.nanos) is Some,
        out matches Some(s) ==> utc_display(at.secs, at.nanos) == Some(s@),
{
    chrono::DateTime::from_timestamp(at.secs, at.nanos).map(|d| d.to_string())
}

/// The present instant.
///
/// Trusted: this is `chrono::Utc::now`, with `timestamp` and
/// `timestamp_subsec_nanos` of the value. Nothing is claimed of the result. It
/// panics where the system clock stands before 1970.
#[verifier::external_body]
pub(crate) fn now_utc() -> Timestamp {
    let now = chrono::Utc::now();
    Timestamp { secs: now.timestamp(), nanos: now.timestamp_subsec_nanos() }
}

} // verus!
