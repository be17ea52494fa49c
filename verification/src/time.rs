//! Timestamps as the API shows them.
use chrono::{DateTime, SecondsFormat, Utc};
use vstd::prelude::*;

verus! {

/// The earliest second `chrono` can represent (January 1, 262144 BCE).
pub const MIN_TIMESTAMP: i64 = -8334601228800;

/// The last second `chrono` can represent (December 31, 262142 CE).
pub const MAX_TIMESTAMP: i64 = 8210266876799;

/// The RFC 3339 text `chrono` writes for the UTC time `secs` seconds after
/// the Unix epoch, in whole seconds and with `Z` for UTC (such as
/// `2026-08-08T19:30:00Z`), or nothing when it cannot represent that time.
pub uninterp spec fn rfc3339_utc(secs: i64) -> Option<Seq<char>>;

/// `DateTime::<Utc>::from_timestamp(secs, 0)` followed by
/// `to_rfc3339_opts(SecondsFormat::Secs, true)`.
/// Trusted: the text is whatever `chrono` writes; the contract claims only
/// that it is a function of `secs`, and that a time exists exactly for the
/// seconds from `MIN_TIMESTAMP` to `MAX_TIMESTAMP` (chrono's documented
/// `NaiveDate::MIN` and `NaiveDate::MAX`).
#[verifier::external_body]
fn format_utc(secs: i64) -> (r: Option<String>)
    ensures
        match r {
            Some(s) => rfc3339_utc(secs) == Some(s@),
            None => rfc3339_utc(secs) is None,
        },
        r is Some <==> MIN_TIMESTAMP <= secs <= MAX_TIMESTAMP,
{
    DateTime::<Utc>::from_timestamp(secs, 0).map(|t| t.to_rfc3339_opts(SecondsFormat::Secs, true))
}

/// The RFC 3339 form of the UTC time `value` seconds after the Unix epoch.
pub fn timestamp(value: i64) -> (r: String)
    requires
        MIN_TIMESTAMP <= value <= MAX_TIMESTAMP,
    ensures
        rfc3339_utc(value) == Some(r@),
{
    match format_utc(value) {
        Some(s) => s,
        None => {
            assert(false);
            String::new()
        },
    }
}

} // verus!
