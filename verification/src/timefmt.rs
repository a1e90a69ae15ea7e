//! Calendar conversions of nanosecond timestamps, computed by the `time` crate.
use vstd::prelude::*;

use time::format_description::well_known::Rfc3339;
use time::OffsetDateTime;

use crate::realtime::types::{MAX_UNIX_SECONDS, MIN_UNIX_SECONDS, NANOS_PER_SECOND};

verus! {

/// A timestamp the `time` crate can represent (years -9999 to 9999).
pub open spec fn in_time_range(ts: int) -> bool {
    MIN_UNIX_SECONDS * NANOS_PER_SECOND <= ts < (MAX_UNIX_SECONDS + 1) * NANOS_PER_SECOND
}

/// Name for the UTC calendar fields (year, day of year, hour, minute, second,
/// nanosecond) of a timestamp.
pub uninterp spec fn utc_fields(ts: int) -> (int, int, int, int, int, int);

/// Name for the text `OffsetDateTime`'s `Display` writes for a UTC timestamp.
pub uninterp spec fn datetime_text(ts: int) -> Seq<char>;

/// Name for the instant an RFC 3339 text denotes, when it parses.
pub uninterp spec fn rfc3339_instant(text: Seq<char>) -> Option<int>;

/// `OffsetDateTime::from_unix_timestamp_nanos` and its year, ordinal, hour,
/// minute, second and nanosecond; it fails outside the range, which `requires`
/// leaves out.
#[verifier::external_body]
pub fn utc_datetime_fields(ts: i128) -> (r: (i32, u16, u8, u8, u8, u32))
    requires
        in_time_range(ts as int),
    ensures
        (r.0 as int, r.1 as int, r.2 as int, r.3 as int, r.4 as int, r.5 as int) == utc_fields(
            ts as int,
        ),
{
    let t = OffsetDateTime::from_unix_timestamp_nanos(ts).unwrap();
    (t.year(), t.ordinal(), t.hour(), t.minute(), t.second(), t.nanosecond())
}

/// `OffsetDateTime`'s `Display` for the UTC instant `ts`.
#[verifier::external_body]
pub fn datetime_to_string(ts: i128) -> (r: String)
    requires
        in_time_range(ts as int),
    ensures
        r@ == datetime_text(ts as int),
{
    OffsetDateTime::from_unix_timestamp_nanos(ts).unwrap().to_string()
}

/// `OffsetDateTime::parse(text, &Rfc3339)`, as nanoseconds since the epoch.
#[verifier::external_body]
pub fn parse_rfc3339(text: &str) -> (r: Option<i128>)
    ensures
        r.is_some() == rfc3339_instant(text@).is_some(),
        r.is_some() ==> r.unwrap() as int == rfc3339_instant(text@).unwrap(),
{
    match OffsetDateTime::parse(text, &Rfc3339) {
        Ok(t) => Some(t.unix_timestamp_nanos()),
        Err(_) => None,
    }
}

} // verus!
