//! The clocks: the wall clock for the times that are shown and stored, and the
//! monotonic clock for the times that are only compared.

use chrono::{DateTime, Utc};
use std::time::{Duration, Instant};
use vstd::prelude::*;

verus! {

/// `chrono::Utc::now` and `DateTime::timestamp_millis`: the milliseconds that
/// have passed since the start of 1970, by the system's clock. Nothing is
/// claimed of the number: two calls may give any two numbers. The call takes
/// the system's clock to stand at or after the start of 1970.
#[verifier::external_body]
pub(crate) fn now_millis() -> (t: i64) {
    Utc::now().timestamp_millis()
}

/// The RFC 3339 text of the time `millis` milliseconds after the start of
/// 1970, as `DateTime::to_rfc3339` writes it; `None` for a time that
/// `DateTime::from_timestamp_millis` does not take.
pub uninterp spec fn rfc3339_text(millis: i64) -> Option<Seq<char>>;

/// The milliseconds after the start of 1970 of the time that
/// `DateTime::parse_from_rfc3339` reads from `text`; `None` where it fails.
pub uninterp spec fn rfc3339_millis(text: Seq<char>) -> Option<i64>;

/// `DateTime::from_timestamp_millis` and `DateTime::to_rfc3339`: the text
/// named `rfc3339_text`.
#[verifier::external_body]
pub(crate) fn format_rfc3339(millis: i64) -> (r: Option<String>)
    ensures
        r.is_some() == rfc3339_text(millis).is_some(),
        r.is_some() ==> r.unwrap()@ == rfc3339_text(millis).unwrap(),
{
    DateTime::<Utc>::from_timestamp_millis(millis).map(|t| t.to_rfc3339())
}

/// `DateTime::parse_from_rfc3339`, in UTC and as `DateTime::timestamp_millis`
/// counts it: the number named `rfc3339_millis`.
#[verifier::external_body]
pub(crate) fn parse_rfc3339(text: &str) -> (r: Option<i64>)
    ensures
        r == rfc3339_millis(text@),
{
    DateTime::parse_from_rfc3339(text).ok().map(|t| t.with_timezone(&Utc).timestamp_millis())
}

#[verifier::external_type_specification]
#[verifier::external_body]
pub struct ExInstant(Instant);

/// `Instant::now`: the present reading of the monotonic clock. Nothing is
/// claimed of it.
#[verifier::external_body]
pub(crate) fn instant_now() -> (t: Instant) {
    Instant::now()
}

/// `Instant::elapsed`: the time that has passed since `start`, by the
/// monotonic clock. Nothing is claimed of it.
#[verifier::external_body]
pub(crate) fn elapsed_since(start: &Instant) -> (d: Duration) {
    start.elapsed()
}

/// `Duration::as_millis`: the whole milliseconds of `d`. Nothing is claimed of
/// the number.
#[verifier::external_body]
pub(crate) fn whole_millis(d: &Duration) -> (ms: u128) {
    d.as_millis()
}

/// The whole milliseconds that have passed since `start`, by the monotonic
/// clock; the largest number there is if they are more.
pub fn millis_since(start: &Instant) -> (ms: i64)
    ensures
        ms >= 0,
{
    let d = elapsed_since(start);
    let ms = whole_millis(&d);
    if ms > i64::MAX as u128 {
        i64::MAX
    } else {
        ms as i64
    }
}

} // verus!
