//! The two clocks the library reads: the monotonic clock of `std::time`, by
//! which the stopwatch measures, and the UTC wall clock of `chrono`. Nothing
//! in this file is proved: each item says what is taken on trust.

use chrono::{DateTime, Utc};
use std::time::{Duration, Instant};
use vstd::prelude::*;

verus! {

/// `std::time::Instant`, a point on the monotonic clock. Opaque: the library
/// stores one and hands it back to `std`, and never looks inside.
#[verifier::external_type_specification]
#[verifier::external_body]
pub struct ExInstant(Instant);

/// `Instant::now` reads the monotonic clock. Nothing is claimed of the
/// instant it returns.
pub assume_specification[ Instant::now ]() -> (now: Instant)
;

/// `Instant::elapsed` measures the time from `origin` to the present reading
/// of the monotonic clock. Nothing is claimed of the duration it returns.
pub assume_specification[ Instant::elapsed ](origin: &Instant) -> (elapsed: Duration)
;

/// `Duration::as_millis` gives the whole milliseconds in `duration`. Only the
/// type of the result is relied on.
pub assume_specification[ Duration::as_millis ](duration: &Duration) -> (millis: u128)
;

/// What chrono writes for the UTC date and time `secs` whole seconds after the
/// Unix epoch, under the pattern `%Y/%m/%d %H:%M:%S`: year, month and day
/// between slashes, a space, then hour, minute and second between colons, on
/// the 24-hour clock and zero-padded. `None` where chrono has no date for
/// `secs`.
pub uninterp spec fn utc_text(secs: int) -> Option<Seq<char>>;

/// `chrono::Utc::now`, reduced by `DateTime::timestamp` to whole seconds since
/// the Unix epoch. The reading itself is whatever the system clock says. The
/// one claim: chrono has a date for it, since `Utc::now` built one from these
/// very seconds. chrono ends the process where the system clock reads earlier
/// than the epoch or later than its last date.
#[verifier::external_body]
pub(crate) fn utc_now_seconds() -> (secs: i64)
    ensures
        utc_text(secs as int) is Some,
{
    Utc::now().timestamp()
}

/// `chrono::DateTime::from_timestamp` on `secs` and no nanoseconds, then
/// `DateTime::format` with `%Y/%m/%d %H:%M:%S`, written out as a `String`.
/// The result is a function of `secs` alone, named `utc_text`.
#[verifier::external_body]
pub(crate) fn format_utc_seconds(secs: i64) -> (text: Option<String>)
    ensures
        match text {
            Some(t) => utc_text(secs as int) == Some(t@),
            None => utc_text(secs as int) is None,
        },
{
    match DateTime::from_timestamp(secs, 0) {
        Some(at) => Some(at.format("%Y/%m/%d %H:%M:%S").to_string()),
        None => None,
    }
}

} // verus!
