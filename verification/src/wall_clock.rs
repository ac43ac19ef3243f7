//! The wall-clock text: the current UTC date and time as
//! `YYYY/MM/DD HH:MM:SS`. chrono owns both the calendar and the writing; the
//! library only joins the reading of the clock to the writing of the text.

use crate::clock::{format_utc_seconds, utc_now_seconds, utc_text};
use vstd::prelude::*;

verus! {

/// `text` is the UTC date and time of some second, as chrono writes it.
pub open spec fn is_utc_text(text: Seq<char>) -> bool {
    exists|secs: i64| #[trigger] utc_text(secs as int) == Some(text)
}

/// The UTC date and time `secs` whole seconds after the Unix epoch, or `None`
/// where chrono has no date for `secs`.
pub fn utc_pretty_at(secs: i64) -> (text: Option<String>)
    ensures
        match text {
            Some(t) => utc_text(secs as int) == Some(t@),
            None => utc_text(secs as int) is None,
        },
{
    format_utc_seconds(secs)
}

/// The current UTC date and time, read afresh at each call.
pub fn utc_pretty() -> (text: String)
    ensures
        is_utc_text(text@),
{
    let secs: i64 = utc_now_seconds();
    match utc_pretty_at(secs) {
        Some(text) => text,
        None => unreached(),
    }
}

} // verus!
