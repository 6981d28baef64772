//! Points in time, as the token record and the staleness rule need them.
//!
//! Reading the clock is left to the standard library, and reading and
//! writing a date as text to `chrono`; the functions that do so are trusted.
//! The arithmetic on what they return is the library's own.

use crate::error::Error;
use chrono::DateTime;
use chrono::FixedOffset;
use chrono::Utc;
use vstd::prelude::*;

verus! {

/// A point in time: whole seconds since the start of 1970 in UTC, and the
/// nanoseconds into that second. Within a leap second the nanoseconds run
/// from 1,000,000,000 on, and the seconds are those of the second before.
#[derive(Clone, Copy, Debug, PartialEq, Eq, Structural)]
pub struct Timestamp {
    pub secs: i64,
    pub nanos: u32,
}

/// The point in time that a date with time and offset denotes, as seconds
/// and nanoseconds, or `None` where the text is not such a date.
pub uninterp spec fn spec_parse_timestamp(text: Seq<char>) -> Option<(i64, u32)>;

/// The text that a point in time is written as: its date and time in UTC.
/// `None` where the point in time is no date that can be represented.
pub uninterp spec fn spec_timestamp_text(secs: i64, nanos: u32) -> Option<Seq<char>>;

/// The first second that can be represented as a date: the start of the
/// year -262143, in seconds since the start of 1970.
pub const FIRST_SECOND: i64 = -8_334_601_228_800;

/// The last second that can be represented as a date: the end of the year
/// 262142, in seconds since the start of 1970.
pub const LAST_SECOND: i64 = 8_210_266_876_799;

/// Whether `secs` seconds since the start of 1970 is a date that can be
/// represented: the years from -262143 to 262142 can.
pub open spec fn spec_representable(secs: i64) -> bool {
    FIRST_SECOND <= secs <= LAST_SECOND
}

/// Calls `str::parse::<DateTime<FixedOffset>>` of `chrono`, then `timestamp`
/// and `timestamp_subsec_nanos`. Trusted: the point in time is a function of
/// the text alone; the offset that the text names is taken into account and
/// the time zone of the machine plays no part.
#[verifier::external_body]
pub(crate) fn parse_timestamp(text: &str) -> (r: Option<(i64, u32)>)
    ensures
        r == spec_parse_timestamp(text@),
{
    let parsed = text.parse::<DateTime<FixedOffset>>().ok()?;
    Some((parsed.timestamp(), parsed.timestamp_subsec_nanos()))
}

/// Calls `SystemTime::elapsed` of the standard library on `UNIX_EPOCH`, then
/// `as_secs` and `subsec_nanos`. Nothing is claimed of the result: it is the
/// time at which the call happened to be made, and `None` where the clock of
/// the machine stands before 1970.
#[verifier::external_body]
pub(crate) fn since_epoch() -> (r: Option<(u64, u32)>) {
    let elapsed = std::time::UNIX_EPOCH.elapsed().ok()?;
    Some((elapsed.as_secs(), elapsed.subsec_nanos()))
}

/// Calls `DateTime::<Utc>::from_timestamp` of `chrono` and writes the result
/// as text by `to_string`. Trusted: the text is a function of seconds and
/// nanoseconds alone; it is written in UTC, so the time zone of the machine
/// plays no part. `None` stands for a point in time that `chrono` does not
/// represent.
#[verifier::external_body]
pub(crate) fn timestamp_text(secs: i64, nanos: u32) -> (text: Option<String>)
    ensures
        (text is Some) == (spec_timestamp_text(secs, nanos) is Some),
        text is Some ==> Some(text.unwrap()@) == spec_timestamp_text(secs, nanos),
{
    DateTime::<Utc>::from_timestamp(secs, nanos).map(|date| date.to_string())
}

/// Whether `text` is a point in time written as text.
pub open spec fn is_stamp(text: Seq<char>) -> bool {
    exists|secs: i64, nanos: u32| #[trigger] spec_timestamp_text(secs, nanos) == Some(text)
}

/// Reads the clock.
///
/// What holds for every reading: the only failure is `Error::Clock`, where
/// the clock of the machine stands before 1970 or beyond what fits the
/// seconds of a `Timestamp`.
pub fn now() -> (r: Result<Timestamp, Error>)
    ensures
        r matches Err(e) ==> e == Error::Clock,
{
    match since_epoch() {
        Some((secs, nanos)) => if secs <= 0x7fff_ffff_ffff_ffff {
            Ok(Timestamp { secs: secs as i64, nanos })
        } else {
            Err(Error::Clock)
        },
        None => Err(Error::Clock),
    }
}

/// Writes a point in time as the text that a token record is stamped with,
/// or gives `None` where it is no date that can be represented.
pub fn text_at(now: &Timestamp) -> (text: Option<String>)
    ensures
        match text {
            Some(text) => spec_timestamp_text(now.secs, now.nanos) == Some(text@),
            None => spec_timestamp_text(now.secs, now.nanos) is None,
        },
{
    timestamp_text(now.secs, now.nanos)
}

/// Reads the clock and writes the reading as text.
///
/// What holds for every reading: the text is a point in time written as
/// text, and the only failure is `Error::Clock`.
pub fn now_text() -> (r: Result<String, Error>)
    ensures
        match r {
            Ok(text) => is_stamp(text@),
            Err(e) => e == Error::Clock,
        },
{
    let now = match now() {
        Ok(now) => now,
        Err(e) => { return Err(e); },
    };
    match text_at(&now) {
        Some(text) => Ok(text),
        None => Err(Error::Clock),
    }
}

/// Decides whether `secs` seconds since the start of 1970 is a date that
/// can be represented.
pub fn representable(secs: i64) -> (r: bool)
    ensures
        r == spec_representable(secs),
{
    FIRST_SECOND <= secs && secs <= LAST_SECOND
}

/// One second, in nanoseconds.
pub const SECOND: u32 = 1_000_000_000;

impl Timestamp {
    /// Whether this point in time is `other` or comes before it.
    pub open spec fn spec_le(self, other: Timestamp) -> bool {
        self.secs < other.secs || (self.secs == other.secs && self.nanos <= other.nanos)
    }

    /// Whether this point in time is `other` or comes before it.
    pub fn le(&self, other: &Timestamp) -> (r: bool)
        ensures
            r == self.spec_le(*other),
    {
        self.secs < other.secs || (self.secs == other.secs && self.nanos <= other.nanos)
    }
}

/// The point in time `seconds` whole seconds after `secs` and `nanos`, as
/// seconds and nanoseconds. A time within a leap second leaves it when
/// anything is added: it then counts as the same moment of the second
/// before.
pub open spec fn spec_after(secs: i64, nanos: u32, seconds: u32) -> (int, int) {
    if seconds > 0 && nanos >= SECOND {
        (secs + seconds, nanos - SECOND)
    } else {
        (secs + seconds, nanos as int)
    }
}

/// Whether a period of `seconds` that began at `secs` and `nanos` is over at
/// `now`: over means that its end is `now` or lies before it.
pub open spec fn spec_elapsed(secs: i64, nanos: u32, seconds: u32, now: Timestamp) -> bool {
    let end = spec_after(secs, nanos, seconds);
    end.0 < now.secs || (end.0 == now.secs && end.1 <= now.nanos)
}

/// Decides whether a period of `seconds` that began at `secs` and `nanos` is
/// over at `now`.
pub fn elapsed(secs: i64, nanos: u32, seconds: u32, now: &Timestamp) -> (over: bool)
    ensures
        over == spec_elapsed(secs, nanos, seconds, *now),
{
    let end_secs: i128 = secs as i128 + seconds as i128;
    let end_nanos: u32 = if seconds > 0 && nanos >= SECOND {
        nanos - SECOND
    } else {
        nanos
    };
    end_secs < now.secs as i128 || (end_secs == now.secs as i128 && end_nanos <= now.nanos)
}

} // verus!
