//! Calendar texts: reading and writing moments through the `chrono` crate.
use vstd::prelude::*;
use chrono::{DateTime, NaiveDateTime};
use crate::text;
use crate::moment::Moment;

verus! {

/// Local date and time without seconds, as a `datetime-local` input holds it.
pub const LOCAL_INPUT: &'static str = "%Y-%m-%dT%H:%M";

/// UTC date and time as the schedule service takes it.
pub const UTC_ISO: &'static str = "%Y-%m-%dT%H:%M:%SZ";

/// Date and time in a table.
pub const TABLE_STAMP: &'static str = "%Y-%m-%d %H:%M";

/// A day by its names.
pub const LONG_DAY: &'static str = "%A, %B %d";

/// Date and time in the name of a file.
pub const FILE_STAMP: &'static str = "%Y%m%d_%H%M%S";

/// The patterns that [`write_moment`] takes.
pub open spec fn is_written_pattern(p: Seq<char>) -> bool {
    p == LOCAL_INPUT@ || p == UTC_ISO@ || p == TABLE_STAMP@ || p == LONG_DAY@ || p == FILE_STAMP@
}

/// The first and last second of the calendar, years -262143 to 262142.
pub open spec fn in_calendar(secs: int) -> bool {
    -8_334_601_228_800 <= secs <= 8_210_266_876_799
}

/// A sub-second part that the calendar has: below a second, or inside the leap second that may end
/// a minute.
pub open spec fn has_moment(m: Moment) -> bool {
    &&& in_calendar(m.secs as int)
    &&& m.nanos < 2_000_000_000
    &&& m.nanos >= 1_000_000_000 ==> m.secs as int % 60 == 59
}

/// The second lies in a year that four digits write, 0000 to 9999.
pub open spec fn in_four_digit_year(secs: int) -> bool {
    -62_167_219_200 <= secs <= 253_402_300_799
}

/// The start of the minute that a moment falls in.
pub open spec fn minute_start(m: Moment) -> Moment {
    Moment { secs: (m.secs - m.secs as int % 60) as i64, nanos: 0 }
}

/// What an RFC 3339 text says, as a moment of UTC.
pub uninterp spec fn rfc3339_read(s: Seq<char>) -> Option<Moment>;

/// What a text says under a strftime pattern without a time zone.
pub uninterp spec fn naive_read(s: Seq<char>, pattern: Seq<char>) -> Option<Moment>;

/// A moment written under a strftime pattern.
pub uninterp spec fn naive_written(m: Moment, pattern: Seq<char>) -> Option<Seq<char>>;

/// `chrono::DateTime::parse_from_rfc3339`, its value taken to UTC by `naive_utc`.
///
/// Trusted: the result is a function of the text alone, and what is read lies in the calendar.
#[verifier::external_body]
pub(crate) fn read_rfc3339(s: &str) -> (r: Option<Moment>)
    ensures
        r == rfc3339_read(s@),
        r matches Some(m) ==> in_calendar(m.secs as int) && m.nanos < 2_000_000_000,
{
    let utc = DateTime::parse_from_rfc3339(s).ok()?.naive_utc().and_utc();
    Some(Moment { secs: utc.timestamp(), nanos: utc.timestamp_subsec_nanos() })
}

/// `chrono::NaiveDateTime::parse_from_str`.
///
/// Trusted: the result is a function of text and pattern alone, what is read lies in the calendar,
/// and a pattern without seconds reads whole minutes.
#[verifier::external_body]
pub(crate) fn read_naive(s: &str, pattern: &str) -> (r: Option<Moment>)
    ensures
        r == naive_read(s@, pattern@),
        r matches Some(m) ==> in_calendar(m.secs as int) && m.nanos < 2_000_000_000,
        pattern@ == LOCAL_INPUT@ ==> (r matches Some(m) ==> m.nanos == 0 && m.secs as int % 60 == 0),
{
    let utc = NaiveDateTime::parse_from_str(s, pattern).ok()?.and_utc();
    Some(Moment { secs: utc.timestamp(), nanos: utc.timestamp_subsec_nanos() })
}

/// `chrono::DateTime::from_timestamp` and `chrono::NaiveDateTime::format`.
///
/// Trusted: the result is a function of moment and pattern alone; there is one exactly for the
/// moments that the calendar has; and, in the years that four digits write, a text with seconds and
/// `Z` reads back as an RFC 3339 text, a text without seconds reads back as the minute that the
/// moment falls in, and neither has white space at its ends or is empty.
#[verifier::external_body]
pub(crate) fn write_moment(m: Moment, pattern: &str) -> (r: Option<String>)
    requires
        is_written_pattern(pattern@),
    ensures
        text::opt_text(r) == naive_written(m, pattern@),
        r is Some <==> has_moment(m),
        pattern@ == UTC_ISO@ && in_four_digit_year(m.secs as int) && m.nanos < 1_000_000_000 ==> (
        r matches Some(s) ==> rfc3339_read(s@) == Some(Moment { secs: m.secs, nanos: 0 }) && s@.len()
            > 0 && text::trimmed(s@) == s@),
        pattern@ == LOCAL_INPUT@ && in_four_digit_year(m.secs as int) ==> (r matches Some(s) ==> naive_read(
            s@,
            LOCAL_INPUT@,
        ) == Some(minute_start(m)) && s@.len() > 0 && text::trimmed(s@) == s@),
{
    let utc = DateTime::from_timestamp(m.secs, m.nanos)?;
    Some(utc.naive_utc().format(pattern).to_string())
}

} // verus!
