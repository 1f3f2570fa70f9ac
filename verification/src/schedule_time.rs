//! When a match is shown: reading schedule times, and the interval that a match block covers.
use vstd::prelude::*;
use crate::clock;
use crate::moment;
use crate::order;
use crate::text;
use crate::clock::{LOCAL_INPUT, TABLE_STAMP, UTC_ISO, read_naive, read_rfc3339, write_moment};
use crate::moment::{Moment, clock_string, is_earlier, max_moment, min_moment, minute, plus_minutes};
use crate::order::stable_positions;
use crate::text::{as_deref, comes_before, opt_str_eq, str_eq, trim};
use crate::types::MatchSetupData;

verus! {

/// Seconds with an optional fraction.
pub const FRACTIONAL_SECONDS: &'static str = "%Y-%m-%dT%H:%M:%S%.f";

/// Whole seconds.
pub const WHOLE_SECONDS: &'static str = "%Y-%m-%dT%H:%M:%S";

/// Whole seconds, with a space before the time.
pub const SPACED_SECONDS: &'static str = "%Y-%m-%d %H:%M:%S";

/// The first of two readings that succeeds.
pub open spec fn or_read(a: Option<Moment>, b: Option<Moment>) -> Option<Moment> {
    if a is Some {
        a
    } else {
        b
    }
}

/// A schedule time as the service writes it, in UTC: RFC 3339, or one of four plain forms.
pub open spec fn schedule_time(s: Seq<char>) -> Option<Moment> {
    or_read(
        clock::rfc3339_read(s),
        or_read(
            clock::naive_read(s, FRACTIONAL_SECONDS@),
            or_read(
                clock::naive_read(s, LOCAL_INPUT@),
                or_read(clock::naive_read(s, SPACED_SECONDS@), clock::naive_read(s, TABLE_STAMP@)),
            ),
        ),
    )
}

/// A schedule time read for the calendar of days: the same forms, the last two in the other order.
pub open spec fn calendar_time(s: Seq<char>) -> Option<Moment> {
    or_read(
        clock::rfc3339_read(s),
        or_read(
            clock::naive_read(s, FRACTIONAL_SECONDS@),
            or_read(
                clock::naive_read(s, LOCAL_INPUT@),
                or_read(clock::naive_read(s, TABLE_STAMP@), clock::naive_read(s, SPACED_SECONDS@)),
            ),
        ),
    )
}

/// A time for an input field: RFC 3339, or one of five plain forms.
pub open spec fn input_time(s: Seq<char>) -> Option<Moment> {
    or_read(
        clock::rfc3339_read(s),
        or_read(
            clock::naive_read(s, FRACTIONAL_SECONDS@),
            or_read(
                clock::naive_read(s, WHOLE_SECONDS@),
                or_read(
                    clock::naive_read(s, LOCAL_INPUT@),
                    or_read(clock::naive_read(s, SPACED_SECONDS@), clock::naive_read(s, TABLE_STAMP@)),
                ),
            ),
        ),
    )
}

/// A time for a table: RFC 3339, or one of two plain forms.
pub open spec fn stamp_time(s: Seq<char>) -> Option<Moment> {
    or_read(
        clock::rfc3339_read(s),
        or_read(clock::naive_read(s, FRACTIONAL_SECONDS@), clock::naive_read(s, LOCAL_INPUT@)),
    )
}

/// A moment read from a text lies in the calendar.
pub open spec fn readable(m: Option<Moment>) -> bool {
    m matches Some(t) ==> clock::in_calendar(t.secs as int) && t.nanos < 2_000_000_000
}

fn or_else_read(a: Option<Moment>, s: &str, pattern: &str) -> (r: Option<Moment>)
    requires
        readable(a),
    ensures
        r == or_read(a, clock::naive_read(s@, pattern@)),
        readable(r),
{
    if a.is_some() {
        a
    } else {
        read_naive(s, pattern)
    }
}

/// A schedule time in UTC, if the text is one.
pub fn parse_schedule_time_utc(s: &str) -> (r: Option<Moment>)
    ensures
        r == schedule_time(s@),
        readable(r),
{
    let a = read_rfc3339(s);
    let b = or_else_read(a, s, FRACTIONAL_SECONDS);
    let c = or_else_read(b, s, LOCAL_INPUT);
    let d = or_else_read(c, s, SPACED_SECONDS);
    or_else_read(d, s, TABLE_STAMP)
}

/// A schedule time in local time, if the text is one.
pub fn parse_schedule_time_to_local(s: &str, tz_offset_minutes: i16) -> (r: Option<Moment>)
    ensures
        r == (match calendar_time(s@) {
            Some(t) => Some(moment::moved(t, tz_offset_minutes as int)),
            None => None,
        }),
        r matches Some(t) ==> calm(t),
{
    let a = read_rfc3339(s);
    let b = or_else_read(a, s, FRACTIONAL_SECONDS);
    let c = or_else_read(b, s, LOCAL_INPUT);
    let d = or_else_read(c, s, TABLE_STAMP);
    match or_else_read(d, s, SPACED_SECONDS) {
        Some(t) => Some(plus_minutes(t, tz_offset_minutes as i64)),
        None => None,
    }
}

/// The UTC text of a local `datetime-local` value.
pub open spec fn utc_iso_of_local(local: Seq<char>, tz: int) -> Option<Seq<char>> {
    let s = text::trimmed(local);
    if s.len() == 0 {
        None
    } else {
        match clock::naive_read(s, LOCAL_INPUT@) {
            Some(t) => if -1440 < tz < 1440 {
                clock::naive_written(moment::moved(t, -tz), UTC_ISO@)
            } else {
                None
            },
            None => None,
        }
    }
}

/// The `datetime-local` value of a UTC text.
pub open spec fn local_input_of_utc(iso: Seq<char>, tz: int) -> Option<Seq<char>> {
    let s = text::trimmed(iso);
    if s.len() == 0 {
        None
    } else {
        match input_time(s) {
            Some(t) => clock::naive_written(moment::moved(t, tz), LOCAL_INPUT@),
            None => None,
        }
    }
}

/// Convert a `datetime-local` value (local time, no time zone) to the UTC text that the service
/// takes. There is none for a blank value, one that is not such a time, a time zone a day or more
/// away, or a time that leaves the calendar.
///
/// Read back by [`utc_iso_to_local_datetime_input`], the UTC text shows the same local time.
pub fn local_datetime_to_utc_iso(local_str: &str, tz_offset_minutes: i16) -> (r: Option<String>)
    ensures
        text::opt_text(r) == utc_iso_of_local(local_str@, tz_offset_minutes as int),
        r is Some <==> (text::trimmed(local_str@).len() > 0 && -1440 < tz_offset_minutes < 1440 && (
        clock::naive_read(text::trimmed(local_str@), LOCAL_INPUT@) matches Some(t) && clock::in_calendar(
            t.secs - 60 * tz_offset_minutes,
        ))),
        r matches Some(iso) ==> ({
            let t = clock::naive_read(text::trimmed(local_str@), LOCAL_INPUT@)->0;
            clock::in_four_digit_year(t.secs - 60 * tz_offset_minutes) ==> local_input_of_utc(
                iso@,
                tz_offset_minutes as int,
            ) == clock::naive_written(t, LOCAL_INPUT@)
        }),
{
    let s = trim(local_str);
    if s.unicode_len() == 0 {
        return None;
    }
    let t = match read_naive(s, LOCAL_INPUT) {
        Some(t) => t,
        None => {
            return None;
        },
    };
    if !(-1440 < tz_offset_minutes && tz_offset_minutes < 1440) {
        return None;
    }
    let utc = plus_minutes(t, -(tz_offset_minutes as i64));
    let iso = write_moment(utc, UTC_ISO);
    proof {
        moment::law_moved_back(t, -(tz_offset_minutes as int));
    }
    iso
}

/// A `datetime-local` value for a UTC time turns back into that time, to the minute. This is said of
/// time zones less than a day away, and of local times in the years that four digits write.
pub open spec fn turns_back(iso: Seq<char>, local: Seq<char>, tz: int) -> bool {
    let t = input_time(text::trimmed(iso))->0;
    -1440 < tz < 1440 && clock::in_four_digit_year(moment::moved(t, tz).secs as int) ==> utc_iso_of_local(local, tz)
        == clock::naive_written(moment::moved(clock::minute_start(moment::moved(t, tz)), -tz), UTC_ISO@)
}

/// Convert a UTC time from the service into a `datetime-local` value (local time, no time zone).
/// There is none for a blank text, one that is no time, or a time that leaves the calendar.
///
/// Turned back by [`local_datetime_to_utc_iso`], the value gives the UTC time to the minute.
pub fn utc_iso_to_local_datetime_input(iso: &str, tz_offset_minutes: i16) -> (r: Option<String>)
    ensures
        text::opt_text(r) == local_input_of_utc(iso@, tz_offset_minutes as int),
        r is Some <==> (text::trimmed(iso@).len() > 0 && (input_time(text::trimmed(iso@)) matches Some(t)
            && clock::has_moment(moment::moved(t, tz_offset_minutes as int)))),
        r matches Some(local) ==> turns_back(iso@, local@, tz_offset_minutes as int),
{
    let s = trim(iso);
    if s.unicode_len() == 0 {
        return None;
    }
    let a = read_rfc3339(s);
    let b = or_else_read(a, s, FRACTIONAL_SECONDS);
    let c = or_else_read(b, s, WHOLE_SECONDS);
    let d = or_else_read(c, s, LOCAL_INPUT);
    let e = or_else_read(d, s, SPACED_SECONDS);
    match or_else_read(e, s, TABLE_STAMP) {
        Some(t) => write_moment(plus_minutes(t, tz_offset_minutes as i64), LOCAL_INPUT),
        None => None,
    }
}

/// The full local stamp of a time; a text that is no time stands as it is.
pub open spec fn stamp_text(iso: Seq<char>, tz: int) -> Seq<char> {
    match stamp_time(iso) {
        Some(t) => match clock::naive_written(moment::moved(t, tz), TABLE_STAMP@) {
            Some(s) => s,
            None => iso,
        },
        None => iso,
    }
}

/// The full local stamp of a time in a table; a text that is no time stands as it is.
pub fn format_datetime_local(iso: &str, tz_offset_minutes: i16) -> (r: String)
    ensures
        r@ == stamp_text(iso@, tz_offset_minutes as int),
{
    let a = read_rfc3339(iso);
    let b = or_else_read(a, iso, FRACTIONAL_SECONDS);
    match or_else_read(b, iso, LOCAL_INPUT) {
        Some(t) => match write_moment(plus_minutes(t, tz_offset_minutes as i64), TABLE_STAMP) {
            Some(s) => s,
            None => iso.to_owned(),
        },
        None => iso.to_owned(),
    }
}

/// A moment of UTC as a local time of day, `HH:MM`.
pub fn format_naive_utc_time_local(dt: Moment, tz_offset_minutes: i16) -> (r: String)
    requires
        moment::ordinary(dt),
    ensures
        r@ == moment::clock_text(moment::minute_of_day(moment::moved(dt, tz_offset_minutes as int))),
{
    clock_string(minute(plus_minutes(dt, tz_offset_minutes as i64)))
}

// ---------------------------------------------------------------------------
// Starts
// ---------------------------------------------------------------------------

/// The first of two optional texts that is there.
pub open spec fn or_text(a: Option<Seq<char>>, b: Option<Seq<char>>) -> Option<Seq<char>> {
    if a is Some {
        a
    } else {
        b
    }
}

/// The text of the planned start.
pub open spec fn plan_start(m: MatchSetupData) -> Option<Seq<char>> {
    or_text(text::opt_text(m.scheduled_start_time), text::opt_text(m.nominal_start_time))
}

/// The text of the real or estimated start.
pub open spec fn actual_start(m: MatchSetupData) -> Option<Seq<char>> {
    or_text(
        text::opt_text(m.confirmed_start_time),
        or_text(text::opt_text(m.nominal_start_time), text::opt_text(m.scheduled_start_time)),
    )
}

/// Plan-mode start: the stable published time, or the nominal one if it is missing.
pub fn plan_start_str(m: &MatchSetupData) -> (r: Option<&str>)
    ensures
        text::opt_slice(r) == plan_start(*m),
{
    if m.scheduled_start_time.is_some() {
        as_deref(&m.scheduled_start_time)
    } else {
        as_deref(&m.nominal_start_time)
    }
}

/// Real or estimated start: confirmed if started, else the live estimate.
pub fn actual_start_str(m: &MatchSetupData) -> (r: Option<&str>)
    ensures
        text::opt_slice(r) == actual_start(*m),
{
    if m.confirmed_start_time.is_some() {
        as_deref(&m.confirmed_start_time)
    } else if m.nominal_start_time.is_some() {
        as_deref(&m.nominal_start_time)
    } else {
        as_deref(&m.scheduled_start_time)
    }
}

/// An optional text read as a schedule time.
pub open spec fn opt_schedule_time(o: Option<Seq<char>>) -> Option<Moment> {
    match o {
        Some(s) => schedule_time(s),
        None => None,
    }
}

/// The length of a match in minutes; thirty where none is set.
pub open spec fn block_length(m: MatchSetupData) -> int {
    match m.nominal_length {
        Some(n) => n as int,
        None => 30,
    }
}

/// The moment `minutes` after an optional one.
pub open spec fn opt_moved(t: Option<Moment>, minutes: int) -> Option<Moment> {
    match t {
        Some(s) => Some(moment::moved(s, minutes)),
        None => None,
    }
}

/// The planned start of a match.
pub open spec fn planned_start(m: MatchSetupData) -> Option<Moment> {
    opt_schedule_time(plan_start(m))
}

/// The real or estimated start of a match.
pub open spec fn real_start(m: MatchSetupData) -> Option<Moment> {
    opt_schedule_time(actual_start(m))
}

/// The earlier of two optional moments; the one that is there where only one is.
pub open spec fn opt_earlier_of(a: Option<Moment>, b: Option<Moment>) -> Option<Moment> {
    match (a, b) {
        (Some(p), Some(r)) => Some(moment::earlier_of(p, r)),
        (Some(p), None) => Some(p),
        (None, r) => r,
    }
}

/// The interval that is shown for a planned start, a real start and a completed end, all in UTC, and
/// a length in minutes.
///
/// As it happened: from the real start to the completed end, or for the length. Otherwise "planned or
/// earlier": from the earlier start to the earlier end. Either way it lasts a minute at least.
pub open spec fn shown_interval(
    planned: Option<Moment>,
    begun: Option<Moment>,
    completed: Option<Moment>,
    length: int,
    show_as_happened: bool,
) -> Option<(Moment, Moment)> {
    let ended = or_read(completed, opt_moved(begun, length));
    let start = if show_as_happened {
        begun
    } else {
        opt_earlier_of(planned, begun)
    };
    let end = if show_as_happened {
        ended
    } else {
        opt_earlier_of(opt_moved(planned, length), ended)
    };
    match start {
        Some(s) => Some((s, moment::later_of(end->0, moment::moved(s, 1)))),
        None => None,
    }
}

/// The interval that the block of a match covers, in UTC.
pub open spec fn display_interval(m: MatchSetupData, show_as_happened: bool) -> Option<
    (Moment, Moment),
> {
    shown_interval(
        planned_start(m),
        real_start(m),
        opt_schedule_time(text::opt_text(m.completed_time)),
        block_length(m),
        show_as_happened,
    )
}

/// A shown block lasts at least a minute.
pub proof fn law_block_lasts_a_minute(m: MatchSetupData, show_as_happened: bool)
    ensures
        display_interval(m, show_as_happened) matches Some((s, e)) ==> !moment::earlier(e, moment::moved(s, 1)),
{
}

/// A shown block ends after it starts.
pub proof fn law_block_ends_after_start(m: MatchSetupData, show_as_happened: bool)
    requires
        display_interval(m, show_as_happened) matches Some((s, e)) ==> moment::ordinary(s),
    ensures
        display_interval(m, show_as_happened) matches Some((s, e)) ==> moment::earlier(s, e),
{
    if let Some((s, e)) = display_interval(m, show_as_happened) {
        moment::law_moved_forward_is_later(s, 1);
    }
}

/// In any time zone, an interval of at least a minute ends after it starts.
pub proof fn law_shifted_interval_ends_after_start(start: Moment, end: Moment, minutes: int)
    requires
        calm(start),
        calm(end),
        !moment::earlier(end, moment::moved(start, 1)),
        -1_000_000 <= minutes <= 1_000_000,
    ensures
        moment::earlier(moment::moved(start, minutes), moment::moved(end, minutes)),
{
}

/// A late-running day never shows a match later than planned.
pub proof fn law_never_later_than_planned(m: MatchSetupData)
    requires
        planned_start(m) is Some,
    ensures
        display_interval(m, false) matches Some((s, e)) && !moment::earlier(planned_start(m)->0, s),
{
}

/// A day that runs ahead shows a match at its real start.
pub proof fn law_never_later_than_real(m: MatchSetupData)
    requires
        real_start(m) is Some,
    ensures
        display_interval(m, false) matches Some((s, e)) && !moment::earlier(real_start(m)->0, s),
        display_interval(m, true) matches Some((s, e)) && s == real_start(m)->0,
{
}

/// A match that is completed later than its planned end is shown up to the planned end at most, but
/// for the minute that every block lasts.
pub proof fn law_end_never_later_than_planned(m: MatchSetupData)
    requires
        planned_start(m) is Some,
    ensures
        display_interval(m, false) matches Some((s, e)) && (!moment::earlier(
            moment::moved(planned_start(m)->0, block_length(m)),
            e,
        ) || e == moment::moved(s, 1)),
{
}

/// A match has a block exactly if one of its starts can be read.
pub proof fn law_block_needs_a_start(m: MatchSetupData)
    ensures
        display_interval(m, true) is Some <==> real_start(m) is Some,
        display_interval(m, false) is Some <==> (planned_start(m) is Some || real_start(m) is Some),
{
}

fn opt_parse(s: Option<&str>) -> (r: Option<Moment>)
    ensures
        r == opt_schedule_time(text::opt_slice(s)),
        readable(r),
{
    match s {
        Some(t) => parse_schedule_time_utc(t),
        None => None,
    }
}

fn opt_min(a: Option<Moment>, b: Option<Moment>) -> (r: Option<Moment>)
    ensures
        r == opt_earlier_of(a, b),
{
    match (a, b) {
        (Some(p), Some(q)) => Some(min_moment(p, q)),
        (Some(p), None) => Some(p),
        (None, q) => q,
    }
}

fn opt_plus(a: Option<Moment>, minutes: u32) -> (r: Option<Moment>)
    requires
        readable(a),
    ensures
        r == opt_moved(a, minutes as int),
        r matches Some(t) ==> calm(t),
{
    match a {
        Some(t) => Some(plus_minutes(t, minutes as i64)),
        None => None,
    }
}

/// Well inside the bounds of the arithmetic: a shown moment can be moved by any time zone.
pub open spec fn calm(m: Moment) -> bool {
    &&& -10_000_000_000_000 <= m.secs <= 10_000_000_000_000
    &&& m.nanos < 2_000_000_000
}

/// The interval that is shown for starts and an end that are known: the one rule for table, timeline
/// and team views. Without a length a match lasts thirty minutes.
pub fn interval_to_show(
    planned: Option<Moment>,
    begun: Option<Moment>,
    completed: Option<Moment>,
    nominal_length: Option<u32>,
    show_as_happened: bool,
) -> (r: Option<(Moment, Moment)>)
    requires
        readable(planned),
        readable(begun),
        readable(completed),
    ensures
        r == shown_interval(
            planned,
            begun,
            completed,
            match nominal_length {
                Some(n) => n as int,
                None => 30,
            },
            show_as_happened,
        ),
        r matches Some((s, e)) ==> calm(s) && calm(e) && moment::earlier(s, e) && !moment::earlier(e, moment::moved(s, 1)),
{
    let len: u32 = match nominal_length {
        Some(n) => n,
        None => 30,
    };
    let ended = if completed.is_some() {
        completed
    } else {
        opt_plus(begun, len)
    };
    let start = if show_as_happened {
        begun
    } else {
        opt_min(planned, begun)
    };
    let end = if show_as_happened {
        ended
    } else {
        opt_min(opt_plus(planned, len), ended)
    };
    match (start, end) {
        (Some(s), Some(e)) => {
            let least = plus_minutes(s, 1);
            proof {
                moment::law_moved_forward_is_later(s, 1);
            }
            Some((s, max_moment(e, least)))
        },
        _ => None,
    }
}

/// Displayed interval (UTC) of a match block.
pub fn display_interval_utc(m: &MatchSetupData, show_as_happened: bool) -> (r: Option<
    (Moment, Moment),
>)
    ensures
        r == display_interval(*m, show_as_happened),
        r matches Some((s, e)) ==> calm(s) && calm(e) && moment::earlier(s, e) && !moment::earlier(e, moment::moved(s, 1)),
{
    interval_to_show(
        opt_parse(plan_start_str(m)),
        opt_parse(actual_start_str(m)),
        opt_parse(as_deref(&m.completed_time)),
        m.nominal_length,
        show_as_happened,
    )
}

// ---------------------------------------------------------------------------
// Neighbours on a field
// ---------------------------------------------------------------------------

/// The position of the latest of some optional moments that comes no later than a given one; of
/// several, the last.
pub open spec fn latest_start(starts: Seq<Option<Moment>>, before: Moment) -> Option<int>
    decreases starts.len(),
{
    if starts.len() == 0 {
        None
    } else {
        let found = latest_start(starts.drop_last(), before);
        match starts.last() {
            Some(s) => if moment::earlier(before, s) || (found matches Some(i) && moment::earlier(s, starts[i]->0)) {
                found
            } else {
                Some(starts.len() - 1)
            },
            None => found,
        }
    }
}

/// The latest of some optional moments that comes no later than a given one; of several, the last.
pub fn latest_start_before(starts: &[Option<Moment>], before: Moment) -> (r: Option<usize>)
    ensures
        match latest_start(starts@, before) {
            Some(i) => r is Some && r->0 == i && 0 <= i < starts@.len() && starts@[i] is Some,
            None => r is None,
        },
        r matches Some(k) ==> k < starts@.len(),
{
    let mut found: Option<(usize, Moment)> = None;
    let mut i: usize = 0;
    assert(starts@.take(0) =~= Seq::<Option<Moment>>::empty());
    while i < starts.len()
        invariant
            i <= starts@.len(),
            match latest_start(starts@.take(i as int), before) {
                Some(k) => found matches Some((at, s)) && at == k && at < i && starts@[k] == Some(s),
                None => found is None,
            },
        decreases starts@.len() - i,
    {
        let ghost upto = starts@.take(i + 1);
        assert(upto.drop_last() =~= starts@.take(i as int));
        assert(upto.last() == starts@[i as int]);
        match starts[i] {
            Some(s) => {
                if !is_earlier(before, s) {
                    let replace = match found {
                        Some((_, best)) => !is_earlier(s, best),
                        None => true,
                    };
                    if replace {
                        found = Some((i, s));
                    }
                }
            },
            None => {},
        }
        i = i + 1;
    }
    assert(starts@.take(i as int) =~= starts@);
    match found {
        Some((at, _)) => Some(at),
        None => None,
    }
}

/// A moment comes no later than a given one.
pub open spec fn comes_by(start: Option<Moment>, before: Moment) -> bool {
    start matches Some(s) && !moment::earlier(before, s)
}

/// The moment found comes no later than the given one, and none of those that do is later; there is
/// none to find exactly if all come later.
pub proof fn law_latest_start(starts: Seq<Option<Moment>>, before: Moment)
    ensures
        match latest_start(starts, before) {
            Some(i) => 0 <= i < starts.len() && comes_by(starts[i], before) && forall|j: int|
                0 <= j < starts.len() && comes_by(#[trigger] starts[j], before) ==> !moment::earlier(
                    starts[i]->0,
                    starts[j]->0,
                ),
            None => forall|j: int| 0 <= j < starts.len() ==> !comes_by(#[trigger] starts[j], before),
        },
    decreases starts.len(),
{
    if starts.len() > 0 {
        let shorter = starts.drop_last();
        law_latest_start(shorter, before);
        let found = latest_start(starts, before);
        assert forall|j: int| 0 <= j < starts.len() && comes_by(#[trigger] starts[j], before) implies found is Some
            && !moment::earlier(starts[found->0]->0, starts[j]->0) by {
            if j < starts.len() - 1 {
                assert(comes_by(shorter[j], before));
            }
        }
    }
}

/// The local start of a match that another can follow: one on the field that is not skipped, not the
/// excluded one, and has a block.
pub open spec fn followed_start(
    m: MatchSetupData,
    field_name: Seq<char>,
    exclude_uuid: Seq<char>,
    show_as_happened: bool,
    tz: int,
) -> Option<Moment> {
    if m.status@ != "SKIPPED"@ && m.uuid@ != exclude_uuid && text::opt_text(m.field) == Some(field_name) {
        match display_interval(m, show_as_happened) {
            Some(se) => Some(moment::moved(se.0, tz)),
            None => None,
        }
    } else {
        None
    }
}

/// The local starts of the matches that another can follow.
pub open spec fn followed_starts(
    matches: Seq<MatchSetupData>,
    field_name: Seq<char>,
    exclude_uuid: Seq<char>,
    show_as_happened: bool,
    tz: int,
) -> Seq<Option<Moment>> {
    Seq::new(
        matches.len(),
        |i: int| followed_start(matches[i], field_name, exclude_uuid, show_as_happened, tz),
    )
}

/// `m` stands on the field, is not skipped, is not the excluded one, and is shown to start at or
/// before the given local time.
pub open spec fn starts_by(
    m: MatchSetupData,
    field_name: Seq<char>,
    before_local: Moment,
    exclude_uuid: Seq<char>,
    show_as_happened: bool,
    tz: int,
) -> bool {
    comes_by(followed_start(m, field_name, exclude_uuid, show_as_happened, tz), before_local)
}

/// The local start at which a match that has a block is shown.
pub open spec fn shown_start(m: MatchSetupData, show_as_happened: bool, tz: int) -> Moment {
    let (start, end) = display_interval(m, show_as_happened)->0;
    moment::moved(start, tz)
}

/// The local end at which a match that has a block is shown.
pub open spec fn shown_end(m: MatchSetupData, show_as_happened: bool, tz: int) -> Moment {
    let (start, end) = display_interval(m, show_as_happened)->0;
    moment::moved(end, tz)
}

/// The position of the latest of the matches that start by the given time; of several, the last in
/// the list.
pub open spec fn latest_before(
    matches: Seq<MatchSetupData>,
    field_name: Seq<char>,
    before_local: Moment,
    exclude_uuid: Seq<char>,
    show_as_happened: bool,
    tz: int,
) -> Option<int> {
    latest_start(
        followed_starts(matches, field_name, exclude_uuid, show_as_happened, tz),
        before_local,
    )
}

/// The match found is one that starts by the given time, and none of those starts later; there is
/// none to find exactly if no match starts by then.
pub proof fn law_latest_before(
    matches: Seq<MatchSetupData>,
    field_name: Seq<char>,
    before_local: Moment,
    exclude_uuid: Seq<char>,
    show_as_happened: bool,
    tz: int,
)
    ensures
        match latest_before(matches, field_name, before_local, exclude_uuid, show_as_happened, tz) {
            Some(i) => {
                &&& 0 <= i < matches.len()
                &&& starts_by(
                    matches[i],
                    field_name,
                    before_local,
                    exclude_uuid,
                    show_as_happened,
                    tz,
                )
                &&& forall|j: int|
                    0 <= j < matches.len() && starts_by(
                        #[trigger] matches[j],
                        field_name,
                        before_local,
                        exclude_uuid,
                        show_as_happened,
                        tz,
                    ) ==> !moment::earlier(
                        shown_start(matches[i], show_as_happened, tz),
                        shown_start(matches[j], show_as_happened, tz),
                    )
            },
            None => forall|j: int|
                0 <= j < matches.len() ==> !starts_by(
                    #[trigger] matches[j],
                    field_name,
                    before_local,
                    exclude_uuid,
                    show_as_happened,
                    tz,
                ),
        },
{
    let starts = followed_starts(matches, field_name, exclude_uuid, show_as_happened, tz);
    law_latest_start(starts, before_local);
    assert forall|j: int| 0 <= j < matches.len() implies comes_by(#[trigger] starts[j], before_local)
        == starts_by(matches[j], field_name, before_local, exclude_uuid, show_as_happened, tz) by {}
    assert forall|j: int|
        0 <= j < matches.len() && starts_by(
            #[trigger] matches[j],
            field_name,
            before_local,
            exclude_uuid,
            show_as_happened,
            tz,
        ) implies comes_by(starts[j], before_local) by {}
}

/// The match on `field_name` whose displayed start (local) is the latest one at or before
/// `before_local`: its id, its name and its displayed end (local).
pub fn latest_match_before(
    matches: &[MatchSetupData],
    field_name: &str,
    before_local: Moment,
    exclude_uuid: &str,
    show_as_happened: bool,
    tz_offset_minutes: i16,
) -> (r: Option<(String, String, Moment)>)
    ensures
        match latest_before(
            matches@,
            field_name@,
            before_local,
            exclude_uuid@,
            show_as_happened,
            tz_offset_minutes as int,
        ) {
            Some(i) => r matches Some((uuid, name, end)) && uuid@ == matches@[i].uuid@ && name@
                == matches@[i].name@ && end == shown_end(
                matches@[i],
                show_as_happened,
                tz_offset_minutes as int,
            ) && moment::ordinary(end),
            None => r is None,
        },
{
    let ghost tz = tz_offset_minutes as int;
    let ghost all = followed_starts(matches@, field_name@, exclude_uuid@, show_as_happened, tz);
    let mut starts: Vec<Option<Moment>> = Vec::new();
    let mut i: usize = 0;
    while i < matches.len()
        invariant
            i <= matches@.len(),
            tz == tz_offset_minutes,
            all == followed_starts(matches@, field_name@, exclude_uuid@, show_as_happened, tz),
            starts@.len() == i,
            forall|k: int| 0 <= k < i ==> #[trigger] starts@[k] == all[k],
        decreases matches@.len() - i,
    {
        let m = &matches[i];
        let start = if !str_eq(m.status.as_str(), "SKIPPED") && !str_eq(m.uuid.as_str(), exclude_uuid)
            && opt_str_eq(as_deref(&m.field), field_name) {
            match display_interval_utc(m, show_as_happened) {
                Some((s, _)) => Some(plus_minutes(s, tz_offset_minutes as i64)),
                None => None,
            }
        } else {
            None
        };
        starts.push(start);
        i = i + 1;
    }
    assert(starts@ =~= all);
    match latest_start_before(starts.as_slice(), before_local) {
        Some(at) => {
            let m = &matches[at];
            match display_interval_utc(m, show_as_happened) {
                Some((_, e)) => Some(
                    (m.uuid.clone(), m.name.clone(), plus_minutes(e, tz_offset_minutes as i64)),
                ),
                None => None,
            }
        },
        None => None,
    }
}

/// One optional text comes after another: none comes before every text.
pub open spec fn opt_after(a: Option<Seq<char>>, b: Option<Seq<char>>) -> bool {
    match (a, b) {
        (Some(x), Some(y)) => text::precedes(y, x),
        (Some(_), None) => true,
        (None, _) => false,
    }
}

/// Whether one optional text comes after another.
pub fn opt_comes_after(a: Option<&str>, b: Option<&str>) -> (r: bool)
    ensures
        r == opt_after(text::opt_slice(a), text::opt_slice(b)),
{
    match (a, b) {
        (Some(x), Some(y)) => comes_before(y, x),
        (Some(_), None) => true,
        (None, _) => false,
    }
}

/// The positions of the matches on a field, without the excluded one.
pub open spec fn on_field(
    matches: Seq<MatchSetupData>,
    field_name: Seq<char>,
    exclude_uuid: Option<Seq<char>>,
) -> Seq<int> {
    order::kept(
        matches.len(),
        |i: int|
            text::opt_text(matches[i].field) == Some(field_name) && exclude_uuid != Some(matches[i].uuid@),
    )
}

/// Of two positions of a list of matches, the first has the later nominal start.
pub open spec fn nominally_later(matches: Seq<MatchSetupData>, at: Seq<int>) -> spec_fn(
    int,
    int,
) -> bool {
    |a: int, b: int|
        opt_after(
            text::opt_text(matches[at[a]].nominal_start_time),
            text::opt_text(matches[at[b]].nominal_start_time),
        )
}

/// Later nominal starts first is an order.
pub proof fn lemma_nominally_later_orders(matches: Seq<MatchSetupData>, at: Seq<int>)
    ensures
        order::orders(nominally_later(matches, at)),
{
    let before = nominally_later(matches, at);
    let t = |a: int| text::opt_text(matches[at[a]].nominal_start_time);
    assert forall|a: int| !#[trigger] before(a, a) by {
        if t(a) is Some {
            text::law_precedes_is_total(t(a)->0, t(a)->0);
        }
    }
    assert forall|a: int, b: int, c: int| #[trigger] before(a, c) implies (#[trigger] before(a, b)
        || before(b, c)) by {
        if t(a) is Some && t(b) is Some && t(c) is Some {
            text::law_precedes_is_total(t(b)->0, t(a)->0);
            text::law_precedes_is_total(t(c)->0, t(b)->0);
            if text::precedes(t(a)->0, t(b)->0) {
                text::law_precedes_is_transitive(t(c)->0, t(a)->0, t(b)->0);
            }
        }
    }
    assert forall|a: int, b: int| #[trigger] before(a, b) implies !before(b, a) by {
        if t(a) is Some && t(b) is Some {
            text::law_precedes_is_total(t(a)->0, t(b)->0);
        }
    }
}

/// The positions of the matches on the given field, latest nominal start first, ties in their own
/// order.
pub open spec fn on_field_sorted(
    matches: Seq<MatchSetupData>,
    field_name: Seq<char>,
    exclude_uuid: Option<Seq<char>>,
) -> Seq<int> {
    let at = on_field(matches, field_name, exclude_uuid);
    let order = order::stable_order(at.len(), nominally_later(matches, at));
    Seq::new(order.len(), |k: int| at[order[k]])
}

/// The sorted positions are exactly those of the matches on the field, each once; no match has a later
/// nominal start than one before it, and matches with equal starts keep their order.
pub proof fn law_on_field_sorted(
    matches: Seq<MatchSetupData>,
    field_name: Seq<char>,
    exclude_uuid: Option<Seq<char>>,
)
    ensures
        ({
            let r = on_field_sorted(matches, field_name, exclude_uuid);
            &&& r.len() == on_field(matches, field_name, exclude_uuid).len()
            &&& r.no_duplicates()
            &&& forall|k: int|
                0 <= k < r.len() ==> 0 <= #[trigger] r[k] < matches.len() && text::opt_text(
                    matches[r[k]].field,
                ) == Some(field_name) && exclude_uuid != Some(matches[r[k]].uuid@)
            &&& forall|i: int|
                0 <= i < matches.len() && text::opt_text((#[trigger] matches[i]).field) == Some(field_name)
                    && exclude_uuid != Some(matches[i].uuid@) ==> r.contains(i)
            &&& forall|j: int, k: int|
                0 <= j < k < r.len() ==> !opt_after(
                    text::opt_text(matches[#[trigger] r[k]].nominal_start_time),
                    text::opt_text(matches[#[trigger] r[j]].nominal_start_time),
                )
            &&& forall|j: int, k: int|
                0 <= j < k < r.len() && text::opt_text(matches[#[trigger] r[j]].nominal_start_time) == text::opt_text(
                    matches[#[trigger] r[k]].nominal_start_time,
                ) ==> r[j] < r[k]
        }),
{
    let p = |i: int|
        text::opt_text(matches[i].field) == Some(field_name) && exclude_uuid != Some(matches[i].uuid@);
    let at = on_field(matches, field_name, exclude_uuid);
    let before = nominally_later(matches, at);
    let order = order::stable_order(at.len(), before);
    let r = on_field_sorted(matches, field_name, exclude_uuid);
    order::lemma_kept(matches.len(), p);
    lemma_nominally_later_orders(matches, at);
    order::lemma_stable_order(at.len(), before);
    assert forall|k: int| 0 <= k < r.len() implies 0 <= #[trigger] r[k] < matches.len() && text::opt_text(
        matches[r[k]].field,
    ) == Some(field_name) && exclude_uuid != Some(matches[r[k]].uuid@) by {
        assert(0 <= order[k] < at.len());
        assert(p(at[order[k]]));
    }
    assert forall|i: int|
        0 <= i < matches.len() && text::opt_text((#[trigger] matches[i]).field) == Some(field_name)
            && exclude_uuid != Some(matches[i].uuid@) implies r.contains(i) by {
        assert(p(i));
        assert(at.contains(i));
        let j = choose|j: int| 0 <= j < at.len() && at[j] == i;
        assert(order.contains(j));
        let k = choose|k: int| 0 <= k < order.len() && order[k] == j;
        assert(r[k] == i);
    }
    assert forall|j: int, k: int| 0 <= j < k < r.len() implies !opt_after(
        text::opt_text(matches[#[trigger] r[k]].nominal_start_time),
        text::opt_text(matches[#[trigger] r[j]].nominal_start_time),
    ) by {
        assert(!before(order[k], order[j]));
    }
    assert forall|j: int, k: int|
        0 <= j < k < r.len() && text::opt_text(matches[#[trigger] r[j]].nominal_start_time) == text::opt_text(
            matches[#[trigger] r[k]].nominal_start_time,
        ) implies r[j] < r[k] by {
        assert(!before(order[k], order[j]) && (before(order[j], order[k]) || order[j] < order[k]));
        assert(before(order[j], order[k]) == before(order[k], order[k]));
        assert(0 <= order[j] < at.len() && 0 <= order[k] < at.len());
    }
    assert forall|j: int, k: int| 0 <= j < r.len() && 0 <= k < r.len() && j != k implies r[j]
        != r[k] by {
        assert(order[j] != order[k]);
        assert(0 <= order[j] < at.len() && 0 <= order[k] < at.len());
        if order[j] < order[k] {
            assert(at[order[j]] < at[order[k]]);
        } else {
            assert(at[order[k]] < at[order[j]]);
        }
    }
}

/// Matches on the given field, sorted by nominal start descending (most recent first).
pub fn matches_on_field_sorted<'a>(
    matches: &'a [MatchSetupData],
    field_name: &str,
    exclude_uuid: Option<&str>,
) -> (r: Vec<&'a MatchSetupData>)
    ensures
        r@.len() == on_field_sorted(matches@, field_name@, text::opt_slice(exclude_uuid)).len(),
        forall|k: int|
            0 <= k < r@.len() ==> *(#[trigger] r@[k]) == matches@[on_field_sorted(
                matches@,
                field_name@,
                text::opt_slice(exclude_uuid),
            )[k]],
{
    let ghost p = |i: int|
        text::opt_text(matches@[i].field) == Some(field_name@) && text::opt_slice(exclude_uuid) != Some(
            matches@[i].uuid@,
        );
    let mut at: Vec<usize> = Vec::new();
    let mut i: usize = 0;
    assert(order::positions(at@) =~= Seq::<int>::empty());
    while i < matches.len()
        invariant
            i <= matches@.len(),
            order::positions(at@) == order::kept(i as nat, p),
            forall|k: int| 0 <= k < at@.len() ==> #[trigger] at@[k] < matches@.len(),
            p == (|i: int|
                text::opt_text(matches@[i].field) == Some(field_name@) && text::opt_slice(exclude_uuid) != Some(
                    matches@[i].uuid@,
                )),
        decreases matches@.len() - i,
    {
        let m = &matches[i];
        let ghost was = at@;
        if opt_str_eq(as_deref(&m.field), field_name) && !opt_str_eq(exclude_uuid, m.uuid.as_str()) {
            at.push(i);
            assert(order::positions(at@) =~= order::positions(was).push(i as int));
        }
        i = i + 1;
    }
    let ghost before = nominally_later(matches@, order::positions(at@));
    let less = |a: usize, b: usize| -> (t: bool)
        requires
            a < at@.len(),
            b < at@.len(),
            at@[a as int] < matches@.len(),
            at@[b as int] < matches@.len(),
        ensures
            t == opt_after(
                text::opt_text(matches@[at@[a as int] as int].nominal_start_time),
                text::opt_text(matches@[at@[b as int] as int].nominal_start_time),
            ),
        {
            opt_comes_after(
                as_deref(&matches[at[a]].nominal_start_time),
                as_deref(&matches[at[b]].nominal_start_time),
            )
        };
    let order = stable_positions(at.len(), less, Ghost(before));
    let mut out: Vec<&'a MatchSetupData> = Vec::new();
    let mut k: usize = 0;
    while k < order.len()
        invariant
            k <= order@.len(),
            out@.len() == k,
            forall|j: int| 0 <= j < order@.len() ==> #[trigger] order@[j] < at@.len(),
            forall|j: int| 0 <= j < at@.len() ==> #[trigger] at@[j] < matches@.len(),
            forall|j: int|
                0 <= j < k ==> *(#[trigger] out@[j]) == matches@[at@[order@[j] as int] as int],
        decreases order@.len() - k,
    {
        out.push(&matches[at[order[k]]]);
        k = k + 1;
    }
    proof {
        let r = on_field_sorted(matches@, field_name@, text::opt_slice(exclude_uuid));
        assert(order::positions(at@) == on_field(matches@, field_name@, text::opt_slice(exclude_uuid)));
        assert forall|j: int| 0 <= j < out@.len() implies *(#[trigger] out@[j]) == matches@[r[j]] by {
            assert(order::positions(order@)[j] == order@[j]);
            assert(r[j] == order::positions(at@)[order@[j] as int]);
        }
    }
    out
}

// ---------------------------------------------------------------------------
// What is shown when
// ---------------------------------------------------------------------------

/// "Planned or earlier": a block starts at the planned or the real start, no later than either, and
/// ends no later than the planned end and no later than the real one, but for the minute that every
/// block lasts. Without a completed time it never lasts longer than the length of the match.
pub proof fn law_block_is_planned_or_earlier(
    planned: Option<Moment>,
    begun: Option<Moment>,
    completed: Option<Moment>,
    length: int,
)
    ensures
        shown_interval(planned, begun, completed, length, false) is Some <==> planned is Some || begun is Some,
        shown_interval(planned, begun, completed, length, false) matches Some((s, e)) ==> {
            &&& planned == Some(s) || begun == Some(s)
            &&& planned matches Some(p) ==> !moment::earlier(p, s) && (!moment::earlier(moment::moved(p, length), e) || e == moment::moved(s, 1))
            &&& begun matches Some(b) ==> !moment::earlier(b, s)
            &&& completed matches Some(c) ==> !moment::earlier(c, e) || e == moment::moved(s, 1)
            &&& completed is None ==> (begun matches Some(b) ==> !moment::earlier(moment::moved(b, length), e) || e == moment::moved(s, 1))
            &&& completed is None ==> !moment::earlier(moment::moved(s, length), e) || e == moment::moved(s, 1)
            &&& e == moment::moved(s, 1) || completed == Some(e) || (planned matches Some(p) && e == moment::moved(p, length)) || (
            completed is None && (begun matches Some(b) && e == moment::moved(b, length)))
            &&& !moment::earlier(e, moment::moved(s, 1))
        },
{
}

/// A day that runs late shows a match where it was planned: one that starts no earlier than planned and
/// has not been completed covers its planned time.
pub proof fn law_late_match_covers_its_planned_time(planned: Moment, begun: Moment, length: int)
    requires
        moment::ordinary(planned),
        moment::ordinary(begun),
        planned.nanos < 1_000_000_000,
        begun.nanos < 1_000_000_000,
        1 <= length <= 1_000_000_000,
        !moment::earlier(begun, planned),
    ensures
        shown_interval(Some(planned), Some(begun), None, length, false) == Some((planned, moment::moved(planned, length))),
{
    moment::law_moved_keeps_order(begun, planned, length);
}

/// As it happened, a block runs from the real start to the completed end, or for the length, but at
/// least for a minute; the plan does not matter.
pub proof fn law_as_it_happened(
    planned: Option<Moment>,
    begun: Option<Moment>,
    completed: Option<Moment>,
    length: int,
)
    ensures
        shown_interval(planned, begun, completed, length, true) is Some <==> begun is Some,
        shown_interval(planned, begun, completed, length, true) == shown_interval(
            None,
            begun,
            completed,
            length,
            true,
        ),
        shown_interval(planned, begun, completed, length, true) matches Some((s, e)) ==> {
            &&& begun == Some(s)
            &&& !moment::earlier(e, moment::moved(s, 1))
            &&& completed matches Some(c) ==> e == c || (e == moment::moved(s, 1) && !moment::earlier(e, c))
            &&& completed is None ==> e == moment::moved(s, length) || (e == moment::moved(s, 1) && !moment::earlier(e, moment::moved(s, length)))
        },
{
}

/// As it happened, a match starts at its confirmed time, else at the nominal one, else at the one
/// that was scheduled; it ends when it was completed, else after its length, which is thirty minutes
/// where none is set.
pub proof fn law_what_happened_is_read_from_the_match(m: MatchSetupData)
    ensures
        display_interval(m, true) matches Some((s, e)) ==> {
            &&& m.confirmed_start_time matches Some(t) ==> schedule_time(t@) == Some(s)
            &&& m.confirmed_start_time is None ==> (m.nominal_start_time matches Some(t) ==> schedule_time(t@)
                == Some(s))
            &&& m.confirmed_start_time is None && m.nominal_start_time is None ==> (
            m.scheduled_start_time matches Some(t) && schedule_time(t@) == Some(s))
            &&& match m.completed_time {
                Some(c) => schedule_time(c@) matches Some(t) ==> e == t || e == moment::moved(s, 1),
                None => m.nominal_length matches Some(n) ==> e == moment::moved(s, n as int) || e == moment::moved(s, 1),
            }
            &&& m.completed_time is None && m.nominal_length is None ==> e == moment::moved(s, 30) || e == moment::moved(s, 1)
        },
{
}

/// In the plan, a match starts no later than scheduled, or than the nominal time where none was
/// scheduled, and ends no later than its length after that, but for the minute that every block lasts.
pub proof fn law_plan_is_read_from_the_match(m: MatchSetupData)
    ensures
        display_interval(m, false) matches Some((s, e)) ==> {
            &&& m.scheduled_start_time matches Some(t) ==> (schedule_time(t@) matches Some(p) ==> !moment::earlier(p, s) && (
            !moment::earlier(moment::moved(p, block_length(m)), e) || e == moment::moved(s, 1)))
            &&& m.scheduled_start_time is None ==> (m.nominal_start_time matches Some(t) ==> (
            schedule_time(t@) matches Some(p) ==> !moment::earlier(p, s) && (!moment::earlier(moment::moved(p, block_length(m)), e) || e
                == moment::moved(s, 1))))
            &&& m.completed_time matches Some(t) ==> (schedule_time(t@) matches Some(c) ==> !moment::earlier(c, e) || e
                == moment::moved(s, 1))
            &&& block_length(m) == (match m.nominal_length {
                Some(n) => n as int,
                None => 30,
            })
        },
        m.scheduled_start_time matches Some(t) ==> (schedule_time(t@) is Some ==> display_interval(m, false) is Some),
        m.scheduled_start_time is None ==> (m.nominal_start_time matches Some(t) ==> (schedule_time(t@) is Some
            ==> display_interval(m, false) is Some)),
{
}

/// An RFC 3339 text is read as such; a text in any other form of the service is read too; and nothing
/// else is.
pub proof fn law_every_form_of_a_time_is_read(s: Seq<char>)
    ensures
        clock::rfc3339_read(s) is Some ==> schedule_time(s) == clock::rfc3339_read(s) && calendar_time(s) == clock::rfc3339_read(s)
            && input_time(s) == clock::rfc3339_read(s) && stamp_time(s) == clock::rfc3339_read(s),
        ({
            let any = clock::rfc3339_read(s) is Some || clock::naive_read(s, "%Y-%m-%dT%H:%M:%S%.f"@) is Some || clock::naive_read(
                s,
                "%Y-%m-%dT%H:%M"@,
            ) is Some;
            let spaced = clock::naive_read(s, "%Y-%m-%d %H:%M:%S"@) is Some || clock::naive_read(s, "%Y-%m-%d %H:%M"@) is Some;
            &&& stamp_time(s) is Some <==> any
            &&& schedule_time(s) is Some <==> any || spaced
            &&& calendar_time(s) is Some <==> any || spaced
            &&& input_time(s) is Some <==> any || spaced || clock::naive_read(s, "%Y-%m-%dT%H:%M:%S"@) is Some
        }),
        clock::rfc3339_read(s) is None && clock::naive_read(s, "%Y-%m-%dT%H:%M:%S%.f"@) is Some ==> {
            &&& schedule_time(s) == clock::naive_read(s, "%Y-%m-%dT%H:%M:%S%.f"@)
            &&& calendar_time(s) == clock::naive_read(s, "%Y-%m-%dT%H:%M:%S%.f"@)
            &&& input_time(s) == clock::naive_read(s, "%Y-%m-%dT%H:%M:%S%.f"@)
            &&& stamp_time(s) == clock::naive_read(s, "%Y-%m-%dT%H:%M:%S%.f"@)
        },
        stamp_time(s) is Some ==> stamp_time(s) == schedule_time(s),
{
}

/// Local time is UTC and the offset of the time zone: what is written for a local input is the time
/// that many minutes before it, and what an input or a table shows for a time is that many after it.
pub proof fn law_local_time_is_utc_and_the_offset(text: Seq<char>, tz: int)
    requires
        -1440 < tz < 1440,
    ensures
        clock::naive_read(text::trimmed(text), LOCAL_INPUT@) matches Some(t) ==> (text::trimmed(text).len() > 0 && t.nanos < 1_000_000_000
            && moment::ordinary(t) ==> utc_iso_of_local(text, tz) == clock::naive_written(
            Moment { secs: (t.secs - 60 * tz) as i64, nanos: t.nanos },
            UTC_ISO@,
        )),
        input_time(text::trimmed(text)) matches Some(t) ==> (text::trimmed(text).len() > 0 && t.nanos < 1_000_000_000
            && moment::ordinary(t) ==> local_input_of_utc(text, tz) == clock::naive_written(
            Moment { secs: (t.secs + 60 * tz) as i64, nanos: t.nanos },
            LOCAL_INPUT@,
        )),
        stamp_time(text) matches Some(t) ==> (t.nanos < 1_000_000_000 && moment::ordinary(t) ==> (clock::naive_written(
            Moment { secs: (t.secs + 60 * tz) as i64, nanos: t.nanos },
            TABLE_STAMP@,
        ) matches Some(w) ==> stamp_text(text, tz) == w)),
{
}

/// A match that another can follow there and then: it stands on the field, is not skipped, is not the
/// excluded one, and is shown to start by the given local time.
pub proof fn law_previous_match_is_the_last_on_the_field(
    matches: Seq<MatchSetupData>,
    field_name: Seq<char>,
    before_local: Moment,
    exclude_uuid: Seq<char>,
    show_as_happened: bool,
    tz: int,
)
    ensures
        latest_before(matches, field_name, before_local, exclude_uuid, show_as_happened, tz) matches Some(i) ==> {
            &&& 0 <= i < matches.len()
            &&& matches[i].status@ != "SKIPPED"@
            &&& matches[i].uuid@ != exclude_uuid
            &&& text::opt_text(matches[i].field) == Some(field_name)
            &&& display_interval(matches[i], show_as_happened) matches Some((s, e)) && !moment::earlier(
                before_local,
                moment::moved(s, tz),
            )
        },
        forall|j: int|
            0 <= j < matches.len() && (#[trigger] matches[j]).status@ != "SKIPPED"@ && matches[j].uuid@ != exclude_uuid
                && text::opt_text(matches[j].field) == Some(field_name) ==> (display_interval(
                matches[j],
                show_as_happened,
            ) matches Some((s, e)) ==> !moment::earlier(before_local, moment::moved(s, tz)) ==> (latest_before(
                matches,
                field_name,
                before_local,
                exclude_uuid,
                show_as_happened,
                tz,
            ) matches Some(i) && !moment::earlier(
                moment::moved((display_interval(matches[i], show_as_happened)->0).0, tz),
                moment::moved(s, tz),
            ))),
{
    law_latest_before(matches, field_name, before_local, exclude_uuid, show_as_happened, tz);
    assert forall|j: int|
        0 <= j < matches.len() && (#[trigger] matches[j]).status@ != "SKIPPED"@ && matches[j].uuid@ != exclude_uuid
            && text::opt_text(matches[j].field) == Some(field_name) && display_interval(matches[j], show_as_happened) is Some
            && !moment::earlier(before_local, moment::moved((display_interval(matches[j], show_as_happened)->0).0, tz)) implies starts_by(
        matches[j],
        field_name,
        before_local,
        exclude_uuid,
        show_as_happened,
        tz,
    ) by {
    }
}

/// Of two matches on a field, the one that stands before the other in the list has the later nominal
/// start, or the same; a match without one stands after all that have one.
pub proof fn law_later_nominal_starts_come_first(
    matches: Seq<MatchSetupData>,
    field_name: Seq<char>,
    exclude_uuid: Option<Seq<char>>,
    j: int,
    k: int,
)
    requires
        0 <= j < k < on_field_sorted(matches, field_name, exclude_uuid).len(),
    ensures
        ({
            let r = on_field_sorted(matches, field_name, exclude_uuid);
            matches[r[k]].nominal_start_time matches Some(b) ==> (matches[r[j]].nominal_start_time matches Some(a) && (
            a@ == b@ || text::precedes(b@, a@)))
        }),
{
    law_on_field_sorted(matches, field_name, exclude_uuid);
    let r = on_field_sorted(matches, field_name, exclude_uuid);
    assert(!opt_after(text::opt_text(matches[r[k]].nominal_start_time), text::opt_text(matches[r[j]].nominal_start_time)));
    match (matches[r[j]].nominal_start_time, matches[r[k]].nominal_start_time) {
        (Some(a), Some(b)) => {
            text::law_precedes_is_total(a@, b@);
        },
        _ => {},
    }
}

/// A blank text is no time, neither to be sent nor to be shown; and what cannot be read is none either.
pub proof fn law_blank_is_no_time(text: Seq<char>, tz: int)
    ensures
        text::trimmed(text).len() == 0 ==> utc_iso_of_local(text, tz) is None && local_input_of_utc(text, tz) is None,
        clock::naive_read(text::trimmed(text), LOCAL_INPUT@) is None ==> utc_iso_of_local(text, tz) is None,
        input_time(text::trimmed(text)) is None ==> local_input_of_utc(text, tz) is None,
{
}

} // verus!
