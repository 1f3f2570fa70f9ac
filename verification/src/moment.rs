//! Wall-clock moments: a count of seconds with a sub-second part, and the arithmetic the schedule
//! needs on them.
use vstd::prelude::*;
use crate::text;
use crate::text::two_digit_text;

verus! {

/// Seconds of a day.
pub const DAY_SECONDS: i64 = 86_400;

/// A moment of a calendar without a time zone.
///
/// `secs` counts from the start of 1970. `nanos` is the part below a second; it reaches one
/// thousand million and above only inside a leap second, which is then the second after `secs`.
#[derive(Clone, Copy, Debug, PartialEq, Eq, Structural)]
pub struct Moment {
    pub secs: i64,
    pub nanos: u32,
}

/// The seconds that the arithmetic here is sure not to leave.
pub open spec fn ordinary(m: Moment) -> bool {
    &&& -100_000_000_000_000 <= m.secs <= 100_000_000_000_000
    &&& m.nanos < 2_000_000_000
}

/// `a` is earlier than `b`.
pub open spec fn earlier(a: Moment, b: Moment) -> bool {
    a.secs < b.secs || (a.secs == b.secs && a.nanos < b.nanos)
}

/// The earlier of two moments.
pub open spec fn earlier_of(a: Moment, b: Moment) -> Moment {
    if earlier(b, a) {
        b
    } else {
        a
    }
}

/// The later of two moments.
pub open spec fn later_of(a: Moment, b: Moment) -> Moment {
    if earlier(b, a) {
        a
    } else {
        b
    }
}

/// The moment `minutes` after `m`. Leaving a leap second forwards counts it as the second it
/// follows, leaving it backwards as the second after.
pub open spec fn moved(m: Moment, minutes: int) -> Moment {
    if m.nanos >= 1_000_000_000 && minutes > 0 {
        Moment { secs: (m.secs + 60 * minutes) as i64, nanos: (m.nanos - 1_000_000_000) as u32 }
    } else if m.nanos >= 1_000_000_000 && minutes < 0 {
        Moment { secs: (m.secs + 1 + 60 * minutes) as i64, nanos: (m.nanos - 1_000_000_000) as u32 }
    } else {
        Moment { secs: (m.secs + 60 * minutes) as i64, nanos: m.nanos }
    }
}

/// The day a moment falls on, counted from the start of 1970.
pub open spec fn day_of(m: Moment) -> int {
    m.secs as int / 86_400
}

/// The minute of its day a moment falls in.
pub open spec fn minute_of_day(m: Moment) -> int {
    (m.secs as int % 86_400) / 60
}

/// Whole seconds from `b` to `a`, rounded down. A leap second lies between the two exactly when
/// the one that is inside it has the smaller second of its day.
pub open spec fn seconds_between(a: Moment, b: Moment) -> int {
    let leap = if a.secs as int % 86_400 > b.secs as int % 86_400 && b.nanos >= 1_000_000_000 {
        1int
    } else if (a.secs as int % 86_400) < b.secs as int % 86_400 && a.nanos >= 1_000_000_000 {
        -1int
    } else {
        0int
    };
    a.secs - b.secs + leap + (a.nanos - b.nanos) / 1_000_000_000
}

/// Whole minutes from `start` to `end`, at least one.
pub open spec fn length_minutes(start: Moment, end: Moment) -> int {
    let minutes = seconds_between(end, start) / 60;
    if minutes < 1 {
        1
    } else {
        minutes
    }
}

/// A time of day as `HH:MM`.
pub open spec fn clock_text(minute: int) -> Seq<char> {
    text::two_digits((minute / 60) as nat) + seq![':'] + text::two_digits((minute % 60) as nat)
}

/// The order of moments is total: of two different moments one is earlier, never both.
pub proof fn law_earlier_is_total(a: Moment, b: Moment)
    ensures
        a == b || earlier(a, b) || earlier(b, a),
        !(earlier(a, b) && earlier(b, a)),
{
}

/// The order of moments is transitive.
pub proof fn law_earlier_is_transitive(a: Moment, b: Moment, c: Moment)
    requires
        earlier(a, b),
        earlier(b, c),
    ensures
        earlier(a, c),
{
}

/// Outside a leap second, moving by some minutes and back gives the moment back.
pub proof fn law_moved_back(m: Moment, minutes: int)
    requires
        ordinary(m),
        m.nanos < 1_000_000_000,
        -1_000_000_000_000 <= minutes <= 1_000_000_000_000,
    ensures
        moved(moved(m, minutes), -minutes) == m,
{
}

/// Moving forward by at least a minute makes a moment strictly later, a leap second included.
pub proof fn law_moved_forward_is_later(m: Moment, minutes: int)
    requires
        ordinary(m),
        1 <= minutes <= 1_000_000_000_000,
    ensures
        earlier(m, moved(m, minutes)),
{
}

/// Moving keeps the order of moments that lie outside leap seconds.
pub proof fn law_moved_keeps_order(a: Moment, b: Moment, minutes: int)
    requires
        ordinary(a),
        ordinary(b),
        a.nanos < 1_000_000_000,
        b.nanos < 1_000_000_000,
        -1_000_000_000_000 <= minutes <= 1_000_000_000_000,
    ensures
        earlier(a, b) == earlier(moved(a, minutes), moved(b, minutes)),
{
}

/// Whether `a` is earlier than `b`.
pub fn is_earlier(a: Moment, b: Moment) -> (r: bool)
    ensures
        r == earlier(a, b),
{
    a.secs < b.secs || (a.secs == b.secs && a.nanos < b.nanos)
}

/// The earlier of two moments.
pub fn min_moment(a: Moment, b: Moment) -> (r: Moment)
    ensures
        r == earlier_of(a, b),
{
    if is_earlier(b, a) {
        b
    } else {
        a
    }
}

/// The later of two moments.
pub fn max_moment(a: Moment, b: Moment) -> (r: Moment)
    ensures
        r == later_of(a, b),
{
    if is_earlier(b, a) {
        a
    } else {
        b
    }
}

/// The moment `minutes` after `m`.
pub fn plus_minutes(m: Moment, minutes: i64) -> (r: Moment)
    requires
        ordinary(m),
        -1_000_000_000_000 <= minutes <= 1_000_000_000_000,
    ensures
        r == moved(m, minutes as int),
{
    if m.nanos >= 1_000_000_000 && minutes > 0 {
        Moment { secs: m.secs + 60 * minutes, nanos: m.nanos - 1_000_000_000 }
    } else if m.nanos >= 1_000_000_000 && minutes < 0 {
        Moment { secs: m.secs + 1 + 60 * minutes, nanos: m.nanos - 1_000_000_000 }
    } else {
        Moment { secs: m.secs + 60 * minutes, nanos: m.nanos }
    }
}

/// Floor division by a positive number.
fn div_floor(x: i64, by: i64) -> (r: i64)
    requires
        by > 0,
    ensures
        r == x as int / by as int,
{
    if x >= 0 {
        x / by
    } else {
        let part: i64 = (-(x + 1)) / by;
        assert(-part - 1 == x as int / by as int && part <= -(x + 1)) by (nonlinear_arith)
            requires
                x < 0,
                by > 0,
                part == -(x + 1) / by as int,
        ;
        -part - 1
    }
}

/// Remainder of floor division by a positive number.
fn rem_floor(x: i64, by: i64) -> (r: i64)
    requires
        by > 0,
    ensures
        r == x as int % by as int,
        0 <= r < by,
{
    if x >= 0 {
        x % by
    } else {
        let y: i64 = -(x + 1);
        let part: i64 = y % by;
        proof {
            let d = by as int;
            let q = y as int / d;
            vstd::arithmetic::div_mod::lemma_fundamental_div_mod(y as int, d);
            assert((-q - 1) * d == -(d * q) - d) by (nonlinear_arith);
            vstd::arithmetic::div_mod::lemma_fundamental_div_mod_converse(
                x as int,
                d,
                -q - 1,
                d - 1 - part,
            );
        }
        by - 1 - part
    }
}

/// The day of a moment.
pub fn day(m: Moment) -> (r: i64)
    ensures
        r == day_of(m),
{
    div_floor(m.secs, DAY_SECONDS)
}

/// The second of its day of a moment.
pub fn second_of_day(m: Moment) -> (r: i64)
    ensures
        r == m.secs as int % 86_400,
        0 <= r < 86_400,
{
    rem_floor(m.secs, DAY_SECONDS)
}

/// The minute of its day of a moment.
pub fn minute(m: Moment) -> (r: u32)
    ensures
        r == minute_of_day(m),
        r < 1440,
{
    (second_of_day(m) / 60) as u32
}

/// Whole minutes from `b` to `a`, rounded down.
pub fn minutes_from(a: Moment, b: Moment) -> (r: i64)
    requires
        ordinary(a),
        ordinary(b),
    ensures
        r == seconds_between(a, b) / 60,
        -4_000_000_000_000 <= r <= 4_000_000_000_000,
{
    let x = second_of_day(a);
    let y = second_of_day(b);
    let leap: i64 = if x > y && b.nanos >= 1_000_000_000 {
        1
    } else if x < y && a.nanos >= 1_000_000_000 {
        -1
    } else {
        0
    };
    let below = div_floor(a.nanos as i64 - b.nanos as i64, 1_000_000_000);
    div_floor(a.secs - b.secs + leap + below, 60)
}

/// Whole minutes from `start` to `end`, at least one.
pub fn whole_minutes(start: Moment, end: Moment) -> (r: i64)
    requires
        ordinary(start),
        ordinary(end),
    ensures
        r == length_minutes(start, end),
        1 <= r <= 4_000_000_000_000,
{
    let minutes = minutes_from(end, start);
    if minutes < 1 {
        1
    } else {
        minutes
    }
}

/// A minute of the day as `HH:MM`.
pub fn clock_string(minute: u32) -> (r: String)
    ensures
        r@ == clock_text(minute as int),
{
    proof {
        reveal_strlit(":");
    }
    let mut out = two_digit_text((minute / 60) as u64);
    out.append(":");
    out.append(two_digit_text((minute % 60) as u64).as_str());
    assert(out@ =~= clock_text(minute as int));
    out
}

/// Outside a leap second, moving by some minutes moves by sixty times as many seconds.
pub proof fn law_moved_by_minutes(m: Moment, minutes: int)
    requires
        ordinary(m),
        m.nanos < 1_000_000_000,
        -1_000_000_000_000 <= minutes <= 1_000_000_000_000,
    ensures
        moved(m, minutes).secs == m.secs + 60 * minutes,
        moved(m, minutes).nanos == m.nanos,
{
}

/// Outside leap seconds, the earlier of two moments has the smaller count of nanoseconds.
pub proof fn law_earlier_is_before(a: Moment, b: Moment)
    requires
        a.nanos < 1_000_000_000,
        b.nanos < 1_000_000_000,
    ensures
        earlier(a, b) <==> a.secs * 1_000_000_000 + a.nanos < b.secs * 1_000_000_000 + b.nanos,
        earlier_of(a, b) == a || earlier_of(a, b) == b,
        later_of(a, b) == a || later_of(a, b) == b,
        !earlier(a, earlier_of(a, b)) && !earlier(b, earlier_of(a, b)),
        !earlier(later_of(a, b), a) && !earlier(later_of(a, b), b),
{
}

/// A moment lies in its day and in the minute of it.
pub proof fn law_day_and_minute(m: Moment)
    ensures
        0 <= minute_of_day(m) < 1440,
        0 <= m.secs - (86_400 * day_of(m) + 60 * minute_of_day(m)) < 60,
{
}

/// Outside leap seconds, the seconds between two moments are those of their difference, rounded down,
/// and the minutes from a moment to one some minutes later are these.
pub proof fn law_time_between(a: Moment, b: Moment, minutes: int)
    requires
        ordinary(b),
        a.nanos < 1_000_000_000,
        b.nanos < 1_000_000_000,
        1 <= minutes <= 1_000_000_000_000,
    ensures
        0 <= (a.secs - b.secs) * 1_000_000_000 + a.nanos - b.nanos - seconds_between(a, b) * 1_000_000_000
            < 1_000_000_000,
        length_minutes(b, moved(b, minutes)) == minutes,
        length_minutes(a, b) >= 1,
{
}

} // verus!
