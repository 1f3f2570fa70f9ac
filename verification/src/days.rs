//! The days that have matches, and moving between them.
use vstd::prelude::*;
use crate::moment;
use crate::order;
use crate::schedule_time;
use crate::text;
use crate::moment::{Moment, day};
use crate::schedule_time::{actual_start_str, parse_schedule_time_to_local, plan_start_str};
use crate::text::str_eq;
use crate::types::MatchSetupData;

verus! {

/// The local day of a match on the calendar: that of its planned start, so that the calendar stays
/// stable while the day runs. A skipped match has none.
pub open spec fn match_day(m: MatchSetupData, tz: int) -> Option<int> {
    if m.status@ == "SKIPPED"@ {
        None
    } else {
        match schedule_time::or_text(schedule_time::plan_start(m), schedule_time::actual_start(m)) {
            Some(s) => match schedule_time::calendar_time(s) {
                Some(t) => Some(moment::day_of(moment::moved(t, tz))),
                None => None,
            },
            None => None,
        }
    }
}

/// The days that the calendar can hold, and some more.
pub open spec fn day_in_reach(day: i64) -> bool {
    -120_000_000 <= day <= 120_000_000
}

/// A list of days in strictly rising order.
pub open spec fn rising(days: Seq<i64>) -> bool {
    forall|i: int, j: int| 0 <= i < j < days.len() ==> days[i] < days[j]
}

/// Some of the first `n` matches falls on the day.
pub open spec fn has_matches(matches: Seq<MatchSetupData>, n: int, tz: int, day: int) -> bool {
    exists|i: int| 0 <= i < n && match_day(#[trigger] matches[i], tz) == Some(day)
}

fn day_on_calendar(m: &MatchSetupData, tz_offset_minutes: i16) -> (r: Option<i64>)
    ensures
        match match_day(*m, tz_offset_minutes as int) {
            Some(d) => r is Some && r->0 == d,
            None => r is None,
        },
        r matches Some(d) ==> day_in_reach(d),
{
    if str_eq(m.status.as_str(), "SKIPPED") {
        return None;
    }
    let plan = plan_start_str(m);
    let text = if plan.is_some() {
        plan
    } else {
        actual_start_str(m)
    };
    match text {
        Some(s) => match parse_schedule_time_to_local(s, tz_offset_minutes) {
            Some(t) => Some(day(t)),
            None => None,
        },
        None => None,
    }
}

/// Some days, each once, in rising order.
pub fn days_once(found: &[Option<i64>]) -> (r: Vec<i64>)
    ensures
        rising(r@),
        forall|d: i64| #[trigger] r@.contains(d) <==> found@.contains(Some(d)),
{
    let mut days: Vec<i64> = Vec::new();
    let mut i: usize = 0;
    assert(found@.take(0) =~= Seq::<Option<i64>>::empty());
    while i < found.len()
        invariant
            i <= found@.len(),
            rising(days@),
            forall|d: i64| #[trigger] days@.contains(d) <==> found@.take(i as int).contains(Some(d)),
        decreases found@.len() - i,
    {
        let ghost was = days@;
        let ghost before = found@.take(i as int);
        let ghost upto = found@.take(i + 1);
        assert(upto =~= before.push(found@[i as int]));
        match found[i] {
            Some(d) => {
                insert_day(&mut days, d);
            },
            None => {},
        }
        assert forall|d: i64| #[trigger] days@.contains(d) <==> upto.contains(Some(d)) by {
            if before.contains(Some(d)) {
                let k = choose|k: int| 0 <= k < before.len() && before[k] == Some(d);
                assert(upto[k] == Some(d));
            }
            if found@[i as int] == Some(d) {
                assert(upto[i as int] == Some(d));
            }
            if upto.contains(Some(d)) {
                let k = choose|k: int| 0 <= k < upto.len() && upto[k] == Some(d);
                if k < i {
                    assert(before[k] == Some(d));
                }
            }
            assert(was.contains(d) <==> before.contains(Some(d)));
        }
        i = i + 1;
    }
    assert(found@.take(i as int) =~= found@);
    days
}

/// All days with matches, in local time: each once, in rising order.
pub fn dates_with_matches(matches: &[MatchSetupData], tz_offset_minutes: i16) -> (r: Vec<i64>)
    ensures
        rising(r@),
        forall|d: i64|
            #[trigger] r@.contains(d) <==> has_matches(
                matches@,
                matches@.len() as int,
                tz_offset_minutes as int,
                d as int,
            ),
        forall|k: int| 0 <= k < r@.len() ==> day_in_reach(#[trigger] r@[k]),
{
    let mut found: Vec<Option<i64>> = Vec::new();
    let mut i: usize = 0;
    let ghost tz = tz_offset_minutes as int;
    while i < matches.len()
        invariant
            i <= matches@.len(),
            tz == tz_offset_minutes,
            found@.len() == i,
            forall|k: int|
                0 <= k < i ==> match match_day(matches@[k], tz) {
                    Some(d) => #[trigger] found@[k] is Some && found@[k]->0 == d,
                    None => found@[k] is None,
                },
            forall|k: int| 0 <= k < i ==> (#[trigger] found@[k] matches Some(d) ==> day_in_reach(d)),
        decreases matches@.len() - i,
    {
        found.push(day_on_calendar(&matches[i], tz_offset_minutes));
        i = i + 1;
    }
    let days = days_once(found.as_slice());
    proof {
        assert forall|d: i64| #[trigger] days@.contains(d) <==> has_matches(
            matches@,
            matches@.len() as int,
            tz,
            d as int,
        ) by {
            if found@.contains(Some(d)) {
                let k = choose|k: int| 0 <= k < found@.len() && found@[k] == Some(d);
                assert(match_day(matches@[k], tz) == Some(d as int));
            }
            if has_matches(matches@, matches@.len() as int, tz, d as int) {
                let k = choose|k: int|
                    0 <= k < matches@.len() && match_day(#[trigger] matches@[k], tz) == Some(d as int);
                assert(found@[k] == Some(d));
            }
        }
        assert forall|k: int| 0 <= k < days@.len() implies day_in_reach(#[trigger] days@[k]) by {
            assert(days@.contains(days@[k]));
            let j = choose|j: int| 0 <= j < found@.len() && found@[j] == Some(days@[k]);
            assert(found@[j] is Some);
        }
    }
    days
}

fn insert_day(days: &mut Vec<i64>, d: i64)
    requires
        rising(old(days)@),
    ensures
        rising(final(days)@),
        forall|x: i64| #[trigger] final(days)@.contains(x) <==> old(days)@.contains(x) || x == d,
{
    let ghost was = days@;
    let mut at: usize = 0;
    while at < days.len() && days[at] < d
        invariant
            at <= days@.len(),
            days@ == was,
            forall|j: int| 0 <= j < at ==> days@[j] < d,
        decreases days@.len() - at,
    {
        at = at + 1;
    }
    if at < days.len() && days[at] == d {
        assert(was[at as int] == d);
        return;
    }
    days.insert(at, d);
    proof {
        assert forall|i: int, j: int| 0 <= i < j < days@.len() implies days@[i] < days@[j] by {
            if j == at {
            } else if i == at {
                assert(days@[j] == was[j - 1]);
                assert(was[at as int] <= was[j - 1]);
            } else {
                let a = if i < at {
                    i
                } else {
                    i - 1
                };
                let b = if j < at {
                    j
                } else {
                    j - 1
                };
                assert(was[a] < was[b]);
            }
        }
        assert forall|x: i64| #[trigger] days@.contains(x) <==> was.contains(x) || x == d by {
            if was.contains(x) {
                let k = choose|k: int| 0 <= k < was.len() && was[k] == x;
                if k < at {
                    assert(days@[k] == x);
                } else {
                    assert(days@[k + 1] == x);
                }
            }
            if x == d {
                assert(days@[at as int] == x);
            }
            if days@.contains(x) && x != d {
                let k = choose|k: int| 0 <= k < days@.len() && days@[k] == x;
                if k < at {
                    assert(was[k] == x);
                } else {
                    assert(was[k - 1] == x);
                }
            }
        }
    }
}

/// Today if it has matches, else the first day with matches; today where no day has any.
pub open spec fn home_day(days: Seq<i64>, today: i64) -> i64 {
    if days.contains(today) || days.len() == 0 {
        today
    } else {
        days[0]
    }
}

/// The day stands at a position of a list.
pub open spec fn is_day(days: Seq<i64>, d: i64) -> spec_fn(int) -> bool {
    |i: int| days[i] == d
}

/// The position of a day in a list.
pub open spec fn day_at(days: Seq<i64>, d: i64) -> Option<int> {
    order::first_where(days.len(), is_day(days, d))
}

proof fn lemma_day_at(days: Seq<i64>, d: i64)
    ensures
        match day_at(days, d) {
            Some(i) => 0 <= i < days.len() && days[i] == d,
            None => !days.contains(d),
        },
{
    let p = is_day(days, d);
    order::lemma_first_where(days.len(), p);
    assert(forall|i: int| #[trigger] p(i) == (days[i] == d));
    if day_at(days, d) is None && days.contains(d) {
        let k = choose|k: int| 0 <= k < days.len() && days[k] == d;
        assert(p(k));
    }
}

/// The day after a step: to the next or previous day with matches, or home. A step that leads
/// nowhere stays.
pub open spec fn stepped(days: Seq<i64>, current: i64, today: i64, step: Seq<char>) -> i64 {
    if step == "next"@ {
        match day_at(days, current) {
            Some(i) => if i + 1 < days.len() {
                days[i + 1]
            } else {
                current
            },
            None => current,
        }
    } else if step == "prev"@ {
        match day_at(days, current) {
            Some(i) => if i > 0 {
                days[i - 1]
            } else {
                current
            },
            None => current,
        }
    } else if step == "today"@ {
        if days.len() == 0 {
            current
        } else {
            home_day(days, today)
        }
    } else {
        current
    }
}

fn position_of(days: &[i64], d: i64) -> (r: Option<usize>)
    ensures
        match day_at(days@, d) {
            Some(i) => r is Some && r->0 == i && 0 <= i < days@.len(),
            None => r is None,
        },
        r is Some <==> days@.contains(d),
        r matches Some(k) ==> k < days@.len(),
{
    let ghost p = is_day(days@, d);
    let mut i: usize = 0;
    while i < days.len()
        invariant
            i <= days@.len(),
            p == is_day(days@, d),
            order::first_where(i as nat, p) is None,
            forall|j: int| 0 <= j < i ==> days@[j] != d,
        decreases days@.len() - i,
    {
        if days[i] == d {
            proof {
                assert(p(i as int));
                order::lemma_first_where_stays((i + 1) as nat, days@.len(), p);
            }
            assert(days@[i as int] == d);
            return Some(i);
        }
        assert(!p(i as int));
        i = i + 1;
    }
    None
}

/// The day that is shown first.
pub fn default_visible_date(days: &[i64], today: i64) -> (r: i64)
    ensures
        r == home_day(days@, today),
{
    if days.len() == 0 || position_of(days, today).is_some() {
        today
    } else {
        days[0]
    }
}

/// The day that is shown after a step ("next", "prev" or "today").
pub fn step_visible_date(days: &[i64], current: i64, today: i64, step: &str) -> (r: i64)
    ensures
        r == stepped(days@, current, today, step@),
{
    let n = days.len();
    if str_eq(step, "next") {
        match position_of(days, current) {
            Some(i) => if i + 1 < n {
                days[i + 1]
            } else {
                current
            },
            None => current,
        }
    } else if str_eq(step, "prev") {
        match position_of(days, current) {
            Some(i) => if i > 0 {
                days[i - 1]
            } else {
                current
            },
            None => current,
        }
    } else if str_eq(step, "today") {
        if days.len() == 0 {
            current
        } else {
            default_visible_date(days, today)
        }
    } else {
        current
    }
}

/// Whether there is a previous and a next day to step to.
pub fn date_neighbours(days: &[i64], current: i64) -> (r: (bool, bool))
    ensures
        r.0 == (day_at(days@, current) matches Some(i) && i > 0),
        r.1 == (day_at(days@, current) matches Some(i) && i + 1 < days@.len()),
        rising(days@) ==> r.0 == (stepped(days@, current, current, "prev"@) != current),
        rising(days@) ==> r.1 == (stepped(days@, current, current, "next"@) != current),
{
    let n = days.len();
    proof {
        lemma_day_at(days@, current);
        reveal_strlit("next");
        reveal_strlit("prev");
        assert("next"@[0] != "prev"@[0]);
    }
    match position_of(days, current) {
        Some(i) => (i > 0, i + 1 < n),
        None => (false, false),
    }
}

/// A step forward is undone by a step back, and the other way round.
pub proof fn law_steps_undo(days: Seq<i64>, current: i64, today: i64)
    requires
        rising(days),
        days.contains(current),
    ensures
        stepped(days, current, today, "next"@) != current ==> stepped(
            days,
            stepped(days, current, today, "next"@),
            today,
            "prev"@,
        ) == current,
        stepped(days, current, today, "prev"@) != current ==> stepped(
            days,
            stepped(days, current, today, "prev"@),
            today,
            "next"@,
        ) == current,
{
    reveal_strlit("next");
    reveal_strlit("prev");
    assert("next"@[0] != "prev"@[0]);
    lemma_day_at(days, current);
    let i = day_at(days, current)->0;
    if i + 1 < days.len() {
        lemma_day_at(days, days[i + 1]);
        let j = day_at(days, days[i + 1])->0;
        assert(j == i + 1) by {
            if j < i + 1 {
                assert(days[j] < days[i + 1]);
            } else if j > i + 1 {
                assert(days[i + 1] < days[j]);
            }
        }
    }
    if i > 0 {
        lemma_day_at(days, days[i - 1]);
        let j = day_at(days, days[i - 1])->0;
        assert(j == i - 1) by {
            if j < i - 1 {
                assert(days[j] < days[i - 1]);
            } else if j > i - 1 {
                assert(days[i - 1] < days[j]);
            }
        }
    }
}

/// From a day with matches, every step leads to a day with matches.
pub proof fn law_steps_stay_on_days(days: Seq<i64>, current: i64, today: i64, step: Seq<char>)
    requires
        days.contains(current),
    ensures
        days.contains(stepped(days, current, today, step)),
{
    lemma_day_at(days, current);
}

/// The day of a match is that of its planned start, and only where it has none that of its nominal or
/// else its confirmed start; it is the day of the local time.
pub proof fn law_day_of_a_match(m: MatchSetupData, tz: int, s: Seq<char>, t: Moment)
    requires
        schedule_time::calendar_time(s) == Some(t),
        moment::ordinary(t),
        t.nanos < 1_000_000_000,
        -1_000_000 <= tz <= 1_000_000,
        text::opt_text(m.scheduled_start_time) == Some(s) || (m.scheduled_start_time is None && text::opt_text(
            m.nominal_start_time,
        ) == Some(s)) || (m.scheduled_start_time is None && m.nominal_start_time is None && text::opt_text(
            m.confirmed_start_time,
        ) == Some(s)),
    ensures
        m.status@ == "SKIPPED"@ ==> match_day(m, tz) is None,
        m.status@ != "SKIPPED"@ ==> match_day(m, tz) == Some((t.secs + 60 * tz) / 86_400),
{
}

/// The next day is the first with matches after the current one, the previous day the last before
/// it; where there is none, and from a day without matches, a step stays.
pub proof fn law_steps_lead_to_neighbours(days: Seq<i64>, current: i64, today: i64)
    requires
        rising(days),
    ensures
        ({
            let next = stepped(days, current, today, "next"@);
            let prev = stepped(days, current, today, "prev"@);
            &&& days.contains(current) ==> next >= current && prev <= current
            &&& forall|d: i64| days.contains(current) && #[trigger] days.contains(d) && d > current ==> current < next <= d
            &&& forall|d: i64| days.contains(current) && #[trigger] days.contains(d) && d < current ==> d <= prev < current
            &&& next != current ==> days.contains(next)
            &&& prev != current ==> days.contains(prev)
            &&& !days.contains(current) ==> next == current && prev == current
        }),
{
    reveal_strlit("next");
    reveal_strlit("prev");
    assert("next"@[0] != "prev"@[0]);
    lemma_day_at(days, current);
    match day_at(days, current) {
        Some(i) => {
            assert forall|d: i64| days.contains(current) && #[trigger] days.contains(d) && d > current implies current
                < stepped(days, current, today, "next"@) <= d by {
                let j = choose|j: int| 0 <= j < days.len() && days[j] == d;
                if j < i {
                    assert(days[j] < days[i]);
                }
                if i + 1 < j {
                    assert(days[i + 1] < days[j]);
                }
                assert(days[i] < days[i + 1]);
            }
            assert forall|d: i64| days.contains(current) && #[trigger] days.contains(d) && d < current implies d
                <= stepped(days, current, today, "prev"@) < current by {
                let j = choose|j: int| 0 <= j < days.len() && days[j] == d;
                if j > i {
                    assert(days[i] < days[j]);
                }
                if j < i - 1 {
                    assert(days[j] < days[i - 1]);
                }
                assert(days[i - 1] < days[i]);
            }
            if i + 1 < days.len() {
                assert(days[i] < days[i + 1]);
            }
            if i > 0 {
                assert(days[i - 1] < days[i]);
            }
        },
        None => {},
    }
}

/// Home is today where today has matches, else the first day that has any.
pub proof fn law_home_is_today_or_the_first_day(days: Seq<i64>, current: i64, today: i64)
    requires
        rising(days),
    ensures
        days.contains(today) ==> home_day(days, today) == today,
        days.len() > 0 ==> days.contains(home_day(days, today)),
        days.len() == 0 ==> home_day(days, today) == today,
        forall|d: i64| #[trigger] days.contains(d) && !days.contains(today) ==> home_day(days, today) <= d,
        days.len() > 0 ==> stepped(days, current, today, "today"@) == home_day(days, today),
{
    reveal_strlit("next");
    reveal_strlit("prev");
    reveal_strlit("today");
    assert("today"@.len() == 5 && "next"@.len() == 4 && "prev"@.len() == 4);
    assert(days.len() > 0 ==> days.contains(days[0]));
}

/// A day has matches exactly if a match that is not skipped falls on it, and more matches never take a
/// day away.
pub proof fn law_days_have_their_matches(matches: Seq<MatchSetupData>, n: int, tz: int, day: int, i: int)
    requires
        0 <= i < n,
    ensures
        match_day(matches[i], tz) == Some(day) ==> has_matches(matches, n, tz, day),
        has_matches(matches, n, tz, day) ==> exists|k: int|
            0 <= k < n && match_day(#[trigger] matches[k], tz) == Some(day) && matches[k].status@ != "SKIPPED"@,
        has_matches(matches, n, tz, day) ==> has_matches(matches, n + 1, tz, day),
        !has_matches(matches, 0, tz, day),
{
}

} // verus!
