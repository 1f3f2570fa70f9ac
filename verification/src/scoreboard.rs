//! Stones on the scoreboard: how many are left of a set that is paced by the global beat.
use vstd::prelude::*;
use crate::clock;
use crate::moment;
use crate::order;
use crate::text;
use crate::clock::read_rfc3339;
use crate::moment::Moment;
use crate::text::opt_str_eq;
use crate::types::ScoreboardPointForStones;

verus! {

/// Milliseconds of a beat.
pub const BEAT_MS: i64 = 1500;

/// Milliseconds since 1970 of a moment of UTC.
pub open spec fn millis_of(m: Moment) -> int {
    m.secs * 1000 + m.nanos as int / 1_000_000
}

/// The beat that a moment of UTC falls in; beats count from 1970.
pub open spec fn beat_of(m: Moment) -> int {
    millis_of(m) / 1500
}

/// The value that is left in 32 bits.
pub open spec fn low_bits(x: int) -> u32 {
    (x % 0x1_0000_0000) as u32
}

/// The beats from one to another; none where the second comes first. A count that needs more than 32
/// bits starts again from none.
pub open spec fn beats_between(start: int, end: int) -> u32 {
    if end <= start {
        0
    } else {
        low_bits(end - start)
    }
}

/// The beats from one moment to a later one and on to a third add up, as long as they are less than
/// 2^32.
pub proof fn law_beats_add_up(a: int, b: int, c: int)
    requires
        a <= b <= c,
        c - a < 0x1_0000_0000,
    ensures
        beats_between(a, b) + beats_between(b, c) == beats_between(a, c),
        beats_between(a, c) == c - a,
{
}

/// The beats that were crossed since a start: up to an end, or up to now where there is none. There
/// is no such count where a stamp cannot be read.
pub open spec fn stones_elapsed(start: Option<Seq<char>>, end: Option<Seq<char>>, now_beat: int) -> Option<u32> {
    match start {
        Some(s) => match clock::rfc3339_read(s) {
            Some(from) => match end {
                Some(e) => match clock::rfc3339_read(e) {
                    Some(to) => Some(beats_between(beat_of(from), beat_of(to))),
                    None => None,
                },
                None => Some(beats_between(beat_of(from), now_beat)),
            },
            None => None,
        },
        None => None,
    }
}

/// The stones left of a number after some beats; never less than none.
pub open spec fn left_of(stones: u32, beats: u32) -> u32 {
    if beats >= stones {
        0
    } else {
        (stones - beats) as u32
    }
}

/// The beat of a moment.
pub fn beat(m: Moment) -> (r: i64)
    requires
        moment::ordinary(m),
    ensures
        r == beat_of(m),
        -100_000_000_000_000 <= r <= 100_000_000_000_000,
{
    let ms: i64 = m.secs * 1000 + (m.nanos / 1_000_000) as i64;
    if ms >= 0 {
        ms / BEAT_MS
    } else {
        -((-(ms + 1)) / BEAT_MS) - 1
    }
}

/// The beats from one to another; none where the second comes first. A count that needs more than 32
/// bits starts again from none.
pub fn count_beats(start: i64, end: i64) -> (r: u32)
    requires
        is_beat(start),
        is_beat(end),
    ensures
        r == beats_between(start as int, end as int),
{
    if end <= start {
        0
    } else {
        ((end - start) % 0x1_0000_0000) as u32
    }
}

/// A beat that can be counted from and to without overflow.
pub open spec fn is_beat(beat: i64) -> bool {
    -0x4000_0000_0000_0000 <= beat <= 0x3fff_ffff_ffff_ffff
}

/// Stones elapsed: the global beats crossed from a start to an end, or to now where there is none.
pub fn scoreboard_stones_elapsed(
    start_stamp: Option<&str>,
    end_stamp: Option<&str>,
    now_beat: i64,
) -> (r: Option<u32>)
    requires
        is_beat(now_beat),
    ensures
        r == stones_elapsed(text::opt_slice(start_stamp), text::opt_slice(end_stamp), now_beat as int),
{
    let from = match start_stamp {
        Some(s) => match read_rfc3339(s) {
            Some(m) => beat(m),
            None => {
                return None;
            },
        },
        None => {
            return None;
        },
    };
    match end_stamp {
        Some(e) => match read_rfc3339(e) {
            Some(m) => Some(count_beats(from, beat(m))),
            None => None,
        },
        None => Some(count_beats(from, now_beat)),
    }
}

/// A point with the beats that its stamps fall in, where there are stamps that can be read.
#[derive(Clone, Copy, Debug)]
pub struct PointBeats {
    pub stones_at_start: Option<u32>,
    pub start: Option<i64>,
    /// Whether the point has an end stamp at all.
    pub ended: bool,
    pub end: Option<i64>,
}

/// The beat of a stamp that is there and can be read, or none.
pub open spec fn is_stamp_beat(beat: Option<i64>, stamp: Option<Seq<char>>) -> bool {
    match stamp {
        Some(s) => match clock::rfc3339_read(s) {
            Some(m) => beat is Some && beat->0 == beat_of(m),
            None => beat is None,
        },
        None => beat is None,
    }
}

/// The beats are those of the stamps of a point.
pub open spec fn are_beats_of(b: PointBeats, p: ScoreboardPointForStones) -> bool {
    &&& b.stones_at_start == p.stones_at_start
    &&& is_stamp_beat(b.start, text::opt_text(p.stamp))
    &&& b.ended == (p.end_stamp is Some)
    &&& is_stamp_beat(b.end, text::opt_text(p.end_stamp))
}

/// The beats are those of the stamps of some points.
pub open spec fn are_all_beats_of(beats: Seq<PointBeats>, points: Seq<ScoreboardPointForStones>) -> bool {
    beats.len() == points.len() && forall|k: int|
        0 <= k < points.len() ==> are_beats_of(#[trigger] beats[k], points[k])
}

/// The stones left after a point that has ended.
pub open spec fn left_after(p: PointBeats) -> Option<u32> {
    match (p.stones_at_start, p.start, p.end) {
        (Some(stones), Some(start), Some(end)) => Some(
            left_of(stones, beats_between(start as int, end as int)),
        ),
        _ => None,
    }
}

/// The stones left after the last of the points of which it can be told.
pub open spec fn left_after_last(points: Seq<PointBeats>) -> Option<u32>
    decreases points.len(),
{
    if points.len() == 0 {
        None
    } else if left_after(points.last()) is Some {
        left_after(points.last())
    } else {
        left_after_last(points.drop_last())
    }
}

/// The stones left: during a point, of those at its start; between points, after the last one.
pub open spec fn left_now(points: Seq<PointBeats>, now_beat: int) -> Option<u32> {
    if points.len() == 0 {
        None
    } else if !points.last().ended {
        match (points.last().stones_at_start, points.last().start) {
            (Some(stones), Some(start)) => Some(left_of(stones, beats_between(start as int, now_beat))),
            _ => None,
        }
    } else {
        left_after_last(points)
    }
}

/// The stones left of a point: those at its start less the beats that were crossed since, up to its
/// end, or up to now where it has none.
pub open spec fn point_left(p: ScoreboardPointForStones, now_beat: int) -> Option<u32> {
    match (p.stones_at_start, stones_elapsed(text::opt_text(p.stamp), text::opt_text(p.end_stamp), now_beat)) {
        (Some(stones), Some(beats)) => Some(left_of(stones, beats)),
        _ => None,
    }
}

/// The stones left after the last of the points that have ended and of which it can be told.
pub open spec fn left_after_points(points: Seq<ScoreboardPointForStones>, now_beat: int) -> Option<u32>
    decreases points.len(),
{
    if points.len() == 0 {
        None
    } else if points.last().end_stamp is Some && point_left(points.last(), now_beat) is Some {
        point_left(points.last(), now_beat)
    } else {
        left_after_points(points.drop_last(), now_beat)
    }
}

/// The stones left, from the list of points: during a point, of that point; between points, after the
/// last one that ended.
pub open spec fn stones_left(points: Seq<ScoreboardPointForStones>, now_beat: int) -> Option<u32> {
    if points.len() == 0 {
        None
    } else if points.last().end_stamp is None {
        point_left(points.last(), now_beat)
    } else {
        left_after_points(points, now_beat)
    }
}

/// The beats of the points tell the stones that are left as their stamps do.
pub proof fn law_beats_tell_the_stones(
    beats: Seq<PointBeats>,
    points: Seq<ScoreboardPointForStones>,
    now_beat: int,
)
    requires
        are_all_beats_of(beats, points),
    ensures
        left_now(beats, now_beat) == stones_left(points, now_beat),
{
    lemma_left_after_points(beats, points, now_beat);
    if points.len() > 0 {
        assert(are_beats_of(beats[points.len() - 1], points[points.len() - 1]));
    }
}

proof fn lemma_left_after_points(
    beats: Seq<PointBeats>,
    points: Seq<ScoreboardPointForStones>,
    now_beat: int,
)
    requires
        are_all_beats_of(beats, points),
    ensures
        left_after_last(beats) == left_after_points(points, now_beat),
    decreases points.len(),
{
    if points.len() > 0 {
        assert(are_beats_of(beats[points.len() - 1], points[points.len() - 1]));
        assert(are_all_beats_of(beats.drop_last(), points.drop_last())) by {
            assert forall|k: int| 0 <= k < points.len() - 1 implies are_beats_of(
                #[trigger] beats.drop_last()[k],
                points.drop_last()[k],
            ) by {
                assert(are_beats_of(beats[k], points[k]));
            }
        }
        lemma_left_after_points(beats.drop_last(), points.drop_last(), now_beat);
    }
}

/// The beats of a point can be counted.
pub open spec fn countable(p: PointBeats) -> bool {
    (p.start matches Some(b) ==> is_beat(b)) && (p.end matches Some(b) ==> is_beat(b))
}

fn take_beats(stones: u32, beats: u32) -> (r: u32)
    ensures
        r == left_of(stones, beats),
{
    if beats >= stones {
        0
    } else {
        stones - beats
    }
}

/// Stones remaining, from the beats of the points.
pub fn stones_remaining(points: &[PointBeats], now_beat: i64) -> (r: Option<u32>)
    requires
        is_beat(now_beat),
        forall|k: int| 0 <= k < points@.len() ==> countable(#[trigger] points@[k]),
    ensures
        r == left_now(points@, now_beat as int),
{
    let n = points.len();
    if n == 0 {
        return None;
    }
    let last = points[n - 1];
    if !last.ended {
        return match (last.stones_at_start, last.start) {
            (Some(stones), Some(start)) => Some(take_beats(stones, count_beats(start, now_beat))),
            _ => None,
        };
    }
    let mut i: usize = n;
    assert(points@.take(n as int) =~= points@);
    while i > 0
        invariant
            i <= points@.len(),
            points@.len() > 0,
            points@.last().ended,
            forall|k: int| 0 <= k < points@.len() ==> countable(#[trigger] points@[k]),
            left_after_last(points@) == left_after_last(points@.take(i as int)),
        decreases i,
    {
        assert(points@.take(i as int).drop_last() =~= points@.take(i - 1));
        assert(points@.take(i as int).last() == points@[i - 1]);
        i = i - 1;
        let p = points[i];
        match (p.stones_at_start, p.start, p.end) {
            (Some(stones), Some(start), Some(end)) => {
                return Some(take_beats(stones, count_beats(start, end)));
            },
            _ => {},
        }
    }
    None
}

fn read_beat(stamp: &Option<String>) -> (r: Option<i64>)
    ensures
        is_stamp_beat(r, text::opt_text(*stamp)),
        r matches Some(b) ==> is_beat(b),
{
    match stamp {
        Some(s) => match read_rfc3339(s.as_str()) {
            Some(m) => Some(beat(m)),
            None => None,
        },
        None => None,
    }
}

/// Stones remaining, from the list of points.
pub fn scoreboard_compute_stones_remaining(points: &[ScoreboardPointForStones], now_beat: i64) -> (r: Option<
    u32,
>)
    requires
        is_beat(now_beat),
    ensures
        r == stones_left(points@, now_beat as int),
{
    let mut beats: Vec<PointBeats> = Vec::new();
    let mut i: usize = 0;
    while i < points.len()
        invariant
            i <= points@.len(),
            beats@.len() == i,
            forall|k: int|
                0 <= k < i ==> are_beats_of(#[trigger] beats@[k], points@[k]) && countable(beats@[k]),
        decreases points@.len() - i,
    {
        let p = &points[i];
        beats.push(
            PointBeats {
                stones_at_start: p.stones_at_start,
                start: read_beat(&p.stamp),
                ended: p.end_stamp.is_some(),
                end: read_beat(&p.end_stamp),
            },
        );
        i = i + 1;
    }
    proof {
        law_beats_tell_the_stones(beats@, points@, now_beat as int);
    }
    stones_remaining(beats.as_slice(), now_beat)
}

/// The stones that the board shows: during a point the live count, else the one that was last
/// fetched; each where the other is missing, and none where both are.
pub open spec fn shown_stones(
    points: Option<Seq<ScoreboardPointForStones>>,
    fetched: Option<u32>,
    now_beat: int,
) -> u32 {
    let live = match points {
        Some(p) => stones_left(p, now_beat),
        None => None,
    };
    let during = points matches Some(p) && p.len() > 0 && p.last().end_stamp is None;
    stones_of(live, fetched, during)
}

/// Of a live count and a fetched one, the live one during a point and else the fetched one; each
/// where the other is missing, and none where both are.
pub open spec fn stones_of(live: Option<u32>, fetched: Option<u32>, during: bool) -> u32 {
    let (first, second) = if during {
        (live, fetched)
    } else {
        (fetched, live)
    };
    match first {
        Some(n) => n,
        None => match second {
            Some(n) => n,
            None => 0,
        },
    }
}

/// The stones that the board shows, from a live count and a fetched one.
pub fn stones_on_board(live: Option<u32>, fetched: Option<u32>, during: bool) -> (r: u32)
    ensures
        r == stones_of(live, fetched, during),
{
    let (first, second) = if during {
        (live, fetched)
    } else {
        (fetched, live)
    };
    match first {
        Some(n) => n,
        None => match second {
            Some(n) => n,
            None => 0,
        },
    }
}

/// The points of an optional list.
pub open spec fn opt_points(points: Option<Vec<ScoreboardPointForStones>>) -> Option<
    Seq<ScoreboardPointForStones>,
> {
    match points {
        Some(p) => Some(p@),
        None => None,
    }
}

/// The stones that the board shows.
pub fn stones_to_show(
    points: &Option<Vec<ScoreboardPointForStones>>,
    fetched: Option<u32>,
    now_beat: i64,
) -> (r: u32)
    requires
        is_beat(now_beat),
    ensures
        r == shown_stones(opt_points(*points), fetched, now_beat as int),
{
    let (live, during) = match points {
        Some(p) => {
            let n = p.len();
            (
                scoreboard_compute_stones_remaining(p.as_slice(), now_beat),
                n > 0 && p[n - 1].end_stamp.is_none(),
            )
        },
        None => (None, false),
    };
    stones_on_board(live, fetched, during)
}

/// Whether the board has to count by itself: during a match that is played for stones.
pub fn counts_live(has_active_match: bool, has_stones: bool) -> (r: bool)
    ensures
        r == (has_active_match && has_stones),
{
    has_active_match && has_stones
}

/// The side that has won.
pub open spec fn winning_side(winner: Option<Seq<char>>) -> Option<u8> {
    if winner == Some("TEAM1"@) {
        Some(1u8)
    } else if winner == Some("TEAM2"@) {
        Some(2u8)
    } else {
        None
    }
}

/// Each side wins under its own name, and nobody under any other.
pub proof fn law_each_side_wins_under_its_name(winner: Option<Seq<char>>)
    ensures
        winning_side(winner) == Some(1u8) <==> winner == Some("TEAM1"@),
        winning_side(winner) == Some(2u8) <==> winner == Some("TEAM2"@),
        winning_side(None) is None,
{
    reveal_strlit("TEAM1");
    reveal_strlit("TEAM2");
    assert("TEAM1"@[4] != "TEAM2"@[4]);
}

/// Which side of a previous match has won.
pub fn winner_side(winner: Option<&str>) -> (r: Option<u8>)
    ensures
        r == winning_side(text::opt_slice(winner)),
{
    if opt_str_eq(winner, "TEAM1") {
        Some(1)
    } else if opt_str_eq(winner, "TEAM2") {
        Some(2)
    } else {
        None
    }
}

/// During a point there are never more stones than at its start.
pub proof fn law_stones_never_exceed_the_start(points: Seq<PointBeats>, now_beat: int)
    requires
        points.len() > 0,
        !points.last().ended,
    ensures
        left_now(points, now_beat) matches Some(n) ==> points.last().stones_at_start is Some && n
            <= points.last().stones_at_start->0,
{
}

/// During a point stones only go down as time goes on, as long as less than 2^32 beats have passed.
pub proof fn law_stones_only_go_down(points: Seq<PointBeats>, beat1: int, beat2: int)
    requires
        points.len() > 0,
        !points.last().ended,
        beat1 <= beat2,
        points.last().start matches Some(start) ==> beat2 - start < 0x1_0000_0000,
    ensures
        left_now(points, beat1) is Some <==> left_now(points, beat2) is Some,
        left_now(points, beat1) matches Some(a) ==> left_now(points, beat2)->0 <= a,
{
}

/// During a point the board never counts more stones than there were at its start.
pub proof fn law_board_never_exceeds_the_start(points: Seq<ScoreboardPointForStones>, now_beat: int)
    requires
        points.len() > 0,
        points.last().end_stamp is None,
    ensures
        stones_left(points, now_beat) matches Some(n) ==> points.last().stones_at_start is Some && n
            <= points.last().stones_at_start->0,
{
}

/// During a point the count of the board only goes down as time goes on, as long as less than 2^32
/// beats have passed.
pub proof fn law_board_only_goes_down(points: Seq<ScoreboardPointForStones>, beat1: int, beat2: int)
    requires
        points.len() > 0,
        points.last().end_stamp is None,
        beat1 <= beat2,
        points.last().stamp matches Some(s) ==> (clock::rfc3339_read(s@) matches Some(m) ==> beat2 - beat_of(m)
            < 0x1_0000_0000),
    ensures
        stones_left(points, beat1) is Some <==> stones_left(points, beat2) is Some,
        stones_left(points, beat1) matches Some(a) ==> stones_left(points, beat2)->0 <= a,
{
}

// ---------------------------------------------------------------------------
// Scores
// ---------------------------------------------------------------------------

/// A known score is that of a set.
pub open spec fn scores_set(known: Seq<(u32, u32)>, set: u32) -> spec_fn(int) -> bool {
    |i: int| known[i].0 == set
}

/// The score of a set: the first that is known of it, or zero.
pub open spec fn score_of_set(known: Seq<(u32, u32)>, set: u32) -> u32 {
    match order::first_where(known.len(), scores_set(known, set)) {
        Some(i) => known[i].1,
        None => 0,
    }
}

/// The score of each set, in order. `known` holds sets with their scores.
pub fn set_scores(sets: &[u32], known: &[(u32, u32)]) -> (r: Vec<u32>)
    ensures
        r@.len() == sets@.len(),
        forall|k: int| 0 <= k < r@.len() ==> #[trigger] r@[k] == score_of_set(known@, sets@[k]),
{
    let mut scores: Vec<u32> = Vec::new();
    let mut k: usize = 0;
    while k < sets.len()
        invariant
            k <= sets@.len(),
            scores@.len() == k,
            forall|j: int| 0 <= j < k ==> #[trigger] scores@[j] == score_of_set(known@, sets@[j]),
        decreases sets@.len() - k,
    {
        let set: u32 = sets[k];
        let ghost p = scores_set(known@, set);
        let mut score: u32 = 0;
        let mut found = false;
        let mut i: usize = 0;
        while i < known.len() && !found
            invariant
                i <= known@.len(),
                p == scores_set(known@, set),
                found ==> order::first_where(known@.len(), p) is Some && score == known@[order::first_where(
                    known@.len(),
                    p,
                )->0].1,
                !found ==> score == 0 && order::first_where(i as nat, p) is None,
            decreases known@.len() - i + (if found { 0int } else { 1int }),
        {
            if known[i].0 == set {
                proof {
                    assert(p(i as int));
                    assert(order::first_where((i + 1) as nat, p) == Some(i as int));
                    order::lemma_first_where_stays((i + 1) as nat, known@.len(), p);
                }
                score = known[i].1;
                found = true;
            } else {
                assert(!p(i as int));
                i = i + 1;
            }
        }
        scores.push(score);
        k = k + 1;
    }
    scores
}

// ---------------------------------------------------------------------------
// What the counts mean
// ---------------------------------------------------------------------------

/// A beat lasts one and a half seconds; later moments fall in the same beat or a later one.
pub proof fn law_beat_of_a_moment(a: Moment, b: Moment)
    ensures
        1500 * beat_of(a) <= a.secs * 1000 + a.nanos as int / 1_000_000 < 1500 * beat_of(a) + 1500,
        a.secs < b.secs && a.nanos < 1_000_000_000 ==> beat_of(a) <= beat_of(b),
        a.secs == b.secs && a.nanos <= b.nanos ==> beat_of(a) <= beat_of(b),
{
}

/// Every beat takes a stone until none is left.
pub proof fn law_every_beat_takes_a_stone(stones: u32, beats: u32)
    ensures
        beats <= stones ==> left_of(stones, beats) + beats == stones,
        beats > stones ==> left_of(stones, beats) == 0,
        left_of(stones, 0) == stones,
{
}

/// The stones that have gone by are the beats from the start to the end, or to now where there is no
/// end; none where the end comes first, and no count where a stamp is missing or cannot be read.
pub proof fn law_stones_go_by_with_the_beats(start: Seq<char>, end: Seq<char>, a: Moment, b: Moment, now_beat: int)
    requires
        clock::rfc3339_read(start) == Some(a),
        clock::rfc3339_read(end) == Some(b),
        beat_of(b) - beat_of(a) < 0x1_0000_0000,
        now_beat - beat_of(a) < 0x1_0000_0000,
    ensures
        beat_of(a) <= beat_of(b) ==> stones_elapsed(Some(start), Some(end), now_beat) == Some(
            (beat_of(b) - beat_of(a)) as u32,
        ),
        beat_of(a) > beat_of(b) ==> stones_elapsed(Some(start), Some(end), now_beat) == Some(0u32),
        beat_of(a) <= now_beat ==> stones_elapsed(Some(start), None, now_beat) == Some((now_beat - beat_of(a)) as u32),
        stones_elapsed(None, Some(end), now_beat) is None,
{
}

/// Without an end a count goes on with the beats; with one it does not depend on the time.
pub proof fn law_ended_count_stands_still(start: Option<Seq<char>>, end: Seq<char>, a: int, b: int)
    ensures
        stones_elapsed(start, Some(end), a) == stones_elapsed(start, Some(end), b),
{
}

/// Between points the last of which the count can be told tells it.
pub proof fn law_last_point_tells(points: Seq<ScoreboardPointForStones>, now_beat: int)
    ensures
        match left_after_points(points, now_beat) {
            Some(n) => exists|k: int|
                0 <= k < points.len() && (#[trigger] points[k]).end_stamp is Some && point_left(points[k], now_beat)
                    == Some(n) && forall|j: int|
                    k < j < points.len() ==> (#[trigger] points[j]).end_stamp is None || point_left(
                        points[j],
                        now_beat,
                    ) is None,
            None => forall|j: int|
                0 <= j < points.len() ==> (#[trigger] points[j]).end_stamp is None || point_left(points[j], now_beat)
                    is None,
        },
    decreases points.len(),
{
    if points.len() > 0 {
        let last = points.len() - 1;
        assert(points[last] == points.last());
        if points.last().end_stamp is Some && point_left(points.last(), now_beat) is Some {
        } else {
            let before = points.drop_last();
            law_last_point_tells(before, now_beat);
            match left_after_points(before, now_beat) {
                Some(n) => {
                    let k = choose|k: int|
                        0 <= k < before.len() && (#[trigger] before[k]).end_stamp is Some && point_left(
                            before[k],
                            now_beat,
                        ) == Some(n) && forall|j: int|
                            k < j < before.len() ==> (#[trigger] before[j]).end_stamp is None || point_left(
                                before[j],
                                now_beat,
                            ) is None;
                    assert(points[k] == before[k]);
                    assert forall|j: int| k < j < points.len() implies (#[trigger] points[j]).end_stamp is None
                        || point_left(points[j], now_beat) is None by {
                        if j < last {
                            assert(points[j] == before[j]);
                        }
                    }
                },
                None => {
                    assert forall|j: int| 0 <= j < points.len() implies (#[trigger] points[j]).end_stamp is None
                        || point_left(points[j], now_beat) is None by {
                        if j < last {
                            assert(points[j] == before[j]);
                        }
                    }
                },
            }
        }
    }
}

/// During a point the count is that of the point: its stones at the start less the beats since then.
pub proof fn law_count_during_a_point(points: Seq<ScoreboardPointForStones>, stones: u32, start: Moment, now_beat: int)
    requires
        points.len() > 0,
        points.last().end_stamp is None,
        points.last().stones_at_start == Some(stones),
        points.last().stamp is Some,
        clock::rfc3339_read(points.last().stamp->0@) == Some(start),
        0 <= now_beat - beat_of(start) < 0x1_0000_0000,
    ensures
        now_beat - beat_of(start) <= stones ==> stones_left(points, now_beat) == Some(
            (stones - (now_beat - beat_of(start))) as u32,
        ),
        now_beat - beat_of(start) > stones ==> stones_left(points, now_beat) == Some(0u32),
{
}

/// The board shows the live count during a point and the fetched one otherwise, and each of them where
/// it is the only one.
pub proof fn law_what_the_board_shows(live: u32, fetched: u32, during: bool)
    ensures
        stones_of(Some(live), Some(fetched), true) == live,
        stones_of(Some(live), Some(fetched), false) == fetched,
        stones_of(Some(live), None, during) == live,
        stones_of(None, Some(fetched), during) == fetched,
        stones_of(None, None, during) == 0,
{
}

/// The score of a set is the first that is known of it; a set of which none is known has none.
pub proof fn law_score_of_a_set(known: Seq<(u32, u32)>, set: u32, i: int)
    ensures
        0 <= i < known.len() && known[i].0 == set && (forall|j: int| 0 <= j < i ==> (#[trigger] known[j]).0 != set)
            ==> score_of_set(known, set) == known[i].1,
        (forall|j: int| 0 <= j < known.len() ==> (#[trigger] known[j]).0 != set) ==> score_of_set(known, set) == 0,
{
    let p = scores_set(known, set);
    order::lemma_first_where(known.len(), p);
    if 0 <= i < known.len() && known[i].0 == set && (forall|j: int| 0 <= j < i ==> (#[trigger] known[j]).0 != set) {
        assert(p(i));
        let found = order::first_where(known.len(), p)->0;
        assert(p(found));
        assert(known[found].0 == set);
        assert(found == i);
    }
    if forall|j: int| 0 <= j < known.len() ==> (#[trigger] known[j]).0 != set {
        if order::first_where(known.len(), p) is Some {
            let found = order::first_where(known.len(), p)->0;
            assert(p(found));
            assert(known[found].0 != set);
        }
    }
}

/// During a point the board shows what is left of it whatever was fetched; between points it shows what
/// was fetched, and without points nothing else.
pub proof fn law_board_follows_the_point(points: Seq<ScoreboardPointForStones>, fetched: u32, now_beat: int, n: u32)
    requires
        points.len() > 0,
        stones_left(points, now_beat) == Some(n),
    ensures
        points.last().end_stamp is None ==> shown_stones(Some(points), Some(fetched), now_beat) == n,
        points.last().end_stamp is Some ==> shown_stones(Some(points), Some(fetched), now_beat) == fetched,
        shown_stones(Some(points), None, now_beat) == n,
        shown_stones(None, Some(fetched), now_beat) == fetched,
        shown_stones(None, None, now_beat) == 0,
{
}

} // verus!
