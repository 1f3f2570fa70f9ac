//! The grid of a day: the lanes of its blocks, its rows, and the joins across its columns.
use vstd::prelude::*;
use crate::clock;
use crate::days;
use crate::lanes;
use crate::moment;
use crate::order;
use crate::schedule_time;
use crate::text;
use crate::timeline;
use crate::clock::{LONG_DAY, write_moment};
use crate::lanes::{Lane, Span, assign_lanes, count_lanes};
use crate::moment::{DAY_SECONDS, Moment, clock_string, day, is_earlier, minute, plus_minutes};
use crate::order::stable_positions;
use crate::schedule_time::display_interval_utc;
use crate::text::{as_deref, opt_str_eq, str_eq};
use crate::timeline::{Column, SLOTS_PER_DAY, SLOT_MINUTES, TimelineEvent, TimelineView, find_field, is_field_selected, is_team_view};
use crate::types::MatchSetupData;

verus! {

// ---------------------------------------------------------------------------
// Lanes of the blocks of a day
// ---------------------------------------------------------------------------

/// A block stands in a column on a day.
pub open spec fn stands_in(e: TimelineEvent, field_id: u32, day: i64) -> bool {
    &&& e.field_id == field_id
    &&& moment::day_of(e.start_time) == day
    &&& text::opt_text(e.schedule_type) != Some("JOIN"@)
    &&& e.status@ != "SKIPPED"@
}

/// A block of the list stands in a column on a day.
pub open spec fn stands_at(events: Seq<TimelineEvent>, field_id: u32, day: i64) -> spec_fn(int) -> bool {
    |i: int| stands_in(events[i], field_id, day)
}

/// Of two blocks, the first starts earlier.
pub open spec fn starts_earlier(events: Seq<TimelineEvent>, at: Seq<int>) -> spec_fn(int, int) -> bool {
    |a: int, b: int| moment::earlier(events[at[a]].start_time, events[at[b]].start_time)
}

/// The positions of the blocks of a column on a day, by their start; ties in their own order.
pub open spec fn column_order(events: Seq<TimelineEvent>, field_id: u32, day: i64) -> Seq<int> {
    let at = order::kept(events.len(), stands_at(events, field_id, day));
    let order = order::stable_order(at.len(), starts_earlier(events, at));
    Seq::new(order.len(), |k: int| at[order[k]])
}

/// The time that a block covers.
pub open spec fn span_of(e: TimelineEvent) -> Span {
    Span { start: e.start_time, end: e.end_time }
}

/// The spans of blocks in a given order.
pub open spec fn spans_of(events: Seq<TimelineEvent>, order: Seq<int>) -> Seq<Span> {
    Seq::new(order.len(), |k: int| span_of(events[order[k]]))
}

/// The lanes of blocks in a given order.
pub open spec fn lanes_of(lanes: Seq<Lane>, order: Seq<int>) -> Seq<int> {
    Seq::new(order.len(), |k: int| lanes[order[k]].lane_index as int)
}

/// The blocks of a column on a day have the lanes and counts that the rule gives them.
pub open spec fn column_laid_out(
    events: Seq<TimelineEvent>,
    lanes: Seq<Lane>,
    field_id: u32,
    day: i64,
) -> bool {
    let order = column_order(events, field_id, day);
    &&& lanes::greedy_lanes(spans_of(events, order), lanes_of(lanes, order))
    &&& forall|k: int|
        0 <= k < order.len() ==> lanes::is_lane_count(
            spans_of(events, order),
            lanes_of(lanes, order),
            k,
            lanes[#[trigger] order[k]].num_lanes as int,
        )
}

/// Earlier starts first is an order.
pub proof fn lemma_starts_earlier_orders(events: Seq<TimelineEvent>, at: Seq<int>)
    ensures
        order::orders(starts_earlier(events, at)),
{
}

/// The order of a column holds exactly the blocks of the column, each once.
pub proof fn lemma_column_order(events: Seq<TimelineEvent>, field_id: u32, day: i64)
    ensures
        ({
            let order = column_order(events, field_id, day);
            &&& order.no_duplicates()
            &&& forall|k: int|
                0 <= k < order.len() ==> 0 <= #[trigger] order[k] < events.len() && stands_in(
                    events[order[k]],
                    field_id,
                    day,
                )
            &&& forall|i: int|
                0 <= i < events.len() && stands_in(#[trigger] events[i], field_id, day)
                    ==> order.contains(i)
        }),
{
    let p = stands_at(events, field_id, day);
    let at = order::kept(events.len(), p);
    let before = starts_earlier(events, at);
    let order = order::stable_order(at.len(), before);
    let r = column_order(events, field_id, day);
    order::lemma_kept(events.len(), p);
    lemma_starts_earlier_orders(events, at);
    order::lemma_stable_order(at.len(), before);
    assert forall|k: int| 0 <= k < r.len() implies 0 <= #[trigger] r[k] < events.len() && stands_in(
        events[r[k]],
        field_id,
        day,
    ) by {
        assert(0 <= order[k] < at.len());
        assert(p(at[order[k]]));
    }
    assert forall|i: int| 0 <= i < events.len() && stands_in(#[trigger] events[i], field_id, day) implies r.contains(
        i,
    ) by {
        assert(p(i));
        assert(at.contains(i));
        let j = choose|j: int| 0 <= j < at.len() && at[j] == i;
        assert(order.contains(j));
        let k = choose|k: int| 0 <= k < order.len() && order[k] == j;
        assert(r[k] == i);
    }
    assert forall|j: int, k: int| 0 <= j < r.len() && 0 <= k < r.len() && j != k implies r[j]
        != r[k] by {
        assert(order[j] != order[k]);
        assert(0 <= order[j] < at.len() && 0 <= order[k] < at.len());
        if order[j] < order[k] {
            assert(at[order[j]] < at[order[k]]);
        } else {
            assert(at[order[k]] < at[order[j]]);
        }
    }
}

/// A layout of a column looks at the lanes of that column only.
proof fn lemma_column_frame(
    events: Seq<TimelineEvent>,
    a: Seq<Lane>,
    b: Seq<Lane>,
    field_id: u32,
    day: i64,
)
    requires
        a.len() == events.len(),
        b.len() == events.len(),
        forall|i: int| 0 <= i < events.len() && events[i].field_id == field_id ==> a[i] == #[trigger] b[i],
        column_laid_out(events, a, field_id, day),
    ensures
        column_laid_out(events, b, field_id, day),
{
    let order = column_order(events, field_id, day);
    lemma_column_order(events, field_id, day);
    assert forall|k: int| 0 <= k < order.len() implies a[order[k]] == b[#[trigger] order[k]] by {
        assert(stands_in(events[order[k]], field_id, day));
    }
    assert(lanes_of(a, order) =~= lanes_of(b, order));
}

/// Blocks of one column that overlap in time stand in different lanes, whatever else is on the day.
pub proof fn law_overlapping_blocks_have_different_lanes(
    events: Seq<TimelineEvent>,
    lanes: Seq<Lane>,
    field_id: u32,
    day: i64,
    i: int,
    j: int,
)
    requires
        column_laid_out(events, lanes, field_id, day),
        0 <= i < events.len(),
        0 <= j < events.len(),
        i != j,
        stands_in(events[i], field_id, day),
        stands_in(events[j], field_id, day),
        lanes::overlap(span_of(events[i]), span_of(events[j])),
    ensures
        lanes[i].lane_index != lanes[j].lane_index,
{
    let order = column_order(events, field_id, day);
    lemma_column_order(events, field_id, day);
    let a = choose|a: int| 0 <= a < order.len() && order[a] == i;
    let b = choose|b: int| 0 <= b < order.len() && order[b] == j;
    assert(order.contains(i) && order.contains(j));
    lanes::law_overlapping_spans_have_different_lanes(spans_of(events, order), lanes_of(lanes, order), a, b);
}

/// A block stands in one of the lanes that its column is divided into.
pub proof fn law_block_lane_is_below_its_count(
    events: Seq<TimelineEvent>,
    lanes: Seq<Lane>,
    field_id: u32,
    day: i64,
    i: int,
)
    requires
        column_laid_out(events, lanes, field_id, day),
        0 <= i < events.len(),
        stands_in(events[i], field_id, day),
        timeline::has_span(events[i]),
    ensures
        lanes[i].lane_index < lanes[i].num_lanes,
{
    let order = column_order(events, field_id, day);
    lemma_column_order(events, field_id, day);
    let a = choose|a: int| 0 <= a < order.len() && order[a] == i;
    assert(order.contains(i));
    lanes::law_lane_is_below_count(
        spans_of(events, order),
        lanes_of(lanes, order),
        a,
        lanes[order[a]].num_lanes as int,
    );
}

proof fn lemma_column_sorted(events: Seq<TimelineEvent>, field_id: u32, day: i64)
    ensures
        lanes::sorted_by_start(spans_of(events, column_order(events, field_id, day))),
{
    let at = order::kept(events.len(), stands_at(events, field_id, day));
    let before = starts_earlier(events, at);
    let order = order::stable_order(at.len(), before);
    let spans = spans_of(events, column_order(events, field_id, day));
    lemma_starts_earlier_orders(events, at);
    order::lemma_stable_order(at.len(), before);
    assert forall|j: int, k: int| 0 <= j < k < spans.len() implies !moment::earlier(
        (#[trigger] spans[k]).start,
        (#[trigger] spans[j]).start,
    ) by {
        assert(!before(order[k], order[j]));
    }
}

/// Different blocks of a column on a day share an instant.
pub open spec fn blocks_share(
    events: Seq<TimelineEvent>,
    field_id: u32,
    day: i64,
    at: Seq<int>,
    t: Moment,
) -> bool {
    at.no_duplicates() && forall|i: int|
        0 <= i < at.len() ==> 0 <= #[trigger] at[i] < events.len() && stands_in(events[at[i]], field_id, day)
            && lanes::covers(span_of(events[at[i]]), t)
}

/// The lanes that a column uses on a day: one more than the highest; none without blocks.
pub open spec fn is_column_total(
    events: Seq<TimelineEvent>,
    lanes: Seq<Lane>,
    field_id: u32,
    day: i64,
    n: int,
) -> bool {
    lanes::is_lane_total(lanes_of(lanes, column_order(events, field_id, day)), n)
}

/// A column is divided into as many lanes as the most of its blocks that share an instant: never are
/// there more such blocks than lanes, and at some instant there are as many.
pub proof fn law_column_has_as_many_lanes_as_needed(
    events: Seq<TimelineEvent>,
    lanes: Seq<Lane>,
    field_id: u32,
    day: i64,
    n: int,
)
    requires
        column_laid_out(events, lanes, field_id, day),
        is_column_total(events, lanes, field_id, day, n),
        forall|i: int|
            0 <= i < events.len() && stands_in(#[trigger] events[i], field_id, day) ==> timeline::has_span(events[i]),
    ensures
        forall|at: Seq<int>, t: Moment|
            #[trigger] blocks_share(events, field_id, day, at, t) ==> at.len() <= n,
        n > 0 ==> exists|at: Seq<int>, t: Moment|
            #[trigger] blocks_share(events, field_id, day, at, t) && at.len() == n,
{
    let order = column_order(events, field_id, day);
    let spans = spans_of(events, order);
    let column = lanes_of(lanes, order);
    lemma_column_order(events, field_id, day);
    lemma_column_sorted(events, field_id, day);
    assert forall|at: Seq<int>, t: Moment| #[trigger] blocks_share(events, field_id, day, at, t) implies at.len()
        <= n by {
        let places = Seq::new(at.len(), |i: int| choose|k: int| 0 <= k < order.len() && order[k] == at[i]);
        assert forall|i: int| 0 <= i < at.len() implies 0 <= #[trigger] places[i] < order.len() && order[places[i]]
            == at[i] by {
            assert(order.contains(at[i]));
        }
        assert forall|i: int, j: int| 0 <= i < places.len() && 0 <= j < places.len() && i != j implies places[i]
            != places[j] by {
            assert(at[i] != at[j]);
        }
        assert(lanes::share(spans, places, t));
        lanes::law_sharing_spans_fit_in_the_lanes(spans, column, n, places, t);
    }
    if n > 0 {
        assert forall|k: int| 0 <= k < spans.len() implies moment::earlier((#[trigger] spans[k]).start, spans[k].end) by {
            assert(0 <= order[k] < events.len());
            assert(timeline::has_span(events[order[k]]));
        }
        lanes::law_lanes_are_as_few_as_can_be(spans, column, n);
        let (places, t) = choose|at: Seq<int>, t: Moment| #[trigger] lanes::share(spans, at, t) && at.len() == n;
        let at = Seq::new(places.len(), |i: int| order[places[i]]);
        assert forall|i: int| 0 <= i < at.len() implies 0 <= #[trigger] at[i] < events.len() && stands_in(
            events[at[i]],
            field_id,
            day,
        ) && lanes::covers(span_of(events[at[i]]), t) by {
            assert(0 <= places[i] < order.len() && lanes::covers(spans[places[i]], t));
        }
        assert forall|i: int, j: int| 0 <= i < at.len() && 0 <= j < at.len() && i != j implies at[i] != at[j] by {
            assert(places[i] != places[j]);
            assert(0 <= places[i] < order.len() && 0 <= places[j] < order.len());
        }
        assert(blocks_share(events, field_id, day, at, t));
    }
}

fn column_positions(events: &[TimelineEvent], field_id: u32, day_shown: i64) -> (r: Vec<usize>)
    ensures
        order::positions(r@) == column_order(events@, field_id, day_shown),
        forall|k: int| 0 <= k < r@.len() ==> #[trigger] r@[k] < events@.len(),
{
    let ghost p = stands_at(events@, field_id, day_shown);
    let mut at: Vec<usize> = Vec::new();
    let mut i: usize = 0;
    assert(order::positions(at@) =~= Seq::<int>::empty());
    while i < events.len()
        invariant
            i <= events@.len(),
            p == stands_at(events@, field_id, day_shown),
            order::positions(at@) == order::kept(i as nat, p),
            forall|k: int| 0 <= k < at@.len() ==> #[trigger] at@[k] < events@.len(),
        decreases events@.len() - i,
    {
        let e = &events[i];
        let ghost was = at@;
        if e.field_id == field_id && day(e.start_time) == day_shown && !opt_str_eq(
            as_deref(&e.schedule_type),
            "JOIN",
        ) && !str_eq(e.status.as_str(), "SKIPPED") {
            assert(p(i as int));
            at.push(i);
            assert(order::positions(at@) =~= order::positions(was).push(i as int));
        } else {
            assert(!p(i as int));
        }
        i = i + 1;
    }
    let ghost before = starts_earlier(events@, order::positions(at@));
    let less = |a: usize, b: usize| -> (t: bool)
        requires
            a < at@.len(),
            b < at@.len(),
            at@[a as int] < events@.len(),
            at@[b as int] < events@.len(),
        ensures
            t == moment::earlier(
                events@[at@[a as int] as int].start_time,
                events@[at@[b as int] as int].start_time,
            ),
        { is_earlier(events[at[a]].start_time, events[at[b]].start_time) };
    let order = stable_positions(at.len(), less, Ghost(before));
    let mut out: Vec<usize> = Vec::new();
    let mut k: usize = 0;
    while k < order.len()
        invariant
            k <= order@.len(),
            out@.len() == k,
            forall|j: int| 0 <= j < order@.len() ==> #[trigger] order@[j] < at@.len(),
            forall|j: int| 0 <= j < at@.len() ==> #[trigger] at@[j] < events@.len(),
            forall|j: int| 0 <= j < k ==> #[trigger] out@[j] == at@[order@[j] as int],
            forall|j: int| 0 <= j < k ==> #[trigger] out@[j] < events@.len(),
        decreases order@.len() - k,
    {
        out.push(at[order[k]]);
        k = k + 1;
    }
    proof {
        let r = column_order(events@, field_id, day_shown);
        assert(order::positions(at@) == order::kept(events@.len(), p));
        assert(r.len() == order@.len());
        assert forall|j: int| 0 <= j < r.len() implies #[trigger] order::positions(out@)[j] == r[j] by {
            assert(order::positions(order@)[j] == order@[j]);
            assert(order::positions(at@)[order@[j] as int] == at@[order@[j] as int]);
        }
        assert(order::positions(out@) =~= r);
    }
    out
}

fn lay_out_column(events: &[TimelineEvent], lanes: &mut Vec<Lane>, field_id: u32, day_shown: i64)
    requires
        old(lanes)@.len() == events@.len(),
    ensures
        final(lanes)@.len() == events@.len(),
        column_laid_out(events@, final(lanes)@, field_id, day_shown),
        forall|i: int|
            0 <= i < events@.len() && !stands_in(events@[i], field_id, day_shown)
                ==> #[trigger] final(lanes)@[i] == old(lanes)@[i],
{
    let order = column_positions(events, field_id, day_shown);
    let ghost o = column_order(events@, field_id, day_shown);
    let mut spans: Vec<Span> = Vec::new();
    let mut k: usize = 0;
    while k < order.len()
        invariant
            k <= order@.len(),
            spans@.len() == k,
            forall|j: int| 0 <= j < order@.len() ==> #[trigger] order@[j] < events@.len(),
            forall|j: int| 0 <= j < k ==> #[trigger] spans@[j] == span_of(events@[order@[j] as int]),
        decreases order@.len() - k,
    {
        let e = &events[order[k]];
        spans.push(Span { start: e.start_time, end: e.end_time });
        k = k + 1;
    }
    proof {
        lemma_column_order(events@, field_id, day_shown);
        assert forall|j: int| 0 <= j < o.len() implies #[trigger] spans_of(events@, o)[j] == spans@[j] by {
            assert(order::positions(order@)[j] == order@[j]);
        }
        assert(spans_of(events@, o) =~= spans@);
    }
    let found = assign_lanes(spans.as_slice());
    let ghost start = lanes@;
    let mut k: usize = 0;
    while k < order.len()
        invariant
            k <= order@.len(),
            order@.len() == found@.len(),
            spans@.len() == order@.len(),
            o == order::positions(order@),
            o.no_duplicates(),
            lanes@.len() == events@.len(),
            start.len() == events@.len(),
            lanes::greedy_lanes(spans@, order::positions(found@)),
            forall|j: int| 0 <= j < order@.len() ==> #[trigger] order@[j] < events@.len(),
            forall|j: int|
                0 <= j < k ==> lanes@[#[trigger] order@[j] as int].lane_index == found@[j]
                    && lanes::is_lane_count(
                    spans@,
                    order::positions(found@),
                    j,
                    lanes@[order@[j] as int].num_lanes as int,
                ),
            forall|i: int|
                0 <= i < events@.len() && !o.contains(i) ==> #[trigger] lanes@[i] == start[i],
        decreases order@.len() - k,
    {
        let n = count_lanes(spans.as_slice(), found.as_slice(), k);
        let ghost was = lanes@;
        let at = order[k];
        lanes.set(at, Lane { lane_index: found[k], num_lanes: n });
        proof {
            assert(o[k as int] == at);
            assert forall|j: int| 0 <= j < k + 1 implies lanes@[#[trigger] order@[j] as int].lane_index
                == found@[j] && lanes::is_lane_count(
                spans@,
                order::positions(found@),
                j,
                lanes@[order@[j] as int].num_lanes as int,
            ) by {
                if j < k {
                    assert(o[j] != o[k as int]);
                    assert(o[j] == order@[j]);
                    assert(lanes@[order@[j] as int] == was[order@[j] as int]);
                }
            }
            assert forall|i: int| 0 <= i < events@.len() && !o.contains(i) implies #[trigger] lanes@[i]
                == start[i] by {
                assert(i != at);
                assert(lanes@[i] == was[i]);
            }
        }
        k = k + 1;
    }
    proof {
        assert forall|j: int| 0 <= j < o.len() implies #[trigger] lanes_of(lanes@, o)[j] == order::positions(
            found@,
        )[j] by {
            assert(o[j] == order@[j]);
        }
        assert(lanes_of(lanes@, o) =~= order::positions(found@));
        assert forall|j: int| 0 <= j < o.len() implies lanes::is_lane_count(
            spans_of(events@, o),
            lanes_of(lanes@, o),
            j,
            lanes@[#[trigger] o[j]].num_lanes as int,
        ) by {
            assert(o[j] == order@[j]);
        }
        assert forall|i: int|
            0 <= i < events@.len() && !stands_in(events@[i], field_id, day_shown) implies #[trigger] lanes@[i]
            == start[i] by {
            if o.contains(i) {
                let j = choose|j: int| 0 <= j < o.len() && o[j] == i;
                assert(stands_in(events@[o[j]], field_id, day_shown));
            }
        }
    }
}

/// A block stands in one of the first `n` columns on a day.
pub open spec fn stands_in_some(e: TimelineEvent, columns: Seq<Column>, n: int, day: i64) -> bool {
    exists|c: int| 0 <= c < n && stands_in(e, (#[trigger] columns[c]).id, day)
}

/// The lane of every block. The blocks of each column on the day share its width by lanes; any other
/// block has the full width.
pub fn lane_layout(events: &[TimelineEvent], columns: &[Column], day_shown: i64) -> (r: Vec<Lane>)
    ensures
        r@.len() == events@.len(),
        forall|c: int|
            0 <= c < columns@.len() ==> column_laid_out(
                events@,
                r@,
                (#[trigger] columns@[c]).id,
                day_shown,
            ),
        forall|i: int|
            0 <= i < events@.len() && !stands_in_some(
                events@[i],
                columns@,
                columns@.len() as int,
                day_shown,
            ) ==> #[trigger] r@[i] == (Lane { lane_index: 0, num_lanes: 1 }),
{
    let mut lanes: Vec<Lane> = Vec::new();
    let mut i: usize = 0;
    while i < events.len()
        invariant
            i <= events@.len(),
            lanes@.len() == i,
            forall|k: int| 0 <= k < i ==> #[trigger] lanes@[k] == (Lane { lane_index: 0, num_lanes: 1 }),
        decreases events@.len() - i,
    {
        lanes.push(Lane { lane_index: 0, num_lanes: 1 });
        i = i + 1;
    }
    let mut c: usize = 0;
    while c < columns.len()
        invariant
            c <= columns@.len(),
            lanes@.len() == events@.len(),
            forall|k: int|
                0 <= k < c ==> column_laid_out(events@, lanes@, (#[trigger] columns@[k]).id, day_shown),
            forall|k: int|
                0 <= k < events@.len() && !stands_in_some(events@[k], columns@, c as int, day_shown)
                    ==> #[trigger] lanes@[k] == (Lane { lane_index: 0, num_lanes: 1 }),
        decreases columns@.len() - c,
    {
        let ghost was = lanes@;
        let id = columns[c].id;
        lay_out_column(events, &mut lanes, id, day_shown);
        proof {
            assert forall|k: int| 0 <= k < c + 1 implies column_laid_out(
                events@,
                lanes@,
                (#[trigger] columns@[k]).id,
                day_shown,
            ) by {
                if columns@[k].id != id {
                    assert forall|i: int|
                        0 <= i < events@.len() && events@[i].field_id == columns@[k].id implies was[i]
                        == #[trigger] lanes@[i] by {
                        assert(!stands_in(events@[i], id, day_shown));
                    }
                    lemma_column_frame(events@, was, lanes@, columns@[k].id, day_shown);
                }
            }
            assert forall|k: int|
                0 <= k < events@.len() && !stands_in_some(events@[k], columns@, c + 1, day_shown) implies #[trigger] lanes@[k]
                == (Lane { lane_index: 0, num_lanes: 1 }) by {
                assert(!stands_in(events@[k], columns@[c as int].id, day_shown));
                assert(!stands_in_some(events@[k], columns@, c as int, day_shown));
                assert(lanes@[k] == was[k]);
            }
        }
        c = c + 1;
    }
    lanes
}

// ---------------------------------------------------------------------------
// Joins
// ---------------------------------------------------------------------------

/// A join across fields: its name, its local time, and its match on each field.
#[derive(Clone, Debug)]
pub struct JoinGroup {
    pub name: String,
    pub time: Moment,
    pub field_matches: Vec<(u32, String)>,
}

/// A match is a join that is not skipped.
pub open spec fn is_join(m: MatchSetupData) -> bool {
    m.status@ != "SKIPPED"@ && text::opt_text(m.schedule_type) == Some("JOIN"@)
}

/// The first join of its name.
pub open spec fn leads_join(matches: Seq<MatchSetupData>, i: int) -> bool {
    is_join(matches[i]) && forall|j: int|
        0 <= j < i && is_join(#[trigger] matches[j]) ==> matches[j].name@ != matches[i].name@
}

/// A join of a name on a selected field.
pub open spec fn joins_as(matches: Seq<MatchSetupData>, name: Seq<char>, c: TimelineView) -> spec_fn(int) -> bool {
    |j: int| is_join(matches[j]) && matches[j].name@ == name && timeline::on_selected_field(matches[j], c)
}

/// The positions of the joins of a name on selected fields.
pub open spec fn join_members(matches: Seq<MatchSetupData>, name: Seq<char>, c: TimelineView) -> Seq<int> {
    order::kept(matches.len(), joins_as(matches, name, c))
}

/// A join is shown: its first match has a time, and some of its matches stand on selected fields.
pub open spec fn shown_join(matches: Seq<MatchSetupData>, c: TimelineView) -> spec_fn(int) -> bool {
    |i: int|
        leads_join(matches, i) && schedule_time::display_interval(matches[i], c.show_as_happened) is Some
            && join_members(matches, matches[i].name@, c).len() > 0
}

/// The positions of the first matches of the joins that are shown; none in a team view.
pub open spec fn shown_joins(matches: Seq<MatchSetupData>, c: TimelineView) -> Seq<int> {
    if timeline::team_view(c) {
        Seq::empty()
    } else {
        order::kept(matches.len(), shown_join(matches, c))
    }
}

/// The fields and matches of a join.
pub open spec fn are_join_members(
    r: Seq<(u32, String)>,
    matches: Seq<MatchSetupData>,
    members: Seq<int>,
    c: TimelineView,
) -> bool {
    &&& r.len() == members.len()
    &&& forall|k: int|
        0 <= k < r.len() ==> (#[trigger] r[k]).0 == c.fields@[timeline::field_at(
            c.fields@,
            text::opt_text(matches[members[k]].field),
        )->0].id && r[k].1@ == matches[members[k]].uuid@
}

/// A group stands for the join of a name at a start of UTC.
pub open spec fn is_group_at(
    g: JoinGroup,
    matches: Seq<MatchSetupData>,
    name: Seq<char>,
    start: Moment,
    c: TimelineView,
) -> bool {
    &&& g.name@ == name
    &&& g.time == moment::moved(start, c.tz_offset_minutes as int)
    &&& are_join_members(g.field_matches@, matches, join_members(matches, name, c), c)
}

/// A group stands for the join whose first match is at a position.
pub open spec fn is_group_of(g: JoinGroup, matches: Seq<MatchSetupData>, i: int, c: TimelineView) -> bool {
    let (start, end) = schedule_time::display_interval(matches[i], c.show_as_happened)->0;
    is_group_at(g, matches, matches[i].name@, start, c)
}

fn is_join_match(m: &MatchSetupData) -> (r: bool)
    ensures
        r == is_join(*m),
{
    !str_eq(m.status.as_str(), "SKIPPED") && opt_str_eq(as_deref(&m.schedule_type), "JOIN")
}

fn members_of_join(matches: &[MatchSetupData], name: &str, c: &TimelineView) -> (r: Vec<(u32, String)>)
    ensures
        are_join_members(r@, matches@, join_members(matches@, name@, *c), *c),
{
    let ghost p = joins_as(matches@, name@, *c);
    let mut out: Vec<(u32, String)> = Vec::new();
    let mut i: usize = 0;
    while i < matches.len()
        invariant
            i <= matches@.len(),
            p == joins_as(matches@, name@, *c),
            are_join_members(out@, matches@, order::kept(i as nat, p), *c),
        decreases matches@.len() - i,
    {
        let m = &matches[i];
        let ghost was = out@;
        let mut member = false;
        if is_join_match(m) && str_eq(m.name.as_str(), name) {
            match find_field(c.fields, &m.field) {
                Some(f) => {
                    if is_field_selected(c.fields[f].id, c.selected_field) {
                        member = true;
                        out.push((c.fields[f].id, m.uuid.clone()));
                    }
                },
                None => {},
            }
        }
        proof {
            assert(p(i as int) == member);
            if member {
                assert forall|k: int| 0 <= k < out@.len() implies (#[trigger] out@[k]).0
                    == c.fields@[timeline::field_at(
                    c.fields@,
                    text::opt_text(matches@[order::kept((i + 1) as nat, p)[k]].field),
                )->0].id && out@[k].1@ == matches@[order::kept((i + 1) as nat, p)[k]].uuid@ by {
                    if k < was.len() {
                        assert(out@[k] == was[k]);
                        assert(order::kept((i + 1) as nat, p)[k] == order::kept(i as nat, p)[k]);
                    }
                }
            }
        }
        i = i + 1;
    }
    out
}

fn leads(matches: &[MatchSetupData], i: usize) -> (r: bool)
    requires
        i < matches@.len(),
    ensures
        r == leads_join(matches@, i as int),
{
    if !is_join_match(&matches[i]) {
        return false;
    }
    let mut j: usize = 0;
    while j < i
        invariant
            j <= i,
            i < matches@.len(),
            forall|k: int|
                0 <= k < j && is_join(#[trigger] matches@[k]) ==> matches@[k].name@ != matches@[i as int].name@,
        decreases i - j,
    {
        if is_join_match(&matches[j]) && str_eq(matches[j].name.as_str(), matches[i].name.as_str()) {
            assert(is_join(matches@[j as int]));
            return false;
        }
        j = j + 1;
    }
    true
}

/// The join of a name at a start of UTC; none where none of its matches stands on a selected field.
pub fn join_group_at(matches: &[MatchSetupData], name: &str, start: Moment, c: &TimelineView) -> (r: Option<
    JoinGroup,
>)
    requires
        schedule_time::calm(start),
    ensures
        r is Some <==> join_members(matches@, name@, *c).len() > 0,
        r matches Some(g) ==> is_group_at(g, matches@, name@, start, *c) && moment::ordinary(g.time),
{
    let field_matches = members_of_join(matches, name, c);
    if field_matches.len() == 0 {
        return None;
    }
    let time = plus_minutes(start, c.tz_offset_minutes as i64);
    Some(JoinGroup { name: name.to_owned(), time, field_matches })
}

/// The joins of a timeline, each once, in the order of their first matches.
pub fn join_groups(matches: &[MatchSetupData], c: &TimelineView) -> (r: Vec<JoinGroup>)
    ensures
        r@.len() == shown_joins(matches@, *c).len(),
        forall|k: int|
            0 <= k < r@.len() ==> is_group_of(#[trigger] r@[k], matches@, shown_joins(matches@, *c)[k], *c)
                && moment::ordinary(r@[k].time),
{
    let mut out: Vec<JoinGroup> = Vec::new();
    if is_team_view(c) {
        return out;
    }
    let ghost p = shown_join(matches@, *c);
    let mut i: usize = 0;
    while i < matches.len()
        invariant
            i <= matches@.len(),
            p == shown_join(matches@, *c),
            out@.len() == order::kept(i as nat, p).len(),
            forall|k: int|
                0 <= k < out@.len() ==> is_group_of(#[trigger] out@[k], matches@, order::kept(i as nat, p)[k], *c)
                    && moment::ordinary(out@[k].time),
        decreases matches@.len() - i,
    {
        let ghost was = out@;
        let mut shown = false;
        if leads(matches, i) {
            match display_interval_utc(&matches[i], c.show_as_happened) {
                Some((start, _)) => match join_group_at(matches, matches[i].name.as_str(), start, c) {
                    Some(g) => {
                        shown = true;
                        out.push(g);
                    },
                    None => {},
                },
                None => {},
            }
        }
        proof {
            assert(p(i as int) == shown);
            if shown {
                assert forall|k: int| 0 <= k < out@.len() implies is_group_of(
                    #[trigger] out@[k],
                    matches@,
                    order::kept((i + 1) as nat, p)[k],
                    *c,
                ) && moment::ordinary(out@[k].time) by {
                    if k < was.len() {
                        assert(out@[k] == was[k]);
                        assert(order::kept((i + 1) as nat, p)[k] == order::kept(i as nat, p)[k]);
                    }
                }
            }
        }
        i = i + 1;
    }
    out
}

/// A join line of a day: its row, the minutes from the top of the row, its time of day, and the
/// column and match of each of its labels, with the first and last column that it touches.
#[derive(Clone, Debug)]
pub struct JoinLine {
    pub slot: usize,
    pub minutes_within_slot: u32,
    pub name: String,
    pub time_str: String,
    pub start_col_idx: usize,
    pub end_col_idx: usize,
    pub field_items: Vec<(usize, String)>,
}

/// A match of a join stands on a field.
pub open spec fn joins_field(field_matches: Seq<(u32, String)>, field_id: u32) -> spec_fn(int) -> bool {
    |j: int| field_matches[j].0 == field_id
}

/// The match of a join on a field: the first one.
pub open spec fn join_on_field(g: JoinGroup, field_id: u32) -> Option<int> {
    order::first_where(g.field_matches@.len(), joins_field(g.field_matches@, field_id))
}

/// A join touches a column.
pub open spec fn touches(g: JoinGroup, columns: Seq<Column>) -> spec_fn(int) -> bool {
    |col: int| join_on_field(g, columns[col].id) is Some
}

/// The columns that a join touches.
pub open spec fn touched(g: JoinGroup, columns: Seq<Column>) -> Seq<int> {
    order::kept(columns.len(), touches(g, columns))
}

/// A join has a line on a day: it is on the day and touches a column.
pub open spec fn has_line(g: JoinGroup, columns: Seq<Column>, day: i64) -> bool {
    moment::day_of(g.time) == day && touched(g, columns).len() > 0
}

/// The labels of a join line.
pub open spec fn are_items(items: Seq<(usize, String)>, g: JoinGroup, columns: Seq<Column>, at: Seq<int>) -> bool {
    &&& items.len() == at.len()
    &&& forall|k: int|
        0 <= k < items.len() ==> (#[trigger] items[k]).0 == at[k] && items[k].1@
            == g.field_matches@[join_on_field(g, columns[at[k]].id)->0].1@
}

/// A line is that of a join.
pub open spec fn is_line_of(l: JoinLine, g: JoinGroup, columns: Seq<Column>) -> bool {
    &&& l.slot == moment::minute_of_day(g.time) / 30
    &&& l.minutes_within_slot == moment::minute_of_day(g.time) % 30
    &&& l.name@ == g.name@
    &&& l.time_str@ == moment::clock_text(moment::minute_of_day(g.time))
    &&& are_items(l.field_items@, g, columns, touched(g, columns))
    &&& l.start_col_idx == touched(g, columns)[0]
    &&& l.end_col_idx == touched(g, columns).last()
}

fn find_join_match(g: &JoinGroup, field_id: u32) -> (r: Option<usize>)
    ensures
        match join_on_field(*g, field_id) {
            Some(i) => r is Some && r->0 == i && 0 <= i < g.field_matches@.len(),
            None => r is None,
        },
        r matches Some(k) ==> k < g.field_matches@.len(),
{
    let ghost p = joins_field(g.field_matches@, field_id);
    let mut i: usize = 0;
    while i < g.field_matches.len()
        invariant
            i <= g.field_matches@.len(),
            p == joins_field(g.field_matches@, field_id),
            order::first_where(i as nat, p) is None,
        decreases g.field_matches@.len() - i,
    {
        if g.field_matches[i].0 == field_id {
            proof {
                assert(p(i as int));
                assert(order::first_where((i + 1) as nat, p) == Some(i as int));
                order::lemma_first_where_stays((i + 1) as nat, g.field_matches@.len(), p);
            }
            return Some(i);
        }
        assert(!p(i as int));
        i = i + 1;
    }
    None
}

/// The line of a join on a day, if it has one.
pub fn join_line(g: &JoinGroup, columns: &[Column], day_shown: i64) -> (r: Option<JoinLine>)
    ensures
        r is Some <==> has_line(*g, columns@, day_shown),
        r matches Some(l) ==> is_line_of(l, *g, columns@),
{
    if day(g.time) != day_shown {
        return None;
    }
    let ghost p = touches(*g, columns@);
    let mut items: Vec<(usize, String)> = Vec::new();
    let mut i: usize = 0;
    while i < columns.len()
        invariant
            i <= columns@.len(),
            p == touches(*g, columns@),
            are_items(items@, *g, columns@, order::kept(i as nat, p)),
        decreases columns@.len() - i,
    {
        let ghost was = items@;
        match find_join_match(g, columns[i].id) {
            Some(k) => {
                items.push((i, g.field_matches[k].1.clone()));
                proof {
                    assert(p(i as int));
                    let now = order::kept((i + 1) as nat, p);
                    assert forall|k: int| 0 <= k < items@.len() implies (#[trigger] items@[k]).0 == now[k]
                        && items@[k].1@ == g.field_matches@[join_on_field(*g, columns@[now[k]].id)->0].1@ by {
                        if k < was.len() {
                            assert(items@[k] == was[k]);
                            assert(now[k] == order::kept(i as nat, p)[k]);
                        }
                    }
                }
            },
            None => {
                assert(!p(i as int));
            },
        }
        i = i + 1;
    }
    let n = items.len();
    if n == 0 {
        return None;
    }
    let total = minute(g.time);
    let first = items[0].0;
    let last = items[n - 1].0;
    Some(
        JoinLine {
            slot: (total / SLOT_MINUTES) as usize,
            minutes_within_slot: total % SLOT_MINUTES,
            name: g.name.clone(),
            time_str: clock_string(total),
            start_col_idx: first,
            end_col_idx: last,
            field_items: items,
        },
    )
}

/// A join of the list has a line.
pub open spec fn line_at(groups: Seq<JoinGroup>, columns: Seq<Column>, day: i64) -> spec_fn(int) -> bool {
    |i: int| has_line(groups[i], columns, day)
}

/// The positions of the joins that have lines.
pub open spec fn lines(groups: Seq<JoinGroup>, columns: Seq<Column>, day: i64) -> Seq<int> {
    order::kept(groups.len(), line_at(groups, columns, day))
}

/// The join lines of a day.
pub fn join_lines(groups: &[JoinGroup], columns: &[Column], day_shown: i64) -> (r: Vec<JoinLine>)
    ensures
        r@.len() == lines(groups@, columns@, day_shown).len(),
        forall|k: int|
            0 <= k < r@.len() ==> is_line_of(
                #[trigger] r@[k],
                groups@[lines(groups@, columns@, day_shown)[k]],
                columns@,
            ),
{
    let ghost p = line_at(groups@, columns@, day_shown);
    let mut out: Vec<JoinLine> = Vec::new();
    let mut i: usize = 0;
    while i < groups.len()
        invariant
            i <= groups@.len(),
            p == line_at(groups@, columns@, day_shown),
            out@.len() == order::kept(i as nat, p).len(),
            forall|k: int|
                0 <= k < out@.len() ==> is_line_of(#[trigger] out@[k], groups@[order::kept(i as nat, p)[k]], columns@),
        decreases groups@.len() - i,
    {
        let ghost was = out@;
        match join_line(&groups[i], columns, day_shown) {
            Some(l) => {
                out.push(l);
                proof {
                    assert(p(i as int));
                    assert forall|k: int| 0 <= k < out@.len() implies is_line_of(
                        #[trigger] out@[k],
                        groups@[order::kept((i + 1) as nat, p)[k]],
                        columns@,
                    ) by {
                        if k < was.len() {
                            assert(out@[k] == was[k]);
                            assert(order::kept((i + 1) as nat, p)[k] == order::kept(i as nat, p)[k]);
                        }
                    }
                }
            },
            None => {
                assert(!p(i as int));
            },
        }
        i = i + 1;
    }
    out
}

/// A label of a join line stands in a column.
pub open spec fn item_in_column(items: Seq<(usize, String)>, col: usize) -> spec_fn(int) -> bool {
    |j: int| items[j].0 == col
}

/// The label of a join line in a column: the first one.
pub open spec fn item_at(items: Seq<(usize, String)>, col: usize) -> Option<int> {
    order::first_where(items.len(), item_in_column(items, col))
}

/// A join line crosses a cell: it lies in the row of the cell and has a label in its column.
pub open spec fn crosses(lines: Seq<JoinLine>, slot: usize, col: usize) -> spec_fn(int) -> bool {
    |i: int| lines[i].slot == slot && item_at(lines[i].field_items@, col) is Some
}

fn find_item(items: &Vec<(usize, String)>, col: usize) -> (r: Option<usize>)
    ensures
        match item_at(items@, col) {
            Some(i) => r is Some && r->0 == i && 0 <= i < items@.len(),
            None => r is None,
        },
        r matches Some(k) ==> k < items@.len(),
{
    let ghost p = item_in_column(items@, col);
    let mut i: usize = 0;
    while i < items.len()
        invariant
            i <= items@.len(),
            p == item_in_column(items@, col),
            order::first_where(i as nat, p) is None,
        decreases items@.len() - i,
    {
        if items[i].0 == col {
            proof {
                assert(p(i as int));
                assert(order::first_where((i + 1) as nat, p) == Some(i as int));
                order::lemma_first_where_stays((i + 1) as nat, items@.len(), p);
            }
            return Some(i);
        }
        assert(!p(i as int));
        i = i + 1;
    }
    None
}

/// The join line that crosses a cell, and its label there; of several lines, the first.
pub fn join_in_cell(lines: &[JoinLine], slot: usize, col: usize) -> (r: Option<(usize, usize)>)
    ensures
        match order::first_where(lines@.len(), crosses(lines@, slot, col)) {
            Some(i) => r is Some && (r->0).0 == i && item_at(lines@[i].field_items@, col) == Some(
                (r->0).1 as int,
            ),
            None => r is None,
        },
        r matches Some((i, j)) ==> i < lines@.len() && j < lines@[i as int].field_items@.len(),
{
    let ghost p = crosses(lines@, slot, col);
    let mut i: usize = 0;
    while i < lines.len()
        invariant
            i <= lines@.len(),
            p == crosses(lines@, slot, col),
            order::first_where(i as nat, p) is None,
        decreases lines@.len() - i,
    {
        if lines[i].slot == slot {
            match find_item(&lines[i].field_items, col) {
                Some(j) => {
                    proof {
                        assert(p(i as int));
                        assert(order::first_where((i + 1) as nat, p) == Some(i as int));
                        order::lemma_first_where_stays((i + 1) as nat, lines@.len(), p);
                    }
                    return Some((i, j));
                },
                None => {},
            }
        }
        assert(!p(i as int));
        i = i + 1;
    }
    None
}

/// A join line lies in a row of the day, and its columns run from the first to the last.
pub proof fn law_join_line_lies_in_the_day(l: JoinLine, g: JoinGroup, columns: Seq<Column>)
    requires
        is_line_of(l, g, columns),
        touched(g, columns).len() > 0,
    ensures
        l.slot < SLOTS_PER_DAY,
        l.minutes_within_slot < SLOT_MINUTES,
        l.start_col_idx <= l.end_col_idx < columns.len(),
{
    order::lemma_kept(columns.len(), touches(g, columns));
}

// ---------------------------------------------------------------------------
// Rows
// ---------------------------------------------------------------------------

/// The times of the rows of a day.
pub fn slot_times() -> (r: Vec<String>)
    ensures
        r@.len() == SLOTS_PER_DAY,
        forall|i: int| 0 <= i < r@.len() ==> (#[trigger] r@[i])@ == moment::clock_text(30 * i),
{
    let mut out: Vec<String> = Vec::new();
    let mut i: usize = 0;
    while i < SLOTS_PER_DAY
        invariant
            i <= SLOTS_PER_DAY,
            out@.len() == i,
            forall|k: int| 0 <= k < i ==> (#[trigger] out@[k])@ == moment::clock_text(30 * k),
        decreases SLOTS_PER_DAY - i,
    {
        out.push(clock_string(i as u32 * SLOT_MINUTES));
        i = i + 1;
    }
    out
}

/// The row of a minute of the day.
pub open spec fn slot_of(minute: int) -> int {
    minute / 30
}

/// `s` is the row of a block on the day, or of a join line.
pub open spec fn is_used_slot(events: Seq<TimelineEvent>, lines: Seq<JoinLine>, day: i64, s: int) -> bool {
    (exists|i: int|
        0 <= i < events.len() && moment::day_of((#[trigger] events[i]).start_time) == day && slot_of(
            moment::minute_of_day(events[i].start_time),
        ) == s) || (exists|i: int| 0 <= i < lines.len() && (#[trigger] lines[i]).slot == s)
}

/// The first row of the day that holds something; the first row where none does.
pub fn first_match_slot(events: &[TimelineEvent], lines: &[JoinLine], day_shown: i64) -> (r: usize)
    ensures
        is_used_slot(events@, lines@, day_shown, r as int) || (r == 0 && forall|s: int|
            !#[trigger] is_used_slot(events@, lines@, day_shown, s)),
        forall|s: int| #[trigger] is_used_slot(events@, lines@, day_shown, s) ==> r <= s,
{
    let mut best: Option<usize> = None;
    let mut i: usize = 0;
    while i < events.len()
        invariant
            i <= events@.len(),
            best matches Some(b) ==> exists|k: int|
                0 <= k < i && moment::day_of((#[trigger] events@[k]).start_time) == day_shown && slot_of(
                    moment::minute_of_day(events@[k].start_time),
                ) == b,
            forall|k: int|
                0 <= k < i && moment::day_of((#[trigger] events@[k]).start_time) == day_shown ==> best is Some
                    && best->0 <= slot_of(moment::minute_of_day(events@[k].start_time)),
        decreases events@.len() - i,
    {
        let t = events[i].start_time;
        if day(t) == day_shown {
            let s = (minute(t) / SLOT_MINUTES) as usize;
            assert(moment::day_of(events@[i as int].start_time) == day_shown && slot_of(
                moment::minute_of_day(events@[i as int].start_time),
            ) == s);
            best = match best {
                Some(b) => if s < b {
                    Some(s)
                } else {
                    Some(b)
                },
                None => Some(s),
            };
        }
        i = i + 1;
    }
    let mut j: usize = 0;
    while j < lines.len()
        invariant
            j <= lines@.len(),
            best matches Some(b) ==> is_used_slot(events@, lines@, day_shown, b as int),
            forall|k: int|
                0 <= k < events@.len() && moment::day_of((#[trigger] events@[k]).start_time) == day_shown ==> best is Some
                    && best->0 <= slot_of(moment::minute_of_day(events@[k].start_time)),
            forall|k: int| 0 <= k < j ==> best is Some && best->0 <= (#[trigger] lines@[k]).slot,
        decreases lines@.len() - j,
    {
        let s = lines[j].slot;
        assert(lines@[j as int].slot == s);
        assert(is_used_slot(events@, lines@, day_shown, s as int));
        best = match best {
            Some(b) => if s < b {
                Some(s)
            } else {
                Some(b)
            },
            None => Some(s),
        };
        j = j + 1;
    }
    match best {
        Some(b) => b,
        None => 0,
    }
}

/// The row that a day scrolls to: that of the current time on the current day, else the first row
/// that holds something.
pub fn target_slot(day_shown: i64, now_local: Moment, first_slot: usize) -> (r: usize)
    ensures
        r == (if day_shown == moment::day_of(now_local) {
            slot_of(moment::minute_of_day(now_local))
        } else {
            first_slot as int
        }),
        day_shown == moment::day_of(now_local) ==> 30 * r <= moment::minute_of_day(now_local) < 30 * r + 30,
{
    if day_shown == day(now_local) {
        (minute(now_local) / SLOT_MINUTES) as usize
    } else {
        first_slot
    }
}

/// The minute of the now line, on the current day only.
pub fn now_line_minute(day_shown: i64, now_local: Moment) -> (r: Option<u32>)
    ensures
        match r {
            Some(m) => day_shown == moment::day_of(now_local) && m == moment::minute_of_day(now_local) && m < 1440,
            None => day_shown != moment::day_of(now_local),
        },
{
    if day_shown == day(now_local) {
        Some(minute(now_local))
    } else {
        None
    }
}

/// The names of a day, such as "Saturday, May 03".
pub fn day_heading(day_shown: i64) -> (r: Option<String>)
    requires
        days::day_in_reach(day_shown),
    ensures
        text::opt_text(r) == clock::naive_written(
            Moment { secs: (day_shown * 86_400) as i64, nanos: 0 },
            LONG_DAY@,
        ),
        r is Some <==> clock::in_calendar(day_shown * 86_400),
{
    write_moment(Moment { secs: day_shown * DAY_SECONDS, nanos: 0 }, LONG_DAY)
}

// ---------------------------------------------------------------------------
// What the grid shows
// ---------------------------------------------------------------------------

/// A minute lies in its row, and the rows of a day are numbered from its start.
pub proof fn law_row_of_a_minute(minute: int)
    ensures
        30 * slot_of(minute) <= minute < 30 * slot_of(minute) + 30,
        0 <= minute < 1440 ==> 0 <= slot_of(minute) < SLOTS_PER_DAY,
{
}

/// The blocks of a column come by their start.
pub proof fn law_column_comes_by_start(events: Seq<TimelineEvent>, field_id: u32, day: i64, j: int, k: int)
    requires
        0 <= j < k < column_order(events, field_id, day).len(),
    ensures
        ({
            let order = column_order(events, field_id, day);
            &&& 0 <= order[j] < events.len() && 0 <= order[k] < events.len()
            &&& !moment::earlier(events[order[k]].start_time, events[order[j]].start_time)
            &&& events[order[j]].field_id == field_id && moment::day_of(events[order[j]].start_time) == day
            &&& order[j] != order[k]
        }),
{
    lemma_column_order(events, field_id, day);
    lemma_column_sorted(events, field_id, day);
    let order = column_order(events, field_id, day);
    let spans = spans_of(events, order);
    assert(spans[j].start == events[order[j]].start_time);
    assert(spans[k].start == events[order[k]].start_time);
    assert(stands_in(events[order[j]], field_id, day));
}

/// A column holds every block of its field on the day, but for joins and skipped matches.
pub proof fn law_column_holds_the_blocks_of_its_field(e: TimelineEvent, field_id: u32, day: i64)
    ensures
        stands_in(e, field_id, day) ==> e.field_id == field_id && moment::day_of(e.start_time) == day,
        e.field_id == field_id && moment::day_of(e.start_time) == day && e.status@ != "SKIPPED"@ && e.schedule_type is None
            ==> stands_in(e, field_id, day),
        e.field_id == field_id && moment::day_of(e.start_time) == day && e.status@ != "SKIPPED"@ && (
        e.schedule_type matches Some(t) && t@ != "JOIN"@) ==> stands_in(e, field_id, day),
        text::opt_text(e.schedule_type) == Some("JOIN"@) || e.status@ == "SKIPPED"@ ==> !stands_in(e, field_id, day),
{
}

/// Different joins that are shown have different names, and each of them is a join that is not skipped.
pub proof fn law_joins_are_shown_once(matches: Seq<MatchSetupData>, c: TimelineView, j: int, k: int)
    requires
        0 <= j < k < shown_joins(matches, c).len(),
    ensures
        ({
            let at = shown_joins(matches, c);
            &&& matches[at[j]].name@ != matches[at[k]].name@
            &&& matches[at[j]].status@ != "SKIPPED"@ && text::opt_text(matches[at[j]].schedule_type) == Some("JOIN"@)
            &&& matches[at[k]].status@ != "SKIPPED"@ && text::opt_text(matches[at[k]].schedule_type) == Some("JOIN"@)
        }),
{
    let p = shown_join(matches, c);
    order::lemma_kept(matches.len(), p);
    let at = shown_joins(matches, c);
    assert(p(at[j]) && p(at[k]));
    assert(at[j] < at[k]);
    assert(is_join(matches[at[j]]));
}

/// Every join on a selected field whose group has a time is shown: the group of its name stands for it.
pub proof fn law_every_join_is_in_its_group(matches: Seq<MatchSetupData>, c: TimelineView, i: int)
    requires
        0 <= i < matches.len(),
    ensures
        join_members(matches, matches[i].name@, c).contains(i) <==> matches[i].status@ != "SKIPPED"@ && text::opt_text(
            matches[i].schedule_type,
        ) == Some("JOIN"@) && timeline::on_selected_field(matches[i], c),
        forall|k: int, name: Seq<char>|
            0 <= k < join_members(matches, name, c).len() ==> matches[#[trigger] join_members(
                matches,
                name,
                c,
            )[k]].name@ == name,
{
    let p = joins_as(matches, matches[i].name@, c);
    order::lemma_kept(matches.len(), p);
    let members = join_members(matches, matches[i].name@, c);
    if members.contains(i) {
        let k = choose|k: int| 0 <= k < members.len() && members[k] == i;
        assert(p(members[k]));
    }
    if matches[i].status@ != "SKIPPED"@ && text::opt_text(matches[i].schedule_type) == Some("JOIN"@) && timeline::on_selected_field(
        matches[i],
        c,
    ) {
        assert(p(i));
    }
    assert forall|k: int, name: Seq<char>| 0 <= k < join_members(matches, name, c).len() implies matches[
        #[trigger] join_members(matches, name, c)[k]].name@ == name by {
        let q = joins_as(matches, name, c);
        order::lemma_kept(matches.len(), q);
        assert(q(join_members(matches, name, c)[k]));
    }
}

/// The members of a group are its matches, each with the number of its own field.
pub proof fn law_group_members_stand_on_their_fields(
    g: JoinGroup,
    matches: Seq<MatchSetupData>,
    name: Seq<char>,
    start: Moment,
    c: TimelineView,
    k: int,
)
    requires
        is_group_at(g, matches, name, start, c),
        0 <= k < g.field_matches@.len(),
        moment::ordinary(start),
        start.nanos < 1_000_000_000,
    ensures
        g.name@ == name,
        g.time.secs == start.secs + 60 * c.tz_offset_minutes,
        exists|i: int|
            0 <= i < matches.len() && (#[trigger] matches[i]).uuid@ == g.field_matches@[k].1@ && matches[i].name@ == name
                && matches[i].field is Some && exists|f: int|
                0 <= f < c.fields@.len() && (#[trigger] c.fields@[f]).id == g.field_matches@[k].0 && c.fields@[f].name@
                    == matches[i].field->0@,
{
    let p = joins_as(matches, name, c);
    order::lemma_kept(matches.len(), p);
    let i = join_members(matches, name, c)[k];
    assert(p(i));
    let f = timeline::field_at(c.fields@, text::opt_text(matches[i].field))->0;
    assert(matches[i].field is Some);
    timeline::law_field_of_a_name(c.fields@, matches[i].field->0@);
    assert(c.fields@[f].id == g.field_matches@[k].0);
    assert(matches[i].uuid@ == g.field_matches@[k].1@);
}

/// A join line lies at its minute of the day and has a label in every column of a field of the join,
/// and in no other.
pub proof fn law_join_line_is_where_its_join_is(l: JoinLine, g: JoinGroup, columns: Seq<Column>, col: int)
    requires
        is_line_of(l, g, columns),
        0 <= col < columns.len(),
    ensures
        30 * l.slot + l.minutes_within_slot == moment::minute_of_day(g.time),
        l.time_str@ == moment::clock_text(30 * l.slot + l.minutes_within_slot),
        l.name@ == g.name@,
        (exists|k: int| 0 <= k < l.field_items@.len() && (#[trigger] l.field_items@[k]).0 == col) <==> (exists|j: int|
            0 <= j < g.field_matches@.len() && (#[trigger] g.field_matches@[j]).0 == columns[col].id),
        (exists|k: int| 0 <= k < l.field_items@.len() && (#[trigger] l.field_items@[k]).0 == col)
            ==> l.start_col_idx <= col <= l.end_col_idx,
        forall|k: int|
            0 <= k < l.field_items@.len() ==> exists|j: int|
                0 <= j < g.field_matches@.len() && (#[trigger] g.field_matches@[j]).1@ == (
                #[trigger] l.field_items@[k]).1@ && g.field_matches@[j].0 == columns[l.field_items@[k].0 as int].id,
{
    let p = touches(g, columns);
    order::lemma_kept(columns.len(), p);
    let at = touched(g, columns);
    let q = joins_field(g.field_matches@, columns[col].id);
    order::lemma_first_where(g.field_matches@.len(), q);
    if exists|j: int| 0 <= j < g.field_matches@.len() && (#[trigger] g.field_matches@[j]).0 == columns[col].id {
        let j = choose|j: int| 0 <= j < g.field_matches@.len() && (#[trigger] g.field_matches@[j]).0 == columns[col].id;
        assert(q(j));
        assert(p(col));
        let k = choose|k: int| 0 <= k < at.len() && at[k] == col;
        assert(l.field_items@[k].0 == col);
    }
    if exists|k: int| 0 <= k < l.field_items@.len() && (#[trigger] l.field_items@[k]).0 == col {
        let k = choose|k: int| 0 <= k < l.field_items@.len() && (#[trigger] l.field_items@[k]).0 == col;
        assert(at[k] == col);
        assert(p(col));
        let j = join_on_field(g, columns[col].id)->0;
        assert(q(j));
        assert(g.field_matches@[j].0 == columns[col].id);
        assert(at[0] <= at[k] <= at[at.len() - 1]);
    }
    assert forall|k: int| 0 <= k < l.field_items@.len() implies exists|j: int|
        0 <= j < g.field_matches@.len() && (#[trigger] g.field_matches@[j]).1@ == (#[trigger] l.field_items@[k]).1@
            && g.field_matches@[j].0 == columns[l.field_items@[k].0 as int].id by {
        let at_k = at[k];
        assert(p(at_k));
        let q2 = joins_field(g.field_matches@, columns[at_k].id);
        order::lemma_first_where(g.field_matches@.len(), q2);
        let j = join_on_field(g, columns[at_k].id)->0;
        assert(q2(j));
        assert(g.field_matches@[j].1@ == l.field_items@[k].1@);
    }
}

/// With a team in focus no join is shown; otherwise every join is whose first match has a time and of
/// which a match stands on a selected field.
pub proof fn law_which_joins_are_shown(matches: Seq<MatchSetupData>, c: TimelineView, i: int)
    requires
        0 <= i < matches.len(),
    ensures
        c.focus_team_id@.len() > 0 ==> shown_joins(matches, c).len() == 0,
        c.focus_team_id@.len() == 0 && is_join(matches[i]) && (forall|j: int|
            0 <= j < i && is_join(#[trigger] matches[j]) ==> matches[j].name@ != matches[i].name@) && schedule_time::display_interval(
            matches[i],
            c.show_as_happened,
        ) is Some && join_members(matches, matches[i].name@, c).len() > 0 ==> shown_joins(matches, c).contains(i),
        shown_joins(matches, c).contains(i) ==> is_join(matches[i]) && schedule_time::display_interval(matches[i], c.show_as_happened)
            is Some && join_members(matches, matches[i].name@, c).len() > 0,
        is_join(matches[i]) <==> matches[i].status@ != "SKIPPED"@ && text::opt_text(matches[i].schedule_type) == Some(
            "JOIN"@,
        ),
{
    let p = shown_join(matches, c);
    order::lemma_kept(matches.len(), p);
    let at = shown_joins(matches, c);
    if at.contains(i) {
        let k = choose|k: int| 0 <= k < at.len() && at[k] == i;
        assert(p(at[k]));
    }
    if leads_join(matches, i) && schedule_time::display_interval(matches[i], c.show_as_happened) is Some && join_members(
        matches,
        matches[i].name@,
        c,
    ).len() > 0 {
        assert(p(i));
    }
}

/// A join has a line on its own day and no other, and only where one of its fields has a column; every
/// join that has one is among the lines of the day.
pub proof fn law_join_has_its_line_on_its_day(
    groups: Seq<JoinGroup>,
    columns: Seq<Column>,
    day: i64,
    i: int,
)
    requires
        0 <= i < groups.len(),
    ensures
        has_line(groups[i], columns, day) ==> moment::day_of(groups[i].time) == day,
        has_line(groups[i], columns, day) <==> moment::day_of(groups[i].time) == day && exists|col: int, j: int|
            0 <= col < columns.len() && 0 <= j < groups[i].field_matches@.len() && (
            #[trigger] groups[i].field_matches@[j]).0 == (#[trigger] columns[col]).id,
        lines(groups, columns, day).contains(i) <==> has_line(groups[i], columns, day),
{
    let g = groups[i];
    let p = touches(g, columns);
    order::lemma_kept(columns.len(), p);
    let q = line_at(groups, columns, day);
    order::lemma_kept(groups.len(), q);
    let at = lines(groups, columns, day);
    if at.contains(i) {
        let k = choose|k: int| 0 <= k < at.len() && at[k] == i;
        assert(q(at[k]));
    }
    if has_line(g, columns, day) {
        assert(q(i));
        let col = touched(g, columns)[0];
        assert(p(col));
        let r = joins_field(g.field_matches@, columns[col].id);
        order::lemma_first_where(g.field_matches@.len(), r);
        let j = join_on_field(g, columns[col].id)->0;
        assert(r(j));
        assert(g.field_matches@[j].0 == columns[col].id);
    }
    if exists|col: int, j: int|
        0 <= col < columns.len() && 0 <= j < g.field_matches@.len() && (#[trigger] g.field_matches@[j]).0 == (
        #[trigger] columns[col]).id {
        let (col, j) = choose|col: int, j: int|
            0 <= col < columns.len() && 0 <= j < g.field_matches@.len() && (#[trigger] g.field_matches@[j]).0 == (
            #[trigger] columns[col]).id;
        let r = joins_field(g.field_matches@, columns[col].id);
        order::lemma_first_where(g.field_matches@.len(), r);
        assert(r(j));
        assert(p(col));
        assert(touched(g, columns).contains(col));
    }
}

/// A join line crosses the cells of its own row in the columns of its labels, and no others.
pub proof fn law_join_line_crosses_its_cells(lines: Seq<JoinLine>, slot: usize, col: usize, i: int)
    requires
        0 <= i < lines.len(),
    ensures
        crosses(lines, slot, col)(i) <==> lines[i].slot == slot && exists|j: int|
            0 <= j < lines[i].field_items@.len() && (#[trigger] lines[i].field_items@[j]).0 == col,
{
    let items = lines[i].field_items@;
    let p = item_in_column(items, col);
    order::lemma_first_where(items.len(), p);
    if item_at(items, col) is Some {
        let j = item_at(items, col)->0;
        assert(p(j));
        assert(items[j].0 == col);
    }
    if exists|j: int| 0 <= j < items.len() && (#[trigger] items[j]).0 == col {
        let j = choose|j: int| 0 <= j < items.len() && (#[trigger] items[j]).0 == col;
        assert(p(j));
    }
}

/// A row of the day holds something exactly if a block of the day begins in its half hour or a join
/// line lies in it.
pub proof fn law_which_rows_hold_something(events: Seq<TimelineEvent>, lines: Seq<JoinLine>, day: i64, i: int)
    ensures
        0 <= i < events.len() && moment::day_of(events[i].start_time) == day ==> is_used_slot(
            events,
            lines,
            day,
            moment::minute_of_day(events[i].start_time) / 30,
        ),
        0 <= i < lines.len() ==> is_used_slot(events, lines, day, lines[i].slot as int),
        forall|s: int|
            #[trigger] is_used_slot(events, lines, day, s) && lines.len() == 0 ==> exists|k: int|
                0 <= k < events.len() && moment::day_of((#[trigger] events[k]).start_time) == day && 30 * s <= moment::minute_of_day(
                    events[k].start_time,
                ) < 30 * s + 30,
{
    if 0 <= i < events.len() && moment::day_of(events[i].start_time) == day {
        assert(slot_of(moment::minute_of_day(events[i].start_time)) == moment::minute_of_day(events[i].start_time) / 30);
    }
}

} // verus!
