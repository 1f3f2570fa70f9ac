//! Lanes: blocks that overlap in time share the width of their column.
use vstd::prelude::*;
use crate::moment;
use crate::order;
use crate::moment::{Moment, is_earlier};

verus! {

/// The time that a block covers.
#[derive(Clone, Copy, Debug, PartialEq, Eq, Structural)]
pub struct Span {
    pub start: Moment,
    pub end: Moment,
}

/// Where a block stands in its column: its lane, and the number of lanes it shares the width with.
#[derive(Clone, Copy, Debug, PartialEq, Eq, Structural)]
pub struct Lane {
    pub lane_index: usize,
    pub num_lanes: usize,
}

/// Two spans have time in common.
pub open spec fn overlap(a: Span, b: Span) -> bool {
    moment::earlier(a.start, b.end) && moment::earlier(b.start, a.end)
}

/// No span before `k` that overlaps it stands in the lane.
pub open spec fn lane_free(spans: Seq<Span>, lanes: Seq<int>, k: int, lane: int) -> bool {
    forall|j: int| 0 <= j < k && overlap(spans[k], #[trigger] spans[j]) ==> lanes[j] != lane
}

/// Every span stands in the first lane that is free of earlier spans that overlap it.
pub open spec fn greedy_lanes(spans: Seq<Span>, lanes: Seq<int>) -> bool {
    &&& lanes.len() == spans.len()
    &&& forall|k: int| 0 <= k < lanes.len() ==> 0 <= #[trigger] lanes[k] <= k
    &&& forall|k: int| 0 <= k < lanes.len() ==> lane_free(spans, lanes, k, #[trigger] lanes[k])
    &&& forall|k: int, lane: int|
        0 <= k < lanes.len() && 0 <= lane < lanes[k] ==> !#[trigger] lane_free(spans, lanes, k, lane)
}

/// One more than the highest lane among the spans that overlap `k`; one if there is none.
pub open spec fn is_lane_count(spans: Seq<Span>, lanes: Seq<int>, k: int, n: int) -> bool {
    &&& n >= 1
    &&& forall|j: int| 0 <= j < spans.len() && overlap(spans[k], #[trigger] spans[j]) ==> lanes[j] < n
    &&& n == 1 || exists|j: int|
        0 <= j < spans.len() && overlap(spans[k], #[trigger] spans[j]) && lanes[j] == n - 1
}

/// Spans that overlap stand in different lanes.
pub proof fn law_overlapping_spans_have_different_lanes(
    spans: Seq<Span>,
    lanes: Seq<int>,
    j: int,
    k: int,
)
    requires
        greedy_lanes(spans, lanes),
        0 <= j < spans.len(),
        0 <= k < spans.len(),
        j != k,
        overlap(spans[j], spans[k]),
    ensures
        lanes[j] != lanes[k],
{
    if j < k {
        assert(lane_free(spans, lanes, k, lanes[k]));
    } else {
        assert(lane_free(spans, lanes, j, lanes[j]));
    }
}

/// A span that ends after it starts stands in one of the lanes that it counts.
pub proof fn law_lane_is_below_count(spans: Seq<Span>, lanes: Seq<int>, k: int, n: int)
    requires
        greedy_lanes(spans, lanes),
        0 <= k < spans.len(),
        moment::earlier(spans[k].start, spans[k].end),
        is_lane_count(spans, lanes, k, n),
    ensures
        lanes[k] < n,
{
    assert(overlap(spans[k], spans[k]));
}

/// A span that overlaps no other has its column to itself.
pub proof fn law_alone_has_full_width(spans: Seq<Span>, lanes: Seq<int>, k: int, n: int)
    requires
        greedy_lanes(spans, lanes),
        0 <= k < spans.len(),
        forall|j: int| 0 <= j < spans.len() && j != k ==> !overlap(spans[k], #[trigger] spans[j]),
        is_lane_count(spans, lanes, k, n),
    ensures
        lanes[k] == 0,
        n == 1,
{
    assert(lane_free(spans, lanes, k, 0));
}

/// The rule leaves no choice: two layouts of the same spans are the same.
pub proof fn law_lanes_are_unique(spans: Seq<Span>, a: Seq<int>, b: Seq<int>)
    requires
        greedy_lanes(spans, a),
        greedy_lanes(spans, b),
    ensures
        a == b,
{
    lemma_lanes_agree(spans, a, b, spans.len());
    assert(a =~= b);
}

proof fn lemma_lanes_agree(spans: Seq<Span>, a: Seq<int>, b: Seq<int>, n: nat)
    requires
        greedy_lanes(spans, a),
        greedy_lanes(spans, b),
        n <= spans.len(),
    ensures
        forall|k: int| 0 <= k < n ==> a[k] == b[k],
    decreases n,
{
    if n > 0 {
        lemma_lanes_agree(spans, a, b, (n - 1) as nat);
        let k = n - 1;
        assert(lane_free(spans, a, k, a[k]));
        assert(lane_free(spans, b, k, b[k]));
        assert(lane_free(spans, b, k, a[k]));
        assert(lane_free(spans, a, k, b[k]));
    }
}

/// No span starts earlier than one before it.
pub open spec fn sorted_by_start(spans: Seq<Span>) -> bool {
    forall|j: int, k: int|
        0 <= j < k < spans.len() ==> !moment::earlier((#[trigger] spans[k]).start, (#[trigger] spans[j]).start)
}

/// A span covers an instant.
pub open spec fn covers(s: Span, t: Moment) -> bool {
    !moment::earlier(t, s.start) && moment::earlier(t, s.end)
}

/// Different spans of the list share an instant.
pub open spec fn share(spans: Seq<Span>, at: Seq<int>, t: Moment) -> bool {
    at.no_duplicates() && forall|i: int|
        0 <= i < at.len() ==> 0 <= #[trigger] at[i] < spans.len() && covers(spans[at[i]], t)
}

/// The lanes that are used: one more than the highest; none without spans.
pub open spec fn is_lane_total(lanes: Seq<int>, n: int) -> bool {
    &&& n >= 0
    &&& forall|k: int| 0 <= k < lanes.len() ==> #[trigger] lanes[k] < n
    &&& n == 0 || exists|k: int| 0 <= k < lanes.len() && #[trigger] lanes[k] == n - 1
}

/// Where spans come by their start, each lower lane is taken when a span starts.
pub proof fn law_lower_lanes_are_taken(spans: Seq<Span>, lanes: Seq<int>, k: int, lane: int)
    requires
        greedy_lanes(spans, lanes),
        sorted_by_start(spans),
        0 <= k < spans.len(),
        0 <= lane < lanes[k],
    ensures
        exists|j: int| 0 <= j < k && #[trigger] lanes[j] == lane && covers(spans[j], spans[k].start),
{
    assert(!lane_free(spans, lanes, k, lane));
    let j = choose|j: int| 0 <= j < k && overlap(spans[k], #[trigger] spans[j]) && lanes[j] == lane;
    assert(lanes[j] == lane && covers(spans[j], spans[k].start));
}

/// Spans that share an instant are no more than the lanes.
pub proof fn law_sharing_spans_fit_in_the_lanes(
    spans: Seq<Span>,
    lanes: Seq<int>,
    n: int,
    at: Seq<int>,
    t: Moment,
)
    requires
        greedy_lanes(spans, lanes),
        is_lane_total(lanes, n),
        share(spans, at, t),
    ensures
        at.len() <= n,
{
    let taken = Seq::new(at.len(), |i: int| lanes[at[i]]);
    assert forall|i: int, j: int| 0 <= i < taken.len() && 0 <= j < taken.len() && i != j implies taken[i]
        != taken[j] by {
        assert(at[i] != at[j]);
        assert(covers(spans[at[i]], t) && covers(spans[at[j]], t));
        law_overlapping_spans_have_different_lanes(spans, lanes, at[i], at[j]);
    }
    assert forall|i: int| 0 <= i < taken.len() implies 0 <= #[trigger] taken[i] < n by {
        assert(0 <= at[i] < spans.len());
    }
    lemma_distinct_below(taken, n);
}

/// Different numbers below `n` are no more than `n`.
proof fn lemma_distinct_below(numbers: Seq<int>, n: int)
    requires
        n >= 0,
        numbers.no_duplicates(),
        forall|i: int| 0 <= i < numbers.len() ==> 0 <= #[trigger] numbers[i] < n,
    ensures
        numbers.len() <= n,
{
    numbers.unique_seq_to_set();
    vstd::set_lib::lemma_int_range(0, n);
    let all = vstd::set_lib::set_int_range(0, n);
    assert(numbers.to_set().subset_of(all)) by {
        assert forall|x: int| numbers.to_set().contains(x) implies all.contains(x) by {
            assert(numbers.contains(x));
        }
    }
    vstd::set_lib::lemma_len_subset(numbers.to_set(), all);
}

/// Where spans come by their start and end after it, as many spans as there are lanes share an
/// instant: no layout could do with fewer.
pub proof fn law_lanes_are_as_few_as_can_be(spans: Seq<Span>, lanes: Seq<int>, n: int)
    requires
        greedy_lanes(spans, lanes),
        sorted_by_start(spans),
        forall|k: int| 0 <= k < spans.len() ==> moment::earlier((#[trigger] spans[k]).start, spans[k].end),
        is_lane_total(lanes, n),
        n > 0,
    ensures
        exists|at: Seq<int>, t: Moment| #[trigger] share(spans, at, t) && at.len() == n,
{
    let k = choose|k: int| 0 <= k < lanes.len() && #[trigger] lanes[k] == n - 1;
    let t = spans[k].start;
    let holder = |lane: int|
        if lane == n - 1 {
            k
        } else {
            choose|j: int| 0 <= j < k && #[trigger] lanes[j] == lane && covers(spans[j], t)
        };
    let at = Seq::new(n as nat, holder);
    assert forall|lane: int| 0 <= lane < n implies 0 <= #[trigger] at[lane] < spans.len() && covers(
        spans[at[lane]],
        t,
    ) && lanes[at[lane]] == lane by {
        if lane < n - 1 {
            law_lower_lanes_are_taken(spans, lanes, k, lane);
        }
    }
    assert(at.no_duplicates());
    assert(share(spans, at, t));
}

fn overlaps(a: Span, b: Span) -> (r: bool)
    ensures
        r == overlap(a, b),
{
    is_earlier(a.start, b.end) && is_earlier(b.start, a.end)
}

/// The lane of each span.
pub fn assign_lanes(spans: &[Span]) -> (r: Vec<usize>)
    ensures
        greedy_lanes(spans@, order::positions(r@)),
{
    let mut lanes: Vec<usize> = Vec::new();
    let mut k: usize = 0;
    while k < spans.len()
        invariant
            k <= spans@.len(),
            lanes@.len() == k,
            forall|i: int| 0 <= i < k ==> #[trigger] lanes@[i] <= i,
            forall|i: int| 0 <= i < k ==> lane_free(spans@, order::positions(lanes@), i, #[trigger] lanes@[i] as int),
            forall|i: int, lane: int|
                0 <= i < k && 0 <= lane < lanes@[i] ==> !#[trigger] lane_free(
                    spans@,
                    order::positions(lanes@),
                    i,
                    lane,
                ),
        decreases spans@.len() - k,
    {
        let ghost was = order::positions(lanes@);
        let mut lane: usize = 0;
        let mut placed = false;
        while !placed
            invariant
                k < spans@.len(),
                lanes@.len() == k,
                was == order::positions(lanes@),
                forall|i: int| 0 <= i < k ==> #[trigger] lanes@[i] <= i,
                lane <= k,
                forall|l: int| 0 <= l < lane ==> !#[trigger] lane_free(spans@, was, k as int, l),
                placed ==> lane_free(spans@, was, k as int, lane as int),
            decreases k - lane + (if placed { 0int } else { 1int }),
        {
            let mut j: usize = 0;
            let mut taken = false;
            while j < k && !taken
                invariant
                    j <= k,
                    k < spans@.len(),
                    lanes@.len() == k,
                    was == order::positions(lanes@),
                    taken ==> !lane_free(spans@, was, k as int, lane as int) && exists|i: int|
                        0 <= i < k && #[trigger] lanes@[i] == lane,
                    !taken ==> forall|i: int|
                        0 <= i < j && overlap(spans@[k as int], #[trigger] spans@[i]) ==> was[i] != lane,
                decreases k - j + (if taken { 0int } else { 1int }),
            {
                if overlaps(spans[k], spans[j]) && lanes[j] == lane {
                    assert(overlap(spans@[k as int], spans@[j as int]) && was[j as int] == lane);
                    taken = true;
                } else {
                    j = j + 1;
                }
            }
            if taken {
                lane = lane + 1;
            } else {
                placed = true;
            }
        }
        lanes.push(lane);
        proof {
            let now = order::positions(lanes@);
            assert(now =~= was.push(lane as int));
            assert forall|i: int, l: int| 0 <= i <= k implies #[trigger] lane_free(spans@, now, i, l)
                == lane_free(spans@, was, i, l) by {
                if lane_free(spans@, was, i, l) {
                    assert forall|j: int|
                        0 <= j < i && overlap(spans@[i], #[trigger] spans@[j]) implies now[j] != l by {
                        assert(was[j] == now[j]);
                    }
                }
                if lane_free(spans@, now, i, l) {
                    assert forall|j: int|
                        0 <= j < i && overlap(spans@[i], #[trigger] spans@[j]) implies was[j] != l by {
                        assert(was[j] == now[j]);
                    }
                }
            }
        }
        k = k + 1;
    }
    proof {
        let done = order::positions(lanes@);
        assert forall|i: int| 0 <= i < done.len() implies lane_free(spans@, done, i, #[trigger] done[i]) by {
            assert(done[i] == lanes@[i]);
        }
        assert forall|i: int, lane: int|
            0 <= i < done.len() && 0 <= lane < done[i] implies !#[trigger] lane_free(
            spans@,
            done,
            i,
            lane,
        ) by {
            assert(done[i] == lanes@[i]);
        }
        assert forall|i: int| 0 <= i < done.len() implies 0 <= #[trigger] done[i] <= i by {
            assert(done[i] == lanes@[i]);
        }
    }
    lanes
}

/// The number of lanes that the span at `k` shares the width with.
pub fn count_lanes(spans: &[Span], lanes: &[usize], k: usize) -> (r: usize)
    requires
        greedy_lanes(spans@, order::positions(lanes@)),
        k < spans@.len(),
    ensures
        is_lane_count(spans@, order::positions(lanes@), k as int, r as int),
        r <= spans@.len(),
{
    let ghost ls = order::positions(lanes@);
    let mut n: usize = 1;
    let mut j: usize = 0;
    while j < spans.len()
        invariant
            j <= spans@.len(),
            k < spans@.len(),
            ls == order::positions(lanes@),
            lanes@.len() == spans@.len(),
            forall|i: int| 0 <= i < ls.len() ==> 0 <= #[trigger] ls[i] <= i,
            1 <= n <= spans@.len(),
            forall|i: int| 0 <= i < j && overlap(spans@[k as int], #[trigger] spans@[i]) ==> ls[i] < n,
            n == 1 || exists|i: int|
                0 <= i < spans@.len() && overlap(spans@[k as int], #[trigger] spans@[i]) && ls[i] == n - 1,
        decreases spans@.len() - j,
    {
        assert(ls[j as int] == lanes@[j as int]);
        if overlaps(spans[k], spans[j]) && lanes[j] >= n {
            n = lanes[j] + 1;
            assert(overlap(spans@[k as int], spans@[j as int]) && ls[j as int] == n - 1);
        }
        j = j + 1;
    }
    n
}

/// Two spans that end after they start overlap exactly if some instant lies in both; and it does not
/// matter which comes first.
pub proof fn law_overlapping_spans_share_an_instant(a: Span, b: Span)
    requires
        moment::earlier(a.start, a.end),
        moment::earlier(b.start, b.end),
    ensures
        overlap(a, b) == overlap(b, a),
        overlap(a, b) <==> exists|t: Moment| #[trigger] covers(a, t) && covers(b, t),
        overlap(a, a),
{
    if overlap(a, b) {
        let t = if moment::earlier(a.start, b.start) {
            b.start
        } else {
            a.start
        };
        assert(covers(a, t) && covers(b, t));
    }
}

/// A span covers its start, does not cover its end, and covers nothing outside.
pub proof fn law_what_a_span_covers(s: Span, t: Moment)
    requires
        moment::earlier(s.start, s.end),
    ensures
        covers(s, s.start),
        !covers(s, s.end),
        moment::earlier(t, s.start) || moment::earlier(s.end, t) ==> !covers(s, t),
        moment::earlier(s.start, t) && moment::earlier(t, s.end) ==> covers(s, t),
{
}

/// A span that overlaps another shares the width with it.
pub proof fn law_overlapping_span_has_not_the_full_width(spans: Seq<Span>, lanes: Seq<int>, j: int, k: int, n: int)
    requires
        greedy_lanes(spans, lanes),
        0 <= j < spans.len(),
        0 <= k < spans.len(),
        j != k,
        overlap(spans[k], spans[j]),
        overlap(spans[k], spans[k]),
        is_lane_count(spans, lanes, k, n),
    ensures
        n >= 2,
        lanes[j] < n,
        lanes[k] < n,
{
    law_overlapping_spans_have_different_lanes(spans, lanes, k, j);
    assert(0 <= lanes[j] && 0 <= lanes[k]);
}

} // verus!
