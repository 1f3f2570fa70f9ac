//! The blocks that lie over the grid of a day, and the lines of dependencies between them.
use vstd::prelude::*;
use crate::drag;
use crate::grid;
use crate::lanes;
use crate::moment;
use crate::order;
use crate::text;
use crate::timeline;
use crate::deps::DepEdge;
use crate::drag::find_column;
use crate::lanes::Lane;
use crate::moment::{day, minute, whole_minutes};
use crate::text::{as_deref, opt_str_eq, str_eq};
use crate::timeline::{Column, TimelineEvent};

verus! {

/// A block over the grid: which event it is, its column, its minutes, and its lane.
#[derive(Clone, Copy, Debug, PartialEq, Eq, Structural)]
pub struct OverlayBlock {
    pub event: usize,
    pub col: usize,
    pub start_min: u32,
    pub duration_min: i64,
    pub lane: Lane,
}

/// An event of the list lies over the grid of a day: it is on the day, neither a join nor skipped,
/// and in a column.
pub open spec fn lies_over(events: Seq<TimelineEvent>, columns: Seq<Column>, day: i64) -> spec_fn(int) -> bool {
    |i: int|
        moment::day_of(events[i].start_time) == day && text::opt_text(events[i].schedule_type) != Some("JOIN"@)
            && events[i].status@ != "SKIPPED"@ && drag::column_at(columns, events[i].field_id) is Some
}

/// The positions of the events that lie over the grid of a day.
pub open spec fn over_grid(events: Seq<TimelineEvent>, columns: Seq<Column>, day: i64) -> Seq<int> {
    order::kept(events.len(), lies_over(events, columns, day))
}

/// A block is that of an event.
pub open spec fn is_block_of(
    b: OverlayBlock,
    events: Seq<TimelineEvent>,
    lanes: Seq<Lane>,
    columns: Seq<Column>,
    i: int,
) -> bool {
    &&& b.event == i
    &&& b.col == drag::column_at(columns, events[i].field_id)->0
    &&& b.start_min == moment::minute_of_day(events[i].start_time)
    &&& b.duration_min == moment::length_minutes(events[i].start_time, events[i].end_time)
    &&& b.lane == lanes[i]
}

/// The blocks over the grid of a day.
pub fn overlay_blocks(
    events: &[TimelineEvent],
    lanes: &[Lane],
    columns: &[Column],
    day_shown: i64,
) -> (r: Vec<OverlayBlock>)
    requires
        lanes@.len() == events@.len(),
        forall|k: int| 0 <= k < events@.len() ==> timeline::has_span(#[trigger] events@[k]),
    ensures
        r@.len() == over_grid(events@, columns@, day_shown).len(),
        forall|k: int|
            0 <= k < r@.len() ==> is_block_of(
                #[trigger] r@[k],
                events@,
                lanes@,
                columns@,
                over_grid(events@, columns@, day_shown)[k],
            ),
        forall|k: int|
            0 <= k < r@.len() ==> (#[trigger] r@[k]).event < events@.len() && r@[k].col < columns@.len()
                && drag::small(r@[k].duration_min as int),
{
    let ghost p = lies_over(events@, columns@, day_shown);
    let mut out: Vec<OverlayBlock> = Vec::new();
    let mut i: usize = 0;
    while i < events.len()
        invariant
            i <= events@.len(),
            lanes@.len() == events@.len(),
            forall|k: int| 0 <= k < events@.len() ==> timeline::has_span(#[trigger] events@[k]),
            p == lies_over(events@, columns@, day_shown),
            out@.len() == order::kept(i as nat, p).len(),
            forall|k: int|
                0 <= k < out@.len() ==> is_block_of(
                    #[trigger] out@[k],
                    events@,
                    lanes@,
                    columns@,
                    order::kept(i as nat, p)[k],
                ),
            forall|k: int|
                0 <= k < out@.len() ==> (#[trigger] out@[k]).event < events@.len() && out@[k].col
                    < columns@.len() && drag::small(out@[k].duration_min as int),
        decreases events@.len() - i,
    {
        let e = &events[i];
        let ghost was = out@;
        let mut over = false;
        if day(e.start_time) == day_shown && !opt_str_eq(as_deref(&e.schedule_type), "JOIN") && !str_eq(
            e.status.as_str(),
            "SKIPPED",
        ) {
            match find_column(columns, e.field_id) {
                Some(col) => {
                    over = true;
                    out.push(
                        OverlayBlock {
                            event: i,
                            col,
                            start_min: minute(e.start_time),
                            duration_min: whole_minutes(e.start_time, e.end_time),
                            lane: lanes[i],
                        },
                    );
                },
                None => {},
            }
        }
        proof {
            assert(p(i as int) == over);
            if over {
                assert forall|k: int| 0 <= k < out@.len() implies is_block_of(
                    #[trigger] out@[k],
                    events@,
                    lanes@,
                    columns@,
                    order::kept((i + 1) as nat, p)[k],
                ) by {
                    if k < was.len() {
                        assert(out@[k] == was[k]);
                        assert(order::kept((i + 1) as nat, p)[k] == order::kept(i as nat, p)[k]);
                    }
                }
            }
        }
        i = i + 1;
    }
    out
}

/// A block of the list is that of the event with an id.
pub open spec fn block_has_id(
    blocks: Seq<OverlayBlock>,
    events: Seq<TimelineEvent>,
    id: Seq<char>,
) -> spec_fn(int) -> bool {
    |i: int| events[blocks[i].event as int].id@ == id
}

/// The block with an id; of several, the last.
pub open spec fn block_with_id(
    blocks: Seq<OverlayBlock>,
    events: Seq<TimelineEvent>,
    id: Seq<char>,
) -> Option<int> {
    order::last_where(blocks.len(), block_has_id(blocks, events, id))
}

fn find_block(blocks: &[OverlayBlock], events: &[TimelineEvent], id: &str) -> (r: Option<usize>)
    requires
        forall|k: int| 0 <= k < blocks@.len() ==> (#[trigger] blocks@[k]).event < events@.len(),
    ensures
        match block_with_id(blocks@, events@, id@) {
            Some(i) => r is Some && r->0 == i && 0 <= i < blocks@.len(),
            None => r is None,
        },
{
    let ghost p = block_has_id(blocks@, events@, id@);
    let mut i: usize = blocks.len();
    while i > 0
        invariant
            i <= blocks@.len(),
            p == block_has_id(blocks@, events@, id@),
            order::last_where(blocks@.len(), p) == order::last_where(i as nat, p),
            forall|k: int| 0 <= k < blocks@.len() ==> (#[trigger] blocks@[k]).event < events@.len(),
        decreases i,
    {
        i = i - 1;
        if str_eq(events[blocks[i].event].id.as_str(), id) {
            assert(p(i as int));
            return Some(i);
        }
        assert(!p(i as int));
    }
    None
}

/// A line between two blocks.
#[derive(Clone, Copy, Debug, PartialEq, Eq, Structural)]
pub struct DepLine {
    pub from: usize,
    pub to: usize,
    pub kind: u8,
}

/// Both ends of an edge have blocks.
pub open spec fn edge_shown(
    edges: Seq<DepEdge>,
    blocks: Seq<OverlayBlock>,
    events: Seq<TimelineEvent>,
) -> spec_fn(int) -> bool {
    |i: int|
        block_with_id(blocks, events, edges[i].from@) is Some && block_with_id(blocks, events, edges[i].to@) is Some
}

/// The edges that are drawn: those with a block at both ends, in order. Only these count where
/// several lines leave a block side by side.
pub open spec fn drawn(
    edges: Seq<DepEdge>,
    blocks: Seq<OverlayBlock>,
    events: Seq<TimelineEvent>,
) -> Seq<int> {
    order::kept(edges.len(), edge_shown(edges, blocks, events))
}

/// A line is that of an edge.
pub open spec fn is_line_for(
    l: DepLine,
    e: DepEdge,
    blocks: Seq<OverlayBlock>,
    events: Seq<TimelineEvent>,
) -> bool {
    &&& l.from == block_with_id(blocks, events, e.from@)->0
    &&& l.to == block_with_id(blocks, events, e.to@)->0
    &&& l.kind == e.kind
}

/// The lines of dependencies between the blocks of a day.
pub fn dep_lines(edges: &[DepEdge], blocks: &[OverlayBlock], events: &[TimelineEvent]) -> (r: Vec<DepLine>)
    requires
        forall|k: int| 0 <= k < blocks@.len() ==> (#[trigger] blocks@[k]).event < events@.len(),
    ensures
        r@.len() == drawn(edges@, blocks@, events@).len(),
        forall|k: int|
            0 <= k < r@.len() ==> is_line_for(
                #[trigger] r@[k],
                edges@[drawn(edges@, blocks@, events@)[k]],
                blocks@,
                events@,
            ),
{
    let ghost p = edge_shown(edges@, blocks@, events@);
    let mut out: Vec<DepLine> = Vec::new();
    let mut i: usize = 0;
    while i < edges.len()
        invariant
            i <= edges@.len(),
            forall|k: int| 0 <= k < blocks@.len() ==> (#[trigger] blocks@[k]).event < events@.len(),
            p == edge_shown(edges@, blocks@, events@),
            out@.len() == order::kept(i as nat, p).len(),
            forall|k: int|
                0 <= k < out@.len() ==> is_line_for(
                    #[trigger] out@[k],
                    edges@[order::kept(i as nat, p)[k]],
                    blocks@,
                    events@,
                ),
        decreases edges@.len() - i,
    {
        let e = &edges[i];
        let ghost was = out@;
        match (
            find_block(blocks, events, e.from.as_str()),
            find_block(blocks, events, e.to.as_str()),
        ) {
            (Some(from), Some(to)) => {
                out.push(DepLine { from, to, kind: e.kind });
                proof {
                    assert(p(i as int));
                    assert forall|k: int| 0 <= k < out@.len() implies is_line_for(
                        #[trigger] out@[k],
                        edges@[order::kept((i + 1) as nat, p)[k]],
                        blocks@,
                        events@,
                    ) by {
                        if k < was.len() {
                            assert(out@[k] == was[k]);
                            assert(order::kept((i + 1) as nat, p)[k] == order::kept(i as nat, p)[k]);
                        }
                    }
                }
            },
            _ => {
                assert(!p(i as int));
            },
        }
        i = i + 1;
    }
    out
}

/// The minute at which a block ends.
pub open spec fn block_end(b: OverlayBlock) -> int {
    b.start_min + b.duration_min
}

/// The minutes at which a line leaves a block and arrives at another: the edge of the one that faces
/// the other, and the opposing edge. The other lies above where its middle does.
pub open spec fn line_minutes(from: OverlayBlock, to: OverlayBlock) -> (int, int) {
    if to.start_min + block_end(to) < from.start_min + block_end(from) {
        (from.start_min as int, block_end(to))
    } else {
        (block_end(from), to.start_min as int)
    }
}

/// The minutes at which a line leaves a block and arrives at another.
pub fn line_ends(from: &OverlayBlock, to: &OverlayBlock) -> (r: (i64, i64))
    requires
        drag::small(from.duration_min as int),
        drag::small(to.duration_min as int),
    ensures
        (r.0 as int, r.1 as int) == line_minutes(*from, *to),
{
    let from_start: i64 = from.start_min as i64;
    let to_start: i64 = to.start_min as i64;
    let from_end: i64 = from_start + from.duration_min;
    let to_end: i64 = to_start + to.duration_min;
    if to_start + to_end < from_start + from_end {
        (from_start, to_end)
    } else {
        (from_end, to_start)
    }
}

/// Between two blocks of which one ends before the other starts, the line spans just the time
/// between them.
pub proof fn law_line_spans_the_time_between(from: OverlayBlock, to: OverlayBlock)
    requires
        from.duration_min > 0,
        to.duration_min > 0,
    ensures
        block_end(to) <= from.start_min ==> line_minutes(from, to) == (from.start_min as int, block_end(to)),
        block_end(from) <= to.start_min ==> line_minutes(from, to) == (block_end(from), to.start_min as int),
{
}

/// Two blocks of one column that overlap in time stand in different lanes.
pub proof fn law_overlapping_blocks_stand_apart(
    events: Seq<TimelineEvent>,
    lanes: Seq<Lane>,
    columns: Seq<Column>,
    day: i64,
    a: int,
    b: int,
)
    requires
        forall|c: int| 0 <= c < columns.len() ==> grid::column_laid_out(events, lanes, (#[trigger] columns[c]).id, day),
        0 <= a < over_grid(events, columns, day).len(),
        0 <= b < over_grid(events, columns, day).len(),
        a != b,
        events[over_grid(events, columns, day)[a]].field_id == events[over_grid(
            events,
            columns,
            day,
        )[b]].field_id,
        lanes::overlap(
            grid::span_of(events[over_grid(events, columns, day)[a]]),
            grid::span_of(events[over_grid(events, columns, day)[b]]),
        ),
    ensures
        lanes[over_grid(events, columns, day)[a]].lane_index != lanes[over_grid(
            events,
            columns,
            day,
        )[b]].lane_index,
{
    let p = lies_over(events, columns, day);
    order::lemma_kept(events.len(), p);
    let at = over_grid(events, columns, day);
    let i = at[a];
    let j = at[b];
    assert(p(i) && p(j));
    assert(i != j) by {
        if a < b {
            assert(at[a] < at[b]);
        } else {
            assert(at[b] < at[a]);
        }
    }
    let id = events[i].field_id;
    order::lemma_last_where(columns.len(), drag::column_of(columns, id));
    let c = drag::column_at(columns, id)->0;
    assert(drag::column_of(columns, id)(c));
    assert(columns[c].id == id);
    grid::law_overlapping_blocks_have_different_lanes(events, lanes, id, day, i, j);
}

/// A block over the grid stands in the column of its field, at its start and for its length.
pub proof fn law_block_stands_in_the_column_of_its_field(
    b: OverlayBlock,
    events: Seq<TimelineEvent>,
    lanes: Seq<Lane>,
    columns: Seq<Column>,
    day: i64,
    k: int,
)
    requires
        0 <= k < over_grid(events, columns, day).len(),
        is_block_of(b, events, lanes, columns, over_grid(events, columns, day)[k]),
    ensures
        b.event < events.len(),
        ({
            let e = events[b.event as int];
            &&& b.col < columns.len() && columns[b.col as int].id == e.field_id
            &&& moment::day_of(e.start_time) == day
            &&& b.start_min == moment::minute_of_day(e.start_time)
            &&& b.duration_min == moment::length_minutes(e.start_time, e.end_time)
            &&& b.lane == lanes[b.event as int]
            &&& grid::stands_in(e, columns[b.col as int].id, day)
        }),
{
    let p = lies_over(events, columns, day);
    order::lemma_kept(events.len(), p);
    let i = over_grid(events, columns, day)[k];
    assert(p(i));
    drag::law_columns_are_found(columns, events[i].field_id, Seq::empty());
}

/// Every block that stands in a column on the day lies over the grid.
pub proof fn law_every_block_lies_over_the_grid(
    events: Seq<TimelineEvent>,
    columns: Seq<Column>,
    day: i64,
    i: int,
    col: int,
)
    requires
        0 <= i < events.len(),
        0 <= col < columns.len(),
        grid::stands_in(events[i], columns[col].id, day),
    ensures
        over_grid(events, columns, day).contains(i),
{
    let p = lies_over(events, columns, day);
    order::lemma_kept(events.len(), p);
    drag::law_columns_are_found(columns, events[i].field_id, Seq::empty());
    assert(p(i));
}

/// A line joins the blocks of the two ends of its edge; and an edge is drawn exactly if both its ends
/// have blocks.
pub proof fn law_line_joins_the_ends_of_its_edge(
    l: DepLine,
    edges: Seq<DepEdge>,
    blocks: Seq<OverlayBlock>,
    events: Seq<TimelineEvent>,
    i: int,
)
    requires
        0 <= i < edges.len(),
    ensures
        drawn(edges, blocks, events).contains(i) <==> (exists|a: int|
            0 <= a < blocks.len() && events[(#[trigger] blocks[a]).event as int].id@ == edges[i].from@) && (exists|
            b: int,
        | 0 <= b < blocks.len() && events[(#[trigger] blocks[b]).event as int].id@ == edges[i].to@),
        drawn(edges, blocks, events).contains(i) && is_line_for(l, edges[i], blocks, events) ==> l.from < blocks.len()
            && l.to < blocks.len() && events[blocks[l.from as int].event as int].id@ == edges[i].from@
            && events[blocks[l.to as int].event as int].id@ == edges[i].to@ && l.kind == edges[i].kind,
{
    let p = edge_shown(edges, blocks, events);
    order::lemma_kept(edges.len(), p);
    let from = block_has_id(blocks, events, edges[i].from@);
    let to = block_has_id(blocks, events, edges[i].to@);
    order::lemma_last_where(blocks.len(), from);
    order::lemma_last_where(blocks.len(), to);
    let at = drawn(edges, blocks, events);
    if at.contains(i) {
        let k = choose|k: int| 0 <= k < at.len() && at[k] == i;
        assert(p(at[k]));
        let a = block_with_id(blocks, events, edges[i].from@)->0;
        let b = block_with_id(blocks, events, edges[i].to@)->0;
        assert(from(a) && to(b));
        assert(events[blocks[a].event as int].id@ == edges[i].from@);
        assert(events[blocks[b].event as int].id@ == edges[i].to@);
    }
    if (exists|a: int| 0 <= a < blocks.len() && events[(#[trigger] blocks[a]).event as int].id@ == edges[i].from@) && (
    exists|b: int| 0 <= b < blocks.len() && events[(#[trigger] blocks[b]).event as int].id@ == edges[i].to@) {
        let a = choose|a: int|
            0 <= a < blocks.len() && events[(#[trigger] blocks[a]).event as int].id@ == edges[i].from@;
        let b = choose|b: int| 0 <= b < blocks.len() && events[(#[trigger] blocks[b]).event as int].id@ == edges[i].to@;
        assert(from(a) && to(b));
        assert(p(i));
    }
}

/// A line is the same from either end, unless the middles of the two blocks are level.
pub proof fn law_line_is_the_same_from_either_end(a: OverlayBlock, b: OverlayBlock)
    requires
        a.start_min + block_end(a) != b.start_min + block_end(b),
    ensures
        line_minutes(a, b) == (line_minutes(b, a).1, line_minutes(b, a).0),
        line_minutes(a, b).0 == a.start_min || line_minutes(a, b).0 == a.start_min + a.duration_min,
        line_minutes(a, b).1 == b.start_min || line_minutes(a, b).1 == b.start_min + b.duration_min,
{
}

} // verus!
