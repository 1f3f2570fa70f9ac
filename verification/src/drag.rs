//! Dragging on the timeline of the editor: creating matches on empty space and moving blocks.
use vstd::prelude::*;
use crate::clock;
use crate::days;
use crate::moment;
use crate::order;
use crate::schedule_time;
use crate::text;
use crate::timeline;
use crate::clock::{UTC_ISO, write_moment};
use crate::moment::{DAY_SECONDS, Moment, day, minute, minutes_from, plus_minutes, whole_minutes};
use crate::schedule_time::latest_match_before;
use crate::teams::or_empty;
use crate::text::{concat, concat3, decimal_text, str_eq, two_digit_text};
use crate::timeline::{Column, TimelineEvent};
use crate::types::MatchSetupData;

verus! {

/// Minutes of a day.
pub const DAY_MINUTES: i64 = 1440;

// ---------------------------------------------------------------------------
// Minutes
// ---------------------------------------------------------------------------

/// `x`, or the bound that it lies beyond.
pub open spec fn clamped(x: int, low: int, high: int) -> int {
    if x < low {
        low
    } else if x > high {
        high
    } else {
        x
    }
}

/// The multiple of five minutes nearest to `min`, inside the day.
pub open spec fn snapped(min: int) -> int {
    clamped(5 * ((min + 2) / 5), 0, 1440)
}

/// Snap minutes from midnight to the nearest 5-minute increment, inside the day.
pub fn snap5(min: i64) -> (r: i64)
    ensures
        r == snapped(min as int),
{
    if min <= 2 {
        0
    } else if min >= DAY_MINUTES {
        DAY_MINUTES
    } else {
        5 * ((min + 2) / 5)
    }
}

/// A snapped minute is a multiple of five of the day, at most two minutes off; snapping it again
/// changes nothing.
pub proof fn law_snapped(min: int)
    ensures
        0 <= snapped(min) <= 1440,
        snapped(min) % 5 == 0,
        0 <= min <= 1440 ==> -2 <= snapped(min) - min <= 2,
        snapped(snapped(min)) == snapped(min),
{
}

/// The remainder that a minute of the hour leaves, with the sign of the minutes.
pub open spec fn signed_minute(min: int) -> int {
    if min >= 0 {
        min % 60
    } else {
        -((-min) % 60)
    }
}

/// Minutes from midnight as `HH:MM`; the hour stays between 00 and 23. Before midnight the minute has a
/// minus sign.
pub open spec fn minutes_text(min: int) -> Seq<char> {
    text::two_digits(clamped(min / 60, 0, 23) as nat) + ":"@ + (if signed_minute(min) < 0 {
        "-"@ + text::decimal((-signed_minute(min)) as nat)
    } else {
        text::two_digits(signed_minute(min) as nat)
    })
}

/// Format minutes from midnight as "HH:MM". Before midnight the minute has a minus sign.
pub fn fmt_minutes(min: i64) -> (r: String)
    ensures
        r@ == minutes_text(min as int),
{
    if min >= 0 {
        let hour: i64 = if min / 60 > 23 {
            23
        } else {
            min / 60
        };
        concat3(
            two_digit_text(hour as u64).as_str(),
            ":",
            two_digit_text((min % 60) as u64).as_str(),
        )
    } else {
        let y: i64 = -(min + 1);
        let past: i64 = (y % 60 + 1) % 60;
        assert(past == (-min) % 60);
        if past == 0 {
            concat3(two_digit_text(0).as_str(), ":", two_digit_text(0).as_str())
        } else {
            let minute_part = concat("-", decimal_text(past as u64).as_str());
            concat3(two_digit_text(0).as_str(), ":", minute_part.as_str())
        }
    }
}

/// From one minute of the day to another.
pub open spec fn range_text(from: int, to: int) -> Seq<char> {
    minutes_text(from) + " – "@ + minutes_text(to)
}

fn range_string(from: i64, to: i64) -> (r: String)
    ensures
        r@ == range_text(from as int, to as int),
{
    concat3(fmt_minutes(from).as_str(), " – ", fmt_minutes(to).as_str())
}

// ---------------------------------------------------------------------------
// Gestures
// ---------------------------------------------------------------------------

/// A drag in flight.
#[derive(Clone, Debug, PartialEq)]
pub enum TimelineDrag {
    /// On empty space: a placeholder that grows from the minute where it began.
    Create { col: usize, anchor_min: i64, cur_min: i64 },
    /// Of a block: its ghost follows the pointer.
    Move {
        id: String,
        schedule_type: String,
        name: String,
        duration_min: i64,
        grab_offset_min: i64,
        orig_col: usize,
        orig_start_min: i64,
        cur_col: usize,
        cur_start_min: i64,
        moved: bool,
    },
}

/// A place under the pointer: the column and the minute of the day.
#[derive(Clone, Copy, Debug, PartialEq, Eq, Structural)]
pub struct GridPos {
    pub col: usize,
    pub minute: u32,
}

/// What a drag of a block needs to know of it.
#[derive(Clone, Debug)]
pub struct BlockInfo {
    pub schedule_type: String,
    pub name: String,
    pub start_min: i64,
    pub duration_min: i64,
    pub col: usize,
}

/// The gestures of a timeline: the drag in flight, and whether the click that the browser fires when
/// a block is released is to be swallowed.
#[derive(Clone, Debug)]
pub struct DragSession {
    pub drag: Option<TimelineDrag>,
    pub suppress_next_click: bool,
}

/// Payload of a drag that creates a match, or of a plain click on empty space.
#[derive(Clone, Debug, PartialEq)]
pub struct DragCreatePayload {
    /// Field of the column.
    pub field_name: String,
    /// Start, in local time.
    pub start_local: Moment,
    /// Length of the drag; none for a plain click, which takes the default length.
    pub length_min: Option<u32>,
    /// The match that is shown last before the start on that field.
    pub prev_match_id: Option<String>,
}

/// Payload of a drag that moved a block.
#[derive(Clone, Debug, PartialEq)]
pub struct MoveCommitPayload {
    pub match_id: String,
    /// Schedule type of the block.
    pub schedule_type: String,
    /// Name of the match (break groups are addressed by name).
    pub group_name: String,
    /// Field that it was moved to.
    pub new_field: Option<String>,
    /// New start in UTC, for blocks with a fixed start.
    pub new_start_utc: Option<String>,
    /// New previous match, for the others.
    pub new_prev_id: Option<String>,
}

/// What the release of the pointer asks for.
#[derive(Clone, Debug)]
pub enum DragOutcome {
    Nothing,
    Created(DragCreatePayload),
    Moved(MoveCommitPayload),
}

/// What a release is judged against: the matches, the names of the columns, the day, and how
/// matches are shown.
pub struct DropContext<'a> {
    pub matches: &'a [MatchSetupData],
    pub columns: &'a [Column],
    pub day_shown: i64,
    pub show_as_happened: bool,
    pub tz_offset_minutes: i16,
}

/// Minutes that a gesture works with.
pub open spec fn small(min: int) -> bool {
    -20_000_000_000_000 <= min <= 20_000_000_000_000
}

/// The minutes of a drag are such that no step of a gesture leaves the machine numbers.
pub open spec fn drag_in_bounds(d: TimelineDrag) -> bool {
    match d {
        TimelineDrag::Create { col, anchor_min, cur_min } => 0 <= anchor_min <= 1440 && 0 <= cur_min
            <= 1440,
        TimelineDrag::Move {
            duration_min,
            grab_offset_min,
            orig_start_min,
            cur_start_min,
            ..
        } => small(duration_min as int) && duration_min >= 1 && small(grab_offset_min as int)
            && 0 <= orig_start_min < 1440 && 0 <= cur_start_min <= 1440,
    }
}

/// The start of a moved block of a length when the pointer stands at a minute: snapped, and such that
/// the block stays inside the day.
pub open spec fn moved_start(pointer_min: int, grab_offset_min: int, duration_min: int) -> int {
    clamped(
        snapped(pointer_min - grab_offset_min),
        0,
        1440 - (if duration_min < 1440 {
            duration_min
        } else {
            1440
        }),
    )
}

/// A moved block of at most a day lies inside the day, whatever the pointer does; and where the day
/// leaves room, it starts at a multiple of five minutes.
pub proof fn law_moved_block_stays_in_the_day(pointer_min: int, grab_offset_min: int, duration_min: int)
    requires
        duration_min >= 1,
    ensures
        0 <= moved_start(pointer_min, grab_offset_min, duration_min),
        duration_min <= 1440 ==> moved_start(pointer_min, grab_offset_min, duration_min) + duration_min
            <= 1440,
        moved_start(pointer_min, grab_offset_min, duration_min) % 5 == 0 || moved_start(
            pointer_min,
            grab_offset_min,
            duration_min,
        ) == 1440 - duration_min,
{
}

/// A drag after the pointer moved.
pub open spec fn dragged(d: TimelineDrag, pos: GridPos) -> TimelineDrag {
    match d {
        TimelineDrag::Create { col, anchor_min, cur_min } => TimelineDrag::Create {
            col,
            anchor_min,
            cur_min: snapped(pos.minute as int) as i64,
        },
        TimelineDrag::Move {
            id,
            schedule_type,
            name,
            duration_min,
            grab_offset_min,
            orig_col,
            orig_start_min,
            cur_col,
            cur_start_min,
            moved,
        } => {
            let start = moved_start(pos.minute as int, grab_offset_min as int, duration_min as int) as i64;
            TimelineDrag::Move {
                id,
                schedule_type,
                name,
                duration_min,
                grab_offset_min,
                orig_col,
                orig_start_min,
                cur_col: pos.col,
                cur_start_min: start,
                moved: moved || start != orig_start_min || pos.col != orig_col,
            }
        },
    }
}

/// Once a block has been moved it counts as moved until it is released.
pub proof fn law_moved_stays_moved(d: TimelineDrag, a: GridPos, b: GridPos)
    ensures
        dragged(d, a) matches TimelineDrag::Move { moved: true, .. } ==> dragged(dragged(d, a), b) matches TimelineDrag::Move {
            moved: true,
            ..
        },
{
}

/// Only the last place of the pointer counts for where a drag stands.
pub proof fn law_last_place_counts(d: TimelineDrag, a: GridPos, b: GridPos)
    ensures
        match (dragged(dragged(d, a), b), dragged(d, b)) {
            (
                TimelineDrag::Create { col: c1, anchor_min: a1, cur_min: m1 },
                TimelineDrag::Create { col: c2, anchor_min: a2, cur_min: m2 },
            ) => c1 == c2 && a1 == a2 && m1 == m2,
            (
                TimelineDrag::Move { cur_col: c1, cur_start_min: s1, .. },
                TimelineDrag::Move { cur_col: c2, cur_start_min: s2, .. },
            ) => c1 == c2 && s1 == s2,
            _ => false,
        },
{
}

/// A column of the list has a field's id.
pub open spec fn column_of(columns: Seq<Column>, field_id: u32) -> spec_fn(int) -> bool {
    |i: int| columns[i].id == field_id
}

/// The column of a field; of several, the last.
pub open spec fn column_at(columns: Seq<Column>, field_id: u32) -> Option<int> {
    order::last_where(columns.len(), column_of(columns, field_id))
}

/// The column of a field.
pub fn find_column(columns: &[Column], field_id: u32) -> (r: Option<usize>)
    ensures
        match column_at(columns@, field_id) {
            Some(i) => r is Some && r->0 == i && 0 <= i < columns@.len(),
            None => r is None,
        },
{
    let ghost p = column_of(columns@, field_id);
    let mut i: usize = columns.len();
    while i > 0
        invariant
            i <= columns@.len(),
            p == column_of(columns@, field_id),
            order::last_where(columns@.len(), p) == order::last_where(i as nat, p),
        decreases i,
    {
        i = i - 1;
        if columns[i].id == field_id {
            assert(p(i as int));
            return Some(i);
        }
        assert(!p(i as int));
    }
    None
}

/// The block with an id can be dragged: it is on the day and in a column.
pub open spec fn draggable(
    events: Seq<TimelineEvent>,
    columns: Seq<Column>,
    day: i64,
    id: Seq<char>,
) -> spec_fn(int) -> bool {
    |i: int|
        events[i].id@ == id && moment::day_of(events[i].start_time) == day && column_at(columns, events[i].field_id) is Some
}

/// The block with an id that is dragged; of several, the last.
pub open spec fn dragged_block(
    events: Seq<TimelineEvent>,
    columns: Seq<Column>,
    day: i64,
    id: Seq<char>,
) -> Option<int> {
    order::last_where(events.len(), draggable(events, columns, day, id))
}

/// The info is that of a block.
pub open spec fn is_info_of(b: BlockInfo, e: TimelineEvent, columns: Seq<Column>) -> bool {
    &&& b.schedule_type@ == (match text::opt_text(e.schedule_type) {
        Some(t) => t,
        None => "STATIC"@,
    })
    &&& b.name@ == e.name@
    &&& b.start_min == moment::minute_of_day(e.start_time)
    &&& b.duration_min == moment::length_minutes(e.start_time, e.end_time)
    &&& b.col == column_at(columns, e.field_id)->0
}

/// What a drag of the block with an id needs to know of it, if it can be dragged.
pub fn drag_block_info(events: &[TimelineEvent], columns: &[Column], day_shown: i64, id: &str) -> (r: Option<
    BlockInfo,
>)
    requires
        forall|k: int| 0 <= k < events@.len() ==> timeline::has_span(#[trigger] events@[k]),
    ensures
        match dragged_block(events@, columns@, day_shown, id@) {
            Some(i) => r is Some && is_info_of(r->0, events@[i], columns@),
            None => r is None,
        },
        r matches Some(b) ==> 0 <= b.start_min < 1440 && 1 <= b.duration_min && small(
            b.duration_min as int,
        ),
{
    let ghost p = draggable(events@, columns@, day_shown, id@);
    let mut i: usize = events.len();
    while i > 0
        invariant
            i <= events@.len(),
            p == draggable(events@, columns@, day_shown, id@),
            order::last_where(events@.len(), p) == order::last_where(i as nat, p),
            forall|k: int| 0 <= k < events@.len() ==> timeline::has_span(#[trigger] events@[k]),
        decreases i,
    {
        i = i - 1;
        let e = &events[i];
        if str_eq(e.id.as_str(), id) && day(e.start_time) == day_shown {
            match find_column(columns, e.field_id) {
                Some(col) => {
                    assert(p(i as int));
                    let schedule_type = match &e.schedule_type {
                        Some(t) => t.clone(),
                        None => "STATIC".to_owned(),
                    };
                    return Some(
                        BlockInfo {
                            schedule_type,
                            name: e.name.clone(),
                            start_min: minute(e.start_time) as i64,
                            duration_min: whole_minutes(e.start_time, e.end_time),
                            col,
                        },
                    );
                },
                None => {},
            }
        }
        assert(!p(i as int));
    }
    None
}

/// A start that is fixed by its own time.
pub open spec fn has_fixed_start(schedule_type: Seq<char>) -> bool {
    schedule_type == "STATIC"@ || schedule_type == "STATBREAK"@
}

/// Whether a schedule type has a start of its own.
pub fn is_fixed_start(schedule_type: &str) -> (r: bool)
    ensures
        r == has_fixed_start(schedule_type@),
{
    str_eq(schedule_type, "STATIC") || str_eq(schedule_type, "STATBREAK")
}

/// The local moment of a minute of a day.
pub open spec fn day_moment(day: int, min: int) -> Moment {
    Moment { secs: (day * 86_400 + min * 60) as i64, nanos: 0 }
}

fn moment_on_day(day_shown: i64, min: i64) -> (r: Moment)
    requires
        days::day_in_reach(day_shown),
        -1_000_000 <= min <= 1_000_000,
    ensures
        r == day_moment(day_shown as int, min as int),
        moment::ordinary(r),
        -11_000_000_000_000 <= r.secs <= 11_000_000_000_000,
{
    Moment { secs: day_shown * DAY_SECONDS + min * 60, nanos: 0 }
}

/// The id of the match that a local moment on a column comes after.
pub open spec fn previous_on(c: DropContext, field_name: Seq<char>, at: Moment, exclude: Seq<char>) -> Option<
    Seq<char>,
> {
    match schedule_time::latest_before(
        c.matches@,
        field_name,
        at,
        exclude,
        c.show_as_happened,
        c.tz_offset_minutes as int,
    ) {
        Some(i) => Some(c.matches@[i].uuid@),
        None => None,
    }
}

fn find_previous(c: &DropContext, field_name: &str, at: Moment, exclude: &str) -> (r: Option<String>)
    ensures
        text::opt_text(r) == previous_on(*c, field_name@, at, exclude@),
{
    match latest_match_before(
        c.matches,
        field_name,
        at,
        exclude,
        c.show_as_happened,
        c.tz_offset_minutes,
    ) {
        Some((id, _, _)) => Some(id),
        None => None,
    }
}

/// What the release of a drag on empty space asks for.
pub open spec fn is_created(
    p: DragCreatePayload,
    c: DropContext,
    col: int,
    anchor_min: int,
    cur_min: int,
) -> bool {
    let start = if anchor_min < cur_min {
        anchor_min
    } else {
        cur_min
    };
    let extent = if anchor_min < cur_min {
        cur_min - anchor_min
    } else {
        anchor_min - cur_min
    };
    &&& p.field_name@ == c.columns@[col].name@
    &&& p.start_local == day_moment(c.day_shown as int, start)
    &&& match p.length_min {
        None => extent == 0,
        Some(n) => extent > 0 && n == (if extent < 10 {
            10
        } else {
            extent
        }),
    }
    &&& text::opt_text(p.prev_match_id) == previous_on(c, p.field_name@, p.start_local, Seq::empty())
}

/// What the release of a moved block asks for.
pub open spec fn is_move(
    p: MoveCommitPayload,
    c: DropContext,
    id: Seq<char>,
    schedule_type: Seq<char>,
    name: Seq<char>,
    col: int,
    start_min: int,
) -> bool {
    let start_local = day_moment(c.day_shown as int, start_min);
    let field_name = c.columns@[col].name@;
    &&& p.match_id@ == id
    &&& p.schedule_type@ == schedule_type
    &&& p.group_name@ == name
    &&& text::opt_text(p.new_field) == Some(field_name)
    &&& if has_fixed_start(schedule_type) {
        text::opt_text(p.new_start_utc) == clock::naive_written(
            moment::moved(start_local, -(c.tz_offset_minutes as int)),
            UTC_ISO@,
        ) && p.new_prev_id is None
    } else {
        p.new_start_utc is None && text::opt_text(p.new_prev_id) == previous_on(c, field_name, start_local, id)
    }
}

/// A moved block that is released where it was picked up counts as clicked.
pub open spec fn is_plain_click(d: TimelineDrag) -> bool {
    match d {
        TimelineDrag::Create { .. } => false,
        TimelineDrag::Move { orig_col, orig_start_min, cur_col, cur_start_min, moved, .. } => !moved || (
        cur_col == orig_col && cur_start_min == orig_start_min),
    }
}

/// What the release of a drag asks for.
pub open spec fn is_outcome(r: DragOutcome, d: TimelineDrag, c: DropContext) -> bool {
    match d {
        TimelineDrag::Create { col, anchor_min, cur_min } => if col < c.columns@.len() {
            r matches DragOutcome::Created(p) && is_created(
                p,
                c,
                col as int,
                anchor_min as int,
                cur_min as int,
            )
        } else {
            r is Nothing
        },
        TimelineDrag::Move { id, schedule_type, name, cur_col, cur_start_min, .. } => if !is_plain_click(
            d,
        ) && cur_col < c.columns@.len() {
            r matches DragOutcome::Moved(p) && is_move(
                p,
                c,
                id@,
                schedule_type@,
                name@,
                cur_col as int,
                cur_start_min as int,
            )
        } else {
            r is Nothing
        },
    }
}

/// The drag that begins on empty space under the pointer.
pub open spec fn create_begun(pos: GridPos) -> TimelineDrag {
    let start = snapped(pos.minute as int) as i64;
    TimelineDrag::Create { col: pos.col, anchor_min: start, cur_min: start }
}

/// The drag of a block that begins under the pointer.
pub open spec fn is_picked_up(d: TimelineDrag, picked: Seq<char>, info: BlockInfo, pos: GridPos) -> bool {
    d matches TimelineDrag::Move {
        id,
        schedule_type,
        name,
        duration_min,
        grab_offset_min,
        orig_col,
        orig_start_min,
        cur_col,
        cur_start_min,
        moved,
    } && id@ == picked && schedule_type@ == info.schedule_type@ && name@ == info.name@ && duration_min
        == info.duration_min && grab_offset_min == pos.minute - info.start_min && orig_col == info.col
        && orig_start_min == info.start_min && cur_col == info.col && cur_start_min == info.start_min && !moved
}

/// What an optional drag is after the pointer moved.
pub open spec fn opt_dragged(d: Option<TimelineDrag>, pos: Option<GridPos>) -> Option<TimelineDrag> {
    match (d, pos) {
        (Some(s), Some(p)) => Some(dragged(s, p)),
        (Some(s), None) => Some(s),
        (None, _) => None,
    }
}

impl DragSession {
    /// The drag in flight, if any, is in bounds.
    pub open spec fn well_formed(self) -> bool {
        self.drag matches Some(d) ==> drag_in_bounds(d)
    }

    /// No drag in flight.
    pub fn new() -> (r: DragSession)
        ensures
            r.well_formed(),
            r.drag is None,
            !r.suppress_next_click,
    {
        DragSession { drag: None, suppress_next_click: false }
    }

    /// The pointer goes down on empty space: a drag that creates begins at the snapped minute. Only
    /// a mouse in the editor begins one, and not while lengths are being selected or a drag is in
    /// flight. A press also ends the swallowing of a click that never came.
    pub fn grid_pointer_down(
        &mut self,
        editor: bool,
        bulk_select_active: bool,
        is_mouse: bool,
        pos: Option<GridPos>,
    )
        requires
            old(self).well_formed(),
        ensures
            final(self).well_formed(),
            ({
                let ready = editor && !bulk_select_active && is_mouse && old(self).drag is None;
                &&& final(self).suppress_next_click == (old(self).suppress_next_click && !ready)
                &&& final(self).drag == (if ready && pos is Some {
                    Some(create_begun(pos->0))
                } else {
                    old(self).drag
                })
            }),
    {
        if !editor || bulk_select_active || !is_mouse || self.drag.is_some() {
            return;
        }
        self.suppress_next_click = false;
        match pos {
            Some(p) => {
                let start = snap5(p.minute as i64);
                self.drag = Some(
                    TimelineDrag::Create { col: p.col, anchor_min: start, cur_min: start },
                );
            },
            None => {},
        }
    }

    /// The pointer goes down on a block: a drag that moves it begins, unless the block is a join or
    /// cannot be dragged, or the pointer is off the grid.
    pub fn block_pointer_down(
        &mut self,
        editor: bool,
        bulk_select_active: bool,
        id: &str,
        info: Option<BlockInfo>,
        pos: Option<GridPos>,
    )
        requires
            old(self).well_formed(),
            info matches Some(b) ==> 0 <= b.start_min < 1440 && 1 <= b.duration_min && small(
                b.duration_min as int,
            ),
        ensures
            final(self).well_formed(),
            ({
                let ready = editor && !bulk_select_active;
                &&& final(self).suppress_next_click == (old(self).suppress_next_click && !ready)
                &&& if ready && pos is Some && info is Some && info->0.schedule_type@ != "JOIN"@ {
                    final(self).drag matches Some(d) && is_picked_up(d, id@, info->0, pos->0)
                } else {
                    final(self).drag == old(self).drag
                }
            }),
    {
        if !editor || bulk_select_active {
            return;
        }
        self.suppress_next_click = false;
        match (info, pos) {
            (Some(b), Some(p)) => {
                if str_eq(b.schedule_type.as_str(), "JOIN") {
                    return;
                }
                self.drag = Some(
                    TimelineDrag::Move {
                        id: id.to_owned(),
                        schedule_type: b.schedule_type,
                        name: b.name,
                        duration_min: b.duration_min,
                        grab_offset_min: p.minute as i64 - b.start_min,
                        orig_col: b.col,
                        orig_start_min: b.start_min,
                        cur_col: b.col,
                        cur_start_min: b.start_min,
                        moved: false,
                    },
                );
            },
            _ => {},
        }
    }

    /// The pointer moves: the drag in flight follows it. Off the grid it stays where it is.
    pub fn pointer_move(&mut self, editor: bool, pos: Option<GridPos>)
        requires
            old(self).well_formed(),
        ensures
            final(self).well_formed(),
            final(self).suppress_next_click == old(self).suppress_next_click,
            final(self).drag == (if editor {
                opt_dragged(old(self).drag, pos)
            } else {
                old(self).drag
            }),
    {
        if !editor {
            return;
        }
        let p = match pos {
            Some(p) => p,
            None => {
                return;
            },
        };
        let was = self.drag.take();
        match was {
            Some(TimelineDrag::Create { col, anchor_min, cur_min: _ }) => {
                self.drag = Some(
                    TimelineDrag::Create { col, anchor_min, cur_min: snap5(p.minute as i64) },
                );
            },
            Some(
                TimelineDrag::Move {
                    id,
                    schedule_type,
                    name,
                    duration_min,
                    grab_offset_min,
                    orig_col,
                    orig_start_min,
                    cur_col: _,
                    cur_start_min: _,
                    moved,
                },
            ) => {
                let snap = snap5(p.minute as i64 - grab_offset_min);
                let room: i64 = DAY_MINUTES - (if duration_min < DAY_MINUTES {
                    duration_min
                } else {
                    DAY_MINUTES
                });
                let start: i64 = if snap > room {
                    room
                } else {
                    snap
                };
                self.drag = Some(
                    TimelineDrag::Move {
                        id,
                        schedule_type,
                        name,
                        duration_min,
                        grab_offset_min,
                        orig_col,
                        orig_start_min,
                        cur_col: p.col,
                        cur_start_min: start,
                        moved: moved || start != orig_start_min || p.col != orig_col,
                    },
                );
            },
            None => {},
        }
    }

    /// The pointer is released: the drag ends, and asks for what it stands for. A block that was
    /// moved swallows the click that follows.
    pub fn pointer_up(&mut self, c: &DropContext) -> (r: DragOutcome)
        requires
            old(self).well_formed(),
            days::day_in_reach(c.day_shown),
        ensures
            final(self).well_formed(),
            final(self).drag is None,
            match old(self).drag {
                None => r is Nothing && final(self).suppress_next_click == old(
                    self,
                ).suppress_next_click,
                Some(d) => is_outcome(r, d, *c) && final(self).suppress_next_click == (old(
                    self,
                ).suppress_next_click || (d is Move && !is_plain_click(d))),
            },
    {
        let was = self.drag.take();
        match was {
            None => DragOutcome::Nothing,
            Some(TimelineDrag::Create { col, anchor_min, cur_min }) => {
                if col >= c.columns.len() {
                    return DragOutcome::Nothing;
                }
                let (start, extent): (i64, i64) = if anchor_min < cur_min {
                    (anchor_min, cur_min - anchor_min)
                } else {
                    (cur_min, anchor_min - cur_min)
                };
                let field_name = c.columns[col].name.clone();
                let start_local = moment_on_day(c.day_shown, start);
                let length_min: Option<u32> = if extent == 0 {
                    None
                } else if extent < 10 {
                    Some(10)
                } else {
                    Some(extent as u32)
                };
                proof {
                    reveal_strlit("");
                    assert(""@ =~= Seq::<char>::empty());
                }
                let prev_match_id = find_previous(c, field_name.as_str(), start_local, "");
                DragOutcome::Created(
                    DragCreatePayload { field_name, start_local, length_min, prev_match_id },
                )
            },
            Some(
                TimelineDrag::Move {
                    id,
                    schedule_type,
                    name,
                    duration_min: _,
                    grab_offset_min: _,
                    orig_col,
                    orig_start_min,
                    cur_col,
                    cur_start_min,
                    moved,
                },
            ) => {
                if !moved || (cur_col == orig_col && cur_start_min == orig_start_min) {
                    return DragOutcome::Nothing;
                }
                self.suppress_next_click = true;
                if cur_col >= c.columns.len() {
                    return DragOutcome::Nothing;
                }
                let field_name = c.columns[cur_col].name.clone();
                let start_local = moment_on_day(c.day_shown, cur_start_min);
                if is_fixed_start(schedule_type.as_str()) {
                    let start_utc = plus_minutes(start_local, -(c.tz_offset_minutes as i64));
                    let new_start_utc = write_moment(start_utc, UTC_ISO);
                    DragOutcome::Moved(
                        MoveCommitPayload {
                            match_id: id,
                            schedule_type,
                            group_name: name,
                            new_field: Some(field_name),
                            new_start_utc,
                            new_prev_id: None,
                        },
                    )
                } else {
                    let new_prev_id = find_previous(c, field_name.as_str(), start_local, id.as_str());
                    DragOutcome::Moved(
                        MoveCommitPayload {
                            match_id: id,
                            schedule_type,
                            group_name: name,
                            new_field: Some(field_name),
                            new_start_utc: None,
                            new_prev_id,
                        },
                    )
                }
            },
        }
    }

    /// The pointer leaves the grid or is taken away: the drag ends and asks for nothing.
    pub fn pointer_cancel(&mut self)
        ensures
            final(self).well_formed(),
            final(self).drag is None,
            final(self).suppress_next_click == old(self).suppress_next_click,
    {
        self.drag = None;
    }

    /// A block is clicked: whether the click counts. The one after a move does not, and only that one.
    pub fn click_counts(&mut self) -> (r: bool)
        ensures
            r == !old(self).suppress_next_click,
            !final(self).suppress_next_click,
            final(self).drag == old(self).drag,
    {
        let swallow = self.suppress_next_click;
        self.suppress_next_click = false;
        !swallow
    }
}

// ---------------------------------------------------------------------------
// Ghosts
// ---------------------------------------------------------------------------

/// The ghost of a drag in flight.
#[derive(Clone, Debug)]
pub struct DragGhost {
    pub col: usize,
    pub start_min: i64,
    pub duration_min: i64,
    pub title: String,
    pub sub_label: String,
    /// The block cannot be dropped here.
    pub blocked: bool,
    /// Where a block that follows another would be attached.
    pub gap_line: Option<(usize, i64)>,
}

/// The name of a column; empty where there is none.
pub open spec fn column_name(columns: Seq<Column>, col: int) -> Seq<char> {
    if 0 <= col < columns.len() {
        columns[col].name@
    } else {
        Seq::empty()
    }
}

/// The minute at which a moment lies on a day: zero on any other day.
pub open spec fn minute_on_day(day: int, t: Moment) -> int {
    if moment::day_of(t) == day {
        clamped(moment::seconds_between(t, day_moment(day, 0)) / 60, 0, 1440)
    } else {
        0
    }
}

/// The ghost of a block that follows another: after the match that was found before it, of which
/// name and end are given, or blocked where there is none.
pub open spec fn is_ghost_after(
    g: DragGhost,
    previous: Option<(Seq<char>, Moment)>,
    field_name: Seq<char>,
    day: int,
    duration_min: i64,
    col: usize,
    start_min: i64,
) -> bool {
    &&& g.col == col
    &&& g.duration_min == duration_min
    &&& g.sub_label@ == field_name
    &&& match previous {
        Some((name, end)) => {
            &&& g.start_min == minute_on_day(day, end)
            &&& g.title@ == "after: "@ + name
            &&& !g.blocked
            &&& g.gap_line == (if moment::day_of(end) == day {
                Some((col, g.start_min))
            } else {
                None
            })
        },
        None => g.start_min == start_min && g.title@ == "needs a previous match"@ && g.blocked
            && g.gap_line is None,
    }
}

/// Name and end of the match that a block would follow.
pub open spec fn followed_match(
    c: DropContext,
    field_name: Seq<char>,
    at: Moment,
    exclude: Seq<char>,
) -> Option<(Seq<char>, Moment)> {
    match schedule_time::latest_before(
        c.matches@,
        field_name,
        at,
        exclude,
        c.show_as_happened,
        c.tz_offset_minutes as int,
    ) {
        Some(i) => Some(
            (
                c.matches@[i].name@,
                schedule_time::shown_end(c.matches@[i], c.show_as_happened, c.tz_offset_minutes as int),
            ),
        ),
        None => None,
    }
}

/// The ghost of a block that follows another: after the match it would come after, or blocked where
/// there is none.
pub open spec fn follows_previous(
    g: DragGhost,
    c: DropContext,
    id: Seq<char>,
    duration_min: i64,
    col: usize,
    start_min: i64,
) -> bool {
    let field_name = column_name(c.columns@, col as int);
    let at = day_moment(c.day_shown as int, start_min as int);
    is_ghost_after(
        g,
        followed_match(c, field_name, at, id),
        field_name,
        c.day_shown as int,
        duration_min,
        col,
        start_min,
    )
}

/// The ghost that a drag in flight has.
pub open spec fn is_ghost(g: Option<DragGhost>, d: TimelineDrag, c: DropContext) -> bool {
    match d {
        TimelineDrag::Create { col, anchor_min, cur_min } => {
            let start = if anchor_min < cur_min {
                anchor_min
            } else {
                cur_min
            };
            let extent = if anchor_min < cur_min {
                cur_min - anchor_min
            } else {
                anchor_min - cur_min
            };
            let length = if extent < 10 {
                10
            } else {
                extent
            };
            g matches Some(x) && x.col == col && x.start_min == start && x.duration_min == length
                && x.title@ == range_text(start as int, start + length) && x.sub_label@ == "new match"@
                && !x.blocked && x.gap_line is None
        },
        TimelineDrag::Move { id, schedule_type, duration_min, cur_col, cur_start_min, moved, .. } => if !moved {
            g is None
        } else if has_fixed_start(schedule_type@) {
            g matches Some(x) && x.col == cur_col && x.start_min == cur_start_min && x.duration_min
                == duration_min && x.title@ == range_text(
                cur_start_min as int,
                cur_start_min + duration_min,
            ) && x.sub_label@ == column_name(c.columns@, cur_col as int) && !x.blocked
                && x.gap_line is None
        } else {
            g matches Some(x) && follows_previous(x, c, id@, duration_min, cur_col, cur_start_min)
        },
    }
}

/// Name and end of a match, as texts have views.
pub open spec fn named_end(previous: Option<(String, Moment)>) -> Option<(Seq<char>, Moment)> {
    match previous {
        Some((name, end)) => Some((name@, end)),
        None => None,
    }
}

/// The ghost of a block that snaps to the gap after the match that was found before it.
pub fn ghost_after(
    previous: Option<(String, Moment)>,
    field_name: String,
    day_shown: i64,
    duration_min: i64,
    col: usize,
    start_min: i64,
) -> (r: DragGhost)
    requires
        days::day_in_reach(day_shown),
        previous matches Some(x) ==> moment::ordinary(x.1),
    ensures
        is_ghost_after(
            r,
            named_end(previous),
            field_name@,
            day_shown as int,
            duration_min,
            col,
            start_min,
        ),
{
    match previous {
        Some((name, end)) => {
            let same_day = day(end) == day_shown;
            let snap_min: i64 = if same_day {
                let since = minutes_from(end, moment_on_day(day_shown, 0));
                if since < 0 {
                    0
                } else if since > DAY_MINUTES {
                    DAY_MINUTES
                } else {
                    since
                }
            } else {
                0
            };
            DragGhost {
                col,
                start_min: snap_min,
                duration_min,
                title: concat("after: ", name.as_str()),
                sub_label: field_name,
                blocked: false,
                gap_line: if same_day {
                    Some((col, snap_min))
                } else {
                    None
                },
            }
        },
        None => DragGhost {
            col,
            start_min,
            duration_min,
            title: "needs a previous match".to_owned(),
            sub_label: field_name,
            blocked: true,
            gap_line: None,
        },
    }
}

/// The ghost of a drag in flight. A block with a start of its own is placed freely; any other snaps
/// to the gap after the match it would follow.
pub fn drag_ghost(d: &TimelineDrag, c: &DropContext) -> (r: Option<DragGhost>)
    requires
        drag_in_bounds(*d),
        days::day_in_reach(c.day_shown),
    ensures
        is_ghost(r, *d, *c),
{
    match d {
        TimelineDrag::Create { col, anchor_min, cur_min } => {
            let (start, extent): (i64, i64) = if *anchor_min < *cur_min {
                (*anchor_min, *cur_min - *anchor_min)
            } else {
                (*cur_min, *anchor_min - *cur_min)
            };
            let length: i64 = if extent < 10 {
                10
            } else {
                extent
            };
            Some(
                DragGhost {
                    col: *col,
                    start_min: start,
                    duration_min: length,
                    title: range_string(start, start + length),
                    sub_label: "new match".to_owned(),
                    blocked: false,
                    gap_line: None,
                },
            )
        },
        TimelineDrag::Move {
            id,
            schedule_type,
            name: _,
            duration_min,
            grab_offset_min: _,
            orig_col: _,
            orig_start_min: _,
            cur_col,
            cur_start_min,
            moved,
        } => {
            if !*moved {
                return None;
            }
            let field_name = if *cur_col < c.columns.len() {
                c.columns[*cur_col].name.clone()
            } else {
                or_empty(None).to_owned()
            };
            if is_fixed_start(schedule_type.as_str()) {
                return Some(
                    DragGhost {
                        col: *cur_col,
                        start_min: *cur_start_min,
                        duration_min: *duration_min,
                        title: range_string(*cur_start_min, *cur_start_min + *duration_min),
                        sub_label: field_name,
                        blocked: false,
                        gap_line: None,
                    },
                );
            }
            let at = moment_on_day(c.day_shown, *cur_start_min);
            let previous = match latest_match_before(
                c.matches,
                field_name.as_str(),
                at,
                id.as_str(),
                c.show_as_happened,
                c.tz_offset_minutes,
            ) {
                Some((_, name, end)) => Some((name, end)),
                None => None,
            };
            Some(
                ghost_after(
                    previous,
                    field_name,
                    c.day_shown,
                    *duration_min,
                    *cur_col,
                    *cur_start_min,
                ),
            )
        },
    }
}

/// The placeholder of a form that is open: where the new item will land.
#[derive(Clone, Debug, PartialEq)]
pub struct PendingCreateGhost {
    pub field_names: Vec<String>,
    pub start_local: Moment,
    pub length_min: i64,
    /// A join is a thin line, not a block.
    pub is_join: bool,
}

/// A placeholder block: its column, start and length, its texts, and whether it is thin.
#[derive(Clone, Debug)]
pub struct PendingBlock {
    pub col: usize,
    pub start_min: i64,
    pub duration_min: i64,
    pub title: String,
    pub sub_label: String,
    pub is_join: bool,
}

/// A column of the list has a name.
pub open spec fn column_named(columns: Seq<Column>, name: Seq<char>) -> spec_fn(int) -> bool {
    |i: int| columns[i].name@ == name
}

/// The first column with a name.
pub open spec fn named_column(columns: Seq<Column>, name: Seq<char>) -> Option<int> {
    order::first_where(columns.len(), column_named(columns, name))
}

/// The first column with a name.
pub fn find_named_column(columns: &[Column], name: &str) -> (r: Option<usize>)
    ensures
        match named_column(columns@, name@) {
            Some(i) => r is Some && r->0 == i && 0 <= i < columns@.len(),
            None => r is None,
        },
{
    let ghost p = column_named(columns@, name@);
    let mut i: usize = 0;
    while i < columns.len()
        invariant
            i <= columns@.len(),
            p == column_named(columns@, name@),
            order::first_where(i as nat, p) is None,
        decreases columns@.len() - i,
    {
        if str_eq(columns[i].name.as_str(), name) {
            proof {
                assert(p(i as int));
                assert(order::first_where((i + 1) as nat, p) == Some(i as int));
                order::lemma_first_where_stays((i + 1) as nat, columns@.len(), p);
            }
            return Some(i);
        }
        assert(!p(i as int));
        i = i + 1;
    }
    None
}

/// A field of a placeholder has a column.
pub open spec fn pending_at(g: PendingCreateGhost, columns: Seq<Column>) -> spec_fn(int) -> bool {
    |i: int| named_column(columns, g.field_names@[i]@) is Some
}

/// The fields of a placeholder that have columns.
pub open spec fn pending_fields(g: PendingCreateGhost, columns: Seq<Column>) -> Seq<int> {
    order::kept(g.field_names@.len(), pending_at(g, columns))
}

/// A placeholder block of a field.
pub open spec fn is_pending_block(
    b: PendingBlock,
    g: PendingCreateGhost,
    columns: Seq<Column>,
    field: int,
) -> bool {
    let start = moment::minute_of_day(g.start_local);
    let length = if g.length_min < 10 {
        10
    } else {
        g.length_min as int
    };
    &&& b.col == named_column(columns, g.field_names@[field]@)->0
    &&& b.start_min == start
    &&& b.duration_min == length
    &&& b.is_join == g.is_join
    &&& b.title@ == (if g.is_join {
        minutes_text(start)
    } else {
        range_text(start, start + length)
    })
    &&& b.sub_label@ == (if g.is_join {
        "new join"@
    } else {
        "new match"@
    })
}

/// The placeholders of an open form: one per field that has a column, on the day of its start only.
pub fn pending_blocks(g: &PendingCreateGhost, columns: &[Column], day_shown: i64) -> (r: Vec<PendingBlock>)
    requires
        small(g.length_min as int),
    ensures
        moment::day_of(g.start_local) != day_shown ==> r@.len() == 0,
        moment::day_of(g.start_local) == day_shown ==> r@.len() == pending_fields(*g, columns@).len() && forall|
            k: int,
        |
            0 <= k < r@.len() ==> is_pending_block(
                #[trigger] r@[k],
                *g,
                columns@,
                pending_fields(*g, columns@)[k],
            ),
{
    let mut out: Vec<PendingBlock> = Vec::new();
    if day(g.start_local) != day_shown {
        return out;
    }
    let start = minute(g.start_local) as i64;
    let length: i64 = if g.length_min < 10 {
        10
    } else {
        g.length_min
    };
    let ghost p = pending_at(*g, columns@);
    let mut i: usize = 0;
    while i < g.field_names.len()
        invariant
            i <= g.field_names@.len(),
            p == pending_at(*g, columns@),
            start == moment::minute_of_day(g.start_local),
            0 <= start < 1440,
            length == (if g.length_min < 10 {
                10
            } else {
                g.length_min as int
            }),
            small(g.length_min as int),
            out@.len() == order::kept(i as nat, p).len(),
            forall|k: int|
                0 <= k < out@.len() ==> is_pending_block(
                    #[trigger] out@[k],
                    *g,
                    columns@,
                    order::kept(i as nat, p)[k],
                ),
        decreases g.field_names@.len() - i,
    {
        let ghost was = out@;
        match find_named_column(columns, g.field_names[i].as_str()) {
            Some(col) => {
                let title = if g.is_join {
                    fmt_minutes(start)
                } else {
                    range_string(start, start + length)
                };
                let sub_label = if g.is_join {
                    "new join".to_owned()
                } else {
                    "new match".to_owned()
                };
                out.push(
                    PendingBlock {
                        col,
                        start_min: start,
                        duration_min: length,
                        title,
                        sub_label,
                        is_join: g.is_join,
                    },
                );
                proof {
                    assert(p(i as int));
                    assert forall|k: int| 0 <= k < out@.len() implies is_pending_block(
                        #[trigger] out@[k],
                        *g,
                        columns@,
                        order::kept((i + 1) as nat, p)[k],
                    ) by {
                        if k < was.len() {
                            assert(out@[k] == was[k]);
                            assert(order::kept((i + 1) as nat, p)[k] == order::kept(i as nat, p)[k]);
                        }
                    }
                }
            },
            None => {
                assert(!p(i as int));
            },
        }
        i = i + 1;
    }
    out
}

// ---------------------------------------------------------------------------
// What gestures are for
// ---------------------------------------------------------------------------

/// A minute of a day is a moment of that day, at that minute.
pub proof fn law_minute_of_a_day(day: int, min: int)
    requires
        -120_000_000 <= day <= 120_000_000,
        0 <= min < 1440,
    ensures
        moment::day_of(day_moment(day, min)) == day,
        moment::minute_of_day(day_moment(day, min)) == min,
        day_moment(day, min).nanos == 0,
{
    assert((day * 86_400 + min * 60) / 86_400 == day) by (nonlinear_arith)
        requires
            0 <= min < 1440,
    ;
    assert((day * 86_400 + min * 60) % 86_400 == min * 60) by (nonlinear_arith)
        requires
            0 <= min < 1440,
    ;
}

/// It does not matter from which end a new match is drawn: the field, the start, the length and the
/// previous match are the same.
pub proof fn law_direction_of_a_drag_does_not_matter(
    p: DragCreatePayload,
    q: DragCreatePayload,
    c: DropContext,
    col: int,
    a: int,
    b: int,
)
    requires
        is_created(p, c, col, a, b),
        is_created(q, c, col, b, a),
    ensures
        p.field_name@ == q.field_name@,
        p.start_local == q.start_local,
        p.length_min == q.length_min,
        text::opt_text(p.prev_match_id) == text::opt_text(q.prev_match_id),
{
}

/// A match that is drawn starts at the earlier of the two minutes of the drag, and no later than
/// either; drawn over ten minutes or more it ends at the later one, and drawn over less it lasts ten
/// minutes. A click draws no length.
pub proof fn law_created_match_spans_the_drag(p: DragCreatePayload, c: DropContext, col: int, a: int, b: int)
    requires
        is_created(p, c, col, a, b),
        days::day_in_reach(c.day_shown),
        0 <= a <= 1440,
        0 <= b <= 1440,
    ensures
        p.field_name@ == c.columns@[col].name@,
        p.start_local.nanos == 0,
        p.start_local.secs <= c.day_shown * 86_400 + a * 60,
        p.start_local.secs <= c.day_shown * 86_400 + b * 60,
        p.start_local.secs == c.day_shown * 86_400 + a * 60 || p.start_local.secs == c.day_shown * 86_400 + b
            * 60,
        p.length_min is None <==> a == b,
        p.length_min matches Some(n) ==> {
            let end = p.start_local.secs + n * 60;
            &&& end >= c.day_shown * 86_400 + a * 60
            &&& end >= c.day_shown * 86_400 + b * 60
            &&& n == 10 || end == c.day_shown * 86_400 + a * 60 || end == c.day_shown * 86_400 + b * 60
            &&& n == 10 ==> -10 <= b - a <= 10
            &&& n >= 10
        },
{
}

/// What is shown while a new match is drawn is what is made when the pointer is released.
pub proof fn law_created_match_is_where_its_ghost_is(
    g: DragGhost,
    p: DragCreatePayload,
    c: DropContext,
    col: usize,
    a: i64,
    b: i64,
)
    requires
        is_ghost(Some(g), TimelineDrag::Create { col, anchor_min: a, cur_min: b }, c),
        is_created(p, c, col as int, a as int, b as int),
        days::day_in_reach(c.day_shown),
        0 <= a <= 1440,
        0 <= b <= 1440,
    ensures
        c.columns@[g.col as int].name@ == p.field_name@,
        p.start_local.secs == c.day_shown * 86_400 + g.start_min * 60,
        p.length_min matches Some(n) ==> n == g.duration_min,
        g.start_min <= a && g.start_min <= b,
        g.start_min + g.duration_min >= a && g.start_min + g.duration_min >= b,
        !g.blocked,
{
}

/// A press begins a drag in the column under the pointer, at most two minutes off, and a release at the
/// same place draws no length.
pub proof fn law_press_begins_under_the_pointer(pos: GridPos, p: DragCreatePayload, c: DropContext)
    requires
        pos.minute <= 1440,
        pos.col < c.columns@.len(),
        is_outcome(DragOutcome::Created(p), create_begun(pos), c),
        days::day_in_reach(c.day_shown),
    ensures
        p.field_name@ == c.columns@[pos.col as int].name@,
        p.length_min is None,
        -120 <= p.start_local.secs - (c.day_shown * 86_400 + pos.minute * 60) <= 120,
{
    law_snapped(pos.minute as int);
}

/// From press to release, a new match spans the places of both, to the two minutes that snapping
/// allows.
pub proof fn law_drawn_from_press_to_release(from: GridPos, to: GridPos)
    requires
        from.minute <= 1440,
        to.minute <= 1440,
    ensures
        dragged(create_begun(from), to) matches TimelineDrag::Create { col, anchor_min, cur_min } && col == from.col
            && -2 <= anchor_min - from.minute <= 2 && -2 <= cur_min - to.minute <= 2 && anchor_min % 5 == 0 && cur_min
            % 5 == 0,
{
    law_snapped(from.minute as int);
    law_snapped(to.minute as int);
}

/// A block that is picked up stands where it was, is not moved yet, and clicking it moves nothing.
pub proof fn law_picked_up_block_stands_where_it_was(
    d: TimelineDrag,
    picked: Seq<char>,
    info: BlockInfo,
    pos: GridPos,
    c: DropContext,
)
    requires
        is_picked_up(d, picked, info, pos),
    ensures
        is_plain_click(d),
        is_outcome(DragOutcome::Nothing, d, c),
        is_ghost(None, d, c),
        d matches TimelineDrag::Move { cur_col, cur_start_min, orig_col, orig_start_min, .. } && cur_col == info.col
            && cur_start_min == info.start_min && orig_col == info.col && orig_start_min == info.start_min,
{
}

/// A block that is picked up and dragged goes to the column under the pointer, and as many minutes up
/// or down as the pointer, as far as the day leaves room and to the two minutes that snapping allows.
pub proof fn law_block_goes_where_the_pointer_goes(
    d: TimelineDrag,
    picked: Seq<char>,
    info: BlockInfo,
    from: GridPos,
    to: GridPos,
)
    requires
        is_picked_up(d, picked, info, from),
        from.minute <= 1440,
        to.minute <= 1440,
        0 <= info.start_min < 1440,
        1 <= info.duration_min,
    ensures
        dragged(d, to) matches TimelineDrag::Move {
            id,
            schedule_type,
            name,
            duration_min,
            orig_col,
            orig_start_min,
            cur_col,
            cur_start_min,
            moved,
            ..
        } && id@ == picked && schedule_type@ == info.schedule_type@ && name@ == info.name@ && duration_min
            == info.duration_min && orig_col == info.col && orig_start_min == info.start_min && cur_col == to.col && ({
            let wanted = info.start_min + to.minute - from.minute;
            &&& 0 <= wanted && wanted + info.duration_min <= 1440 ==> -2 <= cur_start_min - wanted <= 2
            &&& wanted < 0 ==> cur_start_min == 0
            &&& wanted + info.duration_min > 1440 && info.duration_min <= 1440 ==> cur_start_min + info.duration_min >= 1438
            &&& moved <==> cur_col != info.col || cur_start_min != info.start_min
        }),
{
    let wanted = info.start_min + to.minute - from.minute;
    law_moved_block_stays_in_the_day(to.minute as int, from.minute - info.start_min, info.duration_min as int);
    if 0 <= wanted <= 1440 {
        law_snapped(wanted);
    }
}

/// Further down means no earlier: a dragged block keeps the order of the places of the pointer.
pub proof fn law_moved_start_follows_the_pointer(a: int, b: int, grab_offset_min: int, duration_min: int)
    requires
        a <= b,
        duration_min >= 1,
    ensures
        moved_start(a, grab_offset_min, duration_min) <= moved_start(b, grab_offset_min, duration_min),
        snapped(a) <= snapped(b),
{
}

/// A block with a start of its own is dropped where its ghost is: on that field, at that minute, in
/// local time.
pub proof fn law_fixed_block_is_dropped_where_its_ghost_is(
    g: DragGhost,
    p: MoveCommitPayload,
    d: TimelineDrag,
    c: DropContext,
)
    requires
        is_ghost(Some(g), d, c),
        is_outcome(DragOutcome::Moved(p), d, c),
        p.schedule_type@ == "STATIC"@ || p.schedule_type@ == "STATBREAK"@,
        days::day_in_reach(c.day_shown),
        drag_in_bounds(d),
    ensures
        g.col < c.columns@.len(),
        text::opt_text(p.new_field) == Some(c.columns@[g.col as int].name@),
        p.new_prev_id is None,
        text::opt_text(p.new_start_utc) == clock::naive_written(
            (Moment {
                secs: (c.day_shown * 86_400 + g.start_min * 60 - c.tz_offset_minutes * 60) as i64,
                nanos: 0,
            }),
            UTC_ISO@,
        ),
        d matches TimelineDrag::Move { id, name, duration_min, .. } && p.match_id@ == id@ && p.group_name@ == name@
            && g.duration_min == duration_min,
        !g.blocked,
{
}

/// A block that follows another is dropped after the match that its ghost names, on the field of its
/// ghost; where the ghost is blocked there is no match to follow. It never follows itself.
pub proof fn law_following_block_is_dropped_after_the_match_named(
    g: DragGhost,
    p: MoveCommitPayload,
    d: TimelineDrag,
    c: DropContext,
)
    requires
        is_ghost(Some(g), d, c),
        is_outcome(DragOutcome::Moved(p), d, c),
        p.schedule_type@ != "STATIC"@ && p.schedule_type@ != "STATBREAK"@,
    ensures
        g.col < c.columns@.len(),
        text::opt_text(p.new_field) == Some(c.columns@[g.col as int].name@),
        p.new_start_utc is None,
        g.blocked <==> p.new_prev_id is None,
        p.new_prev_id matches Some(previous) ==> exists|i: int|
            0 <= i < c.matches@.len() && (#[trigger] c.matches@[i]).uuid@ == previous@ && g.title@ == "after: "@
                + c.matches@[i].name@,
        d matches TimelineDrag::Move { id, .. } && p.match_id@ == id@ && (p.new_prev_id matches Some(previous)
            ==> previous@ != id@),
{
    match d {
        TimelineDrag::Move { id, cur_col, cur_start_min, .. } => {
            let at = day_moment(c.day_shown as int, cur_start_min as int);
            let name = c.columns@[cur_col as int].name@;
            let tz = c.tz_offset_minutes as int;
            schedule_time::law_latest_before(c.matches@, name, at, id@, c.show_as_happened, tz);
            match schedule_time::latest_before(c.matches@, name, at, id@, c.show_as_happened, tz) {
                Some(i) => {
                    assert(c.matches@[i].uuid@ == p.new_prev_id->0@);
                },
                None => {},
            }
        },
        TimelineDrag::Create { .. } => {},
    }
}

/// A minute of the day is written as the time of day that it is.
pub proof fn law_minutes_are_written_as_times(min: int)
    requires
        0 <= min < 1440,
    ensures
        minutes_text(min) == moment::clock_text(min),
{
    reveal_strlit(":");
    assert(":"@ =~= seq![':']);
}

/// A moment of the day shown lies at its minute of the day; one of another day at none.
pub proof fn law_minute_on_the_day_shown(day: int, t: Moment)
    requires
        -120_000_000 <= day <= 120_000_000,
        t.nanos < 1_000_000_000,
    ensures
        moment::day_of(t) == day ==> minute_on_day(day, t) == moment::minute_of_day(t),
        moment::day_of(t) != day ==> minute_on_day(day, t) == 0,
{
    if moment::day_of(t) == day {
        law_minute_of_a_day(day, 0);
        let r = t.secs as int % 86_400;
        assert(t.secs == day * 86_400 + r) by (nonlinear_arith)
            requires
                day == t.secs as int / 86_400,
                r == t.secs as int % 86_400,
        ;
        assert(moment::seconds_between(t, day_moment(day, 0)) == r);
    }
}

/// The column of a field is the last with its id, and the column of a name the first with that name;
/// a field or name without a column has none.
pub proof fn law_columns_are_found(columns: Seq<Column>, field_id: u32, name: Seq<char>)
    ensures
        match column_at(columns, field_id) {
            Some(i) => 0 <= i < columns.len() && columns[i].id == field_id && forall|j: int|
                i < j < columns.len() ==> (#[trigger] columns[j]).id != field_id,
            None => forall|j: int| 0 <= j < columns.len() ==> (#[trigger] columns[j]).id != field_id,
        },
        match named_column(columns, name) {
            Some(i) => 0 <= i < columns.len() && columns[i].name@ == name && forall|j: int|
                0 <= j < i ==> (#[trigger] columns[j]).name@ != name,
            None => forall|j: int| 0 <= j < columns.len() ==> (#[trigger] columns[j]).name@ != name,
        },
{
    let p = column_of(columns, field_id);
    order::lemma_last_where(columns.len(), p);
    assert forall|j: int| 0 <= j < columns.len() && !p(j) implies (#[trigger] columns[j]).id != field_id by {}
    let q = column_named(columns, name);
    order::lemma_first_where(columns.len(), q);
    assert forall|j: int| 0 <= j < columns.len() && !q(j) implies (#[trigger] columns[j]).name@ != name by {}
}

/// What is dragged is the block with the id that was pressed: on the day shown, in its field's column,
/// at its start and for its length.
pub proof fn law_dragged_block_is_the_one_pressed(
    events: Seq<TimelineEvent>,
    columns: Seq<Column>,
    day: i64,
    id: Seq<char>,
    b: BlockInfo,
)
    requires
        dragged_block(events, columns, day, id) is Some,
        is_info_of(b, events[dragged_block(events, columns, day, id)->0], columns),
    ensures
        exists|i: int|
            0 <= i < events.len() && (#[trigger] events[i]).id@ == id && moment::day_of(events[i].start_time) == day && b.name@
                == events[i].name@ && b.start_min == moment::minute_of_day(events[i].start_time) && b.duration_min
                == moment::length_minutes(events[i].start_time, events[i].end_time) && b.col < columns.len()
                && columns[b.col as int].id == events[i].field_id && (events[i].schedule_type matches Some(t)
                ==> b.schedule_type@ == t@) && (events[i].schedule_type is None ==> b.schedule_type@ == "STATIC"@),
{
    let p = draggable(events, columns, day, id);
    order::lemma_last_where(events.len(), p);
    let i = dragged_block(events, columns, day, id)->0;
    assert(p(i));
    law_columns_are_found(columns, events[i].field_id, Seq::empty());
}

/// An open form shows a placeholder in the column of each of its fields that has one, at its start and
/// for its length, at least ten minutes.
pub proof fn law_placeholders_stand_in_their_columns(
    b: PendingBlock,
    g: PendingCreateGhost,
    columns: Seq<Column>,
    k: int,
)
    requires
        0 <= k < pending_fields(g, columns).len(),
        is_pending_block(b, g, columns, pending_fields(g, columns)[k]),
    ensures
        b.col < columns.len(),
        exists|i: int|
            0 <= i < g.field_names@.len() && (#[trigger] g.field_names@[i])@ == columns[b.col as int].name@,
        b.start_min == moment::minute_of_day(g.start_local),
        b.duration_min >= 10 && (g.length_min >= 10 ==> b.duration_min == g.length_min),
        b.is_join == g.is_join,
{
    let p = pending_at(g, columns);
    order::lemma_kept(g.field_names@.len(), p);
    let field = pending_fields(g, columns)[k];
    assert(p(field));
    law_columns_are_found(columns, 0, g.field_names@[field]@);
    assert(g.field_names@[field]@ == columns[b.col as int].name@);
}

/// Every field of an open form that has a column has its placeholder.
pub proof fn law_every_field_has_its_placeholder(g: PendingCreateGhost, columns: Seq<Column>, i: int, j: int)
    requires
        0 <= i < g.field_names@.len(),
        0 <= j < columns.len(),
        columns[j].name@ == g.field_names@[i]@,
    ensures
        pending_fields(g, columns).contains(i),
{
    let p = pending_at(g, columns);
    order::lemma_kept(g.field_names@.len(), p);
    law_columns_are_found(columns, 0, g.field_names@[i]@);
    assert(p(i));
}

/// A drag follows the pointer while that is on the grid, and stays where it is while it is not.
pub proof fn law_drag_waits_for_the_pointer(d: TimelineDrag, pos: GridPos)
    ensures
        opt_dragged(Some(d), None) == Some(d),
        opt_dragged(Some(d), Some(pos)) == Some(dragged(d, pos)),
        opt_dragged(None, Some(pos)) is None,
{
}

/// A block with a start of its own shows where it would be dropped, and from when to when; one that is
/// not moved shows nothing.
pub proof fn law_ghost_tells_its_time(g: DragGhost, d: TimelineDrag, c: DropContext)
    requires
        is_ghost(Some(g), d, c),
        drag_in_bounds(d),
        0 <= g.start_min,
        g.start_min + g.duration_min < 1440,
    ensures
        d is Create || (d matches TimelineDrag::Move { schedule_type, .. } && (schedule_type@ == "STATIC"@
            || schedule_type@ == "STATBREAK"@)) ==> g.title@ == moment::clock_text(g.start_min as int) + " – "@ + moment::clock_text(
            g.start_min + g.duration_min,
        ) && g.gap_line is None,
        d matches TimelineDrag::Move { moved, cur_col, .. } ==> moved && g.col == cur_col,
{
    if d is Create || (d matches TimelineDrag::Move { schedule_type, .. } && has_fixed_start(schedule_type@)) {
        law_minutes_are_written_as_times(g.start_min as int);
        law_minutes_are_written_as_times(g.start_min + g.duration_min);
    }
}

} // verus!
