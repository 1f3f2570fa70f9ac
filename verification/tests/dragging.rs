use arctos::drag::{
    drag_block_info, drag_ghost, find_column, find_named_column, fmt_minutes, ghost_after, is_fixed_start,
    pending_blocks, snap5, DragOutcome, DragSession, DropContext, GridPos, PendingCreateGhost, TimelineDrag,
};
use arctos::moment::Moment;
use arctos::timeline::{timeline_events, Column, TimelineView};
use arctos::types::{FieldSetupData, MatchSetupData, TeamOption};

const DAY: i64 = 20_211;

fn blank(uuid: &str, name: &str) -> MatchSetupData {
    MatchSetupData {
        uuid: uuid.to_string(),
        name: name.to_string(),
        field: None,
        team1: None,
        team2: None,
        team1_initial: None,
        team2_initial: None,
        status: "NOT_STARTED".to_string(),
        scheduled_start_time: None,
        nominal_start_time: None,
        confirmed_start_time: None,
        completed_time: None,
        schedule_type: None,
        set_type: None,
        nominal_length: None,
        previous_match: None,
        next_match: None,
        refs: None,
        refs_initial: None,
        ribbon: false,
        skip_condition: None,
        nsets: None,
        stones_per_set: None,
        stones_remaining: None,
        match_winner: None,
    }
}

fn s(t: &str) -> Option<String> {
    Some(t.to_string())
}

fn view<'a>(
    fields: &'a [FieldSetupData],
    options: &'a [TeamOption],
    labels: &'a [String],
    selected: &'a str,
    focus: &'a str,
) -> TimelineView<'a> {
    TimelineView {
        fields,
        team_options: options,
        short_labels: labels,
        selected_field: selected,
        highlight_team: "",
        focus_team_id: focus,
        show_as_happened: false,
        editor: false,
        tz_offset_minutes: 0,
    }
}

fn fields() -> Vec<FieldSetupData> {
    vec![
        FieldSetupData { id: 7, name: "F1".to_string(), camera_urls: vec![] },
        FieldSetupData { id: 8, name: "F2".to_string(), camera_urls: vec![] },
    ]
}

fn game(uuid: &str, field: &str, start: &str, length: u32) -> MatchSetupData {
    let mut m = blank(uuid, uuid);
    m.field = s(field);
    m.nominal_start_time = Some(format!("2025-05-03T{start}:00Z"));
    m.nominal_length = Some(length);
    m.schedule_type = s("STATIC");
    m
}

fn columns() -> Vec<Column> {
    vec![Column { id: 7, name: "F1".to_string() }, Column { id: 8, name: "F2".to_string() }]
}

fn at(min: i64) -> Moment {
    Moment { secs: DAY * 86_400 + min * 60, nanos: 0 }
}

fn pos(col: usize, minute: u32) -> Option<GridPos> {
    Some(GridPos { col, minute })
}

fn context<'a>(matches: &'a [MatchSetupData], columns: &'a [Column], tz: i16) -> DropContext<'a> {
    DropContext { matches, columns, day_shown: DAY, show_as_happened: false, tz_offset_minutes: tz }
}

#[test]
fn snapping_to_five_minutes() {
    for min in -20..1500i64 {
        let float = (((min as f64) / 5.0).round() as i64 * 5).clamp(0, 24 * 60);
        assert_eq!(snap5(min), float, "{min}");
        assert_eq!(snap5(snap5(min)), snap5(min));
    }
    assert_eq!((snap5(i64::MIN), snap5(i64::MAX)), (0, 1440));
}

#[test]
fn minutes_are_written() {
    for min in -200..3000i64 {
        assert_eq!(fmt_minutes(min), format!("{:02}:{:02}", (min / 60).clamp(0, 23), min % 60), "{min}");
    }
    assert_eq!(fmt_minutes(1440), "23:00");
    assert_eq!(fmt_minutes(605), "10:05");
}

#[test]
fn a_drag_on_empty_space_creates() {
    let all = vec![game("a", "F1", "09:00", 30), game("b", "F2", "09:30", 30)];
    let cols = columns();
    let mut d = DragSession::new();
    d.grid_pointer_down(true, false, true, pos(0, 602));
    d.pointer_move(true, pos(1, 578));
    match &d.drag {
        Some(TimelineDrag::Create { col, anchor_min, cur_min }) => {
            assert_eq!((*col, *anchor_min, *cur_min), (0, 600, 580))
        }
        other => panic!("{other:?}"),
    }
    let ghost = drag_ghost(d.drag.as_ref().unwrap(), &context(&all, &cols, 0)).unwrap();
    assert_eq!((ghost.col, ghost.start_min, ghost.duration_min), (0, 580, 20));
    assert_eq!((ghost.title.as_str(), ghost.sub_label.as_str()), ("09:40 – 10:00", "new match"));
    match d.pointer_up(&context(&all, &cols, 0)) {
        DragOutcome::Created(p) => {
            assert_eq!((p.field_name.as_str(), p.start_local, p.length_min), ("F1", at(580), Some(20)));
            assert_eq!(p.prev_match_id.as_deref(), Some("a"));
        }
        other => panic!("{other:?}"),
    }
    assert!(d.drag.is_none() && !d.suppress_next_click);
}

#[test]
fn a_plain_click_takes_the_default_length_and_a_short_drag_ten_minutes() {
    let cols = columns();
    let mut d = DragSession::new();
    d.grid_pointer_down(true, false, true, pos(1, 600));
    match d.pointer_up(&context(&[], &cols, 0)) {
        DragOutcome::Created(p) => assert_eq!((p.length_min, p.prev_match_id), (None, None)),
        other => panic!("{other:?}"),
    }
    d.grid_pointer_down(true, false, true, pos(1, 600));
    d.pointer_move(true, pos(1, 605));
    match d.pointer_up(&context(&[], &cols, 0)) {
        DragOutcome::Created(p) => assert_eq!(p.length_min, Some(10)),
        other => panic!("{other:?}"),
    }
    // A column that is gone asks for nothing.
    d.grid_pointer_down(true, false, true, pos(5, 600));
    assert!(matches!(d.pointer_up(&context(&[], &cols, 0)), DragOutcome::Nothing));
}

#[test]
fn what_does_not_begin_a_drag() {
    let mut d = DragSession::new();
    d.grid_pointer_down(false, false, true, pos(0, 600));
    d.grid_pointer_down(true, true, true, pos(0, 600));
    d.grid_pointer_down(true, false, false, pos(0, 600));
    d.grid_pointer_down(true, false, true, None);
    assert!(d.drag.is_none());
    d.grid_pointer_down(true, false, true, pos(0, 600));
    d.grid_pointer_down(true, false, true, pos(1, 700));
    assert!(matches!(d.drag, Some(TimelineDrag::Create { col: 0, .. })));
    d.pointer_cancel();
    assert!(d.drag.is_none());
}

fn pick_up(all: &[MatchSetupData], id: &str, minute: u32) -> DragSession {
    let (f, o, l) = (fields(), vec![], vec![]);
    let v = view(&f, &o, &l, "all", "");
    let events = timeline_events(all, &v);
    let mut d = DragSession::new();
    let info = drag_block_info(&events, &columns(), DAY, id);
    d.block_pointer_down(true, false, id, info, pos(0, minute));
    d
}

#[test]
fn a_static_block_moves_to_a_new_start() {
    let all = vec![game("a", "F1", "10:00", 60)];
    let cols = columns();
    let mut d = pick_up(&all, "a", 610);
    d.pointer_move(true, pos(1, 733));
    let ghost = drag_ghost(d.drag.as_ref().unwrap(), &context(&all, &cols, 0)).unwrap();
    assert_eq!((ghost.col, ghost.start_min, ghost.title.as_str(), ghost.sub_label.as_str()), (1, 725, "12:05 – 13:05", "F2"));
    match d.pointer_up(&context(&all, &cols, 60)) {
        DragOutcome::Moved(p) => {
            assert_eq!((p.match_id.as_str(), p.group_name.as_str(), p.new_field.as_deref()), ("a", "a", Some("F2")));
            assert_eq!(p.new_start_utc.as_deref(), Some("2025-05-03T11:05:00Z"));
            assert_eq!(p.new_prev_id, None);
        }
        other => panic!("{other:?}"),
    }
    // The click that follows is swallowed, and only that one.
    assert!(!d.click_counts());
    assert!(d.click_counts());
}

#[test]
fn a_moved_block_stays_inside_the_day() {
    let all = vec![game("a", "F1", "10:00", 67)];
    let mut d = pick_up(&all, "a", 600);
    for (minute, want) in [(1440u32, 1373i64), (0, 0), (1300, 1300), (1372, 1370)] {
        d.pointer_move(true, pos(0, minute));
        match &d.drag {
            Some(TimelineDrag::Move { cur_start_min, .. }) => assert_eq!(*cur_start_min, want),
            other => panic!("{other:?}"),
        }
    }
}

#[test]
fn a_block_that_comes_back_counts_as_clicked() {
    let all = vec![game("a", "F1", "10:00", 60)];
    let cols = columns();
    let mut d = pick_up(&all, "a", 610);
    assert!(drag_ghost(d.drag.as_ref().unwrap(), &context(&all, &cols, 0)).is_none());
    d.pointer_move(true, pos(0, 640));
    d.pointer_move(true, pos(0, 610));
    assert!(matches!(d.pointer_up(&context(&all, &cols, 0)), DragOutcome::Nothing));
    assert!(d.click_counts());
    // Off the grid a drag stays where it is; outside the editor nothing moves.
    let mut d = pick_up(&all, "a", 610);
    d.pointer_move(true, None);
    d.pointer_move(false, pos(1, 700));
    assert!(matches!(d.drag, Some(TimelineDrag::Move { cur_col: 0, cur_start_min: 600, moved: false, .. })));
}

#[test]
fn a_block_that_follows_snaps_behind_its_previous_match() {
    let mut all = vec![game("a", "F1", "10:00", 60), game("b", "F2", "09:00", 40)];
    all[0].schedule_type = s("SAFE");
    let cols = columns();
    let mut d = pick_up(&all, "a", 600);
    d.pointer_move(true, pos(1, 660));
    let ghost = drag_ghost(d.drag.as_ref().unwrap(), &context(&all, &cols, 0)).unwrap();
    assert_eq!((ghost.start_min, ghost.title.as_str(), ghost.blocked, ghost.gap_line), (580, "after: b", false, Some((1, 580))));
    match d.pointer_up(&context(&all, &cols, 0)) {
        DragOutcome::Moved(p) => {
            assert_eq!((p.new_start_utc, p.new_prev_id.as_deref()), (None, Some("b")));
        }
        other => panic!("{other:?}"),
    }
    // A block cannot follow itself.
    let mut d = pick_up(&all, "a", 600);
    d.pointer_move(true, pos(0, 700));
    let ghost = drag_ghost(d.drag.as_ref().unwrap(), &context(&all, &cols, 0)).unwrap();
    assert_eq!((ghost.title.as_str(), ghost.blocked, ghost.start_min), ("needs a previous match", true, 700));
}

#[test]
fn joins_and_unknown_blocks_are_not_dragged() {
    let all = vec![game("a", "F1", "10:00", 60)];
    assert!(pick_up(&all, "zzz", 600).drag.is_none());
    let mut d = DragSession::new();
    let (f, o, l) = (fields(), vec![], vec![]);
    let v = view(&f, &o, &l, "all", "");
    let events = timeline_events(&all, &v);
    let mut info = drag_block_info(&events, &columns(), DAY, "a").unwrap();
    assert_eq!((info.start_min, info.duration_min, info.col), (600, 60, 0));
    info.schedule_type = "JOIN".to_string();
    d.suppress_next_click = true;
    d.block_pointer_down(true, false, "a", Some(info), pos(0, 600));
    // A press ends the swallowing even where no drag begins.
    assert!(d.drag.is_none() && !d.suppress_next_click);
    assert!(drag_block_info(&events, &columns(), DAY + 1, "a").is_none());
    assert!(drag_block_info(&events, &[], DAY, "a").is_none());
    assert!(is_fixed_start("STATIC") && is_fixed_start("STATBREAK") && !is_fixed_start("BREAK"));
}

#[test]
fn placeholders_of_an_open_form() {
    let cols = columns();
    let mut g = PendingCreateGhost {
        field_names: vec!["F2".to_string(), "F9".to_string(), "F1".to_string()],
        start_local: at(605),
        length_min: 5,
        is_join: false,
    };
    let blocks = pending_blocks(&g, &cols, DAY);
    assert_eq!(blocks.iter().map(|b| b.col).collect::<Vec<_>>(), vec![1, 0]);
    assert_eq!((blocks[0].start_min, blocks[0].duration_min), (605, 10));
    assert_eq!((blocks[0].title.as_str(), blocks[0].sub_label.as_str()), ("10:05 – 10:15", "new match"));
    g.is_join = true;
    let blocks = pending_blocks(&g, &cols, DAY);
    assert_eq!((blocks[0].title.as_str(), blocks[0].sub_label.as_str()), ("10:05", "new join"));
    assert!(pending_blocks(&g, &cols, DAY + 1).is_empty());
    assert_eq!(find_column(&cols, 8), Some(1));
    assert_eq!(find_named_column(&cols, "F1"), Some(0));
}

#[test]
fn ghosts_after_a_given_match() {
    let after = |end: Moment| ghost_after(Some(("Semi".to_string(), end)), "F1".to_string(), DAY, 45, 2, 300);
    let g = after(at(610));
    assert_eq!((g.start_min, g.duration_min, g.col, g.gap_line), (610, 45, 2, Some((2, 610))));
    assert_eq!((g.title.as_str(), g.sub_label.as_str(), g.blocked), ("after: Semi", "F1", false));
    // A match that ends on another day has no gap on this one.
    let g = after(at(-30));
    assert_eq!((g.start_min, g.gap_line, g.blocked), (0, None, false));
    let g = ghost_after(None, "F1".to_string(), DAY, 45, 2, 300);
    assert_eq!((g.start_min, g.title.as_str(), g.blocked), (300, "needs a previous match", true));
}
