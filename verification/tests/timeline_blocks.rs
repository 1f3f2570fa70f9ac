use arctos::card::{
    avatar_letter, card_background, card_click, card_cursor, card_tooltip, event_class, event_title, is_edit_locked,
    offers_result, result_token, role_badge, CardClick, HoverState,
};
use arctos::deps::{
    block_class, block_shadow, dep_edge_color, dep_edge_dash, dep_ring_shadow, dependency_edges, edge_kinds, find_match,
    ref_token_match_name,
};
use arctos::grid::{
    first_match_slot, join_group_at, join_groups, join_in_cell, join_lines, lane_layout, now_line_minute,
    slot_times, target_slot,
};
use arctos::lanes::{assign_lanes, count_lanes, Lane, Span};
use arctos::moment::Moment;
use arctos::overlay::{
    dep_lines, line_ends, overlay_blocks, DepLine, OverlayBlock,
};
use arctos::table::{
    cell_match_name, cell_number, cell_text, cell_time, first_of_sides, table_row_at, table_rows,
};
use arctos::timeline::{
    event_over, find_field, is_field_selected, name_matches, search_marks, timeline_event, timeline_events,
    visible_columns, TimelineView, TEAM_VIEW_FIELD_ID,
};
use arctos::types::{FieldSetupData, MatchSetupData, TeamOption};

const DAY: i64 = 20_211;

fn blank(uuid: &str, name: &str) -> MatchSetupData {
    MatchSetupData {
        uuid: uuid.to_string(),
        name: name.to_string(),
        field: None,
        team1: None,
        team2: None,
        team1_initial: None,
        team2_initial: None,
        status: "NOT_STARTED".to_string(),
        scheduled_start_time: None,
        nominal_start_time: None,
        confirmed_start_time: None,
        completed_time: None,
        schedule_type: None,
        set_type: None,
        nominal_length: None,
        previous_match: None,
        next_match: None,
        refs: None,
        refs_initial: None,
        ribbon: false,
        skip_condition: None,
        nsets: None,
        stones_per_set: None,
        stones_remaining: None,
        match_winner: None,
    }
}

fn s(t: &str) -> Option<String> {
    Some(t.to_string())
}

fn option(id: &str, pseudonym: Option<&str>, shortname: Option<&str>) -> TeamOption {
    TeamOption {
        id: id.to_string(),
        pseudonym: pseudonym.map(String::from),
        shortname: shortname.map(String::from),
        profile_photo: Some(format!("{id}.png")),
    }
}

fn view<'a>(
    fields: &'a [FieldSetupData],
    options: &'a [TeamOption],
    labels: &'a [String],
    selected: &'a str,
    focus: &'a str,
) -> TimelineView<'a> {
    TimelineView {
        fields,
        team_options: options,
        short_labels: labels,
        selected_field: selected,
        highlight_team: "",
        focus_team_id: focus,
        show_as_happened: false,
        editor: false,
        tz_offset_minutes: 0,
    }
}

fn fields() -> Vec<FieldSetupData> {
    vec![
        FieldSetupData { id: 7, name: "F1".to_string(), camera_urls: vec![] },
        FieldSetupData { id: 8, name: "F2".to_string(), camera_urls: vec![] },
    ]
}

fn game(uuid: &str, field: &str, start: &str, length: u32) -> MatchSetupData {
    let mut m = blank(uuid, uuid);
    m.field = s(field);
    m.nominal_start_time = Some(format!("2025-05-03T{start}:00Z"));
    m.nominal_length = Some(length);
    m.schedule_type = s("STATIC");
    m
}

#[test]
fn columns_are_the_selected_fields() {
    let (f, o, l) = (fields(), vec![option("t1", Some("Hawks"), None)], vec!["HWK".to_string()]);
    let names = |v: &TimelineView| -> Vec<(u32, String)> {
        visible_columns(v).into_iter().map(|c| (c.id, c.name)).collect()
    };
    assert_eq!(
        names(&view(&f, &o, &l, "all", "")),
        vec![(7, "F1".to_string()), (8, "F2".to_string())]
    );
    assert_eq!(names(&view(&f, &o, &l, "8", "")), vec![(8, "F2".to_string())]);
    assert_eq!(names(&view(&f, &o, &l, "9", "")), vec![]);
    assert_eq!(names(&view(&f, &o, &l, "all", "t1")), vec![(TEAM_VIEW_FIELD_ID, "Hawks".to_string())]);
    assert_eq!(names(&view(&f, &o, &l, "all", "t2")), vec![(TEAM_VIEW_FIELD_ID, "t2".to_string())]);
    assert!(is_field_selected(7, "all") && is_field_selected(7, "7") && !is_field_selected(7, "07"));
    assert_eq!(find_field(&f, &s("F2")), Some(1));
    assert_eq!(find_field(&f, &None), None);
}

#[test]
fn blocks_of_matches() {
    let o = vec![option("t1", Some("Hawks"), None), option("t2", None, None)];
    let (f, l) = (fields(), vec!["HWK".to_string(), "T2".to_string()]);
    let mut m = game("a", "F1", "10:00", 45);
    m.team1 = s("t1");
    m.team2_initial = s("Semi::winner");
    m.refs = s("t2,x");
    m.status = "IN_PROGRESS".to_string();
    m.ribbon = true;
    let mut v = view(&f, &o, &l, "all", "");
    v.tz_offset_minutes = 30;
    let e = timeline_event(&m, &v).unwrap();
    assert_eq!((e.id.as_str(), e.field_id, e.field_name.as_str()), ("a", 7, "F1"));
    assert_eq!((e.team1.as_str(), e.team2.as_str()), ("HWK", "Semi::winner"));
    assert_eq!((e.team1_photo.as_deref(), e.team2_photo.as_deref()), (Some("t1.png"), None));
    assert_eq!(e.refs_display, "T2, x");
    assert_eq!(e.refs_list[0].photo.as_deref(), Some("t2.png"));
    assert_eq!(e.start_time, Moment { secs: DAY * 86_400 + 37_800, nanos: 0 });
    assert_eq!(e.length_min, 45);
    assert_eq!((e.color.as_str(), e.status.as_str(), e.ribbon), ("#ffd666", "IN_PROGRESS", true));
    assert_eq!((e.team_role.as_str(), e.opponent_label.as_deref()), ("", None));
    // In a team view: full names, the role and the opponent.
    let v = view(&f, &o, &l, "all", "t1");
    let e = timeline_event(&m, &v).unwrap();
    assert_eq!((e.team1.as_str(), e.field_id), ("Hawks", TEAM_VIEW_FIELD_ID));
    assert_eq!((e.team_role.as_str(), e.opponent_label.as_deref(), e.opponent_kind), ("playing", Some("Semi winner"), 2));
    let e = timeline_event(&m, &view(&f, &o, &l, "all", "t2")).unwrap();
    assert_eq!((e.team_role.as_str(), e.opponent_label.as_deref()), ("reffing", None));
    assert!(timeline_event(&m, &view(&f, &o, &l, "all", "t3")).is_none());
}

#[test]
fn matches_without_blocks() {
    let (f, o, l) = (fields(), vec![], vec![]);
    let v = view(&f, &o, &l, "7", "");
    let mut all = vec![
        game("ok", "F1", "10:00", 30),
        game("other", "F2", "10:00", 30),
        game("unknown", "F9", "10:00", 30),
        game("skipped", "F1", "10:00", 30),
        game("join", "F1", "10:00", 30),
        game("untimed", "F1", "10:00", 30),
        game("break", "F1", "10:00", 30),
    ];
    all[3].status = "SKIPPED".to_string();
    all[4].schedule_type = s("JOIN");
    all[5].nominal_start_time = None;
    all[6].schedule_type = s("BREAK");
    let events = timeline_events(&all, &v);
    assert_eq!(events.iter().map(|e| e.id.as_str()).collect::<Vec<_>>(), vec!["ok", "break"]);
    assert_eq!(events[1].color, "#e9ecef");
    let v = TimelineView { editor: true, ..view(&f, &o, &l, "7", "") };
    assert_eq!(timeline_events(&all, &v)[1].color, "#6cc5d4");
}

#[test]
fn a_search_marks_sides_before_refs() {
    let o = vec![option("t1", Some("Night Hawks"), None), option("t2", Some("Owls"), None)];
    let (f, l) = (fields(), vec!["A".to_string(), "B".to_string()]);
    let mut m = game("a", "F1", "10:00", 45);
    m.team1 = s("t1");
    m.refs = s("t2,t1");
    let marks = |search: &str| {
        search_marks(&m, &TimelineView { highlight_team: search, ..view(&f, &o, &l, "all", "") })
    };
    assert_eq!(marks(""), (false, false));
    assert_eq!(marks("HAWK"), (true, false));
    assert_eq!(marks("owl"), (false, true));
    assert_eq!(marks("owls, night"), (false, true));
    assert_eq!(marks("crow"), (false, false));
    assert_eq!(
        search_marks(&m, &TimelineView { highlight_team: "hawk", ..view(&f, &o, &l, "all", "t1") }),
        (false, false)
    );
    assert!(name_matches("ÄRGER", "ärg"));
}

fn span(a: i64, b: i64) -> Span {
    Span { start: Moment { secs: a, nanos: 0 }, end: Moment { secs: b, nanos: 0 } }
}

#[test]
fn lanes_are_the_first_that_are_free() {
    let spans = [span(0, 100), span(10, 50), span(20, 30), span(50, 60), span(100, 110)];
    let lanes = assign_lanes(&spans);
    assert_eq!(lanes, vec![0, 1, 2, 1, 0]);
    let counts: Vec<usize> = (0..spans.len()).map(|k| count_lanes(&spans, &lanes, k)).collect();
    assert_eq!(counts, vec![3, 3, 3, 2, 1]);
    assert_eq!(assign_lanes(&[]), Vec::<usize>::new());
}

#[test]
fn lanes_are_as_few_as_can_be() {
    let spans = [span(0, 20), span(0, 10), span(5, 40), span(10, 15), span(20, 30), span(40, 50), span(40, 41)];
    let lanes = assign_lanes(&spans);
    assert_eq!(lanes, vec![0, 1, 2, 1, 0, 0, 1]);
    let together = |t: i64| {
        let at = span(t, t).start.secs;
        spans.iter().filter(|s| s.start.secs <= at && at < s.end.secs).count()
    };
    assert_eq!((0..50).map(together).max(), lanes.iter().max().map(|l| l + 1));
}

#[test]
fn overlapping_blocks_of_a_field_share_its_width() {
    let (f, o, l) = (fields(), vec![], vec![]);
    let v = view(&f, &o, &l, "all", "");
    let all = vec![
        game("late", "F1", "10:30", 60),
        game("early", "F1", "10:00", 60),
        game("alone", "F1", "12:00", 30),
        game("other", "F2", "10:30", 30),
        game("touching", "F1", "11:30", 30),
    ];
    let events = timeline_events(&all, &v);
    let columns = visible_columns(&v);
    let lanes = lane_layout(&events, &columns, DAY);
    let lane = |i: usize| (lanes[i].lane_index, lanes[i].num_lanes);
    assert_eq!((lane(0), lane(1), lane(2), lane(3), lane(4)), ((1, 2), (0, 2), (0, 1), (0, 1), (0, 1)));
    // On another day nothing is laid out.
    assert_eq!(lane_layout(&events, &columns, DAY + 1), vec![Lane { lane_index: 0, num_lanes: 1 }; 5]);
    let blocks = overlay_blocks(&events, &lanes, &columns, DAY);
    assert_eq!(
        blocks.iter().map(|b| (b.event, b.col, b.start_min, b.duration_min)).collect::<Vec<_>>(),
        vec![(0, 0, 630, 60), (1, 0, 600, 60), (2, 0, 720, 30), (3, 1, 630, 30), (4, 0, 690, 30)]
    );
    assert!(overlay_blocks(&events, &lanes, &columns[1..], DAY).len() == 1);
}

#[test]
fn joins_run_across_their_fields() {
    let (f, o, l) = (fields(), vec![], vec![]);
    let mut all = vec![
        game("j1", "F2", "10:40", 0),
        game("j2", "F1", "11:00", 0),
        game("k", "F9", "12:00", 0),
        game("g", "F1", "09:00", 30),
    ];
    for (i, name) in [(0, "Lunch"), (1, "Lunch"), (2, "Lost")] {
        all[i].schedule_type = s("JOIN");
        all[i].name = name.to_string();
    }
    let v = view(&f, &o, &l, "all", "");
    let groups = join_groups(&all, &v);
    assert_eq!(groups.len(), 1);
    assert_eq!(groups[0].name, "Lunch");
    assert_eq!(groups[0].field_matches, vec![(8, "j1".to_string()), (7, "j2".to_string())]);
    let columns = visible_columns(&v);
    let lines = join_lines(&groups, &columns, DAY);
    assert_eq!(lines.len(), 1);
    assert_eq!((lines[0].slot, lines[0].minutes_within_slot, lines[0].time_str.as_str()), (21, 10, "10:40"));
    assert_eq!((lines[0].start_col_idx, lines[0].end_col_idx), (0, 1));
    assert_eq!(lines[0].field_items, vec![(0, "j2".to_string()), (1, "j1".to_string())]);
    assert!(join_lines(&groups, &columns, DAY + 1).is_empty());
    assert!(join_groups(&all, &view(&f, &o, &l, "all", "t1")).is_empty());
    let one = view(&f, &o, &l, "7", "");
    assert_eq!(join_groups(&all, &one)[0].field_matches, vec![(7, "j2".to_string())]);
    let events = timeline_events(&all, &v);
    assert_eq!(first_match_slot(&events, &lines, DAY), 18);
    assert_eq!(first_match_slot(&[], &lines, DAY), 21);
    assert_eq!(first_match_slot(&[], &[], DAY), 0);
}

#[test]
fn rows_of_a_day() {
    let times = slot_times();
    assert_eq!(times.len(), 48);
    assert_eq!((times[0].as_str(), times[1].as_str(), times[47].as_str()), ("00:00", "00:30", "23:30"));
    let now = Moment { secs: DAY * 86_400 + 10 * 3_600 + 45 * 60, nanos: 0 };
    assert_eq!(target_slot(DAY, now, 3), 21);
    assert_eq!(target_slot(DAY + 1, now, 3), 3);
    assert_eq!(now_line_minute(DAY, now), Some(645));
    assert_eq!(now_line_minute(DAY - 1, now), None);
}

fn chained() -> Vec<MatchSetupData> {
    let mut all = vec![
        game("u1", "F1", "09:00", 30),
        game("u2", "F1", "10:00", 30),
        game("u3", "F1", "11:00", 30),
        game("u4", "F2", "11:00", 30),
    ];
    all[0].name = "Semi".to_string();
    all[1].name = "Other".to_string();
    all[2].previous_match = s("u2");
    all[2].team1_initial = s(" Semi ::winner");
    all[2].team2_initial = s("Gone::winner");
    all[2].refs_initial = s("Other::loser,, tag::x,Semi::loser");
    all
}

#[test]
fn dependencies_of_a_match() {
    let all = chained();
    let edges = dependency_edges(&all, "u3");
    let shown: Vec<(&str, &str, u8)> = edges.iter().map(|e| (e.from.as_str(), e.to.as_str(), e.kind)).collect();
    assert_eq!(shown, vec![("u3", "u2", 0), ("u3", "u1", 1), ("u3", "u2", 3), ("u3", "u1", 3)]);
    assert!(dependency_edges(&all, "nobody").is_empty());
    assert!(dependency_edges(&all, "u1").is_empty());
    assert_eq!(block_class(&edges, "u3"), Some("schedule-timeline-event--dep-source"));
    assert_eq!(block_class(&edges, "u2"), Some("schedule-timeline-event--dep-chain"));
    assert_eq!(block_class(&edges, "u1"), Some("schedule-timeline-event--dep-team"));
    assert_eq!(block_class(&edges, "u4"), None);
    assert_eq!(edge_kinds(&edges, "u3"), vec![0, 1, 3, 3]);
    assert_eq!(edge_kinds(&edges, "u2"), vec![0, 3]);
    assert_eq!(block_shadow(&edges, "u4"), None);
    assert_eq!(
        block_shadow(&edges, "u2").as_deref(),
        Some("box-shadow: 0 0 0 3px #0d6efd, 0 0 0 4px rgba(255,255,255,0.9), 0 0 0 7px #fd7e14, 0 0 0 8px rgba(255,255,255,0.9);")
    );
    assert_eq!(find_match(&all, "u4"), Some(3));
}

#[test]
fn breaks_are_nobodys_result() {
    let mut all = chained();
    all[0].schedule_type = s("BREAK");
    assert_eq!(dependency_edges(&all, "u3").len(), 2);
    // Of two games with one name, the last counts.
    let mut all = chained();
    all[3].name = "Semi".to_string();
    assert_eq!(dependency_edges(&all, "u3")[1].to, "u4");
}

#[test]
fn lines_need_blocks_at_both_ends() {
    let (f, o, l) = (fields(), vec![], vec![]);
    let all = chained();
    let v = view(&f, &o, &l, "7", "");
    let events = timeline_events(&all[1..], &v);
    let columns = visible_columns(&v);
    let lanes = lane_layout(&events, &columns, DAY);
    let blocks = overlay_blocks(&events, &lanes, &columns, DAY);
    let edges = dependency_edges(&all, "u3");
    assert_eq!(
        dep_lines(&edges, &blocks, &events),
        vec![DepLine { from: 1, to: 0, kind: 0 }, DepLine { from: 1, to: 0, kind: 3 }]
    );
}

#[test]
fn ring_shadow_one_ring_per_edge_in_order() {
    let css = dep_ring_shadow(&[0, 1, 3]);
    assert!(css.starts_with("box-shadow: "));
    assert_eq!(css.matches("rgba(255,255,255,0.9)").count(), 3);
    // Ring order (inner to outer) follows edge order; colors match the lines.
    let chain = css.find("#0d6efd").unwrap();
    let team = css.find("#d63384").unwrap();
    let refc = css.find("#fd7e14").unwrap();
    assert!(chain < team && team < refc);
}

#[test]
fn colours_and_dashes_of_edges() {
    assert_eq!([0u8, 1, 2, 3, 9].map(dep_edge_color), ["#0d6efd", "#d63384", "#d63384", "#fd7e14", "#fd7e14"]);
    assert_eq!([0u8, 1, 2, 3, 9].map(dep_edge_dash), ["none", "none", "7 4", "3 3", "3 3"]);
    assert_eq!(dep_ring_shadow(&[]), "box-shadow: ;");
}

#[test]
fn result_tokens_refer_to_their_match() {
    for name in ["Semi 1", "  Final ", "x::winner"] {
        for winner in [true, false] {
            assert_eq!(ref_token_match_name(&result_token(name, winner)), Some(name.trim()));
        }
    }
    assert_eq!(result_token("Semi", true), "Semi::winner");
    assert_eq!(result_token("Semi", false), "Semi::loser");
    assert_eq!(ref_token_match_name("tag::x"), None);
}

#[test]
fn cards_of_blocks() {
    let (f, o, l) = (fields(), vec![option("t1", Some("Hawks"), None)], vec!["HWK".to_string()]);
    let mut m = game("a", "F1", "10:00", 45);
    m.team1 = s("t1");
    m.team2_initial = s("Owls");
    m.status = "COMPLETED".to_string();
    let e = timeline_event(&m, &view(&f, &o, &l, "all", "")).unwrap();
    assert_eq!(event_title(&e, false), "a - HWK vs Owls");
    assert!(is_edit_locked(&e));
    assert_eq!(
        card_tooltip(&e, false, true),
        "a - HWK vs Owls — match has started; the server will reject most changes"
    );
    assert_eq!(card_tooltip(&e, false, false), "a - HWK vs Owls");
    assert_eq!(event_class(&e, false, false, None), "schedule-timeline-event");
    assert_eq!(
        event_class(&e, false, true, Some("dep")),
        "schedule-timeline-event schedule-timeline-event--bulk-selected dep"
    );
    let e = timeline_event(&m, &view(&f, &o, &l, "all", "t1")).unwrap();
    assert_eq!(event_title(&e, true), "a — vs Owls");
    m.team1 = None;
    m.refs = s("t1");
    let e = timeline_event(&m, &view(&f, &o, &l, "all", "t1")).unwrap();
    assert_eq!(event_title(&e, true), "a — reffing");
    m.schedule_type = s("BREAK");
    let e = timeline_event(&m, &view(&f, &o, &l, "all", "")).unwrap();
    assert_eq!(event_title(&e, false), "a");
    assert!(!is_edit_locked(&e));
    assert_eq!(
        event_class(&e, false, false, None),
        "schedule-timeline-event schedule-timeline-event--structural"
    );
    assert_eq!(event_class(&e, true, false, None), "schedule-timeline-event");
}

#[test]
fn pointing_at_cards() {
    assert_eq!(card_click(Some("BREAK"), false), CardClick::Nothing);
    assert_eq!(card_click(Some("JOIN"), false), CardClick::Open);
    assert_eq!(card_click(Some("STATIC"), false), CardClick::Open);
    assert_eq!(card_click(Some("BREAK"), true), CardClick::Edit);
    assert_eq!(card_cursor(Some("BREAK"), false, false), "default");
    assert_eq!(card_cursor(Some("BREAK"), true, false), "pointer");
    assert_eq!(card_cursor(None, false, true), "grab");
    assert_eq!(card_background(Some("JOIN"), false), "#f1f3f5");
    assert_eq!(card_background(Some("JOIN"), true), "#ffffff");
    assert_eq!(card_background(Some("SAFE"), false), "#ffffff");
    assert!(offers_result(Some("SAFE"), true, true));
    assert!(!offers_result(Some("JOIN"), true, true) && !offers_result(Some("SAFE"), false, true));
    assert_eq!(role_badge("playing").unwrap().0, "Playing");
    assert_eq!(role_badge("reffing").unwrap().1, "schedule-role-badge schedule-role-badge--reffing");
    assert_eq!(role_badge(""), None);
    assert_eq!((avatar_letter("éa"), avatar_letter("")), ("é", "?"));
}

#[test]
fn hovering_shows_dependencies_while_alt_is_held() {
    let all = chained();
    let mut h = HoverState::new();
    assert!(h.shown_edges(true, &all).is_empty());
    h.block_hover("u3", true, false);
    assert!(h.shown_edges(true, &all).is_empty());
    h.set_alt(true);
    assert_eq!(h.shown_edges(true, &all).len(), 4);
    assert!(h.shown_edges(false, &all).is_empty());
    // Leaving a block that is no longer hovered changes nothing.
    h.block_hover("u1", false, true);
    assert_eq!(h.hovered.as_deref(), Some("u3"));
    h.pointer_move(true, s("u1"));
    assert_eq!(h.hovered.as_deref(), Some("u1"));
    h.pointer_move(false, s("u2"));
    assert_eq!((h.hovered.as_deref(), h.alt_down), (Some("u1"), false));
    h.block_hover("u1", false, true);
    assert_eq!((h.hovered.as_deref(), h.alt_down), (None, true));
    h.block_hover("u1", true, true);
    h.pointer_leave();
    assert_eq!((h.hovered.as_deref(), h.alt_down), (None, true));
    h.block_hover("u1", true, true);
    h.window_blur();
    assert_eq!((h.hovered.as_deref(), h.alt_down), (None, false));
}

#[test]
fn rows_of_the_table() {
    let o = vec![option("t1", Some("Hawks, Night"), None)];
    let (f, l) = (fields(), vec!["Hawks, N".to_string()]);
    let mut all = vec![game("a", "F1", "10:00", 45), game("b", "F9", "11:00", 45), game("c", "F2", "12:00", 45)];
    all[0].team1 = s("t1");
    all[0].refs = s("t1,Semi::loser");
    all[1].status = String::new();
    all[1].schedule_type = None;
    all[1].nominal_start_time = None;
    all[2].schedule_type = s("JOIN");
    let mut v = view(&f, &o, &l, "all", "");
    v.highlight_team = "night";
    let rows = table_rows(&all, &v);
    assert_eq!(rows.len(), 3);
    assert_eq!((rows[0].start.as_str(), rows[1].start.as_str()), ("10:00", "-"));
    assert_eq!((rows[0].team1.text.as_str(), rows[0].team1.kind, rows[0].team1.photo.as_deref()), ("Hawks", 0, Some("t1.png")));
    assert_eq!((rows[0].refs[1].kind, rows[0].refs[1].label.as_str()), (2, "Semi loser"));
    assert_eq!(rows[0].row_class, "schedule-table-row--highlight-playing ");
    assert_eq!(rows[1].row_class, "");
    assert_eq!((rows[1].status_color.as_str(), rows[1].status_label.as_str()), ("#e9ecef", "-"));
    assert_eq!((rows[1].schedule_type.as_str(), rows[0].schedule_type.as_str()), ("-", "STATIC"));
    assert_eq!(rows[2].status_label, "—");
    v.editor = true;
    assert_eq!(table_rows(&all, &v)[2].status_label, "Not Started");
    v.selected_field = "8";
    assert_eq!(table_rows(&all, &v).iter().map(|r| r.id.as_str()).collect::<Vec<_>>(), vec!["c"]);
    all[2].status = "SKIPPED".to_string();
    assert!(table_rows(&all, &v).is_empty());
}

#[test]
fn cells_with_everything() {
    let all = chained();
    assert_eq!(first_of_sides("a , b"), "a");
    assert_eq!(first_of_sides(" a"), " a");
    assert_eq!(cell_text(&None), "-");
    assert_eq!(cell_text(&s("x")), "x");
    assert_eq!((cell_number(Some(12)), cell_number(None)), ("12".to_string(), "-".to_string()));
    assert_eq!(cell_time(&s("2025-05-03T08:05:00Z"), 60), "2025-05-03 09:05");
    assert_eq!(cell_time(&None, 60), "-");
    assert_eq!(cell_match_name(&all, &s("u1")), "Semi");
    assert_eq!(cell_match_name(&all, &s("u9")), "-");
    assert_eq!(cell_match_name(&all, &None), "-");
}

#[test]
fn blocks_over_a_given_interval() {
    let (f, o, l) = (fields(), vec![], vec![]);
    let mut v = view(&f, &o, &l, "8", "");
    v.tz_offset_minutes = -60;
    let on = |min: i64| Moment { secs: DAY * 86_400 + min * 60, nanos: 0 };
    let m = game("u", "F2", "00:00", 5);
    let e = event_over(&m, &v, on(600), on(655)).unwrap();
    assert_eq!((e.start_time, e.end_time, e.field_id), (on(540), on(595), 8));
    assert!(event_over(&game("w", "F1", "00:00", 5), &v, on(600), on(655)).is_none());
    let mut skipped = game("x", "F2", "00:00", 5);
    skipped.status = "SKIPPED".to_string();
    assert!(event_over(&skipped, &v, on(600), on(655)).is_none());
    assert_eq!(table_row_at(&m, Some(on(600)), &v).start, "09:00");
    assert_eq!(table_row_at(&m, None, &v).start, "-");
}

#[test]
fn joins_at_a_given_start() {
    let (f, o, l) = (fields(), vec![], vec![]);
    let mut all = vec![game("j1", "F2", "10:40", 0), game("j2", "F1", "11:00", 0), game("g", "F1", "09:00", 30)];
    for i in 0..2 {
        all[i].schedule_type = s("JOIN");
        all[i].name = "Lunch".to_string();
    }
    let v = view(&f, &o, &l, "all", "");
    let start = Moment { secs: DAY * 86_400 + 75 * 60, nanos: 0 };
    let group = join_group_at(&all, "Lunch", start, &v).unwrap();
    assert_eq!((group.time, group.field_matches.len()), (start, 2));
    assert!(join_group_at(&all, "Dinner", start, &v).is_none());
    let lines = join_lines(&[group], &visible_columns(&v), DAY);
    assert_eq!((lines[0].slot, lines[0].minutes_within_slot), (2, 15));
    assert_eq!(join_in_cell(&lines, 2, 0), Some((0, 0)));
    assert_eq!(join_in_cell(&lines, 2, 1), Some((0, 1)));
    assert_eq!(join_in_cell(&lines, 2, 2), None);
    assert_eq!(join_in_cell(&lines, 3, 0), None);
}

#[test]
fn lines_run_between_the_near_edges() {
    let block = |start_min: u32, duration_min: i64| OverlayBlock {
        event: 0,
        col: 0,
        start_min,
        duration_min,
        lane: Lane { lane_index: 0, num_lanes: 1 },
    };
    assert_eq!(line_ends(&block(600, 30), &block(540, 30)), (600, 570));
    assert_eq!(line_ends(&block(540, 30), &block(600, 30)), (570, 600));
    assert_eq!(line_ends(&block(540, 30), &block(540, 30)), (570, 540));
}

#[test]
fn the_previous_match_is_marked_first() {
    let mut all = chained();
    all[2].team1_initial = s("Other::winner");
    let edges = dependency_edges(&all, "u3");
    assert_eq!(edge_kinds(&edges, "u2"), vec![0, 1, 3]);
    assert_eq!(block_class(&edges, "u2"), Some("schedule-timeline-event--dep-chain"));
}
