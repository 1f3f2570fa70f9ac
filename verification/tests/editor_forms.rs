use arctos::drag::MoveCommitPayload;
use arctos::fields::{
    addresses_to_edit, addresses_to_send, after_field_created, after_field_deleted, after_field_updated,
    after_tag_assigned, after_tag_created, camera_to_select, create_field_request, create_tag_request, effective_camera,
    field_label, push_address, qr_code_url, remove_address, set_address, tag_team, tag_team_after, update_field_request,
    FieldRowAfter, TagInputAfter,
};
use arctos::group_form::{
    all_fields_selected, check_field, group_form, select_all_fields, select_all_label, type_label, type_noun,
    update_group_request, validate_group,
};
use arctos::match_form::{
    create_group_request, create_match_request, create_step, edit_match_form, edit_step, form_parts, form_placeholder,
    insert_result, known_skip_error, new_match_form, placeholder_at, prefill_start_text,
    previous_after_edit_field_change, previous_after_edit_type_change, previous_after_field_change, previous_after_type_change,
    previous_from_start, refs_to_send, refs_with_token, skip_condition_error, skip_condition_to_check,
    start_input, type_allowed, type_choices, update_match_request, validate_create, validate_edit, SaveStep,
};
use arctos::moment::Moment;
use arctos::page::{
    after_bulk_length, after_change, after_move, bulk_length_input, bulk_length_message, bulk_length_request, edit_target, export_filename, export_filename_at, field_to_select,
    focus_team_storage_key, focus_team_unlisted, handle_key, has_cycle, initial_nav, is_switched_on, is_valid_view,
    kind_class, kind_label, move_request, nav_changed, nav_storage_key, nav_to_store, page_body, page_guard,
    resolve_focus_team, timeline_props, toggle_selected, warning_matches, AfterChange, EditTarget, FocusIdentity, MoveRequest,
    PageBody, PageGuard, ScheduleNavState,
};
use arctos::page::KeyAction::{
    CloseModal, Export, LeaveBulk, NextDay, Nothing, OpenFields, OpenImport, OpenTags, PrevDay, Recompute, ShowField,
    ShowTable, ShowTeam, ShowTimeline, Today,
};
use arctos::types::{
    FieldSetupData, MatchSetupData, ScheduleWarning, TagSetupData, TeamOption, ValidateDslResponse,
};

fn blank(uuid: &str, name: &str) -> MatchSetupData {
    MatchSetupData {
        uuid: uuid.to_string(),
        name: name.to_string(),
        field: None,
        team1: None,
        team2: None,
        team1_initial: None,
        team2_initial: None,
        status: "NOT_STARTED".to_string(),
        scheduled_start_time: None,
        nominal_start_time: None,
        confirmed_start_time: None,
        completed_time: None,
        schedule_type: None,
        set_type: None,
        nominal_length: None,
        previous_match: None,
        next_match: None,
        refs: None,
        refs_initial: None,
        ribbon: false,
        skip_condition: None,
        nsets: None,
        stones_per_set: None,
        stones_remaining: None,
        match_winner: None,
    }
}

fn s(t: &str) -> Option<String> {
    Some(t.to_string())
}


fn texts(v: &[&str]) -> Vec<String> {
    v.iter().map(|t| t.to_string()).collect()
}

fn field(id: u32, name: &str, cameras: &[&str]) -> FieldSetupData {
    FieldSetupData { id, name: name.to_string(), camera_urls: texts(cameras) }
}

fn nav(view: &str, team: &str, field: &str) -> ScheduleNavState {
    ScheduleNavState { view: view.to_string(), team: team.to_string(), field: field.to_string() }
}

fn parts(n: &ScheduleNavState) -> (&str, &str, &str) {
    (&n.view, &n.team, &n.field)
}

#[test]
fn where_the_page_starts() {
    assert_eq!(parts(&initial_nav(true, "team", "t", "f", Some(nav("field", "", "2")))), ("timeline", "", "all"));
    assert_eq!(parts(&initial_nav(false, "", "t1", "", None)), ("team", "t1", "all"));
    assert_eq!(parts(&initial_nav(false, "field", "", "3", None)), ("field", "", "3"));
    assert_eq!(parts(&initial_nav(false, "table", "", "", None)), ("team", "", "all"));
    assert_eq!(parts(&initial_nav(false, "", "", "", Some(nav("field", "x", "2")))), ("field", "x", "2"));
    assert_eq!(parts(&initial_nav(false, "", "", "", Some(nav("bogus", "x", "")))), ("team", "x", "all"));
    assert_eq!(parts(&initial_nav(false, "", "", "", None)), ("team", "", "all"));
    assert!(is_valid_view("team") && is_valid_view("field") && !is_valid_view("timeline"));
}

#[test]
fn a_stored_place_is_restored() {
    for (view, team, field) in [("team", "t1", "all"), ("field", "", "7"), ("field", "t", "all")] {
        let stored = nav_to_store(view, team, field);
        assert_eq!(stored.field, if field == "all" { "" } else { field });
        assert_eq!(parts(&initial_nav(false, "", "", "", Some(stored.clone()))), (view, team, field));
        assert_eq!(
            parts(&initial_nav(false, &stored.view, &stored.team, &stored.field, None)),
            (view, team, field)
        );
        assert!(!nav_changed(&Some(stored.clone()), &stored));
        assert!(nav_changed(&None, &stored));
        assert!(nav_changed(&Some(nav("field", "t2", "")), &stored));
    }
    assert_eq!(focus_team_storage_key("cup"), "schedule_focus_team:cup");
    assert_eq!(nav_storage_key("cup"), "schedule_last_nav:cup");
    for (stored, on) in [(Some("1"), true), (Some("TRUE"), true), (Some("0"), false), (Some(" 1"), false), (None, false)] {
        assert_eq!(is_switched_on(stored), on);
    }
}

#[test]
fn what_the_page_does_first() {
    assert_eq!(page_guard(true, false, "timeline"), PageGuard::Leave);
    assert_eq!(page_guard(true, true, "team"), PageGuard::UseTimeline);
    assert_eq!(page_guard(true, true, "table"), PageGuard::Show);
    assert_eq!(page_guard(false, true, "table"), PageGuard::UseTeam);
    assert_eq!(page_guard(false, false, "field"), PageGuard::Show);
}

#[test]
fn by_field_selects_the_first_field_by_name() {
    let fields = vec![field(10, "B", &[]), field(2, "A", &[]), field(3, "A", &[])];
    assert_eq!(field_to_select(&fields, "all").as_deref(), Some("2"));
    assert_eq!(field_to_select(&fields, "3"), None);
    assert_eq!(field_to_select(&fields, "010").as_deref(), Some("2"));
    assert_eq!(field_to_select(&[], "all"), None);
}

#[test]
fn the_team_in_focus() {
    let team = |registered| FocusIdentity::Team { id: "t1".to_string(), registered };
    let player = |a: Option<&str>, b: Option<&str>| FocusIdentity::Player {
        current_team: a.map(String::from),
        registration_team: b.map(String::from),
    };
    assert_eq!(resolve_focus_team(&team(true), Some("x")).as_deref(), Some("t1"));
    assert_eq!(resolve_focus_team(&team(false), Some("x")).as_deref(), Some("x"));
    assert_eq!(resolve_focus_team(&player(Some("a"), Some("b")), None).as_deref(), Some("a"));
    assert_eq!(resolve_focus_team(&player(None, Some("b")), None).as_deref(), Some("b"));
    assert_eq!(resolve_focus_team(&player(Some(""), Some("b")), Some("x")).as_deref(), Some("x"));
    assert_eq!(resolve_focus_team(&FocusIdentity::Other, Some("")), None);
    assert_eq!(resolve_focus_team(&FocusIdentity::Other, None), None);
}

#[test]
fn keys() {
    for (key, public, editor) in [
        ("n", (NextDay, true), (NextDay, true)),
        ("P", (PrevDay, true), (PrevDay, true)),
        ("t", (Today, true), (OpenTags, true)),
        ("A", (Nothing, true), (ShowTable, true)),
        ("l", (Nothing, true), (ShowTimeline, true)),
        ("y", (ShowTeam, true), (Nothing, true)),
        ("F", (ShowField, true), (OpenFields, true)),
        ("x", (Nothing, false), (Export, true)),
        ("I", (Nothing, false), (OpenImport, true)),
        ("r", (Nothing, false), (Recompute, true)),
        ("q", (Nothing, false), (Nothing, false)),
        ("Escape", (CloseModal, true), (CloseModal, true)),
    ] {
        assert_eq!(handle_key(key, false, false, "team", false), public, "{key}");
        assert_eq!(handle_key(key, false, true, "timeline", false), editor, "{key}");
    }
    assert_eq!(handle_key("Escape", false, true, "timeline", true), (LeaveBulk, true));
    assert_eq!(handle_key("Escape", true, true, "timeline", true), (CloseModal, true));
    assert_eq!(handle_key("n", true, true, "timeline", false), (Nothing, false));
    assert_eq!(handle_key("n", false, true, "table", false), (Nothing, true));
}

#[test]
fn what_the_views_get() {
    let p = timeline_props(false, "team", "7", "hawk", "t1", true, false, "match_create", true);
    assert_eq!((p.selected_field.as_str(), p.highlight_team.as_str(), p.focus_team_id.as_str()), ("all", "", "t1"));
    assert!(!p.edit_mode && !p.show_as_happened && !p.editor && !p.result_pick_active && !p.show_pending);
    let p = timeline_props(true, "timeline", "7", "hawk", "t1", true, false, "match_create", true);
    assert_eq!((p.selected_field.as_str(), p.highlight_team.as_str(), p.focus_team_id.as_str()), ("7", "hawk", ""));
    assert!(p.edit_mode && p.show_as_happened && p.editor && p.result_pick_active && p.show_pending);
    let p = timeline_props(true, "timeline", "7", "", "", false, true, "match_edit", true);
    assert!(!p.result_pick_active && !p.show_pending);
    assert_eq!(page_body("team", ""), PageBody::PickATeam);
    assert_eq!(page_body("team", "t"), PageBody::Timeline);
    assert_eq!(page_body("field", ""), PageBody::Timeline);
    assert_eq!(page_body("table", ""), PageBody::Table);
    let options = vec![TeamOption { id: "t1".to_string(), pseudonym: None, shortname: None, profile_photo: None }];
    assert!(!focus_team_unlisted(&options, "t1") && focus_team_unlisted(&options, "t2"));
    assert!(!focus_team_unlisted(&options, ""));
}

#[test]
fn warnings() {
    let w = |kind: &str, matches: &[&str]| ScheduleWarning {
        kind: kind.to_string(),
        message: String::new(),
        matches: texts(matches),
    };
    assert!(has_cycle(&[w("unknown_team", &[]), w("cycle", &[])]) && !has_cycle(&[w("double_booked", &[])]));
    for (kind, label) in [
        ("unknown_team", "Unknown team"),
        ("missing_team", "Missing team"),
        ("duplicate_team", "Duplicate team"),
        ("unknown_match_ref", "Missing match"),
        ("cycle", "Cyclic dependency"),
        ("double_booked", "Double-booked teams"),
        ("else", "Warning"),
    ] {
        assert_eq!(kind_label(kind), label);
    }
    assert_eq!((kind_class("cycle"), kind_class("x")), ("list-group-item-danger", "list-group-item-warning"));
    assert_eq!(warning_matches(&w("x", &["A", "B"])).as_deref(), Some("Matches: A, B"));
    assert_eq!(warning_matches(&w("x", &[])), None);
}

#[test]
fn what_the_editor_opens() {
    let mut all = vec![blank("u1", "Game"), blank("u2", "Lunch")];
    all[1].schedule_type = s("STATBREAK");
    match edit_target(&all, "u2") {
        EditTarget::Group(name) => assert_eq!(name, "Lunch"),
        other => panic!("{other:?}"),
    }
    for id in ["u1", "u9"] {
        match edit_target(&all, id) {
            EditTarget::Match(x) => assert_eq!(x, id),
            other => panic!("{other:?}"),
        }
    }
}

#[test]
fn changing_many_lengths() {
    let mut selected = texts(&["a", "b"]);
    toggle_selected(&mut selected, "c");
    assert_eq!(selected, texts(&["a", "b", "c"]));
    toggle_selected(&mut selected, "a");
    assert_eq!(selected, texts(&["b", "c"]));
    toggle_selected(&mut selected, "d");
    toggle_selected(&mut selected, "d");
    assert_eq!(selected, texts(&["b", "c"]));
    let q = bulk_length_request(selected.clone(), 45).unwrap();
    assert_eq!((q.match_ids, q.length), (texts(&["b", "c"]), 45));
    assert!(bulk_length_request(selected, 0).is_none());
    assert!(bulk_length_request(vec![], 45).is_none());
    assert_eq!(
        bulk_length_message(2, &texts(&["updated", "locked", "updated", "join"])).as_deref(),
        Some("Updated 2 matches; 2 skipped (locked / join / missing).")
    );
    assert_eq!(bulk_length_message(1, &texts(&["updated"])), None);
    assert_eq!((bulk_length_input("12"), bulk_length_input("x"), bulk_length_input("")), (12, 30, 30));
    assert_eq!(export_filename("cup", "20250503"), "cup_schedule_20250503.toml");
}

#[test]
fn exported_files_are_named_by_their_moment() {
    let at = |secs: i64, nanos: u32| export_filename_at("cup", Moment { secs, nanos });
    assert_eq!(at(1_746_277_445, 999_000_000).as_deref(), Some("cup_schedule_20250503_130405.toml"));
    assert_eq!(at(0, 0).as_deref(), Some("cup_schedule_19700101_000000.toml"));
    assert_eq!(at(i64::MAX, 0), None);
    assert_eq!(at(0, 1_000_000_000), None);
}

fn moved(schedule_type: &str, previous: Option<&str>) -> MoveCommitPayload {
    MoveCommitPayload {
        match_id: "u1".to_string(),
        schedule_type: schedule_type.to_string(),
        group_name: "Lunch".to_string(),
        new_field: s("F2"),
        new_start_utc: s("2025-05-03T10:00:00Z"),
        new_prev_id: previous.map(String::from),
    }
}

#[test]
fn what_a_moved_block_asks_for() {
    match move_request(moved("STATIC", Some("p"))) {
        Ok(MoveRequest::Match { id, request }) => {
            assert_eq!((id.as_str(), request.field.as_deref()), ("u1", Some("F2")));
            assert_eq!(request.start_time.as_deref(), Some("2025-05-03T10:00:00Z"));
            assert_eq!((request.previous_match_id, request.length, request.refs), (None, None, None));
        }
        other => panic!("{other:?}"),
    }
    match move_request(moved("STATBREAK", None)) {
        Ok(MoveRequest::Group { name, request }) => {
            assert_eq!((name.as_str(), request.start_time.as_deref()), ("Lunch", Some("2025-05-03T10:00:00Z")));
            assert!(request.fields.is_none() && request.schedule_type.is_none() && request.length.is_none());
        }
        other => panic!("{other:?}"),
    }
    match move_request(moved("SAFE", Some("p"))) {
        Ok(MoveRequest::Match { request, .. }) => {
            assert_eq!((request.start_time, request.previous_match_id.as_deref()), (None, Some("p")));
        }
        other => panic!("{other:?}"),
    }
    match move_request(moved("BREAK", None)) {
        Err(e) => assert_eq!(
            e,
            "BREAK matches need a previous match — drop the block after another match on the field."
        ),
        other => panic!("{other:?}"),
    }
}

#[test]
fn a_new_match_starts_with_what_the_drag_told() {
    let f = new_match_form(Some("F1"), Some("2025-05-03T10:00"), Some(45), Some("u1"), Some("SAFE"));
    assert_eq!((f.field.as_str(), f.start_time.as_str(), f.length), ("F1", "2025-05-03T10:00", 45));
    assert_eq!((f.schedule_type.as_str(), f.previous_match_id.as_str()), ("SAFE", "u1"));
    assert_eq!((f.set_type.as_str(), f.nsets, f.stones_per_set, f.ribbon), ("SETS", 3, 100, false));
    assert_eq!(f.break_fields, texts(&["F1"]));
    let f = new_match_form(None, None, None, Some("u1"), Some("OTHER"));
    assert_eq!((f.schedule_type.as_str(), f.previous_match_id.as_str(), f.length), ("STATIC", "", 60));
    assert!(f.break_fields.is_empty() && f.field.is_empty());
    assert_eq!(
        prefill_start_text(Moment { secs: 1_746_266_400, nanos: 0 }).as_deref(),
        Some("2025-05-03T10:00")
    );
}

fn set_up() -> MatchSetupData {
    let mut m = blank("u1", "Semi");
    m.field = s("F1");
    m.schedule_type = s("FAST");
    m.nominal_length = Some(30);
    m.nominal_start_time = s("2025-05-03T08:00:00Z");
    m.previous_match = s("u0");
    m.refs = s("t9");
    m.refs_initial = s("tag::a, ,Other::loser");
    m.team1 = s("t1");
    m.team2_initial = s("Q::winner");
    m.set_type = s("STONES");
    m.nsets = Some(2);
    m.stones_per_set = Some(80);
    m.ribbon = true;
    m.skip_condition = s("a == b");
    m
}

#[test]
fn editing_and_saving_unchanged_keeps_the_setup() {
    let m = set_up();
    let f = edit_match_form(&m, 120);
    assert_eq!((f.name.as_str(), f.start_time.as_str(), f.team1.as_str()), ("Semi", "2025-05-03T10:00", "t1"));
    assert_eq!((f.team2.as_str(), f.refs.as_str()), ("Q::winner", "tag::a, ,Other::loser"));
    let q = update_match_request(&f, 120);
    assert_eq!(q.start_time.as_deref(), Some("2025-05-03T08:00:00Z"));
    assert_eq!(q.refs.unwrap(), texts(&["tag::a", "Other::loser"]));
    assert_eq!((q.field.as_deref(), q.schedule_type.as_deref(), q.length), (Some("F1"), Some("FAST"), Some(30)));
    assert_eq!((q.previous_match_id.as_deref(), q.team1.as_deref()), (Some("u0"), Some("t1")));
    assert_eq!((q.nsets, q.stones_per_set, q.ribbon), (Some(2), Some(80), Some(true)));
    assert_eq!((q.set_type.as_deref(), q.skip_condition.as_deref()), (Some("STONES"), Some("a == b")));
    // What cannot be read is shown as far as it goes.
    let mut odd = blank("u", "U");
    odd.nominal_start_time = s("about ten o'clock in the morning");
    let f = edit_match_form(&odd, 0);
    assert_eq!(f.start_time, "about ten o'cloc");
    assert_eq!((f.schedule_type.as_str(), f.length, f.set_type.as_str()), ("STATIC", 60, "SETS"));
    let q = update_match_request(&f, 0);
    assert_eq!((q.start_time.as_deref(), q.previous_match_id), (Some("about ten o'cloc"), None));
}

#[test]
fn a_new_match_is_asked_for() {
    let mut f = new_match_form(Some("F1"), Some("2025-05-03T10:00"), Some(45), Some("u1"), Some("JOIN"));
    f.name = "J".to_string();
    let q = create_match_request(&f, 60);
    assert_eq!((q.name.as_str(), q.length, q.start_time.as_deref()), ("J", Some(0), Some("2025-05-03T09:00:00Z")));
    assert_eq!((q.team1, q.previous_match_id, q.skip_condition.as_deref()), (None, None, Some("")));
    assert_eq!(q.refs.unwrap().len(), 0);
    f.break_fields = texts(&["F1", "F2"]);
    let g = create_group_request(&f, 60);
    assert_eq!((g.length, g.start_time, g.fields), (0, None, texts(&["F1", "F2"])));
    f.schedule_type = "STATBREAK".to_string();
    let g = create_group_request(&f, 60);
    assert_eq!((g.length, g.start_time.as_deref()), (45, Some("2025-05-03T09:00:00Z")));
}

#[test]
fn placeholders_follow_the_form() {
    let mut f = new_match_form(Some("F1"), Some(" 2025-05-03T10:00 "), Some(5), None, None);
    let g = form_placeholder(&f).unwrap();
    assert_eq!((g.field_names, g.length_min, g.is_join), (texts(&["F1"]), 10, false));
    assert_eq!(g.start_local, Moment { secs: 1_746_266_400, nanos: 0 });
    f.schedule_type = "JOIN".to_string();
    f.break_fields = texts(&["F2", "F3"]);
    let g = form_placeholder(&f).unwrap();
    assert_eq!((g.field_names, g.is_join), (texts(&["F2", "F3"]), true));
    f.break_fields.clear();
    assert!(form_placeholder(&f).is_none());
    f.schedule_type = "STATIC".to_string();
    f.start_time = "soon".to_string();
    assert!(form_placeholder(&f).is_none());
}

#[test]
fn picked_results_go_into_the_focused_input() {
    assert_eq!(refs_with_token("", "A::winner"), "A::winner");
    assert_eq!(refs_with_token(" x, y ,, ", "A::winner"), "x, y, A::winner");
    let mut f = new_match_form(None, None, None, None, None);
    f.refs = "x".to_string();
    insert_result(&mut f, Some("team1"), "A::winner");
    insert_result(&mut f, Some("team2"), "B::loser");
    insert_result(&mut f, Some("refs"), "C::loser");
    insert_result(&mut f, Some("name"), "D::loser");
    insert_result(&mut f, None, "E::loser");
    assert_eq!((f.team1.as_str(), f.team2.as_str(), f.refs.as_str()), ("A::winner", "B::loser", "x, C::loser"));
    assert_eq!(refs_to_send(" a,, b ,"), texts(&["a", "b"]));
}

fn day() -> Vec<MatchSetupData> {
    let mut a = blank("a", "A");
    a.field = s("F1");
    a.nominal_start_time = s("2025-05-03T08:00:00Z");
    a.nominal_length = Some(30);
    let mut b = blank("b", "B");
    b.field = s("F2");
    b.nominal_start_time = s("2025-05-03T08:30:00Z");
    vec![a, b]
}

#[test]
fn the_previous_match_follows_the_form() {
    let all = day();
    assert_eq!(previous_from_start(&all, "F1", "2025-05-03T09:00", false, 0).as_deref(), Some("a"));
    assert_eq!(previous_from_start(&all, "F1", "2025-05-03T07:59", false, 0), None);
    assert_eq!(previous_from_start(&all, "F1", "?", false, 0), None);
    assert_eq!(previous_after_field_change("SAFE", "F2", "2025-05-03T09:00", &all, false, 0), "b");
    assert_eq!(previous_after_field_change("JOIN", "F1", "2025-05-03T09:00", &all, false, 0), "a");
    assert_eq!(previous_after_field_change("STATIC", "F2", "2025-05-03T09:00", &all, false, 0), "");
    assert_eq!(previous_after_field_change("SAFE", "", "2025-05-03T09:00", &all, false, 0), "");
    assert_eq!(previous_after_type_change("x", "FAST", "F1", "2025-05-03T09:00", Some("p"), &all, false, 0), "a");
    assert_eq!(previous_after_type_change("x", "FAST", "F9", "2025-05-03T09:00", Some("p"), &all, false, 0), "p");
    assert_eq!(previous_after_type_change("x", "STATIC", "F1", "2025-05-03T09:00", Some("p"), &all, false, 0), "x");
    assert_eq!(previous_after_edit_type_change("x", "STATIC"), "");
    assert_eq!(previous_after_edit_type_change("x", "SAFE"), "x");
}

#[test]
fn what_is_wrong_with_a_form() {
    let all = day();
    let mut f = new_match_form(None, None, None, None, Some("BREAK"));
    assert_eq!(validate_create(&f, &all), Err("Select at least one field."));
    f.break_fields = texts(&["F1"]);
    assert_eq!(validate_create(&f, &all), Ok(()));
    f.schedule_type = "STATBREAK".to_string();
    f.start_time = " ".to_string();
    assert_eq!(validate_create(&f, &all), Err("Start time is required for a static break."));
    f.schedule_type = "SAFE".to_string();
    assert_eq!(validate_create(&f, &all), Err("Previous match is required for Fast and Safe matches."));
    assert_eq!(
        validate_edit(&f, &all),
        Err("Previous match is required for Break, Join, Fast, and Safe matches.")
    );
    f.previous_match_id = " b ".to_string();
    assert_eq!(validate_create(&f, &all), Err("Field is required when using a previous match."));
    f.field = "F1".to_string();
    assert_eq!(validate_create(&f, &all), Err("Previous match must be on the same field."));
    assert_eq!(validate_edit(&f, &all), Err("Previous match must be on the same field."));
    f.field = "F2".to_string();
    assert_eq!((validate_create(&f, &all), validate_edit(&f, &all)), (Ok(()), Ok(())));
    f.schedule_type = "STATIC".to_string();
    f.field = "F1".to_string();
    assert_eq!((validate_create(&f, &all), validate_edit(&f, &all)), (Ok(()), Ok(())));
    assert!(type_allowed("STATIC", "FAST") && type_allowed("SAFE", "FAST") && type_allowed("JOIN", "JOIN"));
    assert!(!type_allowed("FAST", "SAFE") && !type_allowed("SAFE", "STATIC") && !type_allowed("STATBREAK", "STATBREAK"));
}

#[test]
fn skip_conditions() {
    let mut f = new_match_form(None, None, None, None, Some("FAST"));
    assert!(!skip_condition_to_check(&f));
    f.skip_condition = "a".to_string();
    assert!(skip_condition_to_check(&f));
    f.schedule_type = "STATIC".to_string();
    assert!(!skip_condition_to_check(&f));
    let answer = |valid: bool, error: Option<&str>, types: &[&str]| -> Result<ValidateDslResponse, String> {
        Ok(ValidateDslResponse {
            valid,
            simplified: None,
            error: error.map(String::from),
            result_type: texts(types),
        })
    };
    assert_eq!(skip_condition_error(&answer(true, None, &["TEAM", "BOOL"]), true), None);
    assert_eq!(
        skip_condition_error(&answer(false, Some("bad"), &["BOOL"]), false).as_deref(),
        Some("Skip condition: bad")
    );
    assert_eq!(skip_condition_error(&answer(false, None, &[]), true).as_deref(), Some("Skip condition: invalid"));
    assert_eq!(
        skip_condition_error(&answer(true, None, &["TEAM", "INT"]), true).as_deref(),
        Some("Skip condition must evaluate to BOOL, got TEAM | INT.")
    );
    assert_eq!(
        skip_condition_error(&answer(true, None, &[]), true).as_deref(),
        Some("Skip condition must evaluate to BOOL, got unknown.")
    );
    let failed: Result<ValidateDslResponse, String> = Err("offline".to_string());
    assert_eq!(skip_condition_error(&failed, true).as_deref(), Some("Skip condition: offline"));
    assert_eq!(skip_condition_error(&failed, false), None);
    assert_eq!(known_skip_error(&Some(Err("bad".to_string()))).as_deref(), Some("Skip condition: bad"));
    assert_eq!(known_skip_error(&Some(Ok(()))), None);
    assert_eq!(known_skip_error(&None), None);
}

#[test]
fn groups_of_breaks() {
    let mut all = vec![blank("1", "Lunch"), blank("2", "Lunch"), blank("3", "Lunch"), blank("4", "Lunch")];
    for (i, f) in [(0, None), (1, Some("F1")), (2, Some("F2")), (3, Some("F3"))] {
        all[i].field = f.map(String::from);
        all[i].schedule_type = s("STATBREAK");
    }
    // Games do not belong to the group.
    all[2].schedule_type = s("SAFE");
    all[0].nominal_start_time = s("2025-05-03T10:00:00Z");
    let mut f = group_form(&all, "Lunch", 60).unwrap();
    assert_eq!((f.group_type.as_str(), f.sel_type.as_str(), f.length), ("STATBREAK", "STATBREAK", 30));
    assert_eq!((f.start_time.as_str(), f.fields.clone()), ("2025-05-03T11:00", texts(&["F1", "F3"])));
    assert!(group_form(&all, "Dinner", 60).is_none());
    let q = update_group_request(&f, 60);
    assert_eq!((q.schedule_type, q.length, q.fields), (None, Some(30), Some(texts(&["F1", "F3"]))));
    assert_eq!(q.start_time.as_deref(), Some("2025-05-03T10:00:00Z"));
    assert_eq!(validate_group(&f), Ok(()));
    f.start_time = String::new();
    assert_eq!(validate_group(&f), Err("Start time is required for a static break.".to_string()));
    f.group_type = "BREAK".to_string();
    f.sel_type = "JOIN".to_string();
    let q = update_group_request(&f, 60);
    assert_eq!((q.schedule_type.as_deref(), q.length, q.start_time), (Some("JOIN"), None, None));
    f.fields.clear();
    assert_eq!(
        validate_group(&f),
        Err("A break group needs at least one field. Use Delete to remove it entirely.".to_string())
    );
    assert_eq!((type_noun("JOIN"), type_noun("STATBREAK")), ("join", "break"));
    assert_eq!((type_label("JOIN"), type_label("STATBREAK"), type_label("BREAK")), ("Join", "Static Break", "Break"));
}

#[test]
fn choosing_fields() {
    let fields = vec![field(1, "F1", &[]), field(2, "F2", &[])];
    let list = check_field(texts(&["F1"]), "F2", true);
    assert_eq!(list, texts(&["F1", "F2"]));
    assert!(all_fields_selected(&fields, &list));
    let list = check_field(list, "F2", true);
    assert_eq!(list.len(), 2);
    let list = check_field(texts(&["F1", "F2", "F1"]), "F1", false);
    assert_eq!(list, texts(&["F2"]));
    assert!(!all_fields_selected(&fields, &list) && !all_fields_selected(&[], &list));
    assert_eq!(select_all_fields(&fields, true), texts(&["F1", "F2"]));
    assert!(select_all_fields(&fields, false).is_empty());
    assert_eq!((select_all_label(true), select_all_label(false)), ("Select none", "Select all"));
}

#[test]
fn addresses_of_cameras() {
    let mut list = texts(&["a"]);
    set_address(&mut list, 0, "b".to_string());
    set_address(&mut list, 3, " c ".to_string());
    assert_eq!(list, texts(&["b", "", "", " c "]));
    push_address(&mut list);
    assert_eq!(addresses_to_send(&list), texts(&["b", "c"]));
    remove_address(&mut list, 0);
    assert_eq!(list.len(), 4);
    let mut one = texts(&["x"]);
    remove_address(&mut one, 0);
    assert_eq!(one, texts(&["x"]));
    let q = create_field_request("  F1 ", &list);
    assert_eq!((q.name.as_str(), q.camera_urls), ("F1", texts(&["c"])));
    let q = update_field_request(" F1 ", &list);
    assert_eq!((q.name.as_str(), q.stream_start_times.is_none()), (" F1 ", true));
    assert_eq!(addresses_to_edit(&field(1, "F", &[])), texts(&[""]));
    assert_eq!(addresses_to_edit(&field(1, "F", &["u"])), texts(&["u"]));
}

#[test]
fn previews_of_cameras() {
    let cams = texts(&["a", "b"]);
    assert_eq!(effective_camera(&cams, "b"), "b");
    assert_eq!(effective_camera(&cams, "c"), "a");
    assert_eq!(effective_camera(&cams, ""), "a");
    assert_eq!(effective_camera(&[], "b"), "");
    assert_eq!(camera_to_select(true, &cams, "").as_deref(), Some("a"));
    assert_eq!(camera_to_select(true, &cams, "z").as_deref(), Some("a"));
    assert_eq!(camera_to_select(true, &cams, "b"), None);
    assert_eq!(camera_to_select(true, &[], "b"), None);
    assert_eq!(camera_to_select(false, &cams, ""), None);
    let fields = vec![field(1, "F1", &[]), field(2, "F2", &[])];
    assert_eq!((field_label(&fields, 2), field_label(&fields, 9)), ("F2".to_string(), String::new()));
}

#[test]
fn codes_hold_whole_addresses() {
    assert_eq!(
        qr_code_url("https://x.y/a b?c=d&e=é~_-."),
        "https://api.qrserver.com/v1/create-qr-code/?size=200x200&data=https%3A%2F%2Fx.y%2Fa%20b%3Fc%3Dd%26e%3D%C3%A9~_-."
    );
    let every: String = (0u8..128).map(char::from).collect();
    let mut expected = String::from("https://api.qrserver.com/v1/create-qr-code/?size=200x200&data=");
    for c in every.chars() {
        if c.is_ascii_alphanumeric() || "-._~".contains(c) {
            expected.push(c);
        } else {
            expected.push_str(&format!("%{:02X}", c as u32));
        }
    }
    assert_eq!(qr_code_url(&every), expected);
}

#[test]
fn tags() {
    assert_eq!(create_tag_request(" seed 1 ").unwrap().name, "seed 1");
    assert_eq!(create_tag_request("  ").unwrap_err(), "Tag name is required.");
    assert_eq!(create_tag_request("a::b").unwrap_err(), "Tag name cannot contain \"::\".");
    let tag = |id: u32, team: Option<&str>| TagSetupData { id, name: "x".to_string(), team: team.map(String::from) };
    let all = vec![tag(1, Some("t1")), tag(2, None), tag(1, Some("t3"))];
    assert_eq!((tag_team(&all, 1), tag_team(&all, 2), tag_team(&all, 3)), ("t3".to_string(), String::new(), String::new()));
    assert_eq!((tag_team_after("new", "old", false), tag_team_after("new", "old", true)), ("new".to_string(), "old".to_string()));
}

#[test]
fn saving_a_new_match_step_by_step() {
    let all = day();
    let good: Option<Result<ValidateDslResponse, String>> = Some(Ok(ValidateDslResponse {
        valid: true,
        simplified: None,
        error: None,
        result_type: texts(&["BOOL"]),
    }));
    let offline: Option<Result<ValidateDslResponse, String>> = Some(Err("offline".to_string()));
    let mut f = new_match_form(Some("F1"), None, None, Some("a"), Some("SAFE"));
    f.skip_condition = "x".to_string();
    match create_step(&f, &all, &None, &None, false, 0) {
        SaveStep::LookAt(c) => assert_eq!(c, "x"),
        other => panic!("{other:?}"),
    }
    assert!(matches!(create_step(&f, &all, &None, &good, false, 0), SaveStep::CreateMatch(_)));
    assert!(matches!(create_step(&f, &all, &None, &offline, false, 0), SaveStep::CreateMatch(_)));
    match create_step(&f, &all, &None, &offline, true, 0) {
        SaveStep::Refused(m) => assert_eq!(m, "Skip condition: offline"),
        other => panic!("{other:?}"),
    }
    match create_step(&f, &all, &Some(Err("bad".to_string())), &good, false, 0) {
        SaveStep::Refused(m) => assert_eq!(m, "Skip condition: bad"),
        other => panic!("{other:?}"),
    }
    f.skip_condition = " ".to_string();
    assert!(matches!(create_step(&f, &all, &None, &None, false, 0), SaveStep::CreateMatch(_)));
    f.previous_match_id = "b".to_string();
    match create_step(&f, &all, &None, &None, false, 0) {
        SaveStep::Refused(m) => assert_eq!(m, "Previous match must be on the same field."),
        other => panic!("{other:?}"),
    }
    f.schedule_type = "BREAK".to_string();
    match create_step(&f, &all, &None, &None, false, 0) {
        SaveStep::CreateGroup(g) => assert_eq!(g.fields, texts(&["F1"])),
        other => panic!("{other:?}"),
    }
}

#[test]
fn saving_an_edited_match_step_by_step() {
    let all = day();
    let mut f = edit_match_form(&all[0], 0);
    assert!(matches!(edit_step(&f, &all, &None, &None, 0), SaveStep::UpdateMatch(_)));
    f.schedule_type = "FAST".to_string();
    assert!(matches!(edit_step(&f, &all, &None, &None, 0), SaveStep::Refused(_)));
    f.previous_match_id = "a".to_string();
    f.skip_condition = "x".to_string();
    assert!(matches!(edit_step(&f, &all, &Some(Ok(())), &None, 0), SaveStep::LookAt(_)));
    match edit_step(&f, &all, &None, &Some(Err("offline".to_string())), 0) {
        SaveStep::Refused(m) => assert_eq!(m, "Skip condition: offline"),
        other => panic!("{other:?}"),
    }
}

#[test]
fn starts_and_placeholders_of_known_times() {
    assert_eq!(start_input("2025-05-03T08:00:00Z", s("2025-05-03T10:00")), "2025-05-03T10:00");
    assert_eq!(start_input("2025-05-03T08:00:00Z", None), "2025-05-03T08:00");
    assert_eq!(start_input("soon", None), "soon");
    let f = new_match_form(Some("F1"), Some("soon"), Some(45), None, None);
    let start = Moment { secs: 1_746_266_400, nanos: 0 };
    let g = placeholder_at(&f, Some(start)).unwrap();
    assert_eq!((g.start_local, g.length_min, g.field_names), (start, 45, texts(&["F1"])));
    assert!(placeholder_at(&f, None).is_none());
}

#[test]
fn the_selected_field_stays() {
    let fields = vec![field(10, "B", &[]), field(2, "A", &[])];
    let selected = field_to_select(&fields, "all").unwrap();
    assert_eq!(field_to_select(&fields, &selected), None);
}

#[test]
fn after_a_field_was_asked_for() {
    let rows = texts(&["https://a", ""]);
    let done = after_field_created(Ok(()), "Blue".to_string(), rows.clone());
    assert_eq!((done.name.as_str(), done.addresses, done.refresh, done.message), ("", texts(&[""]), true, None));
    let failed = after_field_created(Err("taken".to_string()), "Blue".to_string(), rows.clone());
    assert_eq!((failed.name.as_str(), failed.addresses, failed.refresh), ("Blue", rows, false));
    assert_eq!(failed.message.as_deref(), Some("taken"));
    let row = |a: FieldRowAfter| (a.editing, a.refresh, a.message);
    assert_eq!(row(after_field_updated(true)), (false, true, None));
    assert_eq!(row(after_field_updated(false)), (true, false, Some("Failed to update field".to_string())));
    assert_eq!(row(after_field_deleted(true)), (false, true, None));
    assert_eq!(row(after_field_deleted(false)), (false, false, Some("Cannot delete field with matches".to_string())));
    let mut none: Vec<String> = vec![];
    remove_address(&mut none, 5);
    let mut one = texts(&["x"]);
    remove_address(&mut one, 5);
    assert_eq!((none, one), (vec![], texts(&["x"])));
}

#[test]
fn after_a_tag_was_asked_for() {
    let no = || Err("no".to_string());
    let row = |a: TagInputAfter| (a.text, a.refresh, a.message.is_some());
    assert_eq!(row(after_tag_created(Ok(()), "Pool A".to_string())), (String::new(), true, false));
    assert_eq!(row(after_tag_created(no(), "Pool A".to_string())), ("Pool A".to_string(), false, true));
    assert_eq!(row(after_tag_assigned(Ok(()), "new", "old")), ("new".to_string(), true, false));
    assert_eq!(row(after_tag_assigned(no(), "new", "old")), ("old".to_string(), false, true));
}

#[test]
fn after_the_schedule_was_changed() {
    let no = || Err("no".to_string());
    let row = |a: AfterChange| (a.refresh, a.message);
    let message = Some("no".to_string());
    assert_eq!(row(after_change(Ok(()))), (true, None));
    assert_eq!(row(after_change(no())), (false, message.clone()));
    assert_eq!(row(after_move(Ok(()))), (true, None));
    assert_eq!(row(after_move(no())), (true, message.clone()));
    assert_eq!(row(after_bulk_length(Ok((1, texts(&["updated"]))))), (true, None));
    assert_eq!(
        row(after_bulk_length(Ok((1, texts(&["updated", "join"]))))),
        (true, Some("Updated 1 matches; 1 skipped (locked / join / missing).".to_string()))
    );
    assert_eq!(row(after_bulk_length(Err("no".to_string()))), (false, message));
}

#[test]
fn inputs_of_the_form() {
    let shown = |t: &str, creating: bool| {
        let p = form_parts(t, creating);
        [p.field, p.length, p.start, p.previous, p.group_fields, p.game, p.skip_condition]
    };
    let (y, n) = (true, false);
    for creating in [true, false] {
        assert_eq!(shown("STATIC", creating), [y, y, y, n, n, y, n]);
        assert_eq!(shown("SAFE", creating), [y, y, n, y, n, y, y]);
        assert_eq!(shown("FAST", creating), [y, y, n, y, n, y, y]);
    }
    assert_eq!(shown("BREAK", true), [n, y, n, n, y, n, n]);
    assert_eq!(shown("STATBREAK", true), [n, y, y, n, y, n, n]);
    assert_eq!(shown("JOIN", true), [n, n, n, n, y, n, n]);
    assert_eq!(shown("BREAK", false), [y, y, n, y, n, n, n]);
    assert_eq!(shown("STATBREAK", false), [y, y, n, n, n, n, n]);
    assert_eq!(shown("JOIN", false), [y, n, n, y, n, n, n]);
    assert_eq!(previous_after_edit_field_change(), "");
}

#[test]
fn types_of_the_form() {
    let row = |original: &str, creating: bool| -> Vec<(&str, &str, bool)> {
        type_choices(original, creating).iter().map(|c| (c.value, c.label, c.disabled)).collect()
    };
    assert_eq!(
        row("SAFE", false),
        vec![
            ("STATIC", "Static", true),
            ("SAFE", "Safe", false),
            ("FAST", "Fast", false),
            ("BREAK", "Break", true),
            ("JOIN", "Join", true),
        ]
    );
    let new = row("SAFE", true);
    assert_eq!((new.len(), new[4]), (6, ("STATBREAK", "Static Break", false)));
    assert!(new.iter().all(|c| !c.2));
}
