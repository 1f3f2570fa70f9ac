use arctos::days::{
    date_neighbours, dates_with_matches, days_once, default_visible_date, step_visible_date,
};
use arctos::grid::day_heading;
use arctos::moment::Moment;
use arctos::schedule_time::{
    actual_start_str, display_interval_utc, format_datetime_local, format_naive_utc_time_local,
    interval_to_show, latest_match_before, latest_start_before, local_datetime_to_utc_iso,
    matches_on_field_sorted, parse_schedule_time_to_local, parse_schedule_time_utc, plan_start_str,
    utc_iso_to_local_datetime_input,
};
use arctos::types::MatchSetupData;

fn blank(uuid: &str, name: &str) -> MatchSetupData {
    MatchSetupData {
        uuid: uuid.to_string(),
        name: name.to_string(),
        field: None,
        team1: None,
        team2: None,
        team1_initial: None,
        team2_initial: None,
        status: "NOT_STARTED".to_string(),
        scheduled_start_time: None,
        nominal_start_time: None,
        confirmed_start_time: None,
        completed_time: None,
        schedule_type: None,
        set_type: None,
        nominal_length: None,
        previous_match: None,
        next_match: None,
        refs: None,
        refs_initial: None,
        ribbon: false,
        skip_condition: None,
        nsets: None,
        stones_per_set: None,
        stones_remaining: None,
        match_winner: None,
    }
}

fn s(t: &str) -> Option<String> {
    Some(t.to_string())
}

fn at(t: &str) -> Moment {
    parse_schedule_time_utc(t).unwrap()
}

#[test]
fn schedule_times_are_read_in_every_form() {
    let want = Some(Moment { secs: 1_746_266_400, nanos: 0 });
    for t in [
        "2025-05-03T10:00:00Z",
        "2025-05-03T12:00:00+02:00",
        "2025-05-03T10:00:00",
        "2025-05-03T10:00",
        "2025-05-03 10:00:00",
        "2025-05-03 10:00",
    ] {
        assert_eq!(parse_schedule_time_utc(t), want, "{t}");
        assert_eq!(
            parse_schedule_time_to_local(t, 120),
            Some(Moment { secs: 1_746_266_400 + 7_200, nanos: 0 })
        );
    }
    assert_eq!(
        parse_schedule_time_utc("2025-05-03T10:00:00.25"),
        Some(Moment { secs: 1_746_266_400, nanos: 250_000_000 })
    );
    for t in ["", "soon", "2025-05-03", "2025-13-03T10:00"] {
        assert_eq!(parse_schedule_time_utc(t), None);
        assert_eq!(parse_schedule_time_to_local(t, 0), None);
    }
}

#[test]
fn local_input_goes_to_utc_and_back() {
    for tz in [-720i16, -330, 0, 60, 345, 840] {
        for local in ["2025-05-03T10:05", "2024-02-29T00:00", "1999-12-31T23:59"] {
            let iso = local_datetime_to_utc_iso(local, tz).unwrap();
            assert_eq!(utc_iso_to_local_datetime_input(&iso, tz).as_deref(), Some(local));
        }
    }
    assert_eq!(local_datetime_to_utc_iso("2025-05-03T10:05", 120).as_deref(), Some("2025-05-03T08:05:00Z"));
    assert_eq!(local_datetime_to_utc_iso("  2025-05-03T10:05 ", -60).as_deref(), Some("2025-05-03T11:05:00Z"));
}

#[test]
fn what_is_no_local_time_has_no_utc() {
    for local in ["", "   ", "2025-05-03", "2025-05-03T10:05:00", "noon"] {
        assert_eq!(local_datetime_to_utc_iso(local, 0), None);
    }
    assert_eq!(local_datetime_to_utc_iso("2025-05-03T10:05", 1440), None);
    assert_eq!(local_datetime_to_utc_iso("2025-05-03T10:05", -1440), None);
    assert!(local_datetime_to_utc_iso("2025-05-03T10:05", 1439).is_some());
}

#[test]
fn utc_times_become_input_values() {
    assert_eq!(utc_iso_to_local_datetime_input("2025-05-03T08:05:59Z", 120).as_deref(), Some("2025-05-03T10:05"));
    assert_eq!(utc_iso_to_local_datetime_input(" 2025-05-03 08:05 ", 0).as_deref(), Some("2025-05-03T08:05"));
    assert_eq!(utc_iso_to_local_datetime_input("", 0), None);
    assert_eq!(utc_iso_to_local_datetime_input("later", 0), None);
}

#[test]
fn times_leave_the_calendar() {
    // The last minute of the calendar cannot move on.
    assert_eq!(utc_iso_to_local_datetime_input("+262142-12-31T23:59", 0).as_deref(), Some("+262142-12-31T23:59"));
    assert_eq!(utc_iso_to_local_datetime_input("+262142-12-31T23:59", 1), None);
    assert_eq!(utc_iso_to_local_datetime_input("-262143-01-01T00:00", -1), None);
    assert!(utc_iso_to_local_datetime_input("-262143-01-01T00:00", 0).is_some());
    assert_eq!(local_datetime_to_utc_iso("+262142-12-31T23:59", -1), None);
    assert_eq!(at("+262142-12-31T23:59"), Moment { secs: 8_210_266_876_740, nanos: 0 });
    assert_eq!(at("-262143-01-01T00:00"), Moment { secs: -8_334_601_228_800, nanos: 0 });
}

#[test]
fn stamps_in_tables() {
    assert_eq!(format_datetime_local("2025-05-03T08:05:00Z", 60), "2025-05-03 09:05");
    assert_eq!(format_datetime_local("2025-05-03 08:05", 60), "2025-05-03 08:05");
    assert_eq!(format_datetime_local("??", 60), "??");
    assert_eq!(format_naive_utc_time_local(at("2025-05-03T23:30:00Z"), 60), "00:30");
}

#[test]
fn starts_fall_back() {
    let mut m = blank("a", "A");
    assert_eq!(plan_start_str(&m), None);
    assert_eq!(actual_start_str(&m), None);
    m.nominal_start_time = s("n");
    assert_eq!(plan_start_str(&m), Some("n"));
    m.scheduled_start_time = s("p");
    assert_eq!(plan_start_str(&m), Some("p"));
    assert_eq!(actual_start_str(&m), Some("n"));
    m.confirmed_start_time = s("c");
    assert_eq!(actual_start_str(&m), Some("c"));
    m.nominal_start_time = None;
    m.confirmed_start_time = None;
    assert_eq!(actual_start_str(&m), Some("p"));
}

#[test]
fn a_late_day_never_moves_blocks_later() {
    let mut m = blank("a", "A");
    m.scheduled_start_time = s("2025-05-03T10:00:00Z");
    m.confirmed_start_time = s("2025-05-03T10:20:00Z");
    m.nominal_length = Some(60);
    assert_eq!(
        display_interval_utc(&m, false),
        Some((at("2025-05-03T10:00:00Z"), at("2025-05-03T11:00:00Z")))
    );
    assert_eq!(
        display_interval_utc(&m, true),
        Some((at("2025-05-03T10:20:00Z"), at("2025-05-03T11:20:00Z")))
    );
}

#[test]
fn a_day_that_runs_ahead_pulls_blocks_earlier() {
    let mut m = blank("a", "A");
    m.scheduled_start_time = s("2025-05-03T10:00:00Z");
    m.confirmed_start_time = s("2025-05-03T09:50:00Z");
    m.completed_time = s("2025-05-03T10:10:00Z");
    m.nominal_length = Some(60);
    let want = Some((at("2025-05-03T09:50:00Z"), at("2025-05-03T10:10:00Z")));
    assert_eq!(display_interval_utc(&m, false), want);
    assert_eq!(display_interval_utc(&m, true), want);
}

#[test]
fn a_block_lasts_a_minute_and_needs_a_start() {
    let mut m = blank("a", "A");
    assert_eq!(display_interval_utc(&m, false), None);
    m.completed_time = s("2025-05-03T10:10:00Z");
    assert_eq!(display_interval_utc(&m, true), None);
    m.nominal_start_time = s("2025-05-03T12:00:00Z");
    assert_eq!(
        display_interval_utc(&m, false),
        Some((at("2025-05-03T12:00:00Z"), at("2025-05-03T12:01:00Z")))
    );
    m.completed_time = None;
    // No length is half an hour.
    assert_eq!(
        display_interval_utc(&m, false),
        Some((at("2025-05-03T12:00:00Z"), at("2025-05-03T12:30:00Z")))
    );
    // A plan that cannot be read leaves the estimate.
    m.scheduled_start_time = s("tomorrow");
    assert_eq!(display_interval_utc(&m, false).unwrap().0, at("2025-05-03T12:00:00Z"));
}

fn on_field(uuid: &str, field: &str, start: &str) -> MatchSetupData {
    let mut m = blank(uuid, uuid);
    m.field = s(field);
    m.nominal_start_time = s(start);
    m
}

#[test]
fn the_latest_match_before_a_time() {
    let mut skipped = on_field("d", "F1", "2025-05-03T10:55:00Z");
    skipped.status = "SKIPPED".to_string();
    let all = vec![
        on_field("a", "F1", "2025-05-03T09:00:00Z"),
        on_field("b", "F1", "2025-05-03T10:00:00Z"),
        on_field("c", "F2", "2025-05-03T10:30:00Z"),
        skipped,
        on_field("e", "F1", "2025-05-03T10:00:00Z"),
    ];
    let found = latest_match_before(&all, "F1", at("2025-05-03T11:00:00Z"), "", false, 0).unwrap();
    // Of two that start together the last counts.
    assert_eq!(found, ("e".to_string(), "e".to_string(), at("2025-05-03T10:30:00Z")));
    let found = latest_match_before(&all, "F1", at("2025-05-03T11:00:00Z"), "e", false, 0).unwrap();
    assert_eq!(found.0, "b");
    // Exactly at the start counts, a minute before does not.
    assert_eq!(latest_match_before(&all, "F1", at("2025-05-03T09:00:00Z"), "", false, 0).unwrap().0, "a");
    assert_eq!(latest_match_before(&all, "F1", at("2025-05-03T08:59:00Z"), "", false, 0), None);
    // Local time.
    assert_eq!(latest_match_before(&all, "F2", at("2025-05-03T11:29:00Z"), "", false, 60), None);
    assert_eq!(
        latest_match_before(&all, "F2", at("2025-05-03T11:30:00Z"), "", false, 60).unwrap().2,
        at("2025-05-03T12:00:00Z")
    );
}

#[test]
fn matches_on_a_field_come_latest_first() {
    let mut untimed = blank("u", "u");
    untimed.field = s("F1");
    let all = vec![
        on_field("a", "F1", "2025-05-03T09:00"),
        untimed,
        on_field("b", "F1", "2025-05-03T11:00"),
        on_field("c", "F2", "2025-05-03T12:00"),
        on_field("d", "F1", "2025-05-03T09:00"),
    ];
    let ids: Vec<&str> = matches_on_field_sorted(&all, "F1", None).iter().map(|m| m.uuid.as_str()).collect();
    assert_eq!(ids, vec!["b", "a", "d", "u"]);
    let ids: Vec<&str> = matches_on_field_sorted(&all, "F1", Some("a")).iter().map(|m| m.uuid.as_str()).collect();
    assert_eq!(ids, vec!["b", "d", "u"]);
    assert!(matches_on_field_sorted(&all, "F3", None).is_empty());
}

#[test]
fn days_with_matches() {
    let mut skipped = on_field("x", "F1", "2025-05-09T09:00");
    skipped.status = "SKIPPED".to_string();
    let all = vec![
        on_field("a", "F1", "2025-05-04T09:00"),
        on_field("b", "F1", "2025-05-03T23:30"),
        on_field("c", "F1", "2025-05-04T10:00"),
        skipped,
        on_field("d", "F1", "never"),
    ];
    let d3 = 20_211;
    assert_eq!(dates_with_matches(&all, 0), vec![d3, d3 + 1]);
    // An hour on, the late match falls on the next day.
    assert_eq!(dates_with_matches(&all, 60), vec![d3 + 1]);
    assert_eq!(day_heading(d3).as_deref(), Some("Saturday, May 03"));
    assert_eq!(day_heading(110_000_000), None);
}

#[test]
fn stepping_through_days() {
    let days = [10i64, 12, 15];
    assert_eq!(default_visible_date(&days, 12), 12);
    assert_eq!(default_visible_date(&days, 11), 10);
    assert_eq!(default_visible_date(&[], 11), 11);
    assert_eq!(step_visible_date(&days, 10, 0, "next"), 12);
    assert_eq!(step_visible_date(&days, 15, 0, "next"), 15);
    assert_eq!(step_visible_date(&days, 12, 0, "prev"), 10);
    assert_eq!(step_visible_date(&days, 10, 0, "prev"), 10);
    assert_eq!(step_visible_date(&days, 11, 0, "next"), 11);
    assert_eq!(step_visible_date(&days, 10, 15, "today"), 15);
    assert_eq!(step_visible_date(&days, 15, 11, "today"), 10);
    assert_eq!(step_visible_date(&[], 15, 11, "today"), 15);
    assert_eq!(step_visible_date(&days, 10, 15, "leap"), 10);
    // A step back undoes a step forward.
    assert_eq!(step_visible_date(&days, step_visible_date(&days, 10, 0, "next"), 0, "prev"), 10);
    assert_eq!(date_neighbours(&days, 10), (false, true));
    assert_eq!(date_neighbours(&days, 12), (true, true));
    assert_eq!(date_neighbours(&days, 15), (true, false));
    assert_eq!(date_neighbours(&days, 11), (false, false));
}

#[test]
fn intervals_of_known_times() {
    let (nine, ten, eleven) = (at("2025-05-03T09:00:00Z"), at("2025-05-03T10:00:00Z"), at("2025-05-03T11:00:00Z"));
    let plan = Some((ten, at("2025-05-03T10:45:00Z")));
    assert_eq!(interval_to_show(Some(ten), None, None, Some(45), false), plan);
    assert_eq!(interval_to_show(Some(ten), None, None, None, false), Some((ten, at("2025-05-03T10:30:00Z"))));
    // Late is not shown later, early is shown earlier.
    assert_eq!(interval_to_show(Some(ten), Some(eleven), None, Some(45), false), plan);
    assert_eq!(interval_to_show(Some(ten), Some(nine), None, Some(45), false).unwrap().0, nine);
    // As it happened, the real times count.
    assert_eq!(interval_to_show(Some(nine), Some(ten), Some(eleven), Some(45), true), Some((ten, eleven)));
    assert_eq!(interval_to_show(Some(ten), None, None, Some(0), false), Some((ten, at("2025-05-03T10:01:00Z"))));
    assert_eq!(interval_to_show(None, None, Some(ten), Some(45), false), None);
    assert_eq!(interval_to_show(None, None, None, Some(45), true), None);
}

#[test]
fn the_latest_of_some_starts() {
    let (nine, ten, eleven) = (at("2025-05-03T09:00:00Z"), at("2025-05-03T10:00:00Z"), at("2025-05-03T11:00:00Z"));
    let starts = [Some(ten), None, Some(nine), Some(ten), Some(eleven)];
    assert_eq!(latest_start_before(&starts, ten), Some(3));
    assert_eq!(latest_start_before(&starts, nine), Some(2));
    assert_eq!(latest_start_before(&starts, at("2025-05-03T08:59:59Z")), None);
    assert_eq!(latest_start_before(&starts, at("2025-05-04T00:00:00Z")), Some(4));
    assert_eq!(latest_start_before(&[], ten), None);
}

#[test]
fn days_come_once_and_in_order() {
    assert_eq!(days_once(&[Some(5), None, Some(-2), Some(5), Some(3)]), vec![-2, 3, 5]);
    assert!(days_once(&[None]).is_empty());
}

#[test]
fn a_utc_time_turns_back_to_the_minute() {
    for (iso, minute) in [
        ("2025-05-03T08:05:59Z", "2025-05-03T08:05:00Z"),
        ("2025-05-03T08:05:59.75", "2025-05-03T08:05:00Z"),
        ("2025-05-03 08:05", "2025-05-03T08:05:00Z"),
        ("2024-02-29T23:59:30+02:00", "2024-02-29T21:59:00Z"),
        ("0001-01-02T00:00:01Z", "0001-01-02T00:00:00Z"),
        ("9999-12-30T12:34:56Z", "9999-12-30T12:34:00Z"),
        ("2016-12-31T23:59:60Z", "2016-12-31T23:59:00Z"),
    ] {
        for tz in [-720, -210, 0, 60, 345, 840] {
            let local = utc_iso_to_local_datetime_input(iso, tz).unwrap();
            let back = local_datetime_to_utc_iso(&local, tz).unwrap();
            if tz < 0 && iso.ends_with(":60Z") {
                assert_eq!(back, "2017-01-01T00:00:00Z");
            } else {
                assert_eq!(back, minute, "{iso} {tz}");
            }
        }
    }
}
