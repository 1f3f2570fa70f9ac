use arctos::moment::Moment;
use arctos::scoreboard::{
    beat, count_beats, counts_live, scoreboard_compute_stones_remaining, scoreboard_stones_elapsed, set_scores,
    stones_on_board, stones_remaining, stones_to_show, winner_side, PointBeats,
};
use arctos::start_match::{
    can_start, confirm_message, find_player, first_matching, has_unpaid, injuries_line, note_view,
    notes_outcome, player_label, player_rows, player_with_id, search_results, selected_line,
    start_match_request, Lineups, RawNote, SearchKeys, Side,
};
use arctos::time_sync::{
    load_calibration, pick_lowest_rtt, stored_lock, touches_calibration, BayesianOffsetFilter, Calibration,
    Observation, Probe, SyncLevels, TimeSync, AUDIO_DELAY_KEY, CLOCK_OFFSET_KEY, OFFSET_LOCKED_KEY,
};
use arctos::tournament_home::{
    active_info_tab, after_delete, bracket_link, delete_confirmed, event_subtitle, format_date, format_date_display,
    is_current_user_to, jersey_text, registration_button, registration_label, sidecomp_delete_question, AfterDelete,
    BracketLink,
};
use arctos::tournament_home::RegistrationButton::{
    Closed, EditPlayer, EditTeam, PlayerClosed, Register, SignIn, TeamClosed,
};
use arctos::types::{
    default_port_label, deserialize_point_timestamps, BracketPlacementData, PointTimestamp, RawPointTimestamp,
    ScoreboardPointForStones, StartMatchPlayer, ToEntry, UnattachedPlayer, User,
};

fn s(t: &str) -> Option<String> {
    Some(t.to_string())
}

fn texts(v: &[&str]) -> Vec<String> {
    v.iter().map(|t| t.to_string()).collect()
}

fn player(id: &str, name: &str, paid: bool) -> StartMatchPlayer {
    StartMatchPlayer {
        id: id.to_string(),
        name: name.to_string(),
        jersey_name: None,
        jersey_number: None,
        team: None,
        paid,
        injuries: vec![],
    }
}

#[test]
fn nobody_plays_for_both_sides() {
    let one = [player("a", "A", true), player("b", "B", true), player("a", "A", true)];
    let two = [player("c", "C", true)];
    let mut l = Lineups::new(&one, &two);
    assert_eq!((l.team1_all.len(), l.team1_selected.clone(), l.team2_selected.clone()), (3, texts(&["a", "b"]), texts(&["c"])));
    l = l.toggle(Side::Two, "a", true);
    assert_eq!((l.team1_selected.clone(), l.team2_selected.clone()), (texts(&["b"]), texts(&["c", "a"])));
    l = l.toggle(Side::Two, "c", false);
    l = l.toggle(Side::One, "b", true);
    assert_eq!((l.team1_selected.clone(), l.team2_selected.clone()), (texts(&["b"]), texts(&["a"])));
    l = l.toggle(Side::One, "a", true);
    assert_eq!((l.team1_selected.clone(), l.team2_selected.clone()), (texts(&["b", "a"]), vec![]));
    l.add_player(Side::Two, "d");
    l.add_player(Side::Two, "d");
    assert_eq!((l.team2_all.clone(), l.team2_selected.len()), (texts(&["c", "d"]), 0));
    l.add_player(Side::One, "z");
    let q = start_match_request("m", &l, "note");
    assert_eq!((q.match_id.as_str(), q.team1_players, q.team2_players), ("m", texts(&["b", "a"]), vec![]));
    assert_eq!((q.match_notes.as_str(), q.stones_per_set), ("note", None));
}

#[test]
fn who_can_start() {
    let all = [player("a", "A", true), player("b", "B", false)];
    assert_eq!(player_with_id(&all, "b"), Some(1));
    assert!(has_unpaid(&all, &texts(&["a", "b"])) && !has_unpaid(&all, &texts(&["a", "nobody"])));
    assert!(can_start(&all, &texts(&["a"]), &[], Some(1)));
    assert!(!can_start(&all, &texts(&["a", "x"]), &[], Some(1)));
    assert!(!can_start(&all, &[], &texts(&["a", "x"]), Some(1)));
    assert!(!can_start(&all, &texts(&["a"]), &texts(&["b"]), Some(5)));
    assert!(!can_start(&all, &texts(&["a"]), &[], None) && can_start(&all, &[], &[], None));
    assert_eq!(selected_line(3, Some(8)), "3/8 players selected");
    assert_eq!(selected_line(0, None), "0/0 players selected");
}

#[test]
fn empty_sides_are_confirmed() {
    let end = "This typically only happens if a team doesn't show up. Are you sure you want to start the match?";
    assert_eq!(confirm_message(0, 0), Some(format!("Both teams have zero players. {end}")));
    assert_eq!(confirm_message(0, 2), Some(format!("Team 1 has zero players. {end}")));
    assert_eq!(confirm_message(2, 0), Some(format!("Team 2 has zero players. {end}")));
    assert_eq!(confirm_message(2, 2), None);
}

#[test]
fn searching_players() {
    let mut all: Vec<StartMatchPlayer> = (0..8).map(|i| player(&format!("id{i}"), "Äna", true)).collect();
    all[3].name = "Bob".to_string();
    assert_eq!(search_results(&all, " äNA "), vec![0, 1, 2, 4, 5]);
    assert_eq!(search_results(&all, "ID7"), vec![7]);
    assert_eq!(search_results(&all, "  "), Vec::<usize>::new());
    assert_eq!(find_player(&all, "bo"), Some(3));
    assert_eq!(find_player(&all, "zz"), None);
    assert_eq!(find_player(&all, ""), None);
}

#[test]
fn labels_of_players() {
    let mut p = player("a", "Ann", true);
    assert_eq!(player_label(&p), "Ann");
    p.jersey_number = s("07");
    assert_eq!(player_label(&p), "Ann #07");
    p.jersey_name = s("ACE");
    assert_eq!(player_label(&p), "ACE #07");
    assert_eq!(injuries_line(&p), None);
    p.injuries = texts(&["knee", "hand"]);
    assert_eq!(injuries_line(&p).as_deref(), Some("knee • hand"));
}

#[test]
fn notes() {
    let mut n = RawNote {
        text: s("  "),
        penalty_type_name: None,
        penalty_type_color: s("#ff0000"),
        penalty_type_desc: s(""),
        player_display: None,
        player_name: None,
        target: None,
    };
    let v = note_view(&n, "Hawks", "Owls");
    assert_eq!((v.border_color.as_str(), v.display_text.as_str(), v.target_display.as_str()), ("808080", "Other", "Match"));
    assert_eq!(v.description, None);
    n.text = s(" late ");
    n.target = s("team2");
    let v = note_view(&n, "Hawks", "Owls");
    assert_eq!((v.display_text.as_str(), v.target_display.as_str()), ("late", "Owls"));
    n.target = s("team1");
    assert_eq!(note_view(&n, "Hawks", "Owls").target_display, "Hawks");
    n.penalty_type_name = s("Yellow");
    n.penalty_type_desc = s("too late");
    n.player_name = s("Ann");
    let v = note_view(&n, "Hawks", "Owls");
    assert_eq!((v.border_color.as_str(), v.display_text.as_str(), v.target_display.as_str()), ("ff0000", "Yellow", "Ann"));
    assert_eq!(v.description.as_deref(), Some("too late"));
    n.penalty_type_color = None;
    n.player_display = s("Ann #7");
    let v = note_view(&n, "Hawks", "Owls");
    assert_eq!((v.border_color.as_str(), v.target_display.as_str()), ("808080", "Ann #7"));
    assert_eq!(notes_outcome(Some(false), Some("no")).as_deref(), Some("no"));
    assert_eq!(notes_outcome(Some(false), None).as_deref(), Some("Failed to load notes"));
    assert_eq!((notes_outcome(Some(true), Some("no")), notes_outcome(None, Some("no"))), (None, None));
}

fn point(start: Option<&str>, end: Option<&str>, stones: Option<u32>) -> ScoreboardPointForStones {
    ScoreboardPointForStones {
        stamp: start.map(String::from),
        end_stamp: end.map(String::from),
        stones_at_start: stones,
    }
}

const NOON: &str = "2025-05-03T12:00:00Z";
const NOON_BEAT: i64 = 1_746_273_600_000 / 1500;

#[test]
fn beats_are_counted_from_stamps() {
    assert_eq!(beat(Moment { secs: 0, nanos: 0 }), 0);
    assert_eq!(beat(Moment { secs: 1, nanos: 500_000_000 }), 1);
    assert_eq!(beat(Moment { secs: 1, nanos: 499_999_999 }), 0);
    assert_eq!(beat(Moment { secs: -1, nanos: 999_000_000 }), -1);
    assert_eq!(beat(Moment { secs: -2, nanos: 499_000_000 }), -2);
    assert_eq!(scoreboard_stones_elapsed(Some(NOON), Some("2025-05-03T12:00:15Z"), 0), Some(10));
    assert_eq!(scoreboard_stones_elapsed(Some(NOON), Some("2025-05-03T14:00:16.499+02:00"), 0), Some(10));
    assert_eq!(scoreboard_stones_elapsed(Some(NOON), Some("2025-05-03T11:59:00Z"), 0), Some(0));
    assert_eq!(scoreboard_stones_elapsed(Some(NOON), None, NOON_BEAT + 7), Some(7));
    assert_eq!(scoreboard_stones_elapsed(Some("noon"), None, NOON_BEAT), None);
    assert_eq!(scoreboard_stones_elapsed(Some(NOON), Some("later"), NOON_BEAT), None);
    assert_eq!(scoreboard_stones_elapsed(None, None, NOON_BEAT), None);
}

#[test]
fn stones_that_are_left() {
    let ended = point(Some(NOON), Some("2025-05-03T12:00:15Z"), Some(100));
    let running = point(Some(NOON), None, Some(50));
    let rem = |p: &[ScoreboardPointForStones], b: i64| scoreboard_compute_stones_remaining(p, b);
    assert_eq!(rem(&[], NOON_BEAT), None);
    assert_eq!(rem(&[running.clone()], NOON_BEAT + 20), Some(30));
    assert_eq!(rem(&[running.clone()], NOON_BEAT + 500), Some(0));
    assert_eq!(rem(&[running.clone()], NOON_BEAT - 5), Some(50));
    assert_eq!(rem(&[ended.clone()], NOON_BEAT + 500), Some(90));
    // Between points the last one counts of which it can be told.
    let unknown = point(Some("?"), Some("2025-05-03T12:00:15Z"), Some(10));
    assert_eq!(rem(&[ended.clone(), unknown.clone()], 0), Some(90));
    assert_eq!(rem(&[unknown.clone()], 0), None);
    // During a point only that one does.
    assert_eq!(rem(&[ended.clone(), point(Some(NOON), None, None)], NOON_BEAT), None);
    let during = Some(vec![running]);
    let between = Some(vec![ended]);
    assert_eq!(stones_to_show(&during, Some(77), NOON_BEAT + 20), 30);
    assert_eq!(stones_to_show(&between, Some(77), NOON_BEAT + 20), 77);
    assert_eq!(stones_to_show(&between, None, NOON_BEAT + 20), 90);
    assert_eq!(stones_to_show(&Some(vec![point(None, None, None)]), Some(77), 0), 77);
    assert_eq!(stones_to_show(&None, None, 0), 0);
    assert!(counts_live(true, true) && !counts_live(true, false) && !counts_live(false, true));
    assert_eq!((winner_side(Some("TEAM1")), winner_side(Some("TEAM2")), winner_side(None)), (Some(1), Some(2), None));
}

#[test]
fn dates_of_tournaments() {
    assert_eq!(format_date("2025-05-03T10:00:00"), "2025-05-03");
    assert_eq!(format_date("2025-05-03"), "2025-05-03");
    assert_eq!(format_date_display("2025-05-03T10", None), "2025-05-03");
    assert_eq!(format_date_display("2025-05-03T10", Some("2025-05-03T10")), "2025-05-03");
    assert_eq!(format_date_display("2025-05-03T10", Some("2025-05-04T09")), "2025-05-03 - 2025-05-04");
    assert_eq!(event_subtitle(Some("Berlin"), "2025-05-03", None), "Berlin • 2025-05-03");
    assert_eq!(event_subtitle(None, "2025-05-03", None), "Location TBA • 2025-05-03");
}

#[test]
fn organisers() {
    let user = |id: &str, t: &str| User { id: id.to_string(), name: String::new(), user_type: t.to_string(), has_password: true };
    let entry = |id: &str, t: &str| ToEntry {
        id: 1,
        user_id: id.to_string(),
        user_type: t.to_string(),
        user_name: String::new(),
        is_current_user: false,
    };
    let entries = [entry("a", "team"), entry("b", "player")];
    assert!(is_current_user_to(Some(&user("b", "player")), &entries));
    assert!(!is_current_user_to(Some(&user("b", "team")), &entries));
    assert!(!is_current_user_to(None, &entries));
}

#[test]
fn registration() {
    for (who, team_in, player_in, team_open, player_open, want, label) in [
        (None, true, true, true, true, SignIn, "Sign in to register"),
        (Some("team"), true, false, false, false, EditTeam, "Edit Registration"),
        (Some("team"), false, true, true, false, Register, "Register"),
        (Some("team"), false, false, false, true, TeamClosed, "Team registration closed"),
        (Some("player"), false, true, false, false, EditPlayer, "Edit Registration"),
        (Some("player"), false, false, false, true, Register, "Register"),
        (Some("player"), false, false, true, false, PlayerClosed, "Player registration closed"),
        (Some("admin"), true, true, false, true, Register, "Register"),
        (Some("admin"), false, false, false, false, Closed, "Registration closed"),
    ] {
        assert_eq!(registration_button(who, team_in, player_in, team_open, player_open), want);
        assert_eq!(registration_label(want), label);
    }
}

#[test]
fn parts_of_the_home_page() {
    assert_eq!(bracket_link(true, false), BracketLink::Public);
    assert_eq!(bracket_link(false, true), BracketLink::Unpublished);
    assert_eq!(bracket_link(false, false), BracketLink::Hidden);
    assert_eq!(active_info_tab(None, Some("sidecomps")), "sidecomps");
    assert_eq!(active_info_tab(None, Some("else")), "info");
    assert_eq!(active_info_tab(Some("rules"), Some("sidecomps")), "rules");
    let p = |number: Option<&str>, name: Option<&str>| {
        jersey_text(&UnattachedPlayer {
            player_id: "p".to_string(),
            player_name: "P".to_string(),
            jersey_number: number.map(String::from),
            jersey_name: name.map(String::from),
            registered_at: None,
            profile_photo: None,
        })
    };
    assert_eq!(p(Some("7"), Some("ACE")).as_deref(), Some("#7 ACE"));
    assert_eq!(p(Some("7"), None).as_deref(), Some("#7"));
    assert_eq!(p(None, Some("ACE")).as_deref(), Some("ACE"));
    assert_eq!(p(None, None), None);
    assert!(delete_confirmed("cup", "cup") && !delete_confirmed("Cup", "cup"));
    assert!(matches!(after_delete(Ok(true), None, Some("l")), AfterDelete::GoToLeague(x) if x == "l"));
    assert!(matches!(after_delete(Ok(true), Some("e"), None), AfterDelete::GoHome));
    assert!(matches!(after_delete(Ok(false), Some("e"), None), AfterDelete::Stay(x) if x == "e"));
    assert!(matches!(after_delete(Ok(false), None, None), AfterDelete::Stay(x) if x == "Delete failed."));
    assert!(matches!(after_delete(Err("off".to_string()), None, Some("l")), AfterDelete::Stay(x) if x == "off"));
    assert_eq!(sidecomp_delete_question("Duel"), "Delete 'Duel'? This cannot be undone.");
}

#[test]
fn placements_of_brackets() {
    let mut b = BracketPlacementData {
        x_pos: Some(1.5),
        y_pos: None,
        width: 2.0,
        height: 1.0,
        team1: default_port_label(),
        team2: "NET".to_string(),
        inputs_flipped: false,
        placed: false,
    };
    assert!(!b.is_placed() && !b.is_net_team1() && b.is_net_team2());
    b.y_pos = Some(0.0);
    assert!(b.is_placed());
    b.x_pos = None;
    assert!(!b.is_placed());
    b.placed = true;
    b.team1 = "net".to_string();
    assert!(b.is_placed() && b.is_net_team1());
    assert_eq!(default_port_label(), "LABEL");
}

#[test]
fn times_of_points() {
    let entry = |u: &str, t: f64| PointTimestamp { point_uuid: s(u), in_video_start: t };
    let list = deserialize_point_timestamps(Some(vec![
        RawPointTimestamp::Seconds(1.5),
        RawPointTimestamp::Other,
        RawPointTimestamp::Entry(entry("u", 2.5)),
        RawPointTimestamp::Seconds(3.5),
    ]))
    .unwrap();
    let shown: Vec<(Option<&str>, f64)> = list.iter().map(|p| (p.point_uuid.as_deref(), p.in_video_start)).collect();
    assert_eq!(shown, vec![(None, 1.5), (Some("u"), 2.5), (None, 3.5)]);
    assert!(deserialize_point_timestamps::<f64>(None).is_none());
    assert_eq!(deserialize_point_timestamps::<f64>(Some(vec![])).unwrap().len(), 0);
}

fn levels() -> SyncLevels<f64> {
    SyncLevels {
        zero: 0.0,
        initial_variance: 1e12,
        converged_variance: 100.0,
        locked_variance: 50.0,
        process_noise: 7.5,
    }
}

/// A number that orders durations of zero and more as they are ordered.
fn key(p: &Probe<f64>) -> i64 {
    (p.client_receive_secs - p.client_send_secs).to_bits() as i64
}

#[test]
fn pick_lowest_rtt_selects_least_queued_sample() {
    let samples = vec![
        Probe { client_send_secs: 0.0, client_receive_secs: 0.30, server_time_secs: 100.0 },
        Probe { client_send_secs: 0.0, client_receive_secs: 0.05, server_time_secs: 100.0 },
        Probe { client_send_secs: 0.0, client_receive_secs: 0.20, server_time_secs: 100.0 },
    ];
    let keys: Vec<i64> = samples.iter().map(key).collect();
    let best = pick_lowest_rtt(&samples, &keys).expect("some sample");
    assert!((best.client_receive_secs - best.client_send_secs - 0.05).abs() <= 1e-9);
}

#[test]
fn pick_lowest_rtt_none_when_empty() {
    assert!(pick_lowest_rtt::<f64>(&[], &[]).is_none());
}

#[test]
fn of_equal_round_trips_the_first_counts() {
    let probe = |t: f64| Probe { client_send_secs: 0.0, client_receive_secs: 1.0, server_time_secs: t };
    let best = pick_lowest_rtt(&[probe(1.0), probe(2.0), probe(3.0)], &[5, 4, 4]).unwrap();
    assert_eq!(best.server_time_secs, 2.0);
}

#[test]
fn filter_default_is_not_converged() {
    let filter = BayesianOffsetFilter::new(&levels());
    assert!(!(filter.get_variance_ms2() < levels().converged_variance));
    assert_eq!((filter.get_mean_ms(), filter.process_noise_ms2, filter.rejected_count), (0.0, 7.5, 0));
}

#[test]
fn a_tick_takes_the_grown_variance() {
    let mut filter = BayesianOffsetFilter::new(&levels());
    filter.mean_ms = 3.0;
    filter.predict(57.5);
    assert_eq!((filter.get_mean_ms(), filter.get_variance_ms2(), filter.rejected_count), (3.0, 57.5, 0));
}

#[test]
fn reset_restores_high_uncertainty() {
    let mut filter = BayesianOffsetFilter::new(&levels());
    assert_eq!(filter.observe(Observation::Accepted { mean_ms: 42.0, variance_ms2: 4.0 }), 42.0);
    assert_eq!(filter.observe(Observation::Rejected), 42.0);
    assert_eq!((filter.variance_ms2, filter.rejected_count), (4.0, 1));
    filter.reset(&levels());
    assert!(filter.get_mean_ms().abs() <= 1e-9);
    assert!(!(filter.get_variance_ms2() < levels().converged_variance));
    assert_eq!(filter.rejected_count, 0);
}

#[test]
fn calibrations_are_stored_and_loaded() {
    let c = load_calibration(Some(20.0), Some("1"), Some(-3.0), 0.0);
    assert_eq!((c.audio_delay_ms, c.offset_locked, c.locked_offset_ms), (20.0, true, -3.0));
    let c = load_calibration(None, Some("TRUE"), None, 0.0);
    assert_eq!((c.audio_delay_ms, c.offset_locked, c.locked_offset_ms), (0.0, true, 0.0));
    let c = load_calibration(Some(20.0), Some("0"), Some(-3.0), 0.0);
    assert_eq!((c.offset_locked, c.locked_offset_ms), (false, 0.0));
    for locked in [true, false] {
        let c = Calibration { audio_delay_ms: 1.0, offset_locked: locked, locked_offset_ms: 2.0 };
        let l = load_calibration(Some(c.audio_delay_ms), Some(stored_lock(locked)), Some(c.locked_offset_ms), 0.0);
        assert_eq!(l.locked_offset_ms, if locked { 2.0 } else { 0.0 });
        assert_eq!((l.audio_delay_ms, l.offset_locked), (1.0, locked));
    }
    assert!([CLOCK_OFFSET_KEY, AUDIO_DELAY_KEY, OFFSET_LOCKED_KEY].iter().all(|k| touches_calibration(Some(k))));
    assert!(touches_calibration(None) && !touches_calibration(Some("other")));
}

#[test]
fn locking_and_restoring() {
    let off = Calibration { audio_delay_ms: 5.0, offset_locked: false, locked_offset_ms: 0.0 };
    let mut t = TimeSync::new(off, &levels());
    assert!(t.tick(7.0));
    t.measured(Observation::Accepted { mean_ms: 12.0, variance_ms2: 4.0 }, 30.0);
    let q = t.quality(true);
    assert_eq!((q.offset_ms, q.variance_ms2, q.rtt_ms, q.converged), (12.0, 4.0, Some(30.0), true));
    t.measured(Observation::Rejected, 99.0);
    assert_eq!((t.filter.rejected_count, t.last_rtt_ms, t.filter.mean_ms), (1, Some(99.0), 12.0));
    let snap = t.snapshot();
    t.set_offset_ms(-8.0, &levels());
    assert_eq!((t.filter.mean_ms, t.filter.variance_ms2), (-8.0, 50.0));
    assert!(t.calibration().offset_locked && !t.tick(99.0));
    assert_eq!(t.filter.variance_ms2, 50.0);
    t.set_offset_locked(false, true, &levels());
    assert_eq!((t.filter.mean_ms, t.filter.variance_ms2, t.calibration.offset_locked), (-8.0, 100.0, false));
    t.set_audio_delay_ms(9.0);
    t.restore_snapshot(snap);
    assert_eq!((t.filter.mean_ms, t.filter.variance_ms2, t.calibration.audio_delay_ms), (12.0, 4.0, 5.0));
    t.set_offset_locked(true, true, &levels());
    assert_eq!((t.calibration.locked_offset_ms, t.filter.variance_ms2), (12.0, 50.0));
    t.begin_clock_calibration(&levels());
    assert_eq!((t.filter.mean_ms, t.filter.variance_ms2, t.filter.rejected_count), (0.0, 1e12, 0));
    assert_eq!((t.calibration.offset_locked, t.calibration.audio_delay_ms), (false, 5.0));
    t.set_offset_locked(false, false, &levels());
    assert_eq!(t.filter.variance_ms2, 1e12);
    t.reset_sync(&levels());
    assert_eq!((t.calibration.audio_delay_ms, t.calibration.locked_offset_ms), (0.0, 0.0));
}

#[test]
fn pages_share_a_locked_offset() {
    let on = Calibration { audio_delay_ms: 5.0, offset_locked: true, locked_offset_ms: 33.0 };
    let off = Calibration { audio_delay_ms: 5.0, offset_locked: false, locked_offset_ms: 0.0 };
    let mut t = TimeSync::new(on, &levels());
    assert_eq!((t.filter.mean_ms, t.filter.variance_ms2), (33.0, 50.0));
    t.storage_changed(off, &levels());
    assert_eq!((t.filter.mean_ms, t.filter.variance_ms2), (0.0, 1e12));
    t.measured(Observation::Accepted { mean_ms: 1.0, variance_ms2: 2.0 }, 3.0);
    t.storage_changed(off, &levels());
    assert_eq!((t.filter.mean_ms, t.filter.variance_ms2), (1.0, 2.0));
    t.storage_changed(on, &levels());
    assert_eq!((t.filter.mean_ms, t.calibration.locked_offset_ms), (33.0, 33.0));
}

#[test]
fn stones_from_beats() {
    let ended = |stones: u32, start: i64, end: i64| PointBeats {
        stones_at_start: Some(stones),
        start: Some(start),
        ended: true,
        end: Some(end),
    };
    let running = |stones: Option<u32>, start: Option<i64>| PointBeats {
        stones_at_start: stones,
        start,
        ended: false,
        end: None,
    };
    let unread = PointBeats { stones_at_start: Some(9), start: Some(1), ended: true, end: None };
    assert_eq!(stones_remaining(&[ended(100, 10, 40), running(Some(70), Some(50))], 65), Some(55));
    assert_eq!(stones_remaining(&[ended(100, 10, 40), running(Some(70), None)], 65), None);
    assert_eq!(stones_remaining(&[ended(100, 10, 40), unread], 65), Some(70));
    assert_eq!(stones_remaining(&[unread], 65), None);
    assert_eq!(stones_remaining(&[], 65), None);
    // Stones only go down during a point, and never below none.
    let left: Vec<u32> = (48..56).map(|b| stones_remaining(&[running(Some(3), Some(50))], b).unwrap()).collect();
    assert_eq!(left, vec![3, 3, 3, 2, 1, 0, 0, 0]);
    assert_eq!((count_beats(5, 9), count_beats(9, 5), count_beats(0, (1 << 32) + 2)), (4, 0, 2));
    // Beats add up.
    for (a, b, c) in [(-7, -7, 3), (0, 4, 9), (5, 5, 5), (-1, 0, (1 << 32) - 2)] {
        assert_eq!(count_beats(a, b) + count_beats(b, c), count_beats(a, c));
    }
    assert_eq!(stones_on_board(Some(1), Some(2), true), 1);
    assert_eq!(stones_on_board(Some(1), Some(2), false), 2);
    assert_eq!(stones_on_board(None, Some(2), true), 2);
    assert_eq!(stones_on_board(None, None, false), 0);
}

#[test]
fn scores_of_sets() {
    assert_eq!(set_scores(&[1, 2, 3], &[(3, 5), (1, 7)]), vec![7, 0, 5]);
    assert_eq!(set_scores(&[2, 2], &[(2, 4), (2, 9)]), vec![4, 4]);
    assert_eq!(set_scores(&[1], &[]), vec![0]);
    assert!(set_scores(&[], &[(1, 7)]).is_empty());
}

#[test]
fn searching_keys() {
    let keys: Vec<SearchKeys> = ["ana", "bob", "hana", "x", "banana", "nana", "manas", "ana"]
        .iter()
        .enumerate()
        .map(|(i, n)| SearchKeys { name: n.to_string(), id: format!("id{i}") })
        .collect();
    assert_eq!(first_matching(&keys, "ana"), vec![0, 2, 4, 5, 6]);
    assert_eq!(first_matching(&keys, "id3"), vec![3]);
    assert!(first_matching(&keys, "").is_empty());
}

#[test]
fn rows_of_players() {
    let players = [player("a", "A", true), player("b", "B", true), player("c", "C", true)];
    let rows = player_rows(&players, &texts(&["c", "nobody", "a"]), &texts(&["c"]), &texts(&["a", "b"]));
    let shown: Vec<(usize, bool, bool)> = rows.iter().map(|r| (r.player, r.selected, r.disabled)).collect();
    assert_eq!(shown, vec![(2, true, false), (0, false, true)]);
}
