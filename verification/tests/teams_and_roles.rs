use arctos::teams::{
    find_option, is_break_like_type, is_structural_match, is_structural_type, match_involves_team, opponent_for_focus,
    or_empty, refs_tokens, resolve_team_display, status_color_and_label, team_full_label, team_is_playing,
    team_is_reffing, team_ref_display, token_matches_team,
};
use arctos::types::{MatchSetupData, TeamOption};

fn blank(uuid: &str, name: &str) -> MatchSetupData {
    MatchSetupData {
        uuid: uuid.to_string(),
        name: name.to_string(),
        field: None,
        team1: None,
        team2: None,
        team1_initial: None,
        team2_initial: None,
        status: "NOT_STARTED".to_string(),
        scheduled_start_time: None,
        nominal_start_time: None,
        confirmed_start_time: None,
        completed_time: None,
        schedule_type: None,
        set_type: None,
        nominal_length: None,
        previous_match: None,
        next_match: None,
        refs: None,
        refs_initial: None,
        ribbon: false,
        skip_condition: None,
        nsets: None,
        stones_per_set: None,
        stones_remaining: None,
        match_winner: None,
    }
}

fn s(t: &str) -> Option<String> {
    Some(t.to_string())
}

fn option(id: &str, pseudonym: Option<&str>, shortname: Option<&str>) -> TeamOption {
    TeamOption {
        id: id.to_string(),
        pseudonym: pseudonym.map(String::from),
        shortname: shortname.map(String::from),
        profile_photo: Some(format!("{id}.png")),
    }
}

fn refs(resolved: Option<&str>, initial: Option<&str>) -> Vec<String> {
    let mut m = blank("a", "A");
    m.refs = resolved.map(String::from);
    m.refs_initial = initial.map(String::from);
    refs_tokens(&m)
}

#[test]
fn blank_ref_slots_fall_through_to_the_setup() {
    assert_eq!(refs(Some(",,"), Some("tag::x, Final::loser,")), vec!["tag::x", "Final::loser"]);
    assert_eq!(refs(Some("t1, ,t3"), Some("a,b,c,d")), vec!["t1", "b", "t3", "d"]);
    assert_eq!(refs(Some(" t1 "), None), vec!["t1"]);
    assert_eq!(refs(None, None), Vec::<String>::new());
    assert_eq!(refs(Some(" , "), Some(" ,, ")), Vec::<String>::new());
}

#[test]
fn structural_kinds() {
    for (t, structural, break_like) in [
        (Some("BREAK"), true, true),
        (Some("STATBREAK"), true, true),
        (Some("JOIN"), true, false),
        (Some("STATIC"), false, false),
        (Some("break"), false, false),
        (None, false, false),
    ] {
        assert_eq!(is_structural_type(t), structural);
        assert_eq!(is_break_like_type(t), break_like);
        let mut m = blank("a", "A");
        m.schedule_type = t.map(String::from);
        assert_eq!(is_structural_match(&m), structural);
    }
}

#[test]
fn tokens_refer_to_teams() {
    let options = vec![option("t1", Some("The Hawks"), Some("HAW")), option("t2", None, None)];
    assert!(token_matches_team(" t1 ", "t1", &options));
    assert!(token_matches_team("T1", "t1", &options));
    assert!(token_matches_team("the hawks", "t1", &options));
    assert!(token_matches_team("haw", "t1", &options));
    assert!(!token_matches_team("t2", "t1", &options));
    assert!(!token_matches_team("", "t1", &options));
    assert!(!token_matches_team("t1", " ", &options));
    // A team without an option is known by its id alone.
    assert!(token_matches_team("T9", "t9", &options));
    assert!(!token_matches_team("t8", "t9", &options));
}

#[test]
fn labels_of_teams() {
    assert_eq!(team_full_label(&option("t1", Some("The Hawks"), Some("HAW"))), "The Hawks");
    assert_eq!(team_full_label(&option("t1", Some(""), None)), "t1");
    assert_eq!(team_full_label(&option("t1", None, None)), "t1");
    let options = vec![option("t1", Some("The Hawks"), None)];
    assert_eq!(find_option(&options, "t1"), Some(0));
    assert_eq!(find_option(&options, "t2"), None);
    assert_eq!(
        resolve_team_display("t1", &options),
        ("The Hawks".to_string(), Some("t1.png".to_string()), 0)
    );
    assert_eq!(resolve_team_display("TAG:: seed 1", &options), ("seed 1".to_string(), None, 1));
    assert_eq!(or_empty(None), "");
}

#[test]
fn expressions_of_teams() {
    assert_eq!(team_ref_display("Semi 1 ::winner"), (2, "Semi 1 winner".to_string()));
    assert_eq!(team_ref_display("Semi 1::loser"), (2, "Semi 1 loser".to_string()));
    assert_eq!(team_ref_display("tag::a"), (1, "a".to_string()));
    assert_eq!(team_ref_display("tag:"), (0, "tag:".to_string()));
    assert_eq!(team_ref_display("tagé::a"), (0, "tagé::a".to_string()));
    assert_eq!(team_ref_display(""), (0, "".to_string()));
    // The result of a match comes before a tag.
    assert_eq!(team_ref_display("tag::x::winner"), (2, "tag::x winner".to_string()));
}

#[test]
fn playing_and_reffing() {
    let options = vec![option("t1", Some("Hawks"), None), option("t2", None, None)];
    let mut m = blank("a", "A");
    m.team1 = s("t1");
    m.refs = s("t1,Hawks,t3");
    assert!(team_is_playing(&m, "t1"));
    // A team that plays does not ref, whatever the refs say.
    assert!(!team_is_reffing(&m, "t1", &options));
    assert!(team_is_reffing(&m, "t3", &options));
    assert!(match_involves_team(&m, "t1", &options) && match_involves_team(&m, "t3", &options));
    assert!(!match_involves_team(&m, "t2", &options));
    assert!(!match_involves_team(&m, "", &options));
    assert!(!team_is_playing(&m, ""));
}

#[test]
fn opponents() {
    let options = vec![option("t2", Some("Owls"), None)];
    let mut m = blank("a", "A");
    m.team1 = s("t1");
    m.team2_initial = s("Semi::winner");
    assert_eq!(opponent_for_focus(&m, "t1", &options), Some(("Semi winner".to_string(), None, 2)));
    m.team2 = s("t2");
    assert_eq!(
        opponent_for_focus(&m, "t1", &options),
        Some(("Owls".to_string(), Some("t2.png".to_string()), 0))
    );
    assert_eq!(opponent_for_focus(&m, "t2", &options), Some(("t1".to_string(), None, 0)));
    assert_eq!(opponent_for_focus(&m, "t3", &options), None);
    m.team1 = None;
    assert_eq!(opponent_for_focus(&m, "t2", &options), Some(("TBA".to_string(), None, 0)));
}

#[test]
fn statuses() {
    for (status, color, label) in [
        ("COMPLETED", "#7acb8b", "Completed"),
        ("IN_PROGRESS", "#ffd666", "In Progress"),
        ("TIME_FINALIZED", "#a5adb5", "Time Finalized"),
        ("READY_TO_START", "#82b1ff", "Ready to Start"),
        ("NOT_STARTED", "#6cc5d4", "Not Started"),
        ("ON_HOLD_NOW", "#6cc5d4", "On hold now"),
        ("ÄB_C", "#6cc5d4", "äb c"),
        ("", "#6cc5d4", ""),
    ] {
        assert_eq!(status_color_and_label(status), (color.to_string(), label.to_string()));
    }
}
