use arctos::moment::{
    clock_string, day, is_earlier, max_moment, min_moment, minute, minutes_from, plus_minutes, second_of_day,
    whole_minutes, Moment,
};
use arctos::text::{
    capitalize, chars_of, comes_before, concat3, contains, decimal_text, eq_ignore_ascii_case, join, list_contains,
    opt_str_eq, parse_u32, parse_u32_or, split, str_eq, strip_suffix, swap_char, trim, trim_end_char,
    trim_start_char, two_digit_text, up_to_first, white_space,
};

fn strings(v: &[&str]) -> Vec<String> {
    v.iter().map(|s| s.to_string()).collect()
}

#[test]
fn white_space_agrees_with_std_on_every_character() {
    for u in 0..=0x10ffffu32 {
        if let Some(c) = char::from_u32(u) {
            assert_eq!(white_space(c), c.is_whitespace(), "{u:x}");
        }
    }
}

#[test]
fn trimming_agrees_with_std() {
    for s in ["", " ", "a", "  a b\t", "\u{3000}x\u{a0}", "é ", ",, ,"] {
        assert_eq!(trim(s), s.trim());
        assert_eq!(trim_end_char(s, ','), s.trim_end_matches(','));
        assert_eq!(trim_start_char(s, ','), s.trim_start_matches(','));
    }
}

#[test]
fn splitting_agrees_with_std_and_joins_back() {
    for s in ["", ",", "a", "a,b", ",a,,b,", "é,ß"] {
        let parts = split(s, ',');
        assert_eq!(parts, s.split(',').collect::<Vec<_>>());
        assert_eq!(join(&strings(&parts), ","), s);
        assert!(parts.iter().all(|p| !p.contains(',')));
    }
}

#[test]
fn searching_agrees_with_std() {
    for (hay, needle) in [("abc", "bc"), ("abc", ""), ("", "a"), ("aab", "ab"), ("é", "é"), ("abc", "abcd")] {
        assert_eq!(contains(hay, needle), hay.contains(needle));
    }
    assert_eq!(strip_suffix("Final::winner", "::winner"), Some("Final"));
    assert_eq!(strip_suffix("Final::loser", "::winner"), None);
    assert_eq!(strip_suffix("r", "::winner"), None);
    assert_eq!(up_to_first("2025-05-03T10:00", 'T'), "2025-05-03");
    assert_eq!(up_to_first("none", 'T'), "none");
}

#[test]
fn comparing_agrees_with_std() {
    let all = ["", "a", "A", "ab", "b", "é", "z", "\u{10000}", "\u{ffff}"];
    for a in all {
        for b in all {
            assert_eq!(str_eq(a, b), a == b);
            assert_eq!(comes_before(a, b), a < b);
            assert_eq!(eq_ignore_ascii_case(a, b), a.eq_ignore_ascii_case(b));
            assert_eq!(opt_str_eq(Some(a), b), a == b);
        }
        assert!(!opt_str_eq(None, a));
    }
}

#[test]
fn numbers_are_written_and_read() {
    for n in [0u64, 7, 10, 42, 1000, u64::MAX] {
        assert_eq!(decimal_text(n), n.to_string());
        assert_eq!(two_digit_text(n), format!("{:02}", n));
    }
    for s in ["", "+", "0", "+7", "-1", "4294967295", "4294967296", "12a", "007", "99999999999999999999999"] {
        assert_eq!(parse_u32(s), s.parse::<u32>().ok(), "{s}");
    }
    assert_eq!(parse_u32_or("x", 30), 30);
    assert_eq!(parse_u32_or("45", 30), 45);
}

#[test]
fn changing_texts() {
    assert_eq!(swap_char("IN_THE_AIR", '_', " "), "IN THE AIR");
    assert_eq!(capitalize("in the air"), "In the air");
    assert_eq!(capitalize("éa"), "éa");
    assert_eq!(capitalize(""), "");
    assert_eq!(concat3("a", "b", "c"), "abc");
    assert_eq!(chars_of("aé"), vec!['a', 'é']);
    assert!(list_contains(&strings(&["x", "y"]), "y"));
    assert!(!list_contains(&strings(&["x", "y"]), "z"));
}

#[test]
fn moments_are_ordered_and_moved() {
    let m = Moment { secs: 59, nanos: 0 };
    let leap = Moment { secs: 59, nanos: 1_500_000_000 };
    assert!(is_earlier(m, leap) && !is_earlier(leap, m));
    assert_eq!(min_moment(m, leap), m);
    assert_eq!(max_moment(m, leap), leap);
    assert_eq!(plus_minutes(m, 2), Moment { secs: 179, nanos: 0 });
    assert_eq!(plus_minutes(plus_minutes(m, 90), -90), m);
    // Leaving a leap second forwards and backwards.
    assert_eq!(plus_minutes(leap, 1), Moment { secs: 119, nanos: 500_000_000 });
    assert_eq!(plus_minutes(leap, -1), Moment { secs: 0, nanos: 500_000_000 });
    assert_eq!(plus_minutes(leap, 0), leap);
}

#[test]
fn moments_agree_with_chrono() {
    let cases = [
        (59i64, 1_500_000_000u32, 1i64),
        (59, 1_500_000_000, -1),
        (-1, 1_999_999_999, 7),
        (-61, 0, -3),
        (1_700_000_000, 5, 600),
        (86_399, 1_000_000_000, 1440),
    ];
    for (secs, nanos, minutes) in cases {
        let naive = chrono::DateTime::from_timestamp(secs, nanos).unwrap().naive_utc();
        let moved = naive + chrono::Duration::minutes(minutes);
        let got = plus_minutes(Moment { secs, nanos }, minutes);
        assert_eq!((got.secs, got.nanos), (moved.and_utc().timestamp(), moved.and_utc().timestamp_subsec_nanos()));
        let whole = (moved - naive).num_minutes();
        assert_eq!(whole_minutes(Moment { secs, nanos }, got), whole.max(1));
        if whole >= 0 {
            assert_eq!(minutes_from(got, Moment { secs, nanos }), whole);
        }
    }
}

#[test]
fn days_and_minutes_of_days() {
    let m = Moment { secs: -1, nanos: 0 };
    assert_eq!(day(m), -1);
    assert_eq!(second_of_day(m), 86_399);
    assert_eq!(minute(m), 1439);
    assert_eq!(day(Moment { secs: i64::MIN, nanos: 0 }), i64::MIN.div_euclid(86_400));
    assert_eq!(minute(Moment { secs: 86_400 + 3_660, nanos: 0 }), 61);
    assert_eq!(clock_string(61), "01:01");
    assert_eq!(clock_string(0), "00:00");
}
