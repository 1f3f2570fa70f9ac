//! Who plays and who refs: team tokens, labels and roles.
use vstd::prelude::*;
use crate::order;
use crate::text;
use crate::text::{as_deref, capitalize, concat, eq_ignore_ascii_case, opt_str_eq, split, str_eq, strip_suffix, swap_char, to_lowercase, to_owned_opt, trim};
use crate::types::{MatchSetupData, TeamOption};

verus! {

/// An optional text, empty where there is none.
pub open spec fn text_or_empty(o: Option<Seq<char>>) -> Seq<char> {
    match o {
        Some(s) => s,
        None => Seq::empty(),
    }
}

/// A borrowed text, empty where there is none.
pub fn or_empty(o: Option<&str>) -> (r: &str)
    ensures
        r@ == text_or_empty(text::opt_slice(o)),
{
    match o {
        Some(s) => s,
        None => {
            proof {
                reveal_strlit("");
            }
            assert(""@ =~= Seq::<char>::empty());
            ""
        },
    }
}

// ---------------------------------------------------------------------------
// Refs
// ---------------------------------------------------------------------------

/// The slots of a comma-separated list, each without outer white space.
pub open spec fn slots_of(o: Option<Seq<char>>) -> Seq<Seq<char>> {
    let pieces = text::split_at_each(text_or_empty(o), ',');
    Seq::new(pieces.len(), |i: int| text::trimmed(pieces[i]))
}

/// What a slot of a list says; nothing beyond its end.
pub open spec fn slot(slots: Seq<Seq<char>>, i: int) -> Seq<char> {
    if 0 <= i < slots.len() {
        slots[i]
    } else {
        Seq::empty()
    }
}

/// The token of a ref slot: the resolved team, else the expression that it was set up with.
pub open spec fn ref_token(resolved: Seq<Seq<char>>, initial: Seq<Seq<char>>, i: int) -> Seq<char> {
    if slot(resolved, i).len() > 0 {
        slot(resolved, i)
    } else {
        slot(initial, i)
    }
}

/// The non-empty tokens of the first `n` ref slots, in order.
pub open spec fn ref_tokens_upto(
    resolved: Seq<Seq<char>>,
    initial: Seq<Seq<char>>,
    n: nat,
) -> Seq<Seq<char>>
    decreases n,
{
    if n == 0 {
        Seq::empty()
    } else {
        let before = ref_tokens_upto(resolved, initial, (n - 1) as nat);
        let token = ref_token(resolved, initial, n - 1);
        if token.len() > 0 {
            before.push(token)
        } else {
            before
        }
    }
}

/// The ref tokens of a match. A list of blank slots still falls through, slot by slot, to the
/// expressions of the setup.
pub open spec fn ref_tokens(m: MatchSetupData) -> Seq<Seq<char>> {
    let resolved = slots_of(text::opt_text(m.refs));
    let initial = slots_of(text::opt_text(m.refs_initial));
    ref_tokens_upto(
        resolved,
        initial,
        if resolved.len() > initial.len() {
            resolved.len()
        } else {
            initial.len()
        },
    )
}

/// No ref token is blank: each is non-empty and has no outer white space.
pub proof fn law_ref_tokens_are_not_blank(m: MatchSetupData)
    ensures
        forall|k: int|
            0 <= k < ref_tokens(m).len() ==> (#[trigger] ref_tokens(m)[k]).len() > 0 && text::trimmed(
                ref_tokens(m)[k],
            ) == ref_tokens(m)[k],
{
    let resolved = slots_of(text::opt_text(m.refs));
    let initial = slots_of(text::opt_text(m.refs_initial));
    let n = if resolved.len() > initial.len() {
        resolved.len()
    } else {
        initial.len()
    };
    lemma_ref_tokens_upto(text::opt_text(m.refs), text::opt_text(m.refs_initial), n);
}

proof fn lemma_ref_tokens_upto(refs: Option<Seq<char>>, initial: Option<Seq<char>>, n: nat)
    ensures
        ({
            let r = ref_tokens_upto(slots_of(refs), slots_of(initial), n);
            forall|k: int|
                0 <= k < r.len() ==> (#[trigger] r[k]).len() > 0 && text::trimmed(r[k]) == r[k]
        }),
    decreases n,
{
    if n > 0 {
        lemma_ref_tokens_upto(refs, initial, (n - 1) as nat);
        let i = n - 1;
        if 0 <= i < slots_of(refs).len() {
            text::law_trimmed_has_no_outer_space(text::split_at_each(text_or_empty(refs), ',')[i]);
        }
        if 0 <= i < slots_of(initial).len() {
            text::law_trimmed_has_no_outer_space(text::split_at_each(text_or_empty(initial), ',')[i]);
        }
        let before = ref_tokens_upto(slots_of(refs), slots_of(initial), (n - 1) as nat);
        let r = ref_tokens_upto(slots_of(refs), slots_of(initial), n);
        let token = ref_token(slots_of(refs), slots_of(initial), i);
        assert(token.len() > 0 ==> text::trimmed(token) == token);
        assert forall|k: int| 0 <= k < r.len() implies (#[trigger] r[k]).len() > 0 && text::trimmed(r[k])
            == r[k] by {
            if k < before.len() {
                assert(r[k] == before[k]);
            }
        }
    }
}

fn slot_text<'a>(pieces: &Vec<&'a str>, i: usize) -> (r: &'a str)
    ensures
        r@ == slot(Seq::new(pieces@.len(), |k: int| text::trimmed(text::slices(pieces@)[k])), i as int),
{
    if i < pieces.len() {
        trim(pieces[i])
    } else {
        or_empty(None)
    }
}

/// Per-slot ref tokens: the resolved team id, else the expression of the setup; blank slots left out.
pub fn refs_tokens(m: &MatchSetupData) -> (r: Vec<String>)
    ensures
        text::texts(r@) == ref_tokens(*m),
{
    let resolved = split(or_empty(as_deref(&m.refs)), ',');
    let initial = split(or_empty(as_deref(&m.refs_initial)), ',');
    let ghost rs = slots_of(text::opt_text(m.refs));
    let ghost is = slots_of(text::opt_text(m.refs_initial));
    assert(rs =~= Seq::new(resolved@.len(), |k: int| text::trimmed(text::slices(resolved@)[k])));
    assert(is =~= Seq::new(initial@.len(), |k: int| text::trimmed(text::slices(initial@)[k])));
    let n: usize = if resolved.len() > initial.len() {
        resolved.len()
    } else {
        initial.len()
    };
    let mut out: Vec<String> = Vec::new();
    let mut i: usize = 0;
    assert(text::texts(out@) =~= Seq::<Seq<char>>::empty());
    while i < n
        invariant
            i <= n,
            rs == Seq::new(resolved@.len(), |k: int| text::trimmed(text::slices(resolved@)[k])),
            is == Seq::new(initial@.len(), |k: int| text::trimmed(text::slices(initial@)[k])),
            text::texts(out@) == ref_tokens_upto(rs, is, i as nat),
        decreases n - i,
    {
        let a = slot_text(&resolved, i);
        let token = if a.unicode_len() > 0 {
            a
        } else {
            slot_text(&initial, i)
        };
        assert(token@ == ref_token(rs, is, i as int));
        if token.unicode_len() > 0 {
            let ghost was = out@;
            out.push(token.to_owned());
            assert(text::texts(out@) =~= text::texts(was).push(token@));
        }
        i = i + 1;
    }
    out
}

// ---------------------------------------------------------------------------
// Kinds of schedule items
// ---------------------------------------------------------------------------

/// BREAK, STATBREAK or JOIN.
pub open spec fn structural(schedule_type: Option<Seq<char>>) -> bool {
    schedule_type == Some("BREAK"@) || schedule_type == Some("STATBREAK"@) || schedule_type == Some(
        "JOIN"@,
    )
}

/// BREAK or STATBREAK.
pub open spec fn break_like(schedule_type: Option<Seq<char>>) -> bool {
    schedule_type == Some("BREAK"@) || schedule_type == Some("STATBREAK"@)
}

/// True for BREAK, STATBREAK and JOIN: structural schedule items, not games.
pub fn is_structural_type(schedule_type: Option<&str>) -> (r: bool)
    ensures
        r == structural(text::opt_slice(schedule_type)),
{
    opt_str_eq(schedule_type, "BREAK") || opt_str_eq(schedule_type, "STATBREAK") || opt_str_eq(
        schedule_type,
        "JOIN",
    )
}

/// True for a match that is a structural schedule item.
pub fn is_structural_match(m: &MatchSetupData) -> (r: bool)
    ensures
        r == structural(text::opt_text(m.schedule_type)),
{
    is_structural_type(as_deref(&m.schedule_type))
}

/// True for BREAK and STATBREAK: blocks that are edited as a same-name group across fields.
pub fn is_break_like_type(schedule_type: Option<&str>) -> (r: bool)
    ensures
        r == break_like(text::opt_slice(schedule_type)),
{
    opt_str_eq(schedule_type, "BREAK") || opt_str_eq(schedule_type, "STATBREAK")
}

// ---------------------------------------------------------------------------
// Labels
// ---------------------------------------------------------------------------

/// A team option of the list has the id.
pub open spec fn has_id(options: Seq<TeamOption>, id: Seq<char>) -> spec_fn(int) -> bool {
    |i: int| options[i].id@ == id
}

/// The position of the first team option with an id.
pub open spec fn option_at(options: Seq<TeamOption>, id: Seq<char>) -> Option<int> {
    order::first_where(options.len(), has_id(options, id))
}

/// The first team option with an id.
pub fn find_option(options: &[TeamOption], id: &str) -> (r: Option<usize>)
    ensures
        match option_at(options@, id@) {
            Some(i) => r is Some && r->0 == i && 0 <= i < options@.len(),
            None => r is None,
        },
        r matches Some(k) ==> k < options@.len(),
{
    let ghost p = has_id(options@, id@);
    let mut i: usize = 0;
    while i < options.len()
        invariant
            i <= options@.len(),
            p == has_id(options@, id@),
            order::first_where(i as nat, p) is None,
        decreases options@.len() - i,
    {
        if str_eq(options[i].id.as_str(), id) {
            proof {
                assert(p(i as int));
                assert(order::first_where((i + 1) as nat, p) == Some(i as int));
                order::lemma_first_where_stays((i + 1) as nat, options@.len(), p);
            }
            return Some(i);
        }
        assert(!p(i as int));
        i = i + 1;
    }
    None
}

/// The full name of a team: its pseudonym, or its id where that is missing or empty.
pub open spec fn full_label(opt: TeamOption) -> Seq<char> {
    match text::opt_text(opt.pseudonym) {
        Some(p) => if p.len() > 0 {
            p
        } else {
            opt.id@
        },
        None => opt.id@,
    }
}

/// Full display name of a team option.
pub fn team_full_label(opt: &TeamOption) -> (r: String)
    ensures
        r@ == full_label(*opt),
{
    match &opt.pseudonym {
        Some(p) => if p.as_str().unicode_len() > 0 {
            p.clone()
        } else {
            opt.id.clone()
        },
        None => opt.id.clone(),
    }
}

/// How a team expression is shown: kind 0 is a team, 1 a tag, 2 the result of a match.
pub open spec fn ref_display(raw: Seq<char>) -> (u8, Seq<char>) {
    if text::ends_with(raw, "::winner"@) {
        (2, text::trimmed(text::suffix_stripped(raw, "::winner"@)->0) + " winner"@)
    } else if text::ends_with(raw, "::loser"@) {
        (2, text::trimmed(text::suffix_stripped(raw, "::loser"@)->0) + " loser"@)
    } else if raw.len() >= 5 && text::same_ignoring_ascii_case(raw.take(5), "tag::"@) {
        (1, text::trimmed(raw.skip(5)))
    } else {
        (0, raw)
    }
}

/// Kind and label of a team expression: 0 = team, 1 = tag, 2 = "MatchName winner/loser".
pub fn team_ref_display(raw: &str) -> (r: (u8, String))
    ensures
        (r.0, r.1@) == ref_display(raw@),
{
    let winner = strip_suffix(raw, "::winner");
    if winner.is_some() {
        return (2, concat(trim(or_empty(winner)), " winner"));
    }
    let loser = strip_suffix(raw, "::loser");
    if loser.is_some() {
        return (2, concat(trim(or_empty(loser)), " loser"));
    }
    let n = raw.unicode_len();
    if n >= 5 {
        let head = raw.substring_char(0, 5);
        assert(head@ =~= raw@.take(5));
        if eq_ignore_ascii_case(head, "tag::") {
            let rest = raw.substring_char(5, n);
            assert(rest@ =~= raw@.skip(5));
            return (1, trim(rest).to_owned());
        }
    }
    (0, raw.to_owned())
}

/// A label with its photo and kind.
pub open spec fn shown_team(r: (String, Option<String>, u8)) -> (Seq<char>, Option<Seq<char>>, u8) {
    (r.0@, text::opt_text(r.1), r.2)
}

/// How a team token is shown: a known team by its full name and photo, anything else as an
/// expression.
pub open spec fn team_display(token: Seq<char>, options: Seq<TeamOption>) -> (
    Seq<char>,
    Option<Seq<char>>,
    u8,
) {
    match option_at(options, token) {
        Some(i) => (full_label(options[i]), text::opt_text(options[i].profile_photo), 0),
        None => (ref_display(token).1, None, ref_display(token).0),
    }
}

/// Resolve a team id or token to label, photo and kind.
pub fn resolve_team_display(token: &str, team_options: &[TeamOption]) -> (r: (
    String,
    Option<String>,
    u8,
))
    ensures
        shown_team(r) == team_display(token@, team_options@),
{
    match find_option(team_options, token) {
        Some(i) => {
            let opt = &team_options[i];
            (team_full_label(opt), to_owned_opt(as_deref(&opt.profile_photo)), 0)
        },
        None => {
            let (kind, label) = team_ref_display(token);
            (label, None, kind)
        },
    }
}

// ---------------------------------------------------------------------------
// Roles
// ---------------------------------------------------------------------------

/// An optional name is the token, up to the case of ASCII letters.
pub open spec fn names_token(name: Option<Seq<char>>, token: Seq<char>) -> bool {
    name matches Some(n) && text::same_ignoring_ascii_case(n, token)
}

/// A ref token refers to a team: by its id, or by a name of the team option with that id.
pub open spec fn token_is_team(token: Seq<char>, team_id: Seq<char>, options: Seq<TeamOption>) -> bool {
    let t = text::trimmed(token);
    let id = text::trimmed(team_id);
    &&& t.len() > 0
    &&& id.len() > 0
    &&& t == id || match option_at(options, id) {
        None => text::same_ignoring_ascii_case(t, id),
        Some(i) => text::same_ignoring_ascii_case(options[i].id@, t) || names_token(
            text::opt_text(options[i].pseudonym),
            t,
        ) || names_token(text::opt_text(options[i].shortname), t),
    }
}

fn names(name: &Option<String>, token: &str) -> (r: bool)
    ensures
        r == names_token(text::opt_text(*name), token@),
{
    match name {
        Some(n) => eq_ignore_ascii_case(n.as_str(), token),
        None => false,
    }
}

/// True if a ref or team token refers to the given team id.
pub fn token_matches_team(token: &str, team_id: &str, team_options: &[TeamOption]) -> (r: bool)
    ensures
        r == token_is_team(token@, team_id@, team_options@),
{
    let t = trim(token);
    let id = trim(team_id);
    if t.unicode_len() == 0 || id.unicode_len() == 0 {
        return false;
    }
    if str_eq(t, id) {
        return true;
    }
    match find_option(team_options, id) {
        None => eq_ignore_ascii_case(t, id),
        Some(i) => {
            let opt = &team_options[i];
            eq_ignore_ascii_case(opt.id.as_str(), t) || names(&opt.pseudonym, t) || names(
                &opt.shortname,
                t,
            )
        },
    }
}

/// The team is one of the two sides of a match.
pub open spec fn plays(m: MatchSetupData, team_id: Seq<char>) -> bool {
    team_id.len() > 0 && (text::opt_text(m.team1) == Some(team_id) || text::opt_text(m.team2) == Some(team_id))
}

/// The team refs a match that it does not play.
pub open spec fn refs_match(m: MatchSetupData, team_id: Seq<char>, options: Seq<TeamOption>) -> bool {
    &&& team_id.len() > 0
    &&& !plays(m, team_id)
    &&& exists|k: int|
        0 <= k < ref_tokens(m).len() && token_is_team(#[trigger] ref_tokens(m)[k], team_id, options)
}

/// The team plays or refs a match.
pub open spec fn involves(m: MatchSetupData, team_id: Seq<char>, options: Seq<TeamOption>) -> bool {
    plays(m, team_id) || refs_match(m, team_id, options)
}

/// A team never both plays and refs a match, and one without an id does neither.
pub proof fn law_roles_are_exclusive(m: MatchSetupData, team_id: Seq<char>, options: Seq<TeamOption>)
    ensures
        !(plays(m, team_id) && refs_match(m, team_id, options)),
        team_id.len() == 0 ==> !involves(m, team_id, options),
{
}

/// A resolved ref slot that holds a team's id makes the team a ref, unless it plays.
pub proof fn law_resolved_ref_refs(m: MatchSetupData, k: int, options: Seq<TeamOption>)
    requires
        0 <= k < ref_tokens(m).len(),
    ensures
        refs_match(m, ref_tokens(m)[k], options) || plays(m, ref_tokens(m)[k]),
{
    law_ref_tokens_are_not_blank(m);
    assert(token_is_team(ref_tokens(m)[k], ref_tokens(m)[k], options));
}

/// Whether the team plays the match.
pub fn team_is_playing(m: &MatchSetupData, team_id: &str) -> (r: bool)
    ensures
        r == plays(*m, team_id@),
{
    team_id.unicode_len() > 0 && (opt_str_eq(as_deref(&m.team1), team_id) || opt_str_eq(
        as_deref(&m.team2),
        team_id,
    ))
}

/// Whether the team refs the match.
pub fn team_is_reffing(m: &MatchSetupData, team_id: &str, team_options: &[TeamOption]) -> (r: bool)
    ensures
        r == refs_match(*m, team_id@, team_options@),
{
    if team_id.unicode_len() == 0 || team_is_playing(m, team_id) {
        return false;
    }
    let tokens = refs_tokens(m);
    let mut i: usize = 0;
    assert forall|k: int| 0 <= k < tokens@.len() implies (#[trigger] ref_tokens(*m)[k]) == tokens@[k]@ by {
        assert(text::texts(tokens@)[k] == tokens@[k]@);
    }
    while i < tokens.len()
        invariant
            i <= tokens@.len(),
            text::texts(tokens@) == ref_tokens(*m),
            forall|k: int| 0 <= k < i ==> !token_is_team((#[trigger] tokens@[k])@, team_id@, team_options@),
            team_id@.len() > 0,
            !plays(*m, team_id@),
        decreases tokens@.len() - i,
    {
        if token_matches_team(tokens[i].as_str(), team_id, team_options) {
            assert(token_is_team(ref_tokens(*m)[i as int], team_id@, team_options@)) by {
                assert(text::texts(tokens@)[i as int] == tokens@[i as int]@);
            }
            return true;
        }
        i = i + 1;
    }
    assert forall|k: int| 0 <= k < ref_tokens(*m).len() implies !token_is_team(
        #[trigger] ref_tokens(*m)[k],
        team_id@,
        team_options@,
    ) by {
        assert(text::texts(tokens@)[k] == tokens@[k]@);
    }
    false
}

/// Whether the team plays or refs the match.
pub fn match_involves_team(m: &MatchSetupData, team_id: &str, team_options: &[TeamOption]) -> (r: bool)
    ensures
        r == involves(*m, team_id@, team_options@),
{
    team_is_playing(m, team_id) || team_is_reffing(m, team_id, team_options)
}

/// The token of a side: its team, else the expression of the setup, else "TBA".
pub open spec fn side_token(team: Option<Seq<char>>, initial: Option<Seq<char>>) -> Seq<char> {
    match team {
        Some(t) => t,
        None => match initial {
            Some(t) => t,
            None => "TBA"@,
        },
    }
}

/// The opponent of a team in a match that it plays.
pub open spec fn opponent(m: MatchSetupData, team_id: Seq<char>, options: Seq<TeamOption>) -> Option<
    (Seq<char>, Option<Seq<char>>, u8),
> {
    if text::opt_text(m.team1) == Some(team_id) {
        Some(team_display(side_token(text::opt_text(m.team2), text::opt_text(m.team2_initial)), options))
    } else if text::opt_text(m.team2) == Some(team_id) {
        Some(team_display(side_token(text::opt_text(m.team1), text::opt_text(m.team1_initial)), options))
    } else {
        None
    }
}

fn side_of<'a>(team: &'a Option<String>, initial: &'a Option<String>) -> (r: &'a str)
    ensures
        r@ == side_token(text::opt_text(*team), text::opt_text(*initial)),
{
    match team {
        Some(t) => t.as_str(),
        None => match initial {
            Some(t) => t.as_str(),
            None => "TBA",
        },
    }
}

/// Opponent label, photo and kind relative to the focus team; none if it is not playing.
pub fn opponent_for_focus(m: &MatchSetupData, team_id: &str, team_options: &[TeamOption]) -> (r: Option<
    (String, Option<String>, u8),
>)
    ensures
        match opponent(*m, team_id@, team_options@) {
            Some(o) => r is Some && shown_team(r->0) == o,
            None => r is None,
        },
{
    if opt_str_eq(as_deref(&m.team1), team_id) {
        Some(resolve_team_display(side_of(&m.team2, &m.team2_initial), team_options))
    } else if opt_str_eq(as_deref(&m.team2), team_id) {
        Some(resolve_team_display(side_of(&m.team1, &m.team1_initial), team_options))
    } else {
        None
    }
}

/// A team that plays a match has an opponent in it.
pub proof fn law_a_player_has_an_opponent(m: MatchSetupData, team_id: Seq<char>, options: Seq<TeamOption>)
    requires
        plays(m, team_id),
    ensures
        opponent(m, team_id, options) is Some,
{
}

// ---------------------------------------------------------------------------
// Status
// ---------------------------------------------------------------------------

/// The colour of a match status.
pub open spec fn status_color(status: Seq<char>) -> Seq<char> {
    if status == "COMPLETED"@ {
        "#7acb8b"@
    } else if status == "IN_PROGRESS"@ {
        "#ffd666"@
    } else if status == "TIME_FINALIZED"@ {
        "#a5adb5"@
    } else if status == "READY_TO_START"@ {
        "#82b1ff"@
    } else {
        "#6cc5d4"@
    }
}

/// The label of a match status; one that is not known is written out in words.
pub open spec fn status_label(status: Seq<char>) -> Seq<char> {
    if status == "COMPLETED"@ {
        "Completed"@
    } else if status == "IN_PROGRESS"@ {
        "In Progress"@
    } else if status == "TIME_FINALIZED"@ {
        "Time Finalized"@
    } else if status == "NOT_STARTED"@ {
        "Not Started"@
    } else if status == "READY_TO_START"@ {
        "Ready to Start"@
    } else {
        text::capitalized(text::lowercased(text::swapped(status, '_', ' ')))
    }
}

/// Colour and label of a match status.
pub fn status_color_and_label(status: &str) -> (r: (String, String))
    ensures
        r.0@ == status_color(status@),
        r.1@ == status_label(status@),
{
    let color = if str_eq(status, "COMPLETED") {
        "#7acb8b"
    } else if str_eq(status, "IN_PROGRESS") {
        "#ffd666"
    } else if str_eq(status, "TIME_FINALIZED") {
        "#a5adb5"
    } else if str_eq(status, "READY_TO_START") {
        "#82b1ff"
    } else {
        "#6cc5d4"
    };
    let label = if str_eq(status, "COMPLETED") {
        "Completed".to_owned()
    } else if str_eq(status, "IN_PROGRESS") {
        "In Progress".to_owned()
    } else if str_eq(status, "TIME_FINALIZED") {
        "Time Finalized".to_owned()
    } else if str_eq(status, "NOT_STARTED") {
        "Not Started".to_owned()
    } else if str_eq(status, "READY_TO_START") {
        "Ready to Start".to_owned()
    } else {
        proof {
            reveal_strlit(" ");
        }
        let spaced = swap_char(status, '_', " ");
        let lower = to_lowercase(spaced.as_str());
        capitalize(lower.as_str())
    };
    (color.to_owned(), label)
}

// ---------------------------------------------------------------------------
// What a match is to a team
// ---------------------------------------------------------------------------

/// A match is played by its two sides and by nobody else, and it does not matter which side is which.
pub proof fn law_both_sides_play(m: MatchSetupData, turned: MatchSetupData, team_id: Seq<char>)
    requires
        turned.team1 == m.team2,
        turned.team2 == m.team1,
    ensures
        plays(m, team_id) == plays(turned, team_id),
        m.team1 matches Some(t) ==> (t@ == team_id && team_id.len() > 0 ==> plays(m, team_id)),
        m.team2 matches Some(t) ==> (t@ == team_id && team_id.len() > 0 ==> plays(m, team_id)),
        plays(m, team_id) ==> team_id.len() > 0 && ((m.team1 matches Some(t) && t@ == team_id) || (
        m.team2 matches Some(t) && t@ == team_id)),
        (m.team1 is None || m.team1->0@ != team_id) && (m.team2 is None || m.team2->0@ != team_id) ==> !plays(
            m,
            team_id,
        ),
{
}

/// Two sides that are known have each other as opponents.
pub proof fn law_sides_are_opponents(m: MatchSetupData, a: Seq<char>, b: Seq<char>, options: Seq<TeamOption>)
    requires
        text::opt_text(m.team1) == Some(a),
        text::opt_text(m.team2) == Some(b),
        a != b,
    ensures
        opponent(m, a, options) == Some(team_display(b, options)),
        opponent(m, b, options) == Some(team_display(a, options)),
{
}

/// The opponent of a side that is known is the other side, else what the setup says of it, else to be
/// announced.
pub proof fn law_opponent_may_be_unknown(m: MatchSetupData, a: Seq<char>, options: Seq<TeamOption>)
    ensures
        text::opt_text(m.team1) == Some(a) && m.team2 is None ==> opponent(m, a, options) == Some(
            team_display(
                match m.team2_initial {
                    Some(t) => t@,
                    None => "TBA"@,
                },
                options,
            ),
        ),
        text::opt_text(m.team2) == Some(a) && m.team1 is None ==> opponent(m, a, options) == Some(
            team_display(
                match m.team1_initial {
                    Some(t) => t@,
                    None => "TBA"@,
                },
                options,
            ),
        ),
        text::opt_text(m.team1) != Some(a) && text::opt_text(m.team2) != Some(a) ==> opponent(m, a, options) is None,
{
}

/// Every ref slot that says something has its token: the resolved team, else what the setup says; and
/// every token comes from a slot.
pub proof fn law_ref_tokens_come_from_the_slots(m: MatchSetupData)
    ensures
        ({
            let resolved = slots_of(text::opt_text(m.refs));
            let initial = slots_of(text::opt_text(m.refs_initial));
            &&& forall|i: int|
                0 <= i < resolved.len() && (#[trigger] resolved[i]).len() > 0 ==> ref_tokens(m).contains(resolved[i])
            &&& forall|i: int|
                0 <= i < initial.len() && (#[trigger] initial[i]).len() > 0 && (i >= resolved.len()
                    || resolved[i].len() == 0) ==> ref_tokens(m).contains(initial[i])
            &&& forall|k: int|
                0 <= k < ref_tokens(m).len() ==> resolved.contains(#[trigger] ref_tokens(m)[k]) || initial.contains(
                    ref_tokens(m)[k],
                )
        }),
        forall|i: int|
            0 <= i < slots_of(text::opt_text(m.refs)).len() ==> #[trigger] slots_of(text::opt_text(m.refs))[i] == text::trimmed(
                text::split_at_each(
                    match m.refs {
                        Some(r) => r@,
                        None => Seq::empty(),
                    },
                    ',',
                )[i],
            ),
{
    let resolved = slots_of(text::opt_text(m.refs));
    let initial = slots_of(text::opt_text(m.refs_initial));
    let n: nat = if resolved.len() > initial.len() {
        resolved.len()
    } else {
        initial.len()
    };
    lemma_tokens_of_slots(resolved, initial, n);
    assert forall|i: int| 0 <= i < resolved.len() && (#[trigger] resolved[i]).len() > 0 implies ref_tokens(m).contains(
        resolved[i],
    ) by {
        assert(ref_token(resolved, initial, i) == resolved[i]);
    }
    assert forall|i: int|
        0 <= i < initial.len() && (#[trigger] initial[i]).len() > 0 && (i >= resolved.len() || resolved[i].len() == 0) implies ref_tokens(
        m,
    ).contains(initial[i]) by {
        assert(ref_token(resolved, initial, i) == initial[i]);
    }
}

proof fn lemma_tokens_of_slots(resolved: Seq<Seq<char>>, initial: Seq<Seq<char>>, n: nat)
    ensures
        forall|i: int|
            0 <= i < n && (#[trigger] ref_token(resolved, initial, i)).len() > 0 ==> ref_tokens_upto(
                resolved,
                initial,
                n,
            ).contains(ref_token(resolved, initial, i)),
        forall|k: int|
            0 <= k < ref_tokens_upto(resolved, initial, n).len() ==> resolved.contains(
                #[trigger] ref_tokens_upto(resolved, initial, n)[k],
            ) || initial.contains(ref_tokens_upto(resolved, initial, n)[k]),
    decreases n,
{
    if n > 0 {
        lemma_tokens_of_slots(resolved, initial, (n - 1) as nat);
        let before = ref_tokens_upto(resolved, initial, (n - 1) as nat);
        let all = ref_tokens_upto(resolved, initial, n);
        let last = ref_token(resolved, initial, n - 1);
        assert forall|i: int| 0 <= i < n && (#[trigger] ref_token(resolved, initial, i)).len() > 0 implies all.contains(
            ref_token(resolved, initial, i),
        ) by {
            let t = ref_token(resolved, initial, i);
            if i == n - 1 {
                assert(all[all.len() - 1] == t);
            } else {
                assert(before.contains(t));
                let k = choose|k: int| 0 <= k < before.len() && before[k] == t;
                assert(all[k] == t);
            }
        }
        assert forall|k: int| 0 <= k < all.len() implies resolved.contains(#[trigger] all[k]) || initial.contains(
            all[k],
        ) by {
            if k < before.len() {
                assert(all[k] == before[k]);
            } else {
                assert(last.len() > 0);
                if slot(resolved, n - 1).len() > 0 {
                    assert(resolved[n - 1] == last);
                } else {
                    assert(initial[n - 1] == last);
                }
            }
        }
    }
}

/// A team refs a match that it does not play where a ref token is its id, or one of the names that the
/// team options have for it, in any case; and it refs no other match.
pub proof fn law_refs_are_named(m: MatchSetupData, team_id: Seq<char>, options: Seq<TeamOption>, k: int)
    requires
        0 <= k < ref_tokens(m).len(),
        team_id.len() > 0,
        text::trimmed(team_id) == team_id,
    ensures
        ({
            let t = ref_tokens(m)[k];
            &&& t == team_id ==> involves(m, team_id, options)
            &&& forall|i: int|
                option_at(options, team_id) == Some(i) && ((#[trigger] options[i]).pseudonym matches Some(p)
                    && text::same_ignoring_ascii_case(p@, t)) ==> involves(m, team_id, options)
            &&& forall|i: int|
                option_at(options, team_id) == Some(i) && ((#[trigger] options[i]).shortname matches Some(p)
                    && text::same_ignoring_ascii_case(p@, t)) ==> involves(m, team_id, options)
        }),
        ref_tokens(m).len() == 1 && refs_match(m, team_id, options) ==> ({
            let t = ref_tokens(m)[0];
            t == team_id || text::same_ignoring_ascii_case(t, team_id) || exists|i: int|
                0 <= i < options.len() && (#[trigger] options[i]).id@ == team_id && (text::same_ignoring_ascii_case(
                    options[i].id@,
                    t,
                ) || names_token(text::opt_text(options[i].pseudonym), t) || names_token(text::opt_text(options[i].shortname), t))
        }),
{
    law_ref_tokens_are_not_blank(m);
    let t = ref_tokens(m)[k];
    assert(t.len() > 0 && text::trimmed(t) == t);
    order::lemma_first_where(options.len(), has_id(options, team_id));
    if t == team_id {
        assert(token_is_team(ref_tokens(m)[k], team_id, options));
    }
    assert forall|i: int|
        option_at(options, team_id) == Some(i) && ((#[trigger] options[i]).pseudonym matches Some(p)
            && text::same_ignoring_ascii_case(p@, t)) implies involves(m, team_id, options) by {
        assert(token_is_team(ref_tokens(m)[k], team_id, options));
    }
    assert forall|i: int|
        option_at(options, team_id) == Some(i) && ((#[trigger] options[i]).shortname matches Some(p)
            && text::same_ignoring_ascii_case(p@, t)) implies involves(m, team_id, options) by {
        assert(token_is_team(ref_tokens(m)[k], team_id, options));
    }
    if ref_tokens(m).len() == 1 && refs_match(m, team_id, options) {
        let t0 = ref_tokens(m)[0];
        assert(token_is_team(t0, team_id, options));
        if option_at(options, team_id) is Some {
            let i = option_at(options, team_id)->0;
            assert(has_id(options, team_id)(i));
            assert(options[i].id@ == team_id);
        }
    }
}

/// A token for a winner, a loser or a tag says whose, without outer white space; any other is shown as
/// it is.
pub proof fn law_expressions_are_shown_by_their_kind(name: Seq<char>)
    ensures
        ref_display(name + "::winner"@) == (2u8, text::trimmed(name) + " winner"@),
        ref_display(name + "::loser"@) == (2u8, text::trimmed(name) + " loser"@),
        !text::ends_with("tag::"@ + name, "::winner"@) && !text::ends_with("tag::"@ + name, "::loser"@) ==> ref_display(
            "tag::"@ + name,
        ) == (1u8, text::trimmed(name)),
        !text::ends_with(name, "::winner"@) && !text::ends_with(name, "::loser"@) && name.len() < 5 ==> ref_display(name) == (
            0u8,
            name,
        ),
{
    reveal_strlit("::winner");
    reveal_strlit("::loser");
    reveal_strlit("tag::");
    let w = name + "::winner"@;
    assert(w.skip(w.len() - 8) =~= "::winner"@);
    assert(w.take(w.len() - 8) =~= name);
    let l = name + "::loser"@;
    assert(l.skip(l.len() - 7) =~= "::loser"@);
    assert(l.take(l.len() - 7) =~= name);
    if text::ends_with(l, "::winner"@) {
        assert(l.skip(l.len() - 8)[2] == "::winner"@[2]);
        assert(l.skip(l.len() - 8)[2] == "::loser"@[1]);
    }
    let t = "tag::"@ + name;
    assert(t.take(5) =~= "tag::"@);
    assert(t.skip(5) =~= name);
}

/// A team is called by its pseudonym where it has one, else by its id; a known team is shown with its
/// photo.
pub proof fn law_known_teams_are_shown_by_name(options: Seq<TeamOption>, i: int)
    requires
        0 <= i < options.len(),
        forall|j: int| 0 <= j < i ==> (#[trigger] options[j]).id@ != options[i].id@,
    ensures
        ({
            let o = options[i];
            let shown = team_display(o.id@, options);
            &&& shown.1 == text::opt_text(o.profile_photo)
            &&& shown.2 == 0
            &&& o.pseudonym matches Some(p) ==> p@.len() > 0 ==> shown.0 == p@
            &&& o.pseudonym is None || o.pseudonym->0@.len() == 0 ==> shown.0 == o.id@
        }),
{
    order::lemma_first_where(options.len(), has_id(options, options[i].id@));
    assert(has_id(options, options[i].id@)(i));
    let found = option_at(options, options[i].id@)->0;
    assert(has_id(options, options[i].id@)(found));
}

/// Breaks and joins are structural, and only breaks are break-like; games are neither.
pub proof fn law_kinds_of_items(t: Seq<char>)
    ensures
        structural(Some(t)) <==> t == "BREAK"@ || t == "STATBREAK"@ || t == "JOIN"@,
        break_like(Some(t)) <==> t == "BREAK"@ || t == "STATBREAK"@,
        !structural(None) && !break_like(None),
        !structural(Some("STATIC"@)) && !structural(Some("SAFE"@)) && !structural(Some("FAST"@)),
{
    reveal_strlit("BREAK");
    reveal_strlit("STATBREAK");
    reveal_strlit("JOIN");
    reveal_strlit("STATIC");
    reveal_strlit("SAFE");
    reveal_strlit("FAST");
    assert("STATIC"@.len() == 6 && "SAFE"@.len() == 4 && "FAST"@.len() == 4);
    assert("SAFE"@[0] != "JOIN"@[0]);
    assert("FAST"@[0] != "JOIN"@[0]);
}

/// The option of an id is the first with that id; where there is none, no option has it.
pub proof fn law_option_of_an_id(options: Seq<TeamOption>, id: Seq<char>)
    ensures
        match option_at(options, id) {
            Some(i) => 0 <= i < options.len() && options[i].id@ == id && forall|j: int|
                0 <= j < i ==> (#[trigger] options[j]).id@ != id,
            None => forall|j: int| 0 <= j < options.len() ==> (#[trigger] options[j]).id@ != id,
        },
{
    let p = has_id(options, id);
    order::lemma_first_where(options.len(), p);
    assert forall|j: int| 0 <= j < options.len() && !p(j) implies (#[trigger] options[j]).id@ != id by {}
}

/// The states of a match that its page tells apart have colours of their own.
pub proof fn law_states_have_their_own_colours(a: Seq<char>, b: Seq<char>)
    requires
        a == "COMPLETED"@ || a == "IN_PROGRESS"@ || a == "TIME_FINALIZED"@ || a == "READY_TO_START"@,
    ensures
        status_color(a) == status_color(b) ==> a == b,
{
    reveal_strlit("#7acb8b");
    reveal_strlit("#ffd666");
    reveal_strlit("#a5adb5");
    reveal_strlit("#82b1ff");
    reveal_strlit("#6cc5d4");
    assert("#7acb8b"@[1] == '7' && "#ffd666"@[1] == 'f' && "#a5adb5"@[1] == 'a' && "#82b1ff"@[1] == '8'
        && "#6cc5d4"@[1] == '6');
}

} // verus!
