//! The timeline of a day: its columns, its blocks and its join lines.
use vstd::prelude::*;
use crate::moment;
use crate::order;
use crate::schedule_time;
use crate::teams;
use crate::text;
use crate::moment::{Moment, plus_minutes, whole_minutes};
use crate::schedule_time::display_interval_utc;
use crate::teams::{find_option, is_structural_match, match_involves_team, opponent_for_focus, or_empty, refs_tokens, resolve_team_display, status_color_and_label, team_full_label, team_is_playing, team_is_reffing};
use crate::text::{as_deref, contains, decimal_text, join, opt_str_eq, str_eq, to_lowercase, to_owned_opt};
use crate::types::{FieldSetupData, MatchSetupData, TeamOption};

verus! {

/// Minutes of a row of the grid.
pub const SLOT_MINUTES: u32 = 30;

/// Rows of the grid of a day.
pub const SLOTS_PER_DAY: usize = 48;

/// The id of the one column of a team view.
pub const TEAM_VIEW_FIELD_ID: u32 = 0xffff_ffff;

/// What a timeline shows, and how.
///
/// `short_labels` holds, for each team option, the label that it has where space is short.
pub struct TimelineView<'a> {
    pub fields: &'a [FieldSetupData],
    pub team_options: &'a [TeamOption],
    pub short_labels: &'a [String],
    pub selected_field: &'a str,
    pub highlight_team: &'a str,
    pub focus_team_id: &'a str,
    pub show_as_happened: bool,
    pub editor: bool,
    pub tz_offset_minutes: i16,
}

/// A ref of a block: its label and photo.
#[derive(Clone, Debug, PartialEq)]
pub struct RefLabel {
    pub label: String,
    pub photo: Option<String>,
}

/// A block of the timeline.
#[derive(Clone, Debug, PartialEq)]
pub struct TimelineEvent {
    pub id: String,
    pub name: String,
    pub team1: String,
    pub team2: String,
    pub team1_photo: Option<String>,
    pub team2_photo: Option<String>,
    pub refs_display: String,
    pub refs_list: Vec<RefLabel>,
    pub start_time: Moment,
    pub end_time: Moment,
    pub length_min: i64,
    pub field_id: u32,
    pub field_name: String,
    pub color: String,
    pub status: String,
    pub schedule_type: Option<String>,
    pub highlight_playing: bool,
    pub highlight_ref: bool,
    pub ribbon: bool,
    pub team_role: String,
    pub opponent_label: Option<String>,
    pub opponent_photo: Option<String>,
    pub opponent_kind: u8,
}

/// A block covers some time, within the bounds of the arithmetic on moments.
pub open spec fn has_span(e: TimelineEvent) -> bool {
    moment::ordinary(e.start_time) && moment::ordinary(e.end_time) && moment::earlier(e.start_time, e.end_time)
}

/// There is a short label for each team option.
pub open spec fn labelled(c: TimelineView) -> bool {
    c.short_labels@.len() == c.team_options@.len()
}

/// One team is in focus: the timeline has a single column with its matches.
pub open spec fn team_view(c: TimelineView) -> bool {
    c.focus_team_id@.len() > 0
}

/// The team is in focus.
pub fn is_team_view(c: &TimelineView) -> (r: bool)
    ensures
        r == team_view(*c),
{
    c.focus_team_id.unicode_len() > 0
}

// ---------------------------------------------------------------------------
// Columns
// ---------------------------------------------------------------------------

/// The field is among the selected ones: all of them, or the one whose id is written.
pub open spec fn field_selected(id: u32, selected: Seq<char>) -> bool {
    selected == "all"@ || text::decimal(id as nat) == selected
}

/// Whether a field is among the selected ones.
pub fn is_field_selected(id: u32, selected_field: &str) -> (r: bool)
    ensures
        r == field_selected(id, selected_field@),
{
    str_eq(selected_field, "all") || str_eq(decimal_text(id as u64).as_str(), selected_field)
}

/// The name of the column of a team view: the full name of the team, or its id where it is not known.
pub open spec fn team_column_name(c: TimelineView) -> Seq<char> {
    match teams::option_at(c.team_options@, c.focus_team_id@) {
        Some(i) => teams::full_label(c.team_options@[i]),
        None => if c.focus_team_id@.len() == 0 {
            "Team"@
        } else {
            c.focus_team_id@
        },
    }
}

/// A column of the timeline.
#[derive(Clone, Debug)]
pub struct Column {
    pub id: u32,
    pub name: String,
}

/// A field of the list is selected.
pub open spec fn selected_at(c: TimelineView) -> spec_fn(int) -> bool {
    |i: int| field_selected(c.fields@[i].id, c.selected_field@)
}

/// The positions of the selected fields.
pub open spec fn selected_fields(c: TimelineView) -> Seq<int> {
    order::kept(c.fields@.len(), selected_at(c))
}

/// The columns of a timeline: one for the team in focus, else one for each selected field.
pub open spec fn are_columns(r: Seq<Column>, c: TimelineView) -> bool {
    if team_view(c) {
        r.len() == 1 && r[0].id == TEAM_VIEW_FIELD_ID && r[0].name@ == team_column_name(c)
    } else {
        &&& r.len() == selected_fields(c).len()
        &&& forall|k: int|
            0 <= k < r.len() ==> (#[trigger] r[k]).id == c.fields@[selected_fields(c)[k]].id && r[k].name@
                == c.fields@[selected_fields(c)[k]].name@
    }
}

/// The columns that are visible.
pub fn visible_columns(c: &TimelineView) -> (r: Vec<Column>)
    ensures
        are_columns(r@, *c),
{
    let mut out: Vec<Column> = Vec::new();
    if is_team_view(c) {
        let name = match find_option(c.team_options, c.focus_team_id) {
            Some(i) => team_full_label(&c.team_options[i]),
            None => c.focus_team_id.to_owned(),
        };
        out.push(Column { id: TEAM_VIEW_FIELD_ID, name });
        return out;
    }
    let ghost p = selected_at(*c);
    let mut i: usize = 0;
    while i < c.fields.len()
        invariant
            i <= c.fields@.len(),
            p == selected_at(*c),
            out@.len() == order::kept(i as nat, p).len(),
            forall|k: int|
                0 <= k < out@.len() ==> (#[trigger] out@[k]).id == c.fields@[order::kept(i as nat, p)[k]].id
                    && out@[k].name@ == c.fields@[order::kept(i as nat, p)[k]].name@,
        decreases c.fields@.len() - i,
    {
        let f = &c.fields[i];
        let ghost was = out@;
        if is_field_selected(f.id, c.selected_field) {
            assert(p(i as int));
            out.push(Column { id: f.id, name: f.name.clone() });
            assert forall|k: int| 0 <= k < out@.len() implies (#[trigger] out@[k]).id
                == c.fields@[order::kept((i + 1) as nat, p)[k]].id && out@[k].name@ == c.fields@[order::kept(
                (i + 1) as nat,
                p,
            )[k]].name@ by {
                if k < was.len() {
                    assert(out@[k] == was[k]);
                    assert(order::kept((i + 1) as nat, p)[k] == order::kept(i as nat, p)[k]);
                }
            }
        } else {
            assert(!p(i as int));
        }
        i = i + 1;
    }
    out
}

/// The field of a name.
pub open spec fn named(fields: Seq<FieldSetupData>, name: Seq<char>) -> spec_fn(int) -> bool {
    |i: int| fields[i].name@ == name
}

/// The position of the first field with a name.
pub open spec fn field_at(fields: Seq<FieldSetupData>, name: Option<Seq<char>>) -> Option<int> {
    match name {
        Some(n) => order::first_where(fields.len(), named(fields, n)),
        None => None,
    }
}

/// The first field with a name.
pub fn find_field(fields: &[FieldSetupData], name: &Option<String>) -> (r: Option<usize>)
    ensures
        match field_at(fields@, text::opt_text(*name)) {
            Some(i) => r is Some && r->0 == i && 0 <= i < fields@.len(),
            None => r is None,
        },
        r matches Some(k) ==> k < fields@.len(),
{
    match name {
        Some(n) => {
            let ghost p = named(fields@, n@);
            let mut i: usize = 0;
            while i < fields.len()
                invariant
                    i <= fields@.len(),
                    p == named(fields@, n@),
                    text::opt_text(*name) == Some(n@),
                    order::first_where(i as nat, p) is None,
                decreases fields@.len() - i,
            {
                if str_eq(fields[i].name.as_str(), n.as_str()) {
                    proof {
                        assert(p(i as int));
                        assert(order::first_where((i + 1) as nat, p) == Some(i as int));
                        order::lemma_first_where_stays((i + 1) as nat, fields@.len(), p);
                    }
                    return Some(i);
                }
                assert(!p(i as int));
                i = i + 1;
            }
            None
        },
        None => None,
    }
}

/// The match stands on a field that is known and selected.
pub open spec fn on_selected_field(m: MatchSetupData, c: TimelineView) -> bool {
    field_at(c.fields@, text::opt_text(m.field)) matches Some(i) && field_selected(
        c.fields@[i].id,
        c.selected_field@,
    )
}

// ---------------------------------------------------------------------------
// Blocks
// ---------------------------------------------------------------------------

/// The team of a side, if its id is that of a team option.
pub open spec fn side_option(team: Option<Seq<char>>, options: Seq<TeamOption>) -> Option<int> {
    match team {
        Some(id) => teams::option_at(options, id),
        None => None,
    }
}

/// The label of a side: full in a team view, short otherwise; the expression of the setup where the
/// team is not known.
pub open spec fn side_label(
    team: Option<Seq<char>>,
    initial: Option<Seq<char>>,
    c: TimelineView,
) -> Seq<char> {
    match side_option(team, c.team_options@) {
        Some(i) => if team_view(c) {
            teams::full_label(c.team_options@[i])
        } else {
            c.short_labels@[i]@
        },
        None => teams::text_or_empty(initial),
    }
}

/// The name of a side that a search looks through: the pseudonym, else the expression of the setup.
pub open spec fn side_search_name(
    team: Option<Seq<char>>,
    initial: Option<Seq<char>>,
    options: Seq<TeamOption>,
) -> Seq<char> {
    match side_option(team, options) {
        Some(i) => match text::opt_text(options[i].pseudonym) {
            Some(p) => p,
            None => teams::text_or_empty(initial),
        },
        None => teams::text_or_empty(initial),
    }
}

/// The photo of a side.
pub open spec fn side_photo(team: Option<Seq<char>>, options: Seq<TeamOption>) -> Option<Seq<char>> {
    match side_option(team, options) {
        Some(i) => text::opt_text(options[i].profile_photo),
        None => None,
    }
}

/// The label of a ref: as in the rest of a team view, else short; the token where the team is not
/// known.
pub open spec fn ref_label(token: Seq<char>, c: TimelineView) -> Seq<char> {
    if team_view(c) {
        teams::team_display(token, c.team_options@).0
    } else {
        match teams::option_at(c.team_options@, token) {
            Some(i) => c.short_labels@[i]@,
            None => token,
        }
    }
}

/// The name of a ref that a search looks through.
pub open spec fn ref_search_name(token: Seq<char>, options: Seq<TeamOption>) -> Seq<char> {
    match teams::option_at(options, token) {
        Some(i) => match text::opt_text(options[i].pseudonym) {
            Some(p) => p,
            None => token,
        },
        None => token,
    }
}

/// The labels of the refs of a match.
pub open spec fn ref_labels(m: MatchSetupData, c: TimelineView) -> Seq<Seq<char>> {
    Seq::new(teams::ref_tokens(m).len(), |k: int| ref_label(teams::ref_tokens(m)[k], c))
}

/// The names of the refs of a match that a search looks through.
pub open spec fn ref_search_names(m: MatchSetupData, options: Seq<TeamOption>) -> Seq<Seq<char>> {
    Seq::new(teams::ref_tokens(m).len(), |k: int| ref_search_name(teams::ref_tokens(m)[k], options))
}

/// A name holds a search text, whatever the case of either.
pub open spec fn name_holds(name: Seq<char>, search: Seq<char>) -> bool {
    text::contains_text(text::lowercased(name), text::lowercased(search))
}

/// A search marks the sides of a match.
pub open spec fn search_marks_sides(m: MatchSetupData, c: TimelineView) -> bool {
    &&& !team_view(c)
    &&& c.highlight_team@.len() > 0
    &&& name_holds(
        side_search_name(text::opt_text(m.team1), text::opt_text(m.team1_initial), c.team_options@),
        c.highlight_team@,
    ) || name_holds(
        side_search_name(text::opt_text(m.team2), text::opt_text(m.team2_initial), c.team_options@),
        c.highlight_team@,
    )
}

/// A search marks the refs of a match; never where it marks the sides.
pub open spec fn search_marks_refs(m: MatchSetupData, c: TimelineView) -> bool {
    &&& !team_view(c)
    &&& c.highlight_team@.len() > 0
    &&& !search_marks_sides(m, c)
    &&& name_holds(text::joined(ref_search_names(m, c.team_options@), ", "@), c.highlight_team@)
}

/// A match is on the timeline: it is neither skipped nor a join, and stands on a selected field, or,
/// in a team view, involves the team.
pub open spec fn on_timeline(m: MatchSetupData, c: TimelineView) -> bool {
    &&& m.status@ != "SKIPPED"@
    &&& text::opt_text(m.schedule_type) != Some("JOIN"@)
    &&& if team_view(c) {
        !teams::structural(text::opt_text(m.schedule_type)) && teams::involves(m, c.focus_team_id@, c.team_options@)
    } else {
        on_selected_field(m, c)
    }
}

/// A match has a block: it is on the timeline and has a time to be shown at.
pub open spec fn has_block(m: MatchSetupData, c: TimelineView) -> bool {
    on_timeline(m, c) && schedule_time::display_interval(m, c.show_as_happened) is Some
}

/// What the focus team does in a match.
pub open spec fn role_text(m: MatchSetupData, c: TimelineView) -> Seq<char> {
    if team_view(c) && teams::plays(m, c.focus_team_id@) {
        "playing"@
    } else if team_view(c) && teams::refs_match(m, c.focus_team_id@, c.team_options@) {
        "reffing"@
    } else {
        ""@
    }
}

/// The sides, refs and roles of a block are those of its match.
pub open spec fn shows_people(e: TimelineEvent, m: MatchSetupData, c: TimelineView) -> bool {
    &&& e.team1@ == side_label(text::opt_text(m.team1), text::opt_text(m.team1_initial), c)
    &&& e.team2@ == side_label(text::opt_text(m.team2), text::opt_text(m.team2_initial), c)
    &&& text::opt_text(e.team1_photo) == side_photo(text::opt_text(m.team1), c.team_options@)
    &&& text::opt_text(e.team2_photo) == side_photo(text::opt_text(m.team2), c.team_options@)
    &&& e.refs_display@ == text::joined(ref_labels(m, c), ", "@)
    &&& e.refs_list@.len() == teams::ref_tokens(m).len()
    &&& forall|k: int|
        0 <= k < e.refs_list@.len() ==> (#[trigger] e.refs_list@[k]).label@ == ref_labels(m, c)[k]
            && text::opt_text(e.refs_list@[k].photo) == side_photo(Some(teams::ref_tokens(m)[k]), c.team_options@)
    &&& e.highlight_playing == search_marks_sides(m, c)
    &&& e.highlight_ref == search_marks_refs(m, c)
    &&& e.team_role@ == role_text(m, c)
    &&& if team_view(c) && teams::plays(m, c.focus_team_id@) {
        let o = teams::opponent(m, c.focus_team_id@, c.team_options@)->0;
        text::opt_text(e.opponent_label) == Some(o.0) && text::opt_text(e.opponent_photo) == o.1
            && e.opponent_kind == o.2
    } else {
        e.opponent_label is None && e.opponent_photo is None && e.opponent_kind == 0
    }
}

/// The place of a block is that of its match, its time an interval of UTC in local time.
pub open spec fn shows_place(
    e: TimelineEvent,
    m: MatchSetupData,
    c: TimelineView,
    start: Moment,
    end: Moment,
) -> bool {
    &&& e.id@ == m.uuid@
    &&& e.name@ == m.name@
    &&& e.start_time == moment::moved(start, c.tz_offset_minutes as int)
    &&& e.end_time == moment::moved(end, c.tz_offset_minutes as int)
    &&& e.length_min == moment::length_minutes(e.start_time, e.end_time)
    &&& e.status@ == m.status@
    &&& text::opt_text(e.schedule_type) == text::opt_text(m.schedule_type)
    &&& e.ribbon == m.ribbon
    &&& e.color@ == (if teams::structural(text::opt_text(m.schedule_type)) && !c.editor {
        "#e9ecef"@
    } else {
        teams::status_color(m.status@)
    })
    &&& if team_view(c) {
        e.field_id == TEAM_VIEW_FIELD_ID && e.field_name@ == (match text::opt_text(m.field) {
            Some(f) => f,
            None => "TBA"@,
        })
    } else {
        let i = field_at(c.fields@, text::opt_text(m.field))->0;
        e.field_id == c.fields@[i].id && e.field_name@ == c.fields@[i].name@
    }
}

/// A block shows a match over an interval of UTC.
pub open spec fn shows_over(
    e: TimelineEvent,
    m: MatchSetupData,
    c: TimelineView,
    start: Moment,
    end: Moment,
) -> bool {
    shows_place(e, m, c, start, end) && shows_people(e, m, c)
}

/// A block shows its match.
pub open spec fn shows(e: TimelineEvent, m: MatchSetupData, c: TimelineView) -> bool {
    let (start, end) = schedule_time::display_interval(m, c.show_as_happened)->0;
    shows_over(e, m, c, start, end)
}

fn find_side(team: &Option<String>, options: &[TeamOption]) -> (r: Option<usize>)
    ensures
        match side_option(text::opt_text(*team), options@) {
            Some(i) => r is Some && r->0 == i && 0 <= i < options@.len(),
            None => r is None,
        },
        r matches Some(k) ==> k < options@.len(),
{
    match team {
        Some(id) => find_option(options, id.as_str()),
        None => None,
    }
}

pub(crate) fn label_of_side(team: &Option<String>, initial: &Option<String>, c: &TimelineView) -> (r: String)
    requires
        labelled(*c),
    ensures
        r@ == side_label(text::opt_text(*team), text::opt_text(*initial), *c),
{
    match find_side(team, c.team_options) {
        Some(i) => if is_team_view(c) {
            team_full_label(&c.team_options[i])
        } else {
            c.short_labels[i].clone()
        },
        None => or_empty(as_deref(initial)).to_owned(),
    }
}

fn search_name_of_side(
    team: &Option<String>,
    initial: &Option<String>,
    options: &[TeamOption],
) -> (r: String)
    ensures
        r@ == side_search_name(text::opt_text(*team), text::opt_text(*initial), options@),
{
    match find_side(team, options) {
        Some(i) => match &options[i].pseudonym {
            Some(p) => p.clone(),
            None => or_empty(as_deref(initial)).to_owned(),
        },
        None => or_empty(as_deref(initial)).to_owned(),
    }
}

pub(crate) fn photo_of_side(team: &Option<String>, options: &[TeamOption]) -> (r: Option<String>)
    ensures
        text::opt_text(r) == side_photo(text::opt_text(*team), options@),
{
    match find_side(team, options) {
        Some(i) => to_owned_opt(as_deref(&options[i].profile_photo)),
        None => None,
    }
}

pub(crate) fn label_of_ref(token: &str, c: &TimelineView) -> (r: String)
    requires
        labelled(*c),
    ensures
        r@ == ref_label(token@, *c),
{
    if is_team_view(c) {
        let shown = resolve_team_display(token, c.team_options);
        shown.0
    } else {
        match find_option(c.team_options, token) {
            Some(i) => c.short_labels[i].clone(),
            None => token.to_owned(),
        }
    }
}

fn search_name_of_ref(token: &str, options: &[TeamOption]) -> (r: String)
    ensures
        r@ == ref_search_name(token@, options@),
{
    match find_option(options, token) {
        Some(i) => match &options[i].pseudonym {
            Some(p) => p.clone(),
            None => token.to_owned(),
        },
        None => token.to_owned(),
    }
}

pub(crate) fn photo_of_ref(token: &str, options: &[TeamOption]) -> (r: Option<String>)
    ensures
        text::opt_text(r) == side_photo(Some(token@), options@),
{
    match find_option(options, token) {
        Some(i) => to_owned_opt(as_deref(&options[i].profile_photo)),
        None => None,
    }
}

/// Whether a name holds a search text, whatever the case of either.
pub fn name_matches(name: &str, search: &str) -> (r: bool)
    ensures
        r == name_holds(name@, search@),
{
    contains(to_lowercase(name).as_str(), to_lowercase(search).as_str())
}

fn labels_of_refs(tokens: &Vec<String>, m: &MatchSetupData, c: &TimelineView) -> (r: (
    Vec<RefLabel>,
    String,
))
    requires
        labelled(*c),
        text::texts(tokens@) == teams::ref_tokens(*m),
    ensures
        r.0@.len() == teams::ref_tokens(*m).len(),
        forall|k: int|
            0 <= k < r.0@.len() ==> (#[trigger] r.0@[k]).label@ == ref_labels(*m, *c)[k] && text::opt_text(
                r.0@[k].photo,
            ) == side_photo(Some(teams::ref_tokens(*m)[k]), c.team_options@),
        r.1@ == text::joined(ref_labels(*m, *c), ", "@),
{
    let mut list: Vec<RefLabel> = Vec::new();
    let mut labels: Vec<String> = Vec::new();
    let mut i: usize = 0;
    while i < tokens.len()
        invariant
            i <= tokens@.len(),
            labelled(*c),
            text::texts(tokens@) == teams::ref_tokens(*m),
            list@.len() == i,
            labels@.len() == i,
            forall|k: int|
                0 <= k < i ==> (#[trigger] list@[k]).label@ == ref_labels(*m, *c)[k] && text::opt_text(
                    list@[k].photo,
                ) == side_photo(Some(teams::ref_tokens(*m)[k]), c.team_options@),
            forall|k: int| 0 <= k < i ==> (#[trigger] labels@[k])@ == ref_labels(*m, *c)[k],
        decreases tokens@.len() - i,
    {
        let token = tokens[i].as_str();
        assert(token@ == text::texts(tokens@)[i as int]);
        let label = label_of_ref(token, c);
        let photo = photo_of_ref(token, c.team_options);
        labels.push(label.clone());
        list.push(RefLabel { label, photo });
        i = i + 1;
    }
    assert(text::texts(labels@) =~= ref_labels(*m, *c));
    let line = join(labels.as_slice(), ", ");
    (list, line)
}

fn search_names_of_refs(tokens: &Vec<String>, m: &MatchSetupData, options: &[TeamOption]) -> (r: String)
    requires
        text::texts(tokens@) == teams::ref_tokens(*m),
    ensures
        r@ == text::joined(ref_search_names(*m, options@), ", "@),
{
    let mut names: Vec<String> = Vec::new();
    let mut i: usize = 0;
    while i < tokens.len()
        invariant
            i <= tokens@.len(),
            text::texts(tokens@) == teams::ref_tokens(*m),
            names@.len() == i,
            forall|k: int| 0 <= k < i ==> (#[trigger] names@[k])@ == ref_search_names(*m, options@)[k],
        decreases tokens@.len() - i,
    {
        assert(tokens@[i as int]@ == text::texts(tokens@)[i as int]);
        names.push(search_name_of_ref(tokens[i].as_str(), options));
        i = i + 1;
    }
    assert(text::texts(names@) =~= ref_search_names(*m, options@));
    join(names.as_slice(), ", ")
}

/// The search marks of a match: on its sides, on its refs.
pub fn search_marks(m: &MatchSetupData, c: &TimelineView) -> (r: (bool, bool))
    ensures
        r.0 == search_marks_sides(*m, *c),
        r.1 == search_marks_refs(*m, *c),
{
    if is_team_view(c) || c.highlight_team.unicode_len() == 0 {
        return (false, false);
    }
    let t1 = search_name_of_side(&m.team1, &m.team1_initial, c.team_options);
    let t2 = search_name_of_side(&m.team2, &m.team2_initial, c.team_options);
    if name_matches(t1.as_str(), c.highlight_team) || name_matches(t2.as_str(), c.highlight_team) {
        return (true, false);
    }
    let tokens = refs_tokens(m);
    let line = search_names_of_refs(&tokens, m, c.team_options);
    (false, name_matches(line.as_str(), c.highlight_team))
}

fn is_on_timeline(m: &MatchSetupData, c: &TimelineView) -> (r: bool)
    ensures
        r == on_timeline(*m, *c),
{
    if str_eq(m.status.as_str(), "SKIPPED") || opt_str_eq(as_deref(&m.schedule_type), "JOIN") {
        return false;
    }
    if is_team_view(c) {
        !is_structural_match(m) && match_involves_team(m, c.focus_team_id, c.team_options)
    } else {
        match find_field(c.fields, &m.field) {
            Some(i) => is_field_selected(c.fields[i].id, c.selected_field),
            None => false,
        }
    }
}

/// The block of a match that is shown over an interval of UTC, if the match is on the timeline.
pub fn event_over(m: &MatchSetupData, c: &TimelineView, start: Moment, end: Moment) -> (r: Option<
    TimelineEvent,
>)
    requires
        labelled(*c),
        schedule_time::calm(start),
        schedule_time::calm(end),
        !moment::earlier(end, moment::moved(start, 1)),
    ensures
        r is Some <==> on_timeline(*m, *c),
        r matches Some(e) ==> shows_over(e, *m, *c, start, end) && has_span(e),
{
    if !is_on_timeline(m, c) {
        return None;
    }
    let start_time = plus_minutes(start, c.tz_offset_minutes as i64);
    let end_time = plus_minutes(end, c.tz_offset_minutes as i64);
    proof {
        schedule_time::law_shifted_interval_ends_after_start(start, end, c.tz_offset_minutes as int);
    }
    let in_team_view = is_team_view(c);
    let (field_id, field_name) = if in_team_view {
        (
            TEAM_VIEW_FIELD_ID,
            match &m.field {
                Some(f) => f.clone(),
                None => "TBA".to_owned(),
            },
        )
    } else {
        match find_field(c.fields, &m.field) {
            Some(i) => (c.fields[i].id, c.fields[i].name.clone()),
            None => {
                return None;
            },
        }
    };
    let tokens = refs_tokens(m);
    let (refs_list, refs_display) = labels_of_refs(&tokens, m, c);
    let color = if is_structural_match(m) && !c.editor {
        "#e9ecef".to_owned()
    } else {
        let shown = status_color_and_label(m.status.as_str());
        shown.0
    };
    let (highlight_playing, highlight_ref) = search_marks(m, c);
    let playing = in_team_view && team_is_playing(m, c.focus_team_id);
    let reffing = in_team_view && team_is_reffing(m, c.focus_team_id, c.team_options);
    let team_role = if playing {
        "playing".to_owned()
    } else if reffing {
        "reffing".to_owned()
    } else {
        "".to_owned()
    };
    let (opponent_label, opponent_photo, opponent_kind): (Option<String>, Option<String>, u8) = if playing {
        match opponent_for_focus(m, c.focus_team_id, c.team_options) {
            Some((label, photo, kind)) => (Some(label), photo, kind),
            None => (None, None, 0),
        }
    } else {
        (None, None, 0)
    };
    Some(
        TimelineEvent {
            id: m.uuid.clone(),
            name: m.name.clone(),
            team1: label_of_side(&m.team1, &m.team1_initial, c),
            team2: label_of_side(&m.team2, &m.team2_initial, c),
            team1_photo: photo_of_side(&m.team1, c.team_options),
            team2_photo: photo_of_side(&m.team2, c.team_options),
            refs_display,
            refs_list,
            start_time,
            end_time,
            length_min: whole_minutes(start_time, end_time),
            field_id,
            field_name,
            color,
            status: m.status.clone(),
            schedule_type: to_owned_opt(as_deref(&m.schedule_type)),
            highlight_playing,
            highlight_ref,
            ribbon: m.ribbon,
            team_role,
            opponent_label,
            opponent_photo,
            opponent_kind,
        },
    )
}

/// The block of a match, if it has one.
pub fn timeline_event(m: &MatchSetupData, c: &TimelineView) -> (r: Option<TimelineEvent>)
    requires
        labelled(*c),
    ensures
        r is Some <==> has_block(*m, *c),
        r matches Some(e) ==> shows(e, *m, *c) && has_span(e),
{
    match display_interval_utc(m, c.show_as_happened) {
        Some((start, end)) => event_over(m, c, start, end),
        None => None,
    }
}

/// A match of the list has a block.
pub open spec fn block_at(matches: Seq<MatchSetupData>, c: TimelineView) -> spec_fn(int) -> bool {
    |i: int| has_block(matches[i], c)
}

/// The positions of the matches that have blocks.
pub open spec fn blocks(matches: Seq<MatchSetupData>, c: TimelineView) -> Seq<int> {
    order::kept(matches.len(), block_at(matches, c))
}

/// A list of blocks shows the matches that have blocks, in the order of the matches.
pub open spec fn shows_all(
    events: Seq<TimelineEvent>,
    matches: Seq<MatchSetupData>,
    c: TimelineView,
) -> bool {
    &&& events.len() == blocks(matches, c).len()
    &&& forall|k: int|
        0 <= k < events.len() ==> shows(#[trigger] events[k], matches[blocks(matches, c)[k]], c)
}

/// The blocks of a timeline.
pub fn timeline_events(matches: &[MatchSetupData], c: &TimelineView) -> (r: Vec<TimelineEvent>)
    requires
        labelled(*c),
    ensures
        shows_all(r@, matches@, *c),
        forall|k: int| 0 <= k < r@.len() ==> has_span(#[trigger] r@[k]),
{
    let ghost p = block_at(matches@, *c);
    let mut out: Vec<TimelineEvent> = Vec::new();
    let mut i: usize = 0;
    while i < matches.len()
        invariant
            i <= matches@.len(),
            labelled(*c),
            p == block_at(matches@, *c),
            out@.len() == order::kept(i as nat, p).len(),
            forall|k: int|
                0 <= k < out@.len() ==> shows(#[trigger] out@[k], matches@[order::kept(i as nat, p)[k]], *c)
                    && has_span(out@[k]),
        decreases matches@.len() - i,
    {
        let ghost was = out@;
        match timeline_event(&matches[i], c) {
            Some(e) => {
                assert(p(i as int));
                out.push(e);
                assert forall|k: int| 0 <= k < out@.len() implies shows(
                    #[trigger] out@[k],
                    matches@[order::kept((i + 1) as nat, p)[k]],
                    *c,
                ) && has_span(out@[k]) by {
                    if k < was.len() {
                        assert(out@[k] == was[k]);
                        assert(order::kept((i + 1) as nat, p)[k] == order::kept(i as nat, p)[k]);
                    }
                }
            },
            None => {
                assert(!p(i as int));
            },
        }
        i = i + 1;
    }
    out
}

/// A block shows one of the matches that have blocks.
pub open spec fn shows_some(e: TimelineEvent, matches: Seq<MatchSetupData>, c: TimelineView) -> bool {
    exists|i: int|
        0 <= i < matches.len() && has_block(#[trigger] matches[i], c) && shows(e, matches[i], c)
}

/// Every match that has a block is shown by one, and every block shows such a match.
pub proof fn law_blocks_show_every_match(
    events: Seq<TimelineEvent>,
    matches: Seq<MatchSetupData>,
    c: TimelineView,
)
    requires
        shows_all(events, matches, c),
    ensures
        forall|i: int|
            0 <= i < matches.len() && has_block(#[trigger] matches[i], c) ==> exists|k: int|
                0 <= k < events.len() && shows(#[trigger] events[k], matches[i], c),
        forall|k: int| 0 <= k < events.len() ==> shows_some(#[trigger] events[k], matches, c),
{
    let p = block_at(matches, c);
    order::lemma_kept(matches.len(), p);
    assert forall|i: int| 0 <= i < matches.len() && has_block(#[trigger] matches[i], c) implies exists|
        k: int,
    |
        0 <= k < events.len() && shows(#[trigger] events[k], matches[i], c) by {
        assert(p(i));
        let k = choose|k: int| 0 <= k < order::kept(matches.len(), p).len() && order::kept(matches.len(), p)[k] == i;
        assert(shows(events[k], matches[i], c));
    }
    assert forall|k: int| 0 <= k < events.len() implies shows_some(#[trigger] events[k], matches, c) by {
        let i = order::kept(matches.len(), p)[k];
        assert(p(i));
        assert(has_block(matches[i], c) && shows(events[k], matches[i], c));
    }
}

/// A search never marks both the sides and the refs of a block.
pub proof fn law_marks_are_exclusive(e: TimelineEvent, m: MatchSetupData, c: TimelineView)
    requires
        shows(e, m, c),
    ensures
        !(e.highlight_playing && e.highlight_ref),
{
}

// ---------------------------------------------------------------------------
// What a timeline shows
// ---------------------------------------------------------------------------

/// A field is selected by its own number and no other, or with all fields.
pub proof fn law_field_is_selected_by_its_number(id: u32, other: u32)
    ensures
        field_selected(id, "all"@),
        field_selected(id, text::decimal(other as nat)) <==> id == other,
{
    text::law_decimal_reads_back(id as nat);
    text::law_decimal_reads_back(other as nat);
    reveal_strlit("all");
    if text::decimal(other as nat) == "all"@ {
        assert(text::is_digit("all"@[0]));
    }
}

/// The field of a name is the first with that name; where there is none, no field has it.
pub proof fn law_field_of_a_name(fields: Seq<FieldSetupData>, name: Seq<char>)
    ensures
        match field_at(fields, Some(name)) {
            Some(i) => 0 <= i < fields.len() && fields[i].name@ == name && forall|j: int|
                0 <= j < i ==> (#[trigger] fields[j]).name@ != name,
            None => forall|j: int| 0 <= j < fields.len() ==> (#[trigger] fields[j]).name@ != name,
        },
        field_at(fields, None) is None,
{
    let p = named(fields, name);
    order::lemma_first_where(fields.len(), p);
    assert forall|j: int| 0 <= j < fields.len() && !p(j) implies (#[trigger] fields[j]).name@ != name by {}
}

/// Every selected field has a column under its name, and every column is that of a selected field; a
/// team in focus has one column for all.
pub proof fn law_columns_are_the_selected_fields(r: Seq<Column>, c: TimelineView)
    requires
        are_columns(r, c),
    ensures
        c.focus_team_id@.len() > 0 ==> r.len() == 1 && r[0].id == TEAM_VIEW_FIELD_ID,
        forall|i: int|
            c.focus_team_id@.len() == 0 && 0 <= i < c.fields@.len() && field_selected(
                (#[trigger] c.fields@[i]).id,
                c.selected_field@,
            ) ==> exists|k: int|
                0 <= k < r.len() && (#[trigger] r[k]).id == c.fields@[i].id && r[k].name@ == c.fields@[i].name@,
        forall|k: int|
            c.focus_team_id@.len() == 0 && 0 <= k < r.len() ==> field_selected(
                (#[trigger] r[k]).id,
                c.selected_field@,
            ) && exists|i: int|
                0 <= i < c.fields@.len() && (#[trigger] c.fields@[i]).id == r[k].id && c.fields@[i].name@ == r[k].name@,
{
    if c.focus_team_id@.len() == 0 {
        let p = selected_at(c);
        order::lemma_kept(c.fields@.len(), p);
        let at = selected_fields(c);
        assert forall|i: int|
            0 <= i < c.fields@.len() && field_selected((#[trigger] c.fields@[i]).id, c.selected_field@) implies exists|
            k: int,
        |
            0 <= k < r.len() && (#[trigger] r[k]).id == c.fields@[i].id && r[k].name@ == c.fields@[i].name@ by {
            assert(p(i));
            let k = choose|k: int| 0 <= k < at.len() && at[k] == i;
            assert(r[k].id == c.fields@[i].id);
        }
        assert forall|k: int| 0 <= k < r.len() implies field_selected((#[trigger] r[k]).id, c.selected_field@)
            && exists|i: int|
            0 <= i < c.fields@.len() && (#[trigger] c.fields@[i]).id == r[k].id && c.fields@[i].name@ == r[k].name@ by {
            assert(p(at[k]));
            assert(c.fields@[at[k]].id == r[k].id);
        }
    }
}

/// Neither a skipped match nor a join has a block; any other match on a field that is selected has
/// one, and with a team in focus any game that the team plays.
pub proof fn law_what_is_on_the_timeline(m: MatchSetupData, c: TimelineView, i: int)
    ensures
        m.status@ == "SKIPPED"@ ==> !on_timeline(m, c),
        text::opt_text(m.schedule_type) == Some("JOIN"@) ==> !on_timeline(m, c),
        ({
            let counts = m.status@ != "SKIPPED"@ && text::opt_text(m.schedule_type) != Some("JOIN"@);
            let shown = c.focus_team_id@.len() == 0 && field_at(c.fields@, text::opt_text(m.field)) == Some(i)
                && field_selected(c.fields@[i].id, c.selected_field@);
            &&& counts && shown ==> on_timeline(m, c)
            &&& c.focus_team_id@.len() == 0 && field_at(c.fields@, text::opt_text(m.field)) is None ==> !on_timeline(m, c)
            &&& c.focus_team_id@.len() == 0 && field_at(c.fields@, text::opt_text(m.field)) == Some(i) && !field_selected(
                c.fields@[i].id,
                c.selected_field@,
            ) ==> !on_timeline(m, c)
        }),
        ({
            let id = c.focus_team_id@;
            let game = m.status@ != "SKIPPED"@ && !teams::structural(text::opt_text(m.schedule_type));
            &&& id.len() > 0 && game && (text::opt_text(m.team1) == Some(id) || text::opt_text(m.team2) == Some(id))
                ==> on_timeline(m, c)
            &&& id.len() > 0 && teams::structural(text::opt_text(m.schedule_type)) ==> !on_timeline(m, c)
            &&& id.len() > 0 && on_timeline(m, c) ==> teams::involves(m, id, c.team_options@)
        }),
{
}

/// A match whose sides are exchanged has a block whose sides are exchanged; who is marked, who refs and
/// what the focus team does stay the same.
pub proof fn law_exchanged_sides_are_shown_exchanged(
    e: TimelineEvent,
    m: MatchSetupData,
    turned_e: TimelineEvent,
    turned: MatchSetupData,
    c: TimelineView,
)
    requires
        shows_people(e, m, c),
        shows_people(turned_e, turned, c),
        turned == (MatchSetupData {
            team1: m.team2,
            team2: m.team1,
            team1_initial: m.team2_initial,
            team2_initial: m.team1_initial,
            ..m
        }),
    ensures
        turned_e.team1@ == e.team2@,
        turned_e.team2@ == e.team1@,
        text::opt_text(turned_e.team1_photo) == text::opt_text(e.team2_photo),
        text::opt_text(turned_e.team2_photo) == text::opt_text(e.team1_photo),
        turned_e.highlight_playing == e.highlight_playing,
        turned_e.highlight_ref == e.highlight_ref,
        turned_e.team_role@ == e.team_role@,
        turned_e.refs_display@ == e.refs_display@,
{
    assert(teams::ref_tokens(turned) == teams::ref_tokens(m));
    assert(ref_labels(turned, c) =~= ref_labels(m, c));
    assert(ref_search_names(turned, c.team_options@) =~= ref_search_names(m, c.team_options@));
    let id = c.focus_team_id@;
    teams::law_both_sides_play(m, turned, id);
    assert(teams::refs_match(turned, id, c.team_options@) == teams::refs_match(m, id, c.team_options@)) by {
        if teams::refs_match(m, id, c.team_options@) {
            let k = choose|k: int|
                0 <= k < teams::ref_tokens(m).len() && teams::token_is_team(#[trigger] teams::ref_tokens(m)[k], id, c.team_options@);
            assert(teams::token_is_team(teams::ref_tokens(turned)[k], id, c.team_options@));
        }
        if teams::refs_match(turned, id, c.team_options@) {
            let k = choose|k: int|
                0 <= k < teams::ref_tokens(turned).len() && teams::token_is_team(#[trigger] teams::ref_tokens(turned)[k], id, c.team_options@);
            assert(teams::token_is_team(teams::ref_tokens(m)[k], id, c.team_options@));
        }
    }
}

/// A side whose team is known is shown by the short label of that team, or its full name where a team
/// is in focus, and with its photo; any other side by what the setup says of it.
pub proof fn law_sides_are_shown_by_their_teams(
    team: Option<Seq<char>>,
    initial: Option<Seq<char>>,
    c: TimelineView,
    i: int,
)
    requires
        0 <= i < c.team_options@.len(),
        forall|j: int| 0 <= j < i ==> (#[trigger] c.team_options@[j]).id@ != c.team_options@[i].id@,
    ensures
        team == Some(c.team_options@[i].id@) ==> side_photo(team, c.team_options@) == text::opt_text(
            c.team_options@[i].profile_photo,
        ),
        team == Some(c.team_options@[i].id@) && c.focus_team_id@.len() == 0 ==> side_label(team, initial, c)
            == c.short_labels@[i]@,
        team == Some(c.team_options@[i].id@) && c.focus_team_id@.len() > 0 ==> side_label(team, initial, c)
            == teams::full_label(c.team_options@[i]),
        team is None ==> side_photo(team, c.team_options@) is None && side_label(team, initial, c) == (match initial {
            Some(s) => s,
            None => Seq::empty(),
        }),
        (forall|j: int| 0 <= j < c.team_options@.len() ==> Some((#[trigger] c.team_options@[j]).id@) != team)
            ==> side_photo(team, c.team_options@) is None && side_label(team, initial, c) == (match initial {
            Some(s) => s,
            None => Seq::empty(),
        }),
        c.focus_team_id@.len() == 0 ==> ref_label(c.team_options@[i].id@, c) == c.short_labels@[i]@,
        c.focus_team_id@.len() > 0 ==> ref_label(c.team_options@[i].id@, c) == teams::full_label(c.team_options@[i]),
{
    teams::law_option_of_an_id(c.team_options@, c.team_options@[i].id@);
    let found = teams::option_at(c.team_options@, c.team_options@[i].id@);
    assert(found == Some(i)) by {
        if found is Some && found->0 > i {
            assert(c.team_options@[i].id@ != c.team_options@[i].id@);
        }
        if found is Some && found->0 < i {
            assert(c.team_options@[found->0].id@ != c.team_options@[i].id@);
        }
    }
    if team is Some {
        teams::law_option_of_an_id(c.team_options@, team->0);
    }
}

/// A search for the name of a side marks the match; a search marks nothing where it is empty, nor
/// where a team is in focus.
pub proof fn law_search_finds_the_names_of_the_sides(m: MatchSetupData, c: TimelineView)
    ensures
        ({
            let a = side_search_name(text::opt_text(m.team1), text::opt_text(m.team1_initial), c.team_options@);
            let b = side_search_name(text::opt_text(m.team2), text::opt_text(m.team2_initial), c.team_options@);
            let s = c.highlight_team@;
            &&& c.focus_team_id@.len() == 0 && s.len() > 0 && (s == a || s == b) ==> search_marks_sides(m, c)
            &&& s.len() == 0 || c.focus_team_id@.len() > 0 ==> !search_marks_sides(m, c) && !search_marks_refs(m, c)
            &&& !(search_marks_sides(m, c) && search_marks_refs(m, c))
            &&& search_marks_sides(m, c) ==> text::contains_text(text::lowercased(a), text::lowercased(s)) || text::contains_text(
                text::lowercased(b),
                text::lowercased(s),
            )
        }),
        m.team1 is None ==> side_search_name(text::opt_text(m.team1), text::opt_text(m.team1_initial), c.team_options@) == (
        match m.team1_initial {
            Some(x) => x@,
            None => Seq::empty(),
        }),
{
    let x = text::lowercased(c.highlight_team@);
    assert(x.subrange(0, x.len() as int) =~= x);
    assert(text::occurs_at(x, x, 0));
}

/// A search for the name of the only ref of a match marks the match as reffed, unless it marks the
/// sides.
pub proof fn law_search_finds_a_ref(m: MatchSetupData, c: TimelineView)
    requires
        teams::ref_tokens(m).len() == 1,
        c.focus_team_id@.len() == 0,
        c.highlight_team@.len() > 0,
        c.highlight_team@ == ref_search_name(teams::ref_tokens(m)[0], c.team_options@),
    ensures
        search_marks_sides(m, c) || search_marks_refs(m, c),
{
    let x = text::lowercased(c.highlight_team@);
    assert(x.subrange(0, x.len() as int) =~= x);
    assert(text::occurs_at(x, x, 0));
    let names = ref_search_names(m, c.team_options@);
    assert(names.len() == 1 && names[0] == c.highlight_team@);
    assert(text::joined(names, ", "@) == names[0]);
}

/// A focus team is said to play the matches that it plays, to ref those that it refs, and nothing is
/// said where no team is in focus.
pub proof fn law_role_of_the_focus_team(m: MatchSetupData, c: TimelineView)
    ensures
        c.focus_team_id@.len() > 0 && (text::opt_text(m.team1) == Some(c.focus_team_id@) || text::opt_text(m.team2) == Some(
            c.focus_team_id@,
        )) ==> role_text(m, c) == "playing"@,
        c.focus_team_id@.len() > 0 && teams::refs_match(m, c.focus_team_id@, c.team_options@) ==> role_text(m, c)
            == "reffing"@,
        c.focus_team_id@.len() == 0 ==> role_text(m, c).len() == 0,
        role_text(m, c) == "playing"@ ==> teams::plays(m, c.focus_team_id@),
        role_text(m, c) == "reffing"@ ==> teams::refs_match(m, c.focus_team_id@, c.team_options@),
{
    reveal_strlit("playing");
    reveal_strlit("reffing");
    reveal_strlit("");
    assert("playing"@[0] != "reffing"@[0]);
    assert(""@.len() == 0 && "playing"@.len() == 7 && "reffing"@.len() == 7);
}

/// With a team in focus, the block of a match that it plays names the other side.
pub proof fn law_focus_team_sees_its_opponent(
    e: TimelineEvent,
    m: MatchSetupData,
    c: TimelineView,
    other: Seq<char>,
)
    requires
        shows_people(e, m, c),
        c.focus_team_id@.len() > 0,
        other != c.focus_team_id@,
        (text::opt_text(m.team1) == Some(c.focus_team_id@) && text::opt_text(m.team2) == Some(other)) || (text::opt_text(m.team2)
            == Some(c.focus_team_id@) && text::opt_text(m.team1) == Some(other)),
    ensures
        e.team_role@ == "playing"@,
        text::opt_text(e.opponent_label) == Some(teams::team_display(other, c.team_options@).0),
        text::opt_text(e.opponent_photo) == teams::team_display(other, c.team_options@).1,
        e.opponent_kind == teams::team_display(other, c.team_options@).2,
{
}

/// A block stands at the local time of its match: the minutes of the offset later than in UTC; and on
/// the field of its match, under its id, name and status.
pub proof fn law_block_stands_at_local_time(
    e: TimelineEvent,
    m: MatchSetupData,
    c: TimelineView,
    start: Moment,
    end: Moment,
)
    requires
        shows_place(e, m, c, start, end),
        moment::ordinary(start),
        moment::ordinary(end),
        start.nanos < 1_000_000_000,
        end.nanos < 1_000_000_000,
    ensures
        e.start_time.secs == start.secs + 60 * c.tz_offset_minutes,
        e.end_time.secs == end.secs + 60 * c.tz_offset_minutes,
        e.id@ == m.uuid@ && e.name@ == m.name@ && e.status@ == m.status@ && e.ribbon == m.ribbon,
        text::opt_text(e.schedule_type) == text::opt_text(m.schedule_type),
        c.focus_team_id@.len() == 0 && field_at(c.fields@, text::opt_text(m.field)) is Some ==> text::opt_text(m.field) == Some(
            e.field_name@,
        ) && exists|i: int|
            0 <= i < c.fields@.len() && (#[trigger] c.fields@[i]).id == e.field_id && c.fields@[i].name@
                == e.field_name@,
        c.focus_team_id@.len() > 0 ==> e.field_id == TEAM_VIEW_FIELD_ID && (m.field matches Some(f) ==> e.field_name@
            == f@),
        !teams::structural(text::opt_text(m.schedule_type)) ==> e.color@ == teams::status_color(m.status@),
        c.editor ==> e.color@ == teams::status_color(m.status@),
{
    if m.field is Some {
        law_field_of_a_name(c.fields@, m.field->0@);
        let i = field_at(c.fields@, text::opt_text(m.field));
        if c.focus_team_id@.len() == 0 && i is Some {
            assert(c.fields@[i->0].id == e.field_id);
        }
    }
}

/// A match has a block exactly if it is on the timeline and there is a time to show it at.
pub proof fn law_block_needs_a_time(m: MatchSetupData, c: TimelineView)
    ensures
        has_block(m, c) ==> on_timeline(m, c) && schedule_time::display_interval(m, c.show_as_happened) is Some,
        on_timeline(m, c) && schedule_time::display_interval(m, c.show_as_happened) is Some ==> has_block(m, c),
        m.status@ == "SKIPPED"@ ==> !has_block(m, c),
{
}

/// A search marks the refs of a match only where their names, listed with commas, hold what is searched
/// for, and marks the sides only where one of their names does.
pub proof fn law_search_marks_only_what_it_finds(m: MatchSetupData, c: TimelineView)
    ensures
        search_marks_refs(m, c) ==> text::contains_text(
            text::lowercased(text::joined(ref_search_names(m, c.team_options@), ", "@)),
            text::lowercased(c.highlight_team@),
        ),
        c.focus_team_id@.len() == 0 && c.highlight_team@.len() > 0 && !search_marks_sides(m, c) && text::contains_text(
            text::lowercased(text::joined(ref_search_names(m, c.team_options@), ", "@)),
            text::lowercased(c.highlight_team@),
        ) ==> search_marks_refs(m, c),
        search_marks_sides(m, c) ==> text::contains_text(
            text::lowercased(side_search_name(text::opt_text(m.team1), text::opt_text(m.team1_initial), c.team_options@)),
            text::lowercased(c.highlight_team@),
        ) || text::contains_text(
            text::lowercased(side_search_name(text::opt_text(m.team2), text::opt_text(m.team2_initial), c.team_options@)),
            text::lowercased(c.highlight_team@),
        ),
{
}

/// The column of a team in focus bears the full name of the team, or its id where it is not known.
pub proof fn law_team_column_bears_the_team(c: TimelineView)
    requires
        c.focus_team_id@.len() > 0,
    ensures
        (forall|j: int| 0 <= j < c.team_options@.len() ==> (#[trigger] c.team_options@[j]).id@ != c.focus_team_id@)
            ==> team_column_name(c) == c.focus_team_id@,
        teams::option_at(c.team_options@, c.focus_team_id@) matches Some(i) ==> team_column_name(c) == teams::full_label(
            c.team_options@[i],
        ),
{
    teams::law_option_of_an_id(c.team_options@, c.focus_team_id@);
}

} // verus!
