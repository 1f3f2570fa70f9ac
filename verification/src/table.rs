//! The schedule as a table.
use vstd::prelude::*;
use crate::card;
use crate::deps;
use crate::moment;
use crate::order;
use crate::schedule_time;
use crate::teams;
use crate::text;
use crate::timeline;
use crate::moment::Moment;
use crate::schedule_time::{display_interval_utc, format_datetime_local, format_naive_utc_time_local};
use crate::teams::{is_structural_match, or_empty, refs_tokens, status_color_and_label, team_ref_display};
use crate::text::{chars_of, decimal_text, str_eq, trim, up_to_first};
use crate::timeline::{TimelineEvent, TimelineView, find_field, label_of_ref, label_of_side, photo_of_ref, photo_of_side, search_marks};
use crate::types::{FieldSetupData, MatchSetupData};

verus! {

/// A match has a row: it is not skipped, and stands on the selected field unless all are.
pub open spec fn has_row(m: MatchSetupData, fields: Seq<FieldSetupData>, selected: Seq<char>) -> bool {
    &&& m.status@ != "SKIPPED"@
    &&& selected == "all"@ || (timeline::field_at(fields, text::opt_text(m.field)) matches Some(i) && text::decimal(
        fields[i].id as nat,
    ) == selected)
}

/// Whether a match has a row in the table.
pub fn is_row(m: &MatchSetupData, fields: &[FieldSetupData], selected_field: &str) -> (r: bool)
    ensures
        r == has_row(*m, fields@, selected_field@),
{
    if str_eq(m.status.as_str(), "SKIPPED") {
        return false;
    }
    if str_eq(selected_field, "all") {
        return true;
    }
    match find_field(fields, &m.field) {
        Some(i) => str_eq(decimal_text(fields[i].id as u64).as_str(), selected_field),
        None => false,
    }
}

/// A match of the list has a row.
pub open spec fn row_at(
    matches: Seq<MatchSetupData>,
    fields: Seq<FieldSetupData>,
    selected: Seq<char>,
) -> spec_fn(int) -> bool {
    |i: int| has_row(matches[i], fields, selected)
}

/// The positions of the matches that have rows.
pub open spec fn row_positions(
    matches: Seq<MatchSetupData>,
    fields: Seq<FieldSetupData>,
    selected: Seq<char>,
) -> Seq<int> {
    order::kept(matches.len(), row_at(matches, fields, selected))
}

/// The first of several sides that are listed with commas, else the label as it is.
pub open spec fn first_side(label: Seq<char>) -> Seq<char> {
    if label.contains(',') {
        text::trimmed(text::before_first(label, ','))
    } else {
        label
    }
}

fn holds_char(s: &str, c: char) -> (r: bool)
    ensures
        r == s@.contains(c),
{
    let cs = chars_of(s);
    let mut i: usize = 0;
    while i < cs.len()
        invariant
            i <= cs@.len(),
            cs@ == s@,
            forall|j: int| 0 <= j < i ==> cs@[j] != c,
        decreases cs@.len() - i,
    {
        if cs[i] == c {
            assert(s@[i as int] == c);
            return true;
        }
        i = i + 1;
    }
    false
}

/// The first of several sides that are listed with commas.
pub fn first_of_sides(label: &str) -> (r: String)
    ensures
        r@ == first_side(label@),
{
    if holds_char(label, ',') {
        trim(up_to_first(label, ',')).to_owned()
    } else {
        label.to_owned()
    }
}

/// Someone in a row: the text, how it is shown, and a photo.
#[derive(Clone, Debug)]
pub struct RowTeam {
    pub text: String,
    pub kind: u8,
    pub label: String,
    pub photo: Option<String>,
}

/// A row of the table.
#[derive(Clone, Debug)]
pub struct TableRow {
    pub id: String,
    pub name: String,
    pub schedule_type: String,
    pub start: String,
    pub status_color: String,
    pub status_label: String,
    pub team1: RowTeam,
    pub team2: RowTeam,
    pub refs: Vec<RowTeam>,
    pub row_class: String,
}

/// Someone is shown by a text and a photo.
pub open spec fn shows_text(t: RowTeam, text: Seq<char>, photo: Option<Seq<char>>) -> bool {
    t.text@ == text && (t.kind, t.label@) == teams::ref_display(text) && text::opt_text(t.photo) == photo
}

fn row_team(text: String, photo: Option<String>) -> (r: RowTeam)
    ensures
        shows_text(r, text@, text::opt_text(photo)),
{
    let (kind, label) = team_ref_display(text.as_str());
    RowTeam { text, kind, label, photo }
}

/// A start of UTC in the table: its local time of day, or a dash.
pub open spec fn start_cell(start: Option<Moment>, tz: int) -> Seq<char> {
    match start {
        Some(s) => moment::clock_text(moment::minute_of_day(moment::moved(s, tz))),
        None => "-"@,
    }
}

/// The start at which a match is shown, in UTC.
pub open spec fn row_start(m: MatchSetupData, c: TimelineView) -> Option<Moment> {
    match schedule_time::display_interval(m, c.show_as_happened) {
        Some(se) => Some(se.0),
        None => None,
    }
}

/// The status cell of a match.
pub open spec fn row_status(m: MatchSetupData, editor: bool) -> (Seq<char>, Seq<char>) {
    if teams::structural(text::opt_text(m.schedule_type)) && !editor {
        ("#e9ecef"@, "—"@)
    } else if m.status@.len() == 0 {
        ("#e9ecef"@, "-"@)
    } else {
        (teams::status_color(m.status@), teams::status_label(m.status@))
    }
}

/// The classes of a row.
pub open spec fn row_class_of(m: MatchSetupData, c: TimelineView) -> Seq<char> {
    card::text_if(timeline::search_marks_sides(m, c), "schedule-table-row--highlight-playing "@) + card::text_if(
        timeline::search_marks_refs(m, c),
        "schedule-table-row--highlight-ref "@,
    )
}

/// A row shows its match, at the start at which it is shown.
pub open spec fn is_row_of(r: TableRow, m: MatchSetupData, c: TimelineView) -> bool {
    is_row_at(r, m, row_start(m, c), c)
}

/// A row shows a match at a start of UTC.
pub open spec fn is_row_at(r: TableRow, m: MatchSetupData, start: Option<Moment>, c: TimelineView) -> bool {
    &&& r.id@ == m.uuid@
    &&& r.name@ == m.name@
    &&& r.schedule_type@ == (match text::opt_text(m.schedule_type) {
        Some(t) => t,
        None => "-"@,
    })
    &&& r.start@ == start_cell(start, c.tz_offset_minutes as int)
    &&& (r.status_color@, r.status_label@) == row_status(m, c.editor)
    &&& shows_text(
        r.team1,
        first_side(timeline::side_label(text::opt_text(m.team1), text::opt_text(m.team1_initial), c)),
        timeline::side_photo(text::opt_text(m.team1), c.team_options@),
    )
    &&& shows_text(
        r.team2,
        first_side(timeline::side_label(text::opt_text(m.team2), text::opt_text(m.team2_initial), c)),
        timeline::side_photo(text::opt_text(m.team2), c.team_options@),
    )
    &&& r.refs@.len() == teams::ref_tokens(m).len()
    &&& forall|k: int|
        0 <= k < r.refs@.len() ==> shows_text(
            #[trigger] r.refs@[k],
            timeline::ref_labels(m, c)[k],
            timeline::side_photo(Some(teams::ref_tokens(m)[k]), c.team_options@),
        )
    &&& r.row_class@ == row_class_of(m, c)
}

/// The row of a match that is shown at a start of UTC. No team is in focus in a table.
pub fn table_row_at(m: &MatchSetupData, start: Option<Moment>, c: &TimelineView) -> (r: TableRow)
    requires
        timeline::labelled(*c),
        start matches Some(s) ==> schedule_time::calm(s),
    ensures
        is_row_at(r, *m, start, *c),
{
    let start = match start {
        Some(s) => format_naive_utc_time_local(s, c.tz_offset_minutes),
        None => "-".to_owned(),
    };
    let (status_color, status_label) = if is_structural_match(m) && !c.editor {
        ("#e9ecef".to_owned(), "—".to_owned())
    } else if m.status.as_str().unicode_len() == 0 {
        ("#e9ecef".to_owned(), "-".to_owned())
    } else {
        status_color_and_label(m.status.as_str())
    };
    let label1 = label_of_side(&m.team1, &m.team1_initial, c);
    let label2 = label_of_side(&m.team2, &m.team2_initial, c);
    let team1 = row_team(first_of_sides(label1.as_str()), photo_of_side(&m.team1, c.team_options));
    let team2 = row_team(first_of_sides(label2.as_str()), photo_of_side(&m.team2, c.team_options));
    let tokens = refs_tokens(m);
    let mut refs: Vec<RowTeam> = Vec::new();
    let mut i: usize = 0;
    while i < tokens.len()
        invariant
            i <= tokens@.len(),
            timeline::labelled(*c),
            text::texts(tokens@) == teams::ref_tokens(*m),
            refs@.len() == i,
            forall|k: int|
                0 <= k < i ==> shows_text(
                    #[trigger] refs@[k],
                    timeline::ref_labels(*m, *c)[k],
                    timeline::side_photo(Some(teams::ref_tokens(*m)[k]), c.team_options@),
                ),
        decreases tokens@.len() - i,
    {
        let token = tokens[i].as_str();
        assert(token@ == text::texts(tokens@)[i as int]);
        refs.push(row_team(label_of_ref(token, c), photo_of_ref(token, c.team_options)));
        i = i + 1;
    }
    let (playing, reffing) = search_marks(m, c);
    let mut row_class = or_empty(None).to_owned();
    if playing {
        row_class.append("schedule-table-row--highlight-playing ");
    }
    if reffing {
        row_class.append("schedule-table-row--highlight-ref ");
    }
    assert(row_class@ =~= row_class_of(*m, *c));
    TableRow {
        id: m.uuid.clone(),
        name: m.name.clone(),
        schedule_type: match &m.schedule_type {
            Some(t) => t.clone(),
            None => "-".to_owned(),
        },
        start,
        status_color,
        status_label,
        team1,
        team2,
        refs,
        row_class,
    }
}

/// The row of a match.
pub fn table_row(m: &MatchSetupData, c: &TimelineView) -> (r: TableRow)
    requires
        timeline::labelled(*c),
    ensures
        is_row_of(r, *m, *c),
{
    let start = match display_interval_utc(m, c.show_as_happened) {
        Some((s, _)) => Some(s),
        None => None,
    };
    table_row_at(m, start, c)
}

/// The rows of the table, in the order of the matches.
pub fn table_rows(matches: &[MatchSetupData], c: &TimelineView) -> (r: Vec<TableRow>)
    requires
        timeline::labelled(*c),
    ensures
        r@.len() == row_positions(matches@, c.fields@, c.selected_field@).len(),
        forall|k: int|
            0 <= k < r@.len() ==> is_row_of(
                #[trigger] r@[k],
                matches@[row_positions(matches@, c.fields@, c.selected_field@)[k]],
                *c,
            ),
{
    let ghost p = row_at(matches@, c.fields@, c.selected_field@);
    let mut out: Vec<TableRow> = Vec::new();
    let mut i: usize = 0;
    while i < matches.len()
        invariant
            i <= matches@.len(),
            timeline::labelled(*c),
            p == row_at(matches@, c.fields@, c.selected_field@),
            out@.len() == order::kept(i as nat, p).len(),
            forall|k: int|
                0 <= k < out@.len() ==> is_row_of(#[trigger] out@[k], matches@[order::kept(i as nat, p)[k]], *c),
        decreases matches@.len() - i,
    {
        let ghost was = out@;
        if is_row(&matches[i], c.fields, c.selected_field) {
            out.push(table_row(&matches[i], c));
            proof {
                assert(p(i as int));
                assert forall|k: int| 0 <= k < out@.len() implies is_row_of(
                    #[trigger] out@[k],
                    matches@[order::kept((i + 1) as nat, p)[k]],
                    *c,
                ) by {
                    if k < was.len() {
                        assert(out@[k] == was[k]);
                        assert(order::kept((i + 1) as nat, p)[k] == order::kept(i as nat, p)[k]);
                    }
                }
            }
        } else {
            assert(!p(i as int));
        }
        i = i + 1;
    }
    out
}

// ---------------------------------------------------------------------------
// Cells with everything that is known of a match
// ---------------------------------------------------------------------------

/// The name of the match with an id; of several, the last.
pub open spec fn name_of(matches: Seq<MatchSetupData>, id: Seq<char>) -> Option<Seq<char>> {
    match order::last_where(matches.len(), deps::match_with_id(matches, id)) {
        Some(i) => Some(matches[i].name@),
        None => None,
    }
}

/// Cell of a time: its full local stamp, or a dash.
pub fn cell_time(time: &Option<String>, tz_offset_minutes: i16) -> (r: String)
    ensures
        r@ == (match text::opt_text(*time) {
            Some(s) => schedule_time::stamp_text(s, tz_offset_minutes as int),
            None => "-"@,
        }),
{
    match time {
        Some(s) => format_datetime_local(s.as_str(), tz_offset_minutes),
        None => "-".to_owned(),
    }
}

/// Cell of a text: the text, or a dash.
pub fn cell_text(text: &Option<String>) -> (r: String)
    ensures
        r@ == (match text::opt_text(*text) {
            Some(s) => s,
            None => "-"@,
        }),
{
    match text {
        Some(s) => s.clone(),
        None => "-".to_owned(),
    }
}

/// Cell of a number: its digits, or a dash.
pub fn cell_number(n: Option<u32>) -> (r: String)
    ensures
        r@ == (match n {
            Some(x) => text::decimal(x as nat),
            None => "-"@,
        }),
{
    match n {
        Some(x) => decimal_text(x as u64),
        None => "-".to_owned(),
    }
}

/// Cell of a match: the name of the match with the id, or a dash.
pub fn cell_match_name(matches: &[MatchSetupData], id: &Option<String>) -> (r: String)
    ensures
        r@ == (match text::opt_text(*id) {
            Some(x) => match name_of(matches@, x) {
                Some(n) => n,
                None => "-"@,
            },
            None => "-"@,
        }),
{
    match id {
        Some(x) => {
            let ghost p = deps::match_with_id(matches@, x@);
            let mut i: usize = matches.len();
            while i > 0
                invariant
                    i <= matches@.len(),
                    text::opt_text(*id) == Some(x@),
                    p == deps::match_with_id(matches@, x@),
                    order::last_where(matches@.len(), p) == order::last_where(i as nat, p),
                decreases i,
            {
                i = i - 1;
                if str_eq(matches[i].uuid.as_str(), x.as_str()) {
                    assert(p(i as int));
                    return matches[i].name.clone();
                }
                assert(!p(i as int));
            }
            "-".to_owned()
        },
        None => "-".to_owned(),
    }
}

/// A match has a row exactly where its field is selected, as on the timeline, or where all fields are;
/// a skipped match has none.
pub proof fn law_rows_are_those_of_the_selected_fields(
    m: MatchSetupData,
    fields: Seq<FieldSetupData>,
    selected: Seq<char>,
)
    ensures
        m.status@ == "SKIPPED"@ ==> !has_row(m, fields, selected),
        m.status@ != "SKIPPED"@ ==> has_row(m, fields, "all"@),
        m.status@ != "SKIPPED"@ && selected != "all"@ ==> (has_row(m, fields, selected) <==> (timeline::field_at(
            fields,
            text::opt_text(m.field),
        ) matches Some(i) && timeline::field_selected(fields[i].id, selected))),
{
}

/// Every match with a row is in the table, and in the order of the matches.
pub proof fn law_rows_come_in_order(matches: Seq<MatchSetupData>, fields: Seq<FieldSetupData>, selected: Seq<char>)
    ensures
        forall|i: int|
            0 <= i < matches.len() && has_row(#[trigger] matches[i], fields, selected) ==> row_positions(
                matches,
                fields,
                selected,
            ).contains(i),
        forall|j: int, k: int|
            0 <= j < k < row_positions(matches, fields, selected).len() ==> row_positions(matches, fields, selected)[j]
                < row_positions(matches, fields, selected)[k],
{
    let p = row_at(matches, fields, selected);
    order::lemma_kept(matches.len(), p);
    assert forall|i: int|
        0 <= i < matches.len() && has_row(#[trigger] matches[i], fields, selected) implies row_positions(
        matches,
        fields,
        selected,
    ).contains(i) by {
        assert(p(i));
    }
}

/// A row shows a match as its block does: at the same time of day, with the same colour and marks, and
/// under the same id and name.
pub proof fn law_row_and_block_agree(r: TableRow, e: TimelineEvent, m: MatchSetupData, c: TimelineView)
    requires
        is_row_of(r, m, c),
        timeline::shows(e, m, c),
        schedule_time::display_interval(m, c.show_as_happened) is Some,
    ensures
        r.id@ == e.id@,
        r.name@ == e.name@,
        r.start@ == moment::clock_text(moment::minute_of_day(e.start_time)),
        m.status@.len() > 0 || (teams::structural(text::opt_text(m.schedule_type)) && !c.editor) ==> r.status_color@ == e.color@,
        text::opt_text(r.team1.photo) == text::opt_text(e.team1_photo),
        text::opt_text(r.team2.photo) == text::opt_text(e.team2_photo),
        !e.team1@.contains(',') ==> r.team1.text@ == e.team1@,
        !e.team2@.contains(',') ==> r.team2.text@ == e.team2@,
        r.refs@.len() == e.refs_list@.len(),
        forall|k: int| 0 <= k < r.refs@.len() ==> (#[trigger] r.refs@[k]).text@ == e.refs_list@[k].label@,
        r.row_class@.len() > 0 <==> e.highlight_playing || e.highlight_ref,
{
    reveal_strlit("schedule-table-row--highlight-playing ");
    reveal_strlit("schedule-table-row--highlight-ref ");
    assert forall|k: int| 0 <= k < r.refs@.len() implies (#[trigger] r.refs@[k]).text@ == e.refs_list@[k].label@ by {}
}

/// The sides of a match whose sides are exchanged are exchanged in its row.
pub proof fn law_exchanged_sides_have_exchanged_cells(
    r: TableRow,
    m: MatchSetupData,
    turned_r: TableRow,
    turned: MatchSetupData,
    start: Option<Moment>,
    c: TimelineView,
)
    requires
        is_row_at(r, m, start, c),
        is_row_at(turned_r, turned, start, c),
        turned.team1 == m.team2 && turned.team2 == m.team1,
        turned.team1_initial == m.team2_initial && turned.team2_initial == m.team1_initial,
    ensures
        turned_r.team1.text@ == r.team2.text@ && turned_r.team1.label@ == r.team2.label@ && turned_r.team1.kind
            == r.team2.kind,
        turned_r.team2.text@ == r.team1.text@ && turned_r.team2.label@ == r.team1.label@ && turned_r.team2.kind
            == r.team1.kind,
{
}

/// Of sides that are listed with commas the first is shown, without outer white space; one side alone
/// as it is.
pub proof fn law_first_of_listed_sides(first: Seq<char>, rest: Seq<char>)
    requires
        !first.contains(','),
    ensures
        first_side(first) == first,
        first_side(first + seq![','] + rest) == text::trimmed(first),
{
    let s = first + seq![','] + rest;
    assert(s[first.len() as int] == ',');
    text::law_before_first_ends_at_the_first(s, ',');
    let r = text::before_first(s, ',');
    if r.len() < first.len() {
        assert(s[r.len() as int] == first[r.len() as int]);
        assert(first.contains(','));
    }
    if r.len() > first.len() {
        assert(r[first.len() as int] == s[first.len() as int]);
        assert(r.contains(','));
    }
    assert(r =~= first);
}

/// A time in the table is the local time of day; a match without a time has a dash.
pub proof fn law_start_cell_is_local(s: Moment, tz: int)
    requires
        moment::ordinary(s),
        s.nanos < 1_000_000_000,
        -1_000_000 <= tz <= 1_000_000,
    ensures
        start_cell(Some(s), tz) == moment::clock_text(((s.secs + 60 * tz) % 86_400) / 60),
        start_cell(None, tz) == "-"@,
{
}

/// The name of an id is that of the last match with it; an id that no match has has no name.
pub proof fn law_name_of_an_id(matches: Seq<MatchSetupData>, id: Seq<char>)
    ensures
        match name_of(matches, id) {
            Some(n) => exists|i: int|
                0 <= i < matches.len() && (#[trigger] matches[i]).uuid@ == id && matches[i].name@ == n && forall|j: int|
                    i < j < matches.len() ==> (#[trigger] matches[j]).uuid@ != id,
            None => forall|j: int| 0 <= j < matches.len() ==> (#[trigger] matches[j]).uuid@ != id,
        },
{
    let p = deps::match_with_id(matches, id);
    order::lemma_last_where(matches.len(), p);
    assert forall|j: int| 0 <= j < matches.len() && !p(j) implies (#[trigger] matches[j]).uuid@ != id by {}
    if order::last_where(matches.len(), p) is Some {
        let i = order::last_where(matches.len(), p)->0;
        assert(p(i));
        assert(matches[i].uuid@ == id);
    }
}

} // verus!
