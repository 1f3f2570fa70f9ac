//! The schedule page: where it is, what its keys do, and what its editor asks the service for.
use vstd::prelude::*;
use crate::clock;
use crate::days;
use crate::deps;
use crate::drag;
use crate::group_form;
use crate::order;
use crate::schedule_time;
use crate::teams;
use crate::text;
use crate::clock::{FILE_STAMP, UTC_ISO, write_moment};
use crate::deps::find_match;
use crate::drag::{DropContext, MoveCommitPayload};
use crate::moment::Moment;
use crate::teams::{find_option, is_structural_match, or_empty};
use crate::text::{as_deref, comes_before, concat, concat3, decimal_text, eq_ignore_ascii_case, join, parse_u32_or, str_eq};
use crate::types::{FieldSetupData, MatchSetupData, ScheduleWarning, TeamOption, UpdateMatchRequest};

verus! {

// ---------------------------------------------------------------------------
// Where the page is
// ---------------------------------------------------------------------------

/// Where the page is: its view, the team in focus and the selected field.
#[derive(Clone, Debug, PartialEq)]
pub struct ScheduleNavState {
    pub view: String,
    pub team: String,
    pub field: String,
}

/// A place in mathematical terms: view, team, field.
pub open spec fn nav_text(n: ScheduleNavState) -> (Seq<char>, Seq<char>, Seq<char>) {
    (n.view@, n.team@, n.field@)
}

/// A view of the public page.
pub open spec fn public_view(view: Seq<char>) -> bool {
    view == "team"@ || view == "field"@
}

/// A view of the editor.
pub open spec fn editor_view(view: Seq<char>) -> bool {
    view == "timeline"@ || view == "table"@
}

/// Public views are "team" and "field"; the others live in the editor.
pub fn is_valid_view(view: &str) -> (r: bool)
    ensures
        r == public_view(view@),
{
    str_eq(view, "team") || str_eq(view, "field")
}

/// A public place made whole: an unknown view becomes the team view, no field becomes all.
pub open spec fn completed_nav(view: Seq<char>, team: Seq<char>, field: Seq<char>) -> (
    Seq<char>,
    Seq<char>,
    Seq<char>,
) {
    (
        if public_view(view) {
            view
        } else {
            "team"@
        },
        team,
        if field.len() == 0 {
            "all"@
        } else {
            field
        },
    )
}

/// Where the page starts: the editor on all fields; else where the address says; else where it was
/// last.
pub open spec fn first_nav(
    editor: bool,
    address: (Seq<char>, Seq<char>, Seq<char>),
    remembered: Option<(Seq<char>, Seq<char>, Seq<char>)>,
) -> (Seq<char>, Seq<char>, Seq<char>) {
    if editor {
        ("timeline"@, Seq::empty(), "all"@)
    } else if address.0.len() > 0 || address.1.len() > 0 || address.2.len() > 0 {
        completed_nav(address.0, address.1, address.2)
    } else {
        match remembered {
            Some(n) => completed_nav(n.0, n.1, n.2),
            None => completed_nav(Seq::empty(), Seq::empty(), Seq::empty()),
        }
    }
}

/// A place as it is remembered and written into the address: all fields are written as none.
pub open spec fn stored_nav(view: Seq<char>, team: Seq<char>, field: Seq<char>) -> (
    Seq<char>,
    Seq<char>,
    Seq<char>,
) {
    (
        view,
        team,
        if field == "all"@ {
            Seq::empty()
        } else {
            field
        },
    )
}

/// The place of an optional memory.
pub open spec fn opt_nav_text(n: Option<ScheduleNavState>) -> Option<
    (Seq<char>, Seq<char>, Seq<char>),
> {
    match n {
        Some(x) => Some(nav_text(x)),
        None => None,
    }
}

fn complete_nav(view: &str, team: &str, field: &str) -> (r: ScheduleNavState)
    ensures
        nav_text(r) == completed_nav(view@, team@, field@),
{
    ScheduleNavState {
        view: if is_valid_view(view) {
            view.to_owned()
        } else {
            "team".to_owned()
        },
        team: team.to_owned(),
        field: if field.unicode_len() == 0 {
            "all".to_owned()
        } else {
            field.to_owned()
        },
    }
}

/// Where the page starts.
pub fn initial_nav(
    editor: bool,
    view: &str,
    team: &str,
    field: &str,
    remembered: Option<ScheduleNavState>,
) -> (r: ScheduleNavState)
    ensures
        nav_text(r) == first_nav(editor, (view@, team@, field@), opt_nav_text(remembered)),
{
    if editor {
        return ScheduleNavState {
            view: "timeline".to_owned(),
            team: or_empty(None).to_owned(),
            field: "all".to_owned(),
        };
    }
    if view.unicode_len() > 0 || team.unicode_len() > 0 || field.unicode_len() > 0 {
        return complete_nav(view, team, field);
    }
    match remembered {
        Some(n) => complete_nav(n.view.as_str(), n.team.as_str(), n.field.as_str()),
        None => complete_nav(or_empty(None), or_empty(None), or_empty(None)),
    }
}

/// The place as it is remembered and written into the address.
pub fn nav_to_store(view: &str, team: &str, field: &str) -> (r: ScheduleNavState)
    ensures
        nav_text(r) == stored_nav(view@, team@, field@),
{
    ScheduleNavState {
        view: view.to_owned(),
        team: team.to_owned(),
        field: if str_eq(field, "all") {
            or_empty(None).to_owned()
        } else {
            field.to_owned()
        },
    }
}

/// Whether the place changed since it was last stored.
pub fn nav_changed(last: &Option<ScheduleNavState>, now: &ScheduleNavState) -> (r: bool)
    ensures
        r == (opt_nav_text(*last) != Some(nav_text(*now))),
{
    match last {
        Some(l) => !(str_eq(l.view.as_str(), now.view.as_str()) && str_eq(
            l.team.as_str(),
            now.team.as_str(),
        ) && str_eq(l.field.as_str(), now.field.as_str())),
        None => true,
    }
}

/// The public page starts in a view that it has, with a field or all of them.
pub proof fn law_public_page_starts_in_a_public_view(
    address: (Seq<char>, Seq<char>, Seq<char>),
    remembered: Option<(Seq<char>, Seq<char>, Seq<char>)>,
)
    ensures
        public_view(first_nav(false, address, remembered).0),
        first_nav(false, address, remembered).2.len() > 0,
{
    reveal_strlit("all");
}

/// A place that was stored is where the page starts the next time, whether it comes from the memory
/// or from the address.
pub proof fn law_stored_place_is_restored(
    view: Seq<char>,
    team: Seq<char>,
    field: Seq<char>,
    remembered: Option<(Seq<char>, Seq<char>, Seq<char>)>,
)
    requires
        public_view(view),
        field.len() > 0,
    ensures
        first_nav(
            false,
            (Seq::empty(), Seq::empty(), Seq::empty()),
            Some(stored_nav(view, team, field)),
        ) == (view, team, field),
        first_nav(false, stored_nav(view, team, field), remembered) == (view, team, field),
{
    reveal_strlit("team");
    reveal_strlit("field");
}

/// The key under which the focus team of a tournament is remembered.
pub fn focus_team_storage_key(tournament_url: &str) -> (r: String)
    ensures
        r@ == "schedule_focus_team:"@ + tournament_url@,
{
    concat("schedule_focus_team:", tournament_url)
}

/// The key under which the last place of a tournament is remembered.
pub fn nav_storage_key(tournament_url: &str) -> (r: String)
    ensures
        r@ == "schedule_last_nav:"@ + tournament_url@,
{
    concat("schedule_last_nav:", tournament_url)
}

/// Whether a remembered switch is on.
pub fn is_switched_on(stored: Option<&str>) -> (r: bool)
    ensures
        r == (text::opt_slice(stored) matches Some(v) && (v == "1"@ || text::same_ignoring_ascii_case(v, "true"@))),
{
    match stored {
        Some(v) => str_eq(v, "1") || eq_ignore_ascii_case(v, "true"),
        None => false,
    }
}

/// What the page has to do before it shows a schedule.
#[derive(Clone, Copy, Debug, PartialEq, Eq, Structural)]
pub enum PageGuard {
    /// The editor is for organisers only: go to the public page.
    Leave,
    /// The view does not belong here: take this one.
    UseTimeline,
    UseTeam,
    Show,
}

/// What has to be done before a schedule is shown.
pub open spec fn guard_of(editor: bool, is_to: bool, view: Seq<char>) -> PageGuard {
    if editor && !is_to {
        PageGuard::Leave
    } else if editor && !editor_view(view) {
        PageGuard::UseTimeline
    } else if !editor && !public_view(view) {
        PageGuard::UseTeam
    } else {
        PageGuard::Show
    }
}

/// The editor is shown to organisers only, and each page only in a view that it has; the view that
/// takes the place of another is one that the page has.
pub proof fn law_page_is_shown_where_it_belongs(editor: bool, is_to: bool, view: Seq<char>)
    ensures
        guard_of(editor, is_to, view) == PageGuard::Show && editor ==> is_to && (view == "timeline"@ || view
            == "table"@),
        guard_of(editor, is_to, view) == PageGuard::Show && !editor ==> view == "team"@ || view == "field"@,
        guard_of(editor, is_to, view) == PageGuard::Leave <==> editor && !is_to,
        guard_of(true, true, "timeline"@) == PageGuard::Show && guard_of(true, true, "table"@) == PageGuard::Show,
        guard_of(false, is_to, "team"@) == PageGuard::Show && guard_of(false, is_to, "field"@) == PageGuard::Show,
        guard_of(editor, is_to, view) == PageGuard::UseTimeline ==> editor && is_to,
        guard_of(editor, is_to, view) == PageGuard::UseTeam ==> !editor,
{
}

/// What has to be done first: an editor that is not theirs is left; a view that the page does not
/// have is replaced.
pub fn page_guard(editor: bool, is_to: bool, view: &str) -> (r: PageGuard)
    ensures
        r == guard_of(editor, is_to, view@),
{
    if editor && !is_to {
        PageGuard::Leave
    } else if editor && !(str_eq(view, "timeline") || str_eq(view, "table")) {
        PageGuard::UseTimeline
    } else if !editor && !is_valid_view(view) {
        PageGuard::UseTeam
    } else {
        PageGuard::Show
    }
}

/// A field of the list has the written id.
pub open spec fn id_written(fields: Seq<FieldSetupData>, selected: Seq<char>) -> bool {
    exists|i: int| 0 <= i < fields.len() && text::decimal((#[trigger] fields[i]).id as nat) == selected
}

/// The position of the first field by name; of several with one name, the first in the list.
pub open spec fn first_by_name(fields: Seq<FieldSetupData>) -> Option<int>
    decreases fields.len(),
{
    if fields.len() == 0 {
        None
    } else {
        match first_by_name(fields.drop_last()) {
            Some(i) => if text::precedes(fields.last().name@, fields[i].name@) {
                Some(fields.len() - 1)
            } else {
                Some(i)
            },
            None => Some(0),
        }
    }
}

/// No field comes before the first by name.
pub proof fn law_first_by_name(fields: Seq<FieldSetupData>)
    requires
        fields.len() > 0,
    ensures
        first_by_name(fields) matches Some(i) && 0 <= i < fields.len() && forall|j: int|
            0 <= j < fields.len() ==> !text::precedes((#[trigger] fields[j]).name@, fields[i].name@),
    decreases fields.len(),
{
    let shorter = fields.drop_last();
    if shorter.len() == 0 {
        text::law_precedes_is_total(fields[0].name@, fields[0].name@);
    } else {
        law_first_by_name(shorter);
        let i = first_by_name(shorter)->0;
        let last = fields.last();
        let k = first_by_name(fields)->0;
        assert forall|j: int| 0 <= j < fields.len() implies !text::precedes(
            (#[trigger] fields[j]).name@,
            fields[k].name@,
        ) by {
            text::law_precedes_is_total(last.name@, last.name@);
            if j < shorter.len() {
                assert(!text::precedes(shorter[j].name@, shorter[i].name@));
                if text::precedes(last.name@, fields[i].name@) && text::precedes(fields[j].name@, last.name@) {
                    text::law_precedes_is_transitive(fields[j].name@, last.name@, fields[i].name@);
                }
            }
        }
    }
}

/// The field that "by field" has to select: none where the selected one is there, else the first by
/// name, if there is any.
pub fn field_to_select(fields: &[FieldSetupData], selected_field: &str) -> (r: Option<String>)
    ensures
        text::opt_text(r) == (if id_written(fields@, selected_field@) {
            None
        } else {
            match first_by_name(fields@) {
                Some(i) => Some(text::decimal(fields@[i].id as nat)),
                None => None,
            }
        }),
{
    let mut i: usize = 0;
    let mut best: Option<usize> = None;
    assert(fields@.take(0) =~= Seq::<FieldSetupData>::empty());
    while i < fields.len()
        invariant
            i <= fields@.len(),
            forall|j: int| 0 <= j < i ==> text::decimal((#[trigger] fields@[j]).id as nat) != selected_field@,
            match first_by_name(fields@.take(i as int)) {
                Some(k) => best is Some && best->0 == k && 0 <= k < i,
                None => best is None,
            },
            best matches Some(b) ==> b < i,
            i > 0 ==> best is Some,
        decreases fields@.len() - i,
    {
        if str_eq(decimal_text(fields[i].id as u64).as_str(), selected_field) {
            assert(text::decimal(fields@[i as int].id as nat) == selected_field@);
            return None;
        }
        let ghost upto = fields@.take(i + 1);
        assert(upto.drop_last() =~= fields@.take(i as int));
        best = match best {
            Some(b) => if comes_before(fields[i].name.as_str(), fields[b].name.as_str()) {
                Some(i)
            } else {
                Some(b)
            },
            None => Some(i),
        };
        i = i + 1;
    }
    assert(fields@.take(i as int) =~= fields@);
    match best {
        Some(b) => Some(decimal_text(fields[b].id as u64)),
        None => None,
    }
}

/// Where there is any field, the one that "by field" selects is there, so that it then stays.
pub proof fn law_selected_field_is_there(fields: Seq<FieldSetupData>)
    requires
        fields.len() > 0,
    ensures
        first_by_name(fields) matches Some(i) && id_written(fields, text::decimal(fields[i].id as nat)),
{
    law_first_by_name(fields);
}

// ---------------------------------------------------------------------------
// The team in focus
// ---------------------------------------------------------------------------

/// Who is signed in, as far as it tells a team.
#[derive(Clone, Debug)]
pub enum FocusIdentity {
    /// A team; registered for the tournament or not.
    Team { id: String, registered: bool },
    /// A player with a registration: the current team, and the team of the registration.
    Player { current_team: Option<String>, registration_team: Option<String> },
    /// Anyone else, or nobody.
    Other,
}

/// The team that the identity tells; empty where it tells none.
pub open spec fn identity_team(who: FocusIdentity) -> Seq<char> {
    match who {
        FocusIdentity::Team { id, registered } => if registered {
            id@
        } else {
            Seq::empty()
        },
        FocusIdentity::Player { current_team, registration_team } => teams::text_or_empty(
            schedule_time::or_text(text::opt_text(current_team), text::opt_text(registration_team)),
        ),
        FocusIdentity::Other => Seq::empty(),
    }
}

/// The team to focus on: that of the identity, else the remembered one.
pub open spec fn focus_of(who: FocusIdentity, stored: Option<Seq<char>>) -> Option<Seq<char>> {
    if identity_team(who).len() > 0 {
        Some(identity_team(who))
    } else if teams::text_or_empty(stored).len() > 0 {
        stored
    } else {
        None
    }
}

/// The team to focus on: a registration tells more than what was remembered.
pub fn resolve_focus_team(who: &FocusIdentity, stored: Option<&str>) -> (r: Option<String>)
    ensures
        text::opt_text(r) == focus_of(*who, text::opt_slice(stored)),
{
    let told = match who {
        FocusIdentity::Team { id, registered } => if *registered {
            id.as_str()
        } else {
            or_empty(None)
        },
        FocusIdentity::Player { current_team, registration_team } => {
            if current_team.is_some() {
                or_empty(as_deref(current_team))
            } else {
                or_empty(as_deref(registration_team))
            }
        },
        FocusIdentity::Other => or_empty(None),
    };
    if told.unicode_len() > 0 {
        return Some(told.to_owned());
    }
    let kept_one = or_empty(stored);
    if kept_one.unicode_len() > 0 {
        Some(kept_one.to_owned())
    } else {
        None
    }
}

// ---------------------------------------------------------------------------
// Keys
// ---------------------------------------------------------------------------

/// What a key does.
#[derive(Clone, Copy, Debug, PartialEq, Eq, Structural)]
pub enum KeyAction {
    Nothing,
    CloseModal,
    LeaveBulk,
    NextDay,
    PrevDay,
    Today,
    OpenTags,
    ShowTable,
    ShowTimeline,
    ShowTeam,
    ShowField,
    OpenFields,
    Export,
    OpenImport,
    Recompute,
}

/// The key is a letter, in either case.
pub open spec fn is_letter(key: Seq<char>, lower: Seq<char>, upper: Seq<char>) -> bool {
    key == lower || key == upper
}

/// A view with days.
pub open spec fn has_days(view: Seq<char>) -> bool {
    view == "team"@ || view == "field"@ || view == "timeline"@
}

/// `action` if the condition holds.
pub open spec fn action_if(condition: bool, action: KeyAction) -> KeyAction {
    if condition {
        action
    } else {
        KeyAction::Nothing
    }
}

/// What a key does, and whether its own effect is held back.
pub open spec fn key_effect(
    key: Seq<char>,
    modal_open: bool,
    editor: bool,
    view: Seq<char>,
    bulk_mode: bool,
) -> (KeyAction, bool) {
    if modal_open {
        (action_if(key == "Escape"@, KeyAction::CloseModal), key == "Escape"@)
    } else if key == "Escape"@ {
        (
            if bulk_mode {
                KeyAction::LeaveBulk
            } else {
                KeyAction::CloseModal
            },
            true,
        )
    } else if is_letter(key, "n"@, "N"@) {
        (action_if(has_days(view), KeyAction::NextDay), true)
    } else if is_letter(key, "p"@, "P"@) {
        (action_if(has_days(view), KeyAction::PrevDay), true)
    } else if is_letter(key, "t"@, "T"@) {
        (
            if editor {
                KeyAction::OpenTags
            } else {
                action_if(has_days(view), KeyAction::Today)
            },
            true,
        )
    } else if is_letter(key, "a"@, "A"@) {
        (action_if(editor, KeyAction::ShowTable), true)
    } else if is_letter(key, "l"@, "L"@) {
        (action_if(editor, KeyAction::ShowTimeline), true)
    } else if is_letter(key, "y"@, "Y"@) {
        (action_if(!editor, KeyAction::ShowTeam), true)
    } else if is_letter(key, "f"@, "F"@) {
        (
            if editor {
                KeyAction::OpenFields
            } else {
                KeyAction::ShowField
            },
            true,
        )
    } else if is_letter(key, "x"@, "X"@) {
        (action_if(editor, KeyAction::Export), editor)
    } else if is_letter(key, "i"@, "I"@) {
        (action_if(editor, KeyAction::OpenImport), editor)
    } else if is_letter(key, "r"@, "R"@) {
        (action_if(editor, KeyAction::Recompute), editor)
    } else {
        (KeyAction::Nothing, false)
    }
}

fn letter(key: &str, lower: &str, upper: &str) -> (r: bool)
    ensures
        r == is_letter(key@, lower@, upper@),
{
    str_eq(key, lower) || str_eq(key, upper)
}

fn when(condition: bool, action: KeyAction) -> (r: KeyAction)
    ensures
        r == action_if(condition, action),
{
    if condition {
        action
    } else {
        KeyAction::Nothing
    }
}

/// What a key does, and whether its own effect is held back. While a modal is open all keys but
/// Escape are its own.
pub fn handle_key(key: &str, modal_open: bool, editor: bool, view: &str, bulk_mode: bool) -> (r: (
    KeyAction,
    bool,
))
    ensures
        r == key_effect(key@, modal_open, editor, view@, bulk_mode),
{
    let escape = str_eq(key, "Escape");
    if modal_open {
        return (when(escape, KeyAction::CloseModal), escape);
    }
    if escape {
        return if bulk_mode {
            (KeyAction::LeaveBulk, true)
        } else {
            (KeyAction::CloseModal, true)
        };
    }
    let days = str_eq(view, "team") || str_eq(view, "field") || str_eq(view, "timeline");
    if letter(key, "n", "N") {
        (when(days, KeyAction::NextDay), true)
    } else if letter(key, "p", "P") {
        (when(days, KeyAction::PrevDay), true)
    } else if letter(key, "t", "T") {
        if editor {
            (KeyAction::OpenTags, true)
        } else {
            (when(days, KeyAction::Today), true)
        }
    } else if letter(key, "a", "A") {
        (when(editor, KeyAction::ShowTable), true)
    } else if letter(key, "l", "L") {
        (when(editor, KeyAction::ShowTimeline), true)
    } else if letter(key, "y", "Y") {
        (when(!editor, KeyAction::ShowTeam), true)
    } else if letter(key, "f", "F") {
        if editor {
            (KeyAction::OpenFields, true)
        } else {
            (KeyAction::ShowField, true)
        }
    } else if letter(key, "x", "X") {
        (when(editor, KeyAction::Export), editor)
    } else if letter(key, "i", "I") {
        (when(editor, KeyAction::OpenImport), editor)
    } else if letter(key, "r", "R") {
        (when(editor, KeyAction::Recompute), editor)
    } else {
        (KeyAction::Nothing, false)
    }
}

/// On the public page no key reaches anything of the editor.
pub proof fn law_public_keys_do_not_edit(key: Seq<char>, modal_open: bool, view: Seq<char>, bulk_mode: bool)
    ensures
        ({
            let action = key_effect(key, modal_open, false, view, bulk_mode).0;
            action != KeyAction::OpenTags && action != KeyAction::ShowTable && action
                != KeyAction::ShowTimeline && action != KeyAction::OpenFields && action
                != KeyAction::Export && action != KeyAction::OpenImport && action
                != KeyAction::Recompute
        }),
{
}

// ---------------------------------------------------------------------------
// What the views get
// ---------------------------------------------------------------------------

/// What the timeline of a page is given.
#[derive(Clone, Debug)]
pub struct TimelineProps {
    pub selected_field: String,
    pub highlight_team: String,
    pub focus_team_id: String,
    pub edit_mode: bool,
    pub show_as_happened: bool,
    pub editor: bool,
    pub result_pick_active: bool,
    pub show_pending: bool,
}

/// What the timeline of a page is given.
pub open spec fn are_props(
    r: TimelineProps,
    editor: bool,
    view: Seq<char>,
    selected_field: Seq<char>,
    highlight_team: Seq<char>,
    focus_team_id: Seq<char>,
    show_as_happened: bool,
    bulk_mode: bool,
    active_modal: Seq<char>,
    team_input_focused: bool,
) -> bool {
    &&& r.selected_field@ == (if view == "team"@ {
        "all"@
    } else {
        selected_field
    })
    &&& r.highlight_team@ == (if view == "team"@ {
        Seq::empty()
    } else {
        highlight_team
    })
    &&& r.focus_team_id@ == (if view == "team"@ {
        focus_team_id
    } else {
        Seq::empty()
    })
    &&& r.edit_mode == (editor && view == "timeline"@)
    &&& r.editor == (editor && view == "timeline"@)
    &&& r.show_as_happened == (editor && show_as_happened)
    &&& r.result_pick_active == (editor && !bulk_mode && (active_modal == "match_create"@
        || active_modal == "match_edit"@) && team_input_focused)
    &&& r.show_pending == (editor && active_modal == "match_create"@)
}

/// With a team in focus its timeline spans all fields and searches nothing; any other timeline has no
/// focus. Blocks are edited only on the timeline of the editor, times as they happened are shown only
/// there, and results can be picked only while a form of a match is open.
pub proof fn law_props_belong_to_the_view(
    r: TimelineProps,
    editor: bool,
    view: Seq<char>,
    selected_field: Seq<char>,
    highlight_team: Seq<char>,
    focus_team_id: Seq<char>,
    show_as_happened: bool,
    bulk_mode: bool,
    active_modal: Seq<char>,
    team_input_focused: bool,
)
    requires
        are_props(
            r,
            editor,
            view,
            selected_field,
            highlight_team,
            focus_team_id,
            show_as_happened,
            bulk_mode,
            active_modal,
            team_input_focused,
        ),
    ensures
        view == "team"@ ==> r.focus_team_id@ == focus_team_id && r.selected_field@ == "all"@ && r.highlight_team@.len()
            == 0,
        view == "field"@ || view == "timeline"@ || view == "table"@ ==> r.focus_team_id@.len() == 0
            && r.selected_field@ == selected_field && r.highlight_team@ == highlight_team,
        !editor ==> !r.edit_mode && !r.editor && !r.show_as_happened && !r.result_pick_active && !r.show_pending,
        r.edit_mode == r.editor,
        editor && view == "timeline"@ ==> r.editor,
        editor ==> r.show_as_happened == show_as_happened,
        r.result_pick_active ==> team_input_focused && !bulk_mode && (active_modal == "match_create"@ || active_modal
            == "match_edit"@),
        editor && team_input_focused && !bulk_mode && (active_modal == "match_create"@ || active_modal
            == "match_edit"@) ==> r.result_pick_active,
        r.show_pending <==> editor && active_modal == "match_create"@,
{
    reveal_strlit("team");
    reveal_strlit("field");
    reveal_strlit("timeline");
    reveal_strlit("table");
    assert("team"@.len() == 4 && "field"@.len() == 5 && "timeline"@.len() == 8 && "table"@.len() == 5);
}

/// What the timeline is given: the team view spans all fields and searches nothing; the other views
/// focus on no team; times as they happened are for the editor only; results can be picked while a
/// match form is open whose last focused input takes teams.
pub fn timeline_props(
    editor: bool,
    view: &str,
    selected_field: &str,
    highlight_team: &str,
    focus_team_id: &str,
    show_as_happened: bool,
    bulk_mode: bool,
    active_modal: &str,
    team_input_focused: bool,
) -> (r: TimelineProps)
    ensures
        are_props(
            r,
            editor,
            view@,
            selected_field@,
            highlight_team@,
            focus_team_id@,
            show_as_happened,
            bulk_mode,
            active_modal@,
            team_input_focused,
        ),
{
    let by_team = str_eq(view, "team");
    let creating = str_eq(active_modal, "match_create");
    let on_timeline = editor && str_eq(view, "timeline");
    TimelineProps {
        selected_field: if by_team {
            "all".to_owned()
        } else {
            selected_field.to_owned()
        },
        highlight_team: if by_team {
            or_empty(None).to_owned()
        } else {
            highlight_team.to_owned()
        },
        focus_team_id: if by_team {
            focus_team_id.to_owned()
        } else {
            or_empty(None).to_owned()
        },
        edit_mode: on_timeline,
        show_as_happened: editor && show_as_happened,
        editor: on_timeline,
        result_pick_active: editor && !bulk_mode && (creating || str_eq(active_modal, "match_edit"))
            && team_input_focused,
        show_pending: editor && creating,
    }
}

/// What the page shows.
#[derive(Clone, Copy, Debug, PartialEq, Eq, Structural)]
pub enum PageBody {
    PickATeam,
    Timeline,
    Table,
}

/// What the page shows in a view.
pub open spec fn body_of(view: Seq<char>, focus_team_id: Seq<char>) -> PageBody {
    if view == "team"@ && focus_team_id.len() == 0 {
        PageBody::PickATeam
    } else if view != "table"@ {
        PageBody::Timeline
    } else {
        PageBody::Table
    }
}

/// Only the team view asks for a team, and only where there is none; the table is shown in its own view,
/// and every other view shows a timeline.
pub proof fn law_what_a_view_shows(view: Seq<char>, focus_team_id: Seq<char>)
    ensures
        body_of(view, focus_team_id) == PageBody::PickATeam <==> view == "team"@ && focus_team_id.len() == 0,
        body_of(view, focus_team_id) == PageBody::Table <==> view == "table"@,
{
    reveal_strlit("team");
    reveal_strlit("table");
    assert("team"@.len() == 4 && "table"@.len() == 5);
}

/// What the page shows: the team view needs a team.
pub fn page_body(view: &str, focus_team_id: &str) -> (r: PageBody)
    ensures
        r == body_of(view@, focus_team_id@),
{
    if str_eq(view, "team") && focus_team_id.unicode_len() == 0 {
        PageBody::PickATeam
    } else if !str_eq(view, "table") {
        PageBody::Timeline
    } else {
        PageBody::Table
    }
}

/// Whether the focus team has to be listed beside the known teams.
pub fn focus_team_unlisted(team_options: &[TeamOption], focus_team_id: &str) -> (r: bool)
    ensures
        r == (focus_team_id@.len() > 0 && teams::option_at(team_options@, focus_team_id@) is None),
{
    focus_team_id.unicode_len() > 0 && find_option(team_options, focus_team_id).is_none()
}

/// Whether the warnings tell of a cycle.
pub fn has_cycle(warnings: &[ScheduleWarning]) -> (r: bool)
    ensures
        r == exists|i: int| 0 <= i < warnings@.len() && (#[trigger] warnings@[i]).kind@ == "cycle"@,
{
    let mut i: usize = 0;
    while i < warnings.len()
        invariant
            i <= warnings@.len(),
            forall|j: int| 0 <= j < i ==> (#[trigger] warnings@[j]).kind@ != "cycle"@,
        decreases warnings@.len() - i,
    {
        if str_eq(warnings[i].kind.as_str(), "cycle") {
            return true;
        }
        i = i + 1;
    }
    false
}

/// Label of a kind of warning.
pub fn kind_label(kind: &str) -> (r: &'static str)
    ensures
        r@ == (if kind@ == "unknown_team"@ {
            "Unknown team"@
        } else if kind@ == "missing_team"@ {
            "Missing team"@
        } else if kind@ == "duplicate_team"@ {
            "Duplicate team"@
        } else if kind@ == "unknown_match_ref"@ {
            "Missing match"@
        } else if kind@ == "cycle"@ {
            "Cyclic dependency"@
        } else if kind@ == "double_booked"@ {
            "Double-booked teams"@
        } else {
            "Warning"@
        }),
{
    if str_eq(kind, "unknown_team") {
        "Unknown team"
    } else if str_eq(kind, "missing_team") {
        "Missing team"
    } else if str_eq(kind, "duplicate_team") {
        "Duplicate team"
    } else if str_eq(kind, "unknown_match_ref") {
        "Missing match"
    } else if str_eq(kind, "cycle") {
        "Cyclic dependency"
    } else if str_eq(kind, "double_booked") {
        "Double-booked teams"
    } else {
        "Warning"
    }
}

/// Class of a kind of warning: a cycle is a danger.
pub fn kind_class(kind: &str) -> (r: &'static str)
    ensures
        r@ == (if kind@ == "cycle"@ {
            "list-group-item-danger"@
        } else {
            "list-group-item-warning"@
        }),
{
    if str_eq(kind, "cycle") {
        "list-group-item-danger"
    } else {
        "list-group-item-warning"
    }
}

/// The line of the matches that a warning is about, if it names any.
pub fn warning_matches(w: &ScheduleWarning) -> (r: Option<String>)
    ensures
        text::opt_text(r) == (if w.matches@.len() == 0 {
            None
        } else {
            Some("Matches: "@ + text::joined(text::texts(w.matches@), ", "@))
        }),
{
    if w.matches.len() == 0 {
        None
    } else {
        Some(concat("Matches: ", join(w.matches.as_slice(), ", ").as_str()))
    }
}

// ---------------------------------------------------------------------------
// Editing
// ---------------------------------------------------------------------------

/// What the editor opens for a match: the form of its group for a structural item, else its own.
#[derive(Clone, Debug)]
pub enum EditTarget {
    Group(String),
    Match(String),
}

/// What the editor opens for the match with an id.
pub open spec fn is_edit_target(r: EditTarget, matches: Seq<MatchSetupData>, id: Seq<char>) -> bool {
    match deps::match_at(matches, id) {
        Some(i) => if teams::structural(text::opt_text(matches[i].schedule_type)) {
            r matches EditTarget::Group(name) && name@ == matches[i].name@
        } else {
            r matches EditTarget::Match(x) && x@ == id
        },
        None => r matches EditTarget::Match(x) && x@ == id,
    }
}

/// A break or join is edited with its whole group, whose members have its name; a game by itself.
pub proof fn law_groups_are_edited_whole(r: EditTarget, matches: Seq<MatchSetupData>, i: int)
    requires
        0 <= i < matches.len(),
        forall|j: int| 0 <= j < i ==> (#[trigger] matches[j]).uuid@ != matches[i].uuid@,
        is_edit_target(r, matches, matches[i].uuid@),
    ensures
        teams::structural(text::opt_text(matches[i].schedule_type)) ==> (r matches EditTarget::Group(name) && name@
            == matches[i].name@ && group_form::members(matches, name@).contains(i)),
        !teams::structural(text::opt_text(matches[i].schedule_type)) ==> (r matches EditTarget::Match(id) && id@ == matches[i].uuid@),
{
    deps::law_match_of_an_id(matches, matches[i].uuid@);
    let at = deps::match_at(matches, matches[i].uuid@)->0;
    assert(matches[at].uuid@ == matches[i].uuid@);
    assert(at == i);
    let p = group_form::member_at(matches, matches[i].name@);
    order::lemma_kept(matches.len(), p);
    if teams::structural(text::opt_text(matches[i].schedule_type)) {
        assert(p(i));
    }
}

/// What the editor opens for the match with an id.
pub fn edit_target(matches: &[MatchSetupData], id: &str) -> (r: EditTarget)
    ensures
        is_edit_target(r, matches@, id@),
{
    match find_match(matches, id) {
        Some(i) => if is_structural_match(&matches[i]) {
            EditTarget::Group(matches[i].name.clone())
        } else {
            EditTarget::Match(id.to_owned())
        },
        None => EditTarget::Match(id.to_owned()),
    }
}

/// The list with `s` taken out where it stands first, or put at its end.
pub open spec fn toggled(list: Seq<Seq<char>>, s: Seq<char>) -> Seq<Seq<char>> {
    if list.contains(s) {
        list.remove(list.index_of_first(s)->0)
    } else {
        list.push(s)
    }
}

/// Select or deselect a block for a change of lengths.
pub fn toggle_selected(selected: &mut Vec<String>, id: &str)
    ensures
        text::texts(final(selected)@) == toggled(text::texts(old(selected)@), id@),
{
    let ghost was = text::texts(selected@);
    let mut i: usize = 0;
    while i < selected.len()
        invariant
            i <= selected@.len(),
            was == text::texts(selected@),
            was == text::texts(old(selected)@),
            forall|j: int| 0 <= j < i ==> was[j] != id@,
        decreases selected@.len() - i,
    {
        if str_eq(selected[i].as_str(), id) {
            proof {
                assert(was[i as int] == id@);
                was.index_of_first_ensures(id@);
                let k = was.index_of_first(id@)->0;
                assert(k == i);
            }
            selected.remove(i);
            assert(text::texts(selected@) =~= was.remove(i as int));
            return;
        }
        i = i + 1;
    }
    selected.push(id.to_owned());
    assert(text::texts(selected@) =~= was.push(id@));
}

/// A selection never holds a block twice.
pub proof fn law_toggle_keeps_distinct(list: Seq<Seq<char>>, s: Seq<char>)
    requires
        list.no_duplicates(),
    ensures
        toggled(list, s).no_duplicates(),
        toggled(list, s).contains(s) == !list.contains(s),
{
    if list.contains(s) {
        list.index_of_first_ensures(s);
        let k = list.index_of_first(s)->0;
        let r = list.remove(k);
        assert forall|i: int, j: int| 0 <= i < r.len() && 0 <= j < r.len() && i != j implies r[i] != r[j] by {
            let a = if i < k {
                i
            } else {
                i + 1
            };
            let b = if j < k {
                j
            } else {
                j + 1
            };
            assert(list[a] != list[b]);
        }
        if r.contains(s) {
            let i = choose|i: int| 0 <= i < r.len() && r[i] == s;
            let a = if i < k {
                i
            } else {
                i + 1
            };
            assert(list[a] == s && list[k] == s && a != k);
        }
    } else {
        let r = list.push(s);
        assert(r[r.len() - 1] == s);
        assert forall|i: int, j: int| 0 <= i < r.len() && 0 <= j < r.len() && i != j implies r[i] != r[j] by {
            if i == list.len() {
                assert(list[j] == r[j]);
            } else if j == list.len() {
                assert(list[i] == r[i]);
            }
        }
    }
}

/// A block selected and deselected again leaves the selection as it was.
pub proof fn law_toggle_twice(list: Seq<Seq<char>>, s: Seq<char>)
    requires
        list.no_duplicates(),
        !list.contains(s),
    ensures
        toggled(toggled(list, s), s) == list,
{
    let r = list.push(s);
    assert(r[r.len() - 1] == s);
    r.index_of_first_ensures(s);
    let k = r.index_of_first(s)->0;
    assert(k == list.len()) by {
        if k < list.len() {
            assert(list[k] == s);
        }
    }
    assert(r.remove(k) =~= list);
}

/// A change of the lengths of several matches.
#[derive(Clone, Debug)]
pub struct BulkMatchLengthRequest {
    pub match_ids: Vec<String>,
    pub length: u32,
}

/// The change of the lengths of the selected matches; none without a selection or with no length.
pub fn bulk_length_request(selected: Vec<String>, length: u32) -> (r: Option<BulkMatchLengthRequest>)
    ensures
        r is Some <==> selected@.len() > 0 && length != 0,
        r matches Some(q) ==> q.match_ids@ == selected@ && q.length == length,
{
    if selected.len() == 0 || length == 0 {
        None
    } else {
        Some(BulkMatchLengthRequest { match_ids: selected, length })
    }
}

/// The number of results that are not "updated".
pub open spec fn skipped_count(statuses: Seq<Seq<char>>) -> nat
    decreases statuses.len(),
{
    if statuses.len() == 0 {
        0
    } else {
        skipped_count(statuses.drop_last()) + (if statuses.last() == "updated"@ {
            0nat
        } else {
            1nat
        })
    }
}

/// What to tell after a change of lengths: how many were changed and how many were not; nothing
/// where all were.
pub open spec fn bulk_message(updated: u32, statuses: Seq<Seq<char>>) -> Option<Seq<char>> {
    if skipped_count(statuses) == 0 {
        None
    } else {
        Some(
            "Updated "@ + text::decimal(updated as nat) + " matches; "@ + text::decimal(skipped_count(statuses))
                + " skipped (locked / join / missing)."@,
        )
    }
}

/// What to tell after a change of lengths.
pub fn bulk_length_message(updated: u32, statuses: &[String]) -> (r: Option<String>)
    ensures
        text::opt_text(r) == bulk_message(updated, text::texts(statuses@)),
{
    let mut skipped: usize = 0;
    let mut i: usize = 0;
    let ghost all = text::texts(statuses@);
    assert(all.take(0) =~= Seq::<Seq<char>>::empty());
    while i < statuses.len()
        invariant
            i <= statuses@.len(),
            all == text::texts(statuses@),
            skipped <= i,
            skipped == skipped_count(all.take(i as int)),
        decreases statuses@.len() - i,
    {
        assert(all.take(i + 1).drop_last() =~= all.take(i as int));
        assert(all.take(i + 1).last() == statuses@[i as int]@);
        if !str_eq(statuses[i].as_str(), "updated") {
            skipped = skipped + 1;
        }
        i = i + 1;
    }
    assert(all.take(i as int) =~= all);
    if skipped == 0 {
        None
    } else {
        let mut s = "Updated ".to_owned();
        s.append(decimal_text(updated as u64).as_str());
        s.append(" matches; ");
        s.append(decimal_text(skipped as u64).as_str());
        s.append(" skipped (locked / join / missing).");
        Some(s)
    }
}

/// What follows the answer to a change: whether the page is refreshed, and the message that is shown.
#[derive(Clone, Debug)]
pub struct AfterChange {
    pub refresh: bool,
    pub message: Option<String>,
}

/// After something was saved, deleted or imported: a refresh, or the message of the failure.
pub fn after_change(answer: Result<(), String>) -> (r: AfterChange)
    ensures
        match answer {
            Ok(_) => r.refresh && r.message is None,
            Err(e) => !r.refresh && text::opt_text(r.message) == Some(e@),
        },
{
    match answer {
        Ok(_) => AfterChange { refresh: true, message: None },
        Err(e) => AfterChange { refresh: false, message: Some(e) },
    }
}

/// After a block was moved: a refresh either way, so that a block that could not be moved snaps back.
pub fn after_move(answer: Result<(), String>) -> (r: AfterChange)
    ensures
        r.refresh,
        match answer {
            Ok(_) => r.message is None,
            Err(e) => text::opt_text(r.message) == Some(e@),
        },
{
    match answer {
        Ok(_) => AfterChange { refresh: true, message: None },
        Err(e) => AfterChange { refresh: true, message: Some(e) },
    }
}

/// After the lengths of several matches were to be changed. With `refresh` the selection ends; with a
/// failure it stays.
pub fn after_bulk_length(answer: Result<(u32, Vec<String>), String>) -> (r: AfterChange)
    ensures
        match answer {
            Ok((updated, statuses)) => r.refresh && text::opt_text(r.message) == bulk_message(updated, text::texts(statuses@)),
            Err(e) => !r.refresh && text::opt_text(r.message) == Some(e@),
        },
{
    match answer {
        Ok((updated, statuses)) => AfterChange {
            refresh: true,
            message: bulk_length_message(updated, statuses.as_slice()),
        },
        Err(e) => AfterChange { refresh: false, message: Some(e) },
    }
}

/// The length that an input writes; thirty where it writes none.
pub fn bulk_length_input(value: &str) -> (r: u32)
    ensures
        r == (match text::parsed_u32(value@) {
            Some(n) => n,
            None => 30,
        }),
{
    parse_u32_or(value, 30)
}

/// A change of a group of same-named structural items.
#[derive(Clone, Debug)]
pub struct UpdateBreakGroupRequest {
    pub schedule_type: Option<String>,
    pub length: Option<u32>,
    pub start_time: Option<String>,
    pub fields: Option<Vec<String>>,
}

/// What a moved block asks of the service.
#[derive(Clone, Debug)]
pub enum MoveRequest {
    Match { id: String, request: UpdateMatchRequest },
    Group { name: String, request: UpdateBreakGroupRequest },
}

/// A change that changes field, start and previous match only.
pub open spec fn moves_only(
    q: UpdateMatchRequest,
    field: Option<Seq<char>>,
    start_time: Option<Seq<char>>,
    previous: Option<Seq<char>>,
) -> bool {
    &&& text::opt_text(q.field) == field
    &&& text::opt_text(q.start_time) == start_time
    &&& text::opt_text(q.previous_match_id) == previous
    &&& q.schedule_type is None
    &&& q.length is None
    &&& q.refs is None
    &&& q.team1 is None
    &&& q.team2 is None
    &&& q.set_type is None
    &&& q.nsets is None
    &&& q.stones_per_set is None
    &&& q.ribbon is None
    &&& q.skip_condition is None
}

fn move_update(
    field: Option<String>,
    start_time: Option<String>,
    previous_match_id: Option<String>,
) -> (r: UpdateMatchRequest)
    ensures
        moves_only(r, text::opt_text(field), text::opt_text(start_time), text::opt_text(previous_match_id)),
{
    UpdateMatchRequest {
        field,
        schedule_type: None,
        length: None,
        start_time,
        previous_match_id,
        refs: None,
        team1: None,
        team2: None,
        set_type: None,
        nsets: None,
        stones_per_set: None,
        ribbon: None,
        skip_condition: None,
    }
}

/// What a moved block asks of the service.
pub open spec fn is_move_request(r: Result<MoveRequest, String>, mc: MoveCommitPayload) -> bool {
    let fixed = drag::has_fixed_start(mc.schedule_type@);
    &&& r is Err <==> !fixed && mc.new_prev_id is None
    &&& r matches Err(e) ==> e@ == mc.schedule_type@
        + " matches need a previous match — drop the block after another match on the field."@
    &&& mc.schedule_type@ == "STATIC"@ ==> (r matches Ok(MoveRequest::Match { id, request })
        && id@ == mc.match_id@ && moves_only(
        request,
        text::opt_text(mc.new_field),
        text::opt_text(mc.new_start_utc),
        None,
    ))
    &&& mc.schedule_type@ == "STATBREAK"@ && mc.schedule_type@ != "STATIC"@ ==> (
    r matches Ok(MoveRequest::Group { name, request }) && name@ == mc.group_name@
        && request.schedule_type is None && request.length is None && request.fields is None
        && text::opt_text(request.start_time) == text::opt_text(mc.new_start_utc))
    &&& !fixed && mc.new_prev_id is Some ==> (r matches Ok(MoveRequest::Match { id, request })
        && id@ == mc.match_id@ && moves_only(
        request,
        text::opt_text(mc.new_field),
        None,
        text::opt_text(mc.new_prev_id),
    ))
}

/// What a moved block asks of the service. A block with a start of its own takes the new start; a
/// static break moves as a group; any other takes the new previous match, and cannot be moved
/// without one.
pub fn move_request(mc: MoveCommitPayload) -> (r: Result<MoveRequest, String>)
    ensures
        is_move_request(r, mc),
{
    if str_eq(mc.schedule_type.as_str(), "STATIC") {
        return Ok(
            MoveRequest::Match {
                id: mc.match_id,
                request: move_update(mc.new_field, mc.new_start_utc, None),
            },
        );
    }
    if str_eq(mc.schedule_type.as_str(), "STATBREAK") {
        return Ok(
            MoveRequest::Group {
                name: mc.group_name,
                request: UpdateBreakGroupRequest {
                    schedule_type: None,
                    length: None,
                    start_time: mc.new_start_utc,
                    fields: None,
                },
            },
        );
    }
    if mc.new_prev_id.is_none() {
        return Err(
            concat(
                mc.schedule_type.as_str(),
                " matches need a previous match — drop the block after another match on the field.",
            ),
        );
    }
    Ok(
        MoveRequest::Match {
            id: mc.match_id,
            request: move_update(mc.new_field, None, mc.new_prev_id),
        },
    )
}

/// The name of the file that a schedule is exported to.
pub fn export_filename(tournament_url: &str, stamp: &str) -> (r: String)
    ensures
        r@ == tournament_url@ + "_schedule_"@ + stamp@ + ".toml"@,
{
    let mut s = concat3(tournament_url, "_schedule_", stamp);
    s.append(".toml");
    s
}

/// The name of the file that a schedule is exported to at a moment of UTC; none for a moment that the
/// calendar does not have.
pub fn export_filename_at(tournament_url: &str, now_utc: Moment) -> (r: Option<String>)
    ensures
        text::opt_text(r) == (match clock::naive_written(now_utc, FILE_STAMP@) {
            Some(stamp) => Some(tournament_url@ + "_schedule_"@ + stamp + ".toml"@),
            None => None,
        }),
        r is Some <==> clock::has_moment(now_utc),
{
    match write_moment(now_utc, FILE_STAMP) {
        Some(stamp) => Some(export_filename(tournament_url, stamp.as_str())),
        None => None,
    }
}

// ---------------------------------------------------------------------------
// What the page is for
// ---------------------------------------------------------------------------

/// A key does the same in either case.
pub proof fn law_case_of_a_key_does_not_matter(modal_open: bool, editor: bool, view: Seq<char>, bulk_mode: bool)
    ensures
        key_effect("n"@, modal_open, editor, view, bulk_mode) == key_effect("N"@, modal_open, editor, view, bulk_mode),
        key_effect("p"@, modal_open, editor, view, bulk_mode) == key_effect("P"@, modal_open, editor, view, bulk_mode),
        key_effect("t"@, modal_open, editor, view, bulk_mode) == key_effect("T"@, modal_open, editor, view, bulk_mode),
        key_effect("a"@, modal_open, editor, view, bulk_mode) == key_effect("A"@, modal_open, editor, view, bulk_mode),
        key_effect("l"@, modal_open, editor, view, bulk_mode) == key_effect("L"@, modal_open, editor, view, bulk_mode),
        key_effect("y"@, modal_open, editor, view, bulk_mode) == key_effect("Y"@, modal_open, editor, view, bulk_mode),
        key_effect("f"@, modal_open, editor, view, bulk_mode) == key_effect("F"@, modal_open, editor, view, bulk_mode),
        key_effect("x"@, modal_open, editor, view, bulk_mode) == key_effect("X"@, modal_open, editor, view, bulk_mode),
        key_effect("i"@, modal_open, editor, view, bulk_mode) == key_effect("I"@, modal_open, editor, view, bulk_mode),
        key_effect("r"@, modal_open, editor, view, bulk_mode) == key_effect("R"@, modal_open, editor, view, bulk_mode),
{
    lemma_keys_differ();
}

proof fn lemma_keys_differ()
    ensures
        "n"@ == seq!['n'] && "N"@ == seq!['N'] && "p"@ == seq!['p'] && "P"@ == seq!['P'],
        "t"@ == seq!['t'] && "T"@ == seq!['T'] && "a"@ == seq!['a'] && "A"@ == seq!['A'],
        "l"@ == seq!['l'] && "L"@ == seq!['L'] && "y"@ == seq!['y'] && "Y"@ == seq!['Y'],
        "f"@ == seq!['f'] && "F"@ == seq!['F'] && "x"@ == seq!['x'] && "X"@ == seq!['X'],
        "i"@ == seq!['i'] && "I"@ == seq!['I'] && "r"@ == seq!['r'] && "R"@ == seq!['R'],
        "Escape"@.len() == 6,
        forall|a: char, b: char| a != b ==> #[trigger] seq![a] != #[trigger] seq![b],
{
    reveal_strlit("n");
    reveal_strlit("N");
    reveal_strlit("p");
    reveal_strlit("P");
    reveal_strlit("t");
    reveal_strlit("T");
    reveal_strlit("a");
    reveal_strlit("A");
    reveal_strlit("l");
    reveal_strlit("L");
    reveal_strlit("y");
    reveal_strlit("Y");
    reveal_strlit("f");
    reveal_strlit("F");
    reveal_strlit("x");
    reveal_strlit("X");
    reveal_strlit("i");
    reveal_strlit("I");
    reveal_strlit("r");
    reveal_strlit("R");
    reveal_strlit("Escape");
    assert forall|a: char, b: char| a != b implies #[trigger] seq![a] != #[trigger] seq![b] by {
        assert(seq![a][0] == a && seq![b][0] == b);
    }
}

/// In a view with days, N and P go to the next and the previous day; T goes to today on the public page
/// and opens the tags in the editor; Y and F, A and L, X, I and R have their own pages.
pub proof fn law_keys_do_what_they_say(editor: bool, view: Seq<char>, bulk_mode: bool)
    ensures
        view == "team"@ || view == "field"@ || view == "timeline"@ ==> key_effect("n"@, false, editor, view, bulk_mode)
            == (KeyAction::NextDay, true) && key_effect("p"@, false, editor, view, bulk_mode) == (
        KeyAction::PrevDay,
        true,
        ) && key_effect("t"@, false, false, view, bulk_mode) == (KeyAction::Today, true),
        view == "table"@ ==> key_effect("n"@, false, editor, view, bulk_mode).0 == KeyAction::Nothing && key_effect(
            "p"@,
            false,
            editor,
            view,
            bulk_mode,
        ).0 == KeyAction::Nothing,
        key_effect("t"@, false, true, view, bulk_mode) == (KeyAction::OpenTags, true),
        key_effect("a"@, false, true, view, bulk_mode) == (KeyAction::ShowTable, true),
        key_effect("l"@, false, true, view, bulk_mode) == (KeyAction::ShowTimeline, true),
        key_effect("y"@, false, false, view, bulk_mode) == (KeyAction::ShowTeam, true),
        key_effect("f"@, false, false, view, bulk_mode) == (KeyAction::ShowField, true),
        key_effect("f"@, false, true, view, bulk_mode) == (KeyAction::OpenFields, true),
        key_effect("x"@, false, true, view, bulk_mode) == (KeyAction::Export, true),
        key_effect("i"@, false, true, view, bulk_mode) == (KeyAction::OpenImport, true),
        key_effect("r"@, false, true, view, bulk_mode) == (KeyAction::Recompute, true),
        key_effect("y"@, false, true, view, bulk_mode).0 == KeyAction::Nothing,
{
    lemma_keys_differ();
    reveal_strlit("team");
    reveal_strlit("field");
    reveal_strlit("timeline");
    reveal_strlit("table");
    assert("team"@.len() == 4 && "field"@.len() == 5 && "timeline"@.len() == 8 && "table"@.len() == 5);
    assert("field"@[0] != "table"@[0]);
}

/// While a modal is open only Escape does anything, and it closes the modal; otherwise Escape ends a
/// selection of lengths where there is one.
pub proof fn law_escape_closes(key: Seq<char>, editor: bool, view: Seq<char>, bulk_mode: bool)
    ensures
        key != "Escape"@ ==> key_effect(key, true, editor, view, bulk_mode) == (KeyAction::Nothing, false),
        key_effect("Escape"@, true, editor, view, bulk_mode) == (KeyAction::CloseModal, true),
        key_effect("Escape"@, false, editor, view, true) == (KeyAction::LeaveBulk, true),
        key_effect("Escape"@, false, editor, view, false) == (KeyAction::CloseModal, true),
{
}

/// A registration tells the team in focus before what was remembered: that of a registered team, and of
/// a player the current team before that of the registration. Nothing to go by leaves no team.
pub proof fn law_registration_outranks_memory(who: FocusIdentity, stored: Option<Seq<char>>)
    ensures
        who matches FocusIdentity::Team { id, registered } ==> registered && id@.len() > 0 ==> focus_of(who, stored)
            == Some(id@),
        who matches FocusIdentity::Team { id, registered } ==> !registered ==> focus_of(who, stored) == focus_of(
            FocusIdentity::Other,
            stored,
        ),
        who matches FocusIdentity::Player { current_team, registration_team } ==> (current_team matches Some(t)
            ==> t@.len() > 0 ==> focus_of(who, stored) == Some(t@)),
        who matches FocusIdentity::Player { current_team, registration_team } ==> current_team is None ==> (
        registration_team matches Some(t) ==> t@.len() > 0 ==> focus_of(who, stored) == Some(t@)),
        stored matches Some(s) ==> s.len() > 0 ==> focus_of(FocusIdentity::Other, stored) == Some(s),
        stored is None ==> focus_of(FocusIdentity::Other, stored) is None,
        focus_of(who, stored) matches Some(t) ==> t.len() > 0,
{
}

/// The editor starts on the timeline, with all fields and no team.
pub proof fn law_editor_starts_on_the_timeline(
    address: (Seq<char>, Seq<char>, Seq<char>),
    remembered: Option<(Seq<char>, Seq<char>, Seq<char>)>,
)
    ensures
        editor_view(first_nav(true, address, remembered).0),
        first_nav(true, address, remembered) == ("timeline"@, Seq::<char>::empty(), "all"@),
{
}

/// A toggle touches no other entry of the selection.
pub proof fn law_toggle_touches_one(list: Seq<Seq<char>>, s: Seq<char>, other: Seq<char>)
    requires
        other != s,
    ensures
        toggled(list, s).contains(other) == list.contains(other),
{
    list.index_of_first_ensures(s);
    if list.contains(s) {
        let at = list.index_of_first(s)->0;
        let r = list.remove(at);
        if list.contains(other) {
            let i = choose|i: int| 0 <= i < list.len() && list[i] == other;
            if i < at {
                assert(r[i] == other);
            } else {
                assert(r[i - 1] == other);
            }
        }
        if r.contains(other) {
            let i = choose|i: int| 0 <= i < r.len() && r[i] == other;
            if i < at {
                assert(list[i] == other);
            } else {
                assert(list[i + 1] == other);
            }
        }
    } else {
        let r = list.push(s);
        if list.contains(other) {
            let i = choose|i: int| 0 <= i < list.len() && list[i] == other;
            assert(r[i] == other);
        }
        if r.contains(other) {
            let i = choose|i: int| 0 <= i < r.len() && r[i] == other;
            assert(list[i] == other);
        }
    }
}

/// After a change of lengths nothing is told exactly where every match was updated.
pub proof fn law_nothing_to_tell_where_all_were_updated(updated: u32, statuses: Seq<Seq<char>>)
    ensures
        bulk_message(updated, statuses) is None <==> forall|i: int|
            0 <= i < statuses.len() ==> #[trigger] statuses[i] == "updated"@,
        skipped_count(statuses) <= statuses.len(),
    decreases statuses.len(),
{
    if statuses.len() > 0 {
        let before = statuses.drop_last();
        law_nothing_to_tell_where_all_were_updated(updated, before);
        if skipped_count(statuses) == 0 {
            assert forall|i: int| 0 <= i < statuses.len() implies #[trigger] statuses[i] == "updated"@ by {
                if i < before.len() {
                    assert(before[i] == "updated"@);
                }
            }
        }
        if forall|i: int| 0 <= i < statuses.len() ==> #[trigger] statuses[i] == "updated"@ {
            assert(statuses[statuses.len() - 1] == "updated"@);
            assert forall|i: int| 0 <= i < before.len() implies #[trigger] before[i] == "updated"@ by {
                assert(statuses[i] == "updated"@);
            }
        }
    }
}

/// Each status is counted: one more match that was not updated counts one more, and one that was none.
pub proof fn law_each_status_counts(statuses: Seq<Seq<char>>, status: Seq<char>)
    ensures
        status == "updated"@ ==> skipped_count(statuses.push(status)) == skipped_count(statuses),
        status != "updated"@ ==> skipped_count(statuses.push(status)) == skipped_count(statuses) + 1,
{
    assert(statuses.push(status).drop_last() =~= statuses);
}

/// A block that is dropped is asked to be where it was dropped: on the field of its column, and at the
/// local minute of the drop, or after the match before it; nothing else of it changes. A static break
/// takes its whole group along.
pub proof fn law_dropped_block_is_asked_to_be_there(
    r: Result<MoveRequest, String>,
    p: MoveCommitPayload,
    c: DropContext,
    id: Seq<char>,
    schedule_type: Seq<char>,
    name: Seq<char>,
    col: int,
    start_min: int,
)
    requires
        drag::is_move(p, c, id, schedule_type, name, col, start_min),
        is_move_request(r, p),
        days::day_in_reach(c.day_shown),
        0 <= start_min <= 1440,
    ensures
        ({
            let written = clock::naive_written(
                (Moment {
                    secs: (c.day_shown * 86_400 + start_min * 60 - c.tz_offset_minutes * 60) as i64,
                    nanos: 0,
                }),
                UTC_ISO@,
            );
            &&& schedule_type == "STATIC"@ ==> (r matches Ok(MoveRequest::Match { id: moved_id, request }) && moved_id@
                == id && text::opt_text(request.field) == Some(c.columns@[col].name@) && text::opt_text(request.start_time)
                == written && request.previous_match_id is None)
            &&& schedule_type == "STATBREAK"@ ==> (r matches Ok(MoveRequest::Group { name: group, request }) && group@
                == name && text::opt_text(request.start_time) == written && request.fields is None && request.length is None
                && request.schedule_type is None)
            &&& schedule_type != "STATIC"@ && schedule_type != "STATBREAK"@ ==> (r is Err <==> p.new_prev_id is None)
                && (r matches Ok(x) ==> (x matches MoveRequest::Match { id: moved_id, request } && moved_id@ == id
                && text::opt_text(request.field) == Some(c.columns@[col].name@) && request.start_time is None && text::opt_text(
                request.previous_match_id,
            ) == text::opt_text(p.new_prev_id)))
            &&& r matches Ok(MoveRequest::Match { request, .. }) ==> request.team1 is None && request.team2 is None
                && request.refs is None && request.length is None && request.schedule_type is None && request.set_type
                is None && request.nsets is None && request.stones_per_set is None && request.ribbon is None
                && request.skip_condition is None
        }),
{
    reveal_strlit("STATIC");
    reveal_strlit("STATBREAK");
    assert("STATIC"@.len() == 6 && "STATBREAK"@.len() == 9);
}

} // verus!
