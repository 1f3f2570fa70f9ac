//! A block as a card: its texts, its classes, and what pointing at it does.
use vstd::prelude::*;
use crate::deps;
use crate::teams;
use crate::text;
use crate::deps::{DepEdge, dependency_edges};
use crate::teams::{is_break_like_type, is_structural_type};
use crate::text::{as_deref, concat, concat3, opt_str_eq, str_eq};
use crate::timeline::TimelineEvent;
use crate::types::MatchSetupData;

verus! {

// ---------------------------------------------------------------------------
// Texts
// ---------------------------------------------------------------------------

/// The title of a block.
pub open spec fn title_of(e: TimelineEvent, in_team_view: bool) -> Seq<char> {
    if teams::break_like(text::opt_text(e.schedule_type)) {
        e.name@
    } else if in_team_view {
        match text::opt_text(e.opponent_label) {
            Some(o) => e.name@ + " — vs "@ + o,
            None => e.name@ + " — reffing"@,
        }
    } else {
        e.name@ + " - "@ + e.team1@ + " vs "@ + e.team2@
    }
}

/// Title of a block: its name and who is in it.
pub fn event_title(e: &TimelineEvent, in_team_view: bool) -> (r: String)
    ensures
        r@ == title_of(*e, in_team_view),
{
    if is_break_like_type(as_deref(&e.schedule_type)) {
        e.name.clone()
    } else if in_team_view {
        match &e.opponent_label {
            Some(o) => concat3(e.name.as_str(), " — vs ", o.as_str()),
            None => concat(e.name.as_str(), " — reffing"),
        }
    } else {
        let mut s = concat3(e.name.as_str(), " - ", e.team1.as_str());
        s.append(" vs ");
        s.append(e.team2.as_str());
        s
    }
}

/// A game that has begun, ended or been skipped.
pub open spec fn begun(status: Seq<char>) -> bool {
    status == "IN_PROGRESS"@ || status == "COMPLETED"@ || status == "SKIPPED"@
}

/// A block whose match has begun; breaks never lock.
pub open spec fn locked(e: TimelineEvent) -> bool {
    !teams::break_like(text::opt_text(e.schedule_type)) && begun(e.status@)
}

/// Whether the match of a block has begun, so that most changes will be rejected.
pub fn is_edit_locked(e: &TimelineEvent) -> (r: bool)
    ensures
        r == locked(*e),
{
    !is_break_like_type(as_deref(&e.schedule_type)) && has_begun(e.status.as_str())
}

/// Whether a status is that of a game that has begun, ended or been skipped.
pub fn has_begun(status: &str) -> (r: bool)
    ensures
        r == begun(status@),
{
    str_eq(status, "IN_PROGRESS") || str_eq(status, "COMPLETED") || str_eq(status, "SKIPPED")
}

/// Tooltip of a block: its title, with a warning while editing a locked one.
pub fn card_tooltip(e: &TimelineEvent, in_team_view: bool, edit_mode: bool) -> (r: String)
    ensures
        r@ == (if edit_mode && locked(*e) {
            title_of(*e, in_team_view)
                + " — match has started; the server will reject most changes"@
        } else {
            title_of(*e, in_team_view)
        }),
{
    let title = event_title(e, in_team_view);
    if edit_mode && is_edit_locked(e) {
        concat(
            title.as_str(),
            " — match has started; the server will reject most changes",
        )
    } else {
        title
    }
}

/// A text, or nothing.
pub open spec fn text_if(condition: bool, s: Seq<char>) -> Seq<char> {
    if condition {
        s
    } else {
        Seq::empty()
    }
}

/// The classes of a block.
pub open spec fn class_of(
    e: TimelineEvent,
    editor: bool,
    selected: bool,
    dep_class: Option<Seq<char>>,
) -> Seq<char> {
    "schedule-timeline-event"@ + text_if(
        e.highlight_playing,
        " schedule-timeline-event--highlight-playing"@,
    ) + text_if(e.highlight_ref, " schedule-timeline-event--highlight-ref"@) + text_if(
        teams::structural(text::opt_text(e.schedule_type)) && !editor,
        " schedule-timeline-event--structural"@,
    ) + text_if(selected, " schedule-timeline-event--bulk-selected"@) + (match dep_class {
        Some(c) => " "@ + c,
        None => Seq::empty(),
    })
}

fn push_if(s: &mut String, condition: bool, text: &str)
    ensures
        final(s)@ == old(s)@ + text_if(condition, text@),
{
    let ghost was = s@;
    if condition {
        s.append(text);
    }
    assert(s@ =~= was + text_if(condition, text@));
}

/// Classes of a block: marks of the search, the chrome of structural items, selection and
/// dependencies.
pub fn event_class(e: &TimelineEvent, editor: bool, selected: bool, dep_class: Option<&str>) -> (r: String)
    ensures
        r@ == class_of(*e, editor, selected, text::opt_slice(dep_class)),
{
    let mut s = "schedule-timeline-event".to_owned();
    push_if(&mut s, e.highlight_playing, " schedule-timeline-event--highlight-playing");
    push_if(&mut s, e.highlight_ref, " schedule-timeline-event--highlight-ref");
    push_if(
        &mut s,
        is_structural_type(as_deref(&e.schedule_type)) && !editor,
        " schedule-timeline-event--structural",
    );
    push_if(&mut s, selected, " schedule-timeline-event--bulk-selected");
    let ghost was = s@;
    match dep_class {
        Some(c) => {
            s.append(" ");
            s.append(c);
            assert(s@ =~= was + (" "@ + c@));
        },
        None => {
            assert(s@ =~= was + Seq::<char>::empty());
        },
    }
    s
}

/// Background of a block: grey for structural items, white for the rest and all through the editor.
pub fn card_background(schedule_type: Option<&str>, editor: bool) -> (r: &'static str)
    ensures
        r@ == (if teams::structural(text::opt_slice(schedule_type)) && !editor {
            "#f1f3f5"@
        } else {
            "#ffffff"@
        }),
{
    if is_structural_type(schedule_type) && !editor {
        "#f1f3f5"
    } else {
        "#ffffff"
    }
}

/// Badge of the role of the focus team: its text and its class.
pub fn role_badge(team_role: &str) -> (r: Option<(&'static str, &'static str)>)
    ensures
        match r {
            Some((text, class)) => (team_role@ == "playing"@ && text@ == "Playing"@ && class@
                == "schedule-role-badge schedule-role-badge--playing"@) || (team_role@ == "reffing"@
                && team_role@ != "playing"@ && text@ == "Reffing"@ && class@
                == "schedule-role-badge schedule-role-badge--reffing"@),
            None => team_role@ != "playing"@ && team_role@ != "reffing"@,
        },
{
    if str_eq(team_role, "playing") {
        Some(("Playing", "schedule-role-badge schedule-role-badge--playing"))
    } else if str_eq(team_role, "reffing") {
        Some(("Reffing", "schedule-role-badge schedule-role-badge--reffing"))
    } else {
        None
    }
}

/// The letter that stands for a label without a photo; a question mark for an empty one.
pub fn avatar_letter(label: &str) -> (r: &str)
    ensures
        r@ == (if label@.len() == 0 {
            "?"@
        } else {
            label@.take(1)
        }),
{
    if label.unicode_len() == 0 {
        "?"
    } else {
        let first = label.substring_char(0, 1);
        assert(first@ =~= label@.take(1));
        first
    }
}

// ---------------------------------------------------------------------------
// Clicks
// ---------------------------------------------------------------------------

/// What a click on a block does.
#[derive(Clone, Copy, Debug, PartialEq, Eq, Structural)]
pub enum CardClick {
    Nothing,
    Edit,
    Open,
}

/// What a click on a block of a type does.
pub open spec fn click_of(schedule_type: Option<Seq<char>>, edit_mode: bool) -> CardClick {
    if edit_mode {
        CardClick::Edit
    } else if teams::break_like(schedule_type) {
        CardClick::Nothing
    } else {
        CardClick::Open
    }
}

/// The cursor over a block of a type.
pub open spec fn cursor_of(schedule_type: Option<Seq<char>>, edit_mode: bool, editor: bool) -> Seq<char> {
    if editor {
        "grab"@
    } else if teams::break_like(schedule_type) && !edit_mode {
        "default"@
    } else {
        "pointer"@
    }
}

/// A block outside the editor has the cursor of what can be clicked exactly if a click does something;
/// while editing every block can be edited, and otherwise every match but a break has a page.
pub proof fn law_cursor_tells_of_the_click(schedule_type: Option<Seq<char>>, edit_mode: bool)
    ensures
        cursor_of(schedule_type, edit_mode, false) == "pointer"@ <==> click_of(schedule_type, edit_mode)
            != CardClick::Nothing,
        edit_mode ==> click_of(schedule_type, edit_mode) == CardClick::Edit,
        !edit_mode ==> click_of(schedule_type, edit_mode) != CardClick::Edit,
        click_of(None, false) == CardClick::Open,
        click_of(Some("BREAK"@), false) == CardClick::Nothing,
        click_of(Some("STATBREAK"@), false) == CardClick::Nothing,
        cursor_of(schedule_type, edit_mode, true) == "grab"@,
{
    reveal_strlit("default");
    reveal_strlit("pointer");
    assert("default"@[0] != "pointer"@[0]);
}

/// A click on a block edits it while editing; otherwise it opens the page of the match, which a break
/// does not have.
pub fn card_click(schedule_type: Option<&str>, edit_mode: bool) -> (r: CardClick)
    ensures
        r == click_of(text::opt_slice(schedule_type), edit_mode),
{
    if edit_mode {
        CardClick::Edit
    } else if is_break_like_type(schedule_type) {
        CardClick::Nothing
    } else {
        CardClick::Open
    }
}

/// The cursor over a block.
pub fn card_cursor(schedule_type: Option<&str>, edit_mode: bool, editor: bool) -> (r: &'static str)
    ensures
        r@ == cursor_of(text::opt_slice(schedule_type), edit_mode, editor),
{
    if editor {
        "grab"
    } else if is_break_like_type(schedule_type) && !edit_mode {
        "default"
    } else {
        "pointer"
    }
}

/// Whether a block offers its winner and loser: a game, in the editor, while a team is being picked.
pub fn offers_result(schedule_type: Option<&str>, editor: bool, result_pick_active: bool) -> (r: bool)
    ensures
        r == (editor && result_pick_active && !teams::structural(text::opt_slice(schedule_type))),
{
    editor && result_pick_active && !is_structural_type(schedule_type)
}

/// The token for the result of a match.
pub open spec fn result_text(name: Seq<char>, winner: bool) -> Seq<char> {
    name + (if winner {
        "::winner"@
    } else {
        "::loser"@
    })
}

/// Token that stands for the winner or the loser of a match.
pub fn result_token(name: &str, winner: bool) -> (r: String)
    ensures
        r@ == result_text(name@, winner),
{
    if winner {
        concat(name, "::winner")
    } else {
        concat(name, "::loser")
    }
}

proof fn lemma_trim_start_of_sum(a: Seq<char>, b: Seq<char>)
    requires
        b.len() > 0,
        !text::is_white_space(b[0]),
    ensures
        text::trimmed_start(a + b) == text::trimmed_start(a) + b,
    decreases a.len(),
{
    if a.len() == 0 {
        assert(a + b =~= b);
    } else if text::is_white_space(a[0]) {
        assert((a + b).drop_first() =~= a.drop_first() + b);
        lemma_trim_start_of_sum(a.drop_first(), b);
    }
}

proof fn lemma_trim_start_twice(s: Seq<char>)
    ensures
        text::trimmed_start(text::trimmed_start(s)) == text::trimmed_start(s),
    decreases s.len(),
{
    if s.len() > 0 && text::is_white_space(s[0]) {
        lemma_trim_start_twice(s.drop_first());
    }
}

/// The token for a result refers to the match that it was made for.
pub proof fn law_result_token_refers_to_its_match(name: Seq<char>, winner: bool)
    ensures
        deps::referred_name(result_text(name, winner)) == Some(text::trimmed(name)),
{
    reveal_strlit("::winner");
    reveal_strlit("::loser");
    let w = "::winner"@;
    let l = "::loser"@;
    let suffix = if winner {
        w
    } else {
        l
    };
    let token = result_text(name, winner);
    let head = text::trimmed_start(name);
    lemma_trim_start_of_sum(name, suffix);
    lemma_trim_start_twice(name);
    assert(token == name + suffix);
    let t = text::trimmed(token);
    assert(text::trimmed_start(token) == head + suffix);
    assert((head + suffix).last() == 'r');
    assert(t == head + suffix);
    assert(t.skip(t.len() - suffix.len()) =~= suffix);
    assert(t.take(t.len() - suffix.len()) =~= head);
    if !winner {
        if text::ends_with(t, w) {
            let tail = t.skip(t.len() - w.len());
            assert(tail[3] == t[t.len() - 5]);
            assert(t[t.len() - 5] == suffix[2]);
            assert(w[3] == 'i');
            assert(suffix[2] == 'l');
        }
    }
    assert(text::trimmed(head) == text::trimmed(name));
}

// ---------------------------------------------------------------------------
// Hovering
// ---------------------------------------------------------------------------

/// What the pointer hovers over, and whether Alt is held: together they show dependencies.
#[derive(Clone, Debug)]
pub struct HoverState {
    pub hovered: Option<String>,
    pub alt_down: bool,
}

impl HoverState {
    /// Nothing hovered, Alt not held.
    pub fn new() -> (r: HoverState)
        ensures
            r.hovered is None,
            !r.alt_down,
    {
        HoverState { hovered: None, alt_down: false }
    }

    /// The pointer enters or leaves a block. Leaving one that is no longer hovered changes nothing.
    pub fn block_hover(&mut self, id: &str, entered: bool, alt: bool)
        ensures
            final(self).alt_down == alt,
            entered ==> text::opt_text(final(self).hovered) == Some(id@),
            !entered && text::opt_text(old(self).hovered) == Some(id@) ==> final(self).hovered is None,
            !entered && text::opt_text(old(self).hovered) != Some(id@) ==> final(self).hovered == old(
                self,
            ).hovered,
    {
        if entered {
            self.hovered = Some(id.to_owned());
        } else if opt_str_eq(as_deref(&self.hovered), id) {
            self.hovered = None;
        }
        self.alt_down = alt;
    }

    /// The pointer moves over the grid: with Alt held, what lies under it is what is hovered.
    pub fn pointer_move(&mut self, alt: bool, under: Option<String>)
        ensures
            final(self).alt_down == alt,
            final(self).hovered == (if alt {
                under
            } else {
                old(self).hovered
            }),
    {
        self.alt_down = alt;
        if alt {
            self.hovered = under;
        }
    }

    /// Alt goes down or up.
    pub fn set_alt(&mut self, down: bool)
        ensures
            final(self).alt_down == down,
            final(self).hovered == old(self).hovered,
    {
        self.alt_down = down;
    }

    /// The pointer leaves the grid.
    pub fn pointer_leave(&mut self)
        ensures
            final(self).hovered is None,
            final(self).alt_down == old(self).alt_down,
    {
        self.hovered = None;
    }

    /// The window loses the focus: the release of Alt would never be seen.
    pub fn window_blur(&mut self)
        ensures
            final(self).hovered is None,
            !final(self).alt_down,
    {
        self.hovered = None;
        self.alt_down = false;
    }

    /// The dependencies to show: those of the hovered match, in the editor, while Alt is held.
    pub fn shown_edges(&self, editor: bool, matches: &[MatchSetupData]) -> (r: Vec<DepEdge>)
        ensures
            deps::edge_texts(r@) == (if editor && self.alt_down && self.hovered is Some {
                deps::edges_of(matches@, self.hovered->0@)
            } else {
                Seq::empty()
            }),
    {
        if editor && self.alt_down {
            match &self.hovered {
                Some(id) => {
                    return dependency_edges(matches, id.as_str());
                },
                None => {},
            }
        }
        let none: Vec<DepEdge> = Vec::new();
        assert(deps::edge_texts(none@) =~= Seq::<(Seq<char>, Seq<char>, u8)>::empty());
        none
    }
}

/// A title begins with the name of the match. That of a break is the name alone; in a team view it
/// ends with the opponent; elsewhere it names the first side before the second.
pub proof fn law_title_names_who_is_in_it(e: TimelineEvent, in_team_view: bool)
    ensures
        title_of(e, in_team_view).len() >= e.name@.len() && title_of(e, in_team_view).take(e.name@.len() as int)
            == e.name@,
        text::opt_text(e.schedule_type) == Some("BREAK"@) || text::opt_text(e.schedule_type) == Some("STATBREAK"@) ==> title_of(
            e,
            in_team_view,
        ) == e.name@,
        !teams::break_like(text::opt_text(e.schedule_type)) && !in_team_view ==> text::ends_with(
            title_of(e, in_team_view),
            e.team1@ + " vs "@ + e.team2@,
        ),
        !teams::break_like(text::opt_text(e.schedule_type)) && in_team_view ==> (text::opt_text(e.opponent_label) matches Some(o)
            ==> text::ends_with(title_of(e, in_team_view), o)),
{
    let t = title_of(e, in_team_view);
    assert(t.take(e.name@.len() as int) =~= e.name@);
    if !teams::break_like(text::opt_text(e.schedule_type)) && !in_team_view {
        let s = e.team1@ + " vs "@ + e.team2@;
        assert(t.skip(t.len() - s.len()) =~= s);
    }
    if !teams::break_like(text::opt_text(e.schedule_type)) && in_team_view && e.opponent_label is Some {
        let o = e.opponent_label->0@;
        assert(t.skip(t.len() - o.len()) =~= o);
    }
}

/// A game locks when it begins and stays locked when it is over or skipped; a break never locks.
pub proof fn law_what_is_locked(e: TimelineEvent)
    ensures
        text::opt_text(e.schedule_type) == Some("BREAK"@) || text::opt_text(e.schedule_type) == Some("STATBREAK"@) ==> !locked(e),
        e.schedule_type is None ==> (locked(e) <==> e.status@ == "IN_PROGRESS"@ || e.status@ == "COMPLETED"@
            || e.status@ == "SKIPPED"@),
        locked(e) ==> e.status@ == "IN_PROGRESS"@ || e.status@ == "COMPLETED"@ || e.status@ == "SKIPPED"@,
        !teams::break_like(text::opt_text(e.schedule_type)) && (e.status@ == "IN_PROGRESS"@ || e.status@ == "COMPLETED"@
            || e.status@ == "SKIPPED"@) ==> locked(e),
{
}

/// A block has the class of blocks first and that of its dependencies last, and selecting it adds to
/// its classes.
pub proof fn law_classes_of_a_block(e: TimelineEvent, editor: bool, dep: Seq<char>)
    ensures
        class_of(e, editor, false, None).take("schedule-timeline-event"@.len() as int) == "schedule-timeline-event"@,
        class_of(e, editor, true, None) == class_of(e, editor, false, None)
            + " schedule-timeline-event--bulk-selected"@,
        class_of(e, editor, false, Some(dep)) == class_of(e, editor, false, None) + " "@ + dep,
        !e.highlight_playing && !e.highlight_ref && !teams::structural(text::opt_text(e.schedule_type)) ==> class_of(
            e,
            editor,
            false,
            None,
        ) == "schedule-timeline-event"@,
        class_of(e, true, false, None) == "schedule-timeline-event"@ + text_if(
            e.highlight_playing,
            " schedule-timeline-event--highlight-playing"@,
        ) + text_if(e.highlight_ref, " schedule-timeline-event--highlight-ref"@),
        text_if(true, dep) == dep && text_if(false, dep).len() == 0,
{
    let c = class_of(e, editor, false, None);
    assert(c.take("schedule-timeline-event"@.len() as int) =~= "schedule-timeline-event"@);
    assert(class_of(e, editor, true, None) =~= c + " schedule-timeline-event--bulk-selected"@);
    assert(class_of(e, editor, false, Some(dep)) =~= c + " "@ + dep);
    assert(!e.highlight_playing && !e.highlight_ref && !teams::structural(text::opt_text(e.schedule_type)) ==> c
        =~= "schedule-timeline-event"@);
    assert(class_of(e, true, false, None) =~= "schedule-timeline-event"@ + text_if(
        e.highlight_playing,
        " schedule-timeline-event--highlight-playing"@,
    ) + text_if(e.highlight_ref, " schedule-timeline-event--highlight-ref"@));
}

} // verus!
