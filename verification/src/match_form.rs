//! The forms for creating and editing a match: what they start with, what they accept, and what they
//! send.
use vstd::prelude::*;
use crate::clock;
use crate::deps;
use crate::drag;
use crate::moment;
use crate::schedule_time;
use crate::teams;
use crate::text;
use crate::clock::{LOCAL_INPUT, read_naive, write_moment};
use crate::deps::find_match;
use crate::drag::PendingCreateGhost;
use crate::moment::Moment;
use crate::schedule_time::{latest_match_before, local_datetime_to_utc_iso, utc_iso_to_local_datetime_input};
use crate::teams::or_empty;
use crate::text::{as_deref, concat, concat3, join, list_contains, opt_str_eq, split, str_eq, trim, trim_end_char};
use crate::types::{CreateMatchRequest, MatchSetupData, UpdateMatchRequest, ValidateDslResponse};

verus! {

/// What the form of a match holds.
#[derive(Clone, Debug)]
pub struct MatchForm {
    pub name: String,
    pub field: String,
    pub schedule_type: String,
    pub length: u32,
    pub start_time: String,
    pub previous_match_id: String,
    pub refs: String,
    pub team1: String,
    pub team2: String,
    pub set_type: String,
    pub nsets: u32,
    pub stones_per_set: u32,
    pub ribbon: bool,
    pub skip_condition: String,
    /// Fields that a break or join spans.
    pub break_fields: Vec<String>,
}

// ---------------------------------------------------------------------------
// Kinds
// ---------------------------------------------------------------------------

/// A type that a new match can have.
pub open spec fn creatable(t: Seq<char>) -> bool {
    t == "STATIC"@ || follows(t) || grouped(t)
}

/// A game that follows a previous match.
pub open spec fn follows(t: Seq<char>) -> bool {
    t == "SAFE"@ || t == "FAST"@
}

/// A structural item, made on several fields at once.
pub open spec fn grouped(t: Seq<char>) -> bool {
    t == "BREAK"@ || t == "STATBREAK"@ || t == "JOIN"@
}

/// Whether a type is that of a game that follows a previous match.
pub fn is_following(t: &str) -> (r: bool)
    ensures
        r == follows(t@),
{
    str_eq(t, "SAFE") || str_eq(t, "FAST")
}

/// Whether a type is that of a structural item.
pub fn is_grouped(t: &str) -> (r: bool)
    ensures
        r == grouped(t@),
{
    str_eq(t, "BREAK") || str_eq(t, "STATBREAK") || str_eq(t, "JOIN")
}

/// A type can be chosen for a match of a type: a static match can become safe or fast, a safe one
/// fast; breaks and joins stay what they are.
pub open spec fn may_become(from: Seq<char>, to: Seq<char>) -> bool {
    ||| to == "STATIC"@ && from == "STATIC"@
    ||| to == "SAFE"@ && (from == "STATIC"@ || from == "SAFE"@)
    ||| to == "FAST"@ && (from == "STATIC"@ || from == "SAFE"@ || from == "FAST"@)
    ||| to == "BREAK"@ && from == "BREAK"@
    ||| to == "JOIN"@ && from == "JOIN"@
}

/// Whether a type can be chosen when editing a match of a type.
pub fn type_allowed(original: &str, to: &str) -> (r: bool)
    ensures
        r == may_become(original@, to@),
{
    (str_eq(to, "STATIC") && str_eq(original, "STATIC")) || (str_eq(to, "SAFE") && (str_eq(
        original,
        "STATIC",
    ) || str_eq(original, "SAFE"))) || (str_eq(to, "FAST") && (str_eq(original, "STATIC") || str_eq(
        original,
        "SAFE",
    ) || str_eq(original, "FAST"))) || (str_eq(to, "BREAK") && str_eq(original, "BREAK")) || (
    str_eq(to, "JOIN") && str_eq(original, "JOIN"))
}

/// Changing the type of a match only ever gives up what fixes its start: what a changed type can
/// become, the original could.
pub proof fn law_type_changes_only_loosen(a: Seq<char>, b: Seq<char>, c: Seq<char>)
    requires
        may_become(a, b),
        may_become(b, c),
    ensures
        may_become(a, c),
        may_become(b, a) ==> a == b,
{
    reveal_strlit("STATIC");
    reveal_strlit("SAFE");
    reveal_strlit("FAST");
    reveal_strlit("BREAK");
    reveal_strlit("JOIN");
    assert("STATIC"@.len() == 6);
    assert("BREAK"@.len() == 5);
    assert("SAFE"@[0] != "FAST"@[0] && "SAFE"@[0] != "JOIN"@[0] && "FAST"@[0] != "JOIN"@[0]);
}

// ---------------------------------------------------------------------------
// Starts
// ---------------------------------------------------------------------------

/// The type that a new match starts with.
pub open spec fn first_type(default_type: Option<Seq<char>>) -> Seq<char> {
    match default_type {
        Some(t) => if creatable(t) {
            t
        } else {
            "STATIC"@
        },
        None => "STATIC"@,
    }
}

/// The form of a new match: what the drag told, and the usual values.
pub open spec fn is_new_form(
    f: MatchForm,
    prefill_field: Option<Seq<char>>,
    prefill_start: Option<Seq<char>>,
    prefill_length: Option<u32>,
    prefill_prev: Option<Seq<char>>,
    default_type: Option<Seq<char>>,
) -> bool {
    &&& f.name@.len() == 0
    &&& f.field@ == teams::text_or_empty(prefill_field)
    &&& f.schedule_type@ == first_type(default_type)
    &&& f.length == (match prefill_length {
        Some(n) => n,
        None => 60,
    })
    &&& f.start_time@ == teams::text_or_empty(prefill_start)
    &&& f.previous_match_id@ == (if follows(first_type(default_type)) {
        teams::text_or_empty(prefill_prev)
    } else {
        Seq::empty()
    })
    &&& f.refs@.len() == 0
    &&& f.team1@.len() == 0
    &&& f.team2@.len() == 0
    &&& f.set_type@ == "SETS"@
    &&& f.nsets == 3
    &&& f.stones_per_set == 100
    &&& !f.ribbon
    &&& f.skip_condition@.len() == 0
    &&& text::texts(f.break_fields@) == (match prefill_field {
        Some(x) => seq![x],
        None => Seq::empty(),
    })
}

fn blank() -> (r: String)
    ensures
        r@.len() == 0,
        r@ == Seq::<char>::empty(),
{
    let s = String::new();
    assert(s@ =~= Seq::<char>::empty());
    s
}

/// The form of a new match.
pub fn new_match_form(
    prefill_field: Option<&str>,
    prefill_start_time: Option<&str>,
    prefill_length: Option<u32>,
    prefill_prev_match_id: Option<&str>,
    default_schedule_type: Option<&str>,
) -> (r: MatchForm)
    ensures
        is_new_form(
            r,
            text::opt_slice(prefill_field),
            text::opt_slice(prefill_start_time),
            prefill_length,
            text::opt_slice(prefill_prev_match_id),
            text::opt_slice(default_schedule_type),
        ),
{
    let schedule_type = match default_schedule_type {
        Some(t) => if str_eq(t, "STATIC") || is_following(t) || is_grouped(t) {
            t
        } else {
            "STATIC"
        },
        None => "STATIC",
    };
    let mut break_fields: Vec<String> = Vec::new();
    match prefill_field {
        Some(f) => {
            break_fields.push(f.to_owned());
            assert(text::texts(break_fields@) =~= seq![f@]);
        },
        None => {
            assert(text::texts(break_fields@) =~= Seq::<Seq<char>>::empty());
        },
    }
    MatchForm {
        name: blank(),
        field: or_empty(prefill_field).to_owned(),
        schedule_type: schedule_type.to_owned(),
        length: match prefill_length {
            Some(n) => n,
            None => 60,
        },
        start_time: or_empty(prefill_start_time).to_owned(),
        previous_match_id: if is_following(schedule_type) {
            or_empty(prefill_prev_match_id).to_owned()
        } else {
            blank()
        },
        refs: blank(),
        team1: blank(),
        team2: blank(),
        set_type: "SETS".to_owned(),
        nsets: 3,
        stones_per_set: 100,
        ribbon: false,
        skip_condition: blank(),
        break_fields,
    }
}

/// The start that a drag hands to the form.
pub fn prefill_start_text(start_local: Moment) -> (r: Option<String>)
    ensures
        text::opt_text(r) == clock::naive_written(start_local, LOCAL_INPUT@),
        r is Some <==> clock::has_moment(start_local),
{
    write_moment(start_local, LOCAL_INPUT)
}

/// The start that the form of a match shows: its nominal start in local time, or, where that cannot
/// be read, the first sixteen characters of it.
pub open spec fn shown_input(nominal: Option<Seq<char>>, tz: int) -> Seq<char> {
    match nominal {
        Some(t) => input_or_start(t, schedule_time::local_input_of_utc(t, tz)),
        None => Seq::empty(),
    }
}

/// The local time of a start, or the first sixteen characters of it where there is none.
pub open spec fn input_or_start(start: Seq<char>, local: Option<Seq<char>>) -> Seq<char> {
    match local {
        Some(s) => s,
        None => if start.len() <= 16 {
            start
        } else {
            start.take(16)
        },
    }
}

/// The form of a match that is edited.
pub open spec fn is_form_of(f: MatchForm, m: MatchSetupData, tz: int) -> bool {
    &&& f.name@ == m.name@
    &&& f.field@ == teams::text_or_empty(text::opt_text(m.field))
    &&& f.schedule_type@ == (match text::opt_text(m.schedule_type) {
        Some(t) => t,
        None => "STATIC"@,
    })
    &&& f.length == (match m.nominal_length {
        Some(n) => n,
        None => 60,
    })
    &&& f.start_time@ == shown_input(text::opt_text(m.nominal_start_time), tz)
    &&& f.previous_match_id@ == teams::text_or_empty(text::opt_text(m.previous_match))
    &&& f.refs@ == teams::text_or_empty(schedule_time::or_text(text::opt_text(m.refs_initial), text::opt_text(m.refs)))
    &&& f.team1@ == teams::text_or_empty(schedule_time::or_text(text::opt_text(m.team1_initial), text::opt_text(m.team1)))
    &&& f.team2@ == teams::text_or_empty(schedule_time::or_text(text::opt_text(m.team2_initial), text::opt_text(m.team2)))
    &&& f.set_type@ == (match text::opt_text(m.set_type) {
        Some(t) => t,
        None => "SETS"@,
    })
    &&& f.nsets == (match m.nsets {
        Some(n) => n,
        None => 3,
    })
    &&& f.stones_per_set == (match m.stones_per_set {
        Some(n) => n,
        None => 100,
    })
    &&& f.ribbon == m.ribbon
    &&& f.skip_condition@ == teams::text_or_empty(text::opt_text(m.skip_condition))
    &&& f.break_fields@.len() == 0
}

fn first_there(a: &Option<String>, b: &Option<String>) -> (r: String)
    ensures
        r@ == teams::text_or_empty(schedule_time::or_text(text::opt_text(*a), text::opt_text(*b))),
{
    if a.is_some() {
        or_empty(as_deref(a)).to_owned()
    } else {
        or_empty(as_deref(b)).to_owned()
    }
}

fn text_or(a: &Option<String>, default: &str) -> (r: String)
    ensures
        r@ == (match text::opt_text(*a) {
            Some(t) => t,
            None => default@,
        }),
{
    match a {
        Some(t) => t.clone(),
        None => default.to_owned(),
    }
}

fn number_or(a: Option<u32>, default: u32) -> (r: u32)
    ensures
        r == (match a {
            Some(n) => n,
            None => default,
        }),
{
    match a {
        Some(n) => n,
        None => default,
    }
}

/// What an input shows for a start whose local time is known or not.
pub fn start_input(start: &str, local: Option<String>) -> (r: String)
    ensures
        r@ == input_or_start(start@, text::opt_text(local)),
{
    match local {
        Some(s) => s,
        None => {
            if start.unicode_len() <= 16 {
                start.to_owned()
            } else {
                let head = start.substring_char(0, 16);
                assert(head@ =~= start@.take(16));
                head.to_owned()
            }
        },
    }
}

/// The form of a match that is edited. A start that can be read turns back into the start of the
/// match, to the minute.
pub fn edit_match_form(m: &MatchSetupData, tz_offset_minutes: i16) -> (r: MatchForm)
    ensures
        is_form_of(r, *m, tz_offset_minutes as int),
        m.nominal_start_time matches Some(t) ==> (schedule_time::local_input_of_utc(t@, tz_offset_minutes as int) is Some
            ==> schedule_time::turns_back(t@, r.start_time@, tz_offset_minutes as int)),
{
    MatchForm {
        name: m.name.clone(),
        field: or_empty(as_deref(&m.field)).to_owned(),
        schedule_type: text_or(&m.schedule_type, "STATIC"),
        length: number_or(m.nominal_length, 60),
        start_time: match &m.nominal_start_time {
            Some(t) => start_input(
                t.as_str(),
                utc_iso_to_local_datetime_input(t.as_str(), tz_offset_minutes),
            ),
            None => blank(),
        },
        previous_match_id: or_empty(as_deref(&m.previous_match)).to_owned(),
        refs: first_there(&m.refs_initial, &m.refs),
        team1: first_there(&m.team1_initial, &m.team1),
        team2: first_there(&m.team2_initial, &m.team2),
        set_type: text_or(&m.set_type, "SETS"),
        nsets: number_or(m.nsets, 3),
        stones_per_set: number_or(m.stones_per_set, 100),
        ribbon: m.ribbon,
        skip_condition: or_empty(as_deref(&m.skip_condition)).to_owned(),
        break_fields: Vec::new(),
    }
}

// ---------------------------------------------------------------------------
// While the form is open
// ---------------------------------------------------------------------------

/// The placeholder that an open form shows with a local start.
pub open spec fn is_placeholder(g: Option<PendingCreateGhost>, f: MatchForm, start: Option<Moment>) -> bool {
    let fields = if grouped(f.schedule_type@) {
        text::texts(f.break_fields@)
    } else if f.field@.len() == 0 {
        Seq::empty()
    } else {
        seq![f.field@]
    };
    match start {
        Some(s) => if fields.len() == 0 {
            g is None
        } else {
            g matches Some(x) && text::texts(x.field_names@) == fields && x.start_local == s
                && x.length_min == (if f.length < 10 {
                10
            } else {
                f.length as int
            }) && x.is_join == (f.schedule_type@ == "JOIN"@)
        },
        None => g is None,
    }
}

pub(crate) fn copied(list: &Vec<String>) -> (r: Vec<String>)
    ensures
        text::texts(r@) == text::texts(list@),
{
    let mut out: Vec<String> = Vec::new();
    let mut i: usize = 0;
    while i < list.len()
        invariant
            i <= list@.len(),
            out@.len() == i,
            forall|k: int| 0 <= k < i ==> (#[trigger] out@[k])@ == list@[k]@,
        decreases list@.len() - i,
    {
        out.push(list[i].clone());
        i = i + 1;
    }
    assert(text::texts(out@) =~= text::texts(list@));
    out
}

/// The placeholder of an open form with a local start: on the fields it names, for its length.
pub fn placeholder_at(f: &MatchForm, start: Option<Moment>) -> (r: Option<PendingCreateGhost>)
    ensures
        is_placeholder(r, *f, start),
        r matches Some(g) ==> drag::small(g.length_min as int),
{
    let start = match start {
        Some(t) => t,
        None => {
            return None;
        },
    };
    let field_names = if is_grouped(f.schedule_type.as_str()) {
        copied(&f.break_fields)
    } else {
        let mut one: Vec<String> = Vec::new();
        if f.field.as_str().unicode_len() > 0 {
            one.push(f.field.clone());
            assert(text::texts(one@) =~= seq![f.field@]);
        } else {
            assert(text::texts(one@) =~= Seq::<Seq<char>>::empty());
        }
        one
    };
    assert(text::texts(field_names@).len() == field_names@.len());
    if field_names.len() == 0 {
        return None;
    }
    Some(
        PendingCreateGhost {
            field_names,
            start_local: start,
            length_min: if f.length < 10 {
                10
            } else {
                f.length as i64
            },
            is_join: str_eq(f.schedule_type.as_str(), "JOIN"),
        },
    )
}

/// The placeholder of an open form, at the start that it holds.
pub fn form_placeholder(f: &MatchForm) -> (r: Option<PendingCreateGhost>)
    ensures
        is_placeholder(r, *f, clock::naive_read(text::trimmed(f.start_time@), LOCAL_INPUT@)),
        r matches Some(g) ==> drag::small(g.length_min as int) && moment::ordinary(g.start_local),
{
    placeholder_at(f, read_naive(trim(f.start_time.as_str()), LOCAL_INPUT))
}

/// The refs with a token added at their end; commas and white space left over are dropped.
pub open spec fn refs_with(refs: Seq<char>, token: Seq<char>) -> Seq<char> {
    let cur = text::trimmed(text::without_trailing(text::trimmed(refs), ','));
    if cur.len() == 0 {
        token
    } else {
        cur + ", "@ + token
    }
}

/// The refs with a token added.
pub fn refs_with_token(refs: &str, token: &str) -> (r: String)
    ensures
        r@ == refs_with(refs@, token@),
{
    let cur = trim(trim_end_char(trim(refs), ','));
    if cur.unicode_len() == 0 {
        token.to_owned()
    } else {
        concat3(cur, ", ", token)
    }
}

/// The form after a picked result went into the input that was focused last.
pub open spec fn result_inserted(
    after: MatchForm,
    before: MatchForm,
    focused: Option<Seq<char>>,
    token: Seq<char>,
) -> bool {
    &&& after.team1@ == (if focused == Some("team1"@) {
        token
    } else {
        before.team1@
    })
    &&& after.team2@ == (if focused == Some("team2"@) && focused != Some("team1"@) {
        token
    } else {
        before.team2@
    })
    &&& after.refs@ == (if focused == Some("refs"@) && focused != Some("team1"@) && focused != Some("team2"@) {
        refs_with(before.refs@, token)
    } else {
        before.refs@
    })
    &&& after == (MatchForm { team1: after.team1, team2: after.team2, refs: after.refs, ..before })
}

/// A picked result goes into the input that was focused last: it replaces a team, and is added to
/// the refs.
pub fn insert_result(form: &mut MatchForm, focused: Option<&str>, token: &str)
    ensures
        result_inserted(*final(form), *old(form), text::opt_slice(focused), token@),
{
    if opt_str_eq(focused, "team1") {
        form.team1 = token.to_owned();
    } else if opt_str_eq(focused, "team2") {
        form.team2 = token.to_owned();
    } else if opt_str_eq(focused, "refs") {
        let refs = refs_with_token(form.refs.as_str(), token);
        form.refs = refs;
    }
}

/// The match that a start on a field comes after.
pub open spec fn previous_at(
    matches: Seq<MatchSetupData>,
    field: Seq<char>,
    start: Seq<char>,
    show_as_happened: bool,
    tz: int,
) -> Option<Seq<char>> {
    match clock::naive_read(text::trimmed(start), LOCAL_INPUT@) {
        Some(t) => match schedule_time::latest_before(matches, field, t, Seq::empty(), show_as_happened, tz) {
            Some(i) => Some(matches[i].uuid@),
            None => None,
        },
        None => None,
    }
}

/// The match that the start of the form comes after, on a field.
pub fn previous_from_start(
    matches: &[MatchSetupData],
    field: &str,
    start_time: &str,
    show_as_happened: bool,
    tz_offset_minutes: i16,
) -> (r: Option<String>)
    ensures
        text::opt_text(r) == previous_at(matches@, field@, start_time@, show_as_happened, tz_offset_minutes as int),
{
    proof {
        reveal_strlit("");
        assert(""@ =~= Seq::<char>::empty());
    }
    match read_naive(trim(start_time), LOCAL_INPUT) {
        Some(t) => match latest_match_before(
            matches,
            field,
            t,
            "",
            show_as_happened,
            tz_offset_minutes,
        ) {
            Some((id, _, _)) => Some(id),
            None => None,
        },
        None => None,
    }
}

/// The previous match on a new field, where `found` is the one before the start there.
pub open spec fn previous_on_new_field(
    schedule_type: Seq<char>,
    new_field: Seq<char>,
    found: Option<Seq<char>>,
) -> Seq<char> {
    if new_field.len() > 0 && (follows(schedule_type) || schedule_type == "JOIN"@) {
        teams::text_or_empty(found)
    } else {
        Seq::empty()
    }
}

/// The previous match of a new type, where `found` is the one before the start, `told` the one that the
/// drag told, and `current` the one that there was.
pub open spec fn previous_of_new_type(
    current: Seq<char>,
    new_type: Seq<char>,
    found: Option<Seq<char>>,
    told: Option<Seq<char>>,
) -> Seq<char> {
    if follows(new_type) || new_type == "JOIN"@ {
        teams::text_or_empty(schedule_time::or_text(found, told))
    } else {
        current
    }
}

/// A match that follows another follows the one that comes before it on its field, else the one that
/// the drag told; what has a start of its own gets no other previous match.
pub proof fn law_previous_match_follows_the_form(
    t: Seq<char>,
    field: Seq<char>,
    current: Seq<char>,
    found: Seq<char>,
    told: Option<Seq<char>>,
)
    ensures
        t == "SAFE"@ || t == "FAST"@ || t == "JOIN"@ ==> previous_of_new_type(current, t, Some(found), told) == found
            && (told matches Some(x) ==> previous_of_new_type(current, t, None, told) == x) && (field.len() > 0
            ==> previous_on_new_field(t, field, Some(found)) == found),
        t == "STATIC"@ || t == "STATBREAK"@ || t == "BREAK"@ ==> previous_of_new_type(current, t, Some(found), told)
            == current && previous_on_new_field(t, field, Some(found)).len() == 0,
        field.len() == 0 ==> previous_on_new_field(t, field, Some(found)).len() == 0,
        previous_on_new_field(t, field, None).len() == 0,
{
    lemma_types_differ();
}

/// The previous match after the field of a new match changed: the one before its start on the new
/// field, for a type that follows another; none otherwise.
pub fn previous_after_field_change(
    schedule_type: &str,
    new_field: &str,
    start_time: &str,
    matches: &[MatchSetupData],
    show_as_happened: bool,
    tz_offset_minutes: i16,
) -> (r: String)
    ensures
        r@ == previous_on_new_field(
            schedule_type@,
            new_field@,
            previous_at(matches@, new_field@, start_time@, show_as_happened, tz_offset_minutes as int),
        ),
{
    if new_field.unicode_len() > 0 && (is_following(schedule_type) || str_eq(schedule_type, "JOIN")) {
        match previous_from_start(matches, new_field, start_time, show_as_happened, tz_offset_minutes) {
            Some(id) => id,
            None => blank(),
        }
    } else {
        blank()
    }
}

/// The previous match after the type of a new match changed: for a type that follows another, the
/// one before its start, else the one that the drag told; otherwise it stays.
pub fn previous_after_type_change(
    current: &str,
    new_type: &str,
    field: &str,
    start_time: &str,
    prefill_prev_match_id: Option<&str>,
    matches: &[MatchSetupData],
    show_as_happened: bool,
    tz_offset_minutes: i16,
) -> (r: String)
    ensures
        r@ == previous_of_new_type(
            current@,
            new_type@,
            previous_at(matches@, field@, start_time@, show_as_happened, tz_offset_minutes as int),
            text::opt_slice(prefill_prev_match_id),
        ),
{
    if is_following(new_type) || str_eq(new_type, "JOIN") {
        match previous_from_start(matches, field, start_time, show_as_happened, tz_offset_minutes) {
            Some(id) => id,
            None => or_empty(prefill_prev_match_id).to_owned(),
        }
    } else {
        current.to_owned()
    }
}

/// The previous match after the field of an edited match changed: none, so that one on the new field
/// is picked.
pub fn previous_after_edit_field_change() -> (r: String)
    ensures
        r@.len() == 0,
{
    blank()
}

/// The previous match after the type of an edited match changed: a static match has none.
pub fn previous_after_edit_type_change(current: &str, new_type: &str) -> (r: String)
    ensures
        r@ == (if new_type@ == "STATIC"@ {
            Seq::empty()
        } else {
            current@
        }),
{
    if str_eq(new_type, "STATIC") {
        blank()
    } else {
        current.to_owned()
    }
}

/// Which inputs a form shows.
#[derive(Clone, Copy, Debug, PartialEq, Eq, Structural)]
pub struct FormParts {
    pub field: bool,
    pub length: bool,
    pub start: bool,
    pub previous: bool,
    /// The fields of a group.
    pub group_fields: bool,
    /// Teams, refs and format of a game.
    pub game: bool,
    pub skip_condition: bool,
}

/// The inputs that a form shows for a type. A new group has its fields in place of one field; an edited
/// break or join has a previous match.
pub open spec fn parts_of(t: Seq<char>, creating: bool) -> FormParts {
    FormParts {
        field: !creating || !grouped(t),
        length: t != "JOIN"@,
        start: t == "STATIC"@ || (creating && t == "STATBREAK"@),
        previous: follows(t) || (!creating && (t == "BREAK"@ || t == "JOIN"@)),
        group_fields: creating && grouped(t),
        game: t == "STATIC"@ || follows(t),
        skip_condition: follows(t),
    }
}

/// Which inputs a form shows for a type, while a match is created or edited.
pub fn form_parts(schedule_type: &str, creating: bool) -> (r: FormParts)
    ensures
        r == parts_of(schedule_type@, creating),
{
    let following = is_following(schedule_type);
    let in_group = is_grouped(schedule_type);
    let is_static = str_eq(schedule_type, "STATIC");
    let is_join = str_eq(schedule_type, "JOIN");
    FormParts {
        field: !creating || !in_group,
        length: !is_join,
        start: is_static || (creating && str_eq(schedule_type, "STATBREAK")),
        previous: following || (!creating && (is_join || str_eq(schedule_type, "BREAK"))),
        group_fields: creating && in_group,
        game: is_static || following,
        skip_condition: following,
    }
}

/// A type that a form offers.
#[derive(Clone, Copy, Debug)]
pub struct TypeChoice {
    pub value: &'static str,
    pub label: &'static str,
    pub disabled: bool,
}

/// The types that a form offers, with their labels: only a new match can be a static break.
pub open spec fn offered_types(creating: bool) -> Seq<(Seq<char>, Seq<char>)> {
    let games = seq![("STATIC"@, "Static"@), ("SAFE"@, "Safe"@), ("FAST"@, "Fast"@), ("BREAK"@, "Break"@)];
    if creating {
        games + seq![("STATBREAK"@, "Static Break"@), ("JOIN"@, "Join"@)]
    } else {
        games + seq![("JOIN"@, "Join"@)]
    }
}

/// A choice is for one of the types that a form offers; while a match is edited, one that it cannot
/// become is disabled.
pub open spec fn is_choice(c: TypeChoice, offered: (Seq<char>, Seq<char>), from: Seq<char>, creating: bool) -> bool {
    c.value@ == offered.0 && c.label@ == offered.1 && c.disabled == (!creating && !may_become(from, offered.0))
}

fn type_choice(value: &'static str, label: &'static str, original: &str, creating: bool) -> (r: TypeChoice)
    ensures
        is_choice(r, (value@, label@), original@, creating),
{
    TypeChoice { value, label, disabled: !creating && !type_allowed(original, value) }
}

/// The types that a form offers, for a new match or for one of a type.
pub fn type_choices(original: &str, creating: bool) -> (r: Vec<TypeChoice>)
    ensures
        r@.len() == offered_types(creating).len(),
        forall|k: int|
            0 <= k < r@.len() ==> is_choice(#[trigger] r@[k], offered_types(creating)[k], original@, creating),
{
    let mut choices: Vec<TypeChoice> = Vec::new();
    choices.push(type_choice("STATIC", "Static", original, creating));
    choices.push(type_choice("SAFE", "Safe", original, creating));
    choices.push(type_choice("FAST", "Fast", original, creating));
    choices.push(type_choice("BREAK", "Break", original, creating));
    if creating {
        choices.push(type_choice("STATBREAK", "Static Break", original, creating));
    }
    choices.push(type_choice("JOIN", "Join", original, creating));
    choices
}

// ---------------------------------------------------------------------------
// Acceptance
// ---------------------------------------------------------------------------

/// The previous match is known and stands on another field.
pub open spec fn previous_elsewhere(matches: Seq<MatchSetupData>, previous: Seq<char>, field: Seq<char>) -> bool {
    deps::match_at(matches, previous) matches Some(i) && text::opt_text(matches[i].field) != Some(field)
}

fn is_previous_elsewhere(matches: &[MatchSetupData], previous: &str, field: &str) -> (r: bool)
    ensures
        r == previous_elsewhere(matches@, previous@, field@),
{
    match find_match(matches, previous) {
        Some(i) => !opt_str_eq(as_deref(&matches[i].field), field),
        None => false,
    }
}

/// What is wrong with the form of a new match.
pub open spec fn create_error(f: MatchForm, matches: Seq<MatchSetupData>) -> Option<Seq<char>> {
    if grouped(f.schedule_type@) {
        if f.break_fields@.len() == 0 {
            Some("Select at least one field."@)
        } else if f.schedule_type@ == "STATBREAK"@ && text::trimmed(f.start_time@).len() == 0 {
            Some("Start time is required for a static break."@)
        } else {
            None
        }
    } else if follows(f.schedule_type@) {
        if text::trimmed(f.previous_match_id@).len() == 0 {
            Some("Previous match is required for Fast and Safe matches."@)
        } else if f.field@.len() == 0 {
            Some("Field is required when using a previous match."@)
        } else if previous_elsewhere(matches, text::trimmed(f.previous_match_id@), f.field@) {
            Some("Previous match must be on the same field."@)
        } else {
            None
        }
    } else {
        None
    }
}

/// Whether the form of a new match can be sent; what is wrong with it where it cannot.
pub fn validate_create(f: &MatchForm, matches: &[MatchSetupData]) -> (r: Result<(), &'static str>)
    ensures
        match create_error(*f, matches@) {
            Some(e) => r matches Err(x) && x@ == e,
            None => r is Ok,
        },
{
    let t = f.schedule_type.as_str();
    if is_grouped(t) {
        if f.break_fields.len() == 0 {
            return Err("Select at least one field.");
        }
        if str_eq(t, "STATBREAK") && trim(f.start_time.as_str()).unicode_len() == 0 {
            return Err("Start time is required for a static break.");
        }
        return Ok(());
    }
    if is_following(t) {
        let prev = trim(f.previous_match_id.as_str());
        if prev.unicode_len() == 0 {
            return Err("Previous match is required for Fast and Safe matches.");
        }
        if f.field.as_str().unicode_len() == 0 {
            return Err("Field is required when using a previous match.");
        }
        if is_previous_elsewhere(matches, prev, f.field.as_str()) {
            return Err("Previous match must be on the same field.");
        }
    }
    Ok(())
}

/// A type whose edited match needs a previous one.
pub open spec fn needs_previous(t: Seq<char>) -> bool {
    t == "BREAK"@ || t == "JOIN"@ || follows(t)
}

/// What is wrong with the form of an edited match.
pub open spec fn edit_error(f: MatchForm, matches: Seq<MatchSetupData>) -> Option<Seq<char>> {
    if needs_previous(f.schedule_type@) {
        if text::trimmed(f.previous_match_id@).len() == 0 {
            Some("Previous match is required for Break, Join, Fast, and Safe matches."@)
        } else if previous_elsewhere(matches, text::trimmed(f.previous_match_id@), f.field@) {
            Some("Previous match must be on the same field."@)
        } else {
            None
        }
    } else {
        None
    }
}

/// Whether the form of an edited match can be sent; what is wrong with it where it cannot.
pub fn validate_edit(f: &MatchForm, matches: &[MatchSetupData]) -> (r: Result<(), &'static str>)
    ensures
        match edit_error(*f, matches@) {
            Some(e) => r matches Err(x) && x@ == e,
            None => r is Ok,
        },
{
    let t = f.schedule_type.as_str();
    if str_eq(t, "BREAK") || str_eq(t, "JOIN") || is_following(t) {
        let prev = trim(f.previous_match_id.as_str());
        if prev.unicode_len() == 0 {
            return Err("Previous match is required for Break, Join, Fast, and Safe matches.");
        }
        if is_previous_elsewhere(matches, prev, f.field.as_str()) {
            return Err("Previous match must be on the same field.");
        }
    }
    Ok(())
}

/// Every input that a form can be refused for is one that the form shows.
pub proof fn law_required_inputs_are_shown(f: MatchForm, matches: Seq<MatchSetupData>)
    ensures
        create_error(f, matches) is Some ==> ({
            let shown = parts_of(f.schedule_type@, true);
            if grouped(f.schedule_type@) {
                shown.group_fields && (f.schedule_type@ == "STATBREAK"@ ==> shown.start)
            } else {
                shown.previous && shown.field
            }
        }),
        edit_error(f, matches) is Some ==> ({
            let shown = parts_of(f.schedule_type@, false);
            shown.previous && shown.field
        }),
{
}

/// A match that is accepted to follow another stands on its field, where that one is known.
pub proof fn law_accepted_follower_is_on_the_field(f: MatchForm, matches: Seq<MatchSetupData>)
    requires
        follows(f.schedule_type@),
        !grouped(f.schedule_type@),
        create_error(f, matches) is None,
    ensures
        f.field@.len() > 0,
        deps::match_at(matches, text::trimmed(f.previous_match_id@)) matches Some(i) ==> text::opt_text(matches[i].field)
            == Some(f.field@),
        edit_error(f, matches) is None,
{
}

/// A skip condition has to be looked at: only matches that follow others have one.
pub fn skip_condition_to_check(f: &MatchForm) -> (r: bool)
    ensures
        r == (follows(f.schedule_type@) && text::trimmed(f.skip_condition@).len() > 0),
{
    is_following(f.schedule_type.as_str()) && trim(f.skip_condition.as_str()).unicode_len() > 0
}

/// What is known to be wrong with a skip condition before it is sent to be looked at.
pub fn known_skip_error(validity: &Option<Result<(), String>>) -> (r: Option<String>)
    ensures
        text::opt_text(r) == (match validity {
            Some(Err(msg)) => Some("Skip condition: "@ + msg@),
            _ => None,
        }),
{
    match validity {
        Some(Err(msg)) => Some(concat("Skip condition: ", msg.as_str())),
        _ => None,
    }
}

/// The types of a result, for a message.
pub open spec fn result_types(types: Seq<Seq<char>>) -> Seq<char> {
    if types.len() == 0 {
        "unknown"@
    } else {
        text::joined(types, " | "@)
    }
}

/// What an answer finds wrong with a skip condition: it is no expression, or none that can be true
/// or false.
pub open spec fn answer_error(res: ValidateDslResponse) -> Option<Seq<char>> {
    if !res.valid {
        Some("Skip condition: "@ + (match text::opt_text(res.error) {
            Some(e) => e,
            None => "invalid"@,
        }))
    } else if !text::texts(res.result_type@).contains("BOOL"@) {
        Some("Skip condition must evaluate to BOOL, got "@ + result_types(text::texts(res.result_type@)) + "."@)
    } else {
        None
    }
}

/// What is wrong with a skip condition after it was looked at. Where no answer came, a form that is
/// `strict` takes the failure for an error.
pub fn skip_condition_error(answer: &Result<ValidateDslResponse, String>, strict: bool) -> (r: Option<
    String,
>)
    ensures
        text::opt_text(r) == (match answer {
            Ok(res) => answer_error(*res),
            Err(e) => if strict {
                Some("Skip condition: "@ + e@)
            } else {
                None
            },
        }),
{
    match answer {
        Ok(res) => {
            if !res.valid {
                return Some(
                    concat(
                        "Skip condition: ",
                        match &res.error {
                            Some(e) => e.as_str(),
                            None => "invalid",
                        },
                    ),
                );
            }
            if !list_contains(res.result_type.as_slice(), "BOOL") {
                let got = if res.result_type.len() == 0 {
                    "unknown".to_owned()
                } else {
                    join(res.result_type.as_slice(), " | ")
                };
                return Some(
                    concat3("Skip condition must evaluate to BOOL, got ", got.as_str(), "."),
                );
            }
            None
        },
        Err(e) => if strict {
            Some(concat("Skip condition: ", e.as_str()))
        } else {
            None
        },
    }
}

// ---------------------------------------------------------------------------
// Requests
// ---------------------------------------------------------------------------

/// A new group of same-named structural items.
#[derive(Clone, Debug)]
pub struct CreateBreakGroupRequest {
    pub name: String,
    pub schedule_type: String,
    pub length: u32,
    pub fields: Vec<String>,
    pub start_time: Option<String>,
}

/// The non-blank pieces of a comma-separated list, without outer white space.
pub open spec fn listed(pieces: Seq<Seq<char>>) -> Seq<Seq<char>>
    decreases pieces.len(),
{
    if pieces.len() == 0 {
        Seq::empty()
    } else {
        let before = listed(pieces.drop_last());
        let last = text::trimmed(pieces.last());
        if last.len() > 0 {
            before.push(last)
        } else {
            before
        }
    }
}

/// The refs that a form sends.
pub open spec fn sent_refs(refs: Seq<char>) -> Seq<Seq<char>> {
    listed(text::split_at_each(refs, ','))
}

/// The refs that a form sends: its comma-separated list without blanks.
pub fn refs_to_send(refs: &str) -> (r: Vec<String>)
    ensures
        text::texts(r@) == sent_refs(refs@),
{
    let pieces = split(refs, ',');
    let ghost all = text::slices(pieces@);
    let mut out: Vec<String> = Vec::new();
    let mut i: usize = 0;
    assert(all.take(0) =~= Seq::<Seq<char>>::empty());
    assert(text::texts(out@) =~= Seq::<Seq<char>>::empty());
    while i < pieces.len()
        invariant
            i <= pieces@.len(),
            all == text::slices(pieces@),
            text::texts(out@) == listed(all.take(i as int)),
        decreases pieces@.len() - i,
    {
        assert(all.take(i + 1).drop_last() =~= all.take(i as int));
        assert(all.take(i + 1).last() == pieces@[i as int]@);
        let t = trim(pieces[i]);
        let ghost was = out@;
        if t.unicode_len() > 0 {
            out.push(t.to_owned());
            assert(text::texts(out@) =~= text::texts(was).push(t@));
        }
        i = i + 1;
    }
    assert(all.take(i as int) =~= all);
    out
}

/// No ref that is sent is blank.
pub proof fn law_sent_refs_are_not_blank(pieces: Seq<Seq<char>>)
    ensures
        forall|k: int|
            0 <= k < listed(pieces).len() ==> (#[trigger] listed(pieces)[k]).len() > 0 && text::trimmed(
                listed(pieces)[k],
            ) == listed(pieces)[k],
    decreases pieces.len(),
{
    if pieces.len() > 0 {
        law_sent_refs_are_not_blank(pieces.drop_last());
        text::law_trimmed_has_no_outer_space(pieces.last());
        let before = listed(pieces.drop_last());
        let r = listed(pieces);
        assert forall|k: int| 0 <= k < r.len() implies (#[trigger] r[k]).len() > 0 && text::trimmed(r[k])
            == r[k] by {
            if k < before.len() {
                assert(r[k] == before[k]);
            }
        }
    }
}

/// The start that a form sends: in UTC, or as it is written where that cannot be had.
pub open spec fn sent_start(start: Seq<char>, tz: int) -> Seq<char> {
    match schedule_time::utc_iso_of_local(start, tz) {
        Some(s) => s,
        None => start,
    }
}

/// A text that is sent only if there is one.
pub open spec fn if_any(s: Seq<char>) -> Option<Seq<char>> {
    if s.len() == 0 {
        None
    } else {
        Some(s)
    }
}

/// The length that a form sends: a join has none.
pub open spec fn sent_length(f: MatchForm) -> u32 {
    if f.schedule_type@ == "JOIN"@ {
        0
    } else {
        f.length
    }
}

pub(crate) fn start_to_send(start_time: &str, tz_offset_minutes: i16) -> (r: String)
    ensures
        r@ == sent_start(start_time@, tz_offset_minutes as int),
{
    match local_datetime_to_utc_iso(start_time, tz_offset_minutes) {
        Some(s) => s,
        None => start_time.to_owned(),
    }
}

pub(crate) fn opt_if_any(s: &str) -> (r: Option<String>)
    ensures
        text::opt_text(r) == if_any(s@),
{
    if s.unicode_len() == 0 {
        None
    } else {
        Some(s.to_owned())
    }
}

fn opt_start(f: &MatchForm, tz_offset_minutes: i16) -> (r: Option<String>)
    ensures
        text::opt_text(r) == (if f.start_time@.len() == 0 {
            None
        } else {
            Some(sent_start(f.start_time@, tz_offset_minutes as int))
        }),
{
    if f.start_time.as_str().unicode_len() == 0 {
        None
    } else {
        Some(start_to_send(f.start_time.as_str(), tz_offset_minutes))
    }
}

fn length_to_send(f: &MatchForm) -> (r: u32)
    ensures
        r == sent_length(*f),
{
    if str_eq(f.schedule_type.as_str(), "JOIN") {
        0
    } else {
        f.length
    }
}

/// The request for a new match says what its form holds.
pub open spec fn creates(q: CreateMatchRequest, f: MatchForm, tz: int) -> bool {
    &&& q.name@ == f.name@
    &&& text::opt_text(q.field) == if_any(f.field@)
    &&& text::opt_text(q.schedule_type) == Some(f.schedule_type@)
    &&& q.length == Some(sent_length(f))
    &&& text::opt_text(q.start_time) == (if f.start_time@.len() == 0 {
        None
    } else {
        Some(sent_start(f.start_time@, tz))
    })
    &&& text::opt_text(q.previous_match_id) == if_any(f.previous_match_id@)
    &&& q.refs is Some
    &&& text::texts(q.refs->0@) == sent_refs(f.refs@)
    &&& text::opt_text(q.team1) == if_any(f.team1@)
    &&& text::opt_text(q.team2) == if_any(f.team2@)
    &&& text::opt_text(q.set_type) == Some(f.set_type@)
    &&& q.nsets == Some(f.nsets)
    &&& q.stones_per_set == Some(f.stones_per_set)
    &&& q.ribbon == Some(f.ribbon)
    &&& text::opt_text(q.skip_condition) == Some(f.skip_condition@)
}

/// The request for a new match.
pub fn create_match_request(f: &MatchForm, tz_offset_minutes: i16) -> (r: CreateMatchRequest)
    ensures
        creates(r, *f, tz_offset_minutes as int),
{
    CreateMatchRequest {
        name: f.name.clone(),
        field: opt_if_any(f.field.as_str()),
        length: Some(length_to_send(f)),
        schedule_type: Some(f.schedule_type.clone()),
        start_time: opt_start(f, tz_offset_minutes),
        previous_match_id: opt_if_any(f.previous_match_id.as_str()),
        team1: opt_if_any(f.team1.as_str()),
        team2: opt_if_any(f.team2.as_str()),
        refs: Some(refs_to_send(f.refs.as_str())),
        set_type: Some(f.set_type.clone()),
        nsets: Some(f.nsets),
        stones_per_set: Some(f.stones_per_set),
        ribbon: Some(f.ribbon),
        skip_condition: Some(f.skip_condition.clone()),
    }
}

/// The request for a changed match says what its form holds; a static match has no previous one.
pub open spec fn updates(q: UpdateMatchRequest, f: MatchForm, tz: int) -> bool {
    &&& text::opt_text(q.field) == Some(f.field@)
    &&& text::opt_text(q.schedule_type) == Some(f.schedule_type@)
    &&& q.length == Some(sent_length(f))
    &&& text::opt_text(q.start_time) == (if f.start_time@.len() == 0 {
        None
    } else {
        Some(sent_start(f.start_time@, tz))
    })
    &&& text::opt_text(q.previous_match_id) == (if f.schedule_type@ == "STATIC"@ {
        None
    } else {
        Some(f.previous_match_id@)
    })
    &&& q.refs is Some
    &&& text::texts(q.refs->0@) == sent_refs(f.refs@)
    &&& text::opt_text(q.team1) == Some(f.team1@)
    &&& text::opt_text(q.team2) == Some(f.team2@)
    &&& text::opt_text(q.set_type) == Some(f.set_type@)
    &&& q.nsets == Some(f.nsets)
    &&& q.stones_per_set == Some(f.stones_per_set)
    &&& q.ribbon == Some(f.ribbon)
    &&& text::opt_text(q.skip_condition) == Some(f.skip_condition@)
}

/// The request for a changed match.
pub fn update_match_request(f: &MatchForm, tz_offset_minutes: i16) -> (r: UpdateMatchRequest)
    ensures
        updates(r, *f, tz_offset_minutes as int),
{
    UpdateMatchRequest {
        field: Some(f.field.clone()),
        schedule_type: Some(f.schedule_type.clone()),
        length: Some(length_to_send(f)),
        start_time: opt_start(f, tz_offset_minutes),
        previous_match_id: if str_eq(f.schedule_type.as_str(), "STATIC") {
            None
        } else {
            Some(f.previous_match_id.clone())
        },
        refs: Some(refs_to_send(f.refs.as_str())),
        team1: Some(f.team1.clone()),
        team2: Some(f.team2.clone()),
        set_type: Some(f.set_type.clone()),
        nsets: Some(f.nsets),
        stones_per_set: Some(f.stones_per_set),
        ribbon: Some(f.ribbon),
        skip_condition: Some(f.skip_condition.clone()),
    }
}

/// The request for a new group says what its form holds: a join has no length, and only a static
/// break has a start.
pub open spec fn creates_group(q: CreateBreakGroupRequest, f: MatchForm, tz: int) -> bool {
    &&& q.name@ == f.name@
    &&& q.schedule_type@ == f.schedule_type@
    &&& q.length == sent_length(f)
    &&& text::texts(q.fields@) == text::texts(f.break_fields@)
    &&& text::opt_text(q.start_time) == (if f.schedule_type@ == "STATBREAK"@ {
        Some(sent_start(f.start_time@, tz))
    } else {
        None
    })
}

/// The request for a new group.
pub fn create_group_request(f: &MatchForm, tz_offset_minutes: i16) -> (r: CreateBreakGroupRequest)
    ensures
        creates_group(r, *f, tz_offset_minutes as int),
{
    CreateBreakGroupRequest {
        name: f.name.clone(),
        schedule_type: f.schedule_type.clone(),
        length: length_to_send(f),
        fields: copied(&f.break_fields),
        start_time: if str_eq(f.schedule_type.as_str(), "STATBREAK") {
            Some(start_to_send(f.start_time.as_str(), tz_offset_minutes))
        } else {
            None
        },
    }
}

/// A match that is opened for editing and saved as it is asks for the field, sides, refs, type, length,
/// previous match, skip condition and format that it was set up with.
pub proof fn law_saving_unchanged_keeps_the_setup(q: UpdateMatchRequest, f: MatchForm, m: MatchSetupData, tz: int)
    requires
        is_form_of(f, m, tz),
        updates(q, f, tz),
    ensures
        text::opt_text(q.field) == Some(teams::text_or_empty(text::opt_text(m.field))),
        m.team1_initial is Some ==> text::opt_text(q.team1) == text::opt_text(m.team1_initial),
        m.team2_initial is Some ==> text::opt_text(q.team2) == text::opt_text(m.team2_initial),
        m.refs_initial is Some ==> text::texts(q.refs->0@) == sent_refs(m.refs_initial->0@),
        m.nsets is Some ==> q.nsets == m.nsets,
        m.stones_per_set is Some ==> q.stones_per_set == m.stones_per_set,
        q.ribbon == Some(m.ribbon),
        m.schedule_type is Some ==> text::opt_text(q.schedule_type) == text::opt_text(m.schedule_type),
        m.nominal_length is Some && f.schedule_type@ != "JOIN"@ ==> q.length == m.nominal_length,
        m.previous_match is Some && f.schedule_type@ != "STATIC"@ ==> text::opt_text(q.previous_match_id) == text::opt_text(
            m.previous_match,
        ),
        m.skip_condition is Some ==> text::opt_text(q.skip_condition) == text::opt_text(m.skip_condition),
        m.set_type is Some ==> text::opt_text(q.set_type) == text::opt_text(m.set_type),
{
}

// ---------------------------------------------------------------------------
// Saving
// ---------------------------------------------------------------------------

/// What saving a form leads to.
#[derive(Clone, Debug)]
pub enum SaveStep {
    /// The form is refused, with what is wrong with it.
    Refused(String),
    /// The service has to look at this skip condition first.
    LookAt(String),
    CreateGroup(CreateBreakGroupRequest),
    CreateMatch(CreateMatchRequest),
    UpdateMatch(UpdateMatchRequest),
}

/// What the skip condition of a form needs before the form is sent: whether the service has to look
/// at it, and what is wrong with it. `known` is what the form found while it was written, `answer`
/// what the service said.
pub open spec fn skip_check(
    f: MatchForm,
    known: Option<Result<(), String>>,
    answer: Option<Result<ValidateDslResponse, String>>,
    strict: bool,
) -> (bool, Option<Seq<char>>) {
    if !follows(f.schedule_type@) || text::trimmed(f.skip_condition@).len() == 0 {
        (false, None)
    } else {
        match known {
            Some(Err(msg)) => (false, Some("Skip condition: "@ + msg@)),
            _ => match answer {
                None => (true, None),
                Some(Ok(res)) => (false, answer_error(res)),
                Some(Err(e)) => (false, if strict {
                    Some("Skip condition: "@ + e@)
                } else {
                    None
                }),
            },
        }
    }
}

fn check_skip(
    f: &MatchForm,
    known: &Option<Result<(), String>>,
    answer: &Option<Result<ValidateDslResponse, String>>,
    strict: bool,
) -> (r: (bool, Option<String>))
    ensures
        (r.0, text::opt_text(r.1)) == skip_check(*f, *known, *answer, strict),
{
    if !skip_condition_to_check(f) {
        return (false, None);
    }
    let wrong = known_skip_error(known);
    if wrong.is_some() {
        return (false, wrong);
    }
    match answer {
        None => (true, None),
        Some(a) => (false, skip_condition_error(a, strict)),
    }
}

/// What saving the form of a new match leads to, after the check of its skip condition.
pub open spec fn is_create_step(
    r: SaveStep,
    f: MatchForm,
    matches: Seq<MatchSetupData>,
    check: (bool, Option<Seq<char>>),
    tz: int,
) -> bool {
    match create_error(f, matches) {
        Some(e) => r matches SaveStep::Refused(m) && m@ == e,
        None => if grouped(f.schedule_type@) {
            r matches SaveStep::CreateGroup(q) && creates_group(q, f, tz)
        } else if check.1 is Some {
            r matches SaveStep::Refused(m) && m@ == check.1->0
        } else if check.0 {
            r matches SaveStep::LookAt(s) && s@ == f.skip_condition@
        } else {
            r matches SaveStep::CreateMatch(q) && creates(q, f, tz)
        },
    }
}

/// What saving the form of an edited match leads to, after the check of its skip condition.
pub open spec fn is_edit_step(
    r: SaveStep,
    f: MatchForm,
    matches: Seq<MatchSetupData>,
    check: (bool, Option<Seq<char>>),
    tz: int,
) -> bool {
    match edit_error(f, matches) {
        Some(e) => r matches SaveStep::Refused(m) && m@ == e,
        None => if check.1 is Some {
            r matches SaveStep::Refused(m) && m@ == check.1->0
        } else if check.0 {
            r matches SaveStep::LookAt(s) && s@ == f.skip_condition@
        } else {
            r matches SaveStep::UpdateMatch(q) && updates(q, f, tz)
        },
    }
}

/// What saving the form of a new match leads to: a form with something wrong is refused; a group is
/// made at once; any other waits until its skip condition, if it has one, has been looked at.
pub fn create_step(
    f: &MatchForm,
    matches: &[MatchSetupData],
    known: &Option<Result<(), String>>,
    answer: &Option<Result<ValidateDslResponse, String>>,
    strict: bool,
    tz_offset_minutes: i16,
) -> (r: SaveStep)
    ensures
        is_create_step(r, *f, matches@, skip_check(*f, *known, *answer, strict), tz_offset_minutes as int),
{
    match validate_create(f, matches) {
        Err(e) => {
            return SaveStep::Refused(e.to_owned());
        },
        Ok(_) => {},
    }
    if is_grouped(f.schedule_type.as_str()) {
        return SaveStep::CreateGroup(create_group_request(f, tz_offset_minutes));
    }
    let (look, wrong) = check_skip(f, known, answer, strict);
    match wrong {
        Some(m) => SaveStep::Refused(m),
        None => if look {
            SaveStep::LookAt(f.skip_condition.clone())
        } else {
            SaveStep::CreateMatch(create_match_request(f, tz_offset_minutes))
        },
    }
}

/// What saving the form of an edited match leads to; where no answer comes about its skip condition,
/// it is refused.
pub fn edit_step(
    f: &MatchForm,
    matches: &[MatchSetupData],
    known: &Option<Result<(), String>>,
    answer: &Option<Result<ValidateDslResponse, String>>,
    tz_offset_minutes: i16,
) -> (r: SaveStep)
    ensures
        is_edit_step(r, *f, matches@, skip_check(*f, *known, *answer, true), tz_offset_minutes as int),
{
    match validate_edit(f, matches) {
        Err(e) => {
            return SaveStep::Refused(e.to_owned());
        },
        Ok(_) => {},
    }
    let (look, wrong) = check_skip(f, known, answer, true);
    match wrong {
        Some(m) => SaveStep::Refused(m),
        None => if look {
            SaveStep::LookAt(f.skip_condition.clone())
        } else {
            SaveStep::UpdateMatch(update_match_request(f, tz_offset_minutes))
        },
    }
}

/// A skip condition that can be neither true nor false never gets through: once the service has
/// answered, the form is sent only where the answer says that it can.
pub proof fn law_sent_skip_condition_is_a_condition(
    f: MatchForm,
    known: Option<Result<(), String>>,
    res: ValidateDslResponse,
    strict: bool,
)
    requires
        follows(f.schedule_type@),
        text::trimmed(f.skip_condition@).len() > 0,
        skip_check(f, known, Some(Ok(res)), strict).1 is None,
    ensures
        res.valid,
        text::texts(res.result_type@).contains("BOOL"@),
        skip_check(f, known, None, strict) == (true, None::<Seq<char>>),
{
}

// ---------------------------------------------------------------------------
// What forms are for
// ---------------------------------------------------------------------------

/// A request for a new match has each of its values from the input for it: what the input holds, or
/// nothing where a field, a side or a previous match is left blank.
pub proof fn law_new_match_is_asked_for_as_entered(q: CreateMatchRequest, f: MatchForm, tz: int)
    requires
        creates(q, f, tz),
    ensures
        q.name@ == f.name@,
        q.field matches Some(x) ==> x@ == f.field@,
        q.field is None <==> f.field@.len() == 0,
        q.team1 matches Some(x) ==> x@ == f.team1@,
        q.team1 is None <==> f.team1@.len() == 0,
        q.team2 matches Some(x) ==> x@ == f.team2@,
        q.team2 is None <==> f.team2@.len() == 0,
        q.previous_match_id matches Some(x) ==> x@ == f.previous_match_id@,
        q.previous_match_id is None <==> f.previous_match_id@.len() == 0,
        q.start_time is None <==> f.start_time@.len() == 0,
        q.start_time matches Some(x) ==> (schedule_time::utc_iso_of_local(f.start_time@, tz) matches Some(s) ==> x@ == s),
        q.schedule_type matches Some(x) && x@ == f.schedule_type@,
        q.set_type matches Some(x) && x@ == f.set_type@,
        q.skip_condition matches Some(x) && x@ == f.skip_condition@,
        q.nsets == Some(f.nsets),
        q.stones_per_set == Some(f.stones_per_set),
        q.ribbon == Some(f.ribbon),
        f.schedule_type@ != "JOIN"@ ==> q.length == Some(f.length),
        f.schedule_type@ == "JOIN"@ ==> q.length == Some(0u32),
{
}

/// A match that was made from a form, and is opened with what the request said of it, has the form
/// that it was made from.
pub proof fn law_new_match_opens_as_entered(
    q: CreateMatchRequest,
    f: MatchForm,
    m: MatchSetupData,
    opened: MatchForm,
    tz: int,
)
    requires
        creates(q, f, tz),
        is_form_of(opened, m, tz),
        m.name@ == q.name@,
        text::opt_text(m.field) == text::opt_text(q.field),
        text::opt_text(m.schedule_type) == text::opt_text(q.schedule_type),
        m.nominal_length == q.length,
        text::opt_text(m.previous_match) == text::opt_text(q.previous_match_id),
        text::opt_text(m.team1_initial) == text::opt_text(q.team1),
        text::opt_text(m.team2_initial) == text::opt_text(q.team2),
        m.team1 is None,
        m.team2 is None,
        text::opt_text(m.set_type) == text::opt_text(q.set_type),
        m.nsets == q.nsets,
        m.stones_per_set == q.stones_per_set,
        q.ribbon == Some(m.ribbon),
        text::opt_text(m.skip_condition) == text::opt_text(q.skip_condition),
    ensures
        opened.name@ == f.name@,
        opened.field@ == f.field@,
        opened.schedule_type@ == f.schedule_type@,
        f.schedule_type@ != "JOIN"@ ==> opened.length == f.length,
        opened.previous_match_id@ == f.previous_match_id@,
        opened.team1@ == f.team1@,
        opened.team2@ == f.team2@,
        opened.set_type@ == f.set_type@,
        opened.nsets == f.nsets,
        opened.stones_per_set == f.stones_per_set,
        opened.ribbon == f.ribbon,
        opened.skip_condition@ == f.skip_condition@,
{
    assert(if_any(f.field@) is None ==> f.field@ =~= Seq::<char>::empty());
    assert(if_any(f.team1@) is None ==> f.team1@ =~= Seq::<char>::empty());
    assert(if_any(f.team2@) is None ==> f.team2@ =~= Seq::<char>::empty());
    assert(if_any(f.previous_match_id@) is None ==> f.previous_match_id@ =~= Seq::<char>::empty());
}

/// A match that was changed by a form, and is opened with what the request said of it, has the form
/// that it was changed by.
pub proof fn law_changed_match_opens_as_entered(
    q: UpdateMatchRequest,
    f: MatchForm,
    m: MatchSetupData,
    opened: MatchForm,
    tz: int,
)
    requires
        updates(q, f, tz),
        is_form_of(opened, m, tz),
        text::opt_text(m.field) == text::opt_text(q.field),
        text::opt_text(m.schedule_type) == text::opt_text(q.schedule_type),
        m.nominal_length == q.length,
        text::opt_text(m.previous_match) == text::opt_text(q.previous_match_id),
        text::opt_text(m.team1_initial) == text::opt_text(q.team1),
        text::opt_text(m.team2_initial) == text::opt_text(q.team2),
        text::opt_text(m.set_type) == text::opt_text(q.set_type),
        m.nsets == q.nsets,
        m.stones_per_set == q.stones_per_set,
        q.ribbon == Some(m.ribbon),
        text::opt_text(m.skip_condition) == text::opt_text(q.skip_condition),
    ensures
        opened.field@ == f.field@,
        opened.schedule_type@ == f.schedule_type@,
        f.schedule_type@ != "JOIN"@ ==> opened.length == f.length,
        f.schedule_type@ != "STATIC"@ ==> opened.previous_match_id@ == f.previous_match_id@,
        f.schedule_type@ == "STATIC"@ ==> opened.previous_match_id@.len() == 0,
        opened.team1@ == f.team1@,
        opened.team2@ == f.team2@,
        opened.set_type@ == f.set_type@,
        opened.nsets == f.nsets,
        opened.stones_per_set == f.stones_per_set,
        opened.ribbon == f.ribbon,
        opened.skip_condition@ == f.skip_condition@,
{
}

/// The two sides of a form stay apart: different sides are asked for as different sides, and sides that
/// are exchanged in the form are exchanged in the request.
pub proof fn law_sides_stay_apart(
    q: CreateMatchRequest,
    f: MatchForm,
    turned_q: CreateMatchRequest,
    turned: MatchForm,
    tz: int,
)
    requires
        creates(q, f, tz),
        creates(turned_q, turned, tz),
        turned.team1@ == f.team2@,
        turned.team2@ == f.team1@,
    ensures
        f.team1@ != f.team2@ ==> text::opt_text(q.team1) != text::opt_text(q.team2),
        text::opt_text(turned_q.team1) == text::opt_text(q.team2),
        text::opt_text(turned_q.team2) == text::opt_text(q.team1),
{
    assert(f.team1@.len() == 0 && f.team2@.len() == 0 ==> f.team1@ =~= f.team2@);
}

/// The two sides of an edited form stay apart.
pub proof fn law_edited_sides_stay_apart(
    q: UpdateMatchRequest,
    f: MatchForm,
    turned_q: UpdateMatchRequest,
    turned: MatchForm,
    tz: int,
)
    requires
        updates(q, f, tz),
        updates(turned_q, turned, tz),
        turned.team1@ == f.team2@,
        turned.team2@ == f.team1@,
    ensures
        f.team1@ != f.team2@ ==> text::opt_text(q.team1) != text::opt_text(q.team2),
        text::opt_text(turned_q.team1) == text::opt_text(q.team2),
        text::opt_text(turned_q.team2) == text::opt_text(q.team1),
{
}

/// Writing another second side into a form changes the second side of the request, and nothing else.
pub proof fn law_one_side_changes_alone(q: CreateMatchRequest, f: MatchForm, q2: CreateMatchRequest, f2: MatchForm, tz: int)
    requires
        creates(q, f, tz),
        creates(q2, f2, tz),
        f2 == (MatchForm { team2: f2.team2, ..f }),
        f2.team2@ != f.team2@,
    ensures
        text::opt_text(q2.team2) != text::opt_text(q.team2),
        text::opt_text(q2.team1) == text::opt_text(q.team1),
        q2.name@ == q.name@,
        text::opt_text(q2.field) == text::opt_text(q.field),
        text::opt_text(q2.schedule_type) == text::opt_text(q.schedule_type),
        text::opt_text(q2.start_time) == text::opt_text(q.start_time),
        text::opt_text(q2.previous_match_id) == text::opt_text(q.previous_match_id),
        text::texts(q2.refs->0@) == text::texts(q.refs->0@),
        q2.length == q.length && q2.nsets == q.nsets && q2.stones_per_set == q.stones_per_set && q2.ribbon
            == q.ribbon,
{
    assert(f.team2@.len() == 0 && f2.team2@.len() == 0 ==> f.team2@ =~= f2.team2@);
}

/// The refs of a request are the refs that the form lists: a list of names without commas and outer
/// white space, written with commas, is sent as that list.
pub proof fn law_listed_refs_are_sent(names: Seq<Seq<char>>)
    requires
        names.len() > 0,
        forall|k: int|
            0 <= k < names.len() ==> !(#[trigger] names[k]).contains(',') && names[k].len() > 0 && text::trimmed(names[k])
                == names[k],
    ensures
        sent_refs(text::joined(names, seq![','])) == names,
        sent_refs(text::joined(names, seq![',', ' '])) == names,
    decreases names.len(),
{
    let last = names.last();
    if names.len() == 1 {
        lemma_split_of_one(last, ',');
        lemma_listed_of_one(last);
        assert(names =~= seq![last]);
    } else {
        let before = names.drop_last();
        law_listed_refs_are_sent(before);
        let a = text::joined(before, seq![',']);
        let b = text::joined(before, seq![',', ' ']);
        lemma_split_of_sum(a, last, ',');
        lemma_split_of_sum(b, seq![' '] + last, ',');
        assert(a + seq![','] + last =~= text::joined(names, seq![',']));
        assert(b + seq![','] + (seq![' '] + last) =~= text::joined(names, seq![',', ' ']));
        assert(!(seq![' '] + last).contains(',')) by {
            if (seq![' '] + last).contains(',') {
                let i = choose|i: int| 0 <= i < last.len() + 1 && (seq![' '] + last)[i] == ',';
                assert(last[i - 1] == ',');
            }
        }
        lemma_split_of_one(last, ',');
        lemma_split_of_one(seq![' '] + last, ',');
        let x = text::split_at_each(a, ',');
        let y = text::split_at_each(b, ',');
        assert(text::split_at_each(text::joined(names, seq![',']), ',') =~= x.push(last));
        assert(text::split_at_each(text::joined(names, seq![',', ' ']), ',') =~= y.push(seq![' '] + last));
        assert(x.push(last).drop_last() =~= x);
        assert(y.push(seq![' '] + last).drop_last() =~= y);
        assert(text::trimmed_start(seq![' '] + last) == text::trimmed_start(last)) by {
            assert((seq![' '] + last).drop_first() =~= last);
        }
        assert(names =~= before.push(last));
    }
}

proof fn lemma_listed_of_one(piece: Seq<char>)
    ensures
        text::trimmed(piece).len() > 0 ==> listed(seq![piece]) == seq![text::trimmed(piece)],
{
    assert(seq![piece].drop_last() =~= Seq::<Seq<char>>::empty());
    assert(listed(Seq::<Seq<char>>::empty()) =~= Seq::<Seq<char>>::empty());
    assert(Seq::<Seq<char>>::empty().push(text::trimmed(piece)) =~= seq![text::trimmed(piece)]);
}

proof fn lemma_split_of_one(s: Seq<char>, sep: char)
    requires
        !s.contains(sep),
    ensures
        text::split_at_each(s, sep) == seq![s],
    decreases s.len(),
{
    if s.len() > 0 {
        assert(!s.drop_last().contains(sep)) by {
            if s.drop_last().contains(sep) {
                let i = choose|i: int| 0 <= i < s.len() - 1 && s.drop_last()[i] == sep;
                assert(s[i] == sep);
            }
        }
        lemma_split_of_one(s.drop_last(), sep);
        assert(s.contains(s[s.len() - 1]));
        assert(s.drop_last().push(s.last()) =~= s);
        assert(text::split_at_each(s, sep) =~= seq![s]);
    } else {
        assert(s =~= Seq::<char>::empty());
    }
}

proof fn lemma_split_of_sum(a: Seq<char>, b: Seq<char>, sep: char)
    ensures
        text::split_at_each(a + seq![sep] + b, sep) == text::split_at_each(a, sep) + text::split_at_each(b, sep),
    decreases b.len(),
{
    let s = a + seq![sep] + b;
    lemma_split_has_a_piece(b, sep);
    if b.len() == 0 {
        assert(s.drop_last() =~= a);
        assert(text::split_at_each(s, sep) =~= text::split_at_each(a, sep) + text::split_at_each(b, sep));
    } else {
        assert(s.drop_last() =~= a + seq![sep] + b.drop_last());
        lemma_split_of_sum(a, b.drop_last(), sep);
        lemma_split_has_a_piece(b.drop_last(), sep);
        assert(s.last() == b.last());
        assert(text::split_at_each(s, sep) =~= text::split_at_each(a, sep) + text::split_at_each(b, sep));
    }
}

proof fn lemma_split_has_a_piece(s: Seq<char>, sep: char)
    ensures
        text::split_at_each(s, sep).len() >= 1,
    decreases s.len(),
{
    if s.len() > 0 {
        lemma_split_has_a_piece(s.drop_last(), sep);
    }
}

/// A picked result comes last in the refs, after a comma where there are refs already; refs that end
/// with neither white space nor a comma are kept as they are.
pub proof fn law_picked_ref_comes_last(refs: Seq<char>, token: Seq<char>)
    ensures
        text::ends_with(refs_with(refs, token), token),
        text::trimmed(refs).len() == 0 ==> refs_with(refs, token) == token,
        refs.len() > 0 && text::trimmed(refs) == refs && refs.last() != ',' ==> refs_with(refs, token) == refs + seq![
            ',',
            ' ',
        ] + token,
{
    reveal_strlit(", ");
    assert(", "@ =~= seq![',', ' ']);
    let r = refs_with(refs, token);
    let cur = text::trimmed(text::without_trailing(text::trimmed(refs), ','));
    if cur.len() > 0 {
        assert(r.skip(r.len() - token.len()) =~= token);
    } else {
        assert(r.skip(0) =~= token);
    }
    if text::trimmed(refs).len() == 0 {
        assert(text::trimmed(refs) =~= Seq::<char>::empty());
        assert(text::without_trailing(text::trimmed(refs), ',') =~= Seq::<char>::empty());
    }
}

/// A result that is picked goes into the input that was focused, and into no other.
pub proof fn law_picked_result_goes_where_the_focus_is(
    after: MatchForm,
    before: MatchForm,
    focused: Option<Seq<char>>,
    token: Seq<char>,
)
    requires
        result_inserted(after, before, focused, token),
    ensures
        focused == Some("team1"@) ==> after.team1@ == token && after.team2@ == before.team2@ && after.refs@
            == before.refs@,
        focused == Some("team2"@) ==> after.team2@ == token && after.team1@ == before.team1@ && after.refs@
            == before.refs@,
        focused == Some("refs"@) ==> text::ends_with(after.refs@, token) && after.team1@ == before.team1@ && after.team2@
            == before.team2@,
        focused != Some("team1"@) && focused != Some("team2"@) && focused != Some("refs"@) ==> after.team1@
            == before.team1@ && after.team2@ == before.team2@ && after.refs@ == before.refs@,
        after.name == before.name && after.field == before.field && after.schedule_type == before.schedule_type
            && after.length == before.length && after.start_time == before.start_time && after.previous_match_id
            == before.previous_match_id && after.skip_condition == before.skip_condition,
{
    reveal_strlit("team1");
    reveal_strlit("team2");
    reveal_strlit("refs");
    assert("team1"@[4] != "team2"@[4] && "refs"@.len() == 4 && "team1"@.len() == 5 && "team2"@.len() == 5);
    law_picked_ref_comes_last(before.refs@, token);
}

/// A new match is accepted exactly where it has what its type needs: a break or join its fields, a
/// static break also its start, and a match that follows another that one and a field, on which the
/// other stands where it is known.
pub proof fn law_new_match_is_accepted_with_what_it_needs(f: MatchForm, matches: Seq<MatchSetupData>)
    ensures
        f.schedule_type@ == "BREAK"@ || f.schedule_type@ == "JOIN"@ ==> (create_error(f, matches) is None
            <==> f.break_fields@.len() > 0),
        f.schedule_type@ == "STATBREAK"@ ==> (create_error(f, matches) is None <==> f.break_fields@.len() > 0
            && text::trimmed(f.start_time@).len() > 0),
        f.schedule_type@ == "SAFE"@ || f.schedule_type@ == "FAST"@ ==> (create_error(f, matches) is None
            <==> text::trimmed(f.previous_match_id@).len() > 0 && f.field@.len() > 0 && !(exists|i: int|
            0 <= i < matches.len() && (#[trigger] matches[i]).uuid@ == text::trimmed(f.previous_match_id@) && (forall|j: int|
                0 <= j < i ==> (#[trigger] matches[j]).uuid@ != text::trimmed(f.previous_match_id@)) && text::opt_text(
                matches[i].field,
            ) != Some(f.field@))),
        f.schedule_type@ == "STATIC"@ ==> create_error(f, matches) is None,
{
    lemma_types_differ();
    deps::law_match_of_an_id(matches, text::trimmed(f.previous_match_id@));
}

/// An edited match is accepted exactly where it has what its type needs: all but static matches and
/// static breaks follow a match, on the same field where it is known.
pub proof fn law_edited_match_is_accepted_with_what_it_needs(f: MatchForm, matches: Seq<MatchSetupData>)
    ensures
        f.schedule_type@ == "BREAK"@ || f.schedule_type@ == "JOIN"@ || f.schedule_type@ == "SAFE"@
            || f.schedule_type@ == "FAST"@ ==> (edit_error(f, matches) is None <==> text::trimmed(
            f.previous_match_id@,
        ).len() > 0 && !(exists|i: int|
            0 <= i < matches.len() && (#[trigger] matches[i]).uuid@ == text::trimmed(f.previous_match_id@) && (forall|j: int|
                0 <= j < i ==> (#[trigger] matches[j]).uuid@ != text::trimmed(f.previous_match_id@)) && text::opt_text(
                matches[i].field,
            ) != Some(f.field@))),
        f.schedule_type@ == "STATIC"@ || f.schedule_type@ == "STATBREAK"@ ==> edit_error(f, matches) is None,
{
    lemma_types_differ();
    deps::law_match_of_an_id(matches, text::trimmed(f.previous_match_id@));
}

proof fn lemma_types_differ()
    ensures
        "STATIC"@ != "SAFE"@ && "STATIC"@ != "FAST"@ && "STATIC"@ != "BREAK"@ && "STATIC"@ != "STATBREAK"@
            && "STATIC"@ != "JOIN"@,
        "SAFE"@ != "FAST"@ && "SAFE"@ != "BREAK"@ && "SAFE"@ != "STATBREAK"@ && "SAFE"@ != "JOIN"@,
        "FAST"@ != "BREAK"@ && "FAST"@ != "STATBREAK"@ && "FAST"@ != "JOIN"@,
        "BREAK"@ != "STATBREAK"@ && "BREAK"@ != "JOIN"@ && "STATBREAK"@ != "JOIN"@,
{
    reveal_strlit("STATIC");
    reveal_strlit("SAFE");
    reveal_strlit("FAST");
    reveal_strlit("BREAK");
    reveal_strlit("STATBREAK");
    reveal_strlit("JOIN");
    assert("STATIC"@.len() == 6 && "BREAK"@.len() == 5 && "STATBREAK"@.len() == 9);
    assert("SAFE"@.len() == 4 && "FAST"@.len() == 4 && "JOIN"@.len() == 4);
    assert("SAFE"@[0] == 'S' && "FAST"@[0] == 'F' && "JOIN"@[0] == 'J');
}

/// Every type that can be chosen stays what it is if it is not changed; games can only be made freer, and breaks and joins
/// can become nothing else.
pub proof fn law_what_a_type_may_become(a: Seq<char>, b: Seq<char>)
    ensures
        creatable(a) && a != "STATBREAK"@ ==> may_become(a, a),
        !may_become(a, "STATBREAK"@),
        may_become("STATIC"@, "SAFE"@) && may_become("STATIC"@, "FAST"@) && may_become("SAFE"@, "FAST"@),
        !may_become("SAFE"@, "STATIC"@) && !may_become("FAST"@, "STATIC"@) && !may_become("FAST"@, "SAFE"@),
        grouped(a) && may_become(a, b) ==> a == b,
        grouped(b) && may_become(a, b) ==> a == b,
        teams::structural(Some(a)) && creatable(a) <==> grouped(a),
        grouped(a) <==> a == "BREAK"@ || a == "STATBREAK"@ || a == "JOIN"@,
        follows(a) <==> a == "SAFE"@ || a == "FAST"@,
{
    lemma_types_differ();
}

/// A form shows the inputs that its type has use for: a start for what has a start of its own, a
/// previous match for what follows one, teams for games, and fields of its own for a new group, in
/// place of the field. What it shows no length for is sent without one.
pub proof fn law_form_shows_what_its_type_uses(t: Seq<char>, f: MatchForm)
    requires
        creatable(t),
        f.schedule_type@ == t,
    ensures
        parts_of(t, true).start <==> drag::has_fixed_start(t),
        parts_of(t, true).game <==> !teams::structural(Some(t)),
        parts_of(t, false).game <==> !teams::structural(Some(t)),
        parts_of(t, true).group_fields <==> teams::structural(Some(t)),
        parts_of(t, true).field <==> !parts_of(t, true).group_fields,
        parts_of(t, false).field && !parts_of(t, false).group_fields,
        parts_of(t, true).previous <==> follows(t),
        parts_of(t, false).previous <==> !drag::has_fixed_start(t),
        parts_of(t, true).skip_condition <==> follows(t),
        sent_length(f) == (if parts_of(t, true).length {
            f.length
        } else {
            0
        }),
        parts_of(t, true).length <==> t != "JOIN"@,
        parts_of(t, true).length == parts_of(t, false).length,
{
    lemma_types_differ();
}

/// A new match can have any type that there is, and an edited one is offered any but that of a static
/// break; nothing else is offered, and nothing twice.
pub proof fn law_offered_types(t: Seq<char>, creating: bool)
    ensures
        (exists|k: int| 0 <= k < offered_types(creating).len() && (#[trigger] offered_types(creating)[k]).0 == t)
            <==> creatable(t) && (creating || t != "STATBREAK"@),
        forall|j: int, k: int|
            0 <= j < k < offered_types(creating).len() ==> (#[trigger] offered_types(creating)[j]).0 != (
            #[trigger] offered_types(creating)[k]).0,
{
    lemma_types_differ();
    let all = offered_types(creating);
    assert(all[0].0 == "STATIC"@ && all[1].0 == "SAFE"@ && all[2].0 == "FAST"@ && all[3].0 == "BREAK"@);
    if creating {
        assert(all.len() == 6 && all[4].0 == "STATBREAK"@ && all[5].0 == "JOIN"@);
    } else {
        assert(all.len() == 5 && all[4].0 == "JOIN"@);
    }
}

/// An answer lets a skip condition pass exactly if it finds it valid and one of its types is the type
/// of truth values.
pub proof fn law_only_conditions_pass(res: ValidateDslResponse)
    ensures
        answer_error(res) is None <==> res.valid && exists|k: int|
            0 <= k < res.result_type@.len() && (#[trigger] res.result_type@[k])@ == "BOOL"@,
{
    let all = text::texts(res.result_type@);
    if all.contains("BOOL"@) {
        let k = choose|k: int| 0 <= k < all.len() && all[k] == "BOOL"@;
        assert(res.result_type@[k]@ == "BOOL"@);
    }
    if exists|k: int| 0 <= k < res.result_type@.len() && (#[trigger] res.result_type@[k])@ == "BOOL"@ {
        let k = choose|k: int| 0 <= k < res.result_type@.len() && (#[trigger] res.result_type@[k])@ == "BOOL"@;
        assert(all[k] == "BOOL"@);
    }
}

/// The skip condition of a form is looked at only where its type has one and it is not blank; what is
/// known to be wrong with it is not asked again; and where no answer comes, only a strict form is
/// refused.
pub proof fn law_when_a_skip_condition_is_looked_at(
    f: MatchForm,
    known: Option<Result<(), String>>,
    failure: String,
    strict: bool,
)
    ensures
        ({
            let has_one = (f.schedule_type@ == "SAFE"@ || f.schedule_type@ == "FAST"@) && text::trimmed(
                f.skip_condition@,
            ).len() > 0;
            let bad = known is Some && known->0 is Err;
            &&& skip_check(f, known, None, strict).0 <==> has_one && !bad
            &&& skip_check(f, known, None, strict).1 is Some <==> has_one && bad
            &&& !skip_check(f, known, Some(Err(failure)), strict).0
            &&& skip_check(f, known, Some(Err(failure)), strict).1 is Some <==> has_one && (bad || strict)
        }),
{
}

/// Only a form with nothing wrong is sent, and one with something wrong is refused.
pub proof fn law_only_good_forms_are_sent(
    created: SaveStep,
    edited: SaveStep,
    f: MatchForm,
    matches: Seq<MatchSetupData>,
    check: (bool, Option<Seq<char>>),
    tz: int,
)
    requires
        is_create_step(created, f, matches, check, tz),
        is_edit_step(edited, f, matches, check, tz),
    ensures
        create_error(f, matches) is Some ==> created is Refused,
        edit_error(f, matches) is Some ==> edited is Refused,
        created matches SaveStep::CreateMatch(q) ==> create_error(f, matches) is None && !grouped(f.schedule_type@)
            && check.1 is None && !check.0 && q.name@ == f.name@,
        created matches SaveStep::CreateGroup(q) ==> create_error(f, matches) is None && grouped(f.schedule_type@)
            && q.name@ == f.name@,
        edited is UpdateMatch ==> edit_error(f, matches) is None && check.1 is None && !check.0,
        !(created is UpdateMatch) && !(edited is CreateMatch) && !(edited is CreateGroup),
        created is LookAt ==> check.0,
        edited is LookAt ==> check.0,
{
}

/// A group is asked for under the name, type and length of its form, on each of its fields and no
/// others; only a static break has a start.
pub proof fn law_group_is_asked_for_as_entered(q: CreateBreakGroupRequest, f: MatchForm, tz: int)
    requires
        creates_group(q, f, tz),
    ensures
        q.name@ == f.name@,
        q.schedule_type@ == f.schedule_type@,
        f.schedule_type@ != "JOIN"@ ==> q.length == f.length,
        q.fields@.len() == f.break_fields@.len(),
        forall|k: int| 0 <= k < q.fields@.len() ==> (#[trigger] q.fields@[k])@ == f.break_fields@[k]@,
        q.start_time is Some <==> f.schedule_type@ == "STATBREAK"@,
        q.start_time matches Some(x) ==> (schedule_time::utc_iso_of_local(f.start_time@, tz) matches Some(s) ==> x@ == s),
{
    assert(text::texts(q.fields@).len() == text::texts(f.break_fields@).len());
    assert forall|k: int| 0 <= k < q.fields@.len() implies (#[trigger] q.fields@[k])@ == f.break_fields@[k]@ by {
        assert(text::texts(q.fields@)[k] == text::texts(f.break_fields@)[k]);
    }
}

/// The form that opens after a drag stands for the drag: its placeholder is on the field of the drag,
/// at its start, and lasts as long.
pub proof fn law_new_form_stands_for_the_drag(
    f: MatchForm,
    g: Option<PendingCreateGhost>,
    field: Seq<char>,
    start_text: Option<Seq<char>>,
    start: Moment,
    length: Option<u32>,
    previous: Option<Seq<char>>,
    default_type: Option<Seq<char>>,
)
    requires
        field.len() > 0,
        is_new_form(f, Some(field), start_text, length, previous, default_type),
        is_placeholder(g, f, Some(start)),
    ensures
        g matches Some(x) && x.start_local == start && x.field_names@.len() == 1 && x.field_names@[0]@ == field && (
        length matches Some(n) ==> (n >= 10 ==> x.length_min == n) && (n < 10 ==> x.length_min == 10)) && (length
            is None ==> x.length_min == 60) && (x.is_join <==> default_type == Some("JOIN"@)),
        f.name@.len() == 0 && f.team1@.len() == 0 && f.team2@.len() == 0 && f.refs@.len() == 0
            && f.skip_condition@.len() == 0,
        default_type == Some("SAFE"@) || default_type == Some("FAST"@) ==> f.previous_match_id@ == (match previous {
            Some(p) => p,
            None => Seq::empty(),
        }),
        default_type is None ==> f.schedule_type@ == "STATIC"@ && f.previous_match_id@.len() == 0,
{
    lemma_types_differ();
    let x = g->0;
    assert(text::texts(x.field_names@).len() == 1);
    assert(text::texts(x.field_names@)[0] == field);
}

/// A match shows in its form the setup that it has, and where that is missing what has been resolved.
pub proof fn law_form_shows_the_setup(f: MatchForm, m: MatchSetupData, tz: int)
    requires
        is_form_of(f, m, tz),
    ensures
        f.name@ == m.name@,
        m.field matches Some(x) ==> f.field@ == x@,
        m.team1_initial matches Some(x) ==> f.team1@ == x@,
        m.team2_initial matches Some(x) ==> f.team2@ == x@,
        m.refs_initial matches Some(x) ==> f.refs@ == x@,
        m.team1_initial is None ==> (m.team1 matches Some(x) ==> f.team1@ == x@),
        m.team2_initial is None ==> (m.team2 matches Some(x) ==> f.team2@ == x@),
        m.refs_initial is None ==> (m.refs matches Some(x) ==> f.refs@ == x@),
        m.previous_match matches Some(x) ==> f.previous_match_id@ == x@,
        m.schedule_type matches Some(x) ==> f.schedule_type@ == x@,
        m.schedule_type is None ==> f.schedule_type@ == "STATIC"@,
        m.nominal_length matches Some(n) ==> f.length == n,
        m.nsets matches Some(n) ==> f.nsets == n,
        m.stones_per_set matches Some(n) ==> f.stones_per_set == n,
        m.skip_condition matches Some(x) ==> f.skip_condition@ == x@,
        f.ribbon == m.ribbon,
        m.nominal_start_time is None ==> f.start_time@.len() == 0,
        m.nominal_start_time matches Some(x) ==> (schedule_time::local_input_of_utc(x@, tz) matches Some(s) ==> f.start_time@ == s),
        m.nominal_start_time matches Some(x) ==> (schedule_time::local_input_of_utc(x@, tz) is None ==> f.start_time@.len() <= 16
            && f.start_time@ == x@.take(f.start_time@.len() as int) && (x@.len() <= 16 ==> f.start_time@ == x@)),
{
    if m.nominal_start_time is Some {
        let x = m.nominal_start_time->0@;
        assert(x.take(x.len() as int) =~= x);
    }
}

/// What is listed is what is not blank, without outer white space, and nothing else.
pub proof fn law_what_is_listed(pieces: Seq<Seq<char>>, s: Seq<char>)
    ensures
        listed(pieces).contains(s) <==> s.len() > 0 && exists|k: int|
            0 <= k < pieces.len() && text::trimmed(#[trigger] pieces[k]) == s,
    decreases pieces.len(),
{
    let all = listed(pieces);
    if pieces.len() > 0 {
        let rest = pieces.drop_last();
        let before = listed(rest);
        law_what_is_listed(rest, s);
        if before.contains(s) {
            let k = choose|k: int| 0 <= k < rest.len() && text::trimmed(#[trigger] rest[k]) == s;
            assert(pieces[k] == rest[k]);
            let j = choose|j: int| 0 <= j < before.len() && before[j] == s;
            assert(all[j] == s);
        }
        if all.contains(s) && !before.contains(s) {
            let j = choose|j: int| 0 <= j < all.len() && all[j] == s;
            if j < before.len() {
                assert(before[j] == s);
            }
            assert(text::trimmed(pieces[pieces.len() - 1]) == s);
        }
        if s.len() > 0 && exists|k: int| 0 <= k < pieces.len() && text::trimmed(#[trigger] pieces[k]) == s {
            let k = choose|k: int| 0 <= k < pieces.len() && text::trimmed(#[trigger] pieces[k]) == s;
            if k < pieces.len() - 1 {
                assert(rest[k] == pieces[k]);
            } else {
                assert(all[all.len() - 1] == s);
            }
        }
    }
}

/// While a match is edited, exactly the types that it cannot become are disabled; none is for a new
/// match.
pub proof fn law_only_what_cannot_be_is_disabled(
    c: TypeChoice,
    offered: (Seq<char>, Seq<char>),
    from: Seq<char>,
    creating: bool,
)
    requires
        is_choice(c, offered, from, creating),
    ensures
        creating ==> !c.disabled,
        !creating ==> (c.disabled <==> !may_become(from, c.value@)),
        c.value@ == offered.0 && c.label@ == offered.1,
{
}

/// The match before a start on a field is one that can be followed there; without a start that can be
/// read there is none.
pub proof fn law_previous_match_of_a_start(
    matches: Seq<MatchSetupData>,
    field: Seq<char>,
    start: Seq<char>,
    show_as_happened: bool,
    tz: int,
)
    ensures
        clock::naive_read(text::trimmed(start), LOCAL_INPUT@) is None ==> previous_at(matches, field, start, show_as_happened, tz)
            is None,
        clock::naive_read(text::trimmed(start), LOCAL_INPUT@) matches Some(t) ==> (schedule_time::latest_before(
            matches,
            field,
            t,
            Seq::empty(),
            show_as_happened,
            tz,
        ) matches Some(i) ==> previous_at(matches, field, start, show_as_happened, tz) == Some(matches[i].uuid@)),
        previous_at(matches, field, start, show_as_happened, tz) matches Some(id) ==> exists|i: int|
            0 <= i < matches.len() && (#[trigger] matches[i]).uuid@ == id,
{
    if let Some(t) = clock::naive_read(text::trimmed(start), LOCAL_INPUT@) {
        schedule_time::law_latest_before(matches, field, t, Seq::empty(), show_as_happened, tz);
    }
}

} // verus!
