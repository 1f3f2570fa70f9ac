//! The form for a group of same-named breaks or joins, and the choice of fields.
use vstd::prelude::*;
use crate::match_form;
use crate::order;
use crate::schedule_time;
use crate::teams;
use crate::text;
use crate::match_form::{copied, start_to_send};
use crate::page::UpdateBreakGroupRequest;
use crate::schedule_time::utc_iso_to_local_datetime_input;
use crate::teams::{is_structural_match, or_empty};
use crate::text::{concat3, list_contains, str_eq, trim};
use crate::types::{FieldSetupData, MatchSetupData};

verus! {

// ---------------------------------------------------------------------------
// Choosing fields
// ---------------------------------------------------------------------------

/// The list without every occurrence of `s`.
pub open spec fn without(list: Seq<Seq<char>>, s: Seq<char>) -> Seq<Seq<char>>
    decreases list.len(),
{
    if list.len() == 0 {
        Seq::empty()
    } else {
        let before = without(list.drop_last(), s);
        if list.last() == s {
            before
        } else {
            before.push(list.last())
        }
    }
}

/// A list of fields after a box was checked or unchecked.
pub open spec fn checked_fields(list: Seq<Seq<char>>, name: Seq<char>, on: bool) -> Seq<Seq<char>> {
    if on {
        if list.contains(name) {
            list
        } else {
            list.push(name)
        }
    } else {
        without(list, name)
    }
}

/// Check or uncheck the box of a field.
pub fn check_field(list: Vec<String>, name: &str, on: bool) -> (r: Vec<String>)
    ensures
        text::texts(r@) == checked_fields(text::texts(list@), name@, on),
{
    let mut list = list;
    if on {
        if !list_contains(list.as_slice(), name) {
            let ghost was = list@;
            list.push(name.to_owned());
            assert(text::texts(list@) =~= text::texts(was).push(name@));
        }
        return list;
    }
    let ghost all = text::texts(list@);
    let mut out: Vec<String> = Vec::new();
    let mut i: usize = 0;
    assert(all.take(0) =~= Seq::<Seq<char>>::empty());
    assert(text::texts(out@) =~= Seq::<Seq<char>>::empty());
    while i < list.len()
        invariant
            i <= list@.len(),
            all == text::texts(list@),
            text::texts(out@) == without(all.take(i as int), name@),
        decreases list@.len() - i,
    {
        assert(all.take(i + 1).drop_last() =~= all.take(i as int));
        assert(all.take(i + 1).last() == list@[i as int]@);
        let ghost was = out@;
        if !str_eq(list[i].as_str(), name) {
            out.push(list[i].clone());
            assert(text::texts(out@) =~= text::texts(was).push(list@[i as int]@));
        }
        i = i + 1;
    }
    assert(all.take(i as int) =~= all);
    out
}

/// Checking puts a field into the list, unchecking takes it out, and no other field is touched.
pub proof fn law_checked_fields(list: Seq<Seq<char>>, name: Seq<char>, other: Seq<char>, on: bool)
    ensures
        checked_fields(list, name, on).contains(name) == on,
        other != name ==> checked_fields(list, name, on).contains(other) == list.contains(other),
{
    if on {
        if !list.contains(name) {
            let r = list.push(name);
            assert(r[r.len() - 1] == name);
            if list.contains(other) {
                let k = choose|k: int| 0 <= k < list.len() && list[k] == other;
                assert(r[k] == other);
            }
            if other != name && r.contains(other) {
                let k = choose|k: int| 0 <= k < r.len() && r[k] == other;
                assert(list[k] == other);
            }
        }
    } else {
        lemma_without(list, name, other);
        lemma_without(list, name, name);
    }
}

proof fn lemma_without(list: Seq<Seq<char>>, s: Seq<char>, other: Seq<char>)
    ensures
        without(list, s).contains(other) == (list.contains(other) && other != s),
    decreases list.len(),
{
    if list.len() > 0 {
        let shorter = list.drop_last();
        lemma_without(shorter, s, other);
        let before = without(shorter, s);
        let r = without(list, s);
        if list.contains(other) && other != s {
            let k = choose|k: int| 0 <= k < list.len() && list[k] == other;
            if k < shorter.len() {
                assert(shorter[k] == other);
                assert(before.contains(other));
                let j = choose|j: int| 0 <= j < before.len() && before[j] == other;
                assert(r[j] == other);
            } else {
                assert(r[r.len() - 1] == other);
            }
        }
        if r.contains(other) {
            let j = choose|j: int| 0 <= j < r.len() && r[j] == other;
            if j < before.len() {
                assert(before[j] == other);
                assert(before.contains(other));
                let k = choose|k: int| 0 <= k < shorter.len() && shorter[k] == other;
                assert(list[k] == other);
            } else {
                assert(list[list.len() - 1] == other);
            }
        }
    }
}

/// The names of all fields.
pub open spec fn field_names(fields: Seq<FieldSetupData>) -> Seq<Seq<char>> {
    Seq::new(fields.len(), |i: int| fields[i].name@)
}

/// There is a field, and every field is chosen.
pub open spec fn all_chosen(fields: Seq<FieldSetupData>, list: Seq<Seq<char>>) -> bool {
    fields.len() > 0 && forall|i: int| 0 <= i < fields.len() ==> list.contains((#[trigger] fields[i]).name@)
}

/// Whether all fields are chosen.
pub fn all_fields_selected(fields: &[FieldSetupData], list: &[String]) -> (r: bool)
    ensures
        r == all_chosen(fields@, text::texts(list@)),
{
    let mut i: usize = 0;
    while i < fields.len()
        invariant
            i <= fields@.len(),
            forall|j: int| 0 <= j < i ==> text::texts(list@).contains((#[trigger] fields@[j]).name@),
        decreases fields@.len() - i,
    {
        if !list_contains(list, fields[i].name.as_str()) {
            return false;
        }
        i = i + 1;
    }
    fields.len() > 0
}

/// The fields after "select all" or "select none".
pub fn select_all_fields(fields: &[FieldSetupData], select: bool) -> (r: Vec<String>)
    ensures
        text::texts(r@) == (if select {
            field_names(fields@)
        } else {
            Seq::empty()
        }),
{
    let mut out: Vec<String> = Vec::new();
    assert(text::texts(out@) =~= Seq::<Seq<char>>::empty());
    if !select {
        return out;
    }
    let mut i: usize = 0;
    while i < fields.len()
        invariant
            i <= fields@.len(),
            out@.len() == i,
            forall|k: int| 0 <= k < i ==> (#[trigger] out@[k])@ == fields@[k].name@,
        decreases fields@.len() - i,
    {
        out.push(fields[i].name.clone());
        i = i + 1;
    }
    assert(text::texts(out@) =~= field_names(fields@));
    out
}

/// The text of the button that selects all or none.
pub fn select_all_label(all_selected: bool) -> (r: &'static str)
    ensures
        r@ == (if all_selected {
            "Select none"@
        } else {
            "Select all"@
        }),
{
    if all_selected {
        "Select none"
    } else {
        "Select all"
    }
}

/// "Select all" leads to all fields being chosen, if there are any; "select none" to none.
pub proof fn law_select_all(fields: Seq<FieldSetupData>)
    ensures
        fields.len() > 0 ==> all_chosen(fields, field_names(fields)),
        !all_chosen(fields, Seq::empty()),
{
    assert forall|i: int| 0 <= i < fields.len() implies field_names(fields).contains(
        (#[trigger] fields[i]).name@,
    ) by {
        assert(field_names(fields)[i] == fields[i].name@);
    }
    if fields.len() > 0 {
        assert(!Seq::<Seq<char>>::empty().contains(fields[0].name@));
    }
}

// ---------------------------------------------------------------------------
// The form of a group
// ---------------------------------------------------------------------------

/// What the form of a group holds: the type of the group, the type chosen for it, its length, its
/// start, and its fields.
#[derive(Clone, Debug)]
pub struct GroupForm {
    pub group_type: String,
    pub sel_type: String,
    pub length: u32,
    pub start_time: String,
    pub fields: Vec<String>,
}

/// A member of a group.
pub open spec fn member_at(matches: Seq<MatchSetupData>, name: Seq<char>) -> spec_fn(int) -> bool {
    |i: int| matches[i].name@ == name && teams::structural(text::opt_text(matches[i].schedule_type))
}

/// The positions of the members of a group.
pub open spec fn members(matches: Seq<MatchSetupData>, name: Seq<char>) -> Seq<int> {
    order::kept(matches.len(), member_at(matches, name))
}

/// The fields of the members of a group, blanks left out.
pub open spec fn member_fields(matches: Seq<MatchSetupData>, at: Seq<int>) -> Seq<Seq<char>>
    decreases at.len(),
{
    if at.len() == 0 {
        Seq::empty()
    } else {
        let before = member_fields(matches, at.drop_last());
        match text::opt_text(matches[at.last()].field) {
            Some(f) => if f.len() > 0 {
                before.push(f)
            } else {
                before
            },
            None => before,
        }
    }
}

/// The start that the form of a group shows.
pub open spec fn group_start(nominal: Option<Seq<char>>, tz: int) -> Seq<char> {
    match nominal {
        Some(t) => teams::text_or_empty(schedule_time::local_input_of_utc(t, tz)),
        None => Seq::empty(),
    }
}

/// The form of a group: type, length and start of its first member, and the fields of all.
pub open spec fn is_group_form(f: GroupForm, matches: Seq<MatchSetupData>, name: Seq<char>, tz: int) -> bool {
    let first = matches[members(matches, name)[0]];
    &&& f.group_type@ == text::opt_text(first.schedule_type)->0
    &&& f.sel_type@ == f.group_type@
    &&& f.length == (match first.nominal_length {
        Some(n) => n,
        None => 30,
    })
    &&& f.start_time@ == group_start(text::opt_text(first.nominal_start_time), tz)
    &&& text::texts(f.fields@) == member_fields(matches, members(matches, name))
}

/// The form of the group with a name; none where the group has no members. A start that can be read
/// turns back into the start of the first member, to the minute.
pub fn group_form(matches: &[MatchSetupData], name: &str, tz_offset_minutes: i16) -> (r: Option<GroupForm>)
    ensures
        r is Some <==> members(matches@, name@).len() > 0,
        r matches Some(f) ==> is_group_form(f, matches@, name@, tz_offset_minutes as int),
        r matches Some(f) ==> (matches@[members(matches@, name@)[0]].nominal_start_time matches Some(t) ==> (
        schedule_time::local_input_of_utc(t@, tz_offset_minutes as int) is Some ==> schedule_time::turns_back(
            t@,
            f.start_time@,
            tz_offset_minutes as int,
        ))),
{
    let ghost p = member_at(matches@, name@);
    let mut first: Option<usize> = None;
    let mut fields: Vec<String> = Vec::new();
    let mut i: usize = 0;
    assert(text::texts(fields@) =~= Seq::<Seq<char>>::empty());
    while i < matches.len()
        invariant
            i <= matches@.len(),
            p == member_at(matches@, name@),
            first is Some <==> order::kept(i as nat, p).len() > 0,
            first matches Some(k) ==> k < i && order::kept(i as nat, p)[0] == k && teams::structural(
                text::opt_text(matches@[k as int].schedule_type),
            ),
            text::texts(fields@) == member_fields(matches@, order::kept(i as nat, p)),
        decreases matches@.len() - i,
    {
        let m = &matches[i];
        if str_eq(m.name.as_str(), name) && is_structural_match(m) {
            proof {
                assert(p(i as int));
                assert(order::kept((i + 1) as nat, p).drop_last() =~= order::kept(i as nat, p));
            }
            if first.is_none() {
                first = Some(i);
            }
            let ghost was = fields@;
            match &m.field {
                Some(f) => {
                    if f.as_str().unicode_len() > 0 {
                        fields.push(f.clone());
                        assert(text::texts(fields@) =~= text::texts(was).push(f@));
                    }
                },
                None => {},
            }
        } else {
            assert(!p(i as int));
        }
        i = i + 1;
    }
    match first {
        Some(k) => {
            let m = &matches[k];
            let group_type = match &m.schedule_type {
                Some(t) => t.clone(),
                None => "BREAK".to_owned(),
            };
            let start_time = match &m.nominal_start_time {
                Some(t) => match utc_iso_to_local_datetime_input(t.as_str(), tz_offset_minutes) {
                    Some(s) => s,
                    None => or_empty(None).to_owned(),
                },
                None => or_empty(None).to_owned(),
            };
            Some(
                GroupForm {
                    sel_type: group_type.clone(),
                    group_type,
                    length: match m.nominal_length {
                        Some(n) => n,
                        None => 30,
                    },
                    start_time,
                    fields,
                },
            )
        },
        None => None,
    }
}

/// What a group is called.
pub open spec fn group_noun(group_type: Seq<char>) -> Seq<char> {
    if group_type == "JOIN"@ {
        "join"@
    } else {
        "break"@
    }
}

/// Noun for a group: "join" or "break".
pub fn type_noun(group_type: &str) -> (r: &'static str)
    ensures
        r@ == group_noun(group_type@),
{
    if str_eq(group_type, "JOIN") {
        "join"
    } else {
        "break"
    }
}

/// Heading for a type of group.
pub fn type_label(group_type: &str) -> (r: &'static str)
    ensures
        r@ == (if group_type@ == "JOIN"@ {
            "Join"@
        } else if group_type@ == "STATBREAK"@ {
            "Static Break"@
        } else {
            "Break"@
        }),
{
    if str_eq(group_type, "JOIN") {
        "Join"
    } else if str_eq(group_type, "STATBREAK") {
        "Static Break"
    } else {
        "Break"
    }
}

/// What is wrong with the form of a group.
pub open spec fn group_error(f: GroupForm) -> Option<Seq<char>> {
    if f.fields@.len() == 0 {
        Some(
            "A "@ + group_noun(f.group_type@)
                + " group needs at least one field. Use Delete to remove it entirely."@,
        )
    } else if f.group_type@ == "STATBREAK"@ && text::trimmed(f.start_time@).len() == 0 {
        Some("Start time is required for a static break."@)
    } else {
        None
    }
}

/// Whether the form of a group can be sent; what is wrong with it where it cannot.
pub fn validate_group(f: &GroupForm) -> (r: Result<(), String>)
    ensures
        match group_error(*f) {
            Some(e) => r matches Err(x) && x@ == e,
            None => r is Ok,
        },
{
    if f.fields.len() == 0 {
        return Err(
            concat3(
                "A ",
                type_noun(f.group_type.as_str()),
                " group needs at least one field. Use Delete to remove it entirely.",
            ),
        );
    }
    if str_eq(f.group_type.as_str(), "STATBREAK") && trim(f.start_time.as_str()).unicode_len() == 0 {
        return Err("Start time is required for a static break.".to_owned());
    }
    Ok(())
}

/// The request for a changed group says what its form holds: the type only where it changes, no
/// length for a join, a start for a static break only, and all its fields.
pub open spec fn updates_group(q: UpdateBreakGroupRequest, f: GroupForm, tz: int) -> bool {
    &&& text::opt_text(q.schedule_type) == (if f.sel_type@ != f.group_type@ {
        Some(f.sel_type@)
    } else {
        None
    })
    &&& q.length == (if f.sel_type@ == "JOIN"@ {
        None
    } else {
        Some(f.length)
    })
    &&& text::opt_text(q.start_time) == (if f.group_type@ == "STATBREAK"@ {
        Some(match_form::sent_start(f.start_time@, tz))
    } else {
        None
    })
    &&& q.fields is Some
    &&& text::texts(q.fields->0@) == text::texts(f.fields@)
}

/// The request for a changed group.
pub fn update_group_request(f: &GroupForm, tz_offset_minutes: i16) -> (r: UpdateBreakGroupRequest)
    ensures
        updates_group(r, *f, tz_offset_minutes as int),
{
    let schedule_type = if str_eq(f.sel_type.as_str(), f.group_type.as_str()) {
        None
    } else {
        Some(f.sel_type.clone())
    };
    let length = if str_eq(f.sel_type.as_str(), "JOIN") {
        None
    } else {
        Some(f.length)
    };
    let start_time = if str_eq(f.group_type.as_str(), "STATBREAK") {
        Some(start_to_send(f.start_time.as_str(), tz_offset_minutes))
    } else {
        None
    };
    UpdateBreakGroupRequest { schedule_type, length, start_time, fields: Some(copied(&f.fields)) }
}

/// A group that is opened and saved as it is keeps its type, and asks for the length and the fields
/// that it has.
pub proof fn law_saving_unchanged_keeps_the_group(
    q: UpdateBreakGroupRequest,
    f: GroupForm,
    matches: Seq<MatchSetupData>,
    name: Seq<char>,
    tz: int,
)
    requires
        is_group_form(f, matches, name, tz),
        updates_group(q, f, tz),
    ensures
        q.schedule_type is None,
        text::texts(q.fields->0@) == member_fields(matches, members(matches, name)),
        ({
            let first = matches[members(matches, name)[0]];
            first.nominal_length is Some && f.group_type@ != "JOIN"@ ==> q.length == first.nominal_length
        }),
{
}

/// Checking a box and unchecking it again leaves the list as it was.
pub proof fn law_checking_is_undone(list: Seq<Seq<char>>, name: Seq<char>)
    requires
        !list.contains(name),
    ensures
        checked_fields(checked_fields(list, name, true), name, false) == list,
{
    lemma_without_absent(list, name);
    assert(list.push(name).drop_last() =~= list);
}

proof fn lemma_without_absent(list: Seq<Seq<char>>, s: Seq<char>)
    requires
        !list.contains(s),
    ensures
        without(list, s) == list,
    decreases list.len(),
{
    if list.len() > 0 {
        let before = list.drop_last();
        assert(!before.contains(s)) by {
            if before.contains(s) {
                let i = choose|i: int| 0 <= i < before.len() && before[i] == s;
                assert(list[i] == s);
            }
        }
        assert(list.contains(list[list.len() - 1]));
        lemma_without_absent(before, s);
        assert(before.push(list.last()) =~= list);
    } else {
        assert(list =~= Seq::<Seq<char>>::empty());
    }
}

/// The members of a group are the breaks and joins of its name, and no other match.
pub proof fn law_members_of_a_group(matches: Seq<MatchSetupData>, name: Seq<char>, i: int)
    requires
        0 <= i < matches.len(),
    ensures
        members(matches, name).contains(i) <==> matches[i].name@ == name && (text::opt_text(matches[i].schedule_type)
            == Some("BREAK"@) || text::opt_text(matches[i].schedule_type) == Some("STATBREAK"@) || text::opt_text(
            matches[i].schedule_type,
        ) == Some("JOIN"@)),
{
    let p = member_at(matches, name);
    order::lemma_kept(matches.len(), p);
    let at = members(matches, name);
    if at.contains(i) {
        let k = choose|k: int| 0 <= k < at.len() && at[k] == i;
        assert(p(at[k]));
    }
    if matches[i].name@ == name && teams::structural(text::opt_text(matches[i].schedule_type)) {
        assert(p(i));
    }
}

/// The fields of a group are the fields of its members: each that is not blank, and no others.
pub proof fn law_fields_of_a_group(matches: Seq<MatchSetupData>, at: Seq<int>, field: Seq<char>)
    ensures
        member_fields(matches, at).contains(field) <==> field.len() > 0 && exists|k: int|
            0 <= k < at.len() && text::opt_text(matches[#[trigger] at[k]].field) == Some(field),
    decreases at.len(),
{
    let all = member_fields(matches, at);
    if at.len() > 0 {
        let before_at = at.drop_last();
        let before = member_fields(matches, before_at);
        law_fields_of_a_group(matches, before_at, field);
        if before.contains(field) {
            let k = choose|k: int| 0 <= k < before_at.len() && text::opt_text(matches[#[trigger] before_at[k]].field) == Some(field);
            assert(at[k] == before_at[k]);
            let j = choose|j: int| 0 <= j < before.len() && before[j] == field;
            assert(all[j] == field);
        }
        if all.contains(field) && !before.contains(field) {
            let j = choose|j: int| 0 <= j < all.len() && all[j] == field;
            if j < before.len() {
                assert(before[j] == field);
            }
            assert(text::opt_text(matches[at[at.len() - 1]].field) == Some(field));
        }
        if field.len() > 0 && exists|k: int|
            0 <= k < at.len() && text::opt_text(matches[#[trigger] at[k]].field) == Some(field) {
            let k = choose|k: int| 0 <= k < at.len() && text::opt_text(matches[#[trigger] at[k]].field) == Some(field);
            if k < at.len() - 1 {
                assert(before_at[k] == at[k]);
            } else {
                assert(all[all.len() - 1] == field);
            }
        }
    }
}

/// The form of a group has the fields of all its members, and type, length and start of the first.
pub proof fn law_group_form_shows_the_group(
    f: GroupForm,
    matches: Seq<MatchSetupData>,
    name: Seq<char>,
    tz: int,
    i: int,
)
    requires
        is_group_form(f, matches, name, tz),
        0 <= i < matches.len(),
        matches[i].name@ == name,
        teams::structural(text::opt_text(matches[i].schedule_type)),
    ensures
        matches[i].field matches Some(x) ==> x@.len() > 0 ==> text::texts(f.fields@).contains(x@),
        (forall|j: int|
            0 <= j < i && (#[trigger] matches[j]).name@ == name ==> !teams::structural(text::opt_text(matches[j].schedule_type)))
            ==> Some(f.group_type@) == text::opt_text(matches[i].schedule_type) && (matches[i].nominal_length matches Some(n)
            ==> f.length == n) && (matches[i].nominal_start_time matches Some(t) ==> (schedule_time::local_input_of_utc(
            t@,
            tz,
        ) matches Some(s) ==> f.start_time@ == s)),
        f.sel_type@ == f.group_type@,
{
    let p = member_at(matches, name);
    order::lemma_kept(matches.len(), p);
    let at = members(matches, name);
    assert(p(i));
    let k = choose|k: int| 0 <= k < at.len() && at[k] == i;
    if matches[i].field is Some {
        law_fields_of_a_group(matches, at, matches[i].field->0@);
        assert(text::opt_text(matches[at[k]].field) == Some(matches[i].field->0@));
    }
    assert(p(at[0]));
    if k > 0 {
        assert(at[0] < at[k]);
    }
}

/// A changed group is asked for as its form says: its fields, its length unless it is a join, its start
/// where it is a static break, and a type only where another was chosen.
pub proof fn law_changed_group_is_asked_for_as_entered(q: UpdateBreakGroupRequest, f: GroupForm, tz: int)
    requires
        updates_group(q, f, tz),
    ensures
        q.fields matches Some(x) && x@.len() == f.fields@.len() && forall|k: int|
            0 <= k < x@.len() ==> (#[trigger] x@[k])@ == f.fields@[k]@,
        q.schedule_type is None <==> f.sel_type@ == f.group_type@,
        q.schedule_type matches Some(t) ==> t@ == f.sel_type@,
        f.sel_type@ != "JOIN"@ ==> q.length == Some(f.length),
        f.sel_type@ == "JOIN"@ ==> q.length is None,
        q.start_time is Some <==> f.group_type@ == "STATBREAK"@,
        q.start_time matches Some(x) ==> (schedule_time::utc_iso_of_local(f.start_time@, tz) matches Some(s) ==> x@ == s),
{
    let x = q.fields->0;
    assert(text::texts(x@).len() == text::texts(f.fields@).len());
    assert forall|k: int| 0 <= k < x@.len() implies (#[trigger] x@[k])@ == f.fields@[k]@ by {
        assert(text::texts(x@)[k] == text::texts(f.fields@)[k]);
    }
}

/// A group is accepted exactly if it has a field, and a static break also a start.
pub proof fn law_group_is_accepted_with_what_it_needs(f: GroupForm)
    ensures
        group_error(f) is None <==> f.fields@.len() > 0 && (f.group_type@ == "STATBREAK"@ ==> text::trimmed(f.start_time@).len()
            > 0),
{
}

/// A join is called a join, and every other group a break, in the text that refuses it too.
pub proof fn law_groups_are_called_by_their_kind(f: GroupForm)
    requires
        f.fields@.len() == 0,
    ensures
        f.group_type@ == "JOIN"@ ==> group_noun(f.group_type@) == "join"@,
        f.group_type@ == "BREAK"@ || f.group_type@ == "STATBREAK"@ ==> group_noun(f.group_type@) == "break"@,
        group_error(f) == Some(
            "A "@ + group_noun(f.group_type@)
                + " group needs at least one field. Use Delete to remove it entirely."@,
        ),
{
    reveal_strlit("JOIN");
    reveal_strlit("BREAK");
    reveal_strlit("STATBREAK");
    assert("JOIN"@.len() == 4 && "BREAK"@.len() == 5 && "STATBREAK"@.len() == 9);
}

} // verus!
