//! Fields with their cameras, and tags.
use vstd::prelude::*;
use vstd::utf8::*;
use crate::match_form;
use crate::order;
use crate::teams;
use crate::text;
use crate::match_form::copied;
use crate::teams::or_empty;
use crate::text::{as_deref, concat, contains, list_contains, trim};
use crate::types::{CreateFieldRequest, CreateTagRequest, FieldSetupData, TagSetupData, UpdateFieldRequest};

verus! {

// ---------------------------------------------------------------------------
// Lists of camera addresses
// ---------------------------------------------------------------------------

/// A list of addresses with the one at a position replaced; the list grows with blanks up to it.
pub open spec fn with_address(list: Seq<Seq<char>>, at: int, value: Seq<char>) -> Seq<Seq<char>> {
    if at < list.len() {
        list.update(at, value)
    } else {
        Seq::new(
            (at + 1) as nat,
            |i: int|
                if i == at {
                    value
                } else if i < list.len() {
                    list[i]
                } else {
                    Seq::empty()
                },
        )
    }
}

/// Write an address into the list.
pub fn set_address(list: &mut Vec<String>, at: usize, value: String)
    requires
        at < usize::MAX,
    ensures
        text::texts(final(list)@) == with_address(text::texts(old(list)@), at as int, value@),
{
    let ghost was = text::texts(list@);
    if at < list.len() {
        list.set(at, value);
        assert(text::texts(list@) =~= with_address(was, at as int, value@));
        return;
    }
    while list.len() < at
        invariant
            was.len() <= list@.len() <= at,
            at < usize::MAX,
            forall|i: int| 0 <= i < list@.len() ==> (#[trigger] list@[i])@ == (if i < was.len() {
                was[i]
            } else {
                Seq::empty()
            }),
        decreases at - list@.len(),
    {
        let s = String::new();
        assert(s@ =~= Seq::<char>::empty());
        list.push(s);
    }
    list.push(value);
    assert(text::texts(list@) =~= with_address(was, at as int, value@));
}

/// A list of addresses with the one at a position taken out; the last one stays.
pub open spec fn without_address(list: Seq<Seq<char>>, at: int) -> Seq<Seq<char>> {
    if list.len() > 1 {
        list.remove(at)
    } else {
        list
    }
}

/// Take an address out of the list; the last one stays.
pub fn remove_address(list: &mut Vec<String>, at: usize)
    requires
        old(list)@.len() > 1 ==> at < old(list)@.len(),
    ensures
        text::texts(final(list)@) == without_address(text::texts(old(list)@), at as int),
{
    let ghost was = text::texts(list@);
    if list.len() > 1 {
        list.remove(at);
        assert(text::texts(list@) =~= was.remove(at as int));
    }
}

/// Add a blank address to the list.
pub fn push_address(list: &mut Vec<String>)
    ensures
        text::texts(final(list)@) == text::texts(old(list)@).push(Seq::empty()),
{
    let ghost was = text::texts(list@);
    let s = String::new();
    assert(s@ =~= Seq::<char>::empty());
    list.push(s);
    assert(text::texts(list@) =~= was.push(Seq::empty()));
}

/// The addresses that are sent: those that are not blank, without outer white space.
pub fn addresses_to_send(list: &[String]) -> (r: Vec<String>)
    ensures
        text::texts(r@) == match_form::listed(text::texts(list@)),
{
    let ghost all = text::texts(list@);
    let mut out: Vec<String> = Vec::new();
    let mut i: usize = 0;
    assert(all.take(0) =~= Seq::<Seq<char>>::empty());
    assert(text::texts(out@) =~= Seq::<Seq<char>>::empty());
    while i < list.len()
        invariant
            i <= list@.len(),
            all == text::texts(list@),
            text::texts(out@) == match_form::listed(all.take(i as int)),
        decreases list@.len() - i,
    {
        assert(all.take(i + 1).drop_last() =~= all.take(i as int));
        assert(all.take(i + 1).last() == list@[i as int]@);
        let t = trim(list[i].as_str());
        let ghost was = out@;
        if t.unicode_len() > 0 {
            out.push(t.to_owned());
            assert(text::texts(out@) =~= text::texts(was).push(t@));
        }
        i = i + 1;
    }
    assert(all.take(i as int) =~= all);
    out
}

/// The request for a new field.
pub fn create_field_request(name: &str, addresses: &[String]) -> (r: CreateFieldRequest)
    ensures
        r.name@ == text::trimmed(name@),
        text::texts(r.camera_urls@) == match_form::listed(text::texts(addresses@)),
{
    CreateFieldRequest { name: trim(name).to_owned(), camera_urls: addresses_to_send(addresses) }
}

/// The request for a changed field; the start times of its streams stay.
pub fn update_field_request(name: &str, addresses: &[String]) -> (r: UpdateFieldRequest)
    ensures
        r.name@ == name@,
        text::texts(r.camera_urls@) == match_form::listed(text::texts(addresses@)),
        r.stream_start_times is None,
{
    UpdateFieldRequest {
        name: name.to_owned(),
        camera_urls: addresses_to_send(addresses),
        stream_start_times: None,
    }
}

/// The addresses that the form of a field starts with: its own, or one blank.
pub fn addresses_to_edit(field: &FieldSetupData) -> (r: Vec<String>)
    ensures
        text::texts(r@) == (if field.camera_urls@.len() == 0 {
            seq![Seq::<char>::empty()]
        } else {
            text::texts(field.camera_urls@)
        }),
{
    if field.camera_urls.len() == 0 {
        let mut one: Vec<String> = Vec::new();
        let s = String::new();
        assert(s@ =~= Seq::<char>::empty());
        one.push(s);
        assert(text::texts(one@) =~= seq![Seq::<char>::empty()]);
        one
    } else {
        copied(&field.camera_urls)
    }
}

/// What the form of a new field holds and shows after the service answered. A message replaces the one
/// that is shown; without one that stays.
#[derive(Clone, Debug)]
pub struct FieldFormAfter {
    pub name: String,
    pub addresses: Vec<String>,
    pub refresh: bool,
    pub message: Option<String>,
}

/// After a field was asked for: with success the form starts anew and the page is refreshed; with a
/// failure the form stays as it is and the message is shown.
pub fn after_field_created(answer: Result<(), String>, name: String, addresses: Vec<String>) -> (r: FieldFormAfter)
    ensures
        match answer {
            Ok(_) => r.name@.len() == 0 && text::texts(r.addresses@) == seq![Seq::<char>::empty()] && r.refresh
                && r.message is None,
            Err(e) => r.name@ == name@ && r.addresses@ == addresses@ && !r.refresh && text::opt_text(r.message) == Some(
                e@,
            ),
        },
{
    match answer {
        Ok(_) => {
            let mut rows: Vec<String> = Vec::new();
            assert(text::texts(rows@) =~= Seq::<Seq<char>>::empty());
            push_address(&mut rows);
            assert(text::texts(rows@) =~= seq![Seq::<char>::empty()]);
            let blank_name = String::new();
            assert(blank_name@ =~= Seq::<char>::empty());
            FieldFormAfter { name: blank_name, addresses: rows, refresh: true, message: None }
        },
        Err(e) => FieldFormAfter { name, addresses, refresh: false, message: Some(e) },
    }
}

/// What a field in the list shows after the service answered: whether it is still edited.
#[derive(Clone, Debug)]
pub struct FieldRowAfter {
    pub editing: bool,
    pub refresh: bool,
    pub message: Option<String>,
}

/// After a field was to be changed: it is edited no longer, or, where that failed, still.
pub fn after_field_updated(succeeded: bool) -> (r: FieldRowAfter)
    ensures
        r.editing == !succeeded,
        r.refresh == succeeded,
        text::opt_text(r.message) == (if succeeded {
            None
        } else {
            Some("Failed to update field"@)
        }),
{
    if succeeded {
        FieldRowAfter { editing: false, refresh: true, message: None }
    } else {
        FieldRowAfter { editing: true, refresh: false, message: Some("Failed to update field".to_owned()) }
    }
}

/// After a field was to be deleted. One that is deleted is not being edited, and stays so.
pub fn after_field_deleted(succeeded: bool) -> (r: FieldRowAfter)
    ensures
        !r.editing,
        r.refresh == succeeded,
        text::opt_text(r.message) == (if succeeded {
            None
        } else {
            Some("Cannot delete field with matches"@)
        }),
{
    if succeeded {
        FieldRowAfter { editing: false, refresh: true, message: None }
    } else {
        FieldRowAfter {
            editing: false,
            refresh: false,
            message: Some("Cannot delete field with matches".to_owned()),
        }
    }
}

/// Whatever is written into a list of addresses or taken out of it, there is an input left to write
/// one into.
pub proof fn law_addresses_never_run_out(list: Seq<Seq<char>>, at: int, value: Seq<char>)
    requires
        0 <= at < list.len(),
    ensures
        without_address(list, at).len() >= 1,
        with_address(list, at, value).len() == list.len(),
{
}

// ---------------------------------------------------------------------------
// Cameras
// ---------------------------------------------------------------------------

/// The camera that is previewed: the selected one if there is such a camera, else the first.
pub open spec fn previewed(cameras: Seq<Seq<char>>, selected: Seq<char>) -> Seq<char> {
    if selected.len() > 0 && cameras.contains(selected) {
        selected
    } else if cameras.len() > 0 {
        cameras[0]
    } else {
        Seq::empty()
    }
}

/// The camera that is previewed.
pub fn effective_camera(cameras: &[String], selected: &str) -> (r: String)
    ensures
        r@ == previewed(text::texts(cameras@), selected@),
{
    if selected.unicode_len() > 0 && list_contains(cameras, selected) {
        return selected.to_owned();
    }
    if cameras.len() > 0 {
        assert(text::texts(cameras@)[0] == cameras@[0]@);
        cameras[0].clone()
    } else {
        let s = String::new();
        assert(s@ =~= Seq::<char>::empty());
        s
    }
}

/// The camera to select once the cameras of an open preview are known: none where there are no
/// cameras or the selected one is there.
pub fn camera_to_select(preview_open: bool, cameras: &[String], selected: &str) -> (r: Option<String>)
    ensures
        text::opt_text(r) == (if !preview_open || cameras@.len() == 0 || (selected@.len() > 0 && text::texts(
            cameras@,
        ).contains(selected@)) {
            None
        } else {
            Some(cameras@[0]@)
        }),
{
    if !preview_open || cameras.len() == 0 {
        return None;
    }
    if selected.unicode_len() == 0 || !list_contains(cameras, selected) {
        Some(cameras[0].clone())
    } else {
        None
    }
}

/// A previewed camera is one of the cameras, if there are any.
pub proof fn law_previewed_camera_exists(cameras: Seq<Seq<char>>, selected: Seq<char>)
    requires
        cameras.len() > 0,
    ensures
        cameras.contains(previewed(cameras, selected)),
{
    assert(cameras[0] == cameras[0]);
}

/// A field of the list has an id.
pub open spec fn field_has_id(fields: Seq<FieldSetupData>, id: u32) -> spec_fn(int) -> bool {
    |i: int| fields[i].id == id
}

/// Name of the field with an id; empty where there is none.
pub fn field_label(fields: &[FieldSetupData], id: u32) -> (r: String)
    ensures
        r@ == (match order::first_where(fields@.len(), field_has_id(fields@, id)) {
            Some(i) => fields@[i].name@,
            None => Seq::empty(),
        }),
{
    let ghost p = field_has_id(fields@, id);
    let mut i: usize = 0;
    while i < fields.len()
        invariant
            i <= fields@.len(),
            p == field_has_id(fields@, id),
            order::first_where(i as nat, p) is None,
        decreases fields@.len() - i,
    {
        if fields[i].id == id {
            proof {
                assert(p(i as int));
                assert(order::first_where((i + 1) as nat, p) == Some(i as int));
                order::lemma_first_where_stays((i + 1) as nat, fields@.len(), p);
            }
            return fields[i].name.clone();
        }
        assert(!p(i as int));
        i = i + 1;
    }
    let s = String::new();
    assert(s@ =~= Seq::<char>::empty());
    s
}

/// A byte that stands for itself in an address.
pub open spec fn stands_for_itself(b: u8) -> bool {
    ||| 0x30 <= b <= 0x39
    ||| 0x41 <= b <= 0x5a
    ||| 0x61 <= b <= 0x7a
    ||| b == 0x2d
    ||| b == 0x2e
    ||| b == 0x5f
    ||| b == 0x7e
}

/// A hexadecimal digit, in upper case.
pub open spec fn hex_digit(n: int) -> char {
    if n < 10 {
        (48 + n) as char
    } else {
        (55 + n) as char
    }
}

/// A byte as it is written in an address.
pub open spec fn percent_byte(b: u8) -> Seq<char> {
    if stands_for_itself(b) {
        seq![b as char]
    } else {
        seq!['%', hex_digit(b as int / 16), hex_digit(b as int % 16)]
    }
}

/// Bytes as they are written in an address.
pub open spec fn percent_encoded(bytes: Seq<u8>) -> Seq<char>
    decreases bytes.len(),
{
    if bytes.len() == 0 {
        Seq::empty()
    } else {
        percent_encoded(bytes.drop_last()) + percent_byte(bytes.last())
    }
}

/// `urlencoding::encode`.
///
/// Trusted: every byte of the text but ASCII letters, digits, `-`, `.`, `_` and `~` becomes a percent
/// sign and two hexadecimal digits in upper case; those stay as they are.
#[verifier::external_body]
pub(crate) fn percent_encode(s: &str) -> (r: String)
    ensures
        r@ == percent_encoded(encode_utf8(s@)),
{
    urlencoding::encode(s).into_owned()
}

/// Address of the picture of a code that holds an address.
pub fn qr_code_url(url: &str) -> (r: String)
    ensures
        r@ == "https://api.qrserver.com/v1/create-qr-code/?size=200x200&data="@ + percent_encoded(
            encode_utf8(url@),
        ),
{
    concat(
        "https://api.qrserver.com/v1/create-qr-code/?size=200x200&data=",
        percent_encode(url).as_str(),
    )
}

// ---------------------------------------------------------------------------
// Tags
// ---------------------------------------------------------------------------

/// What is wrong with the name of a new tag.
pub open spec fn tag_error(name: Seq<char>) -> Option<Seq<char>> {
    if text::trimmed(name).len() == 0 {
        Some("Tag name is required."@)
    } else if text::contains_text(text::trimmed(name), "::"@) {
        Some("Tag name cannot contain \"::\"."@)
    } else {
        None
    }
}

/// The request for a new tag; what is wrong with its name where there is none.
pub fn create_tag_request(name: &str) -> (r: Result<CreateTagRequest, &'static str>)
    ensures
        match tag_error(name@) {
            Some(e) => r matches Err(x) && x@ == e,
            None => r matches Ok(q) && q.name@ == text::trimmed(name@),
        },
{
    let t = trim(name);
    if t.unicode_len() == 0 {
        return Err("Tag name is required.");
    }
    if contains(t, "::") {
        return Err("Tag name cannot contain \"::\".");
    }
    Ok(CreateTagRequest { name: t.to_owned() })
}

/// A tag of the list has an id.
pub open spec fn tag_has_id(tags: Seq<TagSetupData>, id: u32) -> spec_fn(int) -> bool {
    |i: int| tags[i].id == id
}

/// The team of the tag with an id: of several, the last; empty where there is none.
pub fn tag_team(tags: &[TagSetupData], id: u32) -> (r: String)
    ensures
        r@ == (match order::last_where(tags@.len(), tag_has_id(tags@, id)) {
            Some(i) => teams::text_or_empty(text::opt_text(tags@[i].team)),
            None => Seq::empty(),
        }),
{
    let ghost p = tag_has_id(tags@, id);
    let mut i: usize = tags.len();
    while i > 0
        invariant
            i <= tags@.len(),
            p == tag_has_id(tags@, id),
            order::last_where(tags@.len(), p) == order::last_where(i as nat, p),
        decreases i,
    {
        i = i - 1;
        if tags[i].id == id {
            assert(p(i as int));
            return or_empty(as_deref(&tags[i].team)).to_owned();
        }
        assert(!p(i as int));
    }
    let s = String::new();
    assert(s@ =~= Seq::<char>::empty());
    s
}

/// The team that a tag shows while it is being changed: the new one, and the old one again where the
/// change failed.
pub fn tag_team_after(requested: &str, previous: &str, failed: bool) -> (r: String)
    ensures
        r@ == (if failed {
            previous@
        } else {
            requested@
        }),
{
    if failed {
        previous.to_owned()
    } else {
        requested.to_owned()
    }
}

/// What an input of a tag holds after the service answered: its text, and what is to be done.
#[derive(Clone, Debug)]
pub struct TagInputAfter {
    pub text: String,
    pub refresh: bool,
    pub message: Option<String>,
}

/// After a tag was asked for: with success the input for its name is blank again.
pub fn after_tag_created(answer: Result<(), String>, name: String) -> (r: TagInputAfter)
    ensures
        match answer {
            Ok(_) => r.text@.len() == 0 && r.refresh && r.message is None,
            Err(e) => r.text@ == name@ && !r.refresh && text::opt_text(r.message) == Some(e@),
        },
{
    match answer {
        Ok(_) => {
            let blank_name = String::new();
            assert(blank_name@ =~= Seq::<char>::empty());
            TagInputAfter { text: blank_name, refresh: true, message: None }
        },
        Err(e) => TagInputAfter { text: name, refresh: false, message: Some(e) },
    }
}

/// After a tag was to get another team: with success it shows that one, with a failure the old one.
pub fn after_tag_assigned(answer: Result<(), String>, requested: &str, previous: &str) -> (r: TagInputAfter)
    ensures
        match answer {
            Ok(_) => r.text@ == requested@ && r.refresh && r.message is None,
            Err(e) => r.text@ == previous@ && !r.refresh && text::opt_text(r.message) == Some(e@),
        },
{
    let text = tag_team_after(requested, previous, answer.is_err());
    match answer {
        Ok(_) => TagInputAfter { text, refresh: true, message: None },
        Err(e) => TagInputAfter { text, refresh: false, message: Some(e) },
    }
}

// ---------------------------------------------------------------------------
// What the lists are for
// ---------------------------------------------------------------------------

/// Writing an address changes that one and no other; the inputs that are new before it are blank.
pub proof fn law_one_address_is_written(list: Seq<Seq<char>>, at: int, value: Seq<char>, other: int)
    requires
        0 <= at,
        0 <= other < list.len(),
        other != at,
    ensures
        with_address(list, at, value)[at] == value,
        with_address(list, at, value)[other] == list[other],
        with_address(list, at, value).len() == (if at < list.len() {
            list.len() as int
        } else {
            at + 1
        }),
        forall|i: int| list.len() <= i < at ==> (#[trigger] with_address(list, at, value)[i]).len() == 0,
{
}

/// Taking an address out leaves the others in their order; a new one is taken out again without trace.
pub proof fn law_one_address_is_taken_out(list: Seq<Seq<char>>, at: int)
    requires
        list.len() > 1,
        0 <= at < list.len(),
    ensures
        without_address(list, at).len() == list.len() - 1,
        forall|i: int| 0 <= i < at ==> #[trigger] without_address(list, at)[i] == list[i],
        forall|i: int| at <= i < list.len() - 1 ==> #[trigger] without_address(list, at)[i] == list[i + 1],
        without_address(list.push(Seq::empty()), list.len() as int) == list,
{
    assert(list.push(Seq::empty()).remove(list.len() as int) =~= list);
}

/// A camera that was selected is previewed as long as it is there; otherwise the first is.
pub proof fn law_selected_camera_is_previewed(cameras: Seq<Seq<char>>, selected: Seq<char>)
    ensures
        selected.len() > 0 && cameras.contains(selected) ==> previewed(cameras, selected) == selected,
        cameras.len() > 0 && !cameras.contains(selected) ==> previewed(cameras, selected) == cameras[0],
        cameras.len() == 0 ==> previewed(cameras, selected).len() == 0,
{
}

/// A tag is accepted exactly if its name is not blank and does not hold the mark that parts a tag from
/// its name.
pub proof fn law_tag_names(name: Seq<char>)
    ensures
        tag_error(name) is None <==> text::trimmed(name).len() > 0 && !(exists|i: int|
            0 <= i && i + 1 < text::trimmed(name).len() && (#[trigger] text::trimmed(name)[i]) == ':' && text::trimmed(name)[i + 1]
                == ':'),
{
    reveal_strlit("::");
    let s = text::trimmed(name);
    if text::contains_text(s, "::"@) {
        let i = choose|i: int| text::occurs_at(s, "::"@, i);
        assert(s.subrange(i, i + 2)[0] == "::"@[0] && s.subrange(i, i + 2)[1] == "::"@[1]);
        assert(s[i] == ':' && s[i + 1] == ':');
    }
    if exists|i: int| 0 <= i && i + 1 < s.len() && (#[trigger] s[i]) == ':' && s[i + 1] == ':' {
        let i = choose|i: int| 0 <= i && i + 1 < s.len() && (#[trigger] s[i]) == ':' && s[i + 1] == ':';
        assert(s.subrange(i, i + 2) =~= "::"@);
        assert(text::occurs_at(s, "::"@, i));
    }
}

} // verus!
