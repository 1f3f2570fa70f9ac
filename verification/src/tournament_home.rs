//! The home page of a tournament.
use vstd::prelude::*;
use crate::text;
use crate::text::{concat, concat3, opt_str_eq, str_eq, up_to_first};
use crate::types::{ToEntry, UnattachedPlayer, User};

verus! {

/// An entry of the list of organisers is a user.
pub open spec fn is_entry_of(e: ToEntry, u: User) -> bool {
    e.user_id@ == u.id@ && e.user_type@ == u.user_type@
}

/// Whether a user is among the organisers; nobody is where no user is known.
pub fn is_current_user_to(me: Option<&User>, to_entries: &[ToEntry]) -> (r: bool)
    ensures
        r == (me matches Some(u) && exists|i: int|
            0 <= i < to_entries@.len() && is_entry_of(#[trigger] to_entries@[i], *u)),
{
    match me {
        Some(u) => {
            let mut i: usize = 0;
            while i < to_entries.len()
                invariant
                    i <= to_entries@.len(),
                    me == Some(u),
                    forall|j: int| 0 <= j < i ==> !is_entry_of(#[trigger] to_entries@[j], *u),
                decreases to_entries@.len() - i,
            {
                if str_eq(to_entries[i].user_id.as_str(), u.id.as_str()) && str_eq(
                    to_entries[i].user_type.as_str(),
                    u.user_type.as_str(),
                ) {
                    assert(is_entry_of(to_entries@[i as int], *u));
                    return true;
                }
                i = i + 1;
            }
            false
        },
        None => false,
    }
}

/// The date of an ISO time: what comes before its `T`.
pub fn format_date(iso: &str) -> (r: String)
    ensures
        r@ == text::before_first(iso@, 'T'),
{
    up_to_first(iso, 'T').to_owned()
}

/// The dates of a tournament: one, or from one to another.
pub open spec fn dates_text(start: Seq<char>, end: Option<Seq<char>>) -> Seq<char> {
    match end {
        None => text::before_first(start, 'T'),
        Some(e) => if e == start {
            text::before_first(start, 'T')
        } else {
            text::before_first(start, 'T') + " - "@ + text::before_first(e, 'T')
        },
    }
}

/// The dates of a tournament.
pub fn format_date_display(start: &str, end: Option<&str>) -> (r: String)
    ensures
        r@ == dates_text(start@, text::opt_slice(end)),
{
    match end {
        None => format_date(start),
        Some(e) => if str_eq(e, start) {
            format_date(start)
        } else {
            concat3(format_date(start).as_str(), " - ", format_date(e).as_str())
        },
    }
}

/// A date holds no `T`, and an ISO time starts with its date.
pub proof fn law_date_is_the_start(iso: Seq<char>)
    ensures
        !text::before_first(iso, 'T').contains('T'),
        text::before_first(iso, 'T').len() <= iso.len(),
        text::before_first(iso, 'T') == iso.take(text::before_first(iso, 'T').len() as int),
    decreases iso.len(),
{
    if iso.len() == 0 || iso[0] == 'T' {
        assert(iso.take(0) =~= Seq::<char>::empty());
    } else {
        law_date_is_the_start(iso.drop_first());
        let rest = text::before_first(iso.drop_first(), 'T');
        let r = text::before_first(iso, 'T');
        assert(r =~= seq![iso[0]] + rest);
        if r.contains('T') {
            let i = choose|i: int| 0 <= i < r.len() && r[i] == 'T';
            assert(rest[i - 1] == 'T');
        }
        assert(r =~= iso.take(r.len() as int));
    }
}

/// The line under the name of a tournament: where and when.
pub fn event_subtitle(location: Option<&str>, start: &str, end: Option<&str>) -> (r: String)
    ensures
        r@ == (match text::opt_slice(location) {
            Some(l) => l,
            None => "Location TBA"@,
        }) + " • "@ + dates_text(start@, text::opt_slice(end)),
{
    let place = match location {
        Some(l) => l,
        None => "Location TBA",
    };
    concat3(place, " • ", format_date_display(start, end).as_str())
}

/// What the registration button of a tournament offers.
#[derive(Clone, Copy, Debug, PartialEq, Eq, Structural)]
pub enum RegistrationButton {
    EditTeam,
    EditPlayer,
    Register,
    TeamClosed,
    PlayerClosed,
    Closed,
    SignIn,
}

/// What the registration button offers to a user.
pub open spec fn button_for(
    user_type: Option<Seq<char>>,
    team_registered: bool,
    player_registered: bool,
    team_open: bool,
    player_open: bool,
) -> RegistrationButton {
    match user_type {
        None => RegistrationButton::SignIn,
        Some(t) => if t == "team"@ {
            if team_registered {
                RegistrationButton::EditTeam
            } else if team_open {
                RegistrationButton::Register
            } else {
                RegistrationButton::TeamClosed
            }
        } else if t == "player"@ {
            if player_registered {
                RegistrationButton::EditPlayer
            } else if player_open {
                RegistrationButton::Register
            } else {
                RegistrationButton::PlayerClosed
            }
        } else if team_open || player_open {
            RegistrationButton::Register
        } else {
            RegistrationButton::Closed
        },
    }
}

/// What the registration button of a tournament offers.
pub fn registration_button(
    user_type: Option<&str>,
    team_registered: bool,
    player_registered: bool,
    team_open: bool,
    player_open: bool,
) -> (r: RegistrationButton)
    ensures
        r == button_for(
            text::opt_slice(user_type),
            team_registered,
            player_registered,
            team_open,
            player_open,
        ),
{
    match user_type {
        None => RegistrationButton::SignIn,
        Some(t) => if str_eq(t, "team") {
            if team_registered {
                RegistrationButton::EditTeam
            } else if team_open {
                RegistrationButton::Register
            } else {
                RegistrationButton::TeamClosed
            }
        } else if str_eq(t, "player") {
            if player_registered {
                RegistrationButton::EditPlayer
            } else if player_open {
                RegistrationButton::Register
            } else {
                RegistrationButton::PlayerClosed
            }
        } else if team_open || player_open {
            RegistrationButton::Register
        } else {
            RegistrationButton::Closed
        },
    }
}

/// Text of the registration button.
pub fn registration_label(button: RegistrationButton) -> (r: &'static str)
    ensures
        r@ == (match button {
            RegistrationButton::EditTeam => "Edit Registration"@,
            RegistrationButton::EditPlayer => "Edit Registration"@,
            RegistrationButton::Register => "Register"@,
            RegistrationButton::TeamClosed => "Team registration closed"@,
            RegistrationButton::PlayerClosed => "Player registration closed"@,
            RegistrationButton::Closed => "Registration closed"@,
            RegistrationButton::SignIn => "Sign in to register"@,
        }),
{
    match button {
        RegistrationButton::EditTeam => "Edit Registration",
        RegistrationButton::EditPlayer => "Edit Registration",
        RegistrationButton::Register => "Register",
        RegistrationButton::TeamClosed => "Team registration closed",
        RegistrationButton::PlayerClosed => "Player registration closed",
        RegistrationButton::Closed => "Registration closed",
        RegistrationButton::SignIn => "Sign in to register",
    }
}

/// Registration is offered only where it is open, to the kind of user that it is open for.
pub proof fn law_register_only_where_open(
    user_type: Option<Seq<char>>,
    team_registered: bool,
    player_registered: bool,
    team_open: bool,
    player_open: bool,
)
    ensures
        button_for(user_type, team_registered, player_registered, team_open, player_open)
            == RegistrationButton::Register ==> user_type is Some && (team_open || player_open) && (
        user_type == Some("team"@) ==> team_open && !team_registered) && (user_type == Some("player"@)
            ==> player_open && !player_registered),
{
    reveal_strlit("team");
    reveal_strlit("player");
    assert("team"@.len() != "player"@.len());
}

/// How the bracket of a tournament is linked: for all where it is published, for organisers always.
#[derive(Clone, Copy, Debug, PartialEq, Eq, Structural)]
pub enum BracketLink {
    Public,
    Unpublished,
    Hidden,
}

/// How the bracket is linked.
pub open spec fn link_of(published: bool, viewer_is_to: bool) -> BracketLink {
    if published {
        BracketLink::Public
    } else if viewer_is_to {
        BracketLink::Unpublished
    } else {
        BracketLink::Hidden
    }
}

/// A bracket is public exactly if it is published; an organiser always sees it, nobody else before that.
pub proof fn law_who_sees_the_bracket(published: bool, viewer_is_to: bool)
    ensures
        link_of(published, viewer_is_to) == BracketLink::Public <==> published,
        link_of(published, viewer_is_to) == BracketLink::Hidden <==> !published && !viewer_is_to,
        link_of(published, true) != BracketLink::Hidden,
{
}

/// How the bracket is linked.
pub fn bracket_link(published: bool, viewer_is_to: bool) -> (r: BracketLink)
    ensures
        r == link_of(published, viewer_is_to),
{
    if published {
        BracketLink::Public
    } else if viewer_is_to {
        BracketLink::Unpublished
    } else {
        BracketLink::Hidden
    }
}

/// The tab that is open: the chosen one, else the one that the address names, else the general one.
pub fn active_info_tab(chosen: Option<&str>, initial: Option<&str>) -> (r: String)
    ensures
        r@ == (match text::opt_slice(chosen) {
            Some(t) => t,
            None => if text::opt_slice(initial) == Some("sidecomps"@) {
                "sidecomps"@
            } else {
                "info"@
            },
        }),
{
    match chosen {
        Some(t) => t.to_owned(),
        None => if opt_str_eq(initial, "sidecomps") {
            "sidecomps".to_owned()
        } else {
            "info".to_owned()
        },
    }
}

/// What is written on the jersey of a player.
pub open spec fn jersey(number: Option<Seq<char>>, name: Option<Seq<char>>) -> Option<Seq<char>> {
    match (number, name) {
        (Some(n), Some(x)) => Some("#"@ + n + " "@ + x),
        (None, Some(x)) => Some(x),
        (Some(n), None) => Some("#"@ + n),
        (None, None) => None,
    }
}

/// What is written on the jersey of an unattached player, if anything is known of it.
pub fn jersey_text(p: &UnattachedPlayer) -> (r: Option<String>)
    ensures
        text::opt_text(r) == jersey(text::opt_text(p.jersey_number), text::opt_text(p.jersey_name)),
{
    match (&p.jersey_number, &p.jersey_name) {
        (Some(n), Some(x)) => {
            let mut s = concat3("#", n.as_str(), " ");
            s.append(x.as_str());
            Some(s)
        },
        (None, Some(x)) => Some(x.clone()),
        (Some(n), None) => Some(concat("#", n.as_str())),
        (None, None) => None,
    }
}

/// A tournament can be deleted once its address has been typed.
pub fn delete_confirmed(typed: &str, url: &str) -> (r: bool)
    ensures
        r == (typed@ == url@),
{
    str_eq(typed, url)
}

/// What follows the request to delete a tournament.
#[derive(Clone, Debug)]
pub enum AfterDelete {
    GoToLeague(String),
    GoHome,
    Stay(String),
}

/// What follows the request to delete a tournament: to its league or home where it was deleted, else
/// what went wrong.
pub fn after_delete(
    answer: Result<bool, String>,
    error: Option<&str>,
    league_url: Option<&str>,
) -> (r: AfterDelete)
    ensures
        match answer {
            Ok(success) => if success {
                match text::opt_slice(league_url) {
                    Some(l) => r matches AfterDelete::GoToLeague(x) && x@ == l,
                    None => r is GoHome,
                }
            } else {
                r matches AfterDelete::Stay(e) && e@ == (match text::opt_slice(error) {
                    Some(x) => x,
                    None => "Delete failed."@,
                })
            },
            Err(e) => r matches AfterDelete::Stay(x) && x@ == e@,
        },
{
    match answer {
        Ok(success) => if success {
            match league_url {
                Some(l) => AfterDelete::GoToLeague(l.to_owned()),
                None => AfterDelete::GoHome,
            }
        } else {
            match error {
                Some(e) => AfterDelete::Stay(e.to_owned()),
                None => AfterDelete::Stay("Delete failed.".to_owned()),
            }
        },
        Err(e) => AfterDelete::Stay(e),
    }
}

/// The question to confirm before a side competition is deleted.
pub fn sidecomp_delete_question(name: &str) -> (r: String)
    ensures
        r@ == "Delete '"@ + name@ + "'? This cannot be undone."@,
{
    concat3("Delete '", name, "'? This cannot be undone.")
}

/// The dates begin with that of the start and end with that of the end; a tournament of one day has one.
pub proof fn law_dates_run_from_start_to_end(start: Seq<char>, end: Seq<char>)
    ensures
        dates_text(start, None) == text::before_first(start, 'T'),
        dates_text(start, Some(start)) == text::before_first(start, 'T'),
        ({
            let from = text::before_first(start, 'T');
            let t = dates_text(start, Some(end));
            &&& t.len() >= from.len() && t.take(from.len() as int) == from
            &&& start != end ==> text::ends_with(t, text::before_first(end, 'T')) && t.len() > from.len()
        }),
{
    reveal_strlit(" - ");
    let from = text::before_first(start, 'T');
    let to = text::before_first(end, 'T');
    let t = dates_text(start, Some(end));
    assert(t.take(from.len() as int) =~= from);
    if start != end {
        assert(t.skip(t.len() - to.len()) =~= to);
    }
}

/// Whoever is registered can edit the registration, whoever is not can register while it is open for
/// them, and a visitor is asked to sign in.
pub proof fn law_what_the_button_offers(
    team_registered: bool,
    player_registered: bool,
    team_open: bool,
    player_open: bool,
)
    ensures
        button_for(None, team_registered, player_registered, team_open, player_open) == RegistrationButton::SignIn,
        button_for(Some("team"@), true, player_registered, team_open, player_open) == RegistrationButton::EditTeam,
        button_for(Some("player"@), team_registered, true, team_open, player_open) == RegistrationButton::EditPlayer,
        button_for(Some("team"@), false, player_registered, true, player_open) == RegistrationButton::Register,
        button_for(Some("player"@), team_registered, false, team_open, true) == RegistrationButton::Register,
        button_for(Some("team"@), false, player_registered, false, player_open) == RegistrationButton::TeamClosed,
        button_for(Some("player"@), team_registered, false, team_open, false) == RegistrationButton::PlayerClosed,
{
    reveal_strlit("team");
    reveal_strlit("player");
    assert("team"@.len() == 4 && "player"@.len() == 6);
}

/// Anyone else can register while anything is open.
pub proof fn law_what_others_are_offered(
    user_type: Seq<char>,
    team_registered: bool,
    player_registered: bool,
    team_open: bool,
    player_open: bool,
)
    requires
        user_type != "team"@,
        user_type != "player"@,
    ensures
        button_for(Some(user_type), team_registered, player_registered, team_open, player_open) == (if team_open
            || player_open {
            RegistrationButton::Register
        } else {
            RegistrationButton::Closed
        }),
{
}

/// A jersey shows what is known of it: the number after a hash, the name at the end.
pub proof fn law_jersey_shows_what_is_known(number: Seq<char>, name: Seq<char>)
    ensures
        jersey(None, None) is None,
        jersey(None, Some(name)) == Some(name),
        jersey(Some(number), None) == Some(seq!['#'] + number),
        jersey(Some(number), Some(name)) == Some(seq!['#'] + number + seq![' '] + name),
{
    reveal_strlit("#");
    reveal_strlit(" ");
    assert("#"@ =~= seq!['#']);
    assert(" "@ =~= seq![' ']);
}

} // verus!
