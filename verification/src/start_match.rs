//! Starting a match: the players of both sides.
use vstd::prelude::*;
use crate::group_form;
use crate::match_form;
use crate::order;
use crate::schedule_time;
use crate::teams;
use crate::text;
use crate::group_form::check_field;
use crate::match_form::{copied, opt_if_any};
use crate::teams::or_empty;
use crate::text::{as_deref, concat, concat3, contains, decimal_text, join, list_contains, str_eq, to_lowercase, trim, trim_start_char};
use crate::types::{StartMatchPlayer, StartMatchRequest};

verus! {

/// Who can play and who plays, for both sides. Neither selection holds anyone twice.
#[derive(Clone, Debug)]
pub struct Lineups {
    pub team1_all: Vec<String>,
    pub team2_all: Vec<String>,
    pub team1_selected: Vec<String>,
    pub team2_selected: Vec<String>,
}

/// A side of a match.
#[derive(Clone, Copy, Debug, PartialEq, Eq, Structural)]
pub enum Side {
    One,
    Two,
}

/// The list with `s`, at its end if it is new.
pub open spec fn with_one(list: Seq<Seq<char>>, s: Seq<char>) -> Seq<Seq<char>> {
    if list.contains(s) {
        list
    } else {
        list.push(s)
    }
}

/// The ids of players, each once, in the order in which they first come.
pub open spec fn distinct_ids(players: Seq<StartMatchPlayer>) -> Seq<Seq<char>>
    decreases players.len(),
{
    if players.len() == 0 {
        Seq::empty()
    } else {
        with_one(distinct_ids(players.drop_last()), players.last().id@)
    }
}

/// The ids of players, in order.
pub open spec fn player_ids(players: Seq<StartMatchPlayer>) -> Seq<Seq<char>> {
    Seq::new(players.len(), |i: int| players[i].id@)
}

/// Nobody stands in both lists.
pub open spec fn apart(a: Seq<Seq<char>>, b: Seq<Seq<char>>) -> bool {
    forall|s: Seq<char>| !(#[trigger] a.contains(s) && b.contains(s))
}

fn push_new(list: &mut Vec<String>, s: &str)
    ensures
        text::texts(final(list)@) == with_one(text::texts(old(list)@), s@),
{
    if !list_contains(list.as_slice(), s) {
        let ghost was = text::texts(list@);
        list.push(s.to_owned());
        assert(text::texts(list@) =~= was.push(s@));
    }
}

fn ids_once(players: &[StartMatchPlayer]) -> (r: Vec<String>)
    ensures
        text::texts(r@) == distinct_ids(players@),
{
    let mut out: Vec<String> = Vec::new();
    let mut i: usize = 0;
    assert(players@.take(0) =~= Seq::<StartMatchPlayer>::empty());
    assert(text::texts(out@) =~= Seq::<Seq<char>>::empty());
    while i < players.len()
        invariant
            i <= players@.len(),
            text::texts(out@) == distinct_ids(players@.take(i as int)),
        decreases players@.len() - i,
    {
        assert(players@.take(i + 1).drop_last() =~= players@.take(i as int));
        push_new(&mut out, players[i].id.as_str());
        i = i + 1;
    }
    assert(players@.take(i as int) =~= players@);
    out
}

fn ids_of(players: &[StartMatchPlayer]) -> (r: Vec<String>)
    ensures
        text::texts(r@) == player_ids(players@),
{
    let mut out: Vec<String> = Vec::new();
    let mut i: usize = 0;
    while i < players.len()
        invariant
            i <= players@.len(),
            out@.len() == i,
            forall|k: int| 0 <= k < i ==> (#[trigger] out@[k])@ == players@[k].id@,
        decreases players@.len() - i,
    {
        out.push(players[i].id.clone());
        i = i + 1;
    }
    assert(text::texts(out@) =~= player_ids(players@));
    out
}

/// The two selections.
pub open spec fn selections(l: Lineups) -> (Seq<Seq<char>>, Seq<Seq<char>>) {
    (text::texts(l.team1_selected@), text::texts(l.team2_selected@))
}

/// The selections after a player was selected for a side or taken out of it. One who is selected for
/// a side leaves the other: nobody plays for both.
pub open spec fn selection_after(
    own: Seq<Seq<char>>,
    other: Seq<Seq<char>>,
    id: Seq<char>,
    select: bool,
) -> (Seq<Seq<char>>, Seq<Seq<char>>) {
    if select {
        (with_one(own, id), group_form::without(other, id))
    } else {
        (group_form::without(own, id), other)
    }
}

/// The line-ups that a match starts with.
pub open spec fn is_first_lineup(r: Lineups, team1: Seq<StartMatchPlayer>, team2: Seq<StartMatchPlayer>) -> bool {
    &&& text::texts(r.team1_all@) == player_ids(team1)
    &&& text::texts(r.team2_all@) == player_ids(team2)
    &&& text::texts(r.team1_selected@) == distinct_ids(team1)
    &&& text::texts(r.team2_selected@) == distinct_ids(team2)
}

/// The line-ups after a player was selected for a side or taken out of it.
pub open spec fn is_toggled(r: Lineups, l: Lineups, side: Side, id: Seq<char>, select: bool) -> bool {
    &&& text::texts(r.team1_all@) == text::texts(l.team1_all@)
    &&& text::texts(r.team2_all@) == text::texts(l.team2_all@)
    &&& side == Side::One ==> selections(r) == selection_after(
        text::texts(l.team1_selected@),
        text::texts(l.team2_selected@),
        id,
        select,
    )
    &&& side == Side::Two ==> (text::texts(r.team2_selected@), text::texts(r.team1_selected@)) == selection_after(
        text::texts(l.team2_selected@),
        text::texts(l.team1_selected@),
        id,
        select,
    )
}

/// The line-ups after a player was added to those who can play for a side.
pub open spec fn is_player_added(r: Lineups, l: Lineups, side: Side, id: Seq<char>) -> bool {
    &&& side == Side::One ==> text::texts(r.team1_all@) == with_one(text::texts(l.team1_all@), id) && r.team2_all == l.team2_all
    &&& side == Side::Two ==> text::texts(r.team2_all@) == with_one(text::texts(l.team2_all@), id) && r.team1_all == l.team1_all
    &&& r.team1_selected == l.team1_selected
    &&& r.team2_selected == l.team2_selected
}

impl Lineups {
    /// The line-ups that a match starts with: everyone of a side can play and plays.
    pub fn new(team1: &[StartMatchPlayer], team2: &[StartMatchPlayer]) -> (r: Lineups)
        ensures
            is_first_lineup(r, team1@, team2@),
    {
        Lineups {
            team1_all: ids_of(team1),
            team2_all: ids_of(team2),
            team1_selected: ids_once(team1),
            team2_selected: ids_once(team2),
        }
    }

    /// Select a player for a side, or take them out of it.
    pub fn toggle(self, side: Side, id: &str, select: bool) -> (r: Lineups)
        ensures
            is_toggled(r, self, side, id@, select),
    {
        let (own, other) = match side {
            Side::One => (self.team1_selected, self.team2_selected),
            Side::Two => (self.team2_selected, self.team1_selected),
        };
        let mut own = own;
        let (own, other) = if select {
            push_new(&mut own, id);
            (own, check_field(other, id, false))
        } else {
            (check_field(own, id, false), other)
        };
        match side {
            Side::One => Lineups {
                team1_all: self.team1_all,
                team2_all: self.team2_all,
                team1_selected: own,
                team2_selected: other,
            },
            Side::Two => Lineups {
                team1_all: self.team1_all,
                team2_all: self.team2_all,
                team1_selected: other,
                team2_selected: own,
            },
        }
    }

    /// Add a player to those who can play for a side.
    pub fn add_player(&mut self, side: Side, id: &str)
        ensures
            is_player_added(*final(self), *old(self), side, id@),
    {
        match side {
            Side::One => push_new(&mut self.team1_all, id),
            Side::Two => push_new(&mut self.team2_all, id),
        }
    }
}

proof fn lemma_without_keeps_distinct(list: Seq<Seq<char>>, s: Seq<char>)
    requires
        list.no_duplicates(),
    ensures
        group_form::without(list, s).no_duplicates(),
    decreases list.len(),
{
    if list.len() > 0 {
        let shorter = list.drop_last();
        assert(shorter.no_duplicates()) by {
            assert forall|i: int, j: int|
                0 <= i < shorter.len() && 0 <= j < shorter.len() && i != j implies shorter[i]
                != shorter[j] by {
                assert(list[i] != list[j]);
            }
        }
        lemma_without_keeps_distinct(shorter, s);
        group_form::law_checked_fields(shorter, s, list.last(), false);
        let before = group_form::without(shorter, s);
        let r = group_form::without(list, s);
        if list.last() != s {
            assert(!shorter.contains(list.last())) by {
                if shorter.contains(list.last()) {
                    let k = choose|k: int| 0 <= k < shorter.len() && shorter[k] == list.last();
                    assert(list[k] == list[list.len() - 1]);
                }
            }
            assert(!before.contains(list.last()));
            assert forall|i: int, j: int| 0 <= i < r.len() && 0 <= j < r.len() && i != j implies r[i]
                != r[j] by {
                if i == before.len() {
                    assert(before[j] == r[j]);
                    assert(before.contains(r[j]));
                } else if j == before.len() {
                    assert(before[i] == r[i]);
                    assert(before.contains(r[i]));
                }
            }
        }
    }
}

/// Where nobody stands in both selections, nobody does after any selection; no selection ever holds
/// anyone twice.
pub proof fn law_nobody_plays_for_both(
    own: Seq<Seq<char>>,
    other: Seq<Seq<char>>,
    id: Seq<char>,
    select: bool,
)
    requires
        apart(own, other),
        own.no_duplicates(),
        other.no_duplicates(),
    ensures
        ({
            let (a, b) = selection_after(own, other, id, select);
            apart(a, b) && a.no_duplicates() && b.no_duplicates()
        }),
{
    let (a, b) = selection_after(own, other, id, select);
    assert forall|s: Seq<char>| !(#[trigger] a.contains(s) && b.contains(s)) by {
        group_form::law_checked_fields(other, id, s, false);
        group_form::law_checked_fields(own, id, s, false);
        group_form::law_checked_fields(own, id, s, true);
    }
    lemma_without_keeps_distinct(own, id);
    lemma_without_keeps_distinct(other, id);
    if select && !own.contains(id) {
        assert forall|i: int, j: int| 0 <= i < a.len() && 0 <= j < a.len() && i != j implies a[i] != a[j] by {
            if i == own.len() {
                assert(own[j] == a[j]);
            } else if j == own.len() {
                assert(own[i] == a[i]);
            }
        }
    }
}

/// The selections that a match starts with hold everyone of a side, and nobody twice.
pub proof fn law_starting_selection_is_distinct(players: Seq<StartMatchPlayer>)
    ensures
        distinct_ids(players).no_duplicates(),
        forall|s: Seq<char>| #[trigger] distinct_ids(players).contains(s) <==> player_ids(players).contains(s),
    decreases players.len(),
{
    let all = player_ids(players);
    let r = distinct_ids(players);
    if players.len() > 0 {
        law_starting_selection_is_distinct(players.drop_last());
        let shorter = player_ids(players.drop_last());
        let before = distinct_ids(players.drop_last());
        let id = players.last().id@;
        assert(all =~= shorter.push(id));
        assert forall|s: Seq<char>| all.contains(s) <==> shorter.contains(s) || s == id by {
            if shorter.contains(s) {
                let k = choose|k: int| 0 <= k < shorter.len() && shorter[k] == s;
                assert(all[k] == s);
            }
            if s == id {
                assert(all[all.len() - 1] == s);
            }
        }
        assert forall|s: Seq<char>| #[trigger] r.contains(s) <==> before.contains(s) || s == id by {
            if before.contains(s) {
                let k = choose|k: int| 0 <= k < before.len() && before[k] == s;
                assert(r[k] == s);
            }
            if s == id && !before.contains(s) {
                assert(r[r.len() - 1] == s);
            }
        }
        assert forall|i: int, j: int| 0 <= i < r.len() && 0 <= j < r.len() && i != j implies r[i] != r[j] by {
            if !before.contains(id) {
                if i == before.len() {
                    assert(before[j] == r[j]);
                } else if j == before.len() {
                    assert(before[i] == r[i]);
                }
            }
        }
    }
}

/// A player who was selected for a side stands in it and not in the other, whoever stood where.
pub proof fn law_selected_player_is_on_one_side(own: Seq<Seq<char>>, other: Seq<Seq<char>>, id: Seq<char>)
    ensures
        selection_after(own, other, id, true).0.contains(id),
        !selection_after(own, other, id, true).1.contains(id),
        !selection_after(own, other, id, false).0.contains(id),
{
    group_form::law_checked_fields(own, id, id, true);
    group_form::law_checked_fields(other, id, id, false);
    group_form::law_checked_fields(own, id, id, false);
}

// ---------------------------------------------------------------------------
// Whether the match can start
// ---------------------------------------------------------------------------

/// A player of the list has an id.
pub open spec fn player_has_id(players: Seq<StartMatchPlayer>, id: Seq<char>) -> spec_fn(int) -> bool {
    |i: int| players[i].id@ == id
}

/// The player with an id is known and has not paid.
pub open spec fn owes(players: Seq<StartMatchPlayer>, id: Seq<char>) -> bool {
    order::first_where(players.len(), player_has_id(players, id)) matches Some(i) && !players[i].paid
}

/// The first player with an id.
pub fn player_with_id(players: &[StartMatchPlayer], id: &str) -> (r: Option<usize>)
    ensures
        match order::first_where(players@.len(), player_has_id(players@, id@)) {
            Some(i) => r is Some && r->0 == i && 0 <= i < players@.len(),
            None => r is None,
        },
        r matches Some(k) ==> k < players@.len(),
{
    let ghost p = player_has_id(players@, id@);
    let mut i: usize = 0;
    while i < players.len()
        invariant
            i <= players@.len(),
            p == player_has_id(players@, id@),
            order::first_where(i as nat, p) is None,
        decreases players@.len() - i,
    {
        if str_eq(players[i].id.as_str(), id) {
            proof {
                assert(p(i as int));
                assert(order::first_where((i + 1) as nat, p) == Some(i as int));
                order::lemma_first_where_stays((i + 1) as nat, players@.len(), p);
            }
            return Some(i);
        }
        assert(!p(i as int));
        i = i + 1;
    }
    None
}

/// Whether anyone selected has not paid.
pub fn has_unpaid(players: &[StartMatchPlayer], selected: &[String]) -> (r: bool)
    ensures
        r == exists|k: int| 0 <= k < selected@.len() && owes(players@, (#[trigger] selected@[k])@),
{
    let mut i: usize = 0;
    while i < selected.len()
        invariant
            i <= selected@.len(),
            forall|k: int| 0 <= k < i ==> !owes(players@, (#[trigger] selected@[k])@),
        decreases selected@.len() - i,
    {
        match player_with_id(players, selected[i].as_str()) {
            Some(k) => {
                if !players[k].paid {
                    assert(owes(players@, selected@[i as int]@));
                    return true;
                }
            },
            None => {},
        }
        i = i + 1;
    }
    false
}

/// The most players of a side on the field; none allowed where nothing is set.
pub open spec fn side_limit(max: Option<u32>) -> int {
    match max {
        Some(n) => n as int,
        None => 0,
    }
}

/// The match can be started: no side is too large, and everyone selected has paid.
pub open spec fn may_start(
    players: Seq<StartMatchPlayer>,
    team1: Seq<Seq<char>>,
    team2: Seq<Seq<char>>,
    max: Option<u32>,
) -> bool {
    &&& team1.len() <= side_limit(max)
    &&& team2.len() <= side_limit(max)
    &&& forall|k: int| 0 <= k < team1.len() ==> !owes(players, #[trigger] team1[k])
    &&& forall|k: int| 0 <= k < team2.len() ==> !owes(players, #[trigger] team2[k])
}

/// Whether the match can be started: no side is too large, and everyone selected has paid.
pub fn can_start(players: &[StartMatchPlayer], team1: &[String], team2: &[String], max: Option<u32>) -> (r: bool)
    ensures
        r == may_start(players@, text::texts(team1@), text::texts(team2@), max),
{
    let limit: u64 = match max {
        Some(n) => n as u64,
        None => 0,
    };
    let paid1 = !has_unpaid(players, team1);
    let paid2 = !has_unpaid(players, team2);
    proof {
        let a = text::texts(team1@);
        let b = text::texts(team2@);
        if !paid1 {
            let k = choose|k: int| 0 <= k < team1@.len() && owes(players@, (#[trigger] team1@[k])@);
            assert(owes(players@, a[k]));
        }
        if !paid2 {
            let k = choose|k: int| 0 <= k < team2@.len() && owes(players@, (#[trigger] team2@[k])@);
            assert(owes(players@, b[k]));
        }
        assert forall|k: int| paid1 && 0 <= k < a.len() implies !owes(players@, #[trigger] a[k]) by {
            assert(a[k] == team1@[k]@);
        }
        assert forall|k: int| paid2 && 0 <= k < b.len() implies !owes(players@, #[trigger] b[k]) by {
            assert(b[k] == team2@[k]@);
        }
    }
    team1.len() as u64 <= limit && team2.len() as u64 <= limit && paid1 && paid2
}

/// What has to be confirmed before a match with an empty side starts.
pub open spec fn empty_side_question(team1: nat, team2: nat) -> Option<Seq<char>> {
    let end =
        "This typically only happens if a team doesn't show up. Are you sure you want to start the match?"@;
    if team1 == 0 && team2 == 0 {
        Some("Both teams have zero players. "@ + end)
    } else if team1 == 0 {
        Some("Team 1 has zero players. "@ + end)
    } else if team2 == 0 {
        Some("Team 2 has zero players. "@ + end)
    } else {
        None
    }
}

/// The question to confirm before a match with an empty side starts.
pub fn confirm_message(team1_count: usize, team2_count: usize) -> (r: Option<String>)
    ensures
        text::opt_text(r) == empty_side_question(team1_count as nat, team2_count as nat),
{
    let end =
        "This typically only happens if a team doesn't show up. Are you sure you want to start the match?";
    if team1_count == 0 && team2_count == 0 {
        Some(concat("Both teams have zero players. ", end))
    } else if team1_count == 0 {
        Some(concat("Team 1 has zero players. ", end))
    } else if team2_count == 0 {
        Some(concat("Team 2 has zero players. ", end))
    } else {
        None
    }
}

/// The line under a list of players: how many of how many are selected.
pub fn selected_line(selected: usize, max: Option<u32>) -> (r: String)
    ensures
        r@ == text::decimal(selected as nat) + "/"@ + text::decimal(side_limit(max) as nat) + " players selected"@,
{
    let limit: u32 = match max {
        Some(n) => n,
        None => 0,
    };
    let mut s = decimal_text(selected as u64);
    s.append("/");
    s.append(decimal_text(limit as u64).as_str());
    s.append(" players selected");
    s
}

/// The request that starts a match says which one, who plays on each side, and the notes.
pub open spec fn starts_match(r: StartMatchRequest, match_id: Seq<char>, l: Lineups, match_notes: Seq<char>) -> bool {
    &&& r.match_id@ == match_id
    &&& text::texts(r.team1_players@) == text::texts(l.team1_selected@)
    &&& text::texts(r.team2_players@) == text::texts(l.team2_selected@)
    &&& r.match_notes@ == match_notes
    &&& r.stones_per_set is None
}

/// The request that starts the match.
pub fn start_match_request(match_id: &str, lineups: &Lineups, match_notes: &str) -> (r: StartMatchRequest)
    ensures
        starts_match(r, match_id@, *lineups, match_notes@),
{
    StartMatchRequest {
        match_id: match_id.to_owned(),
        team1_players: copied(&lineups.team1_selected),
        team2_players: copied(&lineups.team2_selected),
        match_notes: match_notes.to_owned(),
        stones_per_set: None,
    }
}

// ---------------------------------------------------------------------------
// Players
// ---------------------------------------------------------------------------

/// What a player is found by: name and id, in lower case.
#[derive(Clone, Debug)]
pub struct SearchKeys {
    pub name: String,
    pub id: String,
}

/// Keys that hold a search text.
pub open spec fn answers(k: SearchKeys, query: Seq<char>) -> bool {
    text::contains_text(k.name@, query) || text::contains_text(k.id@, query)
}

/// Keys of the list that hold a search text.
pub open spec fn answers_at(keys: Seq<SearchKeys>, query: Seq<char>) -> spec_fn(int) -> bool {
    |i: int| answers(keys[i], query)
}

/// A player whose name or id holds a search text, whatever the case.
pub open spec fn player_answers(p: StartMatchPlayer, query: Seq<char>) -> bool {
    text::contains_text(text::lowercased(p.name@), query) || text::contains_text(text::lowercased(p.id@), query)
}

/// What is searched for.
pub open spec fn needle(query: Seq<char>) -> Seq<char> {
    text::lowercased(text::trimmed(query))
}

/// A player of the list answers a search.
pub open spec fn player_answers_at(players: Seq<StartMatchPlayer>, query: Seq<char>) -> spec_fn(int) -> bool {
    |i: int| player_answers(players[i], query)
}

/// The players that answer a search, in order.
pub open spec fn found(players: Seq<StartMatchPlayer>, query: Seq<char>) -> Seq<int> {
    order::kept(players.len(), player_answers_at(players, needle(query)))
}

/// The first of some positions, at most five.
pub open spec fn first_five(all: Seq<int>) -> Seq<int> {
    all.take(if all.len() < 5 {
        all.len() as int
    } else {
        5
    })
}

proof fn lemma_kept_of_less(k: nat, n: nat, p: spec_fn(int) -> bool)
    requires
        k <= n,
    ensures
        order::kept(k, p).len() <= order::kept(n, p).len(),
        forall|i: int| 0 <= i < order::kept(k, p).len() ==> order::kept(n, p)[i] == order::kept(k, p)[i],
    decreases n,
{
    if k < n {
        lemma_kept_of_less(k, (n - 1) as nat, p);
    }
}

proof fn lemma_kept_alike(n: nat, p: spec_fn(int) -> bool, q: spec_fn(int) -> bool)
    requires
        forall|i: int| 0 <= i < n ==> #[trigger] p(i) == q(i),
    ensures
        order::kept(n, p) == order::kept(n, q),
    decreases n,
{
    if n > 0 {
        lemma_kept_alike((n - 1) as nat, p, q);
        assert(p(n - 1) == q(n - 1));
    }
}

/// The positions of the first keys that hold a search text, at most five; none for an empty text.
pub fn first_matching(keys: &[SearchKeys], lower: &str) -> (r: Vec<usize>)
    ensures
        order::positions(r@) == (if lower@.len() == 0 {
            Seq::<int>::empty()
        } else {
            first_five(order::kept(keys@.len(), answers_at(keys@, lower@)))
        }),
        forall|k: int| 0 <= k < r@.len() ==> #[trigger] r@[k] < keys@.len(),
{
    let mut out: Vec<usize> = Vec::new();
    assert(order::positions(out@) =~= Seq::<int>::empty());
    if lower.unicode_len() == 0 {
        return out;
    }
    let ghost p = answers_at(keys@, lower@);
    let ghost all = order::kept(keys@.len(), p);
    let mut i: usize = 0;
    while i < keys.len() && out.len() < 5
        invariant
            i <= keys@.len(),
            p == answers_at(keys@, lower@),
            out@.len() <= 5,
            order::positions(out@) == order::kept(i as nat, p),
            forall|k: int| 0 <= k < out@.len() ==> #[trigger] out@[k] < keys@.len(),
        decreases keys@.len() - i,
    {
        let ghost was = out@;
        if contains(keys[i].name.as_str(), lower) || contains(keys[i].id.as_str(), lower) {
            assert(p(i as int));
            out.push(i);
            assert(order::positions(out@) =~= order::positions(was).push(i as int));
        } else {
            assert(!p(i as int));
        }
        i = i + 1;
    }
    proof {
        lemma_kept_of_less(i as nat, keys@.len(), p);
        assert(order::positions(out@).len() == first_five(all).len());
        assert(order::positions(out@) =~= first_five(all));
    }
    out
}

/// The positions of the first players that answer a search, at most five; none for a blank search.
pub fn search_results(players: &[StartMatchPlayer], query: &str) -> (r: Vec<usize>)
    ensures
        order::positions(r@) == (if needle(query@).len() == 0 {
            Seq::<int>::empty()
        } else {
            first_five(found(players@, query@))
        }),
        forall|k: int| 0 <= k < r@.len() ==> #[trigger] r@[k] < players@.len(),
{
    let lower = to_lowercase(trim(query));
    let mut keys: Vec<SearchKeys> = Vec::new();
    let mut i: usize = 0;
    while i < players.len()
        invariant
            i <= players@.len(),
            keys@.len() == i,
            forall|k: int|
                0 <= k < i ==> (#[trigger] keys@[k]).name@ == text::lowercased(players@[k].name@) && keys@[k].id@
                    == text::lowercased(players@[k].id@),
        decreases players@.len() - i,
    {
        keys.push(
            SearchKeys {
                name: to_lowercase(players[i].name.as_str()),
                id: to_lowercase(players[i].id.as_str()),
            },
        );
        i = i + 1;
    }
    proof {
        let p = answers_at(keys@, lower@);
        let q = player_answers_at(players@, lower@);
        assert forall|k: int| 0 <= k < players@.len() implies #[trigger] p(k) == q(k) by {
            assert(keys@[k].name@ == text::lowercased(players@[k].name@));
        }
        lemma_kept_alike(players@.len(), p, q);
    }
    first_matching(keys.as_slice(), lower.as_str())
}

/// The first player that answers a search; none for a blank search.
pub fn find_player(players: &[StartMatchPlayer], query: &str) -> (r: Option<usize>)
    ensures
        r is Some <==> needle(query@).len() > 0 && found(players@, query@).len() > 0,
        r matches Some(k) ==> k < players@.len() && k == found(players@, query@)[0],
{
    let results = search_results(players, query);
    let ghost all = found(players@, query@);
    assert(order::positions(results@).len() == results@.len());
    if results.len() == 0 {
        None
    } else {
        assert(needle(query@).len() > 0);
        assert(order::positions(results@)[0] == results@[0]);
        assert(all.len() > 0);
        Some(results[0])
    }
}

/// A name with a jersey number, if there is one.
pub open spec fn numbered(name: Seq<char>, number: Option<Seq<char>>) -> Seq<char> {
    match number {
        Some(n) => name + " #"@ + n,
        None => name,
    }
}

/// Label of a player: the name on the jersey, else their own, with the number on the jersey.
pub fn player_label(p: &StartMatchPlayer) -> (r: String)
    ensures
        r@ == numbered(
            match text::opt_text(p.jersey_name) {
                Some(n) => n,
                None => p.name@,
            },
            text::opt_text(p.jersey_number),
        ),
{
    let name = match &p.jersey_name {
        Some(n) => n.as_str(),
        None => p.name.as_str(),
    };
    match &p.jersey_number {
        Some(n) => concat3(name, " #", n.as_str()),
        None => name.to_owned(),
    }
}

/// The injuries of a player in one line, if there are any.
pub fn injuries_line(p: &StartMatchPlayer) -> (r: Option<String>)
    ensures
        text::opt_text(r) == (if p.injuries@.len() == 0 {
            None
        } else {
            Some(text::joined(text::texts(p.injuries@), " • "@))
        }),
{
    if p.injuries.len() == 0 {
        None
    } else {
        Some(join(p.injuries.as_slice(), " • "))
    }
}

/// A row of the list of those who can play for a side: which player it is, whether they are selected
/// for the side, and whether they are for the other, so that they cannot be.
#[derive(Clone, Copy, Debug, PartialEq, Eq, Structural)]
pub struct PlayerRow {
    pub player: usize,
    pub selected: bool,
    pub disabled: bool,
}

/// The player with an id of the list is known.
pub open spec fn is_known(players: Seq<StartMatchPlayer>, ids: Seq<Seq<char>>) -> spec_fn(int) -> bool {
    |i: int| order::first_where(players.len(), player_has_id(players, ids[i])) is Some
}

/// The positions of the ids of known players.
pub open spec fn known_ids(players: Seq<StartMatchPlayer>, ids: Seq<Seq<char>>) -> Seq<int> {
    order::kept(ids.len(), is_known(players, ids))
}

/// A row is that of the player with an id.
pub open spec fn is_player_row(
    r: PlayerRow,
    players: Seq<StartMatchPlayer>,
    id: Seq<char>,
    selected: Seq<Seq<char>>,
    other: Seq<Seq<char>>,
) -> bool {
    &&& order::first_where(players.len(), player_has_id(players, id)) == Some(r.player as int)
    &&& r.selected == selected.contains(id)
    &&& r.disabled == other.contains(id)
}

/// The rows of those who can play for a side, in order; ids of nobody known have none.
pub fn player_rows(
    players: &[StartMatchPlayer],
    team_ids: &[String],
    selected: &[String],
    other_selected: &[String],
) -> (r: Vec<PlayerRow>)
    ensures
        r@.len() == known_ids(players@, text::texts(team_ids@)).len(),
        forall|k: int|
            0 <= k < r@.len() ==> is_player_row(
                #[trigger] r@[k],
                players@,
                text::texts(team_ids@)[known_ids(players@, text::texts(team_ids@))[k]],
                text::texts(selected@),
                text::texts(other_selected@),
            ) && r@[k].player < players@.len(),
{
    let ghost ids = text::texts(team_ids@);
    let ghost p = is_known(players@, ids);
    let mut out: Vec<PlayerRow> = Vec::new();
    let mut i: usize = 0;
    while i < team_ids.len()
        invariant
            i <= team_ids@.len(),
            ids == text::texts(team_ids@),
            p == is_known(players@, ids),
            out@.len() == order::kept(i as nat, p).len(),
            forall|k: int|
                0 <= k < out@.len() ==> is_player_row(
                    #[trigger] out@[k],
                    players@,
                    ids[order::kept(i as nat, p)[k]],
                    text::texts(selected@),
                    text::texts(other_selected@),
                ) && out@[k].player < players@.len(),
        decreases team_ids@.len() - i,
    {
        let id = team_ids[i].as_str();
        let ghost was = out@;
        assert(ids[i as int] == id@);
        match player_with_id(players, id) {
            Some(player) => {
                assert(p(i as int));
                out.push(
                    PlayerRow {
                        player,
                        selected: list_contains(selected, id),
                        disabled: list_contains(other_selected, id),
                    },
                );
                assert forall|k: int| 0 <= k < out@.len() implies is_player_row(
                    #[trigger] out@[k],
                    players@,
                    ids[order::kept((i + 1) as nat, p)[k]],
                    text::texts(selected@),
                    text::texts(other_selected@),
                ) && out@[k].player < players@.len() by {
                    if k < was.len() {
                        assert(out@[k] == was[k]);
                        assert(order::kept((i + 1) as nat, p)[k] == order::kept(i as nat, p)[k]);
                    }
                }
            },
            None => {
                assert(!p(i as int));
            },
        }
        i = i + 1;
    }
    out
}

// ---------------------------------------------------------------------------
// Notes
// ---------------------------------------------------------------------------

/// A note as it was read.
#[derive(Clone, Debug)]
pub struct RawNote {
    pub text: Option<String>,
    pub penalty_type_name: Option<String>,
    pub penalty_type_color: Option<String>,
    pub penalty_type_desc: Option<String>,
    pub player_display: Option<String>,
    pub player_name: Option<String>,
    pub target: Option<String>,
}

/// A note as it is shown.
#[derive(Clone, Debug)]
pub struct NoteView {
    pub border_color: String,
    pub display_text: String,
    pub description: Option<String>,
    pub target_display: String,
}

/// Whom a note is about: the player, else the target, by the name of the side where it is one; else
/// the match.
pub open spec fn note_target(n: RawNote, team1: Seq<char>, team2: Seq<char>) -> Seq<char> {
    match schedule_time::or_text(text::opt_text(n.player_display), schedule_time::or_text(text::opt_text(n.player_name), text::opt_text(n.target))) {
        Some(t) => if t == "team1"@ {
            team1
        } else if t == "team2"@ {
            team2
        } else {
            t
        },
        None => "Match"@,
    }
}

/// A note is shown: a penalty by its type and colour, any other by its text, in grey.
pub open spec fn shows_note(v: NoteView, n: RawNote, team1: Seq<char>, team2: Seq<char>) -> bool {
    &&& v.target_display@ == note_target(n, team1, team2)
    &&& match text::opt_text(n.penalty_type_name) {
        Some(name) => v.display_text@ == name && v.border_color@ == (match text::opt_text(
            n.penalty_type_color,
        ) {
            Some(c) => text::without_leading(c, '#'),
            None => "808080"@,
        }),
        None => v.border_color@ == "808080"@ && v.display_text@ == (if text::trimmed(
            teams::text_or_empty(text::opt_text(n.text)),
        ).len() == 0 {
            "Other"@
        } else {
            text::trimmed(teams::text_or_empty(text::opt_text(n.text)))
        }),
    }
    &&& text::opt_text(v.description) == (match text::opt_text(n.penalty_type_desc) {
        Some(d) => match_form::if_any(d),
        None => None,
    })
}

/// How a note is shown.
pub fn note_view(n: &RawNote, team1_name: &str, team2_name: &str) -> (r: NoteView)
    ensures
        shows_note(r, *n, team1_name@, team2_name@),
{
    let about = if n.player_display.is_some() {
        as_deref(&n.player_display)
    } else if n.player_name.is_some() {
        as_deref(&n.player_name)
    } else {
        as_deref(&n.target)
    };
    let target_display = match about {
        Some(t) => if str_eq(t, "team1") {
            team1_name.to_owned()
        } else if str_eq(t, "team2") {
            team2_name.to_owned()
        } else {
            t.to_owned()
        },
        None => "Match".to_owned(),
    };
    let (border_color, display_text) = match &n.penalty_type_name {
        Some(name) => (
            match &n.penalty_type_color {
                Some(c) => trim_start_char(c.as_str(), '#').to_owned(),
                None => "808080".to_owned(),
            },
            name.clone(),
        ),
        None => {
            let text = trim(or_empty(as_deref(&n.text)));
            (
                "808080".to_owned(),
                if text.unicode_len() == 0 {
                    "Other".to_owned()
                } else {
                    text.to_owned()
                },
            )
        },
    };
    let description = match &n.penalty_type_desc {
        Some(d) => opt_if_any(d.as_str()),
        None => None,
    };
    NoteView { border_color, display_text, description, target_display }
}

/// What the answer to a request for notes means: its error where it says it failed, else its notes.
pub fn notes_outcome(success: Option<bool>, error: Option<&str>) -> (r: Option<String>)
    ensures
        text::opt_text(r) == (if success == Some(false) {
            Some(match text::opt_slice(error) {
                Some(e) => e,
                None => "Failed to load notes"@,
            })
        } else {
            None
        }),
{
    match success {
        Some(ok) => if ok {
            None
        } else {
            match error {
                Some(e) => Some(e.to_owned()),
                None => Some("Failed to load notes".to_owned()),
            }
        },
        None => None,
    }
}

// ---------------------------------------------------------------------------
// What the sides have in common
// ---------------------------------------------------------------------------

/// A player who is selected plays for the side that they were selected for, and for no other; one who
/// is taken out of a side does not play for it; and nobody else is touched.
pub proof fn law_selection_touches_one_player(
    r: Lineups,
    l: Lineups,
    side: Side,
    id: Seq<char>,
    select: bool,
    other: Seq<char>,
)
    requires
        is_toggled(r, l, side, id, select),
    ensures
        side == Side::One ==> text::texts(r.team1_selected@).contains(id) == select,
        side == Side::Two ==> text::texts(r.team2_selected@).contains(id) == select,
        select && side == Side::One ==> !text::texts(r.team2_selected@).contains(id),
        select && side == Side::Two ==> !text::texts(r.team1_selected@).contains(id),
        !select && side == Side::One ==> text::texts(r.team2_selected@) == text::texts(l.team2_selected@),
        !select && side == Side::Two ==> text::texts(r.team1_selected@) == text::texts(l.team1_selected@),
        other != id ==> text::texts(r.team1_selected@).contains(other) == text::texts(l.team1_selected@).contains(other)
            && text::texts(r.team2_selected@).contains(other) == text::texts(l.team2_selected@).contains(other),
        text::texts(r.team1_all@) == text::texts(l.team1_all@) && text::texts(r.team2_all@) == text::texts(l.team2_all@),
{
    let a = text::texts(l.team1_selected@);
    let b = text::texts(l.team2_selected@);
    group_form::law_checked_fields(a, id, other, false);
    group_form::law_checked_fields(b, id, other, false);
    group_form::law_checked_fields(a, id, other, true);
    group_form::law_checked_fields(b, id, other, true);
}

/// It does not matter which side is which: selecting for one side does what selecting for the other
/// does with the sides exchanged.
pub proof fn law_sides_are_selected_alike(
    r: Lineups,
    l: Lineups,
    turned_r: Lineups,
    turned: Lineups,
    id: Seq<char>,
    select: bool,
)
    requires
        text::texts(turned.team1_selected@) == text::texts(l.team2_selected@),
        text::texts(turned.team2_selected@) == text::texts(l.team1_selected@),
        is_toggled(r, l, Side::One, id, select),
        is_toggled(turned_r, turned, Side::Two, id, select),
    ensures
        text::texts(turned_r.team1_selected@) == text::texts(r.team2_selected@),
        text::texts(turned_r.team2_selected@) == text::texts(r.team1_selected@),
{
}

/// A player who is added can play for that side; nobody who could play can no longer, and who plays
/// stays the same.
pub proof fn law_added_player_can_play(r: Lineups, l: Lineups, side: Side, id: Seq<char>, other: Seq<char>)
    requires
        is_player_added(r, l, side, id),
    ensures
        side == Side::One ==> text::texts(r.team1_all@).contains(id) && text::texts(r.team2_all@) == text::texts(l.team2_all@),
        side == Side::Two ==> text::texts(r.team2_all@).contains(id) && text::texts(r.team1_all@) == text::texts(l.team1_all@),
        other != id ==> text::texts(r.team1_all@).contains(other) == text::texts(l.team1_all@).contains(other) && text::texts(
            r.team2_all@,
        ).contains(other) == text::texts(l.team2_all@).contains(other),
        r.team1_selected == l.team1_selected && r.team2_selected == l.team2_selected,
{
    group_form::law_checked_fields(text::texts(l.team1_all@), id, other, true);
    group_form::law_checked_fields(text::texts(l.team2_all@), id, other, true);
}

/// A player owes exactly if they are known and have not paid; of several with an id the first counts.
pub proof fn law_who_owes(players: Seq<StartMatchPlayer>, id: Seq<char>)
    ensures
        owes(players, id) <==> exists|i: int|
            0 <= i < players.len() && (#[trigger] players[i]).id@ == id && !players[i].paid && forall|j: int|
                0 <= j < i ==> (#[trigger] players[j]).id@ != id,
{
    let p = player_has_id(players, id);
    order::lemma_first_where(players.len(), p);
    assert forall|j: int| 0 <= j < players.len() && !p(j) implies (#[trigger] players[j]).id@ != id by {}
    if owes(players, id) {
        let i = order::first_where(players.len(), p)->0;
        assert(p(i));
        assert(players[i].id@ == id);
    }
    if exists|i: int|
        0 <= i < players.len() && (#[trigger] players[i]).id@ == id && !players[i].paid && forall|j: int|
            0 <= j < i ==> (#[trigger] players[j]).id@ != id {
        let i = choose|i: int|
            0 <= i < players.len() && (#[trigger] players[i]).id@ == id && !players[i].paid && forall|j: int|
                0 <= j < i ==> (#[trigger] players[j]).id@ != id;
        assert(p(i));
        let found = order::first_where(players.len(), p)->0;
        assert(p(found));
        assert(players[found].id@ == id);
        assert(found == i);
    }
}

/// A match can be started with the sides exchanged exactly if it can be started as they are; and not
/// where either side is too large or someone on either side owes.
pub proof fn law_either_side_can_hold_up_a_start(
    players: Seq<StartMatchPlayer>,
    team1: Seq<Seq<char>>,
    team2: Seq<Seq<char>>,
    max: Option<u32>,
    id: Seq<char>,
)
    ensures
        may_start(players, team1, team2, max) == may_start(players, team2, team1, max),
        max matches Some(n) ==> (team1.len() > n || team2.len() > n ==> !may_start(players, team1, team2, max)),
        max is None && team1.len() + team2.len() > 0 ==> !may_start(players, team1, team2, max),
        owes(players, id) && (team1.contains(id) || team2.contains(id)) ==> !may_start(players, team1, team2, max),
        max matches Some(n) ==> (team1.len() <= n && team2.len() <= n && (forall|s: Seq<char>|
            #[trigger] owes(players, s) ==> !team1.contains(s) && !team2.contains(s)) ==> may_start(
            players,
            team1,
            team2,
            max,
        )),
{
    if owes(players, id) && team1.contains(id) {
        let k = choose|k: int| 0 <= k < team1.len() && team1[k] == id;
        assert(owes(players, team1[k]));
    }
    if owes(players, id) && team2.contains(id) {
        let k = choose|k: int| 0 <= k < team2.len() && team2[k] == id;
        assert(owes(players, team2[k]));
    }
    if forall|s: Seq<char>| #[trigger] owes(players, s) ==> !team1.contains(s) && !team2.contains(s) {
        assert forall|k: int| 0 <= k < team1.len() implies !owes(players, #[trigger] team1[k]) by {
            assert(team1.contains(team1[k]));
        }
        assert forall|k: int| 0 <= k < team2.len() implies !owes(players, #[trigger] team2[k]) by {
            assert(team2.contains(team2[k]));
        }
    }
}

/// A match starts with those who are selected, each on the side that they are selected for.
pub proof fn law_match_starts_with_the_selected(
    r: StartMatchRequest,
    match_id: Seq<char>,
    l: Lineups,
    match_notes: Seq<char>,
)
    requires
        starts_match(r, match_id, l, match_notes),
    ensures
        r.match_id@ == match_id,
        r.match_notes@ == match_notes,
        r.team1_players@.len() == l.team1_selected@.len(),
        r.team2_players@.len() == l.team2_selected@.len(),
        forall|k: int| 0 <= k < r.team1_players@.len() ==> (#[trigger] r.team1_players@[k])@ == l.team1_selected@[k]@,
        forall|k: int| 0 <= k < r.team2_players@.len() ==> (#[trigger] r.team2_players@[k])@ == l.team2_selected@[k]@,
{
    assert(text::texts(r.team1_players@).len() == text::texts(l.team1_selected@).len());
    assert(text::texts(r.team2_players@).len() == text::texts(l.team2_selected@).len());
    assert forall|k: int| 0 <= k < r.team1_players@.len() implies (#[trigger] r.team1_players@[k])@
        == l.team1_selected@[k]@ by {
        assert(text::texts(r.team1_players@)[k] == text::texts(l.team1_selected@)[k]);
    }
    assert forall|k: int| 0 <= k < r.team2_players@.len() implies (#[trigger] r.team2_players@[k])@
        == l.team2_selected@[k]@ by {
        assert(text::texts(r.team2_players@)[k] == text::texts(l.team2_selected@)[k]);
    }
}

/// There is a question exactly where a side is empty, and it tells which.
pub proof fn law_empty_sides_are_asked_about(a: nat, b: nat)
    requires
        a > 0,
        b > 0,
    ensures
        empty_side_question(a, b) is None,
        empty_side_question(0, b) is Some && empty_side_question(a, 0) is Some && empty_side_question(0, 0) is Some,
        empty_side_question(0, b) != empty_side_question(a, 0),
        empty_side_question(0, 0) != empty_side_question(0, b),
        empty_side_question(0, 0) != empty_side_question(a, 0),
        empty_side_question(0, b)->0.take(6) == seq!['T', 'e', 'a', 'm', ' ', '1'],
        empty_side_question(a, 0)->0.take(6) == seq!['T', 'e', 'a', 'm', ' ', '2'],
{
    reveal_strlit("Both teams have zero players. ");
    reveal_strlit("Team 1 has zero players. ");
    reveal_strlit("Team 2 has zero players. ");
    let one = empty_side_question(0, b)->0;
    let two = empty_side_question(a, 0)->0;
    let both = empty_side_question(0, 0)->0;
    assert(one[5] == '1' && two[5] == '2' && both[0] == 'B' && one[0] == 'T' && two[0] == 'T');
    assert(one.take(6) =~= seq!['T', 'e', 'a', 'm', ' ', '1']);
    assert(two.take(6) =~= seq!['T', 'e', 'a', 'm', ' ', '2']);
}

/// A search finds the players whose name or id holds what is searched for, in any case, in their order,
/// and shows the first five of them.
pub proof fn law_search_finds_players(players: Seq<StartMatchPlayer>, query: Seq<char>, i: int)
    requires
        0 <= i < players.len(),
    ensures
        found(players, query).contains(i) <==> text::contains_text(text::lowercased(players[i].name@), text::lowercased(text::trimmed(query)))
            || text::contains_text(text::lowercased(players[i].id@), text::lowercased(text::trimmed(query))),
        text::trimmed(query) == players[i].name@ || text::trimmed(query) == players[i].id@ ==> found(players, query).contains(i),
        forall|j: int, k: int|
            0 <= j < k < found(players, query).len() ==> found(players, query)[j] < found(players, query)[k],
{
    let p = player_answers_at(players, needle(query));
    order::lemma_kept(players.len(), p);
    let all = found(players, query);
    if all.contains(i) {
        let k = choose|k: int| 0 <= k < all.len() && all[k] == i;
        assert(p(all[k]));
    }
    let x = text::lowercased(text::trimmed(query));
    assert(x.subrange(0, x.len() as int) =~= x);
    assert(text::occurs_at(x, x, 0));
    if player_answers(players[i], needle(query)) {
        assert(p(i));
    }
    assert(text::trimmed(query) == players[i].name@ || text::trimmed(query) == players[i].id@ ==> p(i));
}

/// Of some positions the first five are shown, or all where there are fewer.
pub proof fn law_at_most_five(all: Seq<int>, k: int)
    ensures
        first_five(all).len() <= 5,
        all.len() <= 5 ==> first_five(all) == all,
        all.len() > 5 ==> first_five(all).len() == 5,
        0 <= k < first_five(all).len() ==> first_five(all)[k] == all[k],
{
    assert(all.take(all.len() as int) =~= all);
}

/// Where nobody plays for both sides, no row is both selected and disabled; and a row is that of a
/// player with its id.
pub proof fn law_rows_of_players(
    r: PlayerRow,
    players: Seq<StartMatchPlayer>,
    id: Seq<char>,
    selected: Seq<Seq<char>>,
    other: Seq<Seq<char>>,
)
    requires
        is_player_row(r, players, id, selected, other),
    ensures
        r.player < players.len() && players[r.player as int].id@ == id,
        apart(selected, other) ==> !(r.selected && r.disabled),
        selected.contains(id) ==> r.selected,
        other.contains(id) ==> r.disabled,
        !selected.contains(id) && !other.contains(id) ==> !r.selected && !r.disabled,
{
    let p = player_has_id(players, id);
    order::lemma_first_where(players.len(), p);
    assert(p(r.player as int));
}

/// A note about a side bears the name of that side, and with the sides exchanged that of the other; one
/// about a player bears the name of the player, and one about nobody is about the match.
pub proof fn law_note_is_about_its_target(n: RawNote, team1: Seq<char>, team2: Seq<char>)
    ensures
        n.player_display is None && n.player_name is None && text::opt_text(n.target) == Some("team1"@) ==> note_target(
            n,
            team1,
            team2,
        ) == team1 && note_target(n, team2, team1) == team2,
        n.player_display is None && n.player_name is None && text::opt_text(n.target) == Some("team2"@) ==> note_target(
            n,
            team1,
            team2,
        ) == team2 && note_target(n, team2, team1) == team1,
        n.player_display is None && n.player_name is None && n.target is None ==> note_target(n, team1, team2)
            == "Match"@,
        n.player_display matches Some(d) ==> d@ != "team1"@ && d@ != "team2"@ ==> note_target(n, team1, team2) == d@,
        n.player_display is None ==> (n.player_name matches Some(d) ==> d@ != "team1"@ && d@ != "team2"@
            ==> note_target(n, team1, team2) == d@),
{
    reveal_strlit("team1");
    reveal_strlit("team2");
    assert("team1"@[4] != "team2"@[4]);
}

/// A penalty is shown by the name and the colour of its type, any other note by its text, in grey; a
/// description only where there is one.
pub proof fn law_notes_are_shown_by_their_kind(v: NoteView, n: RawNote, team1: Seq<char>, team2: Seq<char>)
    requires
        shows_note(v, n, team1, team2),
    ensures
        n.penalty_type_name matches Some(x) ==> v.display_text@ == x@,
        n.penalty_type_name is None ==> (n.text matches Some(x) ==> text::trimmed(x@).len() > 0 ==> v.display_text@
            == text::trimmed(x@)),
        n.penalty_type_name is None && n.text is None ==> v.display_text@ == "Other"@,
        n.penalty_type_name is None ==> v.border_color@ == "808080"@,
        n.penalty_type_name is Some ==> (n.penalty_type_color matches Some(c) ==> (c@.len() > 0 && c@[0] != '#'
            ==> v.border_color@ == c@)),
        n.penalty_type_name is Some ==> v.border_color@.len() == 0 || v.border_color@[0] != '#',
        n.penalty_type_desc matches Some(d) ==> (d@.len() > 0 ==> text::opt_text(v.description) == Some(d@)),
        n.penalty_type_desc is None ==> v.description is None,
{
    reveal_strlit("808080");
    if n.penalty_type_color is Some {
        text::law_only_the_run_is_gone(n.penalty_type_color->0@, '#');
    }
    if n.penalty_type_name is None && n.text is None {
        assert(text::trimmed(Seq::<char>::empty()).len() == 0);
    }
}

/// A player has a row for a side exactly if they can play for it and are known.
pub proof fn law_every_known_player_has_a_row(players: Seq<StartMatchPlayer>, ids: Seq<Seq<char>>, i: int)
    requires
        0 <= i < ids.len(),
    ensures
        known_ids(players, ids).contains(i) <==> exists|j: int|
            0 <= j < players.len() && (#[trigger] players[j]).id@ == ids[i],
{
    let p = is_known(players, ids);
    order::lemma_kept(ids.len(), p);
    let q = player_has_id(players, ids[i]);
    order::lemma_first_where(players.len(), q);
    let at = known_ids(players, ids);
    if at.contains(i) {
        let k = choose|k: int| 0 <= k < at.len() && at[k] == i;
        assert(p(at[k]));
        let j = order::first_where(players.len(), q)->0;
        assert(q(j));
        assert(players[j].id@ == ids[i]);
    }
    if exists|j: int| 0 <= j < players.len() && (#[trigger] players[j]).id@ == ids[i] {
        let j = choose|j: int| 0 <= j < players.len() && (#[trigger] players[j]).id@ == ids[i];
        assert(q(j));
        assert(p(i));
    }
}

/// A number on a jersey comes after the name and a hash; without one the name stands alone.
pub proof fn law_number_comes_after_the_name(name: Seq<char>, number: Seq<char>)
    ensures
        numbered(name, None) == name,
        numbered(name, Some(number)) == name + seq![' ', '#'] + number,
{
    reveal_strlit(" #");
    assert(" #"@ =~= seq![' ', '#']);
}

/// Keys made of a player answer a search as the player does.
pub proof fn law_keys_answer_as_the_player(k: SearchKeys, p: StartMatchPlayer, query: Seq<char>)
    requires
        k.name@ == text::lowercased(p.name@),
        k.id@ == text::lowercased(p.id@),
    ensures
        answers(k, query) == player_answers(p, query),
        text::contains_text(k.name@, query) || text::contains_text(k.id@, query) ==> answers(k, query),
        answers(k, query) ==> text::contains_text(k.name@, query) || text::contains_text(k.id@, query),
{
}

/// At first everyone of a side can play and plays for it, and nobody else; with the sides exchanged the
/// line-ups are exchanged.
pub proof fn law_everyone_plays_for_their_side_at_first(
    r: Lineups,
    turned: Lineups,
    team1: Seq<StartMatchPlayer>,
    team2: Seq<StartMatchPlayer>,
    i: int,
)
    requires
        is_first_lineup(r, team1, team2),
        is_first_lineup(turned, team2, team1),
    ensures
        0 <= i < team1.len() ==> text::texts(r.team1_all@).contains(team1[i].id@) && text::texts(r.team1_selected@).contains(
            team1[i].id@,
        ),
        0 <= i < team2.len() ==> text::texts(r.team2_all@).contains(team2[i].id@) && text::texts(r.team2_selected@).contains(
            team2[i].id@,
        ),
        r.team1_all@.len() == team1.len() && r.team2_all@.len() == team2.len(),
        text::texts(turned.team1_all@) == text::texts(r.team2_all@) && text::texts(turned.team2_all@) == text::texts(r.team1_all@),
        text::texts(turned.team1_selected@) == text::texts(r.team2_selected@) && text::texts(turned.team2_selected@) == text::texts(
            r.team1_selected@,
        ),
        text::texts(r.team1_selected@).no_duplicates() && text::texts(r.team2_selected@).no_duplicates(),
{
    law_starting_selection_is_distinct(team1);
    law_starting_selection_is_distinct(team2);
    assert(text::texts(r.team1_all@).len() == team1.len());
    assert(text::texts(r.team2_all@).len() == team2.len());
    if 0 <= i < team1.len() {
        assert(player_ids(team1)[i] == team1[i].id@);
        assert(player_ids(team1).contains(team1[i].id@));
    }
    if 0 <= i < team2.len() {
        assert(player_ids(team2)[i] == team2[i].id@);
        assert(player_ids(team2).contains(team2[i].id@));
    }
}

} // verus!
