//! Dependencies of a match: what its chain, its sides and its refs wait for.
use vstd::prelude::*;
use crate::card;
use crate::order;
use crate::teams;
use crate::text;
use crate::teams::{is_structural_match, or_empty};
use crate::text::{as_deref, concat3, decimal_text, join, split, str_eq, strip_suffix, trim};
use crate::types::MatchSetupData;

verus! {

/// Why a match depends on another.
///
/// The numbers that stand for these on a page: 0 chain, 1 first side, 2 second side, 3 ref.
#[derive(Clone, Debug)]
pub struct DepEdge {
    pub from: String,
    pub to: String,
    pub kind: u8,
}

/// The text of an edge.
pub open spec fn edge_text(e: DepEdge) -> (Seq<char>, Seq<char>, u8) {
    (e.from@, e.to@, e.kind)
}

/// The texts of a list of edges.
pub open spec fn edge_texts(v: Seq<DepEdge>) -> Seq<(Seq<char>, Seq<char>, u8)> {
    Seq::new(v.len(), |i: int| edge_text(v[i]))
}

/// The name of the match that a `Name::winner` or `Name::loser` token refers to.
pub open spec fn referred_name(token: Seq<char>) -> Option<Seq<char>> {
    let t = text::trimmed(token);
    match text::suffix_stripped(t, "::winner"@) {
        Some(n) => Some(text::trimmed(n)),
        None => match text::suffix_stripped(t, "::loser"@) {
            Some(n) => Some(text::trimmed(n)),
            None => None,
        },
    }
}

/// Strip a `Name::winner` or `Name::loser` reference token to the match name.
pub fn ref_token_match_name(token: &str) -> (r: Option<&str>)
    ensures
        text::opt_slice(r) == referred_name(token@),
{
    let t = trim(token);
    match strip_suffix(t, "::winner") {
        Some(n) => Some(trim(n)),
        None => match strip_suffix(t, "::loser") {
            Some(n) => Some(trim(n)),
            None => None,
        },
    }
}

/// A game of a name.
pub open spec fn game_named(matches: Seq<MatchSetupData>, name: Seq<char>) -> spec_fn(int) -> bool {
    |i: int| !teams::structural(text::opt_text(matches[i].schedule_type)) && matches[i].name@ == name
}

/// The id of the game with a name; of several, the last.
pub open spec fn game_id(matches: Seq<MatchSetupData>, name: Seq<char>) -> Option<Seq<char>> {
    match order::last_where(matches.len(), game_named(matches, name)) {
        Some(i) => Some(matches[i].uuid@),
        None => None,
    }
}

fn find_game<'a>(matches: &'a [MatchSetupData], name: &str) -> (r: Option<&'a str>)
    ensures
        text::opt_slice(r) == game_id(matches@, name@),
{
    let ghost p = game_named(matches@, name@);
    let mut i: usize = matches.len();
    while i > 0
        invariant
            i <= matches@.len(),
            p == game_named(matches@, name@),
            order::last_where(matches@.len(), p) == order::last_where(i as nat, p),
        decreases i,
    {
        i = i - 1;
        if !is_structural_match(&matches[i]) && str_eq(matches[i].name.as_str(), name) {
            assert(p(i as int));
            return Some(matches[i].uuid.as_str());
        }
        assert(!p(i as int));
    }
    None
}

/// The match of an id.
pub open spec fn match_with_id(matches: Seq<MatchSetupData>, id: Seq<char>) -> spec_fn(int) -> bool {
    |i: int| matches[i].uuid@ == id
}

/// The position of the first match with an id.
pub open spec fn match_at(matches: Seq<MatchSetupData>, id: Seq<char>) -> Option<int> {
    order::first_where(matches.len(), match_with_id(matches, id))
}

/// The first match with an id.
pub fn find_match(matches: &[MatchSetupData], id: &str) -> (r: Option<usize>)
    ensures
        match match_at(matches@, id@) {
            Some(i) => r is Some && r->0 == i && 0 <= i < matches@.len(),
            None => r is None,
        },
        r matches Some(k) ==> k < matches@.len() && matches@[k as int].uuid@ == id@,
{
    let ghost p = match_with_id(matches@, id@);
    let mut i: usize = 0;
    while i < matches.len()
        invariant
            i <= matches@.len(),
            p == match_with_id(matches@, id@),
            order::first_where(i as nat, p) is None,
        decreases matches@.len() - i,
    {
        if str_eq(matches[i].uuid.as_str(), id) {
            proof {
                assert(p(i as int));
                assert(order::first_where((i + 1) as nat, p) == Some(i as int));
                order::lemma_first_where_stays((i + 1) as nat, matches@.len(), p);
            }
            return Some(i);
        }
        assert(!p(i as int));
        i = i + 1;
    }
    None
}

/// The edge that a token gives, if it refers to a game that there is.
pub open spec fn token_edges(
    matches: Seq<MatchSetupData>,
    id: Seq<char>,
    token: Seq<char>,
    kind: u8,
) -> Seq<(Seq<char>, Seq<char>, u8)> {
    match referred_name(token) {
        Some(name) => match game_id(matches, name) {
            Some(to) => seq![(id, to, kind)],
            None => Seq::empty(),
        },
        None => Seq::empty(),
    }
}

/// The edge of an optional token.
pub open spec fn opt_token_edges(
    matches: Seq<MatchSetupData>,
    id: Seq<char>,
    token: Option<Seq<char>>,
    kind: u8,
) -> Seq<(Seq<char>, Seq<char>, u8)> {
    match token {
        Some(t) => token_edges(matches, id, t, kind),
        None => Seq::empty(),
    }
}

/// The edges of a list of ref tokens, in order.
pub open spec fn ref_edges(
    matches: Seq<MatchSetupData>,
    id: Seq<char>,
    tokens: Seq<Seq<char>>,
) -> Seq<(Seq<char>, Seq<char>, u8)>
    decreases tokens.len(),
{
    if tokens.len() == 0 {
        Seq::empty()
    } else {
        ref_edges(matches, id, tokens.drop_last()) + token_edges(matches, id, tokens.last(), 3)
    }
}

/// The edge to the previous match.
pub open spec fn chain_edges(m: MatchSetupData, id: Seq<char>) -> Seq<(Seq<char>, Seq<char>, u8)> {
    match text::opt_text(m.previous_match) {
        Some(prev) => if prev.len() > 0 {
            seq![(id, prev, 0u8)]
        } else {
            Seq::empty()
        },
        None => Seq::empty(),
    }
}

/// All that a match depends on: its previous match, then its sides, then its refs.
pub open spec fn edges_of(matches: Seq<MatchSetupData>, id: Seq<char>) -> Seq<
    (Seq<char>, Seq<char>, u8),
> {
    match match_at(matches, id) {
        Some(i) => {
            let m = matches[i];
            chain_edges(m, id) + opt_token_edges(matches, id, text::opt_text(m.team1_initial), 1)
                + opt_token_edges(matches, id, text::opt_text(m.team2_initial), 2) + ref_edges(
                matches,
                id,
                text::split_at_each(teams::text_or_empty(text::opt_text(m.refs_initial)), ','),
            )
        },
        None => Seq::empty(),
    }
}

fn push_token_edge(
    out: &mut Vec<DepEdge>,
    matches: &[MatchSetupData],
    id: &str,
    token: &str,
    kind: u8,
)
    ensures
        edge_texts(final(out)@) == edge_texts(old(out)@) + token_edges(matches@, id@, token@, kind),
{
    let ghost was = out@;
    assert(edge_texts(was) + Seq::<(Seq<char>, Seq<char>, u8)>::empty() =~= edge_texts(was));
    match ref_token_match_name(token) {
        Some(name) => match find_game(matches, name) {
            Some(to) => {
                out.push(DepEdge { from: id.to_owned(), to: to.to_owned(), kind });
                assert(edge_texts(out@) =~= edge_texts(was) + seq![(id@, to@, kind)]);
            },
            None => {},
        },
        None => {},
    }
}

/// The dependency edges of the match with an id.
pub fn dependency_edges(matches: &[MatchSetupData], id: &str) -> (r: Vec<DepEdge>)
    ensures
        edge_texts(r@) == edges_of(matches@, id@),
{
    let mut out: Vec<DepEdge> = Vec::new();
    assert(edge_texts(out@) =~= Seq::<(Seq<char>, Seq<char>, u8)>::empty());
    let at = match find_match(matches, id) {
        Some(i) => i,
        None => {
            return out;
        },
    };
    let m = &matches[at];
    match &m.previous_match {
        Some(prev) => {
            if prev.as_str().unicode_len() > 0 {
                out.push(DepEdge { from: id.to_owned(), to: prev.clone(), kind: 0 });
            }
        },
        None => {},
    }
    assert(edge_texts(out@) =~= chain_edges(*m, id@));
    let ghost a = edge_texts(out@);
    match &m.team1_initial {
        Some(t) => {
            push_token_edge(&mut out, matches, id, t.as_str(), 1);
        },
        None => {},
    }
    let ghost b = edge_texts(out@);
    assert(b =~= a + opt_token_edges(matches@, id@, text::opt_text(m.team1_initial), 1));
    match &m.team2_initial {
        Some(t) => {
            push_token_edge(&mut out, matches, id, t.as_str(), 2);
        },
        None => {},
    }
    let ghost c = edge_texts(out@);
    assert(c =~= b + opt_token_edges(matches@, id@, text::opt_text(m.team2_initial), 2));
    let tokens = split(or_empty(as_deref(&m.refs_initial)), ',');
    let ghost ts = text::slices(tokens@);
    let mut i: usize = 0;
    assert(ts.take(0) =~= Seq::<Seq<char>>::empty());
    assert(c + ref_edges(matches@, id@, ts.take(0)) =~= c);
    while i < tokens.len()
        invariant
            i <= tokens@.len(),
            ts == text::slices(tokens@),
            edge_texts(out@) == c + ref_edges(matches@, id@, ts.take(i as int)),
        decreases tokens@.len() - i,
    {
        push_token_edge(&mut out, matches, id, tokens[i], 3);
        proof {
            assert(ts.take(i + 1).drop_last() =~= ts.take(i as int));
            assert(ts.take(i + 1).last() == tokens@[i as int]@);
            assert(edge_texts(out@) =~= c + ref_edges(matches@, id@, ts.take(i + 1)));
        }
        i = i + 1;
    }
    assert(ts.take(i as int) =~= ts);
    out
}

proof fn lemma_ref_edges_start_at(matches: Seq<MatchSetupData>, id: Seq<char>, tokens: Seq<Seq<char>>)
    ensures
        forall|k: int|
            0 <= k < ref_edges(matches, id, tokens).len() ==> (#[trigger] ref_edges(
                matches,
                id,
                tokens,
            )[k]).0 == id && ref_edges(matches, id, tokens)[k].2 == 3,
    decreases tokens.len(),
{
    if tokens.len() > 0 {
        lemma_ref_edges_start_at(matches, id, tokens.drop_last());
        let before = ref_edges(matches, id, tokens.drop_last());
        let last = token_edges(matches, id, tokens.last(), 3);
        let r = ref_edges(matches, id, tokens);
        assert forall|k: int| 0 <= k < r.len() implies (#[trigger] r[k]).0 == id && r[k].2 == 3 by {
            if k < before.len() {
                assert(r[k] == before[k]);
            } else {
                assert(r[k] == last[k - before.len()]);
            }
        }
    }
}

/// Every dependency of a match starts at the match, and its kind is one of the four.
pub proof fn law_edges_start_at_the_match(matches: Seq<MatchSetupData>, id: Seq<char>)
    ensures
        forall|k: int|
            0 <= k < edges_of(matches, id).len() ==> (#[trigger] edges_of(matches, id)[k]).0 == id
                && edges_of(matches, id)[k].2 <= 3,
{
    if let Some(i) = match_at(matches, id) {
        lemma_ref_edges_start_at(
            matches,
            id,
            text::split_at_each(teams::text_or_empty(text::opt_text(matches[i].refs_initial)), ','),
        );
    }
}

// ---------------------------------------------------------------------------
// How dependencies are drawn
// ---------------------------------------------------------------------------

/// The colour of an edge.
pub open spec fn edge_color(kind: u8) -> Seq<char> {
    if kind == 0 {
        "#0d6efd"@
    } else if kind == 1 || kind == 2 {
        "#d63384"@
    } else {
        "#fd7e14"@
    }
}

/// Line colour of an edge (0 = chain, 1 and 2 = side result, else ref result).
pub fn dep_edge_color(kind: u8) -> (r: &'static str)
    ensures
        r@ == edge_color(kind),
{
    if kind == 0 {
        "#0d6efd"
    } else if kind == 1 || kind == 2 {
        "#d63384"
    } else {
        "#fd7e14"
    }
}

/// The dashes of an edge.
pub open spec fn edge_dash(kind: u8) -> Seq<char> {
    if kind <= 1 {
        "none"@
    } else if kind == 2 {
        "7 4"@
    } else {
        "3 3"@
    }
}

/// Dash pattern of an edge: none for the chain and the first side.
pub fn dep_edge_dash(kind: u8) -> (r: &'static str)
    ensures
        r@ == edge_dash(kind),
{
    if kind <= 1 {
        "none"
    } else if kind == 2 {
        "7 4"
    } else {
        "3 3"
    }
}

/// One ring around a block, with its separator.
pub open spec fn ring(i: int, kind: u8) -> Seq<char> {
    "0 0 0 "@ + text::decimal((4 * i + 3) as nat) + "px "@ + edge_color(kind) + ", 0 0 0 "@ + text::decimal(
        (4 * i + 4) as nat,
    ) + "px rgba(255,255,255,0.9)"@
}

/// The rings of a list of edges, from the inside out.
pub open spec fn rings(kinds: Seq<u8>) -> Seq<Seq<char>> {
    Seq::new(kinds.len(), |i: int| ring(i, kinds[i]))
}

/// The outline of a block with a list of edges.
pub open spec fn ring_shadow(kinds: Seq<u8>) -> Seq<char> {
    "box-shadow: "@ + text::joined(rings(kinds), ", "@) + ";"@
}

fn ring_text(i: u64, kind: u8) -> (r: String)
    requires
        i < 0x1000_0000_0000,
    ensures
        r@ == ring(i as int, kind),
{
    let mut s = "0 0 0 ".to_owned();
    s.append(decimal_text(4 * i + 3).as_str());
    s.append("px ");
    s.append(dep_edge_color(kind));
    s.append(", 0 0 0 ");
    s.append(decimal_text(4 * i + 4).as_str());
    s.append("px rgba(255,255,255,0.9)");
    s
}

/// Stacked outline rings for a block: one 3px ring per edge, in order, coloured like its line, with
/// 1px separators.
pub fn dep_ring_shadow(kinds: &[u8]) -> (r: String)
    requires
        kinds@.len() < 0x1000_0000_0000,
    ensures
        r@ == ring_shadow(kinds@),
{
    let mut parts: Vec<String> = Vec::new();
    let mut i: usize = 0;
    while i < kinds.len()
        invariant
            i <= kinds@.len(),
            kinds@.len() < 0x1000_0000_0000,
            parts@.len() == i,
            forall|k: int| 0 <= k < i ==> (#[trigger] parts@[k])@ == ring(k, kinds@[k]),
        decreases kinds@.len() - i,
    {
        parts.push(ring_text(i as u64, kinds[i]));
        i = i + 1;
    }
    assert(text::texts(parts@) =~= rings(kinds@));
    concat3("box-shadow: ", join(parts.as_slice(), ", ").as_str(), ";")
}

/// The kinds of the edges that leave or arrive at a block, in order. An edge from a block to itself
/// counts twice.
pub open spec fn kinds_at(edges: Seq<(Seq<char>, Seq<char>, u8)>, id: Seq<char>) -> Seq<u8>
    decreases edges.len(),
{
    if edges.len() == 0 {
        Seq::empty()
    } else {
        let before = kinds_at(edges.drop_last(), id);
        let e = edges.last();
        let left = if e.0 == id {
            before.push(e.2)
        } else {
            before
        };
        if e.1 == id {
            left.push(e.2)
        } else {
            left
        }
    }
}

/// The kinds of the edges at a block.
pub fn edge_kinds(edges: &[DepEdge], id: &str) -> (r: Vec<u8>)
    ensures
        r@ == kinds_at(edge_texts(edges@), id@),
        r@.len() <= 2 * edges@.len(),
{
    let mut out: Vec<u8> = Vec::new();
    let mut i: usize = 0;
    let ghost all = edge_texts(edges@);
    assert(all.take(0) =~= Seq::<(Seq<char>, Seq<char>, u8)>::empty());
    while i < edges.len()
        invariant
            i <= edges@.len(),
            all == edge_texts(edges@),
            out@ == kinds_at(all.take(i as int), id@),
            out@.len() <= 2 * i,
        decreases edges@.len() - i,
    {
        assert(all.take(i + 1).drop_last() =~= all.take(i as int));
        assert(all.take(i + 1).last() == edge_text(edges@[i as int]));
        if str_eq(edges[i].from.as_str(), id) {
            out.push(edges[i].kind);
        }
        if str_eq(edges[i].to.as_str(), id) {
            out.push(edges[i].kind);
        }
        i = i + 1;
    }
    assert(all.take(i as int) =~= all);
    out
}

/// The outline of a block that an edge touches.
pub fn block_shadow(edges: &[DepEdge], id: &str) -> (r: Option<String>)
    requires
        edges@.len() < 0x100_0000_0000,
    ensures
        ({
            let kinds = kinds_at(edge_texts(edges@), id@);
            if kinds.len() == 0 {
                r is None
            } else {
                text::opt_text(r) == Some(ring_shadow(kinds))
            }
        }),
{
    let kinds = edge_kinds(edges, id);
    if kinds.len() == 0 {
        None
    } else {
        Some(dep_ring_shadow(kinds.as_slice()))
    }
}

/// The class that an edge gives to the block it arrives at.
pub open spec fn target_class(kind: u8) -> Seq<char> {
    if kind == 0 {
        "schedule-timeline-event--dep-chain"@
    } else if kind == 1 || kind == 2 {
        "schedule-timeline-event--dep-team"@
    } else {
        "schedule-timeline-event--dep-ref"@
    }
}

/// The class of a block: as each edge comes, its source becomes a source, and its target keeps the
/// class that it has or gets the one of the edge.
pub open spec fn class_at(edges: Seq<(Seq<char>, Seq<char>, u8)>, id: Seq<char>) -> Option<Seq<char>>
    decreases edges.len(),
{
    if edges.len() == 0 {
        None
    } else {
        let before = class_at(edges.drop_last(), id);
        let e = edges.last();
        let left = if e.0 == id {
            Some("schedule-timeline-event--dep-source"@)
        } else {
            before
        };
        if e.1 == id && left is None {
            Some(target_class(e.2))
        } else {
            left
        }
    }
}

fn target_class_text(kind: u8) -> (r: &'static str)
    ensures
        r@ == target_class(kind),
{
    if kind == 0 {
        "schedule-timeline-event--dep-chain"
    } else if kind == 1 || kind == 2 {
        "schedule-timeline-event--dep-team"
    } else {
        "schedule-timeline-event--dep-ref"
    }
}

/// Highlight class of a block, if an edge touches it.
pub fn block_class(edges: &[DepEdge], id: &str) -> (r: Option<&'static str>)
    ensures
        text::opt_slice(r) == class_at(edge_texts(edges@), id@),
{
    let mut class: Option<&'static str> = None;
    let mut i: usize = 0;
    let ghost all = edge_texts(edges@);
    assert(all.take(0) =~= Seq::<(Seq<char>, Seq<char>, u8)>::empty());
    while i < edges.len()
        invariant
            i <= edges@.len(),
            all == edge_texts(edges@),
            text::opt_slice(class) == class_at(all.take(i as int), id@),
        decreases edges@.len() - i,
    {
        assert(all.take(i + 1).drop_last() =~= all.take(i as int));
        assert(all.take(i + 1).last() == edge_text(edges@[i as int]));
        if str_eq(edges[i].from.as_str(), id) {
            class = Some("schedule-timeline-event--dep-source");
        }
        if str_eq(edges[i].to.as_str(), id) && class.is_none() {
            class = Some(target_class_text(edges[i].kind));
        }
        i = i + 1;
    }
    assert(all.take(i as int) =~= all);
    class
}

/// A block has a class exactly if it has an outline.
pub proof fn law_class_and_outline_go_together(edges: Seq<(Seq<char>, Seq<char>, u8)>, id: Seq<char>)
    ensures
        class_at(edges, id) is Some <==> kinds_at(edges, id).len() > 0,
    decreases edges.len(),
{
    if edges.len() > 0 {
        law_class_and_outline_go_together(edges.drop_last(), id);
    }
}

/// The source of a match's dependencies is marked as the source, whatever else refers to it.
pub proof fn law_source_is_marked_as_source(edges: Seq<(Seq<char>, Seq<char>, u8)>, id: Seq<char>, k: int)
    requires
        0 <= k < edges.len(),
        edges[k].0 == id,
        forall|j: int| 0 <= j < edges.len() ==> (#[trigger] edges[j]).0 == id,
    ensures
        class_at(edges, id) == Some("schedule-timeline-event--dep-source"@),
{
    assert(edges.last() == edges[edges.len() - 1]);
}

proof fn lemma_class_stays(edges: Seq<(Seq<char>, Seq<char>, u8)>, k: int, id: Seq<char>)
    requires
        0 <= k <= edges.len(),
        class_at(edges.take(k), id) is Some,
        forall|j: int| k <= j < edges.len() ==> (#[trigger] edges[j]).0 != id,
    ensures
        class_at(edges, id) == class_at(edges.take(k), id),
    decreases edges.len() - k,
{
    if k == edges.len() {
        assert(edges.take(k) =~= edges);
    } else {
        let shorter = edges.drop_last();
        assert(shorter.take(k) =~= edges.take(k));
        assert forall|j: int| k <= j < shorter.len() implies (#[trigger] shorter[j]).0 != id by {
            assert(shorter[j] == edges[j]);
        }
        lemma_class_stays(shorter, k, id);
        assert(edges.last() == edges[edges.len() - 1]);
    }
}

/// The previous match of a match is marked as such, whatever else refers to it.
pub proof fn law_previous_match_is_marked_first(matches: Seq<MatchSetupData>, id: Seq<char>)
    ensures
        match_at(matches, id) matches Some(i) ==> (text::opt_text(matches[i].previous_match) matches Some(
            prev,
        ) ==> (prev.len() > 0 && prev != id ==> class_at(edges_of(matches, id), prev) == Some(
            target_class(0),
        ))),
{
    if let Some(i) = match_at(matches, id) {
        if let Some(prev) = text::opt_text(matches[i].previous_match) {
            if prev.len() > 0 && prev != id {
                let edges = edges_of(matches, id);
                law_edges_start_at_the_match(matches, id);
                let first = edges.take(1);
                assert(first =~= seq![(id, prev, 0u8)]);
                assert(first.drop_last() =~= Seq::<(Seq<char>, Seq<char>, u8)>::empty());
                assert(first.last() == (id, prev, 0u8));
                assert(class_at(first.drop_last(), prev) is None);
                assert(class_at(first, prev) == Some(target_class(0)));
                lemma_class_stays(edges, 1, prev);
            }
        }
    }
}

// ---------------------------------------------------------------------------
// What a match waits for
// ---------------------------------------------------------------------------

/// A token waits for the result of the match with an id.
pub open spec fn waits_for(matches: Seq<MatchSetupData>, token: Option<String>, id: Seq<char>) -> bool {
    token matches Some(t) && (referred_name(t@) matches Some(name) && game_id(matches, name) == Some(id))
}

/// The game of a name is the last match with that name that is no break and no join; where there is
/// none, no match of that name is a game.
pub proof fn law_game_of_a_name(matches: Seq<MatchSetupData>, name: Seq<char>)
    ensures
        match game_id(matches, name) {
            Some(id) => exists|i: int|
                0 <= i < matches.len() && (#[trigger] matches[i]).uuid@ == id && matches[i].name@ == name
                    && !teams::structural(text::opt_text(matches[i].schedule_type)) && forall|j: int|
                    i < j < matches.len() && (#[trigger] matches[j]).name@ == name ==> teams::structural(
                        text::opt_text(matches[j].schedule_type),
                    ),
            None => forall|j: int|
                0 <= j < matches.len() && (#[trigger] matches[j]).name@ == name ==> teams::structural(
                    text::opt_text(matches[j].schedule_type),
                ),
        },
{
    let p = game_named(matches, name);
    order::lemma_last_where(matches.len(), p);
    match order::last_where(matches.len(), p) {
        Some(i) => {
            assert(p(i));
            assert forall|j: int| i < j < matches.len() && (#[trigger] matches[j]).name@ == name implies teams::structural(
                text::opt_text(matches[j].schedule_type),
            ) by {
                assert(!p(j));
            }
            assert(matches[i].uuid@ == game_id(matches, name)->0);
        },
        None => {
            assert forall|j: int| 0 <= j < matches.len() && (#[trigger] matches[j]).name@ == name implies teams::structural(
                text::opt_text(matches[j].schedule_type),
            ) by {
                assert(!p(j));
            }
        },
    }
}

/// The match of an id is the first with that id; where there is none, no match has it.
pub proof fn law_match_of_an_id(matches: Seq<MatchSetupData>, id: Seq<char>)
    ensures
        match match_at(matches, id) {
            Some(i) => 0 <= i < matches.len() && matches[i].uuid@ == id && forall|j: int|
                0 <= j < i ==> (#[trigger] matches[j]).uuid@ != id,
            None => forall|j: int| 0 <= j < matches.len() ==> (#[trigger] matches[j]).uuid@ != id,
        },
{
    let p = match_with_id(matches, id);
    order::lemma_first_where(matches.len(), p);
    match order::first_where(matches.len(), p) {
        Some(i) => {
            assert(p(i));
            assert forall|j: int| 0 <= j < i implies (#[trigger] matches[j]).uuid@ != id by {
                assert(!p(j));
            }
        },
        None => {
            assert forall|j: int| 0 <= j < matches.len() implies (#[trigger] matches[j]).uuid@ != id by {
                assert(!p(j));
            }
        },
    }
}

/// A side that waits for the winner or the loser of a game refers to that game by its name, whatever
/// white space stands around it; a token of any other form refers to none.
pub proof fn law_results_refer_by_name(name: Seq<char>, token: Seq<char>)
    ensures
        referred_name(name + "::winner"@) == Some(text::trimmed(name)),
        referred_name(name + "::loser"@) == Some(text::trimmed(name)),
        !text::ends_with(text::trimmed(token), "::winner"@) && !text::ends_with(text::trimmed(token), "::loser"@) ==> referred_name(token)
            is None,
{
    card::law_result_token_refers_to_its_match(name, true);
    card::law_result_token_refers_to_its_match(name, false);
}

/// A match that follows another, or that has a side or a ref who waits for the result of a game, has
/// an edge to each of these, and the edge says for which of them it is.
pub proof fn law_every_wait_is_an_edge(matches: Seq<MatchSetupData>, i: int, to: Seq<char>)
    requires
        0 <= i < matches.len(),
        forall|j: int| 0 <= j < i ==> (#[trigger] matches[j]).uuid@ != matches[i].uuid@,
    ensures
        ({
            let id = matches[i].uuid@;
            let edges = edges_of(matches, id);
            &&& text::opt_text(matches[i].previous_match) == Some(to) && to.len() > 0 ==> edges.contains((id, to, 0u8))
            &&& waits_for(matches, matches[i].team1_initial, to) ==> edges.contains((id, to, 1u8))
            &&& waits_for(matches, matches[i].team2_initial, to) ==> edges.contains((id, to, 2u8))
            &&& forall|k: int|
                matches[i].refs_initial is Some && 0 <= k < text::split_at_each(matches[i].refs_initial->0@, ',').len()
                    && referred_name(#[trigger] text::split_at_each(matches[i].refs_initial->0@, ',')[k]) is Some
                    && game_id(
                    matches,
                    referred_name(text::split_at_each(matches[i].refs_initial->0@, ',')[k])->0,
                ) == Some(to) ==> edges.contains((id, to, 3u8))
        }),
{
    let id = matches[i].uuid@;
    let m = matches[i];
    law_match_of_an_id(matches, id);
    let at = match_at(matches, id)->0;
    assert(matches[at].uuid@ == id);
    assert(at == i);
    let a = chain_edges(m, id);
    let b = opt_token_edges(matches, id, text::opt_text(m.team1_initial), 1);
    let c = opt_token_edges(matches, id, text::opt_text(m.team2_initial), 2);
    let tokens = text::split_at_each(teams::text_or_empty(text::opt_text(m.refs_initial)), ',');
    let d = ref_edges(matches, id, tokens);
    let edges = edges_of(matches, id);
    assert(edges == a + b + c + d);
    if text::opt_text(m.previous_match) == Some(to) && to.len() > 0 {
        assert(edges[0] == (id, to, 0u8));
    }
    if waits_for(matches, m.team1_initial, to) {
        assert(b[0] == (id, to, 1u8));
        assert(edges[a.len() as int] == (id, to, 1u8));
    }
    if waits_for(matches, m.team2_initial, to) {
        assert(c[0] == (id, to, 2u8));
        assert(edges[(a.len() + b.len()) as int] == (id, to, 2u8));
    }
    assert forall|k: int|
        m.refs_initial is Some && 0 <= k < text::split_at_each(m.refs_initial->0@, ',').len() && referred_name(
            #[trigger] text::split_at_each(m.refs_initial->0@, ',')[k],
        ) is Some && game_id(matches, referred_name(text::split_at_each(m.refs_initial->0@, ',')[k])->0) == Some(to) implies edges.contains(
        (id, to, 3u8),
    ) by {
        lemma_ref_edge_of_token(matches, id, tokens, k);
        let at = choose|at: int| 0 <= at < d.len() && d[at] == (id, to, 3u8);
        assert(edges[a.len() + b.len() + c.len() + at] == (id, to, 3u8));
    }
}

proof fn lemma_ref_edge_of_token(matches: Seq<MatchSetupData>, id: Seq<char>, tokens: Seq<Seq<char>>, k: int)
    requires
        0 <= k < tokens.len(),
        referred_name(tokens[k]) is Some,
        game_id(matches, referred_name(tokens[k])->0) is Some,
    ensures
        ref_edges(matches, id, tokens).contains((id, game_id(matches, referred_name(tokens[k])->0)->0, 3u8)),
    decreases tokens.len(),
{
    let e = (id, game_id(matches, referred_name(tokens[k])->0)->0, 3u8);
    let before = ref_edges(matches, id, tokens.drop_last());
    let last = token_edges(matches, id, tokens.last(), 3);
    let all = ref_edges(matches, id, tokens);
    if k == tokens.len() - 1 {
        assert(last[0] == e);
        assert(all[before.len() as int] == e);
    } else {
        lemma_ref_edge_of_token(matches, id, tokens.drop_last(), k);
        let at = choose|at: int| 0 <= at < before.len() && before[at] == e;
        assert(all[at] == e);
    }
}

proof fn lemma_token_of_ref_edge(matches: Seq<MatchSetupData>, id: Seq<char>, tokens: Seq<Seq<char>>, at: int)
    requires
        0 <= at < ref_edges(matches, id, tokens).len(),
    ensures
        exists|k: int|
            0 <= k < tokens.len() && referred_name(#[trigger] tokens[k]) is Some && game_id(
                matches,
                referred_name(tokens[k])->0,
            ) == Some(ref_edges(matches, id, tokens)[at].1),
    decreases tokens.len(),
{
    let before = ref_edges(matches, id, tokens.drop_last());
    let all = ref_edges(matches, id, tokens);
    if at < before.len() {
        assert(all[at] == before[at]);
        lemma_token_of_ref_edge(matches, id, tokens.drop_last(), at);
        let k = choose|k: int|
            0 <= k < tokens.drop_last().len() && referred_name(#[trigger] tokens.drop_last()[k]) is Some && game_id(
                matches,
                referred_name(tokens.drop_last()[k])->0,
            ) == Some(before[at].1);
        assert(tokens[k] == tokens.drop_last()[k]);
    } else {
        assert(tokens[tokens.len() - 1] == tokens.last());
    }
}

/// Every edge of a match has its reason: the match follows the other, or one of its sides or refs
/// waits for its result.
pub proof fn law_every_edge_is_a_wait(matches: Seq<MatchSetupData>, id: Seq<char>, k: int)
    requires
        0 <= k < edges_of(matches, id).len(),
    ensures
        match_at(matches, id) is Some,
        ({
            let e = edges_of(matches, id)[k];
            let m = matches[match_at(matches, id)->0];
            ||| e.2 == 0 && text::opt_text(m.previous_match) == Some(e.1)
            ||| e.2 == 1 && waits_for(matches, m.team1_initial, e.1)
            ||| e.2 == 2 && waits_for(matches, m.team2_initial, e.1)
            ||| e.2 == 3 && m.refs_initial is Some && exists|j: int|
                0 <= j < text::split_at_each(m.refs_initial->0@, ',').len() && referred_name(
                    #[trigger] text::split_at_each(m.refs_initial->0@, ',')[j],
                ) is Some && game_id(
                    matches,
                    referred_name(text::split_at_each(m.refs_initial->0@, ',')[j])->0,
                ) == Some(e.1)
        }),
{
    let m = matches[match_at(matches, id)->0];
    let a = chain_edges(m, id);
    let b = opt_token_edges(matches, id, text::opt_text(m.team1_initial), 1);
    let c = opt_token_edges(matches, id, text::opt_text(m.team2_initial), 2);
    let tokens = text::split_at_each(teams::text_or_empty(text::opt_text(m.refs_initial)), ',');
    let d = ref_edges(matches, id, tokens);
    let edges = edges_of(matches, id);
    assert(edges == a + b + c + d);
    let before = a.len() + b.len() + c.len();
    if k >= before {
        assert(edges[k] == d[k - before]);
        lemma_ref_edges_start_at(matches, id, tokens);
        lemma_token_of_ref_edge(matches, id, tokens, k - before);
        if m.refs_initial is None {
            assert(tokens =~= seq![Seq::<char>::empty()]);
            let j = choose|j: int|
                0 <= j < tokens.len() && referred_name(#[trigger] tokens[j]) is Some && game_id(
                    matches,
                    referred_name(tokens[j])->0,
                ) == Some(d[k - before].1);
            assert(tokens[j].len() == 0);
            reveal_strlit("::winner");
            reveal_strlit("::loser");
            assert(text::trimmed(tokens[j]).len() == 0);
        }
    }
}

/// An edge marks the block that it leaves and the block that it arrives at with its kind.
pub proof fn law_an_edge_marks_both_ends(edges: Seq<(Seq<char>, Seq<char>, u8)>, k: int)
    requires
        0 <= k < edges.len(),
    ensures
        kinds_at(edges, edges[k].0).contains(edges[k].2),
        kinds_at(edges, edges[k].1).contains(edges[k].2),
    decreases edges.len(),
{
    lemma_kind_is_marked(edges, k, edges[k].0);
    lemma_kind_is_marked(edges, k, edges[k].1);
}

proof fn lemma_kind_is_marked(edges: Seq<(Seq<char>, Seq<char>, u8)>, k: int, id: Seq<char>)
    requires
        0 <= k < edges.len(),
        edges[k].0 == id || edges[k].1 == id,
    ensures
        kinds_at(edges, id).contains(edges[k].2),
    decreases edges.len(),
{
    let before = kinds_at(edges.drop_last(), id);
    let all = kinds_at(edges, id);
    if k == edges.len() - 1 {
        assert(all[all.len() - 1] == edges[k].2);
    } else {
        lemma_kind_is_marked(edges.drop_last(), k, id);
        let at = choose|at: int| 0 <= at < before.len() && before[at] == edges[k].2;
        assert(all[at] == edges[k].2);
    }
}

/// A block is marked with a kind only where an edge of that kind leaves it or arrives at it.
pub proof fn law_marks_come_from_edges(edges: Seq<(Seq<char>, Seq<char>, u8)>, id: Seq<char>, at: int)
    requires
        0 <= at < kinds_at(edges, id).len(),
    ensures
        exists|k: int|
            0 <= k < edges.len() && (#[trigger] edges[k]).2 == kinds_at(edges, id)[at] && (edges[k].0 == id
                || edges[k].1 == id),
    decreases edges.len(),
{
    let before = kinds_at(edges.drop_last(), id);
    let all = kinds_at(edges, id);
    if at < before.len() {
        assert(all[at] == before[at]);
        law_marks_come_from_edges(edges.drop_last(), id, at);
        let k = choose|k: int|
            0 <= k < edges.drop_last().len() && (#[trigger] edges.drop_last()[k]).2 == before[at] && (
            edges.drop_last()[k].0 == id || edges.drop_last()[k].1 == id);
        assert(edges[k] == edges.drop_last()[k]);
    } else {
        assert(edges[edges.len() - 1] == edges.last());
    }
}

/// The four kinds of edges can be told apart by colour and dashes; the two sides have one colour.
pub proof fn law_kinds_look_different(a: u8, b: u8)
    requires
        a <= 3,
        b <= 3,
    ensures
        edge_color(1) == edge_color(2),
        target_class(1) == target_class(2),
        a != b ==> edge_color(a) != edge_color(b) || edge_dash(a) != edge_dash(b),
        edge_color(a) == edge_color(b) <==> target_class(a) == target_class(b),
{
    reveal_strlit("#0d6efd");
    reveal_strlit("#d63384");
    reveal_strlit("#fd7e14");
    reveal_strlit("none");
    reveal_strlit("7 4");
    reveal_strlit("3 3");
    reveal_strlit("schedule-timeline-event--dep-chain");
    reveal_strlit("schedule-timeline-event--dep-team");
    reveal_strlit("schedule-timeline-event--dep-ref");
    assert("#0d6efd"@[1] != "#d63384"@[1] && "#0d6efd"@[1] != "#fd7e14"@[1] && "#d63384"@[1] != "#fd7e14"@[1]);
    assert("none"@.len() == 4 && "7 4"@.len() == 3 && "3 3"@.len() == 3 && "7 4"@[0] != "3 3"@[0]);
    assert("schedule-timeline-event--dep-chain"@.len() == 34 && "schedule-timeline-event--dep-team"@.len() == 33
        && "schedule-timeline-event--dep-ref"@.len() == 32);
}

} // verus!
