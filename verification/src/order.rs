//! Searching, filtering and ordering of lists, stated over positions.
use vstd::prelude::*;

verus! {

/// The positions below `n` that satisfy `p`, in order.
pub open spec fn kept(n: nat, p: spec_fn(int) -> bool) -> Seq<int>
    decreases n,
{
    if n == 0 {
        Seq::empty()
    } else {
        let before = kept((n - 1) as nat, p);
        if p(n - 1) {
            before.push(n - 1)
        } else {
            before
        }
    }
}

/// The first position below `n` that satisfies `p`.
pub open spec fn first_where(n: nat, p: spec_fn(int) -> bool) -> Option<int>
    decreases n,
{
    if n == 0 {
        None
    } else {
        match first_where((n - 1) as nat, p) {
            Some(i) => Some(i),
            None => if p(n - 1) {
                Some(n - 1)
            } else {
                None
            },
        }
    }
}

/// The last position below `n` that satisfies `p`.
pub open spec fn last_where(n: nat, p: spec_fn(int) -> bool) -> Option<int>
    decreases n,
{
    if n == 0 {
        None
    } else if p(n - 1) {
        Some(n - 1)
    } else {
        last_where((n - 1) as nat, p)
    }
}

/// The kept positions are positions below `n` that satisfy `p`, in strictly rising order, and every
/// such position is kept.
pub proof fn lemma_kept(n: nat, p: spec_fn(int) -> bool)
    ensures
        kept(n, p).len() <= n,
        forall|k: int| 0 <= k < kept(n, p).len() ==> 0 <= #[trigger] kept(n, p)[k] < n && p(
            kept(n, p)[k],
        ),
        forall|j: int, k: int| 0 <= j < k < kept(n, p).len() ==> kept(n, p)[j] < kept(n, p)[k],
        forall|i: int| 0 <= i < n && #[trigger] p(i) ==> kept(n, p).contains(i),
    decreases n,
{
    if n > 0 {
        lemma_kept((n - 1) as nat, p);
        let before = kept((n - 1) as nat, p);
        assert forall|i: int| 0 <= i < n && #[trigger] p(i) implies kept(n, p).contains(i) by {
            if i == n - 1 {
                assert(kept(n, p)[kept(n, p).len() - 1] == i);
            } else {
                assert(before.contains(i));
                let k = choose|k: int| 0 <= k < before.len() && before[k] == i;
                assert(kept(n, p)[k] == i);
            }
        }
    }
}

/// What [`first_where`] finds is the first.
pub proof fn lemma_first_where(n: nat, p: spec_fn(int) -> bool)
    ensures
        match first_where(n, p) {
            Some(i) => 0 <= i < n && p(i) && forall|j: int| 0 <= j < i ==> !#[trigger] p(j),
            None => forall|j: int| 0 <= j < n ==> !#[trigger] p(j),
        },
    decreases n,
{
    if n > 0 {
        lemma_first_where((n - 1) as nat, p);
    }
}

/// A position found early stays found in a longer list.
pub proof fn lemma_first_where_stays(k: nat, n: nat, p: spec_fn(int) -> bool)
    requires
        k <= n,
        first_where(k, p) is Some,
    ensures
        first_where(n, p) == first_where(k, p),
    decreases n,
{
    if k < n {
        lemma_first_where_stays(k, (n - 1) as nat, p);
    }
}

/// What [`last_where`] finds is the last.
pub proof fn lemma_last_where(n: nat, p: spec_fn(int) -> bool)
    ensures
        match last_where(n, p) {
            Some(i) => 0 <= i < n && p(i) && forall|j: int| i < j < n ==> !#[trigger] p(j),
            None => forall|j: int| 0 <= j < n ==> !#[trigger] p(j),
        },
    decreases n,
{
    if n > 0 {
        lemma_last_where((n - 1) as nat, p);
    }
}

/// `x` put into an ordered list, after everything that it does not come before.
pub open spec fn inserted(order: Seq<int>, x: int, before: spec_fn(int, int) -> bool) -> Seq<int>
    decreases order.len(),
{
    if order.len() > 0 && before(x, order.last()) {
        inserted(order.drop_last(), x, before).push(order.last())
    } else {
        order.push(x)
    }
}

/// The positions below `n` in the order of `before`, equal ones in their own order.
pub open spec fn stable_order(n: nat, before: spec_fn(int, int) -> bool) -> Seq<int>
    decreases n,
{
    if n == 0 {
        Seq::empty()
    } else {
        inserted(stable_order((n - 1) as nat, before), n - 1, before)
    }
}

/// `before` orders: it is irreflexive and transitive, and so is what it leaves undecided.
pub open spec fn orders(before: spec_fn(int, int) -> bool) -> bool {
    &&& forall|a: int| !#[trigger] before(a, a)
    &&& forall|a: int, b: int, c: int| #[trigger] before(a, c) ==> (#[trigger] before(a, b) || before(b, c))
    &&& forall|a: int, b: int| #[trigger] before(a, b) ==> !before(b, a)
}

/// No earlier entry comes after a later one, and undecided entries stand in rising order.
pub open spec fn stably_sorted(order: Seq<int>, before: spec_fn(int, int) -> bool) -> bool {
    forall|j: int, k: int|
        0 <= j < k < order.len() ==> !before(#[trigger] order[k], #[trigger] order[j]) && (before(
            order[j],
            order[k],
        ) || order[j] < order[k])
}

proof fn lemma_inserted_entries(order: Seq<int>, x: int, before: spec_fn(int, int) -> bool)
    ensures
        inserted(order, x, before).len() == order.len() + 1,
        forall|y: int| #[trigger] inserted(order, x, before).contains(y) <==> y == x || order.contains(
            y,
        ),
    decreases order.len(),
{
    let r = inserted(order, x, before);
    if order.len() > 0 && before(x, order.last()) {
        let shorter = order.drop_last();
        lemma_inserted_entries(shorter, x, before);
        let q = inserted(shorter, x, before);
        assert forall|y: int| #[trigger] r.contains(y) <==> y == x || order.contains(y) by {
            if r.contains(y) {
                let i = choose|i: int| 0 <= i < r.len() && r[i] == y;
                if i < q.len() {
                    assert(q.contains(y));
                    if y != x {
                        let j = choose|j: int| 0 <= j < shorter.len() && shorter[j] == y;
                        assert(order[j] == y);
                    }
                } else {
                    assert(order[order.len() - 1] == y);
                }
            }
            if order.contains(y) || y == x {
                if order.contains(y) && y == order.last() {
                    assert(r[r.len() - 1] == y);
                } else {
                    if order.contains(y) {
                        let j = choose|j: int| 0 <= j < order.len() && order[j] == y;
                        assert(shorter[j] == y);
                    }
                    assert(q.contains(y));
                    let i = choose|i: int| 0 <= i < q.len() && q[i] == y;
                    assert(r[i] == y);
                }
            }
        }
    } else {
        assert forall|y: int| #[trigger] r.contains(y) <==> y == x || order.contains(y) by {
            if order.contains(y) {
                let j = choose|j: int| 0 <= j < order.len() && order[j] == y;
                assert(r[j] == y);
            }
            if y == x {
                assert(r[order.len() as int] == y);
            }
            if r.contains(y) {
                let i = choose|i: int| 0 <= i < r.len() && r[i] == y;
                if i < order.len() {
                    assert(order[i] == y);
                }
            }
        }
    }
}

proof fn lemma_inserted_sorted(order: Seq<int>, x: int, before: spec_fn(int, int) -> bool)
    requires
        orders(before),
        stably_sorted(order, before),
        forall|k: int| 0 <= k < order.len() ==> #[trigger] order[k] < x,
    ensures
        stably_sorted(inserted(order, x, before), before),
    decreases order.len(),
{
    let r = inserted(order, x, before);
    if order.len() > 0 && before(x, order.last()) {
        let shorter = order.drop_last();
        lemma_inserted_sorted(shorter, x, before);
        lemma_inserted_entries(shorter, x, before);
        let q = inserted(shorter, x, before);
        assert forall|j: int, k: int| 0 <= j < k < r.len() implies !before(
            #[trigger] r[k],
            #[trigger] r[j],
        ) && (before(r[j], r[k]) || r[j] < r[k]) by {
            if k < q.len() {
                assert(r[j] == q[j] && r[k] == q[k]);
            } else {
                assert(q.contains(r[j])) by {
                    assert(q[j] == r[j]);
                }
                if r[j] != x {
                    let i = choose|i: int| 0 <= i < shorter.len() && shorter[i] == r[j];
                    assert(order[i] == r[j] && order[order.len() - 1] == r[k]);
                }
            }
        }
    } else {
        assert forall|j: int, k: int| 0 <= j < k < r.len() implies !before(
            #[trigger] r[k],
            #[trigger] r[j],
        ) && (before(r[j], r[k]) || r[j] < r[k]) by {
            if k < order.len() {
                assert(r[j] == order[j] && r[k] == order[k]);
            } else {
                let last = order[order.len() - 1];
                assert(r[j] == order[j]);
                assert(!before(x, last));
                if before(x, order[j]) {
                    assert(before(x, last) || before(last, order[j]));
                    assert(j == order.len() - 1 || !before(last, order[j]));
                }
            }
        }
    }
}

/// The order holds every position below `n` exactly once, is sorted, and keeps undecided positions
/// in their own order.
pub proof fn lemma_stable_order(n: nat, before: spec_fn(int, int) -> bool)
    requires
        orders(before),
    ensures
        stable_order(n, before).len() == n,
        forall|y: int| #[trigger] stable_order(n, before).contains(y) <==> 0 <= y < n,
        forall|k: int| 0 <= k < n ==> 0 <= #[trigger] stable_order(n, before)[k] < n,
        stable_order(n, before).no_duplicates(),
        stably_sorted(stable_order(n, before), before),
    decreases n,
{
    if n > 0 {
        let shorter = stable_order((n - 1) as nat, before);
        lemma_stable_order((n - 1) as nat, before);
        lemma_inserted_entries(shorter, n - 1, before);
        assert forall|k: int| 0 <= k < shorter.len() implies #[trigger] shorter[k] < n - 1 by {
            assert(shorter.contains(shorter[k]));
        }
        lemma_inserted_sorted(shorter, n - 1, before);
        let r = stable_order(n, before);
        assert forall|k: int| 0 <= k < n implies 0 <= #[trigger] r[k] < n by {
            assert(r.contains(r[k]));
        }
        assert forall|j: int, k: int| 0 <= j < r.len() && 0 <= k < r.len() && j != k implies r[j]
            != r[k] by {
            if j < k {
                assert(before(r[j], r[k]) || r[j] < r[k]);
            } else {
                assert(before(r[k], r[j]) || r[k] < r[j]);
            }
        }
    }
}

/// The entries of a list of machine positions as integers.
pub open spec fn positions(v: Seq<usize>) -> Seq<int> {
    Seq::new(v.len(), |i: int| v[i] as int)
}

/// The positions below `n` in the order of `less`, which decides `before` for every pair of them.
pub(crate) fn stable_positions<L: Fn(usize, usize) -> bool>(
    n: usize,
    less: L,
    Ghost(before): Ghost<spec_fn(int, int) -> bool>,
) -> (r: Vec<usize>)
    requires
        forall|a: usize, b: usize| a < n && b < n ==> #[trigger] less.requires((a, b)),
        forall|a: usize, b: usize, t: bool|
            a < n && b < n && #[trigger] less.ensures((a, b), t) ==> t == before(a as int, b as int),
    ensures
        positions(r@) == stable_order(n as nat, before),
        forall|k: int| 0 <= k < r@.len() ==> #[trigger] r@[k] < n,
        r@.len() == n,
{
    let mut out: Vec<usize> = Vec::new();
    let mut i: usize = 0;
    assert(positions(out@) =~= Seq::<int>::empty());
    while i < n
        invariant
            i <= n,
            positions(out@) == stable_order(i as nat, before),
            out@.len() == i,
            forall|k: int| 0 <= k < out@.len() ==> #[trigger] out@[k] < n,
            forall|a: usize, b: usize| a < n && b < n ==> #[trigger] less.requires((a, b)),
            forall|a: usize, b: usize, t: bool|
                a < n && b < n && #[trigger] less.ensures((a, b), t) ==> t == before(
                    a as int,
                    b as int,
                ),
        decreases n - i,
    {
        let ghost start = out@;
        let ghost whole = inserted(positions(start), i as int, before);
        let mut at: usize = out.len();
        assert(start.take(at as int) =~= start);
        assert(inserted(positions(start.take(at as int)), i as int, before) + positions(
            start.skip(at as int),
        ) =~= whole);
        while at > 0 && less(i, out[at - 1])
            invariant
                at <= out@.len(),
                out@ == start,
                i < n,
                forall|k: int| 0 <= k < out@.len() ==> #[trigger] out@[k] < n,
                inserted(positions(start.take(at as int)), i as int, before) + positions(
                    start.skip(at as int),
                ) == whole,
                forall|a: usize, b: usize| a < n && b < n ==> #[trigger] less.requires((a, b)),
                forall|a: usize, b: usize, t: bool|
                    a < n && b < n && #[trigger] less.ensures((a, b), t) ==> t == before(
                        a as int,
                        b as int,
                    ),
            decreases at,
        {
            proof {
                let cut = positions(start.take(at as int));
                assert(cut.drop_last() =~= positions(start.take(at - 1)));
                assert(cut.last() == start[at - 1] as int);
                assert(inserted(cut, i as int, before) == inserted(
                    positions(start.take(at - 1)),
                    i as int,
                    before,
                ).push(start[at - 1] as int));
                assert(positions(start.skip(at - 1)) =~= seq![start[at - 1] as int] + positions(
                    start.skip(at as int),
                ));
                assert(inserted(positions(start.take(at - 1)), i as int, before) + positions(
                    start.skip(at - 1),
                ) =~= whole);
            }
            at = at - 1;
        }
        proof {
            let cut = positions(start.take(at as int));
            if at > 0 {
                assert(cut.last() == start[at - 1] as int);
            }
            assert(inserted(cut, i as int, before) == cut.push(i as int));
        }
        out.insert(at, i);
        assert(positions(out@) =~= positions(start.take(at as int)).push(i as int) + positions(
            start.skip(at as int),
        ));
        i = i + 1;
    }
    out
}

} // verus!
