//! Stable ordering by position: what `sort_by_key(|x| x.pos)` produces,
//! stated as "in order of position, and the items at each position keep
//! the order they had".

use vstd::prelude::*;

use crate::model::{CardModel, ColumnModel};

verus! {

/// Something ordered by an integer position.
pub trait Positioned: Sized {
    /// The position used for ordering.
    spec fn position(self) -> i64;
}

impl Positioned for ColumnModel {
    open spec fn position(self) -> i64 {
        self.pos
    }
}

impl Positioned for CardModel {
    open spec fn position(self) -> i64 {
        self.pos
    }
}

/// Whether `s` is in non-decreasing order of position.
pub open spec fn sorted_by_position<A: Positioned>(s: Seq<A>) -> bool {
    forall|i: int, j: int|
        0 <= i < j < s.len() ==> (#[trigger] s[i]).position() <= (#[trigger] s[j]).position()
}

/// Whether an item is at position `p`.
pub open spec fn position_is<A: Positioned>(p: i64) -> spec_fn(A) -> bool {
    |a: A| a.position() == p
}

/// The items of `s` at position `p`, in their order in `s`.
pub open spec fn at_position<A: Positioned>(s: Seq<A>, p: i64) -> Seq<A> {
    s.filter(position_is(p))
}

/// Whether `r` is `s` stably sorted by position: in order of position,
/// with the items at each position in the order they have in `s`.
pub open spec fn is_stable_sort<A: Positioned>(s: Seq<A>, r: Seq<A>) -> bool {
    &&& sorted_by_position(r)
    &&& forall|p: i64| #[trigger] at_position(r, p) == at_position(s, p)
}

proof fn lemma_filter_none<A>(s: Seq<A>, pred: spec_fn(A) -> bool)
    requires
        forall|i: int| 0 <= i < s.len() ==> !pred(#[trigger] s[i]),
    ensures
        s.filter(pred) == Seq::<A>::empty(),
    decreases s.len(),
{
    reveal(Seq::filter);
    if s.len() > 0 {
        lemma_filter_none(s.drop_last(), pred);
        assert(s.filter(pred) =~= Seq::<A>::empty());
    }
}

/// Inserting `x` after every item at a position up to its own and before
/// every item at a larger position keeps a sorted sequence sorted and
/// appends `x` to the items at its position.
pub proof fn lemma_insert_in_order<A: Positioned>(r: Seq<A>, x: A, j: int)
    requires
        sorted_by_position(r),
        0 <= j <= r.len(),
        forall|i: int| 0 <= i < j ==> (#[trigger] r[i]).position() <= x.position(),
        forall|i: int| j <= i < r.len() ==> (#[trigger] r[i]).position() > x.position(),
    ensures
        sorted_by_position(r.insert(j, x)),
        forall|p: i64|
            #[trigger] at_position(r.insert(j, x), p) == if p == x.position() {
                at_position(r, p).push(x)
            } else {
                at_position(r, p)
            },
{
    let n = r.insert(j, x);
    r.insert_ensures(j, x);
    assert forall|a: int, b: int| 0 <= a < b < n.len() implies (#[trigger] n[a]).position() <= (
    #[trigger] n[b]).position() by {
        if b < j {
        } else if b == j {
        } else if a < j {
            assert(n[b] == r[b - 1]);
        } else if a == j {
            assert(n[b] == r[b - 1]);
        } else {
            assert(n[a] == r[a - 1]);
            assert(n[b] == r[b - 1]);
        }
    }
    let head = r.subrange(0, j);
    let tail = r.subrange(j, r.len() as int);
    assert(r =~= head + tail);
    assert(n =~= head.push(x) + tail);
    assert forall|p: i64| #[trigger] at_position(n, p) == if p == x.position() {
        at_position(r, p).push(x)
    } else {
        at_position(r, p)
    } by {
        let pred = position_is::<A>(p);
        Seq::filter_distributes_over_add(head, tail, pred);
        Seq::filter_distributes_over_add(head.push(x), tail, pred);
        head.lemma_filter_push(x, pred);
        if p == x.position() {
            assert forall|i: int| 0 <= i < tail.len() implies !pred(#[trigger] tail[i]) by {
                assert(tail[i] == r[j + i]);
            }
            lemma_filter_none(tail, pred);
            assert(head.filter(pred) + Seq::<A>::empty() =~= head.filter(pred));
            assert(head.filter(pred).push(x) + Seq::<A>::empty() =~= head.filter(pred).push(x));
        }
    }
}

/// Appending an item to the input appends it to the input's items at its position.
pub proof fn lemma_at_position_push<A: Positioned>(s: Seq<A>, x: A)
    ensures
        forall|p: i64|
            #[trigger] at_position(s.push(x), p) == if p == x.position() {
                at_position(s, p).push(x)
            } else {
                at_position(s, p)
            },
{
    assert forall|p: i64| #[trigger] at_position(s.push(x), p) == if p == x.position() {
        at_position(s, p).push(x)
    } else {
        at_position(s, p)
    } by {
        s.lemma_filter_push(x, position_is::<A>(p));
    }
}

/// A stable sort keeps the same items: every item of the result comes from
/// the input, and every item of the input is in the result.
pub proof fn lemma_stable_sort_same_items<A: Positioned>(s: Seq<A>, r: Seq<A>)
    requires
        is_stable_sort(s, r),
    ensures
        forall|k: int| 0 <= k < r.len() ==> s.contains(#[trigger] r[k]),
        forall|k: int| 0 <= k < s.len() ==> r.contains(#[trigger] s[k]),
{
    assert forall|k: int| 0 <= k < r.len() implies s.contains(#[trigger] r[k]) by {
        let p = r[k].position();
        let pred = position_is::<A>(p);
        r.lemma_filter_contains(pred, k);
        assert(at_position(r, p) == at_position(s, p));
        s.lemma_filter_contains_rev(pred, r[k]);
    }
    assert forall|k: int| 0 <= k < s.len() implies r.contains(#[trigger] s[k]) by {
        let p = s[k].position();
        let pred = position_is::<A>(p);
        s.lemma_filter_contains(pred, k);
        assert(at_position(r, p) == at_position(s, p));
        r.lemma_filter_contains_rev(pred, s[k]);
    }
}

proof fn lemma_last_position_is_max<A: Positioned>(a: Seq<A>, b: Seq<A>)
    requires
        sorted_by_position(a),
        a.len() > 0,
        b.len() > 0,
        forall|p: i64| #[trigger] at_position(a, p) == at_position(b, p),
    ensures
        b.last().position() <= a.last().position(),
{
    let y = b.last();
    let p = y.position();
    b.lemma_filter_contains(position_is::<A>(p), b.len() - 1);
    assert(at_position(a, p) == at_position(b, p));
    a.lemma_filter_contains_rev(position_is::<A>(p), y);
    let k = choose|k: int| 0 <= k < a.len() && a[k] == y;
    if k < a.len() - 1 {
        assert(a[k].position() <= a[a.len() - 1].position());
    }
}

/// Two sequences sorted by position that hold the same items at every
/// position, in the same order, are equal: the stable order by position
/// is unique, so the order shown is deterministic.
pub proof fn lemma_stable_order_unique<A: Positioned>(a: Seq<A>, b: Seq<A>)
    requires
        sorted_by_position(a),
        sorted_by_position(b),
        forall|p: i64| #[trigger] at_position(a, p) == at_position(b, p),
    ensures
        a == b,
    decreases a.len(),
{
    if a.len() == 0 || b.len() == 0 {
        if a.len() > 0 {
            let p = a[0].position();
            a.lemma_filter_contains(position_is::<A>(p), 0);
            assert(at_position(a, p) == at_position(b, p));
            b.lemma_filter_contains_rev(position_is::<A>(p), a[0]);
        } else if b.len() > 0 {
            let p = b[0].position();
            b.lemma_filter_contains(position_is::<A>(p), 0);
            assert(at_position(a, p) == at_position(b, p));
            a.lemma_filter_contains_rev(position_is::<A>(p), b[0]);
        }
        assert(a =~= b);
    } else {
        lemma_last_position_is_max(a, b);
        lemma_last_position_is_max(b, a);
        let x = a.last();
        let y = b.last();
        let p = x.position();
        let a0 = a.drop_last();
        let b0 = b.drop_last();
        assert(a =~= a0.push(x));
        assert(b =~= b0.push(y));
        lemma_at_position_push(a0, x);
        lemma_at_position_push(b0, y);
        assert(at_position(a, p) == at_position(b, p));
        assert(at_position(a0, p).push(x) == at_position(b0, p).push(y));
        assert(x == at_position(a0, p).push(x).last());
        assert(y == at_position(b0, p).push(y).last());
        assert(at_position(a0, p) =~= at_position(a0, p).push(x).drop_last());
        assert(at_position(b0, p) =~= at_position(b0, p).push(y).drop_last());
        assert forall|q: i64| #[trigger] at_position(a0, q) == at_position(b0, q) by {
            assert(at_position(a, q) == at_position(b, q));
        }
        lemma_stable_order_unique(a0, b0);
    }
}

/// Sorting is deterministic, and sorting a sequence that is already in
/// order of position leaves it as it is.
pub proof fn lemma_stable_sort_deterministic<A: Positioned>(s: Seq<A>, r1: Seq<A>, r2: Seq<A>)
    requires
        is_stable_sort(s, r1),
        is_stable_sort(s, r2),
    ensures
        r1 == r2,
        sorted_by_position(s) ==> r1 == s,
{
    assert forall|p: i64| #[trigger] at_position(r1, p) == at_position(r2, p) by {
        assert(at_position(r1, p) == at_position(s, p));
        assert(at_position(r2, p) == at_position(s, p));
    }
    lemma_stable_order_unique(r1, r2);
    if sorted_by_position(s) {
        lemma_stable_order_unique(r1, s);
    }
}

} // verus!
