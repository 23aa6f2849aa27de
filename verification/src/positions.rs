//! Integer positions for ordering columns and cards.
//!
//! New items are appended `step` after the last one, moved items are placed
//! half-way between their neighbours, and a dense list is renormalized to
//! evenly spaced positions.

use vstd::prelude::*;

use crate::config::OrderingSection;

verus! {

/// The value of `x` clamped to the range of `i64`: what a saturating
/// operation on `i64` yields for the exact result `x`.
pub open spec fn clamp_i64(x: int) -> int {
    if x < i64::MIN {
        i64::MIN as int
    } else if x > i64::MAX {
        i64::MAX as int
    } else {
        x
    }
}

/// Saturating addition on `i64`.
pub fn saturating_add_i64(a: i64, b: i64) -> (r: i64)
    ensures
        r == clamp_i64(a + b),
{
    match a.checked_add(b) {
        Some(v) => v,
        None => if b > 0 {
            i64::MAX
        } else {
            i64::MIN
        },
    }
}

/// Saturating subtraction on `i64`.
pub fn saturating_sub_i64(a: i64, b: i64) -> (r: i64)
    ensures
        r == clamp_i64(a - b),
{
    match a.checked_sub(b) {
        Some(v) => v,
        None => if b < 0 {
            i64::MAX
        } else {
            i64::MIN
        },
    }
}

/// The position that `between` gives an item placed after `left` and before
/// `right` (either neighbour may be missing).
pub open spec fn position_between(step: i64, left: Option<i64>, right: Option<i64>) -> int {
    match (left, right) {
        (None, None) => 0,
        (Some(l), None) => clamp_i64(l + step),
        (None, Some(r)) => clamp_i64(r - step),
        (Some(l), Some(r)) => if l >= r {
            clamp_i64(l + step)
        } else {
            l + (r - l) / 2
        },
    }
}

/// The distance between `left` and `right` as `gap_ok` measures it.
pub open spec fn gap_of(left: i64, right: i64) -> int {
    if right - left < 0 {
        left - right
    } else {
        right - left
    }
}

/// Whether there is room strictly between `left` and `right`.
pub open spec fn has_room(min_gap: i64, left: i64, right: i64) -> bool {
    gap_of(left, right) > min_gap
}

/// Position `i` of a renormalized list: `i * step`, saturated to `i64`.
pub open spec fn renormalized_position(step: i64, i: int) -> int {
    clamp_i64(i * step)
}

/// Picks a position for an item placed after `left` and before `right`.
///
/// With no neighbours the position is 0; with only a left neighbour it is
/// `step` after it, with only a right one `step` before it; between two
/// neighbours it is their midpoint rounded down, computed without overflow
/// however far apart they are, unless they are out of order, in which case
/// it is `step` after `left`. Additions saturate.
pub fn between(ordering: &OrderingSection, left: Option<i64>, right: Option<i64>) -> (p: i64)
    ensures
        p == position_between(ordering.step, left, right),
{
    let step: i64 = ordering.step;
    match (left, right) {
        (None, None) => 0,
        (Some(l), None) => saturating_add_i64(l, step),
        (None, Some(r)) => saturating_sub_i64(r, step),
        (Some(l), Some(r)) => {
            if l >= r {
                saturating_add_i64(l, step)
            } else {
                let half: i128 = ((r as i128) - (l as i128)) / 2;
                ((l as i128) + half) as i64
            }
        },
    }
}

/// Whether the neighbours `left` and `right` are more than `min_gap` apart.
pub fn gap_ok(ordering: &OrderingSection, left: i64, right: i64) -> (ok: bool)
    ensures
        ok == has_room(ordering.min_gap, left, right),
{
    let diff: i128 = (right as i128) - (left as i128);
    let dist: i128 = if diff < 0 {
        -diff
    } else {
        diff
    };
    dist > (ordering.min_gap as i128)
}

proof fn lemma_renormalized_step(step: i64, i: int)
    requires
        i >= 0,
    ensures
        clamp_i64(renormalized_position(step, i) + step) == renormalized_position(step, i + 1),
{
    assert((i + 1) * step == i * step + step) by (nonlinear_arith);
    if step >= 0 {
        assert(i * step >= 0) by (nonlinear_arith)
            requires
                i >= 0,
                step >= 0,
        ;
    } else {
        assert(i * step <= 0) by (nonlinear_arith)
            requires
                i >= 0,
                step < 0,
        ;
    }
}

/// Gives each id, in order, the positions `0, step, 2 * step, ...`
/// (saturating at the bounds of `i64`).
pub fn renormalize<T: Copy>(ordering: &OrderingSection, ordered_ids: &[T]) -> (out: Vec<(T, i64)>)
    ensures
        out@.len() == ordered_ids@.len(),
        forall|i: int|
            0 <= i < ordered_ids@.len() ==> #[trigger] out@[i] == (
                ordered_ids@[i],
                renormalized_position(ordering.step, i) as i64,
            ),
{
    let mut out: Vec<(T, i64)> = Vec::with_capacity(ordered_ids.len());
    let mut pos: i64 = 0;
    let mut i: usize = 0;
    assert(0 * ordering.step == 0);
    while i < ordered_ids.len()
        invariant
            i <= ordered_ids@.len(),
            out@.len() == i,
            pos == renormalized_position(ordering.step, i as int),
            forall|j: int|
                0 <= j < i ==> #[trigger] out@[j] == (
                    ordered_ids@[j],
                    renormalized_position(ordering.step, j) as i64,
                ),
        decreases ordered_ids@.len() - i,
    {
        let id = ordered_ids[i];
        out.push((id, pos));
        proof {
            lemma_renormalized_step(ordering.step, i as int);
        }
        pos = saturating_add_i64(pos, ordering.step);
        i = i + 1;
    }
    out
}

/// An item placed between two neighbours that are more than `min_gap`
/// apart, with `min_gap` at least 1, lands strictly between them.
pub proof fn lemma_between_lands_inside(ordering: OrderingSection, left: i64, right: i64)
    requires
        left < right,
        ordering.min_gap >= 1,
        has_room(ordering.min_gap, left, right),
    ensures
        left < position_between(ordering.step, Some(left), Some(right)) < right,
{
}

/// Where `between` puts an item: at 0 with no neighbours; `step` past a
/// single neighbour (after a left one, before a right one), saturated to
/// `i64`; between two neighbours in order, at their midpoint rounded down,
/// which is as far from the left one as from the right one or one less;
/// and after neighbours out of order, `step` past the left one.
pub proof fn lemma_between_places(step: i64, l: i64, r: i64)
    ensures
        position_between(step, None, None) == 0,
        position_between(step, Some(l), None) == clamp_i64(l + step),
        position_between(step, None, Some(r)) == clamp_i64(r - step),
        l < r ==> {
            let p = position_between(step, Some(l), Some(r));
            &&& l <= p < r
            &&& (r - p) - (p - l) == 0 || (r - p) - (p - l) == 1
        },
        l >= r ==> position_between(step, Some(l), Some(r)) == clamp_i64(l + step),
{
}

/// An item appended after `left` with a positive step lands after it,
/// unless `left` is already the largest position.
pub proof fn lemma_append_goes_last(ordering: OrderingSection, left: i64)
    requires
        ordering.step > 0,
        left < i64::MAX,
    ensures
        position_between(ordering.step, Some(left), None) > left,
{
}

/// With a positive step, renormalized positions strictly increase as long
/// as they do not saturate, and consecutive ones are exactly `step` apart.
pub proof fn lemma_renormalized_increasing(step: i64, i: int, j: int)
    requires
        step > 0,
        0 <= i < j,
        j * step <= i64::MAX,
    ensures
        renormalized_position(step, i) < renormalized_position(step, j),
        j == i + 1 ==> renormalized_position(step, j) - renormalized_position(step, i) == step,
{
    assert(0 <= i * step < j * step) by (nonlinear_arith)
        requires
            step > 0,
            0 <= i < j,
    ;
    assert((i + 1) * step == i * step + step) by (nonlinear_arith);
}

/// After renormalizing with a step larger than `min_gap`, every two
/// consecutive positions (that do not saturate) have room between them.
pub proof fn lemma_renormalized_has_room(ordering: OrderingSection, i: int)
    requires
        ordering.step > ordering.min_gap,
        ordering.step > 0,
        i >= 0,
        (i + 1) * ordering.step <= i64::MAX,
    ensures
        has_room(
            ordering.min_gap,
            renormalized_position(ordering.step, i) as i64,
            renormalized_position(ordering.step, i + 1) as i64,
        ),
{
    lemma_renormalized_increasing(ordering.step, i, i + 1);
    assert(0 <= i * ordering.step) by (nonlinear_arith)
        requires
            ordering.step > 0,
            i >= 0,
    ;
}

} // verus!
