//! The decisions taken while a column or a card is moved to a new place.
//!
//! Moving an item reads the positions of the neighbours it is dropped
//! between (or the last position of its container when no neighbour is
//! named), renormalizes the container once if the neighbours are too close,
//! and finally writes the new position. The reads and writes are the
//! caller's; this module decides what comes next after each answer.

use vstd::prelude::*;

use crate::config::OrderingSection;
use crate::positions::{
    between, clamp_i64, gap_ok, has_room, position_between, renormalized_position,
};

verus! {

/// Where a move stands.
#[derive(Debug, Clone, Copy, PartialEq, Eq)]
pub enum Reposition {
    /// Waiting for the positions of the named neighbours.
    AwaitingNeighbours { renormalized: bool },
    /// Waiting for the last position in the destination container.
    AwaitingLast { renormalized: bool },
    /// Waiting for the destination container to be renormalized.
    AwaitingRenormalize,
    /// The new position is decided.
    Placed { pos: i64 },
}

/// An answer from the store.
#[derive(Debug, Clone, Copy, PartialEq, Eq)]
pub enum RepositionEvent {
    /// The positions of the item to go after (`after`) and before (`before`),
    /// each present only when that neighbour was named.
    Neighbours { after: Option<i64>, before: Option<i64> },
    /// The largest position in the destination container, if it holds anything.
    LastPosition { last: Option<i64> },
    /// The destination container has been renormalized.
    Renormalized,
}

/// What the store is asked to do next.
#[derive(Debug, Clone, Copy, PartialEq, Eq)]
pub enum RepositionAction {
    /// Read the positions of the named neighbours.
    ReadNeighbours,
    /// Read the largest position in the destination container.
    ReadLastPosition,
    /// Renormalize the positions in the destination container.
    Renormalize,
    /// Store the moved item at `pos`.
    WritePosition { pos: i64 },
}

/// The request that a state is waiting to have answered.
pub open spec fn pending_action(state: Reposition) -> RepositionAction {
    match state {
        Reposition::AwaitingNeighbours { .. } => RepositionAction::ReadNeighbours,
        Reposition::AwaitingLast { .. } => RepositionAction::ReadLastPosition,
        Reposition::AwaitingRenormalize => RepositionAction::Renormalize,
        Reposition::Placed { pos } => RepositionAction::WritePosition { pos },
    }
}

/// The decision once both candidate neighbours are known: renormalize first
/// when two neighbours are too close and no renormalization happened yet,
/// otherwise place the item with `between`.
pub open spec fn decide(
    ordering: OrderingSection,
    renormalized: bool,
    left: Option<i64>,
    right: Option<i64>,
) -> (Reposition, RepositionAction) {
    if !renormalized && left is Some && right is Some && !has_room(
        ordering.min_gap,
        left->0,
        right->0,
    ) {
        (Reposition::AwaitingRenormalize, RepositionAction::Renormalize)
    } else {
        let pos = position_between(ordering.step, left, right) as i64;
        (Reposition::Placed { pos }, RepositionAction::WritePosition { pos })
    }
}

/// The next state and request after `event` arrives in `state`. An event
/// that does not answer the pending request leaves the state as it is and
/// repeats the request.
pub open spec fn reposition_next(
    ordering: OrderingSection,
    state: Reposition,
    event: RepositionEvent,
) -> (Reposition, RepositionAction) {
    match (state, event) {
        (
            Reposition::AwaitingNeighbours { renormalized },
            RepositionEvent::Neighbours { after, before },
        ) => if after is None && before is None {
            (Reposition::AwaitingLast { renormalized }, RepositionAction::ReadLastPosition)
        } else {
            decide(ordering, renormalized, after, before)
        },
        (Reposition::AwaitingLast { renormalized }, RepositionEvent::LastPosition { last }) => {
            decide(ordering, renormalized, last, None)
        },
        (Reposition::AwaitingRenormalize, RepositionEvent::Renormalized) => (
            Reposition::AwaitingNeighbours { renormalized: true },
            RepositionAction::ReadNeighbours,
        ),
        _ => (state, pending_action(state)),
    }
}

impl Reposition {
    /// The state a move starts in, and its first request.
    pub fn start() -> (r: (Reposition, RepositionAction))
        ensures
            r == (Reposition::AwaitingNeighbours { renormalized: false }, RepositionAction::ReadNeighbours),
    {
        (Reposition::AwaitingNeighbours { renormalized: false }, RepositionAction::ReadNeighbours)
    }

    /// Takes the store's answer and decides what comes next.
    pub fn step(self, ordering: &OrderingSection, event: RepositionEvent) -> (r: (
        Reposition,
        RepositionAction,
    ))
        ensures
            r == reposition_next(*ordering, self, event),
    {
        match (self, event) {
            (
                Reposition::AwaitingNeighbours { renormalized },
                RepositionEvent::Neighbours { after, before },
            ) => {
                if after.is_none() && before.is_none() {
                    (Reposition::AwaitingLast { renormalized }, RepositionAction::ReadLastPosition)
                } else {
                    decide_exec(ordering, renormalized, after, before)
                }
            },
            (Reposition::AwaitingLast { renormalized }, RepositionEvent::LastPosition { last }) => {
                decide_exec(ordering, renormalized, last, None)
            },
            (Reposition::AwaitingRenormalize, RepositionEvent::Renormalized) => (
                Reposition::AwaitingNeighbours { renormalized: true },
                RepositionAction::ReadNeighbours,
            ),
            (state, _) => {
                let action = match state {
                    Reposition::AwaitingNeighbours { .. } => RepositionAction::ReadNeighbours,
                    Reposition::AwaitingLast { .. } => RepositionAction::ReadLastPosition,
                    Reposition::AwaitingRenormalize => RepositionAction::Renormalize,
                    Reposition::Placed { pos } => RepositionAction::WritePosition { pos },
                };
                (state, action)
            },
        }
    }
}

fn decide_exec(
    ordering: &OrderingSection,
    renormalized: bool,
    left: Option<i64>,
    right: Option<i64>,
) -> (r: (Reposition, RepositionAction))
    ensures
        r == decide(*ordering, renormalized, left, right),
{
    if !renormalized {
        if let (Some(l), Some(r)) = (left, right) {
            if !gap_ok(ordering, l, r) {
                return (Reposition::AwaitingRenormalize, RepositionAction::Renormalize);
            }
        }
    }
    let pos: i64 = between(ordering, left, right);
    (Reposition::Placed { pos }, RepositionAction::WritePosition { pos })
}

/// Whether `event` is the kind of answer that `state` waits for.
pub open spec fn answers(state: Reposition, event: RepositionEvent) -> bool {
    match (state, event) {
        (Reposition::AwaitingNeighbours { .. }, RepositionEvent::Neighbours { .. }) => true,
        (Reposition::AwaitingLast { .. }, RepositionEvent::LastPosition { .. }) => true,
        (Reposition::AwaitingRenormalize, RepositionEvent::Renormalized) => true,
        _ => false,
    }
}

/// An upper bound on the number of answers a move still needs.
pub open spec fn remaining_steps(state: Reposition) -> nat {
    match state {
        Reposition::AwaitingNeighbours { renormalized } => if renormalized {
            3
        } else {
            5
        },
        Reposition::AwaitingRenormalize => 4,
        Reposition::AwaitingLast { .. } => 1,
        Reposition::Placed { .. } => 0,
    }
}

/// A move that names exactly one neighbour is placed at once, `step` past
/// it (saturated): after a left neighbour at `l` it lands at `l + step`,
/// before a right neighbour at `r` at `r - step`. Only an answer naming
/// neither neighbour asks for the last position of the container, and an
/// item appended after the last position `l` lands at `l + step` (at 0 in
/// an empty container).
pub proof fn lemma_single_neighbour_placed_at_once(
    ordering: OrderingSection,
    renormalized: bool,
    after: Option<i64>,
    before: Option<i64>,
    last: Option<i64>,
)
    ensures
        ({
            let next = reposition_next(
                ordering,
                Reposition::AwaitingNeighbours { renormalized },
                RepositionEvent::Neighbours { after, before },
            );
            &&& (after is Some && before is None) ==> next == (
                Reposition::Placed { pos: clamp_i64(after->0 + ordering.step) as i64 },
                RepositionAction::WritePosition { pos: clamp_i64(after->0 + ordering.step) as i64 },
            )
            &&& (after is None && before is Some) ==> next == (
                Reposition::Placed { pos: clamp_i64(before->0 - ordering.step) as i64 },
                RepositionAction::WritePosition { pos: clamp_i64(before->0 - ordering.step) as i64 },
            )
            &&& (next.1 == RepositionAction::ReadLastPosition) <==> (after is None && before is None)
        }),
        ({
            let next = reposition_next(
                ordering,
                Reposition::AwaitingLast { renormalized },
                RepositionEvent::LastPosition { last },
            );
            &&& last is Some ==> next == (
                Reposition::Placed { pos: clamp_i64(last->0 + ordering.step) as i64 },
                RepositionAction::WritePosition { pos: clamp_i64(last->0 + ordering.step) as i64 },
            )
            &&& last is None ==> next == (
                Reposition::Placed { pos: 0 },
                RepositionAction::WritePosition { pos: 0 },
            )
        }),
{
}

/// Once the container has been renormalized the move reads its neighbours
/// again, remembering the renormalization; an answer that does not answer
/// the pending request leaves the move where it was and repeats the request.
pub proof fn lemma_after_renormalize_reads_again(
    ordering: OrderingSection,
    state: Reposition,
    event: RepositionEvent,
)
    ensures
        reposition_next(ordering, Reposition::AwaitingRenormalize, RepositionEvent::Renormalized)
            == (Reposition::AwaitingNeighbours { renormalized: true }, RepositionAction::ReadNeighbours),
        !answers(state, event) ==> {
            let next = reposition_next(ordering, state, event);
            &&& next.0 == state
            &&& state is AwaitingNeighbours ==> next.1 == RepositionAction::ReadNeighbours
            &&& state is AwaitingLast ==> next.1 == RepositionAction::ReadLastPosition
            &&& state is AwaitingRenormalize ==> next.1 == RepositionAction::Renormalize
            &&& state matches Reposition::Placed { pos } ==> next.1
                == (RepositionAction::WritePosition { pos })
        },
{
}

/// Every answered request brings a move closer to its placement, so a move
/// is placed after at most five answers.
pub proof fn lemma_move_terminates(
    ordering: OrderingSection,
    state: Reposition,
    event: RepositionEvent,
)
    requires
        answers(state, event),
    ensures
        remaining_steps(reposition_next(ordering, state, event).0) < remaining_steps(state),
{
}

/// Once the container has been renormalized, a move never asks for another
/// renormalization.
pub proof fn lemma_renormalizes_at_most_once(
    ordering: OrderingSection,
    state: Reposition,
    event: RepositionEvent,
)
    requires
        state == (Reposition::AwaitingNeighbours { renormalized: true }) || state
            == (Reposition::AwaitingLast { renormalized: true }),
    ensures
        reposition_next(ordering, state, event).1 != RepositionAction::Renormalize,
        reposition_next(ordering, state, event).0 != Reposition::AwaitingRenormalize,
{
}

/// A move between two named neighbours that have room between them lands
/// strictly between them; when they are too close, a first attempt asks
/// for a renormalization, and an attempt after it places the item with
/// `between` as it is.
pub proof fn lemma_move_between_neighbours(
    ordering: OrderingSection,
    renormalized: bool,
    left: i64,
    right: i64,
)
    requires
        ordering.min_gap >= 1,
        left < right,
    ensures
        ({
            let next = reposition_next(
                ordering,
                Reposition::AwaitingNeighbours { renormalized },
                RepositionEvent::Neighbours { after: Some(left), before: Some(right) },
            );
            &&& has_room(ordering.min_gap, left, right) ==> (next.1 matches RepositionAction::WritePosition { pos } && left < pos < right)
            &&& !renormalized && !has_room(ordering.min_gap, left, right) ==> next == (
                Reposition::AwaitingRenormalize,
                RepositionAction::Renormalize,
            )
            &&& renormalized ==> next.1 == (RepositionAction::WritePosition {
                pos: position_between(ordering.step, Some(left), Some(right)) as i64,
            })
        }),
{
    if has_room(ordering.min_gap, left, right) {
        crate::positions::lemma_between_lands_inside(ordering, left, right);
    }
}

/// After a renormalization with a step larger than `min_gap` (and
/// `min_gap` at least 1), a move between any two items, the `i`-th and a
/// later `j`-th, lands strictly between them.
pub proof fn lemma_move_after_renormalize_lands_inside(ordering: OrderingSection, i: int, j: int)
    requires
        ordering.min_gap >= 1,
        ordering.step > ordering.min_gap,
        0 <= i < j,
        j * ordering.step <= i64::MAX,
    ensures
        ({
            let left = renormalized_position(ordering.step, i) as i64;
            let right = renormalized_position(ordering.step, j) as i64;
            let next = reposition_next(
                ordering,
                Reposition::AwaitingNeighbours { renormalized: true },
                RepositionEvent::Neighbours { after: Some(left), before: Some(right) },
            );
            next.1 matches RepositionAction::WritePosition { pos } && left < pos < right
        }),
{
    let step = ordering.step;
    assert(0 <= i * step && i * step + step <= j * step) by (nonlinear_arith)
        requires
            step > 0,
            0 <= i < j,
    ;
    let left = renormalized_position(step, i) as i64;
    let right = renormalized_position(step, j) as i64;
    assert(left == i * step && right == j * step);
    assert(has_room(ordering.min_gap, left, right));
    crate::positions::lemma_between_lands_inside(ordering, left, right);
}

/// A move that names no neighbour goes after the last item of its
/// container, or to position 0 in an empty one.
pub proof fn lemma_move_without_neighbours_appends(
    ordering: OrderingSection,
    renormalized: bool,
    last: Option<i64>,
)
    ensures
        reposition_next(
            ordering,
            Reposition::AwaitingNeighbours { renormalized },
            RepositionEvent::Neighbours { after: None, before: None },
        ) == (Reposition::AwaitingLast { renormalized }, RepositionAction::ReadLastPosition),
        reposition_next(
            ordering,
            Reposition::AwaitingLast { renormalized },
            RepositionEvent::LastPosition { last },
        ).1 == (RepositionAction::WritePosition {
            pos: position_between(ordering.step, last, None) as i64,
        }),
{
}

} // verus!
