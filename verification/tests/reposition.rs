use oxban::config::OrderingSection;
use oxban::reposition::{Reposition, RepositionAction, RepositionEvent};

fn ordering() -> OrderingSection {
    OrderingSection { step: 1_000_000, min_gap: 4 }
}

#[test]
fn start_asks_for_neighbours() {
    let (state, action) = Reposition::start();
    assert_eq!(state, Reposition::AwaitingNeighbours { renormalized: false });
    assert_eq!(action, RepositionAction::ReadNeighbours);
}

#[test]
fn roomy_neighbours_place_at_midpoint() {
    let (state, _) = Reposition::start();
    let (state, action) = state.step(
        &ordering(),
        RepositionEvent::Neighbours { after: Some(0), before: Some(10) },
    );
    assert_eq!(state, Reposition::Placed { pos: 5 });
    assert_eq!(action, RepositionAction::WritePosition { pos: 5 });
}

#[test]
fn dense_neighbours_renormalize_once() {
    let o = ordering();
    let (state, _) = Reposition::start();
    let (state, action) =
        state.step(&o, RepositionEvent::Neighbours { after: Some(0), before: Some(3) });
    assert_eq!(action, RepositionAction::Renormalize);
    let (state, action) = state.step(&o, RepositionEvent::Renormalized);
    assert_eq!(state, Reposition::AwaitingNeighbours { renormalized: true });
    assert_eq!(action, RepositionAction::ReadNeighbours);
    let (state, action) = state.step(
        &o,
        RepositionEvent::Neighbours { after: Some(1_000_000), before: Some(2_000_000) },
    );
    assert_eq!(action, RepositionAction::WritePosition { pos: 1_500_000 });
    assert_eq!(state, Reposition::Placed { pos: 1_500_000 });
}

#[test]
fn after_renormalize_dense_neighbours_are_placed_anyway() {
    let o = ordering();
    let state = Reposition::AwaitingNeighbours { renormalized: true };
    let (_, action) = state.step(&o, RepositionEvent::Neighbours { after: Some(0), before: Some(3) });
    assert_eq!(action, RepositionAction::WritePosition { pos: 1 });
}

#[test]
fn no_neighbours_appends_after_last() {
    let o = ordering();
    let (state, _) = Reposition::start();
    let (state, action) = state.step(&o, RepositionEvent::Neighbours { after: None, before: None });
    assert_eq!(action, RepositionAction::ReadLastPosition);
    let (_, action) = state.step(&o, RepositionEvent::LastPosition { last: Some(2_000_000) });
    assert_eq!(action, RepositionAction::WritePosition { pos: 3_000_000 });
}

#[test]
fn no_neighbours_in_empty_container_goes_to_zero() {
    let o = ordering();
    let state = Reposition::AwaitingLast { renormalized: false };
    let (_, action) = state.step(&o, RepositionEvent::LastPosition { last: None });
    assert_eq!(action, RepositionAction::WritePosition { pos: 0 });
}

#[test]
fn only_before_neighbour_goes_step_before() {
    let o = ordering();
    let (state, _) = Reposition::start();
    let (_, action) = state.step(&o, RepositionEvent::Neighbours { after: None, before: Some(0) });
    assert_eq!(action, RepositionAction::WritePosition { pos: -1_000_000 });
}

#[test]
fn unexpected_answer_repeats_request() {
    let o = ordering();
    let state = Reposition::AwaitingRenormalize;
    let (next, action) = state.step(&o, RepositionEvent::LastPosition { last: Some(1) });
    assert_eq!(next, Reposition::AwaitingRenormalize);
    assert_eq!(action, RepositionAction::Renormalize);
}

#[test]
fn a_move_finishes_within_five_answers() {
    let o = ordering();
    let (mut state, mut action) = Reposition::start();
    let mut answers = 0;
    let mut renormalized = false;
    loop {
        let event = match action {
            RepositionAction::ReadNeighbours => {
                if renormalized {
                    RepositionEvent::Neighbours { after: Some(0), before: Some(1_000_000) }
                } else {
                    RepositionEvent::Neighbours { after: Some(0), before: Some(1) }
                }
            }
            RepositionAction::ReadLastPosition => RepositionEvent::LastPosition { last: None },
            RepositionAction::Renormalize => {
                renormalized = true;
                RepositionEvent::Renormalized
            }
            RepositionAction::WritePosition { pos } => {
                assert_eq!(pos, 500_000);
                break;
            }
        };
        let next = state.step(&o, event);
        state = next.0;
        action = next.1;
        answers += 1;
        assert!(answers <= 5);
    }
    assert_eq!(answers, 3);
}

#[test]
fn moves_between_extreme_neighbours() {
    let o = ordering();
    let (state, _) = Reposition::start();
    let (_, action) = state.step(
        &o,
        RepositionEvent::Neighbours { after: Some(i64::MIN), before: Some(i64::MAX) },
    );
    assert_eq!(action, RepositionAction::WritePosition { pos: -1 });
}
