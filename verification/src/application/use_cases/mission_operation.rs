//! The mission operations service: moving a mission along its lifecycle.

use vstd::prelude::*;
use crate::domain::board::MissionBoard;
use crate::domain::value_objects::errors::{ErrorKind, TransitionError};
use crate::domain::value_objects::mission_statuses::MissionTransition;

verus! {

/// A verdict on a transition, reported by kind.
pub open spec fn operation_result(verdict: Result<i32, TransitionError>) -> Result<i32, ErrorKind> {
    match verdict {
        Ok(mission_id) => Ok(mission_id),
        Err(refusal) => Err(refusal.spec_kind()),
    }
}

fn operate(board: &mut MissionBoard, mission_id: i32, chief_id: i32, edge: MissionTransition) -> (result:
    Result<i32, ErrorKind>)
    requires
        old(board).wf(),
    ensures
        final(board).wf(),
        result == operation_result(old(board)@.transition_verdict(mission_id, chief_id, edge)),
        final(board)@ == old(board)@.transitioned(mission_id, chief_id, edge),
{
    match board.transition(mission_id, chief_id, edge) {
        Ok(id) => Ok(id),
        Err(refusal) => Err(refusal.kind()),
    }
}

/// `chief_id` starts mission `mission_id`: `Open` becomes `InProgress`.
pub fn in_progress(board: &mut MissionBoard, mission_id: i32, chief_id: i32) -> (result: Result<
    i32,
    ErrorKind,
>)
    requires
        old(board).wf(),
    ensures
        final(board).wf(),
        result == operation_result(
            old(board)@.transition_verdict(mission_id, chief_id, MissionTransition::Start),
        ),
        final(board)@ == old(board)@.transitioned(mission_id, chief_id, MissionTransition::Start),
{
    operate(board, mission_id, chief_id, MissionTransition::Start)
}

/// `chief_id` completes mission `mission_id`: `InProgress` becomes `Completed`.
pub fn to_completed(board: &mut MissionBoard, mission_id: i32, chief_id: i32) -> (result: Result<
    i32,
    ErrorKind,
>)
    requires
        old(board).wf(),
    ensures
        final(board).wf(),
        result == operation_result(
            old(board)@.transition_verdict(mission_id, chief_id, MissionTransition::Complete),
        ),
        final(board)@ == old(board)@.transitioned(
            mission_id,
            chief_id,
            MissionTransition::Complete,
        ),
{
    operate(board, mission_id, chief_id, MissionTransition::Complete)
}

/// `chief_id` gives mission `mission_id` up: `InProgress` becomes `Failed`.
pub fn to_failed(board: &mut MissionBoard, mission_id: i32, chief_id: i32) -> (result: Result<
    i32,
    ErrorKind,
>)
    requires
        old(board).wf(),
    ensures
        final(board).wf(),
        result == operation_result(
            old(board)@.transition_verdict(mission_id, chief_id, MissionTransition::Fail),
        ),
        final(board)@ == old(board)@.transitioned(mission_id, chief_id, MissionTransition::Fail),
{
    operate(board, mission_id, chief_id, MissionTransition::Fail)
}

} // verus!
