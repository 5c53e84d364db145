//! The crew operations service: joining and leaving a crew.
//!
//! The service decides nothing itself. It hands each request to the capacity
//! guard of the board and reports a refusal by its kind.

use vstd::prelude::*;
use crate::domain::board::MissionBoard;
use crate::domain::value_objects::errors::{AdmitError, ErrorKind, ReleaseError};

verus! {

/// A verdict on joining, reported by kind.
pub open spec fn join_result(verdict: Result<(), AdmitError>) -> Result<(), ErrorKind> {
    match verdict {
        Ok(()) => Ok(()),
        Err(refusal) => Err(refusal.spec_kind()),
    }
}

/// A verdict on leaving, reported by kind.
pub open spec fn leave_result(verdict: Result<(), ReleaseError>) -> Result<(), ErrorKind> {
    match verdict {
        Ok(()) => Ok(()),
        Err(refusal) => Err(refusal.spec_kind()),
    }
}

/// `actor_id` joins the crew of `mission_id`.
///
/// Joining does not depend on the status of the mission.
pub fn join(board: &mut MissionBoard, mission_id: i32, actor_id: i32) -> (result: Result<
    (),
    ErrorKind,
>)
    requires
        old(board).wf(),
    ensures
        final(board).wf(),
        result == join_result(old(board)@.admit_verdict(actor_id, mission_id)),
        final(board)@ == old(board)@.admitted(actor_id, mission_id),
{
    match board.admit_actor(actor_id, mission_id) {
        Ok(()) => Ok(()),
        Err(refusal) => Err(refusal.kind()),
    }
}

/// `actor_id` leaves the crew of `mission_id`.
pub fn leave(board: &mut MissionBoard, mission_id: i32, actor_id: i32) -> (result: Result<
    (),
    ErrorKind,
>)
    requires
        old(board).wf(),
    ensures
        final(board).wf(),
        result == leave_result(old(board)@.release_verdict(actor_id, mission_id)),
        final(board)@ == old(board)@.released(actor_id, mission_id),
{
    match board.release(actor_id, mission_id) {
        Ok(()) => Ok(()),
        Err(refusal) => Err(refusal.kind()),
    }
}

} // verus!
