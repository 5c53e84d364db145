//! The lifecycle engine: whether a mission may take an edge, and the write that takes it.
//!
//! A transition is made in two steps. The first reads the mission and decides.
//! The second writes the new status on the condition that the status is still
//! the one that was read, so that of two requests made from the same reading
//! only one is carried out.

use vstd::prelude::*;
use crate::domain::entities::missions::MissionEntity;
use crate::domain::value_objects::errors::{ErrorKind, TransitionError};
use crate::domain::value_objects::mission_statuses::{MissionStatuses, MissionTransition};

verus! {

/// The write that carries out an approved transition.
///
/// It names the mission, the actor who asked and the edge. It is carried out
/// only if, at the moment of the write, the mission is still there, still
/// owned by that actor and still in the status that the edge leaves.
#[derive(Clone, Copy, Debug, PartialEq, Eq, Structural)]
pub struct StatusWrite {
    pub mission_id: i32,
    pub requested_by: i32,
    pub edge: MissionTransition,
}

impl StatusWrite {
    /// The status that the mission must still have when the write is made.
    pub open spec fn expected(self) -> MissionStatuses {
        self.edge.source()
    }

    /// The status that the write leaves behind.
    pub open spec fn next(self) -> MissionStatuses {
        self.edge.target()
    }

    /// What the request is answered with once the write was tried against a
    /// store that reports only whether a row was written: the mission's
    /// identifier if one was, `ConcurrentModification` if none was.
    pub fn conclude(&self, written: bool) -> (verdict: Result<i32, TransitionError>)
        ensures
            verdict == (if written {
                Ok::<i32, TransitionError>(self.mission_id)
            } else {
                Err::<i32, TransitionError>(TransitionError::ConcurrentModification)
            }),
    {
        if written {
            Ok(self.mission_id)
        } else {
            Err(TransitionError::ConcurrentModification)
        }
    }
}

/// The verdict on a request by `requesting_actor_id` to move `mission` along `edge`.
///
/// A mission that is absent or deleted is not found. Then the owner is checked,
/// whatever the status is. Then the status must be the one that the edge leaves.
pub open spec fn transition_verdict(
    mission: Option<MissionEntity>,
    requesting_actor_id: i32,
    edge: MissionTransition,
) -> Result<StatusWrite, TransitionError> {
    match mission {
        None => Err(TransitionError::MissionNotFound),
        Some(mission) => {
            if !mission.visible() {
                Err(TransitionError::MissionNotFound)
            } else if mission.owner_id != requesting_actor_id {
                Err(TransitionError::NotOwner)
            } else if mission.status != edge.source() {
                Err(TransitionError::IllegalTransition)
            } else {
                Ok(StatusWrite { mission_id: mission.id, requested_by: requesting_actor_id, edge })
            }
        },
    }
}

/// The mission behind an optional reference.
pub open spec fn read(mission: Option<&MissionEntity>) -> Option<MissionEntity> {
    match mission {
        Some(mission) => Some(*mission),
        None => None,
    }
}

/// Decides a request by `requesting_actor_id` to move `mission` along `edge`,
/// and on success says which conditional write carries it out.
pub fn plan(mission: Option<&MissionEntity>, requesting_actor_id: i32, edge: MissionTransition) -> (planned:
    Result<StatusWrite, TransitionError>)
    ensures
        planned == transition_verdict(read(mission), requesting_actor_id, edge),
{
    match mission {
        None => Err(TransitionError::MissionNotFound),
        Some(mission) => {
            if !mission.is_visible() {
                Err(TransitionError::MissionNotFound)
            } else if mission.owner_id != requesting_actor_id {
                Err(TransitionError::NotOwner)
            } else if mission.status != edge.expected() {
                Err(TransitionError::IllegalTransition)
            } else {
                Ok(StatusWrite { mission_id: mission.id, requested_by: requesting_actor_id, edge })
            }
        },
    }
}

/// The verdict on a request by `requesting_actor_id` to change or delete `mission`:
/// the mission must be there and not deleted, and the actor must own it.
pub open spec fn owner_verdict(mission: Option<MissionEntity>, requesting_actor_id: i32) -> Result<
    (),
    ErrorKind,
> {
    match mission {
        None => Err(ErrorKind::NotFound),
        Some(mission) => {
            if !mission.visible() {
                Err(ErrorKind::NotFound)
            } else if mission.owner_id != requesting_actor_id {
                Err(ErrorKind::NotOwner)
            } else {
                Ok(())
            }
        },
    }
}

/// Decides a request by `requesting_actor_id` to change or delete `mission`.
pub fn check_owner(mission: Option<&MissionEntity>, requesting_actor_id: i32) -> (verdict: Result<
    (),
    ErrorKind,
>)
    ensures
        verdict == owner_verdict(read(mission), requesting_actor_id),
{
    match mission {
        None => Err(ErrorKind::NotFound),
        Some(mission) => {
            if !mission.is_visible() {
                Err(ErrorKind::NotFound)
            } else if mission.owner_id != requesting_actor_id {
                Err(ErrorKind::NotOwner)
            } else {
                Ok(())
            }
        },
    }
}

/// A planned write always follows a legal edge.
pub proof fn lemma_planned_writes_are_legal(
    mission: Option<MissionEntity>,
    requesting_actor_id: i32,
    edge: MissionTransition,
)
    ensures
        transition_verdict(mission, requesting_actor_id, edge) matches Ok(write) ==> {
            &&& write.expected().permits(write.next())
            &&& write.edge == edge
            &&& write.requested_by == requesting_actor_id
            &&& mission matches Some(read) && read.visible() && read.status == write.expected()
                && read.id == write.mission_id && read.owner_id == requesting_actor_id
        },
{
}

} // verus!
