//! The capacity guard: who may join a crew, and who may leave it.
//!
//! The guard decides from three facts about one moment of the stores. It is
//! the caller's part to read the facts and to act on the verdict in one
//! atomic step, so that no other admission can come between.

use vstd::prelude::*;
use crate::domain::entities::crew_memberships::MAX_CREW_MEMBERSHIPS_PER_MISSION;
use crate::domain::value_objects::errors::{AdmitError, ReleaseError};

verus! {

/// The verdict on a request to join.
///
/// An actor is admitted if and only if the mission is there and not deleted,
/// the actor is not yet in its crew, and the crew is below capacity. Where
/// several of these fail, the first in this order is the one that is reported.
pub open spec fn admit_verdict(
    mission_seen: bool,
    already_member: bool,
    crew: nat,
    capacity: nat,
) -> Result<(), AdmitError> {
    if !mission_seen {
        Err(AdmitError::MissionNotFound)
    } else if already_member {
        Err(AdmitError::AlreadyMember)
    } else if crew >= capacity {
        Err(AdmitError::CapacityExceeded)
    } else {
        Ok(())
    }
}

/// The verdict on a request to leave.
///
/// A member may always leave. Whoever asks to leave a deleted mission is let
/// go without an error, member or not: the deletion has already ended the crew.
pub open spec fn release_verdict(was_member: bool, mission_deleted: bool) -> Result<
    (),
    ReleaseError,
> {
    if was_member || mission_deleted {
        Ok(())
    } else {
        Err(ReleaseError::NotAMember)
    }
}

/// Holds the crew capacity that the process was started with.
#[derive(Clone, Copy, Debug)]
pub struct CapacityGuard {
    capacity: u32,
}

impl CapacityGuard {
    /// The most actors that may crew one mission.
    pub closed spec fn limit(&self) -> u32 {
        self.capacity
    }

    /// A guard that lets `capacity` actors crew a mission.
    pub fn new(capacity: u32) -> (guard: CapacityGuard)
        ensures
            guard.limit() == capacity,
    {
        CapacityGuard { capacity }
    }

    /// The most actors that may crew one mission.
    pub fn capacity(&self) -> (capacity: u32)
        ensures
            capacity == self.limit(),
    {
        self.capacity
    }

    /// Decides a request to join a mission whose crew has `crew` members.
    pub fn check_admit(&self, mission_seen: bool, already_member: bool, crew: usize) -> (verdict:
        Result<(), AdmitError>)
        ensures
            verdict == admit_verdict(mission_seen, already_member, crew as nat, self.limit() as nat),
            verdict is Ok <==> mission_seen && !already_member && crew < self.limit(),
    {
        if !mission_seen {
            Err(AdmitError::MissionNotFound)
        } else if already_member {
            Err(AdmitError::AlreadyMember)
        } else if crew >= self.capacity as usize {
            Err(AdmitError::CapacityExceeded)
        } else {
            Ok(())
        }
    }

    /// Decides a request to leave.
    pub fn check_release(&self, was_member: bool, mission_deleted: bool) -> (verdict: Result<
        (),
        ReleaseError,
    >)
        ensures
            verdict == release_verdict(was_member, mission_deleted),
    {
        if was_member || mission_deleted {
            Ok(())
        } else {
            Err(ReleaseError::NotAMember)
        }
    }
}

impl Default for CapacityGuard {
    /// The guard with the capacity of ten.
    fn default() -> (guard: CapacityGuard)
        ensures
            guard.limit() == MAX_CREW_MEMBERSHIPS_PER_MISSION,
    {
        CapacityGuard { capacity: MAX_CREW_MEMBERSHIPS_PER_MISSION }
    }
}

} // verus!
