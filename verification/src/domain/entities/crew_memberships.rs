//! A crew membership: the row that says an actor crews a mission.

use vstd::prelude::*;

verus! {

/// How many actors may crew one mission unless the configuration says otherwise.
pub const MAX_CREW_MEMBERSHIPS_PER_MISSION: u32 = 10;

/// One actor on one mission. The pair is the identity: the row has no other state.
#[derive(Clone, Copy, Debug, PartialEq, Eq, Structural)]
pub struct CrewMembershipEntity {
    pub brawler_id: i32,
    pub mission_id: i32,
}

} // verus!
