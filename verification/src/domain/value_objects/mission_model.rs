//! A mission as shown to a client.

use vstd::prelude::*;
use crate::domain::value_objects::mission_statuses::MissionStatuses;

verus! {

/// The attributes of a mission together with the size of its crew at the
/// moment of the read.
#[derive(Debug)]
pub struct MissionModel {
    pub id: i32,
    pub name: String,
    pub status: MissionStatuses,
    pub owner_id: i32,
    pub crew_count: i64,
    pub created_at: i64,
}

impl Clone for MissionModel {
    fn clone(&self) -> (copy: MissionModel)
        ensures
            copy == *self,
    {
        MissionModel {
            id: self.id,
            name: self.name.clone(),
            status: self.status,
            owner_id: self.owner_id,
            crew_count: self.crew_count,
            created_at: self.created_at,
        }
    }
}

} // verus!
