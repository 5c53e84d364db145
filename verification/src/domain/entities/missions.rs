//! A mission: the row of the mission store.

use vstd::prelude::*;
use crate::domain::value_objects::mission_model::MissionModel;
use crate::domain::value_objects::mission_statuses::MissionStatuses;

verus! {

/// One mission.
///
/// `id`, `owner_id` and `created_at` never change once the row exists. A row
/// with a `deleted_at` is soft-deleted: it stays in the store and no read or
/// write sees it any more.
#[derive(Debug)]
pub struct MissionEntity {
    pub id: i32,
    pub name: String,
    pub status: MissionStatuses,
    pub owner_id: i32,
    /// Seconds since the epoch at which the mission was created.
    pub created_at: i64,
    /// Seconds since the epoch at which the mission was deleted, if it was.
    pub deleted_at: Option<i64>,
}

impl MissionEntity {
    /// A mission that reads and writes still see.
    pub open spec fn visible(self) -> bool {
        self.deleted_at is None
    }

    /// The mission with its status replaced.
    pub open spec fn with_status(self, status: MissionStatuses) -> MissionEntity {
        MissionEntity { status, ..self }
    }

    /// The mission under another name.
    pub open spec fn renamed(self, name: String) -> MissionEntity {
        MissionEntity { name, ..self }
    }

    /// The mission marked as deleted at `at`.
    pub open spec fn deleted(self, at: i64) -> MissionEntity {
        MissionEntity { deleted_at: Some(at), ..self }
    }

    /// What a client is shown of the mission when its crew has `crew_count` members.
    pub open spec fn model(self, crew_count: i64) -> MissionModel {
        MissionModel {
            id: self.id,
            name: self.name,
            status: self.status,
            owner_id: self.owner_id,
            crew_count,
            created_at: self.created_at,
        }
    }

    /// Whether reads and writes still see the mission.
    pub fn is_visible(&self) -> (seen: bool)
        ensures
            seen == self.visible(),
    {
        self.deleted_at.is_none()
    }

    /// What a client is shown of the mission when its crew has `crew_count` members.
    pub fn to_model(&self, crew_count: i64) -> (model: MissionModel)
        ensures
            model == self.model(crew_count),
    {
        MissionModel {
            id: self.id,
            name: self.name.clone(),
            status: self.status,
            owner_id: self.owner_id,
            crew_count,
            created_at: self.created_at,
        }
    }
}

impl Clone for MissionEntity {
    fn clone(&self) -> (copy: MissionEntity)
        ensures
            copy == *self,
    {
        MissionEntity {
            id: self.id,
            name: self.name.clone(),
            status: self.status,
            owner_id: self.owner_id,
            created_at: self.created_at,
            deleted_at: self.deleted_at,
        }
    }
}

} // verus!
