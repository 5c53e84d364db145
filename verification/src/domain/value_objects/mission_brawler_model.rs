//! A crew member as shown to a client.

use vstd::prelude::*;

verus! {

/// One line of a crew roster.
#[derive(Debug)]
pub struct MissionBrawlerModel {
    pub id: i32,
    pub username: String,
}

impl Clone for MissionBrawlerModel {
    fn clone(&self) -> (copy: MissionBrawlerModel)
        ensures
            copy == *self,
    {
        MissionBrawlerModel { id: self.id, username: self.username.clone() }
    }
}

} // verus!
