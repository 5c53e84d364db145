//! A brawler as the stores know it when a roster is read.

use vstd::prelude::*;
use crate::domain::value_objects::mission_brawler_model::MissionBrawlerModel;

verus! {

/// An actor's identifier and display name.
#[derive(Debug)]
pub struct BrawlerViewEntity {
    pub id: i32,
    pub username: String,
}

impl BrawlerViewEntity {
    /// The roster line for this brawler.
    pub fn to_model(&self) -> (model: MissionBrawlerModel)
        ensures
            model.id == self.id,
            model.username == self.username,
    {
        MissionBrawlerModel { id: self.id, username: self.username.clone() }
    }
}

impl Clone for BrawlerViewEntity {
    fn clone(&self) -> (copy: BrawlerViewEntity)
        ensures
            copy == *self,
    {
        BrawlerViewEntity { id: self.id, username: self.username.clone() }
    }
}

} // verus!
