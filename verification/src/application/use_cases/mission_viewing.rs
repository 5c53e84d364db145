//! The mission query service: missions with the size of their crew, and rosters.
//!
//! The service only reads. It holds no invariant of its own and can run
//! beside any number of writers that each take the board in turn.

use std::sync::Arc;
use vstd::prelude::*;
use crate::domain::board::state::{knows, BoardState};
use crate::domain::board::MissionBoard;
use crate::domain::entities::brawler_view::BrawlerViewEntity;
use crate::domain::entities::missions::MissionEntity;
use crate::domain::stores::mission_store::newer;
use crate::domain::value_objects::errors::ErrorKind;
use crate::domain::value_objects::mission_brawler_model::MissionBrawlerModel;
use crate::domain::value_objects::mission_filter::MissionFilter;
use crate::domain::value_objects::mission_model::MissionModel;

verus! {

/// The crew size to show for a count that may have failed: a failed count shows as zero.
pub open spec fn count_or_zero(counts: Seq<Option<i64>>, at: int) -> i64 {
    if 0 <= at < counts.len() && counts[at] is Some {
        counts[at]->0
    } else {
        0
    }
}

/// Each mission of `missions` with the crew size that `counts` gives at the same place.
pub open spec fn annotated(missions: Seq<MissionEntity>, counts: Seq<Option<i64>>) -> Seq<
    MissionModel,
> {
    Seq::new(missions.len(), |i: int| missions[i].model(count_or_zero(counts, i)))
}

/// The roster lines of `brawlers`, one for one.
pub open spec fn roster_lines(brawlers: Seq<BrawlerViewEntity>) -> Seq<MissionBrawlerModel> {
    Seq::new(
        brawlers.len(),
        |i: int| MissionBrawlerModel { id: brawlers[i].id, username: brawlers[i].username },
    )
}

/// The crew sizes of `missions` on the board `state`, one for one.
pub open spec fn live_counts(state: BoardState, missions: Seq<MissionEntity>) -> Seq<Option<i64>> {
    Seq::new(missions.len(), |i: int| Some(state.crew_size(missions[i].id) as i64))
}

/// Reads missions and rosters from a repository of type `T`.
pub struct MissionViewingUseCase<T> {
    mission_viewing_repository: Arc<T>,
}

impl<T> MissionViewingUseCase<T> {
    /// The repository that the service reads from.
    pub closed spec fn repository(&self) -> T {
        *self.mission_viewing_repository
    }

    /// A service that reads from `mission_viewing_repository`.
    pub fn new(mission_viewing_repository: Arc<T>) -> (service: Self)
        ensures
            service.repository() == *mission_viewing_repository,
    {
        MissionViewingUseCase { mission_viewing_repository }
    }

    /// The repository that the service reads from.
    pub fn source(&self) -> (repository: &Arc<T>)
        ensures
            **repository == self.repository(),
    {
        &self.mission_viewing_repository
    }

    /// Puts missions and the outcomes of their crew counts together.
    ///
    /// A count that failed, or that is missing, shows as zero: one failed
    /// count does not fail the listing.
    pub fn annotate(missions: &Vec<MissionEntity>, counts: &Vec<Option<i64>>) -> (models: Vec<
        MissionModel,
    >)
        ensures
            models@ == annotated(missions@, counts@),
    {
        let mut models: Vec<MissionModel> = Vec::new();
        let mut i: usize = 0;
        while i < missions.len()
            invariant
                i <= missions.len(),
                models@.len() == i,
                forall|k: int|
                    0 <= k < i ==> models@[k] == missions@[k].model(count_or_zero(counts@, k)),
            decreases missions.len() - i,
        {
            let count = if i < counts.len() {
                match counts[i] {
                    Some(count) => count,
                    None => 0,
                }
            } else {
                0
            };
            models.push(missions[i].to_model(count));
            i = i + 1;
        }
        assert(models@ =~= annotated(missions@, counts@));
        models
    }

    /// Turns the brawlers of a crew into roster lines.
    pub fn to_roster(brawlers: &Vec<BrawlerViewEntity>) -> (lines: Vec<MissionBrawlerModel>)
        ensures
            lines@ == roster_lines(brawlers@),
    {
        let mut lines: Vec<MissionBrawlerModel> = Vec::new();
        let mut i: usize = 0;
        while i < brawlers.len()
            invariant
                i <= brawlers.len(),
                lines@.len() == i,
                forall|k: int|
                    0 <= k < i ==> lines@[k] == (MissionBrawlerModel {
                        id: brawlers@[k].id,
                        username: brawlers@[k].username,
                    }),
            decreases brawlers.len() - i,
        {
            lines.push(brawlers[i].to_model());
            i = i + 1;
        }
        assert(lines@ =~= roster_lines(brawlers@));
        lines
    }
}

impl MissionViewingUseCase<MissionBoard> {
    /// Mission `mission_id` with the size of its crew, or `NotFound` if the
    /// mission does not exist or was deleted.
    pub fn get_one(&self, mission_id: i32) -> (found: Result<MissionModel, ErrorKind>)
        requires
            self.repository().wf(),
        ensures
            found is Ok <==> self.repository()@.sees(mission_id),
            found matches Ok(model) ==> model == self.repository()@.mission(mission_id).model(
                self.repository()@.crew_size(mission_id) as i64,
            ),
            found matches Err(refusal) ==> refusal == ErrorKind::NotFound,
    {
        let crew_count = self.mission_viewing_repository.crew_counting(mission_id);
        match self.mission_viewing_repository.get_one(mission_id) {
            Ok(mission) => Ok(mission.to_model(crew_count)),
            Err(refusal) => Err(refusal),
        }
    }

    /// The missions that are not deleted and that `filter` lets through,
    /// newest first, each with the size of its crew.
    pub fn get_all(&self, filter: &MissionFilter) -> (models: Vec<MissionModel>)
        requires
            self.repository().wf(),
        ensures
            models@ == annotated(
                self.repository()@.listing(*filter),
                live_counts(self.repository()@, self.repository()@.listing(*filter)),
            ),
            forall|i: int|
                0 <= i < models@.len() ==> (#[trigger] models@[i]).crew_count
                    == self.repository()@.crew_size(models@[i].id) && models@[i].crew_count
                    <= self.repository()@.capacity,
            forall|i: int, j: int|
                0 <= i < j < models@.len() ==> (#[trigger] models@[i]).created_at > (
                #[trigger] models@[j]).created_at || (models@[i].created_at == models@[j].created_at
                    && models@[i].id > models@[j].id),
    {
        let missions = self.mission_viewing_repository.get_all(filter);
        let mut counts: Vec<Option<i64>> = Vec::new();
        let mut i: usize = 0;
        while i < missions.len()
            invariant
                self.repository().wf(),
                i <= missions.len(),
                counts@.len() == i,
                forall|k: int|
                    0 <= k < i ==> counts@[k] == Some(
                        self.repository()@.crew_size(missions@[k].id) as i64,
                    ) && 0 <= self.repository()@.crew_size(missions@[k].id)
                        <= self.repository()@.capacity,
            decreases missions.len() - i,
        {
            counts.push(Some(self.mission_viewing_repository.crew_counting(missions[i].id)));
            i = i + 1;
        }
        assert(counts@ =~= live_counts(self.repository()@, missions@));
        let models = Self::annotate(&missions, &counts);
        proof {
            assert forall|i: int, j: int| 0 <= i < j < models@.len() implies (#[trigger] models@[i]).created_at
                > (#[trigger] models@[j]).created_at || (models@[i].created_at
                == models@[j].created_at && models@[i].id > models@[j].id) by {
                assert(newer(missions@[i], missions@[j]));
            }
        }
        models
    }

    /// The roster of mission `mission_id`: one line for each registered
    /// brawler who crews it, in the order of registration.
    ///
    /// Where every actor of the crew is registered, that is exactly one line
    /// for each member. A member who was never registered has no name to show
    /// and is left out.
    pub fn get_mission_count(&self, mission_id: i32) -> (lines: Vec<MissionBrawlerModel>)
        requires
            self.repository().wf(),
        ensures
            lines@ == roster_lines(self.repository()@.roster(mission_id)),
            lines@.len() <= self.repository()@.crew_size(mission_id),
            self.repository()@.crew_is_known(mission_id) ==> lines@.len()
                == self.repository()@.crew_size(mission_id),
            forall|i: int|
                0 <= i < lines@.len() ==> self.repository()@.has_member(
                    (#[trigger] lines@[i]).id,
                    mission_id,
                ),
            forall|i: int, j: int|
                0 <= i < j < lines@.len() ==> (#[trigger] lines@[i]).id != (#[trigger] lines@[j]).id,
            forall|actor_id: i32|
                self.repository()@.has_member(actor_id, mission_id) && knows(
                    self.repository()@.brawlers,
                    actor_id,
                ) ==> exists|i: int| 0 <= i < lines@.len() && (#[trigger] lines@[i]).id == actor_id,
    {
        let brawlers = self.mission_viewing_repository.get_mission_brawlers(mission_id);
        let lines = Self::to_roster(&brawlers);
        proof {
            assert forall|i: int, j: int| 0 <= i < j < lines@.len() implies (#[trigger] lines@[i]).id
                != (#[trigger] lines@[j]).id by {
                assert(brawlers@[i].id != brawlers@[j].id);
            }
            assert forall|actor_id: i32|
                self.repository()@.has_member(actor_id, mission_id) && knows(
                    self.repository()@.brawlers,
                    actor_id,
                ) implies exists|i: int|
                0 <= i < lines@.len() && (#[trigger] lines@[i]).id == actor_id by {
                assert(knows(brawlers@, actor_id));
                let i = choose|i: int|
                    0 <= i < brawlers@.len() && (#[trigger] brawlers@[i]).id == actor_id;
                assert(lines@[i].id == actor_id);
            }
        }
        lines
    }
}

} // verus!
