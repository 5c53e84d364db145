//! What the board holds, as plain mathematics, and what each operation makes of it.

use vstd::prelude::*;
use crate::domain::capacity_guard;
use crate::domain::entities::brawler_view::BrawlerViewEntity;
use crate::domain::entities::crew_memberships::CrewMembershipEntity;
use crate::domain::entities::missions::MissionEntity;
use crate::domain::lifecycle;
use crate::domain::lifecycle::StatusWrite;
use crate::domain::stores::crew_store::{crew_count, is_member, membership, without_mission};
use crate::domain::stores::mission_store::{
    distinct_ids, fresh_mission, holds, mission_of, newest_first, sees, slot_for, slot_of,
};
use crate::domain::value_objects::errors::{AdmitError, ErrorKind, ReleaseError, TransitionError};
use crate::domain::value_objects::mission_filter::MissionFilter;
use crate::domain::value_objects::mission_statuses::MissionTransition;

verus! {

/// Whether some brawler of `brawlers` has the identifier `id`.
pub open spec fn knows(brawlers: Seq<BrawlerViewEntity>, id: i32) -> bool {
    exists|i: int| 0 <= i < brawlers.len() && (#[trigger] brawlers[i]).id == id
}

/// No brawler is registered twice.
pub open spec fn distinct_brawlers(brawlers: Seq<BrawlerViewEntity>) -> bool {
    forall|i: int, j: int|
        0 <= i < j < brawlers.len() ==> (#[trigger] brawlers[i]).id != (#[trigger] brawlers[j]).id
}

/// The rows of `rows` that are not deleted and that `filter` lets through, in their order.
pub open spec fn listed(rows: Seq<MissionEntity>, filter: MissionFilter) -> Seq<MissionEntity>
    decreases rows.len(),
{
    if rows.len() == 0 {
        rows
    } else if rows.last().visible() && filter.accepts(rows.last()) {
        listed(rows.drop_last(), filter).push(rows.last())
    } else {
        listed(rows.drop_last(), filter)
    }
}

/// The brawlers of `brawlers` who crew `mission_id`, in their order.
pub open spec fn crewed_by(
    brawlers: Seq<BrawlerViewEntity>,
    crew: Seq<CrewMembershipEntity>,
    mission_id: i32,
) -> Seq<BrawlerViewEntity>
    decreases brawlers.len(),
{
    if brawlers.len() == 0 {
        brawlers
    } else if is_member(crew, brawlers.last().id, mission_id) {
        crewed_by(brawlers.drop_last(), crew, mission_id).push(brawlers.last())
    } else {
        crewed_by(brawlers.drop_last(), crew, mission_id)
    }
}

/// What the board holds.
pub struct BoardState {
    /// Every mission ever created, newest first.
    pub missions: Seq<MissionEntity>,
    /// The identifier that the next mission will get.
    pub next_id: i32,
    /// The crew memberships, oldest first.
    pub crew: Seq<CrewMembershipEntity>,
    /// The brawlers whose names are known, in the order in which they were registered.
    pub brawlers: Seq<BrawlerViewEntity>,
    /// The most actors that may crew one mission.
    pub capacity: u32,
}

impl BoardState {
    /// What holds of the board at all times.
    ///
    /// No crew is above capacity, no actor is twice in a crew, and a membership
    /// exists only for a mission that exists and is not deleted.
    pub open spec fn valid(self) -> bool {
        &&& distinct_ids(self.missions)
        &&& newest_first(self.missions)
        &&& self.next_id >= 1
        &&& forall|i: int|
            0 <= i < self.missions.len() ==> 0 < (#[trigger] self.missions[i]).id < self.next_id
        &&& self.crew.no_duplicates()
        &&& forall|mission_id: i32| #[trigger] crew_count(self.crew, mission_id) <= self.capacity
        &&& forall|k: int|
            0 <= k < self.crew.len() ==> sees(self.missions, (#[trigger] self.crew[k]).mission_id)
        &&& distinct_brawlers(self.brawlers)
    }

    /// Whether the mission exists and is not deleted.
    pub open spec fn sees(self, mission_id: i32) -> bool {
        sees(self.missions, mission_id)
    }

    /// Whether the mission exists and is deleted.
    pub open spec fn buried(self, mission_id: i32) -> bool {
        holds(self.missions, mission_id) && !mission_of(self.missions, mission_id).visible()
    }

    /// The mission with the identifier `mission_id`.
    pub open spec fn mission(self, mission_id: i32) -> MissionEntity {
        mission_of(self.missions, mission_id)
    }

    /// The mission as an operation reads it: nothing, unless it exists and is not deleted.
    pub open spec fn read(self, mission_id: i32) -> Option<MissionEntity> {
        if self.sees(mission_id) {
            Some(self.mission(mission_id))
        } else {
            None
        }
    }

    /// The size of the crew of `mission_id`.
    pub open spec fn crew_size(self, mission_id: i32) -> nat {
        crew_count(self.crew, mission_id)
    }

    /// Whether `actor_id` crews `mission_id`.
    pub open spec fn has_member(self, actor_id: i32, mission_id: i32) -> bool {
        is_member(self.crew, actor_id, mission_id)
    }

    /// The verdict on a request of `actor_id` to join `mission_id`.
    pub open spec fn admit_verdict(self, actor_id: i32, mission_id: i32) -> Result<(), AdmitError> {
        capacity_guard::admit_verdict(
            self.sees(mission_id),
            self.has_member(actor_id, mission_id),
            self.crew_size(mission_id),
            self.capacity as nat,
        )
    }

    /// The board after a request of `actor_id` to join `mission_id`: with the
    /// new membership after all the others if the actor is admitted, unchanged if not.
    pub open spec fn admitted(self, actor_id: i32, mission_id: i32) -> BoardState {
        if self.admit_verdict(actor_id, mission_id) is Ok {
            BoardState { crew: self.crew.push(membership(actor_id, mission_id)), ..self }
        } else {
            self
        }
    }

    /// The verdict on a request of `actor_id` to leave `mission_id`.
    pub open spec fn release_verdict(self, actor_id: i32, mission_id: i32) -> Result<
        (),
        ReleaseError,
    > {
        capacity_guard::release_verdict(
            self.has_member(actor_id, mission_id),
            self.buried(mission_id),
        )
    }

    /// The board after a request of `actor_id` to leave `mission_id`: without
    /// the membership if there was one, unchanged if not.
    pub open spec fn released(self, actor_id: i32, mission_id: i32) -> BoardState {
        if self.has_member(actor_id, mission_id) {
            BoardState {
                crew: self.crew.remove(self.crew.index_of(membership(actor_id, mission_id))),
                ..self
            }
        } else {
            self
        }
    }

    /// The first step of a transition: the verdict on the request and, on
    /// success, the conditional write that carries it out.
    pub open spec fn plan(self, mission_id: i32, requesting_actor_id: i32, edge: MissionTransition) -> Result<
        StatusWrite,
        TransitionError,
    > {
        lifecycle::transition_verdict(self.read(mission_id), requesting_actor_id, edge)
    }

    /// The second step of a transition: what the conditional write `write` returns.
    ///
    /// It succeeds with the mission's identifier if the mission is there, not
    /// deleted, owned by the actor who asked, and still in the status that the
    /// edge leaves. A status that has moved on in the meantime is reported as
    /// `ConcurrentModification`.
    pub open spec fn commit_verdict(self, write: StatusWrite) -> Result<i32, TransitionError> {
        if !self.sees(write.mission_id) {
            Err(TransitionError::MissionNotFound)
        } else if self.mission(write.mission_id).owner_id != write.requested_by {
            Err(TransitionError::NotOwner)
        } else if self.mission(write.mission_id).status != write.expected() {
            Err(TransitionError::ConcurrentModification)
        } else {
            Ok(write.mission_id)
        }
    }

    /// The board after the conditional write `write`: with the new status if
    /// the write succeeds, unchanged if not.
    pub open spec fn committed(self, write: StatusWrite) -> BoardState {
        if self.commit_verdict(write) is Ok {
            BoardState {
                missions: self.missions.update(
                    slot_of(self.missions, write.mission_id),
                    self.mission(write.mission_id).with_status(write.next()),
                ),
                ..self
            }
        } else {
            self
        }
    }

    /// What a transition made in one atomic step returns.
    pub open spec fn transition_verdict(
        self,
        mission_id: i32,
        requesting_actor_id: i32,
        edge: MissionTransition,
    ) -> Result<i32, TransitionError> {
        match self.plan(mission_id, requesting_actor_id, edge) {
            Ok(write) => self.commit_verdict(write),
            Err(refusal) => Err(refusal),
        }
    }

    /// The board after a transition made in one atomic step.
    pub open spec fn transitioned(
        self,
        mission_id: i32,
        requesting_actor_id: i32,
        edge: MissionTransition,
    ) -> BoardState {
        match self.plan(mission_id, requesting_actor_id, edge) {
            Ok(write) => self.committed(write),
            Err(_) => self,
        }
    }

    /// The board after a mission was created, where identifiers are left.
    pub open spec fn with_mission(self, owner_id: i32, name: String, created_at: i64) -> BoardState {
        if self.next_id < i32::MAX {
            BoardState {
                missions: self.missions.insert(
                    slot_for(self.missions, created_at),
                    fresh_mission(self.next_id, owner_id, name, created_at),
                ),
                next_id: (self.next_id + 1) as i32,
                ..self
            }
        } else {
            self
        }
    }

    /// The verdict on a request of `requesting_actor_id` to delete or rename
    /// `mission_id`: only the owner of a mission that is there may do either.
    pub open spec fn ownership_verdict(self, mission_id: i32, requesting_actor_id: i32) -> Result<
        (),
        ErrorKind,
    > {
        lifecycle::owner_verdict(self.read(mission_id), requesting_actor_id)
    }

    /// The board after a request to rename `mission_id`: on success the mission
    /// has the new name, and nothing else has changed.
    pub open spec fn renamed(self, mission_id: i32, requesting_actor_id: i32, name: String) -> BoardState {
        if self.ownership_verdict(mission_id, requesting_actor_id) is Ok {
            BoardState {
                missions: self.missions.update(
                    slot_of(self.missions, mission_id),
                    self.mission(mission_id).renamed(name),
                ),
                ..self
            }
        } else {
            self
        }
    }

    /// The board after a request to delete `mission_id` at `at`: on success the
    /// mission is marked and its crew is gone.
    pub open spec fn without(self, mission_id: i32, requesting_actor_id: i32, at: i64) -> BoardState {
        if self.ownership_verdict(mission_id, requesting_actor_id) is Ok {
            BoardState {
                missions: self.missions.update(
                    slot_of(self.missions, mission_id),
                    self.mission(mission_id).deleted(at),
                ),
                crew: without_mission(self.crew, mission_id),
                ..self
            }
        } else {
            self
        }
    }

    /// The board after `brawler` was registered, unless the identifier is taken.
    pub open spec fn with_brawler(self, brawler: BrawlerViewEntity) -> BoardState {
        if knows(self.brawlers, brawler.id) {
            self
        } else {
            BoardState { brawlers: self.brawlers.push(brawler), ..self }
        }
    }

    /// The missions that a listing under `filter` shows, newest first.
    pub open spec fn listing(self, filter: MissionFilter) -> Seq<MissionEntity> {
        listed(self.missions, filter)
    }

    /// Whether every actor who crews `mission_id` is a registered brawler.
    pub open spec fn crew_is_known(self, mission_id: i32) -> bool {
        forall|k: int|
            0 <= k < self.crew.len() && (#[trigger] self.crew[k]).mission_id == mission_id
                ==> knows(self.brawlers, self.crew[k].brawler_id)
    }

    /// The registered brawlers who crew `mission_id`, in the order of their
    /// registration. An actor who crews the mission and was never registered
    /// has no name to show and no line.
    pub open spec fn roster(self, mission_id: i32) -> Seq<BrawlerViewEntity> {
        crewed_by(self.brawlers, self.crew, mission_id)
    }
}

} // verus!
