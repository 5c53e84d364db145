//! The mission board: both stores and the capacity guard, changed together.
//!
//! Every operation takes the board as a whole. An exclusive borrow is the
//! atomic unit of work: what an operation reads and what it writes belong to
//! one moment, and no other operation can come between.
//!
//! [`state::BoardState`] is what the board holds, as plain mathematics. Each
//! operation of [`MissionBoard`] is stated as a function on it.

pub mod proofs;
pub mod state;

use vstd::prelude::*;
use crate::domain::board::proofs::{
    lemma_admit_keeps_valid, lemma_commit_keeps_valid, lemma_crewed_by, lemma_listed,
    lemma_no_crew_without_mission, lemma_release_keeps_valid, lemma_rename_keeps_valid,
    lemma_roster_covers_crew, lemma_roster_fits_crew, lemma_update_keeps_others, lemma_with_mission_keeps_valid,
    lemma_without_keeps_valid,
};
use crate::domain::board::state::{crewed_by, distinct_brawlers, knows, listed, BoardState};
use crate::domain::capacity_guard::CapacityGuard;
use crate::domain::entities::brawler_view::BrawlerViewEntity;
use crate::domain::entities::crew_memberships::CrewMembershipEntity;
use crate::domain::entities::missions::MissionEntity;
use crate::domain::lifecycle;
use crate::domain::lifecycle::StatusWrite;
use crate::domain::stores::crew_store::{
    crew_count, lemma_count_push, lemma_count_remove, membership, CrewStore,
};
use crate::domain::stores::mission_store::{
    distinct_ids, fresh_mission, lemma_slot_is_unique, lemma_update_keeps_places, newest_first,
    slot_of, MissionStore,
};
use crate::domain::value_objects::errors::{AdmitError, ErrorKind, ReleaseError, TransitionError};
use crate::domain::value_objects::mission_filter::MissionFilter;
use crate::domain::value_objects::mission_statuses::MissionTransition;

verus! {

/// The rows of `rows` that a listing under `filter` shows: those that are not
/// deleted and that the filter lets through, in the order of `rows`.
pub fn listing_of(rows: &Vec<MissionEntity>, filter: &MissionFilter) -> (shown: Vec<MissionEntity>)
    ensures
        shown@ == listed(rows@, *filter),
{
    let mut shown: Vec<MissionEntity> = Vec::new();
    let mut i: usize = 0;
    while i < rows.len()
        invariant
            i <= rows.len(),
            shown@ == listed(rows@.take(i as int), *filter),
        decreases rows.len() - i,
    {
        proof {
            assert(rows@.take(i + 1).drop_last() =~= rows@.take(i as int));
        }
        if rows[i].is_visible() && filter.matches(&rows[i]) {
            shown.push(rows[i].clone());
        }
        i = i + 1;
    }
    proof {
        assert(rows@.take(i as int) =~= rows@);
    }
    shown
}

/// Missions, their crews and the registered brawlers, under one capacity guard.
pub struct MissionBoard {
    missions: MissionStore,
    crew: CrewStore,
    brawlers: Vec<BrawlerViewEntity>,
    guard: CapacityGuard,
}

impl View for MissionBoard {
    type V = BoardState;

    closed spec fn view(&self) -> BoardState {
        BoardState {
            missions: self.missions@.rows,
            next_id: self.missions@.next_id,
            crew: self.crew@,
            brawlers: self.brawlers@,
            capacity: self.guard.limit(),
        }
    }
}

impl MissionBoard {
    /// The board is well formed when what it holds is valid.
    pub open spec fn wf(&self) -> bool {
        self@.valid()
    }

    /// An empty board on which `capacity` actors may crew a mission.
    pub fn new(capacity: u32) -> (board: MissionBoard)
        ensures
            board.wf(),
            board@.missions.len() == 0,
            board@.crew.len() == 0,
            board@.brawlers.len() == 0,
            board@.next_id == 1,
            board@.capacity == capacity,
    {
        let board = MissionBoard {
            missions: MissionStore::new(),
            crew: CrewStore::new(),
            brawlers: Vec::new(),
            guard: CapacityGuard::new(capacity),
        };
        assert forall|mission_id: i32| #[trigger] crew_count(board.crew@, mission_id) <= capacity by {
            assert(board.crew@.len() == 0);
        }
        board
    }

    /// The most actors that may crew one mission.
    pub fn capacity(&self) -> (capacity: u32)
        ensures
            capacity == self@.capacity,
    {
        self.guard.capacity()
    }

    /// Creates an `Open` mission owned by `owner_id` and returns its identifier,
    /// or `None` when the identifiers are used up.
    pub fn add_mission(&mut self, owner_id: i32, name: String, created_at: i64) -> (id: Option<i32>)
        requires
            old(self).wf(),
        ensures
            final(self).wf(),
            final(self)@ == old(self)@.with_mission(owner_id, name, created_at),
            id == (if old(self)@.next_id < i32::MAX {
                Some(old(self)@.next_id)
            } else {
                None
            }),
            id matches Some(new_id) ==> final(self)@.read(new_id) == Some(
                fresh_mission(new_id, owner_id, name, created_at),
            ) && final(self)@.crew_size(new_id) == 0,
            forall|other: i32|
                Some(other) != id ==> (#[trigger] final(self)@.sees(other) <==> old(self)@.sees(
                    other,
                )),
    {
        proof {
            lemma_with_mission_keeps_valid(self@, owner_id, name, created_at);
            lemma_no_crew_without_mission(self@, self@.next_id);
        }
        self.missions.add(owner_id, name, created_at)
    }

    /// Deletes mission `mission_id` at the request of its owner: the mission is
    /// marked as deleted at `at`, and its crew is dismissed.
    pub fn remove_mission(&mut self, mission_id: i32, requesting_actor_id: i32, at: i64) -> (verdict:
        Result<(), ErrorKind>)
        requires
            old(self).wf(),
        ensures
            final(self).wf(),
            verdict == old(self)@.ownership_verdict(mission_id, requesting_actor_id),
            final(self)@ == old(self)@.without(mission_id, requesting_actor_id, at),
    {
        proof {
            lemma_without_keeps_valid(self@, mission_id, requesting_actor_id, at);
        }
        match lifecycle::check_owner(self.missions.get(mission_id), requesting_actor_id) {
            Err(refusal) => Err(refusal),
            Ok(()) => {
                self.crew.purge(mission_id);
                let marked = self.missions.mark_deleted(mission_id, at);
                assert(marked);
                Ok(())
            },
        }
    }

    /// Gives mission `mission_id` the name `name` at the request of its owner,
    /// and returns the mission's identifier.
    pub fn rename_mission(&mut self, mission_id: i32, requesting_actor_id: i32, name: String) -> (verdict:
        Result<i32, ErrorKind>)
        requires
            old(self).wf(),
        ensures
            final(self).wf(),
            verdict is Ok <==> old(self)@.ownership_verdict(mission_id, requesting_actor_id) is Ok,
            verdict matches Ok(id) ==> id == mission_id,
            verdict matches Err(refusal) ==> old(self)@.ownership_verdict(
                mission_id,
                requesting_actor_id,
            ) == Err::<(), ErrorKind>(refusal),
            final(self)@ == old(self)@.renamed(mission_id, requesting_actor_id, name),
    {
        proof {
            lemma_rename_keeps_valid(self@, mission_id, requesting_actor_id, name);
        }
        match lifecycle::check_owner(self.missions.get(mission_id), requesting_actor_id) {
            Err(refusal) => Err(refusal),
            Ok(()) => {
                let written = self.missions.set_name(mission_id, name);
                assert(written);
                Ok(mission_id)
            },
        }
    }

    /// Registers the display name of a brawler. Says `false`, and changes
    /// nothing, if the identifier is already registered.
    pub fn register_brawler(&mut self, brawler: BrawlerViewEntity) -> (registered: bool)
        requires
            old(self).wf(),
        ensures
            final(self).wf(),
            registered == !knows(old(self)@.brawlers, brawler.id),
            final(self)@ == old(self)@.with_brawler(brawler),
    {
        let mut i: usize = 0;
        while i < self.brawlers.len()
            invariant
                *self == *old(self),
                self.wf(),
                i <= self.brawlers.len(),
                forall|k: int| 0 <= k < i ==> (#[trigger] self.brawlers@[k]).id != brawler.id,
            decreases self.brawlers.len() - i,
        {
            if self.brawlers[i].id == brawler.id {
                return false;
            }
            i = i + 1;
        }
        proof {
            let before = self.brawlers@;
            let after = before.push(brawler);
            assert forall|a: int, b: int| 0 <= a < b < after.len() implies (#[trigger] after[a]).id != (
            #[trigger] after[b]).id by {
                if b < before.len() {
                    assert(before[a].id != before[b].id);
                } else {
                    assert(after[a] == before[a]);
                }
            }
        }
        self.brawlers.push(brawler);
        true
    }

    /// Admits `actor_id` to the crew of `mission_id`, or says why not.
    ///
    /// The check and the new membership are one step: the crew that was
    /// counted is the crew that the actor joins.
    pub fn admit_actor(&mut self, actor_id: i32, mission_id: i32) -> (verdict: Result<(), AdmitError>)
        requires
            old(self).wf(),
        ensures
            final(self).wf(),
            verdict == old(self)@.admit_verdict(actor_id, mission_id),
            final(self)@ == old(self)@.admitted(actor_id, mission_id),
            verdict is Ok ==> final(self)@.has_member(actor_id, mission_id),
            verdict is Ok ==> final(self)@.crew_size(mission_id) == old(self)@.crew_size(mission_id)
                + 1,
            verdict is Err ==> final(self)@ == old(self)@,
    {
        proof {
            lemma_admit_keeps_valid(self@, actor_id, mission_id);
            lemma_count_push(self@.crew, membership(actor_id, mission_id), mission_id);
            assert(self@.crew.push(membership(actor_id, mission_id)).last() == membership(
                actor_id,
                mission_id,
            ));
        }
        let mission_seen = self.missions.get(mission_id).is_some();
        let already_member = self.crew.contains(actor_id, mission_id);
        let crew = self.crew.crew_counting(mission_id);
        let verdict = self.guard.check_admit(mission_seen, already_member, crew);
        if verdict.is_ok() {
            let inserted = self.crew.insert(CrewMembershipEntity { brawler_id: actor_id, mission_id });
            assert(inserted);
        }
        verdict
    }

    /// Takes `actor_id` out of the crew of `mission_id`, or says why not.
    pub fn release(&mut self, actor_id: i32, mission_id: i32) -> (verdict: Result<(), ReleaseError>)
        requires
            old(self).wf(),
        ensures
            final(self).wf(),
            verdict == old(self)@.release_verdict(actor_id, mission_id),
            final(self)@ == old(self)@.released(actor_id, mission_id),
            !final(self)@.has_member(actor_id, mission_id),
            old(self)@.has_member(actor_id, mission_id) ==> final(self)@.crew_size(mission_id) + 1
                == old(self)@.crew_size(mission_id),
            verdict is Err ==> final(self)@ == old(self)@,
    {
        proof {
            lemma_release_keeps_valid(self@, actor_id, mission_id);
            if self@.has_member(actor_id, mission_id) {
                let at = self@.crew.index_of(membership(actor_id, mission_id));
                lemma_count_remove(self@.crew, at, mission_id);
            }
        }
        let was_member = self.crew.remove(actor_id, mission_id);
        let mission_deleted = match self.missions.index_of(mission_id) {
            Some(at) => !self.missions.rows()[at].is_visible(),
            None => false,
        };
        self.guard.check_release(was_member, mission_deleted)
    }

    /// The first step of a transition: reads the mission and decides the request.
    pub fn plan(&self, mission_id: i32, requesting_actor_id: i32, edge: MissionTransition) -> (planned:
        Result<StatusWrite, TransitionError>)
        requires
            self.wf(),
        ensures
            planned == self@.plan(mission_id, requesting_actor_id, edge),
    {
        lifecycle::plan(self.missions.get(mission_id), requesting_actor_id, edge)
    }

    /// The second step of a transition: writes the new status if the mission
    /// is still in the status that `write` expects, and returns the mission's
    /// identifier. Otherwise nothing is written.
    pub fn commit(&mut self, write: StatusWrite) -> (verdict: Result<i32, TransitionError>)
        requires
            old(self).wf(),
        ensures
            final(self).wf(),
            verdict == old(self)@.commit_verdict(write),
            final(self)@ == old(self)@.committed(write),
    {
        proof {
            lemma_commit_keeps_valid(self@, write);
        }
        match self.missions.get(write.mission_id) {
            None => {
                return Err(TransitionError::MissionNotFound);
            },
            Some(mission) => {
                if mission.owner_id != write.requested_by {
                    return Err(TransitionError::NotOwner);
                }
            },
        }
        if self.missions.set_status(write.mission_id, write.edge.expected(), write.edge.outcome()) {
            Ok(write.mission_id)
        } else {
            Err(TransitionError::ConcurrentModification)
        }
    }

    /// Moves mission `mission_id` along `edge` at the request of
    /// `requesting_actor_id`, both steps at once, and returns the mission's identifier.
    pub fn transition(&mut self, mission_id: i32, requesting_actor_id: i32, edge: MissionTransition) -> (verdict:
        Result<i32, TransitionError>)
        requires
            old(self).wf(),
        ensures
            final(self).wf(),
            verdict == old(self)@.transition_verdict(mission_id, requesting_actor_id, edge),
            final(self)@ == old(self)@.transitioned(mission_id, requesting_actor_id, edge),
            verdict is Ok ==> final(self)@.read(mission_id) == Some(
                old(self)@.mission(mission_id).with_status(edge.target()),
            ),
            verdict is Err ==> final(self)@ == old(self)@,
    {
        proof {
            if self@.transition_verdict(mission_id, requesting_actor_id, edge) is Ok {
                let at = slot_of(self@.missions, mission_id);
                let row = self@.mission(mission_id).with_status(edge.target());
                assert(self@.mission(mission_id).id == mission_id);
                lemma_update_keeps_places(self@.missions, at, row);
                lemma_update_keeps_others(self@.missions, at, row);
            }
        }
        match self.plan(mission_id, requesting_actor_id, edge) {
            Ok(write) => self.commit(write),
            Err(refusal) => Err(refusal),
        }
    }

    /// Takes an `Open` mission to `InProgress`.
    pub fn start(&mut self, mission_id: i32, requesting_actor_id: i32) -> (verdict: Result<
        i32,
        TransitionError,
    >)
        requires
            old(self).wf(),
        ensures
            final(self).wf(),
            verdict == old(self)@.transition_verdict(
                mission_id,
                requesting_actor_id,
                MissionTransition::Start,
            ),
            final(self)@ == old(self)@.transitioned(
                mission_id,
                requesting_actor_id,
                MissionTransition::Start,
            ),
    {
        self.transition(mission_id, requesting_actor_id, MissionTransition::Start)
    }

    /// Takes a mission that is `InProgress` to `Completed`.
    pub fn complete(&mut self, mission_id: i32, requesting_actor_id: i32) -> (verdict: Result<
        i32,
        TransitionError,
    >)
        requires
            old(self).wf(),
        ensures
            final(self).wf(),
            verdict == old(self)@.transition_verdict(
                mission_id,
                requesting_actor_id,
                MissionTransition::Complete,
            ),
            final(self)@ == old(self)@.transitioned(
                mission_id,
                requesting_actor_id,
                MissionTransition::Complete,
            ),
    {
        self.transition(mission_id, requesting_actor_id, MissionTransition::Complete)
    }

    /// Takes a mission that is `InProgress` to `Failed`.
    pub fn fail(&mut self, mission_id: i32, requesting_actor_id: i32) -> (verdict: Result<
        i32,
        TransitionError,
    >)
        requires
            old(self).wf(),
        ensures
            final(self).wf(),
            verdict == old(self)@.transition_verdict(
                mission_id,
                requesting_actor_id,
                MissionTransition::Fail,
            ),
            final(self)@ == old(self)@.transitioned(
                mission_id,
                requesting_actor_id,
                MissionTransition::Fail,
            ),
    {
        self.transition(mission_id, requesting_actor_id, MissionTransition::Fail)
    }

    /// The size of the crew of `mission_id`, counted now.
    pub fn crew_counting(&self, mission_id: i32) -> (count: i64)
        requires
            self.wf(),
        ensures
            count == self@.crew_size(mission_id),
            0 <= count <= self@.capacity,
    {
        let count = self.crew.crew_counting(mission_id);
        assert(crew_count(self.crew@, mission_id) <= self@.capacity);
        count as i64
    }

    /// Whether `actor_id` crews `mission_id`.
    pub fn is_member(&self, actor_id: i32, mission_id: i32) -> (member: bool)
        requires
            self.wf(),
        ensures
            member == self@.has_member(actor_id, mission_id),
    {
        self.crew.contains(actor_id, mission_id)
    }

    /// The mission `mission_id`, or `NotFound` if it does not exist or was deleted.
    pub fn get_one(&self, mission_id: i32) -> (found: Result<MissionEntity, ErrorKind>)
        requires
            self.wf(),
        ensures
            found is Ok <==> self@.sees(mission_id),
            found matches Ok(mission) ==> mission == self@.mission(mission_id) && mission.id
                == mission_id,
            found matches Err(refusal) ==> refusal == ErrorKind::NotFound,
    {
        match self.missions.get(mission_id) {
            Some(mission) => Ok(mission.clone()),
            None => Err(ErrorKind::NotFound),
        }
    }

    /// The missions that are not deleted and that `filter` lets through, newest first.
    pub fn get_all(&self, filter: &MissionFilter) -> (missions: Vec<MissionEntity>)
        requires
            self.wf(),
        ensures
            missions@ == self@.listing(*filter),
            newest_first(missions@),
            distinct_ids(missions@),
            forall|i: int|
                0 <= i < missions@.len() ==> self@.sees((#[trigger] missions@[i]).id)
                    && self@.mission(missions@[i].id) == missions@[i] && filter.accepts(
                    missions@[i],
                ),
            forall|id: i32|
                self@.sees(id) && filter.accepts(self@.mission(id)) ==> missions@.contains(
                    #[trigger] self@.mission(id),
                ),
    {
        let rows = self.missions.rows();
        let shown = listing_of(rows, filter);
        proof {
            lemma_listed(rows@, *filter);
            assert forall|k: int| 0 <= k < shown@.len() implies self@.sees((#[trigger] shown@[k]).id)
                && self@.mission(shown@[k].id) == shown@[k] && filter.accepts(shown@[k]) by {
                assert(shown@.contains(shown@[k]));
                assert(rows@.contains(shown@[k]));
                let j = choose|j: int| 0 <= j < rows@.len() && rows@[j] == shown@[k];
                lemma_slot_is_unique(rows@, shown@[k].id, j);
            }
            assert forall|id: i32|
                self@.sees(id) && filter.accepts(self@.mission(id)) implies shown@.contains(
                #[trigger] self@.mission(id),
            ) by {
                let j = slot_of(rows@, id);
                assert(rows@[j] == self@.mission(id));
                assert(rows@.contains(self@.mission(id)));
            }
        }
        shown
    }

    /// The roster of `mission_id`: the registered brawlers who crew it, each
    /// once, in the order of their registration.
    ///
    /// Where every actor of the crew is registered, the roster has exactly one
    /// line for each member. An actor who joined without ever being registered
    /// counts in the crew and has no line, because there is no name to show.
    pub fn get_mission_brawlers(&self, mission_id: i32) -> (brawlers: Vec<BrawlerViewEntity>)
        requires
            self.wf(),
        ensures
            brawlers@ == self@.roster(mission_id),
            brawlers@.len() <= self@.crew_size(mission_id),
            self@.crew_is_known(mission_id) ==> brawlers@.len() == self@.crew_size(mission_id),
            distinct_brawlers(brawlers@),
            forall|i: int|
                0 <= i < brawlers@.len() ==> self@.has_member(
                    (#[trigger] brawlers@[i]).id,
                    mission_id,
                ) && self@.brawlers.contains(brawlers@[i]),
            forall|actor_id: i32|
                self@.has_member(actor_id, mission_id) && knows(self@.brawlers, actor_id)
                    ==> #[trigger] knows(brawlers@, actor_id),
    {
        let mut shown: Vec<BrawlerViewEntity> = Vec::new();
        let mut i: usize = 0;
        while i < self.brawlers.len()
            invariant
                self.wf(),
                i <= self.brawlers.len(),
                shown@ == crewed_by(self.brawlers@.take(i as int), self.crew@, mission_id),
            decreases self.brawlers.len() - i,
        {
            proof {
                assert(self.brawlers@.take(i + 1).drop_last() =~= self.brawlers@.take(i as int));
            }
            if self.crew.contains(self.brawlers[i].id, mission_id) {
                shown.push(self.brawlers[i].clone());
            }
            i = i + 1;
        }
        proof {
            assert(self.brawlers@.take(i as int) =~= self.brawlers@);
            lemma_crewed_by(self.brawlers@, self.crew@, mission_id);
            assert forall|k: int| 0 <= k < shown@.len() implies self@.has_member(
                (#[trigger] shown@[k]).id,
                mission_id,
            ) && self@.brawlers.contains(shown@[k]) by {
                assert(shown@.contains(shown@[k]));
            }
            lemma_roster_fits_crew(self.brawlers@, self.crew@, mission_id);
            if self@.crew_is_known(mission_id) {
                lemma_roster_covers_crew(self.brawlers@, self.crew@, mission_id);
            }
            assert forall|actor_id: i32|
                self@.has_member(actor_id, mission_id) && knows(
                    self@.brawlers,
                    actor_id,
                ) implies #[trigger] knows(shown@, actor_id) by {
                let i = choose|i: int|
                    0 <= i < self.brawlers@.len() && (#[trigger] self.brawlers@[i]).id == actor_id;
                assert(self.brawlers@.contains(self.brawlers@[i]));
                assert(shown@.contains(self.brawlers@[i]));
                let j = choose|j: int| 0 <= j < shown@.len() && shown@[j] == self.brawlers@[i];
                assert(shown@[j].id == actor_id);
            }
        }
        shown
    }
}

impl Default for MissionBoard {
    /// An empty board with the capacity of ten.
    fn default() -> (board: MissionBoard)
        ensures
            board.wf(),
            board@.missions.len() == 0,
            board@.crew.len() == 0,
            board@.capacity == 10,
    {
        MissionBoard::new(10)
    }
}

} // verus!
