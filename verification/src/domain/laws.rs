//! What holds of every history of the board.
//!
//! Requests that arrive at the same time are carried out one after the other,
//! in an order that nobody chooses. The statements here therefore speak of
//! every order.

use vstd::prelude::*;
use crate::domain::board::proofs::{
    lemma_admit_keeps_valid, lemma_commit_keeps_valid, lemma_release_keeps_valid,
    lemma_update_keeps_others,
};
use crate::domain::board::state::BoardState;
use crate::domain::entities::crew_memberships::CrewMembershipEntity;
use crate::domain::lifecycle::StatusWrite;
use crate::domain::stores::crew_store::{
    crew_count, is_member, lemma_count_push, lemma_count_remove, lemma_remove_keeps_distinct,
    membership,
};
use crate::domain::stores::mission_store::{
    fresh_mission, holds, lemma_insert_keeps_order, lemma_update_keeps_places, slot_of,
};
use crate::domain::value_objects::errors::{AdmitError, TransitionError};
use crate::domain::value_objects::mission_statuses::{MissionStatuses, MissionTransition};

verus! {

/// The smaller of two numbers.
pub open spec fn least(a: int, b: int) -> int {
    if a <= b {
        a
    } else {
        b
    }
}

/// The board after the actors of `actors` asked, one after the other, to join `mission_id`.
pub open spec fn after_admissions(state: BoardState, actors: Seq<i32>, mission_id: i32) -> BoardState
    decreases actors.len(),
{
    if actors.len() == 0 {
        state
    } else {
        after_admissions(state, actors.drop_last(), mission_id).admitted(actors.last(), mission_id)
    }
}

/// How many of the actors of `actors` were admitted when they asked, one after
/// the other, to join `mission_id`.
pub open spec fn admissions(state: BoardState, actors: Seq<i32>, mission_id: i32) -> nat
    decreases actors.len(),
{
    if actors.len() == 0 {
        0
    } else if after_admissions(state, actors.drop_last(), mission_id).admit_verdict(
        actors.last(),
        mission_id,
    ) is Ok {
        admissions(state, actors.drop_last(), mission_id) + 1
    } else {
        admissions(state, actors.drop_last(), mission_id)
    }
}

/// A new row makes its own pair a member and changes nothing for any other pair.
pub proof fn lemma_member_after_push(
    crew: Seq<CrewMembershipEntity>,
    row: CrewMembershipEntity,
    actor_id: i32,
    mission_id: i32,
)
    ensures
        is_member(crew.push(row), actor_id, mission_id) <==> is_member(crew, actor_id, mission_id)
            || row == membership(actor_id, mission_id),
{
    let after = crew.push(row);
    let wanted = membership(actor_id, mission_id);
    if crew.contains(wanted) {
        let i = choose|i: int| 0 <= i < crew.len() && crew[i] == wanted;
        assert(after[i] == wanted);
    }
    if row == wanted {
        assert(after[after.len() - 1] == wanted);
    }
    if after.contains(wanted) {
        let i = choose|i: int| 0 <= i < after.len() && after[i] == wanted;
        if i < crew.len() {
            assert(crew[i] == wanted);
        }
    }
}

/// Whatever actors ask to join, in whatever order, no crew is ever above capacity.
///
/// The requests touch nothing but the crew store.
pub proof fn lemma_capacity_is_never_exceeded(state: BoardState, actors: Seq<i32>, mission_id: i32)
    requires
        state.valid(),
    ensures
        after_admissions(state, actors, mission_id).valid(),
        forall|id: i32| #[trigger]
            after_admissions(state, actors, mission_id).crew_size(id) <= state.capacity,
        after_admissions(state, actors, mission_id).missions == state.missions,
        after_admissions(state, actors, mission_id).next_id == state.next_id,
        after_admissions(state, actors, mission_id).brawlers == state.brawlers,
        after_admissions(state, actors, mission_id).capacity == state.capacity,
    decreases actors.len(),
{
    if actors.len() > 0 {
        let before = after_admissions(state, actors.drop_last(), mission_id);
        lemma_capacity_is_never_exceeded(state, actors.drop_last(), mission_id);
        lemma_admit_keeps_valid(before, actors.last(), mission_id);
    }
    let after = after_admissions(state, actors, mission_id);
    assert forall|id: i32| #[trigger] after.crew_size(id) <= state.capacity by {
        assert(crew_count(after.crew, id) <= after.capacity);
    }
}

/// When distinct actors who are not yet in the crew ask to join a mission, the
/// first of them are admitted until the crew is full, and the rest are not.
///
/// With `free` places left, exactly `least(attempts, free)` of them are
/// admitted, in every order in which the requests are carried out.
pub proof fn lemma_distinct_actors_fill_the_crew(state: BoardState, actors: Seq<i32>, mission_id: i32)
    requires
        state.valid(),
        state.sees(mission_id),
        actors.no_duplicates(),
        forall|i: int| 0 <= i < actors.len() ==> !state.has_member(#[trigger] actors[i], mission_id),
    ensures
        state.crew_size(mission_id) <= state.capacity,
        admissions(state, actors, mission_id) == least(
            actors.len() as int,
            state.capacity - state.crew_size(mission_id),
        ),
        after_admissions(state, actors, mission_id).crew_size(mission_id) == state.crew_size(
            mission_id,
        ) + admissions(state, actors, mission_id),
        after_admissions(state, actors, mission_id).crew_size(mission_id) == least(
            (state.crew_size(mission_id) + actors.len()) as int,
            state.capacity as int,
        ),
        forall|i: int|
            0 <= i < actors.len() ==> (after_admissions(state, actors, mission_id).has_member(
                #[trigger] actors[i],
                mission_id,
            ) <==> i < state.capacity - state.crew_size(mission_id)),
        forall|actor_id: i32|
            !actors.contains(actor_id) ==> #[trigger] after_admissions(
                state,
                actors,
                mission_id,
            ).has_member(actor_id, mission_id) == state.has_member(actor_id, mission_id),
        forall|other: i32|
            other != mission_id ==> #[trigger] after_admissions(state, actors, mission_id).crew_size(
                other,
            ) == state.crew_size(other),
    decreases actors.len(),
{
    assert(crew_count(state.crew, mission_id) <= state.capacity);
    let after = after_admissions(state, actors, mission_id);
    if actors.len() > 0 {
        let head = actors.drop_last();
        let last = actors.last();
        let before = after_admissions(state, head, mission_id);
        let free = state.capacity - state.crew_size(mission_id);
        assert(head.no_duplicates()) by {
            assert forall|i: int, j: int|
                0 <= i < head.len() && 0 <= j < head.len() && i != j implies head[i] != head[j] by {
                assert(actors[i] != actors[j]);
            }
        }
        assert forall|i: int| 0 <= i < head.len() implies !state.has_member(
            #[trigger] head[i],
            mission_id,
        ) by {
            assert(head[i] == actors[i]);
        }
        lemma_distinct_actors_fill_the_crew(state, head, mission_id);
        lemma_capacity_is_never_exceeded(state, head, mission_id);
        assert(!head.contains(last)) by {
            if head.contains(last) {
                let i = choose|i: int| 0 <= i < head.len() && head[i] == last;
                assert(actors[i] == actors[actors.len() - 1]);
            }
        }
        assert(!state.has_member(actors[actors.len() - 1], mission_id));
        assert(!before.has_member(last, mission_id));
        assert(before.sees(mission_id));
        let row = membership(last, mission_id);
        let admitted = before.admit_verdict(last, mission_id) is Ok;
        assert(admitted <==> head.len() < free);
        assert forall|other: i32| other != mission_id implies #[trigger] after.crew_size(other)
            == state.crew_size(other) by {
            assert(before.crew_size(other) == state.crew_size(other));
            if admitted {
                lemma_count_push(before.crew, row, other);
            }
        }
        if admitted {
            lemma_count_push(before.crew, row, mission_id);
        }
        assert forall|i: int| 0 <= i < actors.len() implies (after.has_member(
            #[trigger] actors[i],
            mission_id,
        ) <==> i < free) by {
            if admitted {
                lemma_member_after_push(before.crew, row, actors[i], mission_id);
            }
            if i < head.len() {
                assert(head[i] == actors[i]);
                assert(actors[i] != actors[actors.len() - 1]);
            }
        }
        assert forall|actor_id: i32| !actors.contains(actor_id) implies #[trigger] after.has_member(
            actor_id,
            mission_id,
        ) == state.has_member(actor_id, mission_id) by {
            if head.contains(actor_id) {
                let i = choose|i: int| 0 <= i < head.len() && head[i] == actor_id;
                assert(actors[i] == actor_id);
            }
            assert(!head.contains(actor_id));
            assert(before.has_member(actor_id, mission_id) == state.has_member(
                actor_id,
                mission_id,
            ));
            assert(actors[actors.len() - 1] != actor_id);
            if admitted {
                lemma_member_after_push(before.crew, row, actor_id, mission_id);
            }
        }
    }
}

/// Crews of different missions do not contend: what is decided for one
/// mission does not depend on who joined or left another in the meantime.
pub proof fn lemma_missions_do_not_contend(
    state: BoardState,
    actor_id: i32,
    mission_id: i32,
    other_actor: i32,
    other_mission: i32,
)
    requires
        state.valid(),
        mission_id != other_mission,
    ensures
        state.admitted(other_actor, other_mission).admit_verdict(actor_id, mission_id)
            == state.admit_verdict(actor_id, mission_id),
        state.released(other_actor, other_mission).admit_verdict(actor_id, mission_id)
            == state.admit_verdict(actor_id, mission_id),
        state.admitted(other_actor, other_mission).release_verdict(actor_id, mission_id)
            == state.release_verdict(actor_id, mission_id),
        state.released(other_actor, other_mission).release_verdict(actor_id, mission_id)
            == state.release_verdict(actor_id, mission_id),
        state.admitted(other_actor, other_mission).crew_size(mission_id) == state.crew_size(
            mission_id,
        ),
        state.released(other_actor, other_mission).crew_size(mission_id) == state.crew_size(
            mission_id,
        ),
{
    let row = membership(other_actor, other_mission);
    lemma_member_after_push(state.crew, row, actor_id, mission_id);
    lemma_count_push(state.crew, row, mission_id);
    if state.has_member(other_actor, other_mission) {
        let at = state.crew.index_of(row);
        assert(state.crew[at] == row);
        lemma_remove_keeps_distinct(state.crew, at);
        lemma_count_remove(state.crew, at, mission_id);
        assert(membership(actor_id, mission_id) != state.crew[at]);
    }
}

/// Once an actor has been admitted, the same request is refused with
/// `AlreadyMember`, full crew or not, and it leaves the board as it is.
pub proof fn lemma_second_admission_is_refused(state: BoardState, actor_id: i32, mission_id: i32)
    requires
        state.valid(),
        state.admit_verdict(actor_id, mission_id) is Ok,
    ensures
        state.admitted(actor_id, mission_id).has_member(actor_id, mission_id),
        state.admitted(actor_id, mission_id).crew_size(mission_id) == state.crew_size(mission_id)
            + 1,
        state.admitted(actor_id, mission_id).admit_verdict(actor_id, mission_id) == Err::<
            (),
            AdmitError,
        >(AdmitError::AlreadyMember),
        state.admitted(actor_id, mission_id).admitted(actor_id, mission_id) == state.admitted(
            actor_id,
            mission_id,
        ),
{
    let row = membership(actor_id, mission_id);
    lemma_member_after_push(state.crew, row, actor_id, mission_id);
    lemma_count_push(state.crew, row, mission_id);
}

/// An actor who has left a mission that is not deleted and then asks to join
/// it again is admitted, and the board is then what it was: the same members
/// in every crew, the same missions.
///
/// A deleted mission lets everybody go and takes nobody back.
pub proof fn lemma_leave_then_rejoin(state: BoardState, actor_id: i32, mission_id: i32)
    requires
        state.valid(),
        state.release_verdict(actor_id, mission_id) is Ok,
        !state.buried(mission_id),
    ensures
        state.has_member(actor_id, mission_id),
        !state.released(actor_id, mission_id).has_member(actor_id, mission_id),
        state.released(actor_id, mission_id).crew_size(mission_id) + 1 == state.crew_size(
            mission_id,
        ),
        state.released(actor_id, mission_id).admit_verdict(actor_id, mission_id) is Ok,
        state.released(actor_id, mission_id).admitted(actor_id, mission_id).valid(),
        forall|other_actor: i32, other_mission: i32| #[trigger]
            state.released(actor_id, mission_id).admitted(actor_id, mission_id).has_member(
                other_actor,
                other_mission,
            ) == state.has_member(other_actor, other_mission),
        forall|other_mission: i32| #[trigger]
            state.released(actor_id, mission_id).admitted(actor_id, mission_id).crew_size(
                other_mission,
            ) == state.crew_size(other_mission),
        state.released(actor_id, mission_id).admitted(actor_id, mission_id).missions
            == state.missions,
{
    let row = membership(actor_id, mission_id);
    let at = state.crew.index_of(row);
    let left = state.released(actor_id, mission_id);
    let back = left.admitted(actor_id, mission_id);
    assert(state.crew[at] == row);
    lemma_remove_keeps_distinct(state.crew, at);
    lemma_count_remove(state.crew, at, mission_id);
    lemma_release_keeps_valid(state, actor_id, mission_id);
    lemma_admit_keeps_valid(left, actor_id, mission_id);
    assert(state.sees(state.crew[at].mission_id));
    assert(crew_count(state.crew, mission_id) <= state.capacity);
    assert(left.admit_verdict(actor_id, mission_id) is Ok);
    assert forall|other_actor: i32, other_mission: i32| #[trigger]
        back.has_member(other_actor, other_mission) == state.has_member(
            other_actor,
            other_mission,
        ) by {
        lemma_member_after_push(left.crew, row, other_actor, other_mission);
        if membership(other_actor, other_mission) != row {
            assert(left.crew.contains(membership(other_actor, other_mission))
                <==> state.crew.contains(membership(other_actor, other_mission)));
        }
    }
    assert forall|other_mission: i32| #[trigger]
        back.crew_size(other_mission) == state.crew_size(other_mission) by {
        lemma_count_remove(state.crew, at, other_mission);
        lemma_count_push(left.crew, row, other_mission);
    }
}

/// No edge but the legal ones is taken, whoever asks: a request for any other
/// edge is refused with `IllegalTransition` when the owner makes it, and the
/// board stays as it is.
///
/// From `Open` that is `Complete` and `Fail`, from `InProgress` it is `Start`,
/// and from `Completed` and `Failed` it is every edge.
pub proof fn lemma_illegal_edges_are_refused(
    state: BoardState,
    mission_id: i32,
    edge: MissionTransition,
)
    requires
        state.valid(),
        state.sees(mission_id),
    ensures
        state.mission(mission_id).status != edge.source() ==> state.transition_verdict(
            mission_id,
            state.mission(mission_id).owner_id,
            edge,
        ) == Err::<i32, TransitionError>(TransitionError::IllegalTransition) && state.transitioned(
            mission_id,
            state.mission(mission_id).owner_id,
            edge,
        ) == state,
        state.mission(mission_id).status == MissionStatuses::Open && edge
            != MissionTransition::Start ==> state.mission(mission_id).status != edge.source(),
        state.mission(mission_id).status == MissionStatuses::InProgress && edge
            == MissionTransition::Start ==> state.mission(mission_id).status != edge.source(),
        state.mission(mission_id).status.is_terminal() ==> state.mission(mission_id).status
            != edge.source(),
{
}

/// A request by anyone but the owner is refused with `NotOwner`, whatever the
/// status of the mission and whatever the edge, and the board stays as it is.
/// So is the write of such a request, should it be made on its own.
pub proof fn lemma_only_the_owner_moves_a_mission(
    state: BoardState,
    mission_id: i32,
    requesting_actor_id: i32,
    edge: MissionTransition,
)
    requires
        state.valid(),
        state.sees(mission_id),
        requesting_actor_id != state.mission(mission_id).owner_id,
    ensures
        state.transition_verdict(mission_id, requesting_actor_id, edge) == Err::<
            i32,
            TransitionError,
        >(TransitionError::NotOwner),
        state.transitioned(mission_id, requesting_actor_id, edge) == state,
        state.commit_verdict(StatusWrite { mission_id, requested_by: requesting_actor_id, edge })
            == Err::<i32, TransitionError>(TransitionError::NotOwner),
        state.committed(StatusWrite { mission_id, requested_by: requesting_actor_id, edge })
            == state,
{
}

/// A request by the owner for the edge that leaves the mission's status
/// succeeds, returns the mission's identifier, and the mission is then in the
/// state that the edge leads to. Nothing else on the board has changed.
pub proof fn lemma_legal_edges_are_taken(state: BoardState, mission_id: i32, edge: MissionTransition)
    requires
        state.valid(),
        state.sees(mission_id),
        state.mission(mission_id).status == edge.source(),
    ensures
        state.transition_verdict(mission_id, state.mission(mission_id).owner_id, edge) == Ok::<
            i32,
            TransitionError,
        >(mission_id),
        state.transitioned(mission_id, state.mission(mission_id).owner_id, edge).valid(),
        state.transitioned(mission_id, state.mission(mission_id).owner_id, edge).sees(mission_id),
        state.transitioned(mission_id, state.mission(mission_id).owner_id, edge).mission(
            mission_id,
        ) == state.mission(mission_id).with_status(edge.target()),
        state.transitioned(mission_id, state.mission(mission_id).owner_id, edge).crew
            == state.crew,
        forall|other: i32|
            other != mission_id && holds(state.missions, other) ==> #[trigger] state.transitioned(
                mission_id,
                state.mission(mission_id).owner_id,
                edge,
            ).mission(other) == state.mission(other),
{
    let owner = state.mission(mission_id).owner_id;
    let write = StatusWrite { mission_id, requested_by: owner, edge };
    let at = slot_of(state.missions, mission_id);
    let row = state.mission(mission_id).with_status(edge.target());
    assert(state.mission(mission_id).id == mission_id);
    assert(state.plan(mission_id, owner, edge) == Ok::<StatusWrite, TransitionError>(write));
    lemma_commit_keeps_valid(state, write);
    lemma_update_keeps_places(state.missions, at, row);
    lemma_update_keeps_others(state.missions, at, row);
}

/// Of two requests for the same edge that reach an eligible mission at the
/// same time, exactly one succeeds.
///
/// If one is carried out whole before the other begins, the second finds the
/// status moved on and is refused with `IllegalTransition`. If both read the
/// mission before either writes, both are approved, the first write succeeds,
/// and the second is refused with `ConcurrentModification` and writes nothing.
pub proof fn lemma_one_of_two_requests_wins(state: BoardState, mission_id: i32, edge: MissionTransition)
    requires
        state.valid(),
        state.sees(mission_id),
        state.mission(mission_id).status == edge.source(),
    ensures
        state.transition_verdict(mission_id, state.mission(mission_id).owner_id, edge) == Ok::<
            i32,
            TransitionError,
        >(mission_id),
        state.transitioned(
            mission_id,
            state.mission(mission_id).owner_id,
            edge,
        ).transition_verdict(mission_id, state.mission(mission_id).owner_id, edge) == Err::<
            i32,
            TransitionError,
        >(TransitionError::IllegalTransition),
        state.plan(mission_id, state.mission(mission_id).owner_id, edge) matches Ok(write) && {
            &&& state.commit_verdict(write) == Ok::<i32, TransitionError>(mission_id)
            &&& state.committed(write).commit_verdict(write) == Err::<i32, TransitionError>(
                TransitionError::ConcurrentModification,
            )
            &&& state.committed(write).committed(write) == state.committed(write)
            &&& state.committed(write).mission(mission_id).status == edge.target()
        },
{
    let owner = state.mission(mission_id).owner_id;
    let write = StatusWrite { mission_id, requested_by: owner, edge };
    lemma_legal_edges_are_taken(state, mission_id, edge);
    assert(state.plan(mission_id, owner, edge) == Ok::<StatusWrite, TransitionError>(write));
    let after = state.committed(write);
    assert(after == state.transitioned(mission_id, owner, edge));
    assert(after.mission(mission_id).status == edge.target());
    assert(edge.source() != edge.target());
}

/// A transition that is made in one step is never refused for a status that
/// moved on in between: nothing can come between its two halves.
pub proof fn lemma_one_step_is_undisturbed(
    state: BoardState,
    mission_id: i32,
    requesting_actor_id: i32,
    edge: MissionTransition,
)
    requires
        state.valid(),
    ensures
        state.transition_verdict(mission_id, requesting_actor_id, edge) != Err::<
            i32,
            TransitionError,
        >(TransitionError::ConcurrentModification),
        state.transition_verdict(mission_id, requesting_actor_id, edge) matches Ok(id) ==> id
            == mission_id,
{
    if state.sees(mission_id) {
        assert(state.mission(mission_id).id == mission_id);
    }
}

/// A status only ever moves along a legal edge, at the owner's request, and
/// the status of a deleted mission does not move at all.
pub proof fn lemma_status_moves_along_legal_edges(state: BoardState, write: StatusWrite, id: i32)
    requires
        state.valid(),
        holds(state.missions, id),
    ensures
        holds(state.committed(write).missions, id),
        state.committed(write).mission(id).status == state.mission(id).status || {
            &&& id == write.mission_id
            &&& state.sees(id)
            &&& state.mission(id).owner_id == write.requested_by
            &&& state.mission(id).status.permits(state.committed(write).mission(id).status)
        },
        state.committed(write).mission(id) == state.mission(id).with_status(
            state.committed(write).mission(id).status,
        ),
{
    if state.commit_verdict(write) is Ok {
        let at = slot_of(state.missions, write.mission_id);
        let row = state.mission(write.mission_id).with_status(write.next());
        lemma_update_keeps_places(state.missions, at, row);
        lemma_update_keeps_others(state.missions, at, row);
        assert(state.mission(write.mission_id).id == write.mission_id);
    }
}

/// Nothing that can happen to a mission changes its identifier, its owner or
/// the time of its creation, and no mission ever leaves the store.
pub proof fn lemma_identity_is_kept(
    state: BoardState,
    id: i32,
    actor_id: i32,
    mission_id: i32,
    write: StatusWrite,
    name: String,
    at: i64,
)
    requires
        state.valid(),
        holds(state.missions, id),
    ensures
        same_identity(state, state.admitted(actor_id, mission_id), id),
        same_identity(state, state.released(actor_id, mission_id), id),
        same_identity(state, state.committed(write), id),
        same_identity(state, state.renamed(mission_id, actor_id, name), id),
        same_identity(state, state.without(mission_id, actor_id, at), id),
        same_identity(state, state.with_mission(actor_id, name, at), id),
{
    if state.commit_verdict(write) is Ok {
        let slot = slot_of(state.missions, write.mission_id);
        let row = state.mission(write.mission_id).with_status(write.next());
        lemma_update_keeps_places(state.missions, slot, row);
        lemma_update_keeps_others(state.missions, slot, row);
    }
    if state.ownership_verdict(mission_id, actor_id) is Ok {
        let slot = slot_of(state.missions, mission_id);
        let renamed = state.mission(mission_id).renamed(name);
        lemma_update_keeps_places(state.missions, slot, renamed);
        lemma_update_keeps_others(state.missions, slot, renamed);
        let deleted = state.mission(mission_id).deleted(at);
        lemma_update_keeps_places(state.missions, slot, deleted);
        lemma_update_keeps_others(state.missions, slot, deleted);
    }
    if state.next_id < i32::MAX {
        let row = fresh_mission(state.next_id, actor_id, name, at);
        lemma_insert_keeps_order(state.missions, row);
        let i = slot_of(state.missions, id);
        assert(state.missions[i].id < state.next_id);
    }
}

/// Whether mission `id` is on both boards with the same identifier, owner and
/// time of creation.
pub open spec fn same_identity(before: BoardState, after: BoardState, id: i32) -> bool {
    &&& holds(before.missions, id)
    &&& holds(after.missions, id)
    &&& after.mission(id).id == id
    &&& before.mission(id).id == id
    &&& after.mission(id).owner_id == before.mission(id).owner_id
    &&& after.mission(id).created_at == before.mission(id).created_at
}

} // verus!
