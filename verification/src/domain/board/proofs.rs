//! Why every operation keeps the board valid, and what listings and rosters hold.

use vstd::prelude::*;
use crate::domain::board::state::{crewed_by, distinct_brawlers, knows, listed, BoardState};
use crate::domain::entities::brawler_view::BrawlerViewEntity;
use crate::domain::entities::crew_memberships::CrewMembershipEntity;
use crate::domain::entities::missions::MissionEntity;
use crate::domain::lifecycle::StatusWrite;
use crate::domain::stores::crew_store::{
    crew_count, is_member, lemma_count_push, lemma_count_remove, lemma_remove_keeps_distinct,
    lemma_without_mission, membership, without_mission,
};
use crate::domain::stores::mission_store::{
    distinct_ids, fresh_mission, holds, lemma_insert_keeps_order, lemma_slot_is_unique,
    lemma_update_keeps_places, mission_of, newer, newest_first, sees, slot_for, slot_of,
};
use crate::domain::value_objects::mission_filter::MissionFilter;
use crate::domain::value_objects::mission_statuses::MissionTransition;

verus! {

/// Writing a status or a deletion mark to one row leaves every other mission as it was.
pub proof fn lemma_update_keeps_others(rows: Seq<MissionEntity>, at: int, row: MissionEntity)
    requires
        distinct_ids(rows),
        0 <= at < rows.len(),
        row.id == rows[at].id,
        row.created_at == rows[at].created_at,
    ensures
        mission_of(rows.update(at, row), row.id) == row,
        holds(rows.update(at, row), row.id),
        forall|id: i32|
            id != row.id ==> (#[trigger] sees(rows.update(at, row), id) <==> sees(rows, id)),
        forall|id: i32|
            id != row.id && holds(rows, id) ==> #[trigger] mission_of(rows.update(at, row), id)
                == mission_of(rows, id),
{
    let after = rows.update(at, row);
    lemma_update_keeps_places(rows, at, row);
    lemma_slot_is_unique(rows, row.id, at);
    assert(holds(after, row.id));
    assert forall|id: i32| id != row.id && holds(rows, id) implies #[trigger] mission_of(after, id)
        == mission_of(rows, id) by {
        assert(holds(after, id));
        assert(slot_of(after, id) == slot_of(rows, id));
    }
    assert forall|id: i32| id != row.id implies (#[trigger] sees(after, id) <==> sees(rows, id)) by {
        assert(holds(after, id) <==> holds(rows, id));
        if holds(rows, id) {
            assert(mission_of(after, id) == mission_of(rows, id));
        }
    }
}

/// A mission that does not exist has no crew.
pub proof fn lemma_no_crew_without_mission(state: BoardState, mission_id: i32)
    requires
        state.valid(),
        !state.sees(mission_id),
    ensures
        state.crew_size(mission_id) == 0,
        forall|actor_id: i32| !#[trigger] state.has_member(actor_id, mission_id),
{
    lemma_no_rows_no_count(state.crew, mission_id);
    assert forall|actor_id: i32| !#[trigger] state.has_member(actor_id, mission_id) by {
        if state.has_member(actor_id, mission_id) {
            let k = choose|k: int|
                0 <= k < state.crew.len() && state.crew[k] == membership(actor_id, mission_id);
            assert(sees(state.missions, state.crew[k].mission_id));
        }
    }
}

/// Where no row names a mission, its count is zero.
pub proof fn lemma_no_rows_no_count(rows: Seq<CrewMembershipEntity>, mission_id: i32)
    requires
        forall|k: int| 0 <= k < rows.len() ==> (#[trigger] rows[k]).mission_id != mission_id,
    ensures
        crew_count(rows, mission_id) == 0,
    decreases rows.len(),
{
    if rows.len() > 0 {
        let head = rows.drop_last();
        assert forall|k: int| 0 <= k < head.len() implies (#[trigger] head[k]).mission_id
            != mission_id by {
            assert(head[k] == rows[k]);
        }
        lemma_no_rows_no_count(head, mission_id);
        assert(rows[rows.len() - 1].mission_id != mission_id);
    }
}

/// An admission keeps the board valid.
pub proof fn lemma_admit_keeps_valid(state: BoardState, actor_id: i32, mission_id: i32)
    requires
        state.valid(),
    ensures
        state.admitted(actor_id, mission_id).valid(),
{
    if state.admit_verdict(actor_id, mission_id) is Ok {
        let row = membership(actor_id, mission_id);
        let after = state.crew.push(row);
        assert forall|i: int, j: int|
            0 <= i < after.len() && 0 <= j < after.len() && i != j implies after[i] != after[j] by {
            if i < state.crew.len() && j < state.crew.len() {
                assert(state.crew[i] != state.crew[j]);
            } else if i < state.crew.len() {
                assert(state.crew[i] == after[i]);
            } else {
                assert(state.crew[j] == after[j]);
            }
        }
        assert forall|other: i32| #[trigger] crew_count(after, other) <= state.capacity by {
            lemma_count_push(state.crew, row, other);
            assert(crew_count(state.crew, other) <= state.capacity);
        }
        assert forall|k: int| 0 <= k < after.len() implies sees(
            state.missions,
            (#[trigger] after[k]).mission_id,
        ) by {
            if k < state.crew.len() {
                assert(after[k] == state.crew[k]);
            }
        }
    }
}

/// A release keeps the board valid.
pub proof fn lemma_release_keeps_valid(state: BoardState, actor_id: i32, mission_id: i32)
    requires
        state.valid(),
    ensures
        state.released(actor_id, mission_id).valid(),
{
    if state.has_member(actor_id, mission_id) {
        let at = state.crew.index_of(membership(actor_id, mission_id));
        let after = state.crew.remove(at);
        lemma_remove_keeps_distinct(state.crew, at);
        assert forall|other: i32| #[trigger] crew_count(after, other) <= state.capacity by {
            lemma_count_remove(state.crew, at, other);
            assert(crew_count(state.crew, other) <= state.capacity);
        }
        assert forall|k: int| 0 <= k < after.len() implies sees(
            state.missions,
            (#[trigger] after[k]).mission_id,
        ) by {
            let j = if k < at { k } else { k + 1 };
            assert(after[k] == state.crew[j]);
        }
    }
}

/// Renaming a mission keeps the board valid, and no mission appears or disappears.
pub proof fn lemma_rename_keeps_valid(
    state: BoardState,
    mission_id: i32,
    requesting_actor_id: i32,
    name: String,
)
    requires
        state.valid(),
    ensures
        state.renamed(mission_id, requesting_actor_id, name).valid(),
        forall|id: i32| #[trigger]
            state.renamed(mission_id, requesting_actor_id, name).sees(id) <==> state.sees(id),
{
    if state.ownership_verdict(mission_id, requesting_actor_id) is Ok {
        let at = slot_of(state.missions, mission_id);
        let row = state.mission(mission_id).renamed(name);
        let after = state.missions.update(at, row);
        lemma_update_keeps_places(state.missions, at, row);
        lemma_update_keeps_others(state.missions, at, row);
        assert forall|id: i32| #[trigger] sees(after, id) <==> sees(state.missions, id) by {}
        assert forall|i: int| 0 <= i < after.len() implies 0 < (#[trigger] after[i]).id
            < state.next_id by {
            assert(after[i].id == state.missions[i].id);
        }
        assert forall|k: int| 0 <= k < state.crew.len() implies sees(
            after,
            (#[trigger] state.crew[k]).mission_id,
        ) by {
            assert(sees(state.missions, state.crew[k].mission_id));
        }
    }
}

/// A conditional status write keeps the board valid, and no mission appears or disappears.
pub proof fn lemma_commit_keeps_valid(state: BoardState, write: StatusWrite)
    requires
        state.valid(),
    ensures
        state.committed(write).valid(),
        forall|id: i32| #[trigger] state.committed(write).sees(id) <==> state.sees(id),
{
    if state.commit_verdict(write) is Ok {
        let at = slot_of(state.missions, write.mission_id);
        let row = state.mission(write.mission_id).with_status(write.next());
        let after = state.missions.update(at, row);
        lemma_update_keeps_places(state.missions, at, row);
        lemma_update_keeps_others(state.missions, at, row);
        assert forall|id: i32| #[trigger] sees(after, id) <==> sees(state.missions, id) by {}
        assert forall|i: int| 0 <= i < after.len() implies 0 < (#[trigger] after[i]).id
            < state.next_id by {
            assert(after[i].id == state.missions[i].id);
        }
        assert forall|k: int| 0 <= k < state.crew.len() implies sees(
            after,
            (#[trigger] state.crew[k]).mission_id,
        ) by {
            assert(sees(state.missions, state.crew[k].mission_id));
        }
    }
}

/// A transition keeps the board valid.
pub proof fn lemma_transition_keeps_valid(
    state: BoardState,
    mission_id: i32,
    requesting_actor_id: i32,
    edge: MissionTransition,
)
    requires
        state.valid(),
    ensures
        state.transitioned(mission_id, requesting_actor_id, edge).valid(),
{
    match state.plan(mission_id, requesting_actor_id, edge) {
        Ok(write) => {
            lemma_commit_keeps_valid(state, write);
        },
        Err(_) => {},
    }
}

/// Creating a mission keeps the board valid and touches no other mission.
pub proof fn lemma_with_mission_keeps_valid(
    state: BoardState,
    owner_id: i32,
    name: String,
    created_at: i64,
)
    requires
        state.valid(),
    ensures
        state.with_mission(owner_id, name, created_at).valid(),
        forall|id: i32|
            id != state.next_id ==> (#[trigger] state.with_mission(owner_id, name, created_at).sees(
                id,
            ) <==> state.sees(id)),
        state.next_id < i32::MAX ==> state.with_mission(owner_id, name, created_at).read(
            state.next_id,
        ) == Some(fresh_mission(state.next_id, owner_id, name, created_at)),
{
    if state.next_id < i32::MAX {
        let row = fresh_mission(state.next_id, owner_id, name, created_at);
        let at = slot_for(state.missions, created_at);
        let after = state.missions.insert(at, row);
        lemma_insert_keeps_order(state.missions, row);
        state.missions.insert_ensures(at, row);
        assert forall|i: int| 0 <= i < after.len() implies 0 < (#[trigger] after[i]).id
            < state.next_id + 1 by {
            if i < at {
                assert(after[i] == state.missions[i]);
            } else if i > at {
                assert(after[(i - 1) + 1] == state.missions[i - 1]);
            }
        }
        assert forall|id: i32| id != state.next_id implies (#[trigger] sees(after, id) <==> sees(
            state.missions,
            id,
        )) by {
            assert(holds(after, id) <==> holds(state.missions, id));
            if holds(state.missions, id) {
                assert(mission_of(after, id) == mission_of(state.missions, id));
            }
        }
        assert forall|k: int| 0 <= k < state.crew.len() implies sees(
            after,
            (#[trigger] state.crew[k]).mission_id,
        ) by {
            let id = state.crew[k].mission_id;
            assert(sees(state.missions, id));
            let i = slot_of(state.missions, id);
            assert(state.missions[i].id < state.next_id);
        }
    }
}

/// Deleting a mission keeps the board valid, and the mission is gone with its crew.
pub proof fn lemma_without_keeps_valid(
    state: BoardState,
    mission_id: i32,
    requesting_actor_id: i32,
    at: i64,
)
    requires
        state.valid(),
    ensures
        state.without(mission_id, requesting_actor_id, at).valid(),
        state.ownership_verdict(mission_id, requesting_actor_id) is Ok ==> {
            &&& !state.without(mission_id, requesting_actor_id, at).sees(mission_id)
            &&& state.without(mission_id, requesting_actor_id, at).buried(mission_id)
            &&& state.without(mission_id, requesting_actor_id, at).crew_size(mission_id) == 0
        },
        forall|id: i32|
            id != mission_id ==> (#[trigger] state.without(mission_id, requesting_actor_id, at).sees(
                id,
            ) <==> state.sees(id)),
        forall|id: i32|
            id != mission_id ==> #[trigger] state.without(
                mission_id,
                requesting_actor_id,
                at,
            ).crew_size(id) == state.crew_size(id),
{
    if state.ownership_verdict(mission_id, requesting_actor_id) is Ok {
        let slot = slot_of(state.missions, mission_id);
        let row = state.mission(mission_id).deleted(at);
        let after = state.missions.update(slot, row);
        let crew = without_mission(state.crew, mission_id);
        lemma_update_keeps_places(state.missions, slot, row);
        lemma_update_keeps_others(state.missions, slot, row);
        lemma_without_mission(state.crew, mission_id);
        assert forall|i: int| 0 <= i < after.len() implies 0 < (#[trigger] after[i]).id
            < state.next_id by {
            assert(after[i].id == state.missions[i].id);
        }
        assert forall|other: i32| #[trigger] crew_count(crew, other) <= state.capacity by {
            if other != mission_id {
                assert(crew_count(crew, other) == crew_count(state.crew, other));
                assert(crew_count(state.crew, other) <= state.capacity);
            }
        }
        assert forall|k: int| 0 <= k < crew.len() implies sees(
            after,
            (#[trigger] crew[k]).mission_id,
        ) by {
            assert(crew.contains(crew[k]));
            assert(state.crew.contains(crew[k]));
            let j = choose|j: int| 0 <= j < state.crew.len() && state.crew[j] == crew[k];
            assert(sees(state.missions, state.crew[j].mission_id));
        }
    }
}

/// What a listing holds: exactly the missions that are not deleted and pass
/// the filter, each once, newest first.
pub proof fn lemma_listed(rows: Seq<MissionEntity>, filter: MissionFilter)
    ensures
        listed(rows, filter).len() <= rows.len(),
        forall|mission: MissionEntity| #[trigger]
            listed(rows, filter).contains(mission) <==> rows.contains(mission) && mission.visible()
                && filter.accepts(mission),
        newest_first(rows) ==> newest_first(listed(rows, filter)),
        distinct_ids(rows) ==> distinct_ids(listed(rows, filter)),
    decreases rows.len(),
{
    let shown = listed(rows, filter);
    if rows.len() > 0 {
        let head = rows.drop_last();
        let last = rows.last();
        let head_shown = listed(head, filter);
        let takes = last.visible() && filter.accepts(last);
        lemma_listed(head, filter);
        assert forall|mission: MissionEntity| #[trigger]
            shown.contains(mission) <==> rows.contains(mission) && mission.visible()
                && filter.accepts(mission) by {
            if shown.contains(mission) {
                let k = choose|k: int| 0 <= k < shown.len() && shown[k] == mission;
                if takes && k == shown.len() - 1 {
                    assert(rows[rows.len() - 1] == mission);
                } else {
                    assert(head_shown[k] == mission);
                    assert(head_shown.contains(mission));
                    let j = choose|j: int| 0 <= j < head.len() && head[j] == mission;
                    assert(rows[j] == mission);
                }
            }
            if rows.contains(mission) && mission.visible() && filter.accepts(mission) {
                let j = choose|j: int| 0 <= j < rows.len() && rows[j] == mission;
                if j == rows.len() - 1 {
                    assert(shown[shown.len() - 1] == mission);
                } else {
                    assert(head[j] == mission);
                    assert(head.contains(mission));
                    assert(head_shown.contains(mission));
                    let k = choose|k: int| 0 <= k < head_shown.len() && head_shown[k] == mission;
                    assert(shown[k] == mission);
                }
            }
        }
        if newest_first(rows) || distinct_ids(rows) {
            assert(newest_first(rows) ==> newest_first(head)) by {
                if newest_first(rows) {
                    assert forall|i: int, j: int| 0 <= i < j < head.len() implies newer(
                        #[trigger] head[i],
                        #[trigger] head[j],
                    ) by {
                        assert(newer(rows[i], rows[j]));
                    }
                }
            }
            assert(distinct_ids(rows) ==> distinct_ids(head)) by {
                if distinct_ids(rows) {
                    assert forall|i: int, j: int| 0 <= i < j < head.len() implies (
                    #[trigger] head[i]).id != (#[trigger] head[j]).id by {
                        assert(rows[i].id != rows[j].id);
                    }
                }
            }
            if takes {
                assert forall|i: int, j: int| 0 <= i < j < shown.len() implies (newest_first(rows)
                    ==> newer(#[trigger] shown[i], #[trigger] shown[j])) && (distinct_ids(rows)
                    ==> shown[i].id != shown[j].id) by {
                    if j == shown.len() - 1 {
                        assert(head_shown[i] == shown[i]);
                        assert(head_shown.contains(shown[i]));
                        assert(head.contains(shown[i]));
                        let a = choose|a: int| 0 <= a < head.len() && head[a] == shown[i];
                        assert(rows[a] == shown[i]);
                        assert(rows[rows.len() - 1] == shown[j]);
                        if newest_first(rows) {
                            assert(newer(rows[a], rows[rows.len() - 1]));
                        }
                        if distinct_ids(rows) {
                            assert(rows[a].id != rows[rows.len() - 1].id);
                        }
                    } else {
                        assert(head_shown[i] == shown[i] && head_shown[j] == shown[j]);
                        if newest_first(rows) {
                            assert(newer(head_shown[i], head_shown[j]));
                        }
                        if distinct_ids(rows) {
                            assert(head_shown[i].id != head_shown[j].id);
                        }
                    }
                }
            }
        }
    }
}

/// What a roster holds: exactly the registered brawlers who crew the mission.
pub proof fn lemma_crewed_by(
    brawlers: Seq<BrawlerViewEntity>,
    crew: Seq<CrewMembershipEntity>,
    mission_id: i32,
)
    ensures
        crewed_by(brawlers, crew, mission_id).len() <= brawlers.len(),
        forall|brawler: BrawlerViewEntity| #[trigger]
            crewed_by(brawlers, crew, mission_id).contains(brawler) <==> brawlers.contains(brawler)
                && is_member(crew, brawler.id, mission_id),
        distinct_brawlers(brawlers) ==> distinct_brawlers(crewed_by(brawlers, crew, mission_id)),
    decreases brawlers.len(),
{
    let shown = crewed_by(brawlers, crew, mission_id);
    if brawlers.len() > 0 {
        let head = brawlers.drop_last();
        let last = brawlers.last();
        let head_shown = crewed_by(head, crew, mission_id);
        let takes = is_member(crew, last.id, mission_id);
        lemma_crewed_by(head, crew, mission_id);
        if distinct_brawlers(brawlers) {
            assert forall|i: int, j: int| 0 <= i < j < head.len() implies (#[trigger] head[i]).id != (
            #[trigger] head[j]).id by {
                assert(brawlers[i].id != brawlers[j].id);
            }
            if takes {
                assert forall|i: int, j: int| 0 <= i < j < shown.len() implies (
                #[trigger] shown[i]).id != (#[trigger] shown[j]).id by {
                    if j == shown.len() - 1 {
                        assert(head_shown[i] == shown[i]);
                        assert(head_shown.contains(shown[i]));
                        assert(head.contains(shown[i]));
                        let a = choose|a: int| 0 <= a < head.len() && head[a] == shown[i];
                        assert(brawlers[a] == shown[i]);
                        assert(brawlers[a].id != brawlers[brawlers.len() - 1].id);
                    } else {
                        assert(head_shown[i] == shown[i] && head_shown[j] == shown[j]);
                        assert(head_shown[i].id != head_shown[j].id);
                    }
                }
            }
        }
        assert forall|brawler: BrawlerViewEntity| #[trigger]
            shown.contains(brawler) <==> brawlers.contains(brawler) && is_member(
                crew,
                brawler.id,
                mission_id,
            ) by {
            if shown.contains(brawler) {
                let k = choose|k: int| 0 <= k < shown.len() && shown[k] == brawler;
                if takes && k == shown.len() - 1 {
                    assert(brawlers[brawlers.len() - 1] == brawler);
                } else {
                    assert(head_shown[k] == brawler);
                    assert(head_shown.contains(brawler));
                    let j = choose|j: int| 0 <= j < head.len() && head[j] == brawler;
                    assert(brawlers[j] == brawler);
                }
            }
            if brawlers.contains(brawler) && is_member(crew, brawler.id, mission_id) {
                let j = choose|j: int| 0 <= j < brawlers.len() && brawlers[j] == brawler;
                if j == brawlers.len() - 1 {
                    assert(shown[shown.len() - 1] == brawler);
                } else {
                    assert(head[j] == brawler);
                    assert(head.contains(brawler));
                    assert(head_shown.contains(brawler));
                    let k = choose|k: int| 0 <= k < head_shown.len() && head_shown[k] == brawler;
                    assert(shown[k] == brawler);
                }
            }
        }
    }
}

/// A roster depends on the crew only through the memberships of the brawlers it is read for.
pub proof fn lemma_crewed_by_same(
    brawlers: Seq<BrawlerViewEntity>,
    crew: Seq<CrewMembershipEntity>,
    other: Seq<CrewMembershipEntity>,
    mission_id: i32,
)
    requires
        forall|i: int|
            0 <= i < brawlers.len() ==> is_member(crew, (#[trigger] brawlers[i]).id, mission_id)
                == is_member(other, brawlers[i].id, mission_id),
    ensures
        crewed_by(brawlers, crew, mission_id) == crewed_by(brawlers, other, mission_id),
    decreases brawlers.len(),
{
    if brawlers.len() > 0 {
        let head = brawlers.drop_last();
        assert forall|i: int| 0 <= i < head.len() implies is_member(
            crew,
            (#[trigger] head[i]).id,
            mission_id,
        ) == is_member(other, head[i].id, mission_id) by {
            assert(head[i] == brawlers[i]);
        }
        lemma_crewed_by_same(head, crew, other, mission_id);
        assert(brawlers[brawlers.len() - 1] == brawlers.last());
    }
}

/// A roster is never longer than the crew is large.
pub proof fn lemma_roster_fits_crew(
    brawlers: Seq<BrawlerViewEntity>,
    crew: Seq<CrewMembershipEntity>,
    mission_id: i32,
)
    requires
        distinct_brawlers(brawlers),
        crew.no_duplicates(),
    ensures
        crewed_by(brawlers, crew, mission_id).len() <= crew_count(crew, mission_id),
    decreases brawlers.len(),
{
    if brawlers.len() > 0 {
        let head = brawlers.drop_last();
        let last = brawlers.last();
        assert forall|i: int, j: int| 0 <= i < j < head.len() implies (#[trigger] head[i]).id != (
        #[trigger] head[j]).id by {
            assert(brawlers[i].id != brawlers[j].id);
        }
        if is_member(crew, last.id, mission_id) {
            let row = membership(last.id, mission_id);
            let at = crew.index_of(row);
            let rest = crew.remove(at);
            lemma_remove_keeps_distinct(crew, at);
            lemma_count_remove(crew, at, mission_id);
            assert forall|i: int| 0 <= i < head.len() implies is_member(
                crew,
                (#[trigger] head[i]).id,
                mission_id,
            ) == is_member(rest, head[i].id, mission_id) by {
                assert(brawlers[i].id != brawlers[brawlers.len() - 1].id);
                assert(membership(head[i].id, mission_id) != crew[at]);
            }
            lemma_crewed_by_same(head, crew, rest, mission_id);
            lemma_roster_fits_crew(head, rest, mission_id);
        } else {
            lemma_roster_fits_crew(head, crew, mission_id);
        }
    }
}

/// Where every actor who crews a mission is registered, the roster has one
/// line for each of them: it is as long as the crew is large.
pub proof fn lemma_roster_covers_crew(
    brawlers: Seq<BrawlerViewEntity>,
    crew: Seq<CrewMembershipEntity>,
    mission_id: i32,
)
    requires
        distinct_brawlers(brawlers),
        crew.no_duplicates(),
        forall|k: int|
            0 <= k < crew.len() && (#[trigger] crew[k]).mission_id == mission_id ==> knows(
                brawlers,
                crew[k].brawler_id,
            ),
    ensures
        crewed_by(brawlers, crew, mission_id).len() == crew_count(crew, mission_id),
    decreases brawlers.len(),
{
    if brawlers.len() == 0 {
        assert forall|k: int| 0 <= k < crew.len() implies (#[trigger] crew[k]).mission_id
            != mission_id by {
            if crew[k].mission_id == mission_id {
                assert(knows(brawlers, crew[k].brawler_id));
            }
        }
        lemma_no_rows_no_count(crew, mission_id);
    } else {
        let head = brawlers.drop_last();
        let last = brawlers.last();
        assert forall|i: int, j: int| 0 <= i < j < head.len() implies (#[trigger] head[i]).id != (
        #[trigger] head[j]).id by {
            assert(brawlers[i].id != brawlers[j].id);
        }
        if is_member(crew, last.id, mission_id) {
            let row = membership(last.id, mission_id);
            let at = crew.index_of(row);
            let rest = crew.remove(at);
            assert(crew[at] == row);
            lemma_remove_keeps_distinct(crew, at);
            lemma_count_remove(crew, at, mission_id);
            assert forall|k: int|
                0 <= k < rest.len() && (#[trigger] rest[k]).mission_id == mission_id implies knows(
                head,
                rest[k].brawler_id,
            ) by {
                let j = if k < at { k } else { k + 1 };
                assert(rest[k] == crew[j]);
                assert(crew[j] != crew[at]);
                assert(knows(brawlers, crew[j].brawler_id));
                let i = choose|i: int|
                    0 <= i < brawlers.len() && (#[trigger] brawlers[i]).id == crew[j].brawler_id;
                if i == brawlers.len() - 1 {
                    assert(crew[j] == membership(last.id, mission_id));
                }
                assert(head[i].id == rest[k].brawler_id);
            }
            assert forall|i: int| 0 <= i < head.len() implies is_member(
                crew,
                (#[trigger] head[i]).id,
                mission_id,
            ) == is_member(rest, head[i].id, mission_id) by {
                assert(brawlers[i].id != brawlers[brawlers.len() - 1].id);
                assert(membership(head[i].id, mission_id) != crew[at]);
            }
            lemma_crewed_by_same(head, crew, rest, mission_id);
            lemma_roster_covers_crew(head, rest, mission_id);
        } else {
            assert forall|k: int|
                0 <= k < crew.len() && (#[trigger] crew[k]).mission_id == mission_id implies knows(
                head,
                crew[k].brawler_id,
            ) by {
                assert(knows(brawlers, crew[k].brawler_id));
                let i = choose|i: int|
                    0 <= i < brawlers.len() && (#[trigger] brawlers[i]).id == crew[k].brawler_id;
                if i == brawlers.len() - 1 {
                    assert(crew[k] == membership(last.id, mission_id));
                    assert(crew.contains(membership(last.id, mission_id)));
                }
                assert(head[i].id == crew[k].brawler_id);
            }
            lemma_roster_covers_crew(head, crew, mission_id);
        }
    }
}

} // verus!
