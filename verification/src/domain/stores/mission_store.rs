//! The mission store: every mission that was ever created.
//!
//! Rows are kept newest first, by creation time and then by identifier, so a
//! listing is a single pass. A deleted mission keeps its row.

use vstd::prelude::*;
use crate::domain::entities::missions::MissionEntity;
use crate::domain::value_objects::mission_statuses::MissionStatuses;

verus! {

/// Whether some row, deleted or not, has the identifier `id`.
pub open spec fn holds(rows: Seq<MissionEntity>, id: i32) -> bool {
    exists|i: int| 0 <= i < rows.len() && (#[trigger] rows[i]).id == id
}

/// The place of the row with the identifier `id`.
pub open spec fn slot_of(rows: Seq<MissionEntity>, id: i32) -> int {
    choose|i: int| 0 <= i < rows.len() && (#[trigger] rows[i]).id == id
}

/// The row with the identifier `id`.
pub open spec fn mission_of(rows: Seq<MissionEntity>, id: i32) -> MissionEntity {
    rows[slot_of(rows, id)]
}

/// Whether the mission `id` exists and is not deleted.
pub open spec fn sees(rows: Seq<MissionEntity>, id: i32) -> bool {
    holds(rows, id) && mission_of(rows, id).visible()
}

/// No identifier is used twice.
pub open spec fn distinct_ids(rows: Seq<MissionEntity>) -> bool {
    forall|i: int, j: int|
        0 <= i < j < rows.len() ==> (#[trigger] rows[i]).id != (#[trigger] rows[j]).id
}

/// `a` comes before `b` in a listing: it was created later, or at the same
/// time under a higher identifier.
pub open spec fn newer(a: MissionEntity, b: MissionEntity) -> bool {
    a.created_at > b.created_at || (a.created_at == b.created_at && a.id > b.id)
}

/// Every row comes before the rows after it.
pub open spec fn newest_first(rows: Seq<MissionEntity>) -> bool {
    forall|i: int, j: int| 0 <= i < j < rows.len() ==> newer(#[trigger] rows[i], #[trigger] rows[j])
}

/// `at` is the place where a mission created at `created_at` under a fresh
/// identifier belongs: after the rows created later, before all the others.
pub open spec fn is_slot_for(rows: Seq<MissionEntity>, created_at: i64, at: int) -> bool {
    &&& 0 <= at <= rows.len()
    &&& forall|k: int| 0 <= k < at ==> (#[trigger] rows[k]).created_at > created_at
    &&& at < rows.len() ==> rows[at].created_at <= created_at
}

/// The place where a mission created at `created_at` under a fresh identifier belongs.
pub open spec fn slot_for(rows: Seq<MissionEntity>, created_at: i64) -> int {
    choose|at: int| is_slot_for(rows, created_at, at)
}

/// A mission as it is when it has just been created.
pub open spec fn fresh_mission(id: i32, owner_id: i32, name: String, created_at: i64) -> MissionEntity {
    MissionEntity {
        id,
        name,
        status: MissionStatuses::Open,
        owner_id,
        created_at,
        deleted_at: None,
    }
}

/// With distinct identifiers, the row that has `id` is the row at its slot.
pub proof fn lemma_slot_is_unique(rows: Seq<MissionEntity>, id: i32, at: int)
    requires
        distinct_ids(rows),
        0 <= at < rows.len(),
        rows[at].id == id,
    ensures
        holds(rows, id),
        slot_of(rows, id) == at,
        mission_of(rows, id) == rows[at],
{
    let chosen = slot_of(rows, id);
    if chosen < at {
        assert(rows[chosen].id != rows[at].id);
    } else if at < chosen {
        assert(rows[at].id != rows[chosen].id);
    }
}

/// There is one place for a new mission, whatever the rows are.
pub proof fn lemma_slot_for_is_unique(rows: Seq<MissionEntity>, created_at: i64, at: int)
    requires
        is_slot_for(rows, created_at, at),
    ensures
        slot_for(rows, created_at) == at,
{
    let chosen = slot_for(rows, created_at);
    assert(is_slot_for(rows, created_at, chosen));
    if chosen < at {
        assert(rows[chosen].created_at > created_at);
    } else if at < chosen {
        assert(rows[at].created_at > created_at);
    }
}

/// Replacing a row by one with the same identifier and creation time changes
/// neither which missions exist nor where they stand.
pub proof fn lemma_update_keeps_places(rows: Seq<MissionEntity>, at: int, row: MissionEntity)
    requires
        0 <= at < rows.len(),
        row.id == rows[at].id,
        row.created_at == rows[at].created_at,
    ensures
        distinct_ids(rows) ==> distinct_ids(rows.update(at, row)),
        newest_first(rows) ==> newest_first(rows.update(at, row)),
        forall|id: i32| holds(rows, id) <==> #[trigger] holds(rows.update(at, row), id),
        distinct_ids(rows) ==> forall|id: i32|
            holds(rows, id) ==> #[trigger] slot_of(rows.update(at, row), id) == slot_of(rows, id),
{
    let after = rows.update(at, row);
    if distinct_ids(rows) {
        assert forall|i: int, j: int| 0 <= i < j < after.len() implies (#[trigger] after[i]).id != (
        #[trigger] after[j]).id by {
            assert(rows[i].id != rows[j].id);
        }
    }
    if newest_first(rows) {
        assert forall|i: int, j: int| 0 <= i < j < after.len() implies newer(
            #[trigger] after[i],
            #[trigger] after[j],
        ) by {
            assert(newer(rows[i], rows[j]));
        }
    }
    assert forall|id: i32| holds(rows, id) <==> #[trigger] holds(after, id) by {
        if holds(rows, id) {
            let i = slot_of(rows, id);
            assert(after[i].id == id);
        }
        if holds(after, id) {
            let i = slot_of(after, id);
            assert(rows[i].id == id);
        }
    }
    if distinct_ids(rows) {
        assert forall|id: i32| holds(rows, id) implies #[trigger] slot_of(after, id) == slot_of(
            rows,
            id,
        ) by {
            let i = slot_of(rows, id);
            assert(after[i].id == id);
            lemma_slot_is_unique(after, id, i);
        }
    }
}

/// Putting a mission with an unused identifier in its place keeps the rows in
/// order, and every other mission stays what it was.
pub proof fn lemma_insert_keeps_order(rows: Seq<MissionEntity>, row: MissionEntity)
    requires
        distinct_ids(rows),
        newest_first(rows),
        forall|i: int| 0 <= i < rows.len() ==> (#[trigger] rows[i]).id < row.id,
    ensures
        distinct_ids(rows.insert(slot_for(rows, row.created_at), row)),
        newest_first(rows.insert(slot_for(rows, row.created_at), row)),
        is_slot_for(rows, row.created_at, slot_for(rows, row.created_at)),
        mission_of(rows.insert(slot_for(rows, row.created_at), row), row.id) == row,
        holds(rows.insert(slot_for(rows, row.created_at), row), row.id),
        forall|id: i32|
            id != row.id ==> (#[trigger] holds(rows.insert(slot_for(rows, row.created_at), row), id)
                <==> holds(rows, id)),
        forall|id: i32|
            id != row.id && holds(rows, id) ==> #[trigger] mission_of(
                rows.insert(slot_for(rows, row.created_at), row),
                id,
            ) == mission_of(rows, id),
{
    lemma_slot_exists(rows, row.created_at, 0);
    let at = slot_for(rows, row.created_at);
    let after = rows.insert(at, row);
    rows.insert_ensures(at, row);
    assert forall|i: int| 0 <= i < after.len() implies (#[trigger] after[i]) == (if i < at {
        rows[i]
    } else if i == at {
        row
    } else {
        rows[i - 1]
    }) by {
        if i > at {
            assert(after[(i - 1) + 1] == rows[i - 1]);
        }
    }
    assert forall|i: int, j: int| 0 <= i < j < after.len() implies (#[trigger] after[i]).id != (
    #[trigger] after[j]).id && newer(after[i], after[j]) by {
        let a = if i < at { i } else { i - 1 };
        let b = if j < at { j } else { j - 1 };
        if i == at {
            assert(after[j] == rows[b]);
            assert(rows[b].id < row.id);
            if at < b {
                assert(newer(rows[at], rows[b]));
            }
        } else if j == at {
            assert(after[i] == rows[a]);
            assert(rows[a].id < row.id);
        } else {
            assert(after[i] == rows[a] && after[j] == rows[b]);
            assert(rows[a].id != rows[b].id);
            assert(newer(rows[a], rows[b]));
        }
    }
    assert(after[at] == row);
    lemma_slot_is_unique(after, row.id, at);
    assert forall|id: i32| id != row.id implies (#[trigger] holds(after, id) <==> holds(rows, id)) by {
        if holds(rows, id) {
            let i = slot_of(rows, id);
            let k = if i < at { i } else { i + 1 };
            assert(after[k] == rows[i]);
        }
        if holds(after, id) {
            let k = slot_of(after, id);
            let i = if k < at { k } else { k - 1 };
            assert(after[k] == rows[i]);
        }
    }
    assert forall|id: i32| id != row.id && holds(rows, id) implies #[trigger] mission_of(after, id)
        == mission_of(rows, id) by {
        let i = slot_of(rows, id);
        let k = if i < at { i } else { i + 1 };
        assert(after[k] == rows[i]);
        lemma_slot_is_unique(after, id, k);
    }
}

/// A place for a new mission exists: the first row from `from` on that is not
/// newer, or the end.
pub proof fn lemma_slot_exists(rows: Seq<MissionEntity>, created_at: i64, from: int)
    requires
        0 <= from <= rows.len(),
        forall|k: int| 0 <= k < from ==> (#[trigger] rows[k]).created_at > created_at,
    ensures
        is_slot_for(rows, created_at, slot_for(rows, created_at)),
    decreases rows.len() - from,
{
    if from < rows.len() && rows[from].created_at > created_at {
        lemma_slot_exists(rows, created_at, from + 1);
    } else {
        assert(is_slot_for(rows, created_at, from));
    }
}

/// What the mission store holds.
pub struct MissionRecords {
    /// Every mission ever created, newest first.
    pub rows: Seq<MissionEntity>,
    /// The identifier that the next mission will get.
    pub next_id: i32,
}

/// The record of missions.
pub struct MissionStore {
    rows: Vec<MissionEntity>,
    next_id: i32,
}

impl View for MissionStore {
    type V = MissionRecords;

    closed spec fn view(&self) -> MissionRecords {
        MissionRecords { rows: self.rows@, next_id: self.next_id }
    }
}

impl MissionStore {
    /// Identifiers are positive, below the next one and used once; rows are newest first.
    pub open spec fn wf(&self) -> bool {
        &&& distinct_ids(self@.rows)
        &&& newest_first(self@.rows)
        &&& self@.next_id >= 1
        &&& forall|i: int| 0 <= i < self@.rows.len() ==> 0 < (#[trigger] self@.rows[i]).id < self@.next_id
    }

    /// A store without missions. The first mission will get the identifier 1.
    pub fn new() -> (store: MissionStore)
        ensures
            store@.rows == Seq::<MissionEntity>::empty(),
            store@.next_id == 1,
            store.wf(),
    {
        MissionStore { rows: Vec::new(), next_id: 1 }
    }

    /// The rows, newest first, deleted ones included.
    pub fn rows(&self) -> (rows: &Vec<MissionEntity>)
        ensures
            rows@ == self@.rows,
    {
        &self.rows
    }

    /// Creates an `Open` mission owned by `owner_id` and returns its identifier.
    ///
    /// Returns `None`, and changes nothing, when the identifiers are used up.
    pub fn add(&mut self, owner_id: i32, name: String, created_at: i64) -> (id: Option<i32>)
        requires
            old(self).wf(),
        ensures
            final(self).wf(),
            id is Some <==> old(self)@.next_id < i32::MAX,
            id matches Some(new_id) ==> {
                &&& new_id == old(self)@.next_id
                &&& final(self)@.next_id == new_id + 1
                &&& final(self)@.rows == old(self)@.rows.insert(
                    slot_for(old(self)@.rows, created_at),
                    fresh_mission(new_id, owner_id, name, created_at),
                )
            },
            id is None ==> final(self)@.rows == old(self)@.rows && final(self)@.next_id == old(self)@.next_id,
    {
        if self.next_id == i32::MAX {
            return None;
        }
        let new_id = self.next_id;
        let mut at: usize = 0;
        while at < self.rows.len() && self.rows[at].created_at > created_at
            invariant
                at <= self.rows.len(),
                forall|k: int| 0 <= k < at ==> (#[trigger] self.rows@[k]).created_at > created_at,
            decreases self.rows.len() - at,
        {
            at = at + 1;
        }
        let row = MissionEntity {
            id: new_id,
            name,
            status: MissionStatuses::Open,
            owner_id,
            created_at,
            deleted_at: None,
        };
        proof {
            assert(is_slot_for(self.rows@, created_at, at as int));
            lemma_slot_for_is_unique(self.rows@, created_at, at as int);
            lemma_insert_keeps_order(self.rows@, row);
            let after = self.rows@.insert(at as int, row);
            self.rows@.insert_ensures(at as int, row);
            assert forall|i: int| 0 <= i < after.len() implies 0 < (#[trigger] after[i]).id
                < new_id + 1 by {
                if i < at {
                    assert(after[i] == self.rows@[i]);
                } else if i > at {
                    assert(after[(i - 1) + 1] == self.rows@[i - 1]);
                }
            }
        }
        self.rows.insert(at, row);
        self.next_id = new_id + 1;
        Some(new_id)
    }

    /// Where the row with the identifier `id` stands, deleted or not.
    pub fn index_of(&self, id: i32) -> (found: Option<usize>)
        requires
            self.wf(),
        ensures
            found is Some <==> holds(self@.rows, id),
            found matches Some(at) ==> at == slot_of(self@.rows, id) && at < self@.rows.len() && self@.rows[at as int]
                == mission_of(self@.rows, id) && mission_of(self@.rows, id).id == id,
    {
        let mut i: usize = 0;
        while i < self.rows.len()
            invariant
                self.wf(),
                i <= self.rows.len(),
                forall|k: int| 0 <= k < i ==> (#[trigger] self.rows@[k]).id != id,
            decreases self.rows.len() - i,
        {
            if self.rows[i].id == id {
                proof {
                    lemma_slot_is_unique(self.rows@, id, i as int);
                }
                return Some(i);
            }
            i = i + 1;
        }
        None
    }

    /// The mission `id`, unless it does not exist or was deleted.
    pub fn get(&self, id: i32) -> (found: Option<&MissionEntity>)
        requires
            self.wf(),
        ensures
            found is Some <==> sees(self@.rows, id),
            found matches Some(mission) ==> *mission == mission_of(self@.rows, id) && mission.id == id,
    {
        match self.index_of(id) {
            Some(at) => {
                if self.rows[at].is_visible() {
                    Some(&self.rows[at])
                } else {
                    None
                }
            },
            None => None,
        }
    }

    /// Writes `next` as the status of mission `id` if the mission is there, not
    /// deleted, and its status is still `expected`. Says whether it wrote.
    pub fn set_status(&mut self, id: i32, expected: MissionStatuses, next: MissionStatuses) -> (written:
        bool)
        requires
            old(self).wf(),
        ensures
            final(self).wf(),
            final(self)@.next_id == old(self)@.next_id,
            written <==> sees(old(self)@.rows, id) && mission_of(old(self)@.rows, id).status == expected,
            written ==> final(self)@.rows == old(self)@.rows.update(
                slot_of(old(self)@.rows, id),
                mission_of(old(self)@.rows, id).with_status(next),
            ),
            !written ==> final(self)@.rows == old(self)@.rows,
    {
        match self.index_of(id) {
            Some(at) => {
                if self.rows[at].is_visible() && self.rows[at].status == expected {
                    let mut row = self.rows[at].clone();
                    row.status = next;
                    proof {
                        lemma_update_keeps_places(self.rows@, at as int, row);
                    }
                    self.rows.set(at, row);
                    true
                } else {
                    false
                }
            },
            None => false,
        }
    }

    /// Gives mission `id` the name `name` if it is there and not deleted. Says whether it did.
    pub fn set_name(&mut self, id: i32, name: String) -> (written: bool)
        requires
            old(self).wf(),
        ensures
            final(self).wf(),
            final(self)@.next_id == old(self)@.next_id,
            written <==> sees(old(self)@.rows, id),
            written ==> final(self)@.rows == old(self)@.rows.update(
                slot_of(old(self)@.rows, id),
                mission_of(old(self)@.rows, id).renamed(name),
            ),
            !written ==> final(self)@.rows == old(self)@.rows,
    {
        match self.index_of(id) {
            Some(at) => {
                if self.rows[at].is_visible() {
                    let mut row = self.rows[at].clone();
                    row.name = name;
                    proof {
                        lemma_update_keeps_places(self.rows@, at as int, row);
                    }
                    self.rows.set(at, row);
                    true
                } else {
                    false
                }
            },
            None => false,
        }
    }

    /// Marks mission `id` as deleted at `at` if it is there and not yet deleted.
    /// Says whether it did.
    pub fn mark_deleted(&mut self, id: i32, at: i64) -> (marked: bool)
        requires
            old(self).wf(),
        ensures
            final(self).wf(),
            final(self)@.next_id == old(self)@.next_id,
            marked <==> sees(old(self)@.rows, id),
            marked ==> final(self)@.rows == old(self)@.rows.update(
                slot_of(old(self)@.rows, id),
                mission_of(old(self)@.rows, id).deleted(at),
            ),
            !marked ==> final(self)@.rows == old(self)@.rows,
    {
        match self.index_of(id) {
            Some(slot) => {
                if self.rows[slot].is_visible() {
                    let mut row = self.rows[slot].clone();
                    row.deleted_at = Some(at);
                    proof {
                        lemma_update_keeps_places(self.rows@, slot as int, row);
                    }
                    self.rows.set(slot, row);
                    true
                } else {
                    false
                }
            },
            None => false,
        }
    }
}

} // verus!
