//! The crew store: which actor crews which mission.
//!
//! The store is a sequence of memberships in the order in which they were
//! created. A pair of actor and mission occurs in it at most once.

use vstd::prelude::*;
use crate::domain::entities::crew_memberships::CrewMembershipEntity;

verus! {

/// The row that says `actor_id` crews `mission_id`.
pub open spec fn membership(actor_id: i32, mission_id: i32) -> CrewMembershipEntity {
    CrewMembershipEntity { brawler_id: actor_id, mission_id }
}

/// How many rows of `rows` belong to `mission_id`.
pub open spec fn crew_count(rows: Seq<CrewMembershipEntity>, mission_id: i32) -> nat
    decreases rows.len(),
{
    if rows.len() == 0 {
        0
    } else if rows.last().mission_id == mission_id {
        crew_count(rows.drop_last(), mission_id) + 1
    } else {
        crew_count(rows.drop_last(), mission_id)
    }
}

/// Whether `actor_id` crews `mission_id`.
pub open spec fn is_member(rows: Seq<CrewMembershipEntity>, actor_id: i32, mission_id: i32) -> bool {
    rows.contains(membership(actor_id, mission_id))
}

/// `rows` without the rows of `mission_id`, the others in their order.
pub open spec fn without_mission(rows: Seq<CrewMembershipEntity>, mission_id: i32) -> Seq<
    CrewMembershipEntity,
>
    decreases rows.len(),
{
    if rows.len() == 0 {
        rows
    } else if rows.last().mission_id == mission_id {
        without_mission(rows.drop_last(), mission_id)
    } else {
        without_mission(rows.drop_last(), mission_id).push(rows.last())
    }
}

/// One more row adds one to the count of its own mission and nothing to the others.
pub proof fn lemma_count_push(
    rows: Seq<CrewMembershipEntity>,
    row: CrewMembershipEntity,
    mission_id: i32,
)
    ensures
        crew_count(rows.push(row), mission_id) == crew_count(rows, mission_id) + (if row.mission_id
            == mission_id {
            1nat
        } else {
            0nat
        }),
{
    assert(rows.push(row).drop_last() =~= rows);
}

/// Taking a row out takes one from the count of its mission and nothing from the others.
pub proof fn lemma_count_remove(rows: Seq<CrewMembershipEntity>, at: int, mission_id: i32)
    requires
        0 <= at < rows.len(),
    ensures
        crew_count(rows.remove(at), mission_id) + (if rows[at].mission_id == mission_id {
            1nat
        } else {
            0nat
        }) == crew_count(rows, mission_id),
    decreases rows.len(),
{
    if at == rows.len() - 1 {
        assert(rows.remove(at) =~= rows.drop_last());
    } else {
        assert(rows.remove(at).drop_last() =~= rows.drop_last().remove(at));
        assert(rows.remove(at).last() == rows.last());
        lemma_count_remove(rows.drop_last(), at, mission_id);
    }
}

/// What dropping a mission's rows keeps and what it removes.
pub proof fn lemma_without_mission(rows: Seq<CrewMembershipEntity>, mission_id: i32)
    ensures
        forall|row: CrewMembershipEntity| #[trigger]
            without_mission(rows, mission_id).contains(row) <==> rows.contains(row)
                && row.mission_id != mission_id,
        rows.no_duplicates() ==> without_mission(rows, mission_id).no_duplicates(),
        crew_count(without_mission(rows, mission_id), mission_id) == 0,
        forall|other: i32|
            other != mission_id ==> #[trigger] crew_count(
                without_mission(rows, mission_id),
                other,
            ) == crew_count(rows, other),
    decreases rows.len(),
{
    let kept = without_mission(rows, mission_id);
    if rows.len() > 0 {
        let head = rows.drop_last();
        let last = rows.last();
        let head_kept = without_mission(head, mission_id);
        lemma_without_mission(head, mission_id);
        assert forall|row: CrewMembershipEntity| #[trigger]
            kept.contains(row) <==> rows.contains(row) && row.mission_id != mission_id by {
            if kept.contains(row) {
                let k = choose|k: int| 0 <= k < kept.len() && kept[k] == row;
                if last.mission_id != mission_id && k == kept.len() - 1 {
                    assert(rows[rows.len() - 1] == row);
                } else {
                    assert(head_kept[k] == row);
                    assert(head_kept.contains(row));
                    let j = choose|j: int| 0 <= j < head.len() && head[j] == row;
                    assert(rows[j] == row);
                }
            }
            if rows.contains(row) && row.mission_id != mission_id {
                let j = choose|j: int| 0 <= j < rows.len() && rows[j] == row;
                if j == rows.len() - 1 {
                    assert(kept[kept.len() - 1] == row);
                } else {
                    assert(head[j] == row);
                    assert(head.contains(row));
                    assert(head_kept.contains(row));
                    let k = choose|k: int| 0 <= k < head_kept.len() && head_kept[k] == row;
                    assert(kept[k] == row);
                }
            }
        }
        if rows.no_duplicates() {
            assert(head.no_duplicates()) by {
                assert forall|i: int, j: int|
                    0 <= i < head.len() && 0 <= j < head.len() && i != j implies head[i]
                    != head[j] by {
                    assert(rows[i] != rows[j]);
                }
            }
            if last.mission_id != mission_id {
                assert(!head_kept.contains(last)) by {
                    if head.contains(last) {
                        let j = choose|j: int| 0 <= j < head.len() && head[j] == last;
                        assert(rows[j] == rows[rows.len() - 1]);
                    }
                }
                assert forall|i: int, j: int|
                    0 <= i < kept.len() && 0 <= j < kept.len() && i != j implies kept[i]
                    != kept[j] by {
                    if i == kept.len() - 1 {
                        assert(head_kept[j] == kept[j]);
                    } else if j == kept.len() - 1 {
                        assert(head_kept[i] == kept[i]);
                    } else {
                        assert(head_kept[i] != head_kept[j]);
                    }
                }
            }
        }
        if last.mission_id != mission_id {
            lemma_count_push(head_kept, last, mission_id);
        }
        assert forall|other: i32| other != mission_id implies #[trigger] crew_count(kept, other)
            == crew_count(rows, other) by {
            if last.mission_id != mission_id {
                lemma_count_push(head_kept, last, other);
            }
        }
    }
}

/// The record of crew memberships.
pub struct CrewStore {
    rows: Vec<CrewMembershipEntity>,
}

impl View for CrewStore {
    type V = Seq<CrewMembershipEntity>;

    /// The memberships, oldest first.
    closed spec fn view(&self) -> Seq<CrewMembershipEntity> {
        self.rows@
    }
}

impl CrewStore {
    /// No pair of actor and mission is recorded twice.
    pub open spec fn wf(&self) -> bool {
        self@.no_duplicates()
    }

    /// A store without memberships.
    pub fn new() -> (store: CrewStore)
        ensures
            store@ == Seq::<CrewMembershipEntity>::empty(),
            store.wf(),
    {
        CrewStore { rows: Vec::new() }
    }

    /// The number of memberships of all missions together.
    pub fn len(&self) -> (n: usize)
        ensures
            n == self@.len(),
    {
        self.rows.len()
    }

    /// The size of the crew of `mission_id`, counted over the rows as they are now.
    pub fn crew_counting(&self, mission_id: i32) -> (count: usize)
        ensures
            count == crew_count(self@, mission_id),
    {
        let mut count: usize = 0;
        let mut i: usize = 0;
        while i < self.rows.len()
            invariant
                i <= self.rows.len(),
                count <= i,
                count == crew_count(self.rows@.take(i as int), mission_id),
            decreases self.rows.len() - i,
        {
            proof {
                assert(self.rows@.take(i + 1) =~= self.rows@.take(i as int).push(self.rows@[i as int]));
                lemma_count_push(self.rows@.take(i as int), self.rows@[i as int], mission_id);
            }
            if self.rows[i].mission_id == mission_id {
                count = count + 1;
            }
            i = i + 1;
        }
        assert(self.rows@.take(i as int) =~= self.rows@);
        count
    }

    /// Where the membership of `actor_id` in `mission_id` stands, if there is one.
    pub fn position(&self, actor_id: i32, mission_id: i32) -> (found: Option<usize>)
        ensures
            found is Some <==> is_member(self@, actor_id, mission_id),
            found matches Some(at) ==> at < self@.len() && self@[at as int] == membership(
                actor_id,
                mission_id,
            ),
    {
        let mut i: usize = 0;
        while i < self.rows.len()
            invariant
                i <= self.rows.len(),
                forall|k: int| 0 <= k < i ==> self.rows@[k] != membership(actor_id, mission_id),
            decreases self.rows.len() - i,
        {
            if self.rows[i].brawler_id == actor_id && self.rows[i].mission_id == mission_id {
                return Some(i);
            }
            i = i + 1;
        }
        None
    }

    /// Whether `actor_id` crews `mission_id`.
    pub fn contains(&self, actor_id: i32, mission_id: i32) -> (member: bool)
        ensures
            member == is_member(self@, actor_id, mission_id),
    {
        self.position(actor_id, mission_id).is_some()
    }

    /// Records a membership after all the others, unless the pair is already
    /// there. Says whether it recorded one.
    pub fn insert(&mut self, row: CrewMembershipEntity) -> (inserted: bool)
        requires
            old(self).wf(),
        ensures
            final(self).wf(),
            inserted == !old(self)@.contains(row),
            inserted ==> final(self)@ == old(self)@.push(row),
            !inserted ==> final(self)@ == old(self)@,
    {
        if self.position(row.brawler_id, row.mission_id).is_some() {
            return false;
        }
        self.rows.push(row);
        proof {
            let before = old(self)@;
            let after = self.rows@;
            assert forall|i: int, j: int|
                0 <= i < after.len() && 0 <= j < after.len() && i != j implies after[i]
                != after[j] by {
                if i < before.len() && j < before.len() {
                    assert(before[i] != before[j]);
                } else if i < before.len() {
                    assert(before[i] == after[i]);
                } else {
                    assert(before[j] == after[j]);
                }
            }
        }
        true
    }

    /// Takes the membership of `actor_id` in `mission_id` out, if there is one,
    /// and says whether there was.
    pub fn remove(&mut self, actor_id: i32, mission_id: i32) -> (removed: bool)
        requires
            old(self).wf(),
        ensures
            final(self).wf(),
            removed == is_member(old(self)@, actor_id, mission_id),
            removed ==> final(self)@ == old(self)@.remove(
                old(self)@.index_of(membership(actor_id, mission_id)),
            ),
            !removed ==> final(self)@ == old(self)@,
            !is_member(final(self)@, actor_id, mission_id),
    {
        match self.position(actor_id, mission_id) {
            Some(at) => {
                let ghost before = self.rows@;
                let ghost chosen = before.index_of(membership(actor_id, mission_id));
                assert(chosen == at) by {
                    assert(before[at as int] == membership(actor_id, mission_id));
                    if chosen != at {
                        assert(before[chosen] != before[at as int]);
                    }
                }
                self.rows.remove(at);
                proof {
                    lemma_remove_keeps_distinct(before, at as int);
                }
                true
            },
            None => false,
        }
    }

    /// Takes out every membership of `mission_id`.
    pub fn purge(&mut self, mission_id: i32)
        requires
            old(self).wf(),
        ensures
            final(self).wf(),
            final(self)@ == without_mission(old(self)@, mission_id),
    {
        let mut kept: Vec<CrewMembershipEntity> = Vec::new();
        let mut i: usize = 0;
        while i < self.rows.len()
            invariant
                i <= self.rows.len(),
                kept@ == without_mission(self.rows@.take(i as int), mission_id),
            decreases self.rows.len() - i,
        {
            proof {
                assert(self.rows@.take(i + 1).drop_last() =~= self.rows@.take(i as int));
            }
            if self.rows[i].mission_id != mission_id {
                kept.push(self.rows[i]);
            }
            i = i + 1;
        }
        proof {
            assert(self.rows@.take(i as int) =~= self.rows@);
            lemma_without_mission(self.rows@, mission_id);
        }
        self.rows = kept;
    }
}

/// Taking a row out of a sequence without repeats leaves no repeats, and the row is gone.
pub proof fn lemma_remove_keeps_distinct(rows: Seq<CrewMembershipEntity>, at: int)
    requires
        rows.no_duplicates(),
        0 <= at < rows.len(),
    ensures
        rows.remove(at).no_duplicates(),
        !rows.remove(at).contains(rows[at]),
        forall|row: CrewMembershipEntity|
            row != rows[at] ==> (#[trigger] rows.remove(at).contains(row) <==> rows.contains(row)),
{
    let rest = rows.remove(at);
    assert forall|i: int, j: int|
        0 <= i < rest.len() && 0 <= j < rest.len() && i != j implies rest[i] != rest[j] by {
        let a = if i < at { i } else { i + 1 };
        let b = if j < at { j } else { j + 1 };
        assert(rest[i] == rows[a] && rest[j] == rows[b]);
    }
    if rest.contains(rows[at]) {
        let k = choose|k: int| 0 <= k < rest.len() && rest[k] == rows[at];
        let a = if k < at { k } else { k + 1 };
        assert(rest[k] == rows[a]);
    }
    assert forall|row: CrewMembershipEntity| row != rows[at] implies (#[trigger] rest.contains(row)
        <==> rows.contains(row)) by {
        if rest.contains(row) {
            let k = choose|k: int| 0 <= k < rest.len() && rest[k] == row;
            let a = if k < at { k } else { k + 1 };
            assert(rows[a] == row);
        }
        if rows.contains(row) {
            let a = choose|a: int| 0 <= a < rows.len() && rows[a] == row;
            let k = if a < at { a } else { a - 1 };
            assert(rest[k] == row);
        }
    }
}

} // verus!
