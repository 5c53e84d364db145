use mission_crew::domain::entities::crew_memberships::CrewMembershipEntity;
use mission_crew::domain::stores::crew_store::CrewStore;
use mission_crew::domain::stores::mission_store::MissionStore;
use mission_crew::domain::value_objects::mission_statuses::MissionStatuses;

fn row(brawler_id: i32, mission_id: i32) -> CrewMembershipEntity {
    CrewMembershipEntity { brawler_id, mission_id }
}

#[test]
fn crew_store_counts_by_mission() {
    let mut store = CrewStore::new();
    assert_eq!(store.len(), 0);
    assert_eq!(store.crew_counting(1), 0);
    assert!(store.insert(row(1, 1)));
    assert!(store.insert(row(2, 1)));
    assert!(store.insert(row(1, 2)));
    assert!(!store.insert(row(2, 1)));
    assert_eq!(store.len(), 3);
    assert_eq!(store.crew_counting(1), 2);
    assert_eq!(store.crew_counting(2), 1);
    assert_eq!(store.crew_counting(3), 0);
    assert!(store.contains(1, 2));
    assert!(!store.contains(2, 2));
    assert_eq!(store.position(2, 1), Some(1));
    assert_eq!(store.position(3, 1), None);
}

#[test]
fn crew_store_removes_one_pair() {
    let mut store = CrewStore::new();
    store.insert(row(1, 1));
    store.insert(row(2, 1));
    store.insert(row(3, 1));
    assert!(store.remove(2, 1));
    assert!(!store.remove(2, 1));
    assert!(!store.remove(1, 2));
    assert_eq!(store.crew_counting(1), 2);
    assert_eq!(store.position(1, 1), Some(0));
    assert_eq!(store.position(3, 1), Some(1));
}

#[test]
fn crew_store_purges_one_mission() {
    let mut store = CrewStore::new();
    store.insert(row(1, 1));
    store.insert(row(1, 2));
    store.insert(row(2, 1));
    store.insert(row(2, 3));
    store.purge(1);
    assert_eq!(store.len(), 2);
    assert_eq!(store.crew_counting(1), 0);
    assert_eq!(store.position(1, 2), Some(0));
    assert_eq!(store.position(2, 3), Some(1));
    store.purge(9);
    assert_eq!(store.len(), 2);
}

#[test]
fn mission_store_assigns_identifiers_from_one() {
    let mut store = MissionStore::new();
    assert_eq!(store.add(7, "a".to_string(), 10), Some(1));
    assert_eq!(store.add(7, "b".to_string(), 5), Some(2));
    assert_eq!(store.add(8, "c".to_string(), 20), Some(3));
    let order: Vec<i32> = store.rows().iter().map(|m| m.id).collect();
    assert_eq!(order, vec![3, 1, 2]);
    assert_eq!(store.index_of(1), Some(1));
    assert_eq!(store.index_of(4), None);
    let found = store.get(2).unwrap();
    assert_eq!((found.id, found.owner_id, found.created_at, found.status), (2, 7, 5, MissionStatuses::Open));
    assert_eq!(found.name, "b");
    assert!(store.get(0).is_none());
}

#[test]
fn mission_store_writes_a_status_only_over_the_expected_one() {
    let mut store = MissionStore::new();
    let id = store.add(7, "a".to_string(), 10).unwrap();
    assert!(!store.set_status(id, MissionStatuses::InProgress, MissionStatuses::Completed));
    assert_eq!(store.get(id).unwrap().status, MissionStatuses::Open);
    assert!(store.set_status(id, MissionStatuses::Open, MissionStatuses::InProgress));
    assert_eq!(store.get(id).unwrap().status, MissionStatuses::InProgress);
    assert!(!store.set_status(id, MissionStatuses::Open, MissionStatuses::InProgress));
    assert!(!store.set_status(id + 1, MissionStatuses::Open, MissionStatuses::InProgress));
}

#[test]
fn mission_store_keeps_deleted_rows_out_of_sight() {
    let mut store = MissionStore::new();
    let id = store.add(7, "a".to_string(), 10).unwrap();
    assert!(store.mark_deleted(id, 99));
    assert!(!store.mark_deleted(id, 100));
    assert!(!store.mark_deleted(id + 1, 100));
    assert!(store.get(id).is_none());
    assert_eq!(store.index_of(id), Some(0));
    assert_eq!(store.rows()[0].deleted_at, Some(99));
    assert!(!store.set_status(id, MissionStatuses::Open, MissionStatuses::InProgress));
    assert_eq!(store.rows()[0].status, MissionStatuses::Open);
    assert_eq!(store.add(7, "b".to_string(), 10), Some(id + 1));
}
