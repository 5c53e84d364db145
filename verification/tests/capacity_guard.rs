use mission_crew::domain::board::MissionBoard;
use mission_crew::domain::capacity_guard::CapacityGuard;
use mission_crew::domain::entities::crew_memberships::MAX_CREW_MEMBERSHIPS_PER_MISSION;
use mission_crew::domain::value_objects::errors::{AdmitError, ErrorKind, ReleaseError};

fn board_with_mission(capacity: u32, owner: i32) -> (MissionBoard, i32) {
    let mut board = MissionBoard::new(capacity);
    let id = board.add_mission(owner, "Mission".to_string(), 1_000).unwrap();
    (board, id)
}

#[test]
fn default_capacity_is_ten() {
    assert_eq!(MAX_CREW_MEMBERSHIPS_PER_MISSION, 10);
    assert_eq!(CapacityGuard::default().capacity(), 10);
    assert_eq!(MissionBoard::default().capacity(), 10);
    assert_eq!(MissionBoard::new(3).capacity(), 3);
}

#[test]
fn guard_reports_the_first_failing_condition() {
    let guard = CapacityGuard::new(2);
    assert_eq!(guard.check_admit(true, false, 0), Ok(()));
    assert_eq!(guard.check_admit(true, false, 1), Ok(()));
    assert_eq!(guard.check_admit(true, false, 2), Err(AdmitError::CapacityExceeded));
    assert_eq!(guard.check_admit(true, true, 0), Err(AdmitError::AlreadyMember));
    assert_eq!(guard.check_admit(true, true, 2), Err(AdmitError::AlreadyMember));
    assert_eq!(guard.check_admit(false, false, 0), Err(AdmitError::MissionNotFound));
    assert_eq!(guard.check_admit(false, true, 5), Err(AdmitError::MissionNotFound));
    assert_eq!(guard.check_release(true, false), Ok(()));
    assert_eq!(guard.check_release(false, true), Ok(()));
    assert_eq!(guard.check_release(true, true), Ok(()));
    assert_eq!(guard.check_release(false, false), Err(ReleaseError::NotAMember));
}

#[test]
fn zero_capacity_admits_nobody() {
    let (mut board, mission) = board_with_mission(0, 7);
    assert_eq!(board.admit_actor(1, mission), Err(AdmitError::CapacityExceeded));
    assert_eq!(board.crew_counting(mission), 0);
}

#[test]
fn ten_distinct_actors_fill_a_crew_of_ten() {
    let (mut board, mission) = board_with_mission(10, 7);
    for actor in 1..=10 {
        assert_eq!(board.admit_actor(actor, mission), Ok(()));
        assert_eq!(board.crew_counting(mission), actor as i64);
    }
    assert_eq!(board.admit_actor(11, mission), Err(AdmitError::CapacityExceeded));
    assert_eq!(board.crew_counting(mission), 10);
    assert!(!board.is_member(11, mission));
}

#[test]
fn exactly_min_of_attempts_and_capacity_succeed_in_any_order() {
    let orders: Vec<Vec<i32>> = vec![
        (1..=15).collect(),
        (1..=15).rev().collect(),
        vec![8, 3, 15, 1, 12, 6, 10, 2, 14, 5, 9, 4, 13, 7, 11],
        (1..=4).collect(),
    ];
    for order in orders {
        let (mut board, mission) = board_with_mission(10, 7);
        let mut admitted = Vec::new();
        for actor in order.iter() {
            if board.admit_actor(*actor, mission).is_ok() {
                admitted.push(*actor);
            }
            assert!(board.crew_counting(mission) <= 10);
        }
        let expected = std::cmp::min(order.len(), 10);
        assert_eq!(admitted.len(), expected);
        assert_eq!(board.crew_counting(mission), expected as i64);
        assert_eq!(admitted, order[..expected].to_vec());
        for actor in order.iter() {
            assert_eq!(board.is_member(*actor, mission), admitted.contains(actor));
        }
    }
}

#[test]
fn crews_of_different_missions_do_not_contend() {
    let mut board = MissionBoard::new(2);
    let first = board.add_mission(7, "First".to_string(), 10).unwrap();
    let second = board.add_mission(8, "Second".to_string(), 20).unwrap();
    assert_eq!(board.admit_actor(1, first), Ok(()));
    assert_eq!(board.admit_actor(2, first), Ok(()));
    assert_eq!(board.admit_actor(3, first), Err(AdmitError::CapacityExceeded));
    assert_eq!(board.admit_actor(1, second), Ok(()));
    assert_eq!(board.admit_actor(3, second), Ok(()));
    assert_eq!(board.crew_counting(first), 2);
    assert_eq!(board.crew_counting(second), 2);
}

#[test]
fn second_admission_is_already_member_and_changes_nothing() {
    let (mut board, mission) = board_with_mission(10, 7);
    assert_eq!(board.admit_actor(1, mission), Ok(()));
    assert_eq!(board.crew_counting(mission), 1);
    assert_eq!(board.admit_actor(1, mission), Err(AdmitError::AlreadyMember));
    assert_eq!(board.crew_counting(mission), 1);
    assert!(board.is_member(1, mission));
}

#[test]
fn member_of_a_full_crew_is_told_already_member() {
    let (mut board, mission) = board_with_mission(1, 7);
    assert_eq!(board.admit_actor(1, mission), Ok(()));
    assert_eq!(board.admit_actor(1, mission), Err(AdmitError::AlreadyMember));
    assert_eq!(board.admit_actor(2, mission), Err(AdmitError::CapacityExceeded));
    assert_eq!(board.crew_counting(mission), 1);
}

#[test]
fn unknown_mission_is_not_found() {
    let (mut board, mission) = board_with_mission(10, 7);
    assert_eq!(board.admit_actor(1, mission + 1), Err(AdmitError::MissionNotFound));
    assert_eq!(board.admit_actor(1, 0), Err(AdmitError::MissionNotFound));
    assert_eq!(board.admit_actor(1, -4), Err(AdmitError::MissionNotFound));
    assert_eq!(board.crew_counting(mission + 1), 0);
}

#[test]
fn leave_then_rejoin_restores_membership() {
    let (mut board, mission) = board_with_mission(2, 7);
    assert_eq!(board.admit_actor(1, mission), Ok(()));
    assert_eq!(board.admit_actor(2, mission), Ok(()));
    assert_eq!(board.release(1, mission), Ok(()));
    assert!(!board.is_member(1, mission));
    assert_eq!(board.crew_counting(mission), 1);
    assert_eq!(board.admit_actor(1, mission), Ok(()));
    assert!(board.is_member(1, mission));
    assert!(board.is_member(2, mission));
    assert_eq!(board.crew_counting(mission), 2);
}

#[test]
fn leaving_frees_a_place_for_another_actor() {
    let (mut board, mission) = board_with_mission(1, 7);
    assert_eq!(board.admit_actor(1, mission), Ok(()));
    assert_eq!(board.admit_actor(2, mission), Err(AdmitError::CapacityExceeded));
    assert_eq!(board.release(1, mission), Ok(()));
    assert_eq!(board.admit_actor(2, mission), Ok(()));
    assert_eq!(board.crew_counting(mission), 1);
}

#[test]
fn leaving_without_membership_is_not_a_member() {
    let (mut board, mission) = board_with_mission(10, 7);
    assert_eq!(board.release(1, mission), Err(ReleaseError::NotAMember));
    assert_eq!(board.admit_actor(1, mission), Ok(()));
    assert_eq!(board.release(2, mission), Err(ReleaseError::NotAMember));
    assert_eq!(board.release(1, mission + 5), Err(ReleaseError::NotAMember));
    assert_eq!(board.release(1, mission), Ok(()));
    assert_eq!(board.release(1, mission), Err(ReleaseError::NotAMember));
    assert_eq!(board.crew_counting(mission), 0);
}

#[test]
fn deleted_mission_refuses_joins_and_lets_leavers_go() {
    let (mut board, mission) = board_with_mission(10, 7);
    assert_eq!(board.admit_actor(1, mission), Ok(()));
    assert_eq!(board.admit_actor(2, mission), Ok(()));
    assert_eq!(board.remove_mission(mission, 7, 2_000), Ok(()));
    assert_eq!(board.crew_counting(mission), 0);
    assert!(!board.is_member(1, mission));
    assert_eq!(board.admit_actor(3, mission), Err(AdmitError::MissionNotFound));
    assert_eq!(board.admit_actor(1, mission), Err(AdmitError::MissionNotFound));
    assert_eq!(board.release(1, mission), Ok(()));
    assert_eq!(board.release(9, mission), Ok(()));
    assert_eq!(board.crew_counting(mission), 0);
}

#[test]
fn deleting_needs_the_owner_and_a_mission_that_is_there() {
    let (mut board, mission) = board_with_mission(10, 7);
    assert_eq!(board.remove_mission(mission, 8, 2_000), Err(ErrorKind::NotOwner));
    assert_eq!(board.remove_mission(mission + 1, 7, 2_000), Err(ErrorKind::NotFound));
    assert_eq!(board.remove_mission(mission, 7, 2_000), Ok(()));
    assert_eq!(board.remove_mission(mission, 7, 3_000), Err(ErrorKind::NotFound));
    assert_eq!(board.remove_mission(mission, 8, 3_000), Err(ErrorKind::NotFound));
}

#[test]
fn deleting_one_mission_keeps_the_crews_of_the_others() {
    let mut board = MissionBoard::new(3);
    let first = board.add_mission(7, "First".to_string(), 10).unwrap();
    let second = board.add_mission(7, "Second".to_string(), 20).unwrap();
    assert_eq!(board.admit_actor(1, first), Ok(()));
    assert_eq!(board.admit_actor(1, second), Ok(()));
    assert_eq!(board.admit_actor(2, second), Ok(()));
    assert_eq!(board.remove_mission(first, 7, 30), Ok(()));
    assert_eq!(board.crew_counting(second), 2);
    assert!(board.is_member(1, second));
    assert!(board.is_member(2, second));
    assert!(!board.is_member(1, first));
}

#[test]
fn joining_does_not_depend_on_the_status() {
    let (mut board, mission) = board_with_mission(10, 7);
    assert_eq!(board.start(mission, 7), Ok(mission));
    assert_eq!(board.admit_actor(1, mission), Ok(()));
    assert_eq!(board.complete(mission, 7), Ok(mission));
    assert_eq!(board.admit_actor(2, mission), Ok(()));
    assert_eq!(board.release(1, mission), Ok(()));
    assert_eq!(board.crew_counting(mission), 1);
}

#[test]
fn only_the_owner_renames_a_mission_that_is_there() {
    let (mut board, mission) = board_with_mission(10, 7);
    assert_eq!(board.rename_mission(mission, 8, "Stolen".to_string()), Err(ErrorKind::NotOwner));
    assert_eq!(board.rename_mission(mission + 1, 7, "Ghost".to_string()), Err(ErrorKind::NotFound));
    assert_eq!(board.get_one(mission).unwrap().name, "Mission");
    assert_eq!(board.rename_mission(mission, 7, "Renamed".to_string()), Ok(mission));
    let row = board.get_one(mission).unwrap();
    assert_eq!(row.name, "Renamed");
    assert_eq!((row.id, row.owner_id, row.created_at), (mission, 7, 1_000));
    board.remove_mission(mission, 7, 2_000).unwrap();
    assert_eq!(board.rename_mission(mission, 7, "Late".to_string()), Err(ErrorKind::NotFound));
}
