use mission_crew::domain::board::MissionBoard;
use mission_crew::domain::lifecycle::{check_owner, plan, StatusWrite};
use mission_crew::domain::entities::missions::MissionEntity;
use mission_crew::domain::value_objects::errors::{AdmitError, ErrorKind, TransitionError};
use mission_crew::domain::value_objects::mission_statuses::{MissionStatuses, MissionTransition};

const ALL_STATUSES: [MissionStatuses; 4] = [
    MissionStatuses::Open,
    MissionStatuses::InProgress,
    MissionStatuses::Completed,
    MissionStatuses::Failed,
];

const ALL_EDGES: [MissionTransition; 3] =
    [MissionTransition::Start, MissionTransition::Complete, MissionTransition::Fail];

fn mission_in(status: MissionStatuses) -> MissionEntity {
    MissionEntity {
        id: 5,
        name: "Five".to_string(),
        status,
        owner_id: 7,
        created_at: 100,
        deleted_at: None,
    }
}

fn board_in(status: MissionStatuses) -> (MissionBoard, i32) {
    let mut board = MissionBoard::new(10);
    let mission = board.add_mission(7, "Mission".to_string(), 1_000).unwrap();
    match status {
        MissionStatuses::Open => {}
        MissionStatuses::InProgress => {
            board.start(mission, 7).unwrap();
        }
        MissionStatuses::Completed => {
            board.start(mission, 7).unwrap();
            board.complete(mission, 7).unwrap();
        }
        MissionStatuses::Failed => {
            board.start(mission, 7).unwrap();
            board.fail(mission, 7).unwrap();
        }
    }
    assert_eq!(board.get_one(mission).unwrap().status, status);
    (board, mission)
}

#[test]
fn new_mission_is_open() {
    assert_eq!(MissionStatuses::default(), MissionStatuses::Open);
    let (board, mission) = board_in(MissionStatuses::Open);
    let row = board.get_one(mission).unwrap();
    assert_eq!(row.status, MissionStatuses::Open);
    assert_eq!(row.owner_id, 7);
    assert_eq!(row.id, mission);
    assert_eq!(row.created_at, 1_000);
    assert_eq!(row.deleted_at, None);
}

#[test]
fn legal_edges_are_exactly_three() {
    for from in ALL_STATUSES {
        for to in ALL_STATUSES {
            let legal = matches!(
                (from, to),
                (MissionStatuses::Open, MissionStatuses::InProgress)
                    | (MissionStatuses::InProgress, MissionStatuses::Completed)
                    | (MissionStatuses::InProgress, MissionStatuses::Failed)
            );
            assert_eq!(from.can_become(to), legal);
        }
    }
    assert_eq!(MissionTransition::Start.expected(), MissionStatuses::Open);
    assert_eq!(MissionTransition::Start.outcome(), MissionStatuses::InProgress);
    assert_eq!(MissionTransition::Complete.expected(), MissionStatuses::InProgress);
    assert_eq!(MissionTransition::Complete.outcome(), MissionStatuses::Completed);
    assert_eq!(MissionTransition::Fail.expected(), MissionStatuses::InProgress);
    assert_eq!(MissionTransition::Fail.outcome(), MissionStatuses::Failed);
}

#[test]
fn status_names() {
    assert_eq!(MissionStatuses::Open.to_string(), "Open");
    assert_eq!(MissionStatuses::InProgress.to_string(), "InProgress");
    assert_eq!(MissionStatuses::Completed.to_string(), "Completed");
    assert_eq!(MissionStatuses::Failed.to_string(), "Failed");
}

#[test]
fn from_open_complete_and_fail_are_illegal() {
    let (mut board, mission) = board_in(MissionStatuses::Open);
    assert_eq!(board.complete(mission, 7), Err(TransitionError::IllegalTransition));
    assert_eq!(board.fail(mission, 7), Err(TransitionError::IllegalTransition));
    assert_eq!(board.get_one(mission).unwrap().status, MissionStatuses::Open);
    assert_eq!(board.start(mission, 7), Ok(mission));
}

#[test]
fn from_in_progress_start_is_illegal() {
    let (mut board, mission) = board_in(MissionStatuses::InProgress);
    assert_eq!(board.start(mission, 7), Err(TransitionError::IllegalTransition));
    assert_eq!(board.get_one(mission).unwrap().status, MissionStatuses::InProgress);
}

#[test]
fn from_terminal_states_every_transition_is_illegal() {
    for status in [MissionStatuses::Completed, MissionStatuses::Failed] {
        for edge in ALL_EDGES {
            let (mut board, mission) = board_in(status);
            assert_eq!(board.transition(mission, 7, edge), Err(TransitionError::IllegalTransition));
            assert_eq!(board.get_one(mission).unwrap().status, status);
        }
    }
}

#[test]
fn both_paths_of_the_lifecycle() {
    let (mut board, mission) = board_in(MissionStatuses::Open);
    assert_eq!(board.start(mission, 7), Ok(mission));
    assert_eq!(board.complete(mission, 7), Ok(mission));
    assert_eq!(board.get_one(mission).unwrap().status, MissionStatuses::Completed);
    let (mut board, mission) = board_in(MissionStatuses::Open);
    assert_eq!(board.start(mission, 7), Ok(mission));
    assert_eq!(board.fail(mission, 7), Ok(mission));
    assert_eq!(board.get_one(mission).unwrap().status, MissionStatuses::Failed);
}

#[test]
fn anyone_but_the_owner_is_not_owner_whatever_the_status() {
    for status in ALL_STATUSES {
        for edge in ALL_EDGES {
            let (mut board, mission) = board_in(status);
            assert_eq!(board.transition(mission, 8, edge), Err(TransitionError::NotOwner));
            assert_eq!(board.plan(mission, 8, edge), Err(TransitionError::NotOwner));
            assert_eq!(
                board.commit(StatusWrite { mission_id: mission, requested_by: 8, edge }),
                Err(TransitionError::NotOwner)
            );
            assert_eq!(board.get_one(mission).unwrap().status, status);
        }
    }
}

#[test]
fn a_crew_member_is_not_the_owner() {
    let (mut board, mission) = board_in(MissionStatuses::Open);
    assert_eq!(board.admit_actor(1, mission), Ok(()));
    assert_eq!(board.start(mission, 1), Err(TransitionError::NotOwner));
}

#[test]
fn absent_and_deleted_missions_are_not_found() {
    let (mut board, mission) = board_in(MissionStatuses::Open);
    for edge in ALL_EDGES {
        assert_eq!(board.transition(mission + 1, 7, edge), Err(TransitionError::MissionNotFound));
    }
    board.remove_mission(mission, 7, 2_000).unwrap();
    for edge in ALL_EDGES {
        assert_eq!(board.transition(mission, 7, edge), Err(TransitionError::MissionNotFound));
        assert_eq!(board.transition(mission, 8, edge), Err(TransitionError::MissionNotFound));
        assert_eq!(
            board.commit(StatusWrite { mission_id: mission, requested_by: 7, edge }),
            Err(TransitionError::MissionNotFound)
        );
    }
}

#[test]
fn two_starts_one_after_the_other() {
    let (mut board, mission) = board_in(MissionStatuses::Open);
    assert_eq!(board.start(mission, 7), Ok(mission));
    assert_eq!(board.start(mission, 7), Err(TransitionError::IllegalTransition));
    assert_eq!(board.get_one(mission).unwrap().status, MissionStatuses::InProgress);
}

#[test]
fn two_starts_that_both_read_before_either_writes() {
    let (mut board, mission) = board_in(MissionStatuses::Open);
    let first = board.plan(mission, 7, MissionTransition::Start).unwrap();
    let second = board.plan(mission, 7, MissionTransition::Start).unwrap();
    assert_eq!(first, StatusWrite { mission_id: mission, requested_by: 7, edge: MissionTransition::Start });
    assert_eq!(first, second);
    assert_eq!(board.commit(second), Ok(mission));
    assert_eq!(board.commit(first), Err(TransitionError::ConcurrentModification));
    assert_eq!(board.get_one(mission).unwrap().status, MissionStatuses::InProgress);
}

#[test]
fn complete_and_fail_race_for_the_same_mission() {
    let (mut board, mission) = board_in(MissionStatuses::InProgress);
    let complete = board.plan(mission, 7, MissionTransition::Complete).unwrap();
    let fail = board.plan(mission, 7, MissionTransition::Fail).unwrap();
    assert_eq!(board.commit(fail), Ok(mission));
    assert_eq!(board.commit(complete), Err(TransitionError::ConcurrentModification));
    assert_eq!(board.get_one(mission).unwrap().status, MissionStatuses::Failed);
}

#[test]
fn plan_decides_from_the_mission_that_was_read() {
    assert_eq!(plan(None, 7, MissionTransition::Start), Err(TransitionError::MissionNotFound));
    let open = mission_in(MissionStatuses::Open);
    assert_eq!(
        plan(Some(&open), 7, MissionTransition::Start),
        Ok(StatusWrite { mission_id: 5, requested_by: 7, edge: MissionTransition::Start })
    );
    assert_eq!(plan(Some(&open), 8, MissionTransition::Start), Err(TransitionError::NotOwner));
    assert_eq!(plan(Some(&open), 8, MissionTransition::Fail), Err(TransitionError::NotOwner));
    assert_eq!(plan(Some(&open), 7, MissionTransition::Fail), Err(TransitionError::IllegalTransition));
    let mut gone = mission_in(MissionStatuses::Open);
    gone.deleted_at = Some(200);
    assert_eq!(plan(Some(&gone), 7, MissionTransition::Start), Err(TransitionError::MissionNotFound));
    assert_eq!(plan(Some(&gone), 8, MissionTransition::Start), Err(TransitionError::MissionNotFound));
}

#[test]
fn scenario_full_crew_then_lifecycle() {
    let mut board = MissionBoard::new(10);
    let m = board.add_mission(7, "M".to_string(), 1).unwrap();
    for i in 1..=10 {
        assert_eq!(board.admit_actor(i, m), Ok(()));
    }
    assert_eq!(board.crew_counting(m), 10);
    assert_eq!(board.admit_actor(11, m), Err(AdmitError::CapacityExceeded));
    assert_eq!(board.start(m, 7), Ok(m));
    assert_eq!(board.get_one(m).unwrap().status, MissionStatuses::InProgress);
    assert_eq!(board.complete(m, 7), Ok(m));
    assert_eq!(board.get_one(m).unwrap().status, MissionStatuses::Completed);
    assert_eq!(board.fail(m, 7), Err(TransitionError::IllegalTransition));
    assert_eq!(board.get_one(m).unwrap().status, MissionStatuses::Completed);
    assert_eq!(board.crew_counting(m), 10);
}

#[test]
fn status_is_read_back_from_its_name() {
    for status in ALL_STATUSES {
        assert_eq!(MissionStatuses::from_str(&status.to_string()), Some(status));
    }
    for text in ["", "open", "OPEN", "In Progress", "Done", " Open"] {
        assert_eq!(MissionStatuses::from_str(text), None);
    }
}

#[test]
fn a_write_that_wrote_no_row_lost_the_race() {
    let write = StatusWrite { mission_id: 9, requested_by: 7, edge: MissionTransition::Complete };
    assert_eq!(write.conclude(true), Ok(9));
    assert_eq!(write.conclude(false), Err(TransitionError::ConcurrentModification));
}

#[test]
fn owner_check_comes_after_the_mission_is_found() {
    let open = mission_in(MissionStatuses::Completed);
    assert_eq!(check_owner(Some(&open), 7), Ok(()));
    assert_eq!(check_owner(Some(&open), 8), Err(ErrorKind::NotOwner));
    assert_eq!(check_owner(None, 7), Err(ErrorKind::NotFound));
    let mut gone = mission_in(MissionStatuses::Open);
    gone.deleted_at = Some(1);
    assert_eq!(check_owner(Some(&gone), 7), Err(ErrorKind::NotFound));
    assert_eq!(check_owner(Some(&gone), 8), Err(ErrorKind::NotFound));
}
