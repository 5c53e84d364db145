use std::sync::Arc;

use mission_crew::application::use_cases::mission_viewing::MissionViewingUseCase;
use mission_crew::domain::board::{listing_of, MissionBoard};
use mission_crew::domain::entities::brawler_view::BrawlerViewEntity;
use mission_crew::domain::entities::missions::MissionEntity;
use mission_crew::domain::value_objects::errors::ErrorKind;
use mission_crew::domain::value_objects::mission_filter::{contains_ignoring_case, MissionFilter};
use mission_crew::domain::value_objects::mission_statuses::MissionStatuses;

fn brawler(id: i32, username: &str) -> BrawlerViewEntity {
    BrawlerViewEntity { id, username: username.to_string() }
}

fn sample_board() -> MissionBoard {
    let mut board = MissionBoard::new(10);
    assert_eq!(board.add_mission(7, "Rescue the cat".to_string(), 300), Some(1));
    assert_eq!(board.add_mission(8, "Locate the archive".to_string(), 100), Some(2));
    assert_eq!(board.add_mission(7, "Paint the fence".to_string(), 200), Some(3));
    assert_eq!(board.add_mission(9, "Guard the bridge".to_string(), 200), Some(4));
    assert_eq!(board.add_mission(9, "Forgotten".to_string(), 250), Some(5));
    board.start(3, 7).unwrap();
    board.start(4, 9).unwrap();
    board.complete(4, 9).unwrap();
    board.admit_actor(20, 1).unwrap();
    board.admit_actor(21, 1).unwrap();
    board.admit_actor(22, 1).unwrap();
    board.admit_actor(20, 3).unwrap();
    board.admit_actor(30, 5).unwrap();
    board.remove_mission(5, 9, 400).unwrap();
    assert!(board.register_brawler(brawler(22, "vera")));
    assert!(board.register_brawler(brawler(20, "tom")));
    assert!(board.register_brawler(brawler(40, "idle")));
    board
}

fn ids(models: &[mission_crew::domain::value_objects::mission_model::MissionModel]) -> Vec<i32> {
    models.iter().map(|m| m.id).collect()
}

#[test]
fn get_one_returns_attributes_and_live_crew_count() {
    let service = MissionViewingUseCase::new(Arc::new(sample_board()));
    let model = service.get_one(1).unwrap();
    assert_eq!(model.id, 1);
    assert_eq!(model.name, "Rescue the cat");
    assert_eq!(model.status, MissionStatuses::Open);
    assert_eq!(model.owner_id, 7);
    assert_eq!(model.created_at, 300);
    assert_eq!(model.crew_count, 3);
    let model = service.get_one(4).unwrap();
    assert_eq!(model.status, MissionStatuses::Completed);
    assert_eq!(model.crew_count, 0);
}

#[test]
fn get_one_does_not_see_absent_or_deleted_missions() {
    let service = MissionViewingUseCase::new(Arc::new(sample_board()));
    assert_eq!(service.get_one(5).err(), Some(ErrorKind::NotFound));
    assert_eq!(service.get_one(6).err(), Some(ErrorKind::NotFound));
    assert_eq!(service.get_one(0).err(), Some(ErrorKind::NotFound));
    assert_eq!(service.get_one(-1).err(), Some(ErrorKind::NotFound));
}

#[test]
fn get_all_lists_newest_first_without_deleted_missions() {
    let service = MissionViewingUseCase::new(Arc::new(sample_board()));
    let models = service.get_all(&MissionFilter::any());
    assert_eq!(ids(&models), vec![1, 4, 3, 2]);
    let counts: Vec<i64> = models.iter().map(|m| m.crew_count).collect();
    assert_eq!(counts, vec![3, 0, 1, 0]);
    let times: Vec<i64> = models.iter().map(|m| m.created_at).collect();
    assert_eq!(times, vec![300, 200, 200, 100]);
}

#[test]
fn get_all_filters_by_status() {
    let service = MissionViewingUseCase::new(Arc::new(sample_board()));
    let by = |status| MissionFilter { status: Some(status), name: None };
    assert_eq!(ids(&service.get_all(&by(MissionStatuses::Open))), vec![1, 2]);
    assert_eq!(ids(&service.get_all(&by(MissionStatuses::InProgress))), vec![3]);
    assert_eq!(ids(&service.get_all(&by(MissionStatuses::Completed))), vec![4]);
    assert_eq!(ids(&service.get_all(&by(MissionStatuses::Failed))), Vec::<i32>::new());
}

#[test]
fn get_all_filters_by_part_of_the_name_whatever_the_case() {
    let service = MissionViewingUseCase::new(Arc::new(sample_board()));
    let by = |name: &str| MissionFilter { status: None, name: Some(name.to_string()) };
    assert_eq!(ids(&service.get_all(&by("cat"))), vec![1, 2]);
    assert_eq!(ids(&service.get_all(&by("CAT"))), vec![1, 2]);
    assert_eq!(ids(&service.get_all(&by("the "))), vec![1, 4, 3, 2]);
    assert_eq!(ids(&service.get_all(&by("fence"))), vec![3]);
    assert_eq!(ids(&service.get_all(&by(""))), vec![1, 4, 3, 2]);
    assert_eq!(ids(&service.get_all(&by("dragon"))), Vec::<i32>::new());
    assert_eq!(ids(&service.get_all(&by("forgotten"))), Vec::<i32>::new());
}

#[test]
fn get_all_filters_by_status_and_name_together() {
    let service = MissionViewingUseCase::new(Arc::new(sample_board()));
    let filter = MissionFilter { status: Some(MissionStatuses::Open), name: Some("archive".to_string()) };
    assert_eq!(ids(&service.get_all(&filter)), vec![2]);
    let filter = MissionFilter { status: Some(MissionStatuses::InProgress), name: Some("cat".to_string()) };
    assert_eq!(ids(&service.get_all(&filter)), Vec::<i32>::new());
}

#[test]
fn listing_of_an_empty_board_is_empty() {
    let service = MissionViewingUseCase::new(Arc::new(MissionBoard::new(10)));
    assert!(service.get_all(&MissionFilter::any()).is_empty());
    assert!(service.get_mission_count(1).is_empty());
}

#[test]
fn roster_shows_registered_members_in_order_of_registration() {
    let service = MissionViewingUseCase::new(Arc::new(sample_board()));
    let roster = service.get_mission_count(1);
    let lines: Vec<(i32, String)> = roster.iter().map(|b| (b.id, b.username.clone())).collect();
    assert_eq!(lines, vec![(22, "vera".to_string()), (20, "tom".to_string())]);
    let roster = service.get_mission_count(3);
    let lines: Vec<(i32, String)> = roster.iter().map(|b| (b.id, b.username.clone())).collect();
    assert_eq!(lines, vec![(20, "tom".to_string())]);
    assert!(service.get_mission_count(2).is_empty());
    assert!(service.get_mission_count(5).is_empty());
    assert!(service.get_mission_count(99).is_empty());
}

#[test]
fn a_brawler_is_registered_once() {
    let mut board = MissionBoard::new(10);
    assert!(board.register_brawler(brawler(1, "first")));
    assert!(!board.register_brawler(brawler(1, "second")));
    let mission = board.add_mission(7, "M".to_string(), 1).unwrap();
    board.admit_actor(1, mission).unwrap();
    let roster = board.get_mission_brawlers(mission);
    assert_eq!(roster.len(), 1);
    assert_eq!(roster[0].username, "first");
}

#[test]
fn a_failed_count_shows_as_zero_and_does_not_fail_the_listing() {
    let board = sample_board();
    let missions = board.get_all(&MissionFilter::any());
    let counts = vec![Some(3), None, Some(1)];
    let models = MissionViewingUseCase::<MissionBoard>::annotate(&missions, &counts);
    assert_eq!(ids(&models), vec![1, 4, 3, 2]);
    let shown: Vec<i64> = models.iter().map(|m| m.crew_count).collect();
    assert_eq!(shown, vec![3, 0, 1, 0]);
    let models = MissionViewingUseCase::<MissionBoard>::annotate(&missions, &Vec::new());
    let shown: Vec<i64> = models.iter().map(|m| m.crew_count).collect();
    assert_eq!(shown, vec![0, 0, 0, 0]);
    let models = MissionViewingUseCase::<MissionBoard>::annotate(&Vec::new(), &counts);
    assert!(models.is_empty());
}

#[test]
fn roster_lines_keep_identifier_and_name() {
    let brawlers = vec![brawler(3, "c"), brawler(1, "a")];
    let lines = MissionViewingUseCase::<MissionBoard>::to_roster(&brawlers);
    assert_eq!(lines.len(), 2);
    assert_eq!((lines[0].id, lines[0].username.as_str()), (3, "c"));
    assert_eq!((lines[1].id, lines[1].username.as_str()), (1, "a"));
    let model = brawler(9, "nine").to_model();
    assert_eq!((model.id, model.username.as_str()), (9, "nine"));
}

#[test]
fn to_model_copies_the_mission_and_adds_the_count() {
    let mission = MissionEntity {
        id: 12,
        name: "Twelve".to_string(),
        status: MissionStatuses::Failed,
        owner_id: 4,
        created_at: 77,
        deleted_at: None,
    };
    let model = mission.to_model(6);
    assert_eq!(model.id, 12);
    assert_eq!(model.name, "Twelve");
    assert_eq!(model.status, MissionStatuses::Failed);
    assert_eq!(model.owner_id, 4);
    assert_eq!(model.crew_count, 6);
    assert_eq!(model.created_at, 77);
    assert!(mission.is_visible());
}

#[test]
fn service_hands_out_its_repository() {
    let board = Arc::new(sample_board());
    let service = MissionViewingUseCase::new(Arc::clone(&board));
    assert!(Arc::ptr_eq(service.source(), &board));
}

#[test]
fn text_search_ignores_the_case_of_ascii_letters_only() {
    assert!(contains_ignoring_case("Hello World", "lo wo"));
    assert!(contains_ignoring_case("Hello World", "HELLO"));
    assert!(contains_ignoring_case("Hello World", "d"));
    assert!(contains_ignoring_case("Hello World", ""));
    assert!(contains_ignoring_case("", ""));
    assert!(!contains_ignoring_case("", "a"));
    assert!(!contains_ignoring_case("abc", "abcd"));
    assert!(!contains_ignoring_case("abc", "ac"));
    assert!(contains_ignoring_case("a_c", "A_C"));
    assert!(!contains_ignoring_case("abc", "a_c"));
    assert!(!contains_ignoring_case("abc", "%"));
    assert!(contains_ignoring_case("Ärger", "ärger") == false);
    assert!(contains_ignoring_case("Ärger", "RGER"));
    assert!(contains_ignoring_case("[x]", "[X]"));
    assert!(!contains_ignoring_case("@", "`"));
}

#[test]
fn missions_created_at_the_same_time_list_the_later_one_first() {
    let mut board = MissionBoard::new(10);
    for _ in 0..4 {
        board.add_mission(7, "Same".to_string(), 50).unwrap();
    }
    board.add_mission(7, "Older".to_string(), 10).unwrap();
    board.add_mission(7, "Newer".to_string(), 90).unwrap();
    let listed: Vec<i32> = board.get_all(&MissionFilter::any()).iter().map(|m| m.id).collect();
    assert_eq!(listed, vec![6, 4, 3, 2, 1, 5]);
}

#[test]
fn listing_of_rows_drops_deleted_and_filtered_rows_and_keeps_the_order() {
    let row = |id: i32, name: &str, status: MissionStatuses, deleted_at: Option<i64>| MissionEntity {
        id,
        name: name.to_string(),
        status,
        owner_id: 1,
        created_at: 0,
        deleted_at,
    };
    let rows = vec![
        row(4, "delta", MissionStatuses::Open, None),
        row(3, "gamma", MissionStatuses::Open, Some(9)),
        row(2, "beta", MissionStatuses::Failed, None),
        row(1, "alpha", MissionStatuses::Open, None),
    ];
    let shown: Vec<i32> = listing_of(&rows, &MissionFilter::any()).iter().map(|m| m.id).collect();
    assert_eq!(shown, vec![4, 2, 1]);
    let open = MissionFilter { status: Some(MissionStatuses::Open), name: Some("A".to_string()) };
    let shown: Vec<i32> = listing_of(&rows, &open).iter().map(|m| m.id).collect();
    assert_eq!(shown, vec![4, 1]);
    assert!(listing_of(&Vec::new(), &open).is_empty());
}

#[test]
fn roster_has_one_line_per_member_when_every_member_is_registered() {
    let mut board = MissionBoard::new(10);
    let mission = board.add_mission(7, "M".to_string(), 1).unwrap();
    for id in [5, 3, 9, 4] {
        assert!(board.register_brawler(brawler(id, "name")));
    }
    for id in [9, 3, 5] {
        board.admit_actor(id, mission).unwrap();
    }
    let roster: Vec<i32> = board.get_mission_brawlers(mission).iter().map(|b| b.id).collect();
    assert_eq!(roster, vec![5, 3, 9]);
    assert_eq!(roster.len() as i64, board.crew_counting(mission));
    board.release(3, mission).unwrap();
    let roster: Vec<i32> = board.get_mission_brawlers(mission).iter().map(|b| b.id).collect();
    assert_eq!(roster, vec![5, 9]);
    assert_eq!(roster.len() as i64, board.crew_counting(mission));
}

#[test]
fn a_member_who_was_never_registered_counts_in_the_crew_and_has_no_line() {
    let mut board = MissionBoard::new(10);
    let mission = board.add_mission(7, "M".to_string(), 1).unwrap();
    assert!(board.register_brawler(brawler(1, "one")));
    board.admit_actor(1, mission).unwrap();
    board.admit_actor(2, mission).unwrap();
    assert_eq!(board.crew_counting(mission), 2);
    assert!(board.is_member(2, mission));
    let service = MissionViewingUseCase::new(Arc::new(board));
    let lines: Vec<i32> = service.get_mission_count(mission).iter().map(|b| b.id).collect();
    assert_eq!(lines, vec![1]);
    assert_eq!(service.get_one(mission).unwrap().crew_count, 2);
}
