use household_management::app::{HouseholdApp, UiState};
use household_management::calendar::{Date, DateTime};
use household_management::data::cache::{find_position, keyed_households, HouseholdCache};
use household_management::data::manager::HouseholdManager;
use household_management::data::samples::sample_households;
use household_management::data::search::{contains_id, positions_of_found};
use household_management::data::models::{
    Education, Gender, Household, HouseholdType, Member, Relationship,
};
use household_management::data::rows::StorageError;
use household_management::identity::HouseholdId;

fn plain(id: u128, head_name: &str, day: u32, members: usize) -> Household {
    let member = Member {
        name: "成员".to_string(),
        id_number: "110101199001011234".to_string(),
        relationship: Relationship::Other,
        birth_date: Date::from_ymd_opt(2001, 2, 3).unwrap(),
        gender: Gender::Male,
        education: Education::Primary,
        occupation: String::new(),
    };
    Household {
        id: HouseholdId { value: id },
        head_name: head_name.to_string(),
        id_number: "110101199001011234".to_string(),
        address: "某地".to_string(),
        phone: "13800138000".to_string(),
        household_type: HouseholdType::Urban,
        registration_date: DateTime::new(Date::from_ymd_opt(2022, 3, day).unwrap(), 0, 0, 0)
            .unwrap(),
        members: (0..members).map(|_| member.clone()).collect(),
    }
}

fn names(households: &[Household]) -> Vec<String> {
    households.iter().map(|h| h.head_name.clone()).collect()
}

#[test]
fn end_to_end_seed_count_search() {
    let mut manager = HouseholdManager::open(":memory:").unwrap();
    assert!(manager.is_empty().unwrap());
    manager.add_sample_data().unwrap();
    assert!(!manager.is_empty().unwrap());
    assert_eq!(manager.count().unwrap(), 2);
    let all = manager.get_households().unwrap();
    let expected: Vec<usize> =
        (0..all.len()).filter(|i| all[*i].head_name.contains('张')).collect();
    assert_eq!(expected.len(), 1);
    assert_eq!(manager.search("张").unwrap(), expected);
    let found = manager.get_household(expected[0]).unwrap().unwrap();
    assert_eq!(found.head_name, "张三");
}

#[test]
fn sample_households_are_the_two_fixtures() {
    let (first, second) = sample_households(HouseholdId { value: 1 }, HouseholdId { value: 2 });
    assert_eq!(first.id, HouseholdId { value: 1 });
    assert_eq!(first.head_name, "张三");
    assert_eq!(first.id_number, "110101199001011234");
    assert_eq!(first.address, "北京市朝阳区XXX街道XXX号");
    assert_eq!(first.phone, "13800138000");
    assert_eq!(first.household_type, HouseholdType::Urban);
    assert_eq!(
        first.registration_date,
        DateTime::midnight(Date::from_ymd_opt(2024, 1, 1).unwrap())
    );
    assert_eq!(first.members.len(), 2);
    assert_eq!(first.members[0].name, "张三");
    assert_eq!(first.members[0].relationship, Relationship::Head);
    assert_eq!(first.members[0].birth_date, Date::from_ymd_opt(1990, 1, 1).unwrap());
    assert_eq!(first.members[0].gender, Gender::Male);
    assert_eq!(first.members[0].education, Education::University);
    assert_eq!(first.members[0].occupation, "工程师");
    assert_eq!(first.members[1].name, "李四");
    assert_eq!(first.members[1].id_number, "110101199205051235");
    assert_eq!(first.members[1].relationship, Relationship::Spouse);
    assert_eq!(first.members[1].birth_date, Date::from_ymd_opt(1992, 5, 5).unwrap());
    assert_eq!(first.members[1].gender, Gender::Female);
    assert_eq!(first.members[1].occupation, "教师");
    assert_eq!(second.id, HouseholdId { value: 2 });
    assert_eq!(second.head_name, "王五");
    assert_eq!(second.id_number, "110101198506061236");
    assert_eq!(second.address, "北京市海淀区YYY街道YYY号");
    assert_eq!(second.phone, "13900139000");
    assert_eq!(second.household_type, HouseholdType::Rural);
    assert_eq!(second.members.len(), 1);
    assert_eq!(second.members[0].name, "王五");
    assert_eq!(second.members[0].birth_date, Date::from_ymd_opt(1985, 6, 6).unwrap());
    assert_eq!(second.members[0].education, Education::HighSchool);
    assert_eq!(second.members[0].occupation, "农民");
}

#[test]
fn sample_data_is_stored_with_members() {
    let mut manager = HouseholdManager::open(":memory:").unwrap();
    manager.add_sample_data().unwrap();
    let seeded = manager.get_households().unwrap();
    assert_eq!(seeded.len(), 2);
    assert_ne!(seeded[0].id, seeded[1].id);
    let statistics = manager.get_statistics().unwrap();
    assert_eq!(statistics.total_households, 2);
    assert_eq!(statistics.urban_households, 1);
    assert_eq!(statistics.rural_households, 1);
    assert_eq!(statistics.total_members, 3);
}

#[test]
fn listing_follows_the_store() {
    let mut manager = HouseholdManager::open(":memory:").unwrap();
    manager.add_household(plain(1, "甲", 1, 1)).unwrap();
    manager.add_household(plain(2, "乙", 3, 2)).unwrap();
    manager.add_household(plain(3, "丙", 2, 0)).unwrap();
    let all = manager.get_households().unwrap();
    assert_eq!(names(&all), vec!["乙", "丙", "甲"]);
    assert_eq!(all[0].members.len(), 2);
    assert_eq!(manager.count().unwrap(), 3);
}

#[test]
fn positions_are_those_of_the_listing() {
    let mut manager = HouseholdManager::open(":memory:").unwrap();
    manager.add_household(plain(1, "甲", 1, 0)).unwrap();
    manager.add_household(plain(2, "乙", 3, 0)).unwrap();
    let all = manager.get_households().unwrap();
    for (i, h) in all.iter().enumerate() {
        let at = manager.get_household(i).unwrap().unwrap();
        assert_eq!(at.id, h.id);
    }
    assert!(manager.get_household(2).unwrap().is_none());
    assert!(manager.get_household(usize::MAX).unwrap().is_none());
}

#[test]
fn search_for_nothing_gives_every_position() {
    let mut manager = HouseholdManager::open(":memory:").unwrap();
    assert_eq!(manager.search("").unwrap(), Vec::<usize>::new());
    manager.add_household(plain(1, "甲", 1, 0)).unwrap();
    manager.add_household(plain(2, "乙", 3, 0)).unwrap();
    manager.add_household(plain(3, "丙", 2, 0)).unwrap();
    let all = manager.get_households().unwrap();
    assert_eq!(manager.search("").unwrap(), (0..all.len()).collect::<Vec<usize>>());
}

#[test]
fn search_gives_positions_in_the_full_listing() {
    let mut manager = HouseholdManager::open(":memory:").unwrap();
    manager.add_household(plain(1, "张一", 1, 0)).unwrap();
    manager.add_household(plain(2, "李二", 4, 0)).unwrap();
    manager.add_household(plain(3, "张三", 3, 0)).unwrap();
    manager.add_household(plain(4, "王四", 2, 0)).unwrap();
    let all = manager.get_households().unwrap();
    assert_eq!(names(&all), vec!["李二", "张三", "王四", "张一"]);
    assert_eq!(manager.search("张").unwrap(), vec![1, 3]);
    assert_eq!(manager.search("王").unwrap(), vec![2]);
    assert_eq!(manager.search("某地").unwrap(), vec![0, 1, 2, 3]);
    assert_eq!(manager.search("无").unwrap(), Vec::<usize>::new());
    let expected: Vec<usize> =
        (0..all.len()).filter(|i| all[*i].head_name.contains("张")).collect();
    assert_eq!(manager.search("张").unwrap(), expected);
}

#[test]
fn changes_show_at_the_next_read() {
    let mut manager = HouseholdManager::open(":memory:").unwrap();
    manager.add_household(plain(1, "甲", 1, 1)).unwrap();
    assert_eq!(manager.count().unwrap(), 1);
    manager.add_household(plain(2, "乙", 2, 1)).unwrap();
    assert_eq!(manager.count().unwrap(), 2);
    let mut changed = plain(1, "甲改", 1, 3);
    changed.household_type = HouseholdType::Rural;
    manager.update_household(changed).unwrap();
    let all = manager.get_households().unwrap();
    let found = all.iter().find(|h| h.id == HouseholdId { value: 1 }).unwrap();
    assert_eq!(found.head_name, "甲改");
    assert_eq!(found.members.len(), 3);
    assert_eq!(found.household_type, HouseholdType::Rural);
    manager.remove_household(&HouseholdId { value: 1 }).unwrap();
    let all = manager.get_households().unwrap();
    assert_eq!(names(&all), vec!["乙"]);
    assert_eq!(manager.get_statistics().unwrap().total_members, 1);
}

#[test]
fn mutation_errors_reach_the_caller() {
    let mut manager = HouseholdManager::open(":memory:").unwrap();
    manager.add_household(plain(1, "甲", 1, 0)).unwrap();
    let again = manager.add_household(plain(1, "乙", 1, 0));
    assert!(matches!(again, Err(StorageError::Backend(_))));
    assert_eq!(manager.count().unwrap(), 1);
}

#[test]
fn a_store_that_fails_on_a_read_shows_as_empty() {
    let path = "file:failing_refresh?mode=memory&cache=shared";
    let mut manager = HouseholdManager::open(path).unwrap();
    manager.add_household(plain(1, "甲", 1, 1)).unwrap();
    assert_eq!(manager.count().unwrap(), 1);
    let raw = rusqlite::Connection::open(path).unwrap();
    raw.execute("DROP TABLE members", []).unwrap();
    assert_eq!(manager.count().unwrap(), 1);
    let _ = manager.remove_household(&HouseholdId { value: 9 });
    assert_eq!(manager.count().unwrap(), 0);
    assert!(manager.get_households().unwrap().is_empty());
    assert!(manager.get_household(0).unwrap().is_none());
    assert_eq!(manager.search("").unwrap(), Vec::<usize>::new());
    assert!(matches!(manager.search("甲"), Err(StorageError::Backend(_))));
    assert!(matches!(manager.get_statistics(), Err(StorageError::Backend(_))));
}

#[test]
fn keyed_listing_files_each_identity_once() {
    let listing = vec![
        plain(1, "甲", 1, 0),
        plain(2, "乙", 2, 0),
        plain(1, "甲后", 3, 0),
        plain(3, "丙", 4, 0),
        plain(2, "乙后", 5, 0),
    ];
    let keyed = keyed_households(&listing);
    assert_eq!(names(&keyed), vec!["甲后", "乙后", "丙"]);
    let distinct = vec![plain(1, "甲", 1, 0), plain(2, "乙", 2, 0)];
    assert_eq!(names(&keyed_households(&distinct)), vec!["甲", "乙"]);
    assert!(keyed_households(&Vec::new()).is_empty());
}

#[test]
fn positions_are_found_by_identity() {
    let all = vec![plain(1, "甲", 1, 0), plain(2, "乙", 2, 0), plain(3, "丙", 3, 0)];
    let found = vec![plain(3, "别名", 1, 0), plain(1, "另名", 1, 0), plain(8, "无", 1, 0)];
    assert_eq!(positions_of_found(&all, &found), vec![0, 2]);
    assert_eq!(positions_of_found(&all, &Vec::new()), Vec::<usize>::new());
    assert_eq!(positions_of_found(&Vec::new(), &found), Vec::<usize>::new());
    assert_eq!(find_position(&all, &HouseholdId { value: 2 }), Some(1));
    assert_eq!(find_position(&all, &HouseholdId { value: 7 }), None);
    assert!(contains_id(&all, &HouseholdId { value: 3 }));
    assert!(!contains_id(&all, &HouseholdId { value: 4 }));
}

#[test]
fn cache_fills_and_is_marked() {
    let mut cache = HouseholdCache::new();
    assert!(cache.is_dirty());
    assert_eq!(cache.len(), 0);
    cache.fill(Ok(vec![plain(1, "甲", 1, 0), plain(1, "甲后", 2, 0), plain(2, "乙", 3, 0)]));
    assert!(!cache.is_dirty());
    assert_eq!(cache.len(), 2);
    assert_eq!(names(&cache.to_vec()), vec!["甲后", "乙"]);
    assert_eq!(cache.get(1).unwrap().head_name, "乙");
    assert!(cache.get(2).is_none());
    assert_eq!(cache.positions_of(&vec![plain(2, "x", 1, 0)]), vec![1]);
    cache.invalidate();
    assert!(cache.is_dirty());
    assert_eq!(cache.len(), 2);
    cache.fill(Err(StorageError::InvalidDate));
    assert!(!cache.is_dirty());
    assert_eq!(cache.len(), 0);
}

#[test]
fn window_state_starts_empty() {
    let state = UiState::default();
    assert_eq!(state.selected_household, None);
    assert!(!state.show_add_dialog);
    assert!(!state.show_edit_dialog);
    assert!(!state.show_error_dialog);
    assert_eq!(state.error_message, "");
    assert_eq!(state.search_query, "");
    assert!(state.filtered_households.is_empty());
    assert!(state.edit_form.members.is_empty());
    assert_eq!(state.edit_form.head_name, "");
}

#[test]
fn application_seeds_an_empty_store_and_shows_all() {
    let mut app = HouseholdApp::open(":memory:").unwrap();
    assert_eq!(app.ui_state.filtered_households, vec![0, 1]);
    assert_eq!(app.get_households().unwrap().len(), 2);
    assert_eq!(app.household_manager.get_statistics().unwrap().total_members, 3);
}

#[test]
fn application_does_not_seed_a_store_that_holds_households() {
    let path = "file:seeded_once?mode=memory&cache=shared";
    let mut manager = HouseholdManager::open(path).unwrap();
    manager.add_household(plain(1, "甲", 1, 0)).unwrap();
    let mut app = HouseholdApp::open(path).unwrap();
    assert_eq!(app.ui_state.filtered_households, vec![0]);
    assert_eq!(names(&app.get_households().unwrap()), vec!["甲"]);
}

#[test]
fn application_filters_anew_after_each_change() {
    let mut app = HouseholdApp::open(":memory:").unwrap();
    app.ui_state.search_query = "赵".to_string();
    app.update_filtered_households().unwrap();
    assert!(app.ui_state.filtered_households.is_empty());
    let mut added = plain(5, "赵六", 1, 1);
    added.registration_date =
        DateTime::new(Date::from_ymd_opt(2025, 1, 1).unwrap(), 0, 0, 0).unwrap();
    app.add_household(added).unwrap();
    assert_eq!(app.ui_state.filtered_households, vec![0]);
    assert_eq!(app.get_household(0).unwrap().unwrap().head_name, "赵六");
    app.update_household(plain(5, "钱六", 1, 1)).unwrap();
    assert!(app.ui_state.filtered_households.is_empty());
    app.ui_state.search_query = String::new();
    app.remove_household(&HouseholdId { value: 5 }).unwrap();
    assert_eq!(app.ui_state.filtered_households, vec![0, 1]);
    assert_eq!(app.ui_state.search_query, "");
}
