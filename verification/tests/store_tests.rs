use household_management::calendar::{Date, DateTime};
use household_management::data::database::{matching_rows, Database};
use household_management::data::manager::HouseholdStatistics;
use household_management::data::models::{
    Education, Gender, Household, HouseholdType, Member, Relationship,
};
use household_management::data::rows::{
    decode_member_rows, HouseholdRow, MemberRow, StorageError,
};
use household_management::data::statements::{
    delete_plan, insert_plan, members_query, schema_plan, search_query, update_plan, Query,
    Statement,
};
use household_management::identity::HouseholdId;

fn member(name: &str, id_number: &str, relationship: Relationship, birth: (i32, u32, u32)) -> Member {
    Member {
        name: name.to_string(),
        id_number: id_number.to_string(),
        relationship,
        birth_date: Date::from_ymd_opt(birth.0, birth.1, birth.2).unwrap(),
        gender: Gender::Female,
        education: Education::College,
        occupation: "医生".to_string(),
    }
}

fn household(id: u128, head_name: &str, day: u32, members: Vec<Member>) -> Household {
    Household {
        id: HouseholdId { value: id },
        head_name: head_name.to_string(),
        id_number: "110101199001011234".to_string(),
        address: "上海市浦东新区".to_string(),
        phone: "13800138000".to_string(),
        household_type: HouseholdType::Rural,
        registration_date: DateTime::new(Date::from_ymd_opt(2023, 6, day).unwrap(), 8, 30, 15)
            .unwrap(),
        members,
    }
}

fn same_member(a: &Member, b: &Member) -> bool {
    a.name == b.name
        && a.id_number == b.id_number
        && a.relationship == b.relationship
        && a.birth_date == b.birth_date
        && a.gender == b.gender
        && a.education == b.education
        && a.occupation == b.occupation
}

fn same_household(a: &Household, b: &Household) -> bool {
    a.id == b.id
        && a.head_name == b.head_name
        && a.id_number == b.id_number
        && a.address == b.address
        && a.phone == b.phone
        && a.household_type == b.household_type
        && a.registration_date == b.registration_date
        && a.members.len() == b.members.len()
        && a.members.iter().zip(b.members.iter()).all(|(x, y)| same_member(x, y))
}

fn two_members() -> Vec<Member> {
    vec![
        member("赵六", "110101199001011234", Relationship::Head, (1990, 1, 1)),
        member("钱七", "11010119920229123X", Relationship::Spouse, (1992, 2, 29)),
    ]
}

fn household_row(id: &str, head_name: &str, household_type: &str, date: &str) -> HouseholdRow {
    HouseholdRow {
        id: id.to_string(),
        head_name: head_name.to_string(),
        id_number: "110101199001011234".to_string(),
        address: "广州市天河区".to_string(),
        phone: "13900139000".to_string(),
        household_type: household_type.to_string(),
        registration_date: date.to_string(),
    }
}

fn member_row(relationship: &str, birth_date: &str, gender: &str, education: &str) -> MemberRow {
    MemberRow {
        name: "孙八".to_string(),
        id_number: "110101198506061236".to_string(),
        relationship: relationship.to_string(),
        birth_date: birth_date.to_string(),
        gender: gender.to_string(),
        education: education.to_string(),
        occupation: "司机".to_string(),
    }
}

const SOME_ID: &str = "550e8400-e29b-41d4-a716-446655440000";

#[test]
fn new_store_is_empty() {
    let mut db = Database::new(":memory:").unwrap();
    assert!(db.is_empty().unwrap());
    assert!(db.get_all_households().unwrap().is_empty());
}

#[test]
fn store_that_cannot_be_opened_reports_it() {
    let r = Database::new("/no/such/directory/of/the/registry/store.db");
    assert!(matches!(r, Err(StorageError::Backend(_))));
}

#[test]
fn opening_twice_keeps_what_is_stored() {
    let path = "file:opening_twice?mode=memory&cache=shared";
    let mut first = Database::new(path).unwrap();
    first.insert_household(&household(1, "赵六", 1, two_members())).unwrap();
    let mut second = Database::new(path).unwrap();
    assert!(!second.is_empty().unwrap());
    assert_eq!(second.get_all_households().unwrap().len(), 1);
}

#[test]
fn insert_then_get_all_returns_the_household() {
    let mut db = Database::new(":memory:").unwrap();
    let h = household(7, "赵六", 1, two_members());
    db.insert_household(&h).unwrap();
    assert!(!db.is_empty().unwrap());
    let all = db.get_all_households().unwrap();
    assert_eq!(all.len(), 1);
    assert!(same_household(&all[0], &h));
    assert_eq!(all[0].members[0].name, "赵六");
    assert_eq!(all[0].members[1].name, "钱七");
}

#[test]
fn insert_of_a_household_without_members() {
    let mut db = Database::new(":memory:").unwrap();
    let h = household(8, "周九", 2, vec![]);
    db.insert_household(&h).unwrap();
    let all = db.get_all_households().unwrap();
    assert_eq!(all.len(), 1);
    assert!(same_household(&all[0], &h));
}

#[test]
fn insert_of_an_identity_that_is_there_is_refused() {
    let mut db = Database::new(":memory:").unwrap();
    db.insert_household(&household(7, "赵六", 1, two_members())).unwrap();
    let again = db.insert_household(&household(7, "吴十", 2, two_members()));
    assert!(matches!(again, Err(StorageError::Backend(_))));
    let all = db.get_all_households().unwrap();
    assert_eq!(all.len(), 1);
    assert_eq!(all[0].head_name, "赵六");
    assert_eq!(all[0].members.len(), 2);
    assert_eq!(db.get_statistics().unwrap().total_members, 2);
}

#[test]
fn listing_has_the_latest_registration_first() {
    let mut db = Database::new(":memory:").unwrap();
    db.insert_household(&household(1, "甲", 10, vec![])).unwrap();
    db.insert_household(&household(2, "乙", 20, vec![])).unwrap();
    db.insert_household(&household(3, "丙", 15, vec![])).unwrap();
    let names: Vec<String> =
        db.get_all_households().unwrap().iter().map(|h| h.head_name.clone()).collect();
    assert_eq!(names, vec!["乙".to_string(), "丙".to_string(), "甲".to_string()]);
}

#[test]
fn update_replaces_fields_and_members() {
    let mut db = Database::new(":memory:").unwrap();
    db.insert_household(&household(7, "赵六", 1, two_members())).unwrap();
    db.insert_household(&household(9, "郑一", 2, two_members())).unwrap();
    let mut changed = household(
        7,
        "赵六六",
        3,
        vec![member("新人", "110101200001011234", Relationship::Child, (2000, 1, 1))],
    );
    changed.household_type = HouseholdType::Urban;
    changed.address = "深圳市".to_string();
    db.update_household(&changed).unwrap();
    let all = db.get_all_households().unwrap();
    assert_eq!(all.len(), 2);
    let found = all.iter().find(|h| h.id == changed.id).unwrap();
    assert!(same_household(found, &changed));
    let other = all.iter().find(|h| h.id == HouseholdId { value: 9 }).unwrap();
    assert_eq!(other.members.len(), 2);
    assert_eq!(db.get_statistics().unwrap().total_members, 3);
}

#[test]
fn update_of_a_household_that_is_not_there_changes_nothing() {
    let mut db = Database::new(":memory:").unwrap();
    db.insert_household(&household(1, "甲", 1, two_members())).unwrap();
    db.update_household(&household(2, "乙", 2, two_members())).unwrap();
    let all = db.get_all_households().unwrap();
    assert_eq!(all.len(), 1);
    assert_eq!(all[0].head_name, "甲");
    let statistics = db.get_statistics().unwrap();
    assert_eq!(statistics.total_households, 1);
    assert_eq!(statistics.total_members, 2);
}

#[test]
fn delete_removes_the_household_and_its_members() {
    let mut db = Database::new(":memory:").unwrap();
    db.insert_household(&household(1, "甲", 1, two_members())).unwrap();
    db.insert_household(&household(2, "乙", 2, two_members())).unwrap();
    db.delete_household(&HouseholdId { value: 1 }).unwrap();
    let all = db.get_all_households().unwrap();
    assert_eq!(all.len(), 1);
    assert_eq!(all[0].id, HouseholdId { value: 2 });
    let statistics = db.get_statistics().unwrap();
    assert_eq!(statistics.total_households, 1);
    assert_eq!(statistics.total_members, 2);
}

#[test]
fn delete_of_a_household_that_is_not_there_changes_nothing() {
    let mut db = Database::new(":memory:").unwrap();
    db.insert_household(&household(1, "甲", 1, two_members())).unwrap();
    db.delete_household(&HouseholdId { value: 5 }).unwrap();
    assert_eq!(db.get_all_households().unwrap().len(), 1);
    assert_eq!(db.get_statistics().unwrap().total_members, 2);
}

#[test]
fn delete_of_the_last_household_leaves_the_store_empty() {
    let mut db = Database::new(":memory:").unwrap();
    db.insert_household(&household(1, "甲", 1, two_members())).unwrap();
    db.delete_household(&HouseholdId { value: 1 }).unwrap();
    assert!(db.is_empty().unwrap());
    assert_eq!(db.get_statistics().unwrap().total_members, 0);
}

#[test]
fn statistics_count_households_and_members() {
    let mut db = Database::new(":memory:").unwrap();
    let mut urban = household(1, "甲", 1, two_members());
    urban.household_type = HouseholdType::Urban;
    db.insert_household(&urban).unwrap();
    db.insert_household(&household(2, "乙", 2, vec![])).unwrap();
    db.insert_household(&household(3, "丙", 3, two_members())).unwrap();
    let s = db.get_statistics().unwrap();
    assert_eq!(s.total_households, 3);
    assert_eq!(s.urban_households, 1);
    assert_eq!(s.rural_households, 2);
    assert_eq!(s.total_members, 4);
    assert_eq!(s.urban_households + s.rural_households, s.total_households);
}

#[test]
fn statistics_hold_after_a_sequence_of_changes() {
    let mut db = Database::new(":memory:").unwrap();
    let mut expected_members = 0;
    for i in 1..=5u128 {
        let mut h = household(i, "户", i as u32, two_members());
        if i % 2 == 0 {
            h.household_type = HouseholdType::Urban;
        }
        db.insert_household(&h).unwrap();
        expected_members += 2;
    }
    db.update_household(&household(2, "户", 2, vec![])).unwrap();
    expected_members -= 2;
    db.delete_household(&HouseholdId { value: 3 }).unwrap();
    expected_members -= 2;
    db.update_household(&household(99, "无", 2, two_members())).unwrap();
    let _ = db.insert_household(&household(1, "重", 1, two_members()));
    let s = db.get_statistics().unwrap();
    let all = db.get_all_households().unwrap();
    let listed: usize = all.iter().map(|h| h.members.len()).sum();
    assert_eq!(s.total_households, 4);
    assert_eq!(s.total_households, all.len());
    assert_eq!(s.urban_households + s.rural_households, s.total_households);
    assert_eq!(s.total_members, expected_members);
    assert_eq!(s.total_members, listed);
}

#[test]
fn statistics_from_counts() {
    let s = HouseholdStatistics::from_counts(5, 2, 11).unwrap();
    assert_eq!(
        (s.total_households, s.urban_households, s.rural_households, s.total_members),
        (5, 2, 3, 11)
    );
    let zero = HouseholdStatistics::from_counts(0, 0, 0).unwrap();
    assert_eq!(
        (zero.total_households, zero.urban_households, zero.rural_households, zero.total_members),
        (0, 0, 0, 0)
    );
    assert!(HouseholdStatistics::from_counts(2, 3, 0).is_none());
    assert!(HouseholdStatistics::from_counts(2, -1, 0).is_none());
    assert!(HouseholdStatistics::from_counts(-1, -1, 0).is_none());
    assert!(HouseholdStatistics::from_counts(2, 1, -1).is_none());
}

#[test]
fn search_finds_in_each_of_the_four_fields() {
    let mut db = Database::new(":memory:").unwrap();
    let mut a = household(1, "欧阳修", 1, vec![]);
    a.id_number = "320101199001011234".to_string();
    a.address = "南京市玄武区".to_string();
    a.phone = "15500000001".to_string();
    let mut b = household(2, "司马光", 2, vec![]);
    b.id_number = "440101199001011234".to_string();
    b.address = "广州市越秀区".to_string();
    b.phone = "18800000002".to_string();
    db.insert_household(&a).unwrap();
    db.insert_household(&b).unwrap();
    let ids = |q: &str, db: &mut Database| -> Vec<u128> {
        db.search_households(q).unwrap().iter().map(|h| h.id.value).collect()
    };
    assert_eq!(ids("欧阳", &mut db), vec![1]);
    assert_eq!(ids("4401", &mut db), vec![2]);
    assert_eq!(ids("玄武", &mut db), vec![1]);
    assert_eq!(ids("188", &mut db), vec![2]);
    assert_eq!(ids("199001011234", &mut db), vec![2, 1]);
    assert_eq!(ids("没有", &mut db), Vec::<u128>::new());
}

#[test]
fn search_returns_households_with_their_members() {
    let mut db = Database::new(":memory:").unwrap();
    let h = household(1, "欧阳修", 1, two_members());
    db.insert_household(&h).unwrap();
    let found = db.search_households("欧阳").unwrap();
    assert_eq!(found.len(), 1);
    assert!(same_household(&found[0], &h));
}

#[test]
fn search_does_not_look_at_members() {
    let mut db = Database::new(":memory:").unwrap();
    db.insert_household(&household(1, "欧阳修", 1, two_members())).unwrap();
    assert!(db.search_households("钱七").unwrap().is_empty());
}

#[test]
fn search_tells_upper_case_from_lower_case() {
    let mut db = Database::new(":memory:").unwrap();
    let mut h = household(1, "Alice Wang", 1, vec![]);
    h.address = "Main Street".to_string();
    db.insert_household(&h).unwrap();
    assert_eq!(db.search_households("Alice").unwrap().len(), 1);
    assert!(db.search_households("alice").unwrap().is_empty());
    assert!(db.search_households("MAIN").unwrap().is_empty());
    assert_eq!(db.search_households("Street").unwrap().len(), 1);
}

#[test]
fn search_takes_percent_and_underscore_as_they_are() {
    let mut db = Database::new(":memory:").unwrap();
    let mut plain = household(1, "甲", 1, vec![]);
    plain.address = "abc".to_string();
    let mut odd = household(2, "乙", 2, vec![]);
    odd.address = "100%_x".to_string();
    db.insert_household(&plain).unwrap();
    db.insert_household(&odd).unwrap();
    let ids = |q: &str, db: &mut Database| -> Vec<u128> {
        db.search_households(q).unwrap().iter().map(|h| h.id.value).collect()
    };
    assert_eq!(ids("%", &mut db), vec![2]);
    assert_eq!(ids("_", &mut db), vec![2]);
    assert_eq!(ids("a_c", &mut db), Vec::<u128>::new());
    assert_eq!(ids("0%_", &mut db), vec![2]);
}

#[test]
fn search_for_the_empty_text_finds_all() {
    let mut db = Database::new(":memory:").unwrap();
    db.insert_household(&household(1, "甲", 1, vec![])).unwrap();
    db.insert_household(&household(2, "乙", 2, vec![])).unwrap();
    assert_eq!(db.search_households("").unwrap().len(), 2);
}

#[test]
fn matching_rows_keeps_order_and_matches_only() {
    let rows = vec![
        household_row(SOME_ID, "张三", "城镇户口", "2024-01-01 00:00:00"),
        household_row(SOME_ID, "李四", "城镇户口", "2024-01-01 00:00:00"),
        household_row(SOME_ID, "张五", "城镇户口", "2024-01-01 00:00:00"),
    ];
    let kept = matching_rows(&rows, "张");
    assert_eq!(kept.len(), 2);
    assert_eq!(kept[0].head_name, "张三");
    assert_eq!(kept[1].head_name, "张五");
    assert_eq!(matching_rows(&rows, "广州").len(), 3);
    assert_eq!(matching_rows(&rows, "").len(), 3);
    assert!(matching_rows(&rows, "王").is_empty());
    assert!(rows[0].matches("1390"));
    assert!(rows[0].matches("1101"));
    assert!(!rows[0].matches("城镇"));
}

#[test]
fn row_of_a_household_is_text() {
    let h = household(0xa1a2a3a4b1b2c1c2d1d2d3d4d5d6d7d8, "赵六", 1, two_members());
    let row = HouseholdRow::encode(&h);
    assert_eq!(row.id, "a1a2a3a4-b1b2-c1c2-d1d2-d3d4d5d6d7d8");
    assert_eq!(row.head_name, "赵六");
    assert_eq!(row.id_number, "110101199001011234");
    assert_eq!(row.address, "上海市浦东新区");
    assert_eq!(row.phone, "13800138000");
    assert_eq!(row.household_type, "农村户口");
    assert_eq!(row.registration_date, "2023-06-01 08:30:15");
    let copy = row.clone_row();
    assert_eq!(copy.id, row.id);
    assert_eq!(copy.registration_date, row.registration_date);
}

#[test]
fn row_of_a_member_is_text() {
    let m = member("钱七", "11010119920229123X", Relationship::Spouse, (1992, 2, 29));
    let row = MemberRow::encode(&m);
    assert_eq!(row.name, "钱七");
    assert_eq!(row.id_number, "11010119920229123X");
    assert_eq!(row.relationship, "配偶");
    assert_eq!(row.birth_date, "1992-02-29");
    assert_eq!(row.gender, "女");
    assert_eq!(row.education, "大专");
    assert_eq!(row.occupation, "医生");
    let copy = row.clone_row();
    assert_eq!(copy.birth_date, "1992-02-29");
}

#[test]
fn rows_decode_to_what_they_encode() {
    let h = household(77, "赵六", 9, two_members());
    let members: Vec<Member> = h
        .members
        .iter()
        .map(|m| MemberRow::encode(m).decode().unwrap())
        .collect();
    let back = HouseholdRow::encode(&h).decode(members).unwrap();
    assert!(same_household(&back, &h));
}

#[test]
fn household_row_with_a_date_alone_means_midnight() {
    let row = household_row(SOME_ID, "孙八", "农村户口", "2020-03-04");
    let h = row.decode(vec![]).unwrap();
    let midnight = DateTime::midnight(Date::from_ymd_opt(2020, 3, 4).unwrap());
    assert_eq!(h.registration_date, midnight);
    assert_eq!(h.household_type, HouseholdType::Rural);
    assert_eq!(h.id, HouseholdId { value: 0x550e8400e29b41d4a716446655440000 });
    assert_eq!(h.head_name, "孙八");
    assert_eq!(h.address, "广州市天河区");
    assert_eq!(h.phone, "13900139000");
}

#[test]
fn household_row_with_an_unknown_type_is_urban() {
    let row = household_row(SOME_ID, "孙八", "集体户口", "2020-03-04 05:06:07");
    let h = row.decode(vec![]).unwrap();
    assert_eq!(h.household_type, HouseholdType::Urban);
    assert_eq!(
        h.registration_date,
        DateTime::new(Date::from_ymd_opt(2020, 3, 4).unwrap(), 5, 6, 7).unwrap()
    );
}

#[test]
fn household_row_with_a_bad_identity_is_an_error() {
    let row = household_row("no-uuid", "孙八", "城镇户口", "2020-03-04 05:06:07");
    assert!(matches!(row.decode(vec![]), Err(StorageError::InvalidIdentifier)));
}

#[test]
fn household_row_with_a_bad_date_is_an_error() {
    let with_space = household_row(SOME_ID, "孙八", "城镇户口", "2020-03-04 25:00:00");
    assert!(matches!(with_space.decode(vec![]), Err(StorageError::InvalidDate)));
    let without = household_row(SOME_ID, "孙八", "城镇户口", "20200304");
    assert!(matches!(without.decode(vec![]), Err(StorageError::InvalidDate)));
    let timestamp_without_space = household_row(SOME_ID, "孙八", "城镇户口", "2020-03-04T05:06:07");
    assert!(matches!(timestamp_without_space.decode(vec![]), Err(StorageError::InvalidDate)));
}

#[test]
fn household_row_reports_the_identity_before_the_date() {
    let row = household_row("no-uuid", "孙八", "城镇户口", "never");
    assert!(matches!(row.decode(vec![]), Err(StorageError::InvalidIdentifier)));
}

#[test]
fn member_row_with_unknown_labels_falls_back() {
    let m = member_row("朋友", "1985-06-06", "未知", "博士").decode().unwrap();
    assert_eq!(m.relationship, Relationship::Other);
    assert_eq!(m.gender, Gender::Male);
    assert_eq!(m.education, Education::Other);
    assert_eq!(m.birth_date, Date::from_ymd_opt(1985, 6, 6).unwrap());
    assert_eq!(m.name, "孙八");
    assert_eq!(m.occupation, "司机");
}

#[test]
fn member_row_with_a_bad_birth_date_is_an_error() {
    let row = member_row("户主", "1985-02-30", "男", "本科");
    assert!(matches!(row.decode(), Err(StorageError::InvalidBirthDate)));
}

#[test]
fn member_rows_decode_in_order_or_fail_at_the_first_bad_one() {
    let good = vec![
        member_row("户主", "1985-06-06", "男", "本科"),
        member_row("配偶", "1986-07-07", "女", "高中"),
    ];
    let members = decode_member_rows(&good).unwrap();
    assert_eq!(members.len(), 2);
    assert_eq!(members[0].relationship, Relationship::Head);
    assert_eq!(members[1].relationship, Relationship::Spouse);
    assert_eq!(members[1].education, Education::HighSchool);
    let bad = vec![
        member_row("户主", "1985-06-06", "男", "本科"),
        member_row("配偶", "yesterday", "女", "高中"),
    ];
    assert!(matches!(decode_member_rows(&bad), Err(StorageError::InvalidBirthDate)));
    assert!(decode_member_rows(&Vec::new()).unwrap().is_empty());
}

#[test]
fn errors_have_their_texts() {
    assert_eq!(
        StorageError::InvalidIdentifier.to_string(),
        "Invalid parameter name: Invalid UUID"
    );
    assert_eq!(
        StorageError::InvalidDate.to_string(),
        "Invalid parameter name: Invalid date format"
    );
    assert_eq!(
        StorageError::InvalidBirthDate.to_string(),
        "Invalid parameter name: Invalid birth date"
    );
    assert_eq!(StorageError::InconsistentCounts.to_string(), "Inconsistent row counts");
    assert_eq!(StorageError::Backend("disk full".to_string()).to_string(), "disk full");
}

#[test]
fn insert_plan_is_the_row_then_the_members() {
    let h = household(0xa1a2a3a4b1b2c1c2d1d2d3d4d5d6d7d8, "赵六", 1, two_members());
    let plan = insert_plan(&h);
    assert_eq!(plan.len(), 3);
    assert!(matches!(&plan[0], Statement::InsertHousehold(row) if row.head_name == "赵六"));
    assert!(matches!(&plan[1], Statement::InsertMember(id, row)
        if id == "a1a2a3a4-b1b2-c1c2-d1d2-d3d4d5d6d7d8" && row.name == "赵六"));
    assert!(matches!(&plan[2], Statement::InsertMember(id, row)
        if id == "a1a2a3a4-b1b2-c1c2-d1d2-d3d4d5d6d7d8" && row.name == "钱七"));
    assert_eq!(
        plan[0].params(),
        vec![
            "a1a2a3a4-b1b2-c1c2-d1d2-d3d4d5d6d7d8",
            "赵六",
            "110101199001011234",
            "上海市浦东新区",
            "13800138000",
            "农村户口",
            "2023-06-01 08:30:15",
        ]
    );
    assert_eq!(
        plan[2].params(),
        vec![
            "a1a2a3a4-b1b2-c1c2-d1d2-d3d4d5d6d7d8",
            "钱七",
            "11010119920229123X",
            "配偶",
            "1992-02-29",
            "女",
            "大专",
            "医生",
        ]
    );
    assert!(plan[0].sql().starts_with("INSERT INTO households"));
    assert!(plan[1].sql().starts_with("INSERT INTO members"));
}

#[test]
fn update_plan_overwrites_then_clears_then_adds() {
    let h = household(0xa1a2a3a4b1b2c1c2d1d2d3d4d5d6d7d8, "赵六", 1, two_members());
    let plan = update_plan(&h);
    assert_eq!(plan.len(), 4);
    assert!(matches!(&plan[0], Statement::UpdateHousehold(_)));
    assert!(matches!(&plan[1], Statement::DeleteMembers(id)
        if id == "a1a2a3a4-b1b2-c1c2-d1d2-d3d4d5d6d7d8"));
    assert!(matches!(&plan[2], Statement::InsertMember(_, row) if row.name == "赵六"));
    assert!(matches!(&plan[3], Statement::InsertMember(_, row) if row.name == "钱七"));
    assert_eq!(
        plan[0].params(),
        vec![
            "赵六",
            "110101199001011234",
            "上海市浦东新区",
            "13800138000",
            "农村户口",
            "2023-06-01 08:30:15",
            "a1a2a3a4-b1b2-c1c2-d1d2-d3d4d5d6d7d8",
        ]
    );
    assert!(plan[0].sql().starts_with("UPDATE households"));
    assert!(plan[1].sql().starts_with("DELETE FROM members"));
}

#[test]
fn delete_plan_removes_members_before_the_household() {
    let plan = delete_plan(&HouseholdId { value: 0 });
    assert_eq!(plan.len(), 2);
    assert!(matches!(&plan[0], Statement::DeleteMembers(id)
        if id == "00000000-0000-0000-0000-000000000000"));
    assert!(matches!(&plan[1], Statement::DeleteHousehold(id)
        if id == "00000000-0000-0000-0000-000000000000"));
    assert_eq!(plan[0].params(), vec!["00000000-0000-0000-0000-000000000000"]);
    assert!(plan[1].sql().starts_with("DELETE FROM households"));
}

#[test]
fn schema_plan_creates_households_before_members() {
    let plan = schema_plan();
    assert_eq!(plan.len(), 2);
    assert!(matches!(&plan[0], Statement::CreateHouseholds));
    assert!(matches!(&plan[1], Statement::CreateMembers));
    assert!(plan[0].params().is_empty());
    assert!(plan[0].sql().starts_with("CREATE TABLE IF NOT EXISTS households"));
    assert!(plan[1].sql().starts_with("CREATE TABLE IF NOT EXISTS members"));
}

#[test]
fn legacy_rows_are_read_with_fallbacks() {
    let path = "file:legacy_rows?mode=memory&cache=shared";
    let mut db = Database::new(path).unwrap();
    let raw = rusqlite::Connection::open(path).unwrap();
    raw.execute(
        "INSERT INTO households (id, head_name, id_number, address, phone, household_type, registration_date) VALUES (?1, ?2, ?3, ?4, ?5, ?6, ?7)",
        [SOME_ID, "孙八", "110101198506061236", "旧址", "", "未知类型", "2019-12-31"],
    )
    .unwrap();
    raw.execute(
        "INSERT INTO members (household_id, name, id_number, relationship, birth_date, gender, education, occupation) VALUES (?1, ?2, ?3, ?4, ?5, ?6, ?7, ?8)",
        [SOME_ID, "孙八", "110101198506061236", "表弟", "1985-06-06", "x", "y", ""],
    )
    .unwrap();
    let all = db.get_all_households().unwrap();
    assert_eq!(all.len(), 1);
    assert_eq!(all[0].household_type, HouseholdType::Urban);
    assert_eq!(
        all[0].registration_date,
        DateTime::midnight(Date::from_ymd_opt(2019, 12, 31).unwrap())
    );
    assert_eq!(all[0].members.len(), 1);
    assert_eq!(all[0].members[0].relationship, Relationship::Other);
    assert_eq!(all[0].members[0].gender, Gender::Male);
    assert_eq!(all[0].members[0].education, Education::Other);
}

#[test]
fn stored_rows_that_cannot_be_read_are_errors() {
    let path = "file:unreadable_rows?mode=memory&cache=shared";
    let mut db = Database::new(path).unwrap();
    let raw = rusqlite::Connection::open(path).unwrap();
    let insert = "INSERT INTO households (id, head_name, id_number, address, phone, household_type, registration_date) VALUES (?1, ?2, ?3, ?4, ?5, ?6, ?7)";
    raw.execute(insert, ["junk", "孙八", "1", "旧址", "", "城镇户口", "2019-12-31 00:00:00"]).unwrap();
    assert!(matches!(db.get_all_households(), Err(StorageError::InvalidIdentifier)));
    assert!(matches!(db.search_households("孙"), Err(StorageError::InvalidIdentifier)));
    raw.execute("DELETE FROM households", []).unwrap();
    raw.execute(insert, [SOME_ID, "孙八", "1", "旧址", "", "城镇户口", "someday"]).unwrap();
    assert!(matches!(db.get_all_households(), Err(StorageError::InvalidDate)));
    raw.execute("DELETE FROM households", []).unwrap();
    db.insert_household(&household(1, "甲", 1, vec![])).unwrap();
    raw.execute(
        "INSERT INTO members (household_id, name, id_number, relationship, birth_date, gender, education, occupation) VALUES (?1, ?2, ?3, ?4, ?5, ?6, ?7, ?8)",
        ["00000000-0000-0000-0000-000000000001", "孙八", "1", "户主", "1985-13-06", "男", "本科", ""],
    )
    .unwrap();
    assert!(matches!(db.get_all_households(), Err(StorageError::InvalidBirthDate)));
}

#[test]
fn a_store_without_its_relations_reports_the_database() {
    let path = "file:dropped_relations?mode=memory&cache=shared";
    let mut db = Database::new(path).unwrap();
    let raw = rusqlite::Connection::open(path).unwrap();
    raw.execute("DROP TABLE members", []).unwrap();
    raw.execute("DROP TABLE households", []).unwrap();
    assert!(matches!(db.is_empty(), Err(StorageError::Backend(_))));
    assert!(matches!(db.get_all_households(), Err(StorageError::Backend(_))));
    assert!(matches!(db.search_households("x"), Err(StorageError::Backend(_))));
    assert!(matches!(db.get_statistics(), Err(StorageError::Backend(_))));
    assert!(matches!(
        db.insert_household(&household(1, "甲", 1, vec![])),
        Err(StorageError::Backend(_))
    ));
    assert!(matches!(
        db.update_household(&household(1, "甲", 1, vec![])),
        Err(StorageError::Backend(_))
    ));
    assert!(matches!(
        db.delete_household(&HouseholdId { value: 1 }),
        Err(StorageError::Backend(_))
    ));
}

#[test]
fn insert_stops_at_the_statement_that_is_refused() {
    let path = "file:partial_insert?mode=memory&cache=shared";
    let mut db = Database::new(path).unwrap();
    let raw = rusqlite::Connection::open(path).unwrap();
    raw.execute("DROP TABLE members", []).unwrap();
    let r = db.insert_household(&household(1, "甲", 1, two_members()));
    assert!(matches!(r, Err(StorageError::Backend(_))));
    let count: i64 = raw.query_row("SELECT COUNT(*) FROM households", [], |row| row.get(0)).unwrap();
    assert_eq!(count, 1);
}

#[test]
fn queries_have_their_texts_and_values() {
    let search = search_query("张");
    assert!(matches!(&search, Query::HouseholdsLike(pattern) if pattern == "%张%"));
    assert_eq!(search.params(), vec!["%张%"]);
    assert!(search.sql().contains("head_name LIKE ?1 OR id_number LIKE ?1 OR address LIKE ?1 OR phone LIKE ?1"));
    assert!(search.sql().ends_with("ORDER BY registration_date DESC"));
    assert_eq!(search_query("").params(), vec!["%%"]);
    let members = members_query(&HouseholdId { value: 1 });
    assert_eq!(members.params(), vec!["00000000-0000-0000-0000-000000000001"]);
    assert!(members.sql().ends_with("WHERE household_id = ?1 ORDER BY id"));
    assert!(Query::AllHouseholds.params().is_empty());
    assert!(Query::AllHouseholds.sql().ends_with("FROM households ORDER BY registration_date DESC"));
    assert_eq!(Query::CountHouseholds.sql(), "SELECT COUNT(*) FROM households");
    assert_eq!(
        Query::CountUrbanHouseholds.sql(),
        "SELECT COUNT(*) FROM households WHERE household_type = '城镇户口'"
    );
    assert_eq!(Query::CountMembers.sql(), "SELECT COUNT(*) FROM members");
    assert!(Query::CountMembers.params().is_empty());
}

#[test]
fn a_second_identical_update_leaves_the_same_state() {
    let mut db = Database::new(":memory:").unwrap();
    db.insert_household(&household(7, "赵六", 1, two_members())).unwrap();
    let changed = household(
        7,
        "赵六六",
        3,
        vec![member("新人", "110101200001011234", Relationship::Child, (2000, 1, 1))],
    );
    db.update_household(&changed).unwrap();
    let once = db.get_all_households().unwrap();
    db.update_household(&changed).unwrap();
    let twice = db.get_all_households().unwrap();
    assert_eq!(once.len(), 1);
    assert_eq!(twice.len(), 1);
    assert!(same_household(&once[0], &changed));
    assert!(same_household(&twice[0], &changed));
    assert_eq!(db.get_statistics().unwrap().total_members, 1);
}

#[test]
fn update_to_fewer_or_no_members_leaves_no_residue() {
    let mut db = Database::new(":memory:").unwrap();
    db.insert_household(&household(7, "赵六", 1, two_members())).unwrap();
    db.update_household(&household(7, "赵六", 1, vec![])).unwrap();
    let all = db.get_all_households().unwrap();
    assert!(all[0].members.is_empty());
    assert_eq!(db.get_statistics().unwrap().total_members, 0);
}
