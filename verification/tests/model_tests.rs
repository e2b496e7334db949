use household_management::calendar::{Date, DateTime};
use household_management::data::models::{
    clone_members, Education, Gender, Household, HouseholdForm, HouseholdType, Member,
    MemberForm, Relationship,
};
use household_management::identity::HouseholdId;

fn sample_member() -> Member {
    Member {
        name: "李四".to_string(),
        id_number: "110101199205051235".to_string(),
        relationship: Relationship::Spouse,
        birth_date: Date::from_ymd_opt(1992, 5, 5).unwrap(),
        gender: Gender::Female,
        education: Education::Graduate,
        occupation: "教师".to_string(),
    }
}

fn sample_household() -> Household {
    Household {
        id: HouseholdId { value: 42 },
        head_name: "张三".to_string(),
        id_number: "110101199001011234".to_string(),
        address: "北京市".to_string(),
        phone: "13800138000".to_string(),
        household_type: HouseholdType::Rural,
        registration_date: DateTime::new(Date::from_ymd_opt(2024, 1, 1).unwrap(), 1, 2, 3).unwrap(),
        members: vec![sample_member()],
    }
}

#[test]
fn household_type_labels() {
    assert_eq!(HouseholdType::Urban.to_string(), "城镇户口");
    assert_eq!(HouseholdType::Rural.to_string(), "农村户口");
}

#[test]
fn household_type_reads_labels_and_falls_back_to_urban() {
    assert_eq!(HouseholdType::from_label("城镇户口"), HouseholdType::Urban);
    assert_eq!(HouseholdType::from_label("农村户口"), HouseholdType::Rural);
    assert_eq!(HouseholdType::from_label("Rural"), HouseholdType::Urban);
    assert_eq!(HouseholdType::from_label(""), HouseholdType::Urban);
}

#[test]
fn relationship_labels() {
    assert_eq!(Relationship::Head.to_string(), "户主");
    assert_eq!(Relationship::Spouse.to_string(), "配偶");
    assert_eq!(Relationship::Child.to_string(), "子女");
    assert_eq!(Relationship::Parent.to_string(), "父母");
    assert_eq!(Relationship::Other.to_string(), "其他");
}

#[test]
fn relationship_reads_labels_and_falls_back_to_other() {
    assert_eq!(Relationship::from_label("户主"), Relationship::Head);
    assert_eq!(Relationship::from_label("配偶"), Relationship::Spouse);
    assert_eq!(Relationship::from_label("子女"), Relationship::Child);
    assert_eq!(Relationship::from_label("父母"), Relationship::Parent);
    assert_eq!(Relationship::from_label("其他"), Relationship::Other);
    assert_eq!(Relationship::from_label("邻居"), Relationship::Other);
}

#[test]
fn gender_labels_and_fallback_to_male() {
    assert_eq!(Gender::Male.to_string(), "男");
    assert_eq!(Gender::Female.to_string(), "女");
    assert_eq!(Gender::from_label("男"), Gender::Male);
    assert_eq!(Gender::from_label("女"), Gender::Female);
    assert_eq!(Gender::from_label("?"), Gender::Male);
}

#[test]
fn education_labels() {
    assert_eq!(Education::Primary.to_string(), "小学");
    assert_eq!(Education::MiddleSchool.to_string(), "初中");
    assert_eq!(Education::HighSchool.to_string(), "高中");
    assert_eq!(Education::College.to_string(), "大专");
    assert_eq!(Education::University.to_string(), "本科");
    assert_eq!(Education::Graduate.to_string(), "研究生");
    assert_eq!(Education::Other.to_string(), "其他");
}

#[test]
fn education_reads_labels_and_falls_back_to_other() {
    let all = [
        Education::Primary,
        Education::MiddleSchool,
        Education::HighSchool,
        Education::College,
        Education::University,
        Education::Graduate,
        Education::Other,
    ];
    for e in all {
        assert_eq!(Education::from_label(&e.to_string()), e);
    }
    assert_eq!(Education::from_label("博士"), Education::Other);
}

#[test]
fn every_label_reads_back() {
    for t in [HouseholdType::Urban, HouseholdType::Rural] {
        assert_eq!(HouseholdType::from_label(&t.to_string()), t);
    }
    for r in [
        Relationship::Head,
        Relationship::Spouse,
        Relationship::Child,
        Relationship::Parent,
        Relationship::Other,
    ] {
        assert_eq!(Relationship::from_label(&r.to_string()), r);
    }
    for g in [Gender::Male, Gender::Female] {
        assert_eq!(Gender::from_label(&g.to_string()), g);
    }
}

#[test]
fn defaults_of_the_enumerations() {
    assert_eq!(HouseholdType::default(), HouseholdType::Urban);
    assert_eq!(Relationship::default(), Relationship::Head);
    assert_eq!(Gender::default(), Gender::Male);
    assert_eq!(Education::default(), Education::University);
}

#[test]
fn default_forms_are_empty() {
    let m = MemberForm::default();
    assert_eq!(m.name, "");
    assert_eq!(m.id_number, "");
    assert_eq!(m.relationship, Relationship::Head);
    assert_eq!((m.birth_year, m.birth_month, m.birth_day), (0, 0, 0));
    assert_eq!(m.gender, Gender::Male);
    assert_eq!(m.education, Education::University);
    assert_eq!(m.occupation, "");
    let h = HouseholdForm::default();
    assert_eq!(h.head_name, "");
    assert_eq!(h.id_number, "");
    assert_eq!(h.address, "");
    assert_eq!(h.phone, "");
    assert_eq!(h.household_type, HouseholdType::Urban);
    assert!(h.members.is_empty());
}

#[test]
fn clear_leaves_one_empty_member() {
    let mut form = HouseholdForm::from_household(&sample_household());
    form.members.push(MemberForm::default());
    form.clear();
    assert_eq!(form.head_name, "");
    assert_eq!(form.id_number, "");
    assert_eq!(form.address, "");
    assert_eq!(form.phone, "");
    assert_eq!(form.household_type, HouseholdType::Urban);
    assert_eq!(form.members.len(), 1);
    assert_eq!(form.members[0].name, "");
    assert_eq!(form.members[0].birth_year, 0);
    assert_eq!(form.members[0].relationship, Relationship::Head);
}

#[test]
fn form_from_member_spells_the_birth_date() {
    let form = MemberForm::from_member(&sample_member());
    assert_eq!(form.name, "李四");
    assert_eq!(form.id_number, "110101199205051235");
    assert_eq!(form.relationship, Relationship::Spouse);
    assert_eq!((form.birth_year, form.birth_month, form.birth_day), (1992, 5, 5));
    assert_eq!(form.gender, Gender::Female);
    assert_eq!(form.education, Education::Graduate);
    assert_eq!(form.occupation, "教师");
}

#[test]
fn member_from_form_and_back() {
    let member = MemberForm::from_member(&sample_member()).to_member().unwrap();
    let given = sample_member();
    assert_eq!(member.name, given.name);
    assert_eq!(member.id_number, given.id_number);
    assert_eq!(member.relationship, given.relationship);
    assert_eq!(member.birth_date, given.birth_date);
    assert_eq!(member.gender, given.gender);
    assert_eq!(member.education, given.education);
    assert_eq!(member.occupation, given.occupation);
}

#[test]
fn member_from_form_with_a_day_that_does_not_exist_fails() {
    let mut form = MemberForm::from_member(&sample_member());
    form.birth_month = 4;
    form.birth_day = 31;
    assert_eq!(form.to_member().err(), Some("无效的出生日期".to_string()));
}

#[test]
fn form_from_household_keeps_fields_and_member_order() {
    let mut household = sample_household();
    let mut child = sample_member();
    child.name = "张小".to_string();
    child.relationship = Relationship::Child;
    household.members.push(child);
    let form = HouseholdForm::from_household(&household);
    assert_eq!(form.head_name, "张三");
    assert_eq!(form.id_number, "110101199001011234");
    assert_eq!(form.address, "北京市");
    assert_eq!(form.phone, "13800138000");
    assert_eq!(form.household_type, HouseholdType::Rural);
    assert_eq!(form.members.len(), 2);
    assert_eq!(form.members[0].name, "李四");
    assert_eq!(form.members[1].name, "张小");
}

#[test]
fn household_from_form_keeps_identity_and_registration_date_of_an_edit() {
    let existing = sample_household();
    let mut form = HouseholdForm::from_household(&existing);
    form.head_name = "张三丰".to_string();
    let household = form.to_household(Some(&existing)).unwrap();
    assert_eq!(household.id, existing.id);
    assert_eq!(household.registration_date, existing.registration_date);
    assert_eq!(household.head_name, "张三丰");
    assert_eq!(household.household_type, HouseholdType::Rural);
    assert_eq!(household.members.len(), 1);
    assert_eq!(household.members[0].birth_date, Date::from_ymd_opt(1992, 5, 5).unwrap());
}

#[test]
fn household_from_form_gets_fresh_identities() {
    let form = HouseholdForm::from_household(&sample_household());
    let a = form.to_household(None).unwrap();
    let b = form.to_household(None).unwrap();
    assert_ne!(a.id, b.id);
    assert!(a.registration_date.date().year() >= 2024);
}

#[test]
fn household_from_form_at_a_given_moment() {
    let form = HouseholdForm::from_household(&sample_household());
    let at = DateTime::new(Date::from_ymd_opt(2020, 2, 29).unwrap(), 23, 59, 59).unwrap();
    let household = form.to_household_at(HouseholdId { value: 5 }, at).unwrap();
    assert_eq!(household.registration_date, at);
    assert_eq!(household.id, HouseholdId { value: 5 });
    assert_eq!(household.address, "北京市");
}

#[test]
fn household_from_form_with_an_impossible_birth_date_is_none() {
    let mut form = HouseholdForm::from_household(&sample_household());
    form.members.push(MemberForm::default());
    assert!(form.to_household(Some(&sample_household())).is_none());
    assert!(form.to_household(None).is_none());
}

#[test]
fn clones_keep_every_field() {
    let household = sample_household();
    let copy = household.clone();
    assert_eq!(copy.id, household.id);
    assert_eq!(copy.head_name, household.head_name);
    assert_eq!(copy.registration_date, household.registration_date);
    assert_eq!(copy.members.len(), 1);
    assert_eq!(copy.members[0].occupation, "教师");
    let members = clone_members(&household.members);
    assert_eq!(members.len(), 1);
    assert_eq!(members[0].name, "李四");
}

#[test]
fn dates_exist_as_in_the_calendar() {
    assert!(Date::from_ymd_opt(2024, 2, 29).is_some());
    assert!(Date::from_ymd_opt(2023, 2, 29).is_none());
    assert!(Date::from_ymd_opt(1900, 2, 29).is_none());
    assert!(Date::from_ymd_opt(2000, 2, 29).is_some());
    assert!(Date::from_ymd_opt(2023, 4, 31).is_none());
    assert!(Date::from_ymd_opt(2023, 0, 1).is_none());
    assert!(Date::from_ymd_opt(2023, 13, 1).is_none());
    assert!(Date::from_ymd_opt(2023, 1, 0).is_none());
    assert!(Date::from_ymd_opt(2023, 12, 31).is_some());
    assert!(Date::from_ymd_opt(262142, 12, 31).is_some());
    assert!(Date::from_ymd_opt(262143, 1, 1).is_none());
    assert!(Date::from_ymd_opt(-262143, 1, 1).is_some());
    assert!(Date::from_ymd_opt(-262144, 1, 1).is_none());
}

#[test]
fn date_parts_are_the_given_numbers() {
    let d = Date::from_ymd_opt(1985, 6, 7).unwrap();
    assert_eq!((d.year(), d.month(), d.day()), (1985, 6, 7));
}

#[test]
fn date_text_is_year_month_day() {
    assert_eq!(Date::from_ymd_opt(1985, 6, 7).unwrap().to_string(), "1985-06-07");
    assert_eq!(Date::parse("1985-06-07"), Date::from_ymd_opt(1985, 6, 7));
    assert_eq!(Date::parse("1985-6-7"), Date::from_ymd_opt(1985, 6, 7));
    assert_eq!(Date::parse("1985-02-30"), None);
    assert_eq!(Date::parse("1985/06/07"), None);
    assert_eq!(Date::parse(""), None);
}

#[test]
fn date_text_reads_back() {
    for (y, m, d) in [(1, 1, 1), (1900, 2, 28), (2024, 2, 29), (9999, 12, 31), (12345, 6, 7), (-5, 3, 4)] {
        let date = Date::from_ymd_opt(y, m, d).unwrap();
        assert_eq!(Date::parse(&date.to_string()), Some(date));
    }
}

#[test]
fn times_of_day_have_their_bounds() {
    let d = Date::from_ymd_opt(2024, 1, 1).unwrap();
    assert!(DateTime::new(d, 23, 59, 59).is_some());
    assert!(DateTime::new(d, 24, 0, 0).is_none());
    assert!(DateTime::new(d, 0, 60, 0).is_none());
    assert!(DateTime::new(d, 0, 0, 60).is_none());
    let t = DateTime::new(d, 7, 8, 9).unwrap();
    assert_eq!((t.date(), t.hour(), t.minute(), t.second()), (d, 7, 8, 9));
    let m = DateTime::midnight(d);
    assert_eq!((m.date(), m.hour(), m.minute(), m.second()), (d, 0, 0, 0));
}

#[test]
fn timestamp_text_is_date_and_time() {
    let d = Date::from_ymd_opt(2023, 6, 1).unwrap();
    let t = DateTime::new(d, 8, 30, 15).unwrap();
    assert_eq!(t.to_string(), "2023-06-01 08:30:15");
    assert_eq!(DateTime::parse("2023-06-01 08:30:15"), Some(t));
    assert_eq!(DateTime::parse("2023-06-01"), None);
    assert_eq!(DateTime::parse("2023-06-01 24:00:00"), None);
    assert_eq!(DateTime::parse("2023-06-01T08:30:15"), None);
}

#[test]
fn timestamp_text_reads_back_and_holds_a_space() {
    for (y, mo, d, h, mi, s) in [(2024, 1, 1, 0, 0, 0), (1999, 12, 31, 23, 59, 59), (10000, 2, 3, 4, 5, 6)] {
        let t = DateTime::new(Date::from_ymd_opt(y, mo, d).unwrap(), h, mi, s).unwrap();
        let text = t.to_string();
        assert!(text.contains(' '));
        assert_eq!(DateTime::parse(&text), Some(t));
    }
}

#[test]
fn the_clock_gives_a_moment_of_today() {
    let now = DateTime::now();
    let today = Date::today();
    assert!(now.date().year() >= 2024);
    assert!(today.year() >= now.date().year());
    assert!(now.hour() < 24 && now.minute() < 60 && now.second() < 60);
}

#[test]
fn identity_text_is_the_hyphenated_uuid() {
    let id = HouseholdId { value: 0xa1a2a3a4b1b2c1c2d1d2d3d4d5d6d7d8u128 };
    assert_eq!(id.to_string(), "a1a2a3a4-b1b2-c1c2-d1d2-d3d4d5d6d7d8");
    assert_eq!(HouseholdId { value: 0 }.to_string(), "00000000-0000-0000-0000-000000000000");
}

#[test]
fn identity_is_read_from_uuid_text() {
    let id = HouseholdId { value: 0xa1a2a3a4b1b2c1c2d1d2d3d4d5d6d7d8u128 };
    assert_eq!(HouseholdId::parse_str("a1a2a3a4-b1b2-c1c2-d1d2-d3d4d5d6d7d8"), Some(id));
    assert_eq!(HouseholdId::parse_str("A1A2A3A4B1B2C1C2D1D2D3D4D5D6D7D8"), Some(id));
    assert_eq!(HouseholdId::parse_str("not a uuid"), None);
    assert_eq!(HouseholdId::parse_str(""), None);
}

#[test]
fn identity_text_reads_back() {
    for value in [0u128, 1, u128::MAX, 0x550e8400e29b41d4a716446655440000] {
        let id = HouseholdId { value };
        assert_eq!(HouseholdId::parse_str(&id.to_string()), Some(id));
    }
}

#[test]
fn fresh_identities_differ() {
    assert_ne!(HouseholdId::new_v4(), HouseholdId::new_v4());
    for value in [0u128, 1, u128::MAX] {
        let other = HouseholdId { value };
        assert_ne!(HouseholdId::distinct_from(&other), other);
    }
}
