use household_management::calendar::{Date, DateTime};
use household_management::data::models::{
    Education, Gender, Household, HouseholdType, Member, Relationship,
};
use household_management::identity::HouseholdId;
use household_management::text::{integer_text, is_blank, same_text, trimmed};
use household_management::utils::date::DateUtils;
use household_management::utils::export::ExportUtils;
use household_management::utils::format::{
    format_address_truncated, format_count_chinese, format_id_number_masked, format_name,
    format_phone_masked,
};

fn person(name: &str, birth_year: i32, occupation: &str) -> Member {
    Member {
        name: name.to_string(),
        id_number: "110101199001011234".to_string(),
        relationship: Relationship::Child,
        birth_date: Date::from_ymd_opt(birth_year, 3, 4).unwrap(),
        gender: Gender::Female,
        education: Education::MiddleSchool,
        occupation: occupation.to_string(),
    }
}

fn home(head_name: &str, address: &str, household_type: HouseholdType, members: Vec<Member>) -> Household {
    Household {
        id: HouseholdId { value: 1 },
        head_name: head_name.to_string(),
        id_number: "110101199001011234".to_string(),
        address: address.to_string(),
        phone: "13800138000".to_string(),
        household_type,
        registration_date: DateTime::new(Date::from_ymd_opt(2024, 5, 6).unwrap(), 7, 8, 9).unwrap(),
        members,
    }
}

#[test]
fn id_number_is_masked_in_the_middle() {
    assert_eq!(format_id_number_masked("110101199001011234"), "110101****1234");
    assert_eq!(format_id_number_masked("11010119900101123X"), "110101****123X");
}

#[test]
fn id_number_of_another_length_is_left_alone() {
    assert_eq!(format_id_number_masked("1101"), "1101");
    assert_eq!(format_id_number_masked(""), "");
    assert_eq!(format_id_number_masked("1101011990010112345"), "1101011990010112345");
    assert_eq!(format_id_number_masked("张三"), "张三");
}

#[test]
fn phone_is_masked_in_the_middle() {
    assert_eq!(format_phone_masked("13800138000"), "138****8000");
    assert_eq!(format_phone_masked("1380013800"), "1380013800");
    assert_eq!(format_phone_masked(""), "");
}

#[test]
fn address_is_cut_with_dots() {
    assert_eq!(format_address_truncated("Main Street 5", 4), "Main...");
    assert_eq!(format_address_truncated("Main", 4), "Main");
    assert_eq!(format_address_truncated("Main", 10), "Main");
    assert_eq!(format_address_truncated("Main", 0), "...");
    assert_eq!(format_address_truncated("", 0), "");
    assert_eq!(format_address_truncated("北京市朝阳区", 6), "北京...");
    assert_eq!(format_address_truncated("北京市朝阳区", 18), "北京市朝阳区");
}

#[test]
fn name_is_trimmed() {
    assert_eq!(format_name("  张三 \t\n"), "张三");
    assert_eq!(format_name("张 三"), "张 三");
    assert_eq!(format_name("   "), "");
    assert_eq!(format_name(""), "");
    assert_eq!(format_name("\u{3000}李四\u{3000}"), "李四");
}

#[test]
fn counts_up_to_ten_are_chinese_numerals() {
    let numerals = ["零", "一", "二", "三", "四", "五", "六", "七", "八", "九", "十"];
    for (count, numeral) in numerals.iter().enumerate() {
        assert_eq!(format_count_chinese(count), *numeral);
    }
    assert_eq!(format_count_chinese(11), "11");
    assert_eq!(format_count_chinese(12345), "12345");
    assert_eq!(format_count_chinese(usize::MAX), usize::MAX.to_string());
}

#[test]
fn text_helpers() {
    assert!(is_blank(""));
    assert!(is_blank(" \t\r\n\u{3000}"));
    assert!(!is_blank(" a "));
    assert_eq!(trimmed(" a b "), "a b");
    assert!(same_text("户主", "户主"));
    assert!(!same_text("户主", "户"));
    assert_eq!(integer_text(0), "0");
    assert_eq!(integer_text(2024), "2024");
    assert_eq!(integer_text(-5), "-5");
    assert_eq!(integer_text(i64::MIN), i64::MIN.to_string());
    assert_eq!(integer_text(i64::MAX), i64::MAX.to_string());
}

#[test]
fn dates_in_chinese() {
    let d = Date::from_ymd_opt(2024, 1, 5).unwrap();
    assert_eq!(DateUtils::format_date_chinese(&d), "2024年1月5日");
    let t = DateTime::new(d, 9, 3, 59).unwrap();
    assert_eq!(DateUtils::format_datetime_chinese(&t), "2024年1月5日 9时3分");
    let early = Date::from_ymd_opt(-44, 3, 15).unwrap();
    assert_eq!(DateUtils::format_date_chinese(&early), "-44年3月15日");
}

#[test]
fn age_counts_whole_years() {
    let birth = Date::from_ymd_opt(1990, 6, 15).unwrap();
    let on = |y, m, d| DateUtils::age_on(&birth, &Date::from_ymd_opt(y, m, d).unwrap());
    assert_eq!(on(2024, 6, 15), 34);
    assert_eq!(on(2024, 6, 14), 33);
    assert_eq!(on(2024, 5, 30), 33);
    assert_eq!(on(2024, 7, 1), 34);
    assert_eq!(on(1990, 6, 15), 0);
    assert_eq!(on(1990, 1, 1), -1);
    assert_eq!(on(1989, 12, 31), -1);
}

#[test]
fn age_today_is_the_age_on_today() {
    let birth = Date::from_ymd_opt(1990, 6, 15).unwrap();
    let age = DateUtils::calculate_age(&birth);
    assert!(age >= 34);
    let today = Date::today();
    assert!((age - DateUtils::age_on(&birth, &today)).abs() <= 1);
}

#[test]
fn birth_date_is_checked_rule_by_rule() {
    let check = |y, m, d| DateUtils::validate_birth_date_in(y, m, d, 2024);
    assert_eq!(check(1990, 5, 6), Ok(Date::from_ymd_opt(1990, 5, 6).unwrap()));
    assert_eq!(check(1900, 1, 1), Ok(Date::from_ymd_opt(1900, 1, 1).unwrap()));
    assert_eq!(check(2024, 12, 31), Ok(Date::from_ymd_opt(2024, 12, 31).unwrap()));
    assert_eq!(check(1899, 5, 6), Err("出生年份不能早于1900年".to_string()));
    assert_eq!(check(2025, 5, 6), Err("出生年份不能晚于当前年份".to_string()));
    assert_eq!(check(1990, 0, 6), Err("月份必须在1-12之间".to_string()));
    assert_eq!(check(1990, 13, 6), Err("月份必须在1-12之间".to_string()));
    assert_eq!(check(1990, 5, 0), Err("日期必须在1-31之间".to_string()));
    assert_eq!(check(1990, 5, 32), Err("日期必须在1-31之间".to_string()));
    assert_eq!(check(1990, 2, 30), Err("无效的日期".to_string()));
    assert_eq!(check(1899, 13, 32), Err("出生年份不能早于1900年".to_string()));
}

#[test]
fn birth_date_is_checked_against_the_present_year() {
    assert_eq!(
        DateUtils::validate_birth_date(2000, 2, 29),
        Ok(Date::from_ymd_opt(2000, 2, 29).unwrap())
    );
    assert_eq!(
        DateUtils::validate_birth_date(200000, 1, 1),
        Err("出生年份不能晚于当前年份".to_string())
    );
    assert_eq!(
        DateUtils::validate_birth_date(1800, 1, 1),
        Err("出生年份不能早于1900年".to_string())
    );
}

#[test]
fn households_table_in_csv() {
    let households = vec![
        home("张三", "北京市,朝阳区,1号", HouseholdType::Urban, vec![person("甲", 2000, "无")]),
        home("李四", "上海市", HouseholdType::Rural, vec![]),
    ];
    assert_eq!(
        ExportUtils::export_to_csv(&households),
        "户主姓名,身份证号,户口类型,联系电话,家庭地址,登记日期,成员数量\n\
         张三,110101199001011234,城镇户口,13800138000,北京市，朝阳区，1号,2024-05-06,1\n\
         李四,110101199001011234,农村户口,13800138000,上海市,2024-05-06,0\n"
    );
    assert_eq!(
        ExportUtils::export_to_csv(&Vec::new()),
        "户主姓名,身份证号,户口类型,联系电话,家庭地址,登记日期,成员数量\n"
    );
}

#[test]
fn members_table_in_csv() {
    let households = vec![
        home(
            "张三",
            "北京市",
            HouseholdType::Urban,
            vec![person("甲", 2000, "工人,技师"), person("乙", 2010, "学生")],
        ),
        home("李四", "上海市", HouseholdType::Rural, vec![]),
        home("王五", "广州市", HouseholdType::Rural, vec![person("丙", 1950, "")]),
    ];
    assert_eq!(
        ExportUtils::export_members_to_csv(&households),
        "户主姓名,成员姓名,身份证号,关系,性别,出生日期,学历,职业\n\
         张三,甲,110101199001011234,子女,女,2000-03-04,初中,工人，技师\n\
         张三,乙,110101199001011234,子女,女,2010-03-04,初中,学生\n\
         王五,丙,110101199001011234,子女,女,1950-03-04,初中,\n"
    );
    assert_eq!(
        ExportUtils::export_members_to_csv(&Vec::new()),
        "户主姓名,成员姓名,身份证号,关系,性别,出生日期,学历,职业\n"
    );
}

#[test]
fn report_counts_by_type_and_age_group() {
    let households = vec![
        home(
            "张三",
            "北京市",
            HouseholdType::Urban,
            vec![
                person("a", 2024, ""),
                person("b", 2014, ""),
                person("c", 2013, ""),
                person("d", 2004, ""),
            ],
        ),
        home("李四", "上海市", HouseholdType::Rural, vec![]),
        home(
            "王五",
            "广州市",
            HouseholdType::Rural,
            vec![
                person("e", 1994, ""),
                person("f", 1984, ""),
                person("g", 1974, ""),
                person("h", 1964, ""),
                person("i", 1963, ""),
                person("j", 2025, ""),
                person("k", 1973, ""),
            ],
        ),
    ];
    let today = Date::from_ymd_opt(2024, 1, 1).unwrap();
    let counts = ExportUtils::report_counts(&households, &today);
    assert_eq!(counts.total_households, 3);
    assert_eq!(counts.urban_households, 1);
    assert_eq!(counts.rural_households, 2);
    assert_eq!(counts.total_members, 11);
    assert_eq!(counts.age_groups, vec![2, 2, 1, 1, 1, 2, 2]);
    let none = ExportUtils::report_counts(&Vec::new(), &today);
    assert_eq!(none.total_households, 0);
    assert_eq!(none.total_members, 0);
    assert_eq!(none.age_groups, vec![0; 7]);
}

#[test]
fn report_text_lists_the_counts() {
    let households = vec![
        home("张三", "北京市", HouseholdType::Urban, vec![person("a", 2020, ""), person("b", 1990, "")]),
        home("李四", "上海市", HouseholdType::Rural, vec![person("c", 1950, "")]),
    ];
    let today = Date::from_ymd_opt(2024, 1, 1).unwrap();
    let generated = DateTime::new(today, 12, 0, 1).unwrap();
    let counts = ExportUtils::report_counts(&households, &today);
    assert_eq!(
        ExportUtils::report_for(&counts, &generated, "1.50"),
        "户籍管理系统统计报告\n\
         ========================\n\
         生成时间: 2024-01-01 12:00:01\n\
         \n\
         基本统计:\n  总户数: 2\n  城镇户口: 1\n  农村户口: 1\n  总人数: 3\n  平均每户人数: 1.50\n\
         \n\
         年龄分布:\n  0-10岁: 1\n  11-20岁: 0\n  21-30岁: 0\n  31-40岁: 1\n  41-50岁: 0\n  51-60岁: 0\n  60岁以上: 1\n"
    );
}

#[test]
fn report_made_now_has_the_counts() {
    let households =
        vec![home("张三", "北京市", HouseholdType::Urban, vec![person("a", 1990, "")])];
    let text = ExportUtils::export_statistics_report(&households, "1.00");
    assert!(text.starts_with("户籍管理系统统计报告\n========================\n生成时间: 20"));
    assert!(text.contains("\n  总户数: 1\n  城镇户口: 1\n  农村户口: 0\n  总人数: 1\n  平均每户人数: 1.00\n"));
    assert!(text.ends_with("\n"));
}
