use household_management::data::models::{
    Education, Gender, HouseholdForm, HouseholdType, MemberForm, Relationship,
};
use household_management::data::validation::{validate_id_number, validate_phone, Validate};

fn good_member() -> MemberForm {
    MemberForm {
        name: "张三".to_string(),
        id_number: "110101199001011234".to_string(),
        relationship: Relationship::Head,
        birth_year: 1990,
        birth_month: 1,
        birth_day: 1,
        gender: Gender::Male,
        education: Education::University,
        occupation: "工程师".to_string(),
    }
}

fn good_household() -> HouseholdForm {
    HouseholdForm {
        head_name: "张三".to_string(),
        id_number: "110101199001011234".to_string(),
        address: "北京市朝阳区".to_string(),
        phone: "13800138000".to_string(),
        household_type: HouseholdType::Urban,
        members: vec![good_member()],
    }
}

#[test]
fn id_number_of_eighteen_digits_passes() {
    assert!(validate_id_number("110101199001011234"));
}

#[test]
fn id_number_ending_in_x_passes() {
    assert!(validate_id_number("11010119900101123X"));
    assert!(validate_id_number("11010119900101123x"));
}

#[test]
fn id_number_of_seventeen_characters_fails() {
    assert!(!validate_id_number("11010119900101123"));
}

#[test]
fn id_number_of_nineteen_characters_fails() {
    assert!(!validate_id_number("1101011990010112345"));
}

#[test]
fn id_number_with_a_letter_in_position_five_fails() {
    assert!(!validate_id_number("1101A1199001011234"));
}

#[test]
fn id_number_with_a_letter_other_than_x_at_the_end_fails() {
    assert!(!validate_id_number("11010119900101123Y"));
}

#[test]
fn id_number_with_x_before_the_end_fails() {
    assert!(!validate_id_number("1101011990010112X4"));
}

#[test]
fn id_number_empty_fails() {
    assert!(!validate_id_number(""));
}

#[test]
fn id_number_of_eighteen_wide_digits_fails() {
    assert!(!validate_id_number("１１０１０１１９９００１０１１２３４"));
}

#[test]
fn phone_of_eleven_digits_from_one_passes() {
    assert!(validate_phone("13800138000"));
}

#[test]
fn phone_with_wrong_leading_digit_fails() {
    assert!(!validate_phone("23800138000"));
}

#[test]
fn phone_of_ten_digits_fails() {
    assert!(!validate_phone("1380013800"));
}

#[test]
fn phone_of_twelve_digits_fails() {
    assert!(!validate_phone("138001380001"));
}

#[test]
fn phone_with_a_letter_fails() {
    assert!(!validate_phone("1380013800a"));
}

#[test]
fn phone_empty_fails_the_shape() {
    assert!(!validate_phone(""));
}

#[test]
fn member_form_that_breaks_no_rule_passes() {
    assert_eq!(good_member().validate(), Ok(()));
}

#[test]
fn member_form_without_name_passes() {
    let mut m = good_member();
    m.name = "  \t".to_string();
    assert_eq!(m.validate(), Ok(()));
    m.name = String::new();
    assert_eq!(m.validate(), Ok(()));
}

#[test]
fn member_form_without_id_number_is_refused() {
    let mut m = good_member();
    m.id_number = String::new();
    assert_eq!(m.validate(), Err("身份证号不能为空".to_string()));
    m.id_number = " ".to_string();
    assert_eq!(m.validate(), Err("身份证号必须是18位".to_string()));
}

#[test]
fn member_form_with_short_id_number_is_refused() {
    let mut m = good_member();
    m.id_number = "1101011990".to_string();
    assert_eq!(m.validate(), Err("身份证号必须是18位".to_string()));
}

#[test]
fn member_form_with_malformed_id_number_is_refused() {
    let mut m = good_member();
    m.id_number = "1101011990010112AB".to_string();
    assert_eq!(m.validate(), Err("身份证号格式不正确".to_string()));
}

#[test]
fn member_form_with_early_year_is_refused() {
    let mut m = good_member();
    m.birth_year = 1899;
    assert_eq!(m.validate(), Err("出生年份不合理".to_string()));
}

#[test]
fn member_form_with_late_year_is_refused() {
    let mut m = good_member();
    m.birth_year = 2025;
    assert_eq!(m.validate(), Err("出生年份不合理".to_string()));
}

#[test]
fn member_form_with_the_bounding_years_passes() {
    let mut m = good_member();
    m.birth_year = 1900;
    assert_eq!(m.validate(), Ok(()));
    m.birth_year = 2024;
    assert_eq!(m.validate(), Ok(()));
}

#[test]
fn member_form_with_month_thirteen_is_refused() {
    let mut m = good_member();
    m.birth_month = 13;
    assert_eq!(m.validate(), Err("出生月份必须在1-12之间".to_string()));
    m.birth_month = 0;
    assert_eq!(m.validate(), Err("出生月份必须在1-12之间".to_string()));
}

#[test]
fn member_form_with_day_thirty_two_is_refused() {
    let mut m = good_member();
    m.birth_day = 32;
    assert_eq!(m.validate(), Err("出生日期必须在1-31之间".to_string()));
    m.birth_day = 0;
    assert_eq!(m.validate(), Err("出生日期必须在1-31之间".to_string()));
}

#[test]
fn member_form_with_february_thirty_is_refused() {
    let mut m = good_member();
    m.birth_month = 2;
    m.birth_day = 30;
    assert_eq!(m.validate(), Err("无效的出生日期".to_string()));
}

#[test]
fn member_form_with_leap_day_passes_in_a_leap_year_only() {
    let mut m = good_member();
    m.birth_month = 2;
    m.birth_day = 29;
    m.birth_year = 2000;
    assert_eq!(m.validate(), Ok(()));
    m.birth_year = 1900;
    assert_eq!(m.validate(), Err("无效的出生日期".to_string()));
}

#[test]
fn member_form_reports_the_first_rule_broken() {
    let mut m = good_member();
    m.name = String::new();
    m.id_number = String::new();
    m.birth_year = 1;
    assert_eq!(m.validate(), Err("身份证号不能为空".to_string()));
    m.id_number = "11010119900101123Z".to_string();
    m.birth_month = 13;
    assert_eq!(m.validate(), Err("身份证号格式不正确".to_string()));
    m.id_number = "110101199001011234".to_string();
    assert_eq!(m.validate(), Err("出生年份不合理".to_string()));
}

#[test]
fn household_form_that_breaks_no_rule_passes() {
    assert_eq!(good_household().validate(), Ok(()));
}

#[test]
fn household_form_without_head_name_is_refused() {
    let mut h = good_household();
    h.head_name = "   ".to_string();
    assert_eq!(h.validate(), Err("户主姓名不能为空".to_string()));
}

#[test]
fn household_form_without_id_number_is_refused() {
    let mut h = good_household();
    h.id_number = String::new();
    assert_eq!(h.validate(), Err("身份证号不能为空".to_string()));
}

#[test]
fn household_form_with_long_id_number_is_refused() {
    let mut h = good_household();
    h.id_number = "1101011990010112345".to_string();
    assert_eq!(h.validate(), Err("身份证号必须是18位".to_string()));
}

#[test]
fn household_form_with_malformed_id_number_is_refused() {
    let mut h = good_household();
    h.id_number = "11010119900101123Z".to_string();
    assert_eq!(h.validate(), Err("身份证号格式不正确".to_string()));
}

#[test]
fn household_form_without_address_is_refused() {
    let mut h = good_household();
    h.address = String::new();
    assert_eq!(h.validate(), Err("地址不能为空".to_string()));
}

#[test]
fn household_form_with_an_address_of_whitespace_passes() {
    let mut h = good_household();
    h.address = " \n".to_string();
    assert_eq!(h.validate(), Ok(()));
}

#[test]
fn household_form_with_bad_phone_is_refused() {
    let mut h = good_household();
    h.phone = "23800138000".to_string();
    assert_eq!(h.validate(), Err("手机号格式不正确".to_string()));
}

#[test]
fn household_form_with_empty_phone_passes() {
    let mut h = good_household();
    h.phone = String::new();
    assert_eq!(h.validate(), Ok(()));
}

#[test]
fn household_form_with_a_phone_of_whitespace_is_refused() {
    let mut h = good_household();
    h.phone = "  ".to_string();
    assert_eq!(h.validate(), Err("手机号格式不正确".to_string()));
}

#[test]
fn household_form_without_members_is_refused() {
    let mut h = good_household();
    h.members.clear();
    assert_eq!(h.validate(), Err("至少需要一个家庭成员".to_string()));
}

#[test]
fn household_form_names_the_position_of_the_refused_member() {
    let mut h = good_household();
    let mut second = good_member();
    second.birth_month = 2;
    second.birth_day = 30;
    let mut third = good_member();
    third.id_number = String::new();
    h.members.push(second);
    h.members.push(third);
    assert_eq!(h.validate(), Err("第2个成员: 无效的出生日期".to_string()));
}

#[test]
fn household_form_counts_positions_in_decimal() {
    let mut h = good_household();
    for _ in 0..10 {
        h.members.push(good_member());
    }
    let mut last = good_member();
    last.id_number = String::new();
    h.members.push(last);
    assert_eq!(h.validate(), Err("第12个成员: 身份证号不能为空".to_string()));
}

#[test]
fn household_form_checks_its_own_fields_before_its_members() {
    let mut h = good_household();
    h.members[0].birth_month = 13;
    h.address = String::new();
    h.phone = "23800138000".to_string();
    assert_eq!(h.validate(), Err("地址不能为空".to_string()));
}

#[test]
fn household_form_reports_the_head_name_before_the_other_faults() {
    let h = HouseholdForm {
        head_name: "  ".to_string(),
        id_number: "123".to_string(),
        address: String::new(),
        phone: String::new(),
        household_type: HouseholdType::Urban,
        members: vec![],
    };
    assert_eq!(h.validate(), Err("户主姓名不能为空".to_string()));
}

#[test]
fn household_form_without_id_number_or_with_a_blank_one() {
    let mut h = good_household();
    h.id_number = "  ".to_string();
    assert_eq!(h.validate(), Err("身份证号必须是18位".to_string()));
}
