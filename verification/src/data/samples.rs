//! The two sample households that a store gets when it is first opened.

use crate::calendar::{Date, DateTime, DateTimeView, DateView};
use crate::data::models::{
    Education, Gender, Household, HouseholdType, HouseholdView, Member, MemberView, Relationship,
};
use crate::data::statements::{insert_statements, StatementView};
use crate::identity::HouseholdId;
use vstd::prelude::*;
use vstd::string::StringExecFns;

verus! {

/// The first sample household: an urban household of two.
pub open spec fn sample_first(id: HouseholdId) -> HouseholdView {
    HouseholdView {
        id,
        head_name: "张三"@,
        id_number: "110101199001011234"@,
        address: "北京市朝阳区XXX街道XXX号"@,
        phone: "13800138000"@,
        household_type: HouseholdType::Urban,
        registration_date: DateTimeView {
            date: DateView { year: 2024, month: 1, day: 1 },
            hour: 0,
            minute: 0,
            second: 0,
        },
        members: seq![
            MemberView {
                name: "张三"@,
                id_number: "110101199001011234"@,
                relationship: Relationship::Head,
                birth_date: DateView { year: 1990, month: 1, day: 1 },
                gender: Gender::Male,
                education: Education::University,
                occupation: "工程师"@,
            },
            MemberView {
                name: "李四"@,
                id_number: "110101199205051235"@,
                relationship: Relationship::Spouse,
                birth_date: DateView { year: 1992, month: 5, day: 5 },
                gender: Gender::Female,
                education: Education::University,
                occupation: "教师"@,
            },
        ],
    }
}

/// The second sample household: a rural household of one.
pub open spec fn sample_second(id: HouseholdId) -> HouseholdView {
    HouseholdView {
        id,
        head_name: "王五"@,
        id_number: "110101198506061236"@,
        address: "北京市海淀区YYY街道YYY号"@,
        phone: "13900139000"@,
        household_type: HouseholdType::Rural,
        registration_date: DateTimeView {
            date: DateView { year: 2024, month: 1, day: 1 },
            hour: 0,
            minute: 0,
            second: 0,
        },
        members: seq![
            MemberView {
                name: "王五"@,
                id_number: "110101198506061236"@,
                relationship: Relationship::Head,
                birth_date: DateView { year: 1985, month: 6, day: 6 },
                gender: Gender::Male,
                education: Education::HighSchool,
                occupation: "农民"@,
            },
        ],
    }
}

/// The statements that store the two sample households under the given
/// identities.
pub open spec fn sample_statements(first: HouseholdId, second: HouseholdId) -> Seq<StatementView> {
    insert_statements(sample_first(first)) + insert_statements(sample_second(second))
}

/// The two sample households under the given identities.
pub fn sample_households(first: HouseholdId, second: HouseholdId) -> (r: (Household, Household))
    ensures
        r.0@ == sample_first(first),
        r.1@ == sample_second(second),
{
    let registered = DateTime::midnight(Date::from_ymd_opt(2024, 1, 1).unwrap());
    let mut members1: Vec<Member> = Vec::new();
    members1.push(
        Member {
            name: String::from_str("张三"),
            id_number: String::from_str("110101199001011234"),
            relationship: Relationship::Head,
            birth_date: Date::from_ymd_opt(1990, 1, 1).unwrap(),
            gender: Gender::Male,
            education: Education::University,
            occupation: String::from_str("工程师"),
        },
    );
    members1.push(
        Member {
            name: String::from_str("李四"),
            id_number: String::from_str("110101199205051235"),
            relationship: Relationship::Spouse,
            birth_date: Date::from_ymd_opt(1992, 5, 5).unwrap(),
            gender: Gender::Female,
            education: Education::University,
            occupation: String::from_str("教师"),
        },
    );
    let sample1 = Household {
        id: first,
        head_name: String::from_str("张三"),
        id_number: String::from_str("110101199001011234"),
        address: String::from_str("北京市朝阳区XXX街道XXX号"),
        phone: String::from_str("13800138000"),
        household_type: HouseholdType::Urban,
        registration_date: registered,
        members: members1,
    };
    let mut members2: Vec<Member> = Vec::new();
    members2.push(
        Member {
            name: String::from_str("王五"),
            id_number: String::from_str("110101198506061236"),
            relationship: Relationship::Head,
            birth_date: Date::from_ymd_opt(1985, 6, 6).unwrap(),
            gender: Gender::Male,
            education: Education::HighSchool,
            occupation: String::from_str("农民"),
        },
    );
    let sample2 = Household {
        id: second,
        head_name: String::from_str("王五"),
        id_number: String::from_str("110101198506061236"),
        address: String::from_str("北京市海淀区YYY街道YYY号"),
        phone: String::from_str("13900139000"),
        household_type: HouseholdType::Rural,
        registration_date: registered,
        members: members2,
    };
    assert(sample1@.members =~= sample_first(first).members);
    assert(sample2@.members =~= sample_second(second).members);
    (sample1, sample2)
}

} // verus!
