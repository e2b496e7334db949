//! The texts of the exports: two tables in CSV and a report of counts.
//! Writing them to a file is left to the caller.

use crate::calendar::{date_text, timestamp_text, Date, DateTime, DateTimeView};
use crate::data::models::{
    households_view, members_total, Household, HouseholdType, HouseholdView, MemberView,
};
use crate::text::{decimal, decimal_text};
use vstd::prelude::*;
use vstd::string::StringExecFns;

verus! {

/// The number of age groups of the report.
pub const AGE_GROUPS: usize = 7;

/// `s` with `to` in the place of every `from`.
pub open spec fn replaced(s: Seq<char>, from: char, to: Seq<char>) -> Seq<char>
    decreases s.len(),
{
    if s.len() == 0 {
        Seq::empty()
    } else if s.last() == from {
        replaced(s.drop_last(), from, to) + to
    } else {
        replaced(s.drop_last(), from, to).push(s.last())
    }
}

/// A text as a field of a CSV line: with a full-width comma for every comma.
pub open spec fn csv_field(s: Seq<char>) -> Seq<char> {
    replaced(s, ',', "，"@)
}

/// The line of the table of households for one household.
pub open spec fn household_line(h: HouseholdView) -> Seq<char> {
    h.head_name + ","@ + h.id_number + ","@ + h.household_type.label() + ","@ + h.phone + ","@
        + csv_field(h.address) + ","@ + date_text(h.registration_date.date) + ","@ + decimal(
        h.members.len(),
    ) + "\n"@
}

/// The lines of the table of households, one for each household.
pub open spec fn household_lines(households: Seq<HouseholdView>) -> Seq<char>
    decreases households.len(),
{
    if households.len() == 0 {
        Seq::empty()
    } else {
        household_lines(households.drop_last()) + household_line(households.last())
    }
}

/// The table of households: its heading and its lines.
pub open spec fn households_csv(households: Seq<HouseholdView>) -> Seq<char> {
    "户主姓名,身份证号,户口类型,联系电话,家庭地址,登记日期,成员数量\n"@ + household_lines(households)
}

/// The line of the table of members for one member of the household of
/// `head_name`.
pub open spec fn member_line(head_name: Seq<char>, m: MemberView) -> Seq<char> {
    head_name + ","@ + m.name + ","@ + m.id_number + ","@ + m.relationship.label() + ","@
        + m.gender.label() + ","@ + date_text(m.birth_date) + ","@ + m.education.label() + ","@
        + csv_field(m.occupation) + "\n"@
}

/// The lines of the table of members for the members of one household.
pub open spec fn member_lines(head_name: Seq<char>, members: Seq<MemberView>) -> Seq<char>
    decreases members.len(),
{
    if members.len() == 0 {
        Seq::empty()
    } else {
        member_lines(head_name, members.drop_last()) + member_line(head_name, members.last())
    }
}

/// The lines of the table of members for all households.
pub open spec fn all_member_lines(households: Seq<HouseholdView>) -> Seq<char>
    decreases households.len(),
{
    if households.len() == 0 {
        Seq::empty()
    } else {
        all_member_lines(households.drop_last()) + member_lines(
            households.last().head_name,
            households.last().members,
        )
    }
}

/// The table of members: its heading and its lines.
pub open spec fn members_csv(households: Seq<HouseholdView>) -> Seq<char> {
    "户主姓名,成员姓名,身份证号,关系,性别,出生日期,学历,职业\n"@ + all_member_lines(households)
}

/// The age group of an age in years: 0 for 0 to 10, then one for every ten
/// years up to 5 for 51 to 60, and 6 for every other age.
pub open spec fn age_group(age: int) -> int {
    if 0 <= age <= 10 {
        0
    } else if 11 <= age <= 20 {
        1
    } else if 21 <= age <= 30 {
        2
    } else if 31 <= age <= 40 {
        3
    } else if 41 <= age <= 50 {
        4
    } else if 51 <= age <= 60 {
        5
    } else {
        6
    }
}

/// The number of the given members whose age in the year `year`, by their
/// years of birth alone, falls in the group `group`.
pub open spec fn members_in_group(members: Seq<MemberView>, year: int, group: int) -> nat
    decreases members.len(),
{
    if members.len() == 0 {
        0
    } else if age_group(year - members.last().birth_date.year) == group {
        members_in_group(members.drop_last(), year, group) + 1
    } else {
        members_in_group(members.drop_last(), year, group)
    }
}

/// The number of members of the given households in the group `group`.
pub open spec fn all_in_group(households: Seq<HouseholdView>, year: int, group: int) -> nat
    decreases households.len(),
{
    if households.len() == 0 {
        0
    } else {
        all_in_group(households.drop_last(), year, group) + members_in_group(
            households.last().members,
            year,
            group,
        )
    }
}

/// The number of urban households among the given ones.
pub open spec fn urban_households(households: Seq<HouseholdView>) -> nat
    decreases households.len(),
{
    if households.len() == 0 {
        0
    } else if households.last().household_type == HouseholdType::Urban {
        urban_households(households.drop_last()) + 1
    } else {
        urban_households(households.drop_last())
    }
}

/// The counts of a report.
#[derive(Debug)]
pub struct ReportCounts {
    pub total_households: usize,
    pub urban_households: usize,
    pub rural_households: usize,
    pub total_members: u128,
    pub age_groups: Vec<u128>,
}

impl ReportCounts {
    /// Whether the counts are those of `households` in the year `year`.
    pub open spec fn counts_of(self, households: Seq<HouseholdView>, year: int) -> bool {
        &&& self.total_households == households.len()
        &&& self.urban_households == urban_households(households)
        &&& self.rural_households == households.len() - urban_households(households)
        &&& self.total_members == members_total(households)
        &&& self.age_groups@.len() == AGE_GROUPS
        &&& forall|g: int|
            0 <= g < AGE_GROUPS ==> (#[trigger] self.age_groups@[g]) == all_in_group(
                households,
                year,
                g,
            )
    }
}

/// The text of the report for the given counts, made at `generated`, with
/// `average` for the members of a household on average.
pub open spec fn report_text(counts: ReportCounts, generated: DateTimeView, average: Seq<char>) -> Seq<
    char,
> {
    "户籍管理系统统计报告\n"@ + "========================\n"@ + "生成时间: "@ + timestamp_text(generated)
        + "\n"@ + "\n"@ + "基本统计:\n"@ + "  总户数: "@ + decimal(counts.total_households as nat)
        + "\n"@ + "  城镇户口: "@ + decimal(counts.urban_households as nat) + "\n"@ + "  农村户口: "@
        + decimal(counts.rural_households as nat) + "\n"@ + "  总人数: "@ + decimal(
        counts.total_members as nat,
    ) + "\n"@ + "  平均每户人数: "@ + average + "\n"@ + "\n"@ + "年龄分布:\n"@ + "  0-10岁: "@ + decimal(
        counts.age_groups@[0] as nat,
    ) + "\n"@ + "  11-20岁: "@ + decimal(counts.age_groups@[1] as nat) + "\n"@ + "  21-30岁: "@
        + decimal(counts.age_groups@[2] as nat) + "\n"@ + "  31-40岁: "@ + decimal(
        counts.age_groups@[3] as nat,
    ) + "\n"@ + "  41-50岁: "@ + decimal(counts.age_groups@[4] as nat) + "\n"@ + "  51-60岁: "@
        + decimal(counts.age_groups@[5] as nat) + "\n"@ + "  60岁以上: "@ + decimal(
        counts.age_groups@[6] as nat,
    ) + "\n"@
}

/// Calls `str::replace` of the standard library with a character to look
/// for. The contract claims what its documentation says: every match is
/// replaced by the other text.
#[verifier::external_body]
fn replace_char(s: &str, from: char, to: &str) -> (r: String)
    ensures
        r@ == replaced(s@, from, to@),
{
    s.replace(from, to)
}

/// No household has more members than the machine's word can count, so
/// the members of a list of households stay below the square of that.
proof fn lemma_all_members_bound(households: Seq<HouseholdView>)
    requires
        forall|i: int| 0 <= i < households.len() ==> (#[trigger] households[i]).members.len()
            <= usize::MAX,
    ensures
        members_total(households) <= households.len() * usize::MAX,
    decreases households.len(),
{
    if households.len() > 0 {
        let rest = households.drop_last();
        assert forall|i: int| 0 <= i < rest.len() implies (#[trigger] rest[i]).members.len()
            <= usize::MAX by {
            assert(rest[i] == households[i]);
        }
        lemma_all_members_bound(rest);
        assert(households.last() == households[households.len() - 1]);
        assert((households.len() - 1) * usize::MAX + usize::MAX == households.len() * usize::MAX)
            by (nonlinear_arith);
    }
}

/// The members in a group are no more than the members.
proof fn lemma_members_in_group_bound(members: Seq<MemberView>, year: int, group: int)
    ensures
        members_in_group(members, year, group) <= members.len(),
    decreases members.len(),
{
    if members.len() > 0 {
        lemma_members_in_group_bound(members.drop_last(), year, group);
    }
}

/// The members of all households in a group are no more than the members.
proof fn lemma_all_in_group_bound(households: Seq<HouseholdView>, year: int, group: int)
    ensures
        all_in_group(households, year, group) <= members_total(households),
    decreases households.len(),
{
    if households.len() > 0 {
        lemma_all_in_group_bound(households.drop_last(), year, group);
        lemma_members_in_group_bound(households.last().members, year, group);
    }
}

/// Helpers for the exports.
pub struct ExportUtils;

impl ExportUtils {
    /// The table of households in CSV: a heading, then a line for each
    /// household with the head's name, the identity number, the type, the
    /// phone, the address, the day of registration and the number of
    /// members.
    pub fn export_to_csv(households: &Vec<Household>) -> (r: String)
        ensures
            r@ == households_csv(households_view(households@)),
    {
        let ghost all = households_view(households@);
        let mut out = String::from_str(
            "户主姓名,身份证号,户口类型,联系电话,家庭地址,登记日期,成员数量\n",
        );
        let ghost heading = out@;
        let mut i: usize = 0;
        assert(all.take(0) =~= Seq::empty());
        assert(heading + household_lines(all.take(0)) =~= heading);
        while i < households.len()
            invariant
                i <= households.len(),
                all == households_view(households@),
                heading == "户主姓名,身份证号,户口类型,联系电话,家庭地址,登记日期,成员数量\n"@,
                out@ == heading + household_lines(all.take(i as int)),
            decreases households.len() - i,
        {
            let h = &households[i];
            let ghost before = out@;
            proof {
                assert(all.take(i + 1).drop_last() =~= all.take(i as int));
                assert(all.take(i + 1).last() == h@);
            }
            out.append(h.head_name.as_str());
            out.append(",");
            out.append(h.id_number.as_str());
            out.append(",");
            out.append(h.household_type.to_string().as_str());
            out.append(",");
            out.append(h.phone.as_str());
            out.append(",");
            out.append(replace_char(h.address.as_str(), ',', "，").as_str());
            out.append(",");
            out.append(h.registration_date.date().to_string().as_str());
            out.append(",");
            out.append(decimal_text(h.members.len() as u128).as_str());
            out.append("\n");
            proof {
                assert(h@.members.len() == h.members.len());
                assert(out@ =~= before + household_line(h@));
                assert(heading + household_lines(all.take(i + 1)) =~= (heading + household_lines(
                    all.take(i as int),
                )) + household_line(h@));
            }
            i += 1;
        }
        assert(all.take(households.len() as int) =~= all);
        out
    }

    /// The table of members in CSV: a heading, then a line for each member
    /// of each household with the head's name, the member's name, the
    /// identity number, the relationship, the gender, the birth date, the
    /// education and the occupation.
    pub fn export_members_to_csv(households: &Vec<Household>) -> (r: String)
        ensures
            r@ == members_csv(households_view(households@)),
    {
        let ghost all = households_view(households@);
        let mut out = String::from_str("户主姓名,成员姓名,身份证号,关系,性别,出生日期,学历,职业\n");
        let ghost heading = out@;
        let mut i: usize = 0;
        assert(all.take(0) =~= Seq::empty());
        assert(heading + all_member_lines(all.take(0)) =~= heading);
        while i < households.len()
            invariant
                i <= households.len(),
                all == households_view(households@),
                heading == "户主姓名,成员姓名,身份证号,关系,性别,出生日期,学历,职业\n"@,
                out@ == heading + all_member_lines(all.take(i as int)),
            decreases households.len() - i,
        {
            let h = &households[i];
            let ghost start = out@;
            let ghost members = h@.members;
            proof {
                assert(all.take(i + 1).drop_last() =~= all.take(i as int));
                assert(all.take(i + 1).last() == h@);
                assert(members.take(0) =~= Seq::empty());
                assert(start + member_lines(h@.head_name, members.take(0)) =~= start);
            }
            let mut j: usize = 0;
            while j < h.members.len()
                invariant
                    j <= h.members.len(),
                    members == h@.members,
                    members.len() == h.members.len(),
                    out@ == start + member_lines(h@.head_name, members.take(j as int)),
                decreases h.members.len() - j,
            {
                let m = &h.members[j];
                let ghost before = out@;
                proof {
                    assert(members.take(j + 1).drop_last() =~= members.take(j as int));
                    assert(members.take(j + 1).last() == m@);
                }
                out.append(h.head_name.as_str());
                out.append(",");
                out.append(m.name.as_str());
                out.append(",");
                out.append(m.id_number.as_str());
                out.append(",");
                out.append(m.relationship.to_string().as_str());
                out.append(",");
                out.append(m.gender.to_string().as_str());
                out.append(",");
                out.append(m.birth_date.to_string().as_str());
                out.append(",");
                out.append(m.education.to_string().as_str());
                out.append(",");
                out.append(replace_char(m.occupation.as_str(), ',', "，").as_str());
                out.append("\n");
                proof {
                    assert(out@ =~= before + member_line(h@.head_name, m@));
                    assert(start + member_lines(h@.head_name, members.take(j + 1)) =~= (start
                        + member_lines(h@.head_name, members.take(j as int))) + member_line(
                        h@.head_name,
                        m@,
                    ));
                }
                j += 1;
            }
            proof {
                assert(members.take(h.members.len() as int) =~= members);
                assert(heading + all_member_lines(all.take(i + 1)) =~= (heading
                    + all_member_lines(all.take(i as int))) + member_lines(
                    h@.head_name,
                    members,
                ));
            }
            i += 1;
        }
        assert(all.take(households.len() as int) =~= all);
        out
    }

    /// The counts of a report on `households` made on the day `today`: the
    /// households, the urban and the rural among them, the members, and the
    /// members of each age group by their years of birth.
    pub fn report_counts(households: &Vec<Household>, today: &Date) -> (r: ReportCounts)
        ensures
            r.counts_of(households_view(households@), today@.year),
    {
        let ghost all = households_view(households@);
        let ghost year = today@.year;
        let mut urban: usize = 0;
        let mut total_members: u128 = 0;
        let mut groups: Vec<u128> = Vec::new();
        let mut g: usize = 0;
        while g < AGE_GROUPS
            invariant
                g <= AGE_GROUPS,
                groups@.len() == g,
                forall|k: int| 0 <= k < g ==> groups@[k] == 0,
            decreases AGE_GROUPS - g,
        {
            groups.push(0);
            g += 1;
        }
        proof {
            use_type_invariant(today);
            assert(all.take(0) =~= Seq::empty());
            assert forall|i: int| 0 <= i < all.len() implies (#[trigger] all[i]).members.len()
                <= usize::MAX by {
                assert(all[i].members.len() == households[i].members.len());
            }
        }
        let mut i: usize = 0;
        while i < households.len()
            invariant
                i <= households.len(),
                all == households_view(households@),
                year == today@.year,
                today@.wf(),
                forall|k: int| 0 <= k < all.len() ==> (#[trigger] all[k]).members.len()
                    <= usize::MAX,
                urban == urban_households(all.take(i as int)),
                urban <= i,
                total_members == members_total(all.take(i as int)),
                groups@.len() == AGE_GROUPS,
                forall|k: int|
                    0 <= k < AGE_GROUPS ==> (#[trigger] groups@[k]) == all_in_group(
                        all.take(i as int),
                        year,
                        k,
                    ),
            decreases households.len() - i,
        {
            let h = &households[i];
            let ghost members = h@.members;
            let ghost done = all.take(i as int);
            proof {
                assert(all.take(i + 1).drop_last() =~= done);
                assert(all.take(i + 1).last() == h@);
                assert(h@ == all[i as int]);
                assert forall|k: int| 0 <= k < all.take(i + 1).len() implies (
                #[trigger] all.take(i + 1)[k]).members.len() <= usize::MAX by {
                    assert(all.take(i + 1)[k] == all[k]);
                }
                lemma_all_members_bound(all.take(i + 1));
                assert((i + 1) * usize::MAX <= usize::MAX * usize::MAX) by (nonlinear_arith)
                    requires
                        i + 1 <= usize::MAX,
                ;
                assert(usize::MAX * usize::MAX < u128::MAX) by (nonlinear_arith)
                    requires
                        usize::MAX <= 0xffff_ffff_ffff_ffff,
                ;
                assert(members.take(0) =~= Seq::empty());
            }
            if h.household_type == HouseholdType::Urban {
                urban += 1;
            }
            total_members += h.members.len() as u128;
            let mut j: usize = 0;
            while j < h.members.len()
                invariant
                    j <= h.members.len(),
                    members == h@.members,
                    members.len() == h.members.len(),
                    year == today@.year,
                    today@.wf(),
                    done == all.take(i as int),
                    groups@.len() == AGE_GROUPS,
                    members_total(done) + members.len() < u128::MAX,
                    forall|k: int|
                        0 <= k < AGE_GROUPS ==> (#[trigger] groups@[k]) == all_in_group(
                            done,
                            year,
                            k,
                        ) + members_in_group(members.take(j as int), year, k),
                decreases h.members.len() - j,
            {
                let m = &h.members[j];
                let birth = m.birth_date;
                proof {
                    use_type_invariant(&birth);
                    assert(members.take(j + 1).drop_last() =~= members.take(j as int));
                    assert(members.take(j + 1).last() == m@);
                }
                let age: i32 = today.year() - birth.year();
                let group: usize = if 0 <= age && age <= 10 {
                    0
                } else if 11 <= age && age <= 20 {
                    1
                } else if 21 <= age && age <= 30 {
                    2
                } else if 31 <= age && age <= 40 {
                    3
                } else if 41 <= age && age <= 50 {
                    4
                } else if 51 <= age && age <= 60 {
                    5
                } else {
                    6
                };
                proof {
                    lemma_all_in_group_bound(done, year, group as int);
                    lemma_members_in_group_bound(members.take(j as int), year, group as int);
                }
                let count: u128 = groups[group];
                groups.set(group, count + 1);
                j += 1;
            }
            proof {
                assert(members.take(h.members.len() as int) =~= members);
            }
            i += 1;
        }
        proof {
            assert(all.take(households.len() as int) =~= all);
        }
        ReportCounts {
            total_households: households.len(),
            urban_households: urban,
            rural_households: households.len() - urban,
            total_members,
            age_groups: groups,
        }
    }

    /// The text of the report for `counts`, made at `generated`, with
    /// `average` for the members of a household on average.
    pub fn report_for(counts: &ReportCounts, generated: &DateTime, average: &str) -> (r: String)
        requires
            counts.age_groups@.len() == AGE_GROUPS,
        ensures
            r@ == report_text(*counts, generated@, average@),
    {
        let mut out = String::from_str("户籍管理系统统计报告\n");
        out.append("========================\n");
        out.append("生成时间: ");
        out.append(generated.to_string().as_str());
        out.append("\n");
        out.append("\n");
        out.append("基本统计:\n");
        out.append("  总户数: ");
        out.append(decimal_text(counts.total_households as u128).as_str());
        out.append("\n");
        out.append("  城镇户口: ");
        out.append(decimal_text(counts.urban_households as u128).as_str());
        out.append("\n");
        out.append("  农村户口: ");
        out.append(decimal_text(counts.rural_households as u128).as_str());
        out.append("\n");
        out.append("  总人数: ");
        out.append(decimal_text(counts.total_members).as_str());
        out.append("\n");
        out.append("  平均每户人数: ");
        out.append(average);
        out.append("\n");
        out.append("\n");
        out.append("年龄分布:\n");
        out.append("  0-10岁: ");
        out.append(decimal_text(counts.age_groups[0]).as_str());
        out.append("\n");
        out.append("  11-20岁: ");
        out.append(decimal_text(counts.age_groups[1]).as_str());
        out.append("\n");
        out.append("  21-30岁: ");
        out.append(decimal_text(counts.age_groups[2]).as_str());
        out.append("\n");
        out.append("  31-40岁: ");
        out.append(decimal_text(counts.age_groups[3]).as_str());
        out.append("\n");
        out.append("  41-50岁: ");
        out.append(decimal_text(counts.age_groups[4]).as_str());
        out.append("\n");
        out.append("  51-60岁: ");
        out.append(decimal_text(counts.age_groups[5]).as_str());
        out.append("\n");
        out.append("  60岁以上: ");
        out.append(decimal_text(counts.age_groups[6]).as_str());
        out.append("\n");
        assert(out@ =~= report_text(*counts, generated@, average@));
        out
    }

    /// The text of the report on `households`, made now by the system
    /// clock, with `average` for the members of a household on average.
    pub fn export_statistics_report(households: &Vec<Household>, average: &str) -> (r: String)
        ensures
            exists|counts: ReportCounts, generated: DateTimeView|
                {
                    &&& generated.wf()
                    &&& counts.counts_of(households_view(households@), generated.date.year)
                    &&& r@ == #[trigger] report_text(counts, generated, average@)
                },
    {
        let generated = DateTime::now();
        let today = generated.date();
        let counts = ExportUtils::report_counts(households, &today);
        let r = ExportUtils::report_for(&counts, &generated, average);
        proof {
            use_type_invariant(&generated);
            assert(r@ == report_text(counts, generated@, average@));
        }
        r
    }
}

} // verus!
