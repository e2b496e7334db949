//! The two relations of the store as text rows, the statements that change
//! them, and the coding of records to rows and back.

use crate::calendar::{
    date_from_text, date_text, timestamp_from_text, timestamp_text, Date, DateTime, DateTimeView,
};
use crate::data::models::{
    members_view, Education, Gender, Household, HouseholdType, HouseholdView, Member, MemberView,
    Relationship,
};
use crate::identity::{id_from_text, id_text, HouseholdId};
use crate::text::{occurs_in, text_contains};
use vstd::prelude::*;
use vstd::string::StringExecFns;

verus! {

/// Why the store could not do what was asked.
#[derive(Debug)]
pub enum StorageError {
    /// The database refused a statement or a query; the text is its report.
    Backend(String),
    /// A stored household identity is no UUID.
    InvalidIdentifier,
    /// A stored registration date is in neither of the two date formats.
    InvalidDate,
    /// A stored birth date is not in the date format.
    InvalidBirthDate,
    /// The counts that the database reported cannot be counts of one state.
    InconsistentCounts,
}

impl StorageError {
    /// The text that describes the error.
    pub open spec fn text(self) -> Seq<char> {
        match self {
            StorageError::Backend(report) => report@,
            StorageError::InvalidIdentifier => "Invalid parameter name: Invalid UUID"@,
            StorageError::InvalidDate => "Invalid parameter name: Invalid date format"@,
            StorageError::InvalidBirthDate => "Invalid parameter name: Invalid birth date"@,
            StorageError::InconsistentCounts => "Inconsistent row counts"@,
        }
    }

    pub fn to_string(&self) -> (r: String)
        ensures
            r@ == self.text(),
    {
        match self {
            StorageError::Backend(report) => report.clone(),
            StorageError::InvalidIdentifier => String::from_str(
                "Invalid parameter name: Invalid UUID",
            ),
            StorageError::InvalidDate => String::from_str(
                "Invalid parameter name: Invalid date format",
            ),
            StorageError::InvalidBirthDate => String::from_str(
                "Invalid parameter name: Invalid birth date",
            ),
            StorageError::InconsistentCounts => String::from_str("Inconsistent row counts"),
        }
    }
}

/// One row of the relation `households`: every column as its stored text.
#[derive(Debug)]
pub struct HouseholdRow {
    pub id: String,
    pub head_name: String,
    pub id_number: String,
    pub address: String,
    pub phone: String,
    pub household_type: String,
    pub registration_date: String,
}

/// One row of the relation `members`, without its row number and without
/// the identity of its household.
#[derive(Debug)]
pub struct MemberRow {
    pub name: String,
    pub id_number: String,
    pub relationship: String,
    pub birth_date: String,
    pub gender: String,
    pub education: String,
    pub occupation: String,
}

/// What a `HouseholdRow` stands for.
pub struct HouseholdRowView {
    pub id: Seq<char>,
    pub head_name: Seq<char>,
    pub id_number: Seq<char>,
    pub address: Seq<char>,
    pub phone: Seq<char>,
    pub household_type: Seq<char>,
    pub registration_date: Seq<char>,
}

/// What a `MemberRow` stands for.
pub struct MemberRowView {
    pub name: Seq<char>,
    pub id_number: Seq<char>,
    pub relationship: Seq<char>,
    pub birth_date: Seq<char>,
    pub gender: Seq<char>,
    pub education: Seq<char>,
    pub occupation: Seq<char>,
}

impl View for HouseholdRow {
    type V = HouseholdRowView;

    open spec fn view(&self) -> HouseholdRowView {
        HouseholdRowView {
            id: self.id@,
            head_name: self.head_name@,
            id_number: self.id_number@,
            address: self.address@,
            phone: self.phone@,
            household_type: self.household_type@,
            registration_date: self.registration_date@,
        }
    }
}

impl View for MemberRow {
    type V = MemberRowView;

    open spec fn view(&self) -> MemberRowView {
        MemberRowView {
            name: self.name@,
            id_number: self.id_number@,
            relationship: self.relationship@,
            birth_date: self.birth_date@,
            gender: self.gender@,
            education: self.education@,
            occupation: self.occupation@,
        }
    }
}

/// The rows a sequence of `MemberRow` values stands for.
pub open spec fn member_rows_view(rows: Seq<MemberRow>) -> Seq<MemberRowView> {
    Seq::new(rows.len(), |i: int| rows[i]@)
}

/// The rows a sequence of `HouseholdRow` values stands for.
pub open spec fn household_rows_view(rows: Seq<HouseholdRow>) -> Seq<HouseholdRowView> {
    Seq::new(rows.len(), |i: int| rows[i]@)
}

/// The row that stores a household: the identity as UUID text, the type as
/// its label, the registration date as a timestamp.
pub open spec fn household_row(household: HouseholdView) -> HouseholdRowView {
    HouseholdRowView {
        id: id_text(household.id.value),
        head_name: household.head_name,
        id_number: household.id_number,
        address: household.address,
        phone: household.phone,
        household_type: household.household_type.label(),
        registration_date: timestamp_text(household.registration_date),
    }
}

/// The row that stores a member: the enumerations as their labels, the birth
/// date as a date.
pub open spec fn member_row(member: MemberView) -> MemberRowView {
    MemberRowView {
        name: member.name,
        id_number: member.id_number,
        relationship: member.relationship.label(),
        birth_date: date_text(member.birth_date),
        gender: member.gender.label(),
        education: member.education.label(),
        occupation: member.occupation,
    }
}

/// The rows that store the members of a household, in their order.
pub open spec fn member_rows(members: Seq<MemberView>) -> Seq<MemberRowView> {
    Seq::new(members.len(), |i: int| member_row(members[i]))
}

/// The moment a stored registration date stands for: a text with a space in
/// it is read as a timestamp, any other as a date, whose first second it
/// then means.
pub open spec fn registration_date_from_text(text: Seq<char>) -> Option<DateTimeView> {
    if occurs_in(" "@, text) {
        timestamp_from_text(text)
    } else {
        match date_from_text(text) {
            Some(date) => Some(DateTimeView { date, hour: 0, minute: 0, second: 0 }),
            None => None,
        }
    }
}

/// The member a row stands for. A label that is none decodes to its
/// fallback; a birth date that cannot be read is an error.
pub open spec fn decode_member(row: MemberRowView) -> Result<MemberView, StorageError> {
    match date_from_text(row.birth_date) {
        Some(birth_date) => Ok(
            MemberView {
                name: row.name,
                id_number: row.id_number,
                relationship: Relationship::of_label(row.relationship),
                birth_date,
                gender: Gender::of_label(row.gender),
                education: Education::of_label(row.education),
                occupation: row.occupation,
            },
        ),
        None => Err(StorageError::InvalidBirthDate),
    }
}

/// The members a list of rows stands for: the error of the first row that
/// has one, else every row's member, in order.
pub open spec fn decode_members(rows: Seq<MemberRowView>) -> Result<Seq<MemberView>, StorageError>
    decreases rows.len(),
{
    if rows.len() == 0 {
        Ok(Seq::empty())
    } else {
        match decode_members(rows.drop_last()) {
            Err(e) => Err(e),
            Ok(members) => match decode_member(rows.last()) {
                Err(e) => Err(e),
                Ok(member) => Ok(members.push(member)),
            },
        }
    }
}

/// The household a row stands for, with the given members. An identity that
/// is no UUID is an error, then a registration date that cannot be read; a
/// type label that is none decodes to its fallback.
pub open spec fn decode_household(row: HouseholdRowView, members: Seq<MemberView>) -> Result<
    HouseholdView,
    StorageError,
> {
    match id_from_text(row.id) {
        None => Err(StorageError::InvalidIdentifier),
        Some(value) => match registration_date_from_text(row.registration_date) {
            None => Err(StorageError::InvalidDate),
            Some(registration_date) => Ok(
                HouseholdView {
                    id: HouseholdId { value },
                    head_name: row.head_name,
                    id_number: row.id_number,
                    address: row.address,
                    phone: row.phone,
                    household_type: HouseholdType::of_label(row.household_type),
                    registration_date,
                    members,
                },
            ),
        },
    }
}

/// The household that a row and the rows of its members stand for: the
/// row's own error comes before an error among the members.
pub open spec fn assemble_household(
    row: HouseholdRowView,
    member_rows: Seq<MemberRowView>,
) -> Result<HouseholdView, StorageError> {
    match decode_household(row, Seq::empty()) {
        Err(e) => Err(e),
        Ok(_) => match decode_members(member_rows) {
            Err(e) => Err(e),
            Ok(members) => decode_household(row, members),
        },
    }
}

/// Whether the rows that store `household` stand for it again.
pub open spec fn reads_back(household: HouseholdView) -> bool {
    assemble_household(household_row(household), member_rows(household.members)) == Ok::<
        HouseholdView,
        StorageError,
    >(household)
}

/// Whether `query` occurs, compared exactly, in one of the four fields that
/// a search looks at.
pub open spec fn fields_match(
    head_name: Seq<char>,
    id_number: Seq<char>,
    address: Seq<char>,
    phone: Seq<char>,
    query: Seq<char>,
) -> bool {
    ||| occurs_in(query, head_name)
    ||| occurs_in(query, id_number)
    ||| occurs_in(query, address)
    ||| occurs_in(query, phone)
}

impl HouseholdView {
    /// Whether a search for `query` finds the household.
    pub open spec fn matches(self, query: Seq<char>) -> bool {
        fields_match(self.head_name, self.id_number, self.address, self.phone, query)
    }
}

impl HouseholdRowView {
    /// Whether a search for `query` finds the row.
    pub open spec fn matches(self, query: Seq<char>) -> bool {
        fields_match(self.head_name, self.id_number, self.address, self.phone, query)
    }
}

impl MemberRow {
    /// The row that stores `member`. It stands for `member` again.
    pub fn encode(member: &Member) -> (r: MemberRow)
        ensures
            r@ == member_row(member@),
            decode_member(r@) == Ok::<MemberView, StorageError>(member@),
    {
        proof {
            member.relationship.lemma_label_round_trip();
            member.gender.lemma_label_round_trip();
            member.education.lemma_label_round_trip();
        }
        MemberRow {
            name: member.name.clone(),
            id_number: member.id_number.clone(),
            relationship: member.relationship.to_string(),
            birth_date: member.birth_date.to_string(),
            gender: member.gender.to_string(),
            education: member.education.to_string(),
            occupation: member.occupation.clone(),
        }
    }

    /// The member that the row stands for.
    pub fn decode(&self) -> (r: Result<Member, StorageError>)
        ensures
            match r {
                Ok(member) => decode_member(self@) == Ok::<MemberView, StorageError>(member@),
                Err(e) => decode_member(self@) == Err::<MemberView, StorageError>(e),
            },
    {
        let relationship = Relationship::from_label(self.relationship.as_str());
        let birth_date = match Date::parse(self.birth_date.as_str()) {
            Some(date) => date,
            None => {
                return Err(StorageError::InvalidBirthDate);
            },
        };
        let gender = Gender::from_label(self.gender.as_str());
        let education = Education::from_label(self.education.as_str());
        Ok(
            Member {
                name: self.name.clone(),
                id_number: self.id_number.clone(),
                relationship,
                birth_date,
                gender,
                education,
                occupation: self.occupation.clone(),
            },
        )
    }

    pub fn clone_row(&self) -> (r: MemberRow)
        ensures
            r@ == self@,
    {
        MemberRow {
            name: self.name.clone(),
            id_number: self.id_number.clone(),
            relationship: self.relationship.clone(),
            birth_date: self.birth_date.clone(),
            gender: self.gender.clone(),
            education: self.education.clone(),
            occupation: self.occupation.clone(),
        }
    }
}

/// The members that the rows stand for, or the error of the first row that
/// has one.
pub fn decode_member_rows(rows: &Vec<MemberRow>) -> (r: Result<Vec<Member>, StorageError>)
    ensures
        match r {
            Ok(members) => decode_members(member_rows_view(rows@)) == Ok::<
                Seq<MemberView>,
                StorageError,
            >(members_view(members@)),
            Err(e) => decode_members(member_rows_view(rows@)) == Err::<
                Seq<MemberView>,
                StorageError,
            >(e),
        },
{
    let ghost all = member_rows_view(rows@);
    let mut out: Vec<Member> = Vec::new();
    let mut i: usize = 0;
    assert(all.take(0) =~= Seq::empty());
    assert(members_view(out@) =~= Seq::empty());
    while i < rows.len()
        invariant
            i <= rows.len(),
            all == member_rows_view(rows@),
            decode_members(all.take(i as int)) == Ok::<Seq<MemberView>, StorageError>(
                members_view(out@),
            ),
        decreases rows.len() - i,
    {
        let ghost before = members_view(out@);
        proof {
            assert(all.take(i + 1).drop_last() =~= all.take(i as int));
            assert(all.take(i + 1).last() == rows[i as int]@);
        }
        match rows[i].decode() {
            Ok(member) => {
                out.push(member);
                assert(members_view(out@) =~= before.push(member@));
            },
            Err(e) => {
                proof {
                    lemma_decode_members_fails_on(all, i as int);
                }
                return Err(e);
            },
        }
        i += 1;
    }
    assert(all.take(rows.len() as int) =~= all);
    Ok(out)
}

/// Where the rows before `k` decode and row `k` does not, the whole list
/// fails with the error of row `k`.
pub proof fn lemma_decode_members_fails_on(rows: Seq<MemberRowView>, k: int)
    requires
        0 <= k < rows.len(),
        decode_members(rows.take(k)) is Ok,
        decode_member(rows[k]) is Err,
    ensures
        decode_members(rows) == Err::<Seq<MemberView>, StorageError>(decode_member(rows[k])->Err_0),
    decreases rows.len(),
{
    if k == rows.len() - 1 {
        assert(rows.drop_last() =~= rows.take(k));
    } else {
        assert(rows.drop_last().take(k) =~= rows.take(k));
        lemma_decode_members_fails_on(rows.drop_last(), k);
    }
}

impl HouseholdRow {
    /// The row that stores `household`. With the members of `household`
    /// it stands for `household` again.
    pub fn encode(household: &Household) -> (r: HouseholdRow)
        ensures
            r@ == household_row(household@),
            forall|members: Seq<MemberView>| #[trigger]
                decode_household(r@, members) == Ok::<HouseholdView, StorageError>(
                    HouseholdView { members, ..household@ },
                ),
    {
        proof {
            household.household_type.lemma_label_round_trip();
        }
        HouseholdRow {
            id: household.id.to_string(),
            head_name: household.head_name.clone(),
            id_number: household.id_number.clone(),
            address: household.address.clone(),
            phone: household.phone.clone(),
            household_type: household.household_type.to_string(),
            registration_date: household.registration_date.to_string(),
        }
    }

    /// The household that the row stands for, with the given members.
    pub fn decode(&self, members: Vec<Member>) -> (r: Result<Household, StorageError>)
        ensures
            match r {
                Ok(household) => decode_household(self@, members_view(members@)) == Ok::<
                    HouseholdView,
                    StorageError,
                >(household@),
                Err(e) => decode_household(self@, members_view(members@)) == Err::<
                    HouseholdView,
                    StorageError,
                >(e),
            },
    {
        let id = match HouseholdId::parse_str(self.id.as_str()) {
            Some(id) => id,
            None => {
                return Err(StorageError::InvalidIdentifier);
            },
        };
        let household_type = HouseholdType::from_label(self.household_type.as_str());
        let registration_date = if text_contains(self.registration_date.as_str(), " ") {
            match DateTime::parse(self.registration_date.as_str()) {
                Some(moment) => moment,
                None => {
                    return Err(StorageError::InvalidDate);
                },
            }
        } else {
            match Date::parse(self.registration_date.as_str()) {
                Some(date) => DateTime::midnight(date),
                None => {
                    return Err(StorageError::InvalidDate);
                },
            }
        };
        Ok(
            Household {
                id,
                head_name: self.head_name.clone(),
                id_number: self.id_number.clone(),
                address: self.address.clone(),
                phone: self.phone.clone(),
                household_type,
                registration_date,
                members,
            },
        )
    }

    /// Whether a search for `query` finds the row: whether `query` occurs,
    /// compared exactly, in the head's name, the identity number, the
    /// address or the phone.
    pub fn matches(&self, query: &str) -> (r: bool)
        ensures
            r == self@.matches(query@),
    {
        text_contains(self.head_name.as_str(), query) || text_contains(
            self.id_number.as_str(),
            query,
        ) || text_contains(self.address.as_str(), query) || text_contains(
            self.phone.as_str(),
            query,
        )
    }

    pub fn clone_row(&self) -> (r: HouseholdRow)
        ensures
            r@ == self@,
    {
        HouseholdRow {
            id: self.id.clone(),
            head_name: self.head_name.clone(),
            id_number: self.id_number.clone(),
            address: self.address.clone(),
            phone: self.phone.clone(),
            household_type: self.household_type.clone(),
            registration_date: self.registration_date.clone(),
        }
    }
}

} // verus!
