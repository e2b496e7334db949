//! Households, their members, and the forms through which they are edited.

use crate::calendar::{Date, DateTime, DateTimeView, DateView};
use crate::identity::HouseholdId;
use crate::text::same_text;
use vstd::prelude::*;
use vstd::string::StringExecFns;

verus! {

/// Where a household is registered.
#[derive(Clone, Copy, Debug, PartialEq, Eq, Structural)]
pub enum HouseholdType {
    Urban,
    Rural,
}

/// How a member stands to the head of the household.
#[derive(Clone, Copy, Debug, PartialEq, Eq, Structural)]
pub enum Relationship {
    Head,
    Spouse,
    Child,
    Parent,
    Other,
}

#[derive(Clone, Copy, Debug, PartialEq, Eq, Structural)]
pub enum Gender {
    Male,
    Female,
}

/// The highest schooling a member has completed.
#[derive(Clone, Copy, Debug, PartialEq, Eq, Structural)]
pub enum Education {
    Primary,
    MiddleSchool,
    HighSchool,
    College,
    University,
    Graduate,
    Other,
}

impl HouseholdType {
    /// The text under which the value is shown and stored.
    pub open spec fn label(self) -> Seq<char> {
        match self {
            HouseholdType::Urban => "城镇户口"@,
            HouseholdType::Rural => "农村户口"@,
        }
    }

    /// The value a stored text stands for; a text that is no label stands
    /// for `Urban`.
    pub open spec fn of_label(text: Seq<char>) -> HouseholdType {
        if text == "农村户口"@ {
            HouseholdType::Rural
        } else {
            HouseholdType::Urban
        }
    }

    pub fn to_string(&self) -> (r: String)
        ensures
            r@ == self.label(),
    {
        match self {
            HouseholdType::Urban => String::from_str("城镇户口"),
            HouseholdType::Rural => String::from_str("农村户口"),
        }
    }

    pub fn from_label(text: &str) -> (r: HouseholdType)
        ensures
            r == HouseholdType::of_label(text@),
    {
        if same_text(text, "农村户口") {
            HouseholdType::Rural
        } else {
            HouseholdType::Urban
        }
    }

    /// Every label is read back as the value it was written for.
    pub proof fn lemma_label_round_trip(self)
        ensures
            HouseholdType::of_label(self.label()) == self,
    {
        reveal_strlit("城镇户口");
        reveal_strlit("农村户口");
        assert("城镇户口"@[0] != "农村户口"@[0]);
    }
}

impl Default for HouseholdType {
    fn default() -> (r: HouseholdType)
        ensures
            r == HouseholdType::Urban,
    {
        HouseholdType::Urban
    }
}

impl Relationship {
    /// The text under which the value is shown and stored.
    pub open spec fn label(self) -> Seq<char> {
        match self {
            Relationship::Head => "户主"@,
            Relationship::Spouse => "配偶"@,
            Relationship::Child => "子女"@,
            Relationship::Parent => "父母"@,
            Relationship::Other => "其他"@,
        }
    }

    /// The value a stored text stands for; a text that is no label stands
    /// for `Other`.
    pub open spec fn of_label(text: Seq<char>) -> Relationship {
        if text == "户主"@ {
            Relationship::Head
        } else if text == "配偶"@ {
            Relationship::Spouse
        } else if text == "子女"@ {
            Relationship::Child
        } else if text == "父母"@ {
            Relationship::Parent
        } else {
            Relationship::Other
        }
    }

    pub fn to_string(&self) -> (r: String)
        ensures
            r@ == self.label(),
    {
        match self {
            Relationship::Head => String::from_str("户主"),
            Relationship::Spouse => String::from_str("配偶"),
            Relationship::Child => String::from_str("子女"),
            Relationship::Parent => String::from_str("父母"),
            Relationship::Other => String::from_str("其他"),
        }
    }

    pub fn from_label(text: &str) -> (r: Relationship)
        ensures
            r == Relationship::of_label(text@),
    {
        if same_text(text, "户主") {
            Relationship::Head
        } else if same_text(text, "配偶") {
            Relationship::Spouse
        } else if same_text(text, "子女") {
            Relationship::Child
        } else if same_text(text, "父母") {
            Relationship::Parent
        } else {
            Relationship::Other
        }
    }

    /// Every label is read back as the value it was written for.
    pub proof fn lemma_label_round_trip(self)
        ensures
            Relationship::of_label(self.label()) == self,
    {
        reveal_strlit("户主");
        reveal_strlit("配偶");
        reveal_strlit("子女");
        reveal_strlit("父母");
        reveal_strlit("其他");
        assert("户主"@[0] == '户');
        assert("配偶"@[0] == '配');
        assert("子女"@[0] == '子');
        assert("父母"@[0] == '父');
        assert("其他"@[0] == '其');
    }
}

impl Default for Relationship {
    fn default() -> (r: Relationship)
        ensures
            r == Relationship::Head,
    {
        Relationship::Head
    }
}

impl Gender {
    /// The text under which the value is shown and stored.
    pub open spec fn label(self) -> Seq<char> {
        match self {
            Gender::Male => "男"@,
            Gender::Female => "女"@,
        }
    }

    /// The value a stored text stands for; a text that is no label stands
    /// for `Male`.
    pub open spec fn of_label(text: Seq<char>) -> Gender {
        if text == "女"@ {
            Gender::Female
        } else {
            Gender::Male
        }
    }

    pub fn to_string(&self) -> (r: String)
        ensures
            r@ == self.label(),
    {
        match self {
            Gender::Male => String::from_str("男"),
            Gender::Female => String::from_str("女"),
        }
    }

    pub fn from_label(text: &str) -> (r: Gender)
        ensures
            r == Gender::of_label(text@),
    {
        if same_text(text, "女") {
            Gender::Female
        } else {
            Gender::Male
        }
    }

    /// Every label is read back as the value it was written for.
    pub proof fn lemma_label_round_trip(self)
        ensures
            Gender::of_label(self.label()) == self,
    {
        reveal_strlit("男");
        reveal_strlit("女");
        assert("男"@[0] != "女"@[0]);
    }
}

impl Default for Gender {
    fn default() -> (r: Gender)
        ensures
            r == Gender::Male,
    {
        Gender::Male
    }
}

impl Education {
    /// The text under which the value is shown and stored.
    pub open spec fn label(self) -> Seq<char> {
        match self {
            Education::Primary => "小学"@,
            Education::MiddleSchool => "初中"@,
            Education::HighSchool => "高中"@,
            Education::College => "大专"@,
            Education::University => "本科"@,
            Education::Graduate => "研究生"@,
            Education::Other => "其他"@,
        }
    }

    /// The value a stored text stands for; a text that is no label stands
    /// for `Other`.
    pub open spec fn of_label(text: Seq<char>) -> Education {
        if text == "小学"@ {
            Education::Primary
        } else if text == "初中"@ {
            Education::MiddleSchool
        } else if text == "高中"@ {
            Education::HighSchool
        } else if text == "大专"@ {
            Education::College
        } else if text == "本科"@ {
            Education::University
        } else if text == "研究生"@ {
            Education::Graduate
        } else {
            Education::Other
        }
    }

    pub fn to_string(&self) -> (r: String)
        ensures
            r@ == self.label(),
    {
        match self {
            Education::Primary => String::from_str("小学"),
            Education::MiddleSchool => String::from_str("初中"),
            Education::HighSchool => String::from_str("高中"),
            Education::College => String::from_str("大专"),
            Education::University => String::from_str("本科"),
            Education::Graduate => String::from_str("研究生"),
            Education::Other => String::from_str("其他"),
        }
    }

    pub fn from_label(text: &str) -> (r: Education)
        ensures
            r == Education::of_label(text@),
    {
        if same_text(text, "小学") {
            Education::Primary
        } else if same_text(text, "初中") {
            Education::MiddleSchool
        } else if same_text(text, "高中") {
            Education::HighSchool
        } else if same_text(text, "大专") {
            Education::College
        } else if same_text(text, "本科") {
            Education::University
        } else if same_text(text, "研究生") {
            Education::Graduate
        } else {
            Education::Other
        }
    }

    /// Every label is read back as the value it was written for.
    pub proof fn lemma_label_round_trip(self)
        ensures
            Education::of_label(self.label()) == self,
    {
        reveal_strlit("小学");
        reveal_strlit("初中");
        reveal_strlit("高中");
        reveal_strlit("大专");
        reveal_strlit("本科");
        reveal_strlit("研究生");
        reveal_strlit("其他");
        assert("小学"@[0] == '小');
        assert("初中"@[0] == '初');
        assert("高中"@[0] == '高');
        assert("大专"@[0] == '大');
        assert("本科"@[0] == '本');
        assert("研究生"@[0] == '研');
        assert("其他"@[0] == '其');
    }
}

impl Default for Education {
    fn default() -> (r: Education)
        ensures
            r == Education::University,
    {
        Education::University
    }
}

/// One person of a household.
#[derive(Debug)]
pub struct Member {
    pub name: String,
    pub id_number: String,
    pub relationship: Relationship,
    pub birth_date: Date,
    pub gender: Gender,
    pub education: Education,
    pub occupation: String,
}

/// A registered household with its members, in their order.
#[derive(Debug)]
pub struct Household {
    pub id: HouseholdId,
    pub head_name: String,
    pub id_number: String,
    pub address: String,
    pub phone: String,
    pub household_type: HouseholdType,
    pub registration_date: DateTime,
    pub members: Vec<Member>,
}

/// What a `Member` stands for.
pub struct MemberView {
    pub name: Seq<char>,
    pub id_number: Seq<char>,
    pub relationship: Relationship,
    pub birth_date: DateView,
    pub gender: Gender,
    pub education: Education,
    pub occupation: Seq<char>,
}

/// What a `Household` stands for.
pub struct HouseholdView {
    pub id: HouseholdId,
    pub head_name: Seq<char>,
    pub id_number: Seq<char>,
    pub address: Seq<char>,
    pub phone: Seq<char>,
    pub household_type: HouseholdType,
    pub registration_date: DateTimeView,
    pub members: Seq<MemberView>,
}

impl MemberView {
    /// The birth date is an existing day.
    pub open spec fn wf(self) -> bool {
        self.birth_date.wf()
    }
}

impl HouseholdView {
    /// The registration date is an existing moment and every member is
    /// well-formed.
    pub open spec fn wf(self) -> bool {
        &&& self.registration_date.wf()
        &&& forall|i: int| 0 <= i < self.members.len() ==> (#[trigger] self.members[i]).wf()
    }
}

impl View for Member {
    type V = MemberView;

    open spec fn view(&self) -> MemberView {
        MemberView {
            name: self.name@,
            id_number: self.id_number@,
            relationship: self.relationship,
            birth_date: self.birth_date@,
            gender: self.gender,
            education: self.education,
            occupation: self.occupation@,
        }
    }
}

/// The members a sequence of `Member` values stands for.
pub open spec fn members_view(members: Seq<Member>) -> Seq<MemberView> {
    Seq::new(members.len(), |i: int| members[i]@)
}

/// The households a sequence of `Household` values stands for.
pub open spec fn households_view(households: Seq<Household>) -> Seq<HouseholdView> {
    Seq::new(households.len(), |i: int| households[i]@)
}

/// The number of members of the given households, all together.
pub open spec fn members_total(households: Seq<HouseholdView>) -> nat
    decreases households.len(),
{
    if households.len() == 0 {
        0
    } else {
        members_total(households.drop_last()) + households.last().members.len()
    }
}

impl View for Household {
    type V = HouseholdView;

    open spec fn view(&self) -> HouseholdView {
        HouseholdView {
            id: self.id,
            head_name: self.head_name@,
            id_number: self.id_number@,
            address: self.address@,
            phone: self.phone@,
            household_type: self.household_type,
            registration_date: self.registration_date@,
            members: members_view(self.members@),
        }
    }
}

impl Clone for Member {
    fn clone(&self) -> (r: Member)
        ensures
            r@ == self@,
    {
        Member {
            name: self.name.clone(),
            id_number: self.id_number.clone(),
            relationship: self.relationship,
            birth_date: self.birth_date,
            gender: self.gender,
            education: self.education,
            occupation: self.occupation.clone(),
        }
    }
}

/// Copies a list of members.
pub fn clone_members(members: &Vec<Member>) -> (r: Vec<Member>)
    ensures
        members_view(r@) == members_view(members@),
{
    let mut out: Vec<Member> = Vec::new();
    let mut i: usize = 0;
    while i < members.len()
        invariant
            i <= members.len(),
            out.len() == i,
            forall|j: int| 0 <= j < i ==> out[j]@ == members[j]@,
        decreases members.len() - i,
    {
        out.push(members[i].clone());
        i += 1;
    }
    assert(members_view(out@) =~= members_view(members@));
    out
}

impl Clone for Household {
    fn clone(&self) -> (r: Household)
        ensures
            r@ == self@,
    {
        Household {
            id: self.id,
            head_name: self.head_name.clone(),
            id_number: self.id_number.clone(),
            address: self.address.clone(),
            phone: self.phone.clone(),
            household_type: self.household_type,
            registration_date: self.registration_date,
            members: clone_members(&self.members),
        }
    }
}

/// Copies a list of households.
pub fn clone_households(households: &Vec<Household>) -> (r: Vec<Household>)
    ensures
        households_view(r@) == households_view(households@),
{
    let mut out: Vec<Household> = Vec::new();
    let mut i: usize = 0;
    while i < households.len()
        invariant
            i <= households.len(),
            out.len() == i,
            forall|j: int| 0 <= j < i ==> out[j]@ == households[j]@,
        decreases households.len() - i,
    {
        out.push(households[i].clone());
        i += 1;
    }
    assert(households_view(out@) =~= households_view(households@));
    out
}

/// The editable fields of a member, as a form holds them: the birth date is
/// three numbers that need not name an existing day.
#[derive(Debug)]
pub struct MemberForm {
    pub name: String,
    pub id_number: String,
    pub relationship: Relationship,
    pub birth_year: i32,
    pub birth_month: u32,
    pub birth_day: u32,
    pub gender: Gender,
    pub education: Education,
    pub occupation: String,
}

/// The editable fields of a household, as a form holds them.
#[derive(Debug)]
pub struct HouseholdForm {
    pub head_name: String,
    pub id_number: String,
    pub address: String,
    pub phone: String,
    pub household_type: HouseholdType,
    pub members: Vec<MemberForm>,
}

/// What a `MemberForm` stands for.
pub struct MemberFormView {
    pub name: Seq<char>,
    pub id_number: Seq<char>,
    pub relationship: Relationship,
    pub birth_year: int,
    pub birth_month: int,
    pub birth_day: int,
    pub gender: Gender,
    pub education: Education,
    pub occupation: Seq<char>,
}

/// What a `HouseholdForm` stands for.
pub struct HouseholdFormView {
    pub head_name: Seq<char>,
    pub id_number: Seq<char>,
    pub address: Seq<char>,
    pub phone: Seq<char>,
    pub household_type: HouseholdType,
    pub members: Seq<MemberFormView>,
}

impl View for MemberForm {
    type V = MemberFormView;

    open spec fn view(&self) -> MemberFormView {
        MemberFormView {
            name: self.name@,
            id_number: self.id_number@,
            relationship: self.relationship,
            birth_year: self.birth_year as int,
            birth_month: self.birth_month as int,
            birth_day: self.birth_day as int,
            gender: self.gender,
            education: self.education,
            occupation: self.occupation@,
        }
    }
}

/// The forms a sequence of `MemberForm` values stands for.
pub open spec fn member_forms_view(forms: Seq<MemberForm>) -> Seq<MemberFormView> {
    Seq::new(forms.len(), |i: int| forms[i]@)
}

impl View for HouseholdForm {
    type V = HouseholdFormView;

    open spec fn view(&self) -> HouseholdFormView {
        HouseholdFormView {
            head_name: self.head_name@,
            id_number: self.id_number@,
            address: self.address@,
            phone: self.phone@,
            household_type: self.household_type,
            members: member_forms_view(self.members@),
        }
    }
}

impl MemberFormView {
    /// The form a member is edited through.
    pub open spec fn of_member(member: MemberView) -> MemberFormView {
        MemberFormView {
            name: member.name,
            id_number: member.id_number,
            relationship: member.relationship,
            birth_year: member.birth_date.year,
            birth_month: member.birth_date.month,
            birth_day: member.birth_date.day,
            gender: member.gender,
            education: member.education,
            occupation: member.occupation,
        }
    }

    /// The birth date that the three numbers of the form spell.
    pub open spec fn birth_date(self) -> DateView {
        DateView { year: self.birth_year, month: self.birth_month, day: self.birth_day }
    }

    /// The member that the form describes; it is one only where the birth
    /// date exists.
    pub open spec fn member(self) -> MemberView {
        MemberView {
            name: self.name,
            id_number: self.id_number,
            relationship: self.relationship,
            birth_date: self.birth_date(),
            gender: self.gender,
            education: self.education,
            occupation: self.occupation,
        }
    }

    /// The form as it stands before anything is entered.
    pub open spec fn empty() -> MemberFormView {
        MemberFormView {
            name: Seq::empty(),
            id_number: Seq::empty(),
            relationship: Relationship::Head,
            birth_year: 0,
            birth_month: 0,
            birth_day: 0,
            gender: Gender::Male,
            education: Education::University,
            occupation: Seq::empty(),
        }
    }
}

impl HouseholdFormView {
    /// The form a household is edited through.
    pub open spec fn of_household(household: HouseholdView) -> HouseholdFormView {
        HouseholdFormView {
            head_name: household.head_name,
            id_number: household.id_number,
            address: household.address,
            phone: household.phone,
            household_type: household.household_type,
            members: Seq::new(
                household.members.len(),
                |i: int| MemberFormView::of_member(household.members[i]),
            ),
        }
    }

    /// Whether every member of the form has a birth date that exists.
    pub open spec fn dates_exist(self) -> bool {
        forall|i: int| 0 <= i < self.members.len() ==> (#[trigger] self.members[i]).birth_date().wf()
    }

    /// The household that the form describes under the given identity and
    /// registration date.
    pub open spec fn household(
        self,
        id: HouseholdId,
        registration_date: DateTimeView,
    ) -> HouseholdView {
        HouseholdView {
            id,
            head_name: self.head_name,
            id_number: self.id_number,
            address: self.address,
            phone: self.phone,
            household_type: self.household_type,
            registration_date,
            members: Seq::new(self.members.len(), |i: int| self.members[i].member()),
        }
    }

    /// The form as it stands before anything is entered: no members.
    pub open spec fn empty() -> HouseholdFormView {
        HouseholdFormView {
            head_name: Seq::empty(),
            id_number: Seq::empty(),
            address: Seq::empty(),
            phone: Seq::empty(),
            household_type: HouseholdType::Urban,
            members: Seq::empty(),
        }
    }

    /// The form as it stands when a new household is begun: one empty member.
    pub open spec fn cleared() -> HouseholdFormView {
        HouseholdFormView { members: seq![MemberFormView::empty()], ..HouseholdFormView::empty() }
    }
}

impl Clone for MemberForm {
    fn clone(&self) -> (r: MemberForm)
        ensures
            r@ == self@,
    {
        MemberForm {
            name: self.name.clone(),
            id_number: self.id_number.clone(),
            relationship: self.relationship,
            birth_year: self.birth_year,
            birth_month: self.birth_month,
            birth_day: self.birth_day,
            gender: self.gender,
            education: self.education,
            occupation: self.occupation.clone(),
        }
    }
}

impl Clone for HouseholdForm {
    fn clone(&self) -> (r: HouseholdForm)
        ensures
            r@ == self@,
    {
        let mut members: Vec<MemberForm> = Vec::new();
        let mut i: usize = 0;
        while i < self.members.len()
            invariant
                i <= self.members.len(),
                members.len() == i,
                forall|j: int| 0 <= j < i ==> members[j]@ == self.members[j]@,
            decreases self.members.len() - i,
        {
            members.push(self.members[i].clone());
            i += 1;
        }
        assert(member_forms_view(members@) =~= member_forms_view(self.members@));
        HouseholdForm {
            head_name: self.head_name.clone(),
            id_number: self.id_number.clone(),
            address: self.address.clone(),
            phone: self.phone.clone(),
            household_type: self.household_type,
            members,
        }
    }
}

impl Default for MemberForm {
    fn default() -> (r: MemberForm)
        ensures
            r@ == MemberFormView::empty(),
    {
        MemberForm {
            name: String::new(),
            id_number: String::new(),
            relationship: Relationship::Head,
            birth_year: 0,
            birth_month: 0,
            birth_day: 0,
            gender: Gender::Male,
            education: Education::University,
            occupation: String::new(),
        }
    }
}

impl Default for HouseholdForm {
    fn default() -> (r: HouseholdForm)
        ensures
            r@ == HouseholdFormView::empty(),
    {
        let r = HouseholdForm {
            head_name: String::new(),
            id_number: String::new(),
            address: String::new(),
            phone: String::new(),
            household_type: HouseholdType::Urban,
            members: Vec::new(),
        };
        assert(r@.members =~= Seq::empty());
        r
    }
}

impl MemberForm {
    /// The form that shows `member` for editing.
    pub fn from_member(member: &Member) -> (r: MemberForm)
        ensures
            r@ == MemberFormView::of_member(member@),
    {
        MemberForm {
            name: member.name.clone(),
            id_number: member.id_number.clone(),
            relationship: member.relationship,
            birth_year: member.birth_date.year(),
            birth_month: member.birth_date.month(),
            birth_day: member.birth_date.day(),
            gender: member.gender,
            education: member.education,
            occupation: member.occupation.clone(),
        }
    }

    /// The member that the form describes. It fails, with the text
    /// `无效的出生日期`, exactly when the birth date is no existing day.
    pub fn to_member(&self) -> (r: Result<Member, String>)
        ensures
            match r {
                Ok(member) => self@.birth_date().wf() && member@ == self@.member(),
                Err(reason) => !self@.birth_date().wf() && reason@ == "无效的出生日期"@,
            },
    {
        match Date::from_ymd_opt(self.birth_year, self.birth_month, self.birth_day) {
            Some(birth_date) => Ok(
                Member {
                    name: self.name.clone(),
                    id_number: self.id_number.clone(),
                    relationship: self.relationship,
                    birth_date,
                    gender: self.gender,
                    education: self.education,
                    occupation: self.occupation.clone(),
                },
            ),
            None => Err(String::from_str("无效的出生日期")),
        }
    }
}

impl HouseholdForm {
    /// The form that shows `household` for editing.
    pub fn from_household(household: &Household) -> (r: HouseholdForm)
        ensures
            r@ == HouseholdFormView::of_household(household@),
    {
        let mut members: Vec<MemberForm> = Vec::new();
        let mut i: usize = 0;
        while i < household.members.len()
            invariant
                i <= household.members.len(),
                members.len() == i,
                forall|j: int|
                    0 <= j < i ==> members[j]@ == MemberFormView::of_member(
                        household.members[j]@,
                    ),
            decreases household.members.len() - i,
        {
            members.push(MemberForm::from_member(&household.members[i]));
            i += 1;
        }
        let r = HouseholdForm {
            head_name: household.head_name.clone(),
            id_number: household.id_number.clone(),
            address: household.address.clone(),
            phone: household.phone.clone(),
            household_type: household.household_type,
            members,
        };
        assert(r@.members =~= HouseholdFormView::of_household(household@).members);
        r
    }

    /// The household that the form describes under the identity `id`,
    /// registered at `registration_date`. There is one exactly when every
    /// member's birth date exists.
    pub fn to_household_at(&self, id: HouseholdId, registration_date: DateTime) -> (r: Option<
        Household,
    >)
        ensures
            r is Some <==> self@.dates_exist(),
            r matches Some(household) ==> household@ == self@.household(id, registration_date@),
    {
        let mut members: Vec<Member> = Vec::new();
        let mut i: usize = 0;
        while i < self.members.len()
            invariant
                i <= self.members.len(),
                members.len() == i,
                forall|j: int| 0 <= j < i ==> (#[trigger] self@.members[j]).birth_date().wf(),
                forall|j: int| 0 <= j < i ==> members[j]@ == self.members[j]@.member(),
            decreases self.members.len() - i,
        {
            match self.members[i].to_member() {
                Ok(member) => {
                    assert(self@.members[i as int] == self.members[i as int]@);
                    members.push(member);
                },
                Err(_) => {
                    assert(self@.members[i as int] == self.members[i as int]@);
                    return None;
                },
            }
            i += 1;
        }
        let r = Household {
            id,
            head_name: self.head_name.clone(),
            id_number: self.id_number.clone(),
            address: self.address.clone(),
            phone: self.phone.clone(),
            household_type: self.household_type,
            registration_date,
            members,
        };
        assert(r@.members =~= self@.household(id, registration_date@).members);
        Some(r)
    }

    /// The household that the form describes. As an edit of `existing` it
    /// keeps the identity and the registration date of `existing`; as a new
    /// household it gets a fresh identity and is registered now. There is a
    /// household exactly when every member's birth date exists.
    pub fn to_household(&self, existing: Option<&Household>) -> (r: Option<Household>)
        ensures
            r is Some <==> self@.dates_exist(),
            r matches Some(household) ==> match existing {
                Some(edited) => household@ == self@.household(
                    edited.id,
                    edited@.registration_date,
                ),
                None => household@ == self@.household(
                    household.id,
                    household@.registration_date,
                ) && household@.registration_date.wf(),
            },
    {
        match existing {
            Some(edited) => self.to_household_at(edited.id, edited.registration_date),
            None => self.to_household_at(HouseholdId::new_v4(), DateTime::now()),
        }
    }

    /// Empties the form and gives it one empty member to fill in.
    pub fn clear(&mut self)
        ensures
            final(self)@ == HouseholdFormView::cleared(),
    {
        *self = HouseholdForm::default();
        self.members.push(MemberForm::default());
        assert(self@.members =~= HouseholdFormView::cleared().members);
    }
}

} // verus!
