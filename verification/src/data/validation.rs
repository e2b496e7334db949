//! The rules a form must meet before its record may be stored.

use crate::calendar::{is_calendar_date, Date};
use crate::data::models::{HouseholdForm, HouseholdFormView, MemberForm, MemberFormView};
use crate::text::{blank, decimal, decimal_text, is_ascii_digit, is_blank};
use vstd::prelude::*;
use vstd::string::StrSliceExecFns;
use vstd::string::StringExecFns;

verus! {

/// The earliest birth year a form may give.
pub const MIN_BIRTH_YEAR: i32 = 1900;

/// The latest birth year a form may give.
pub const MAX_BIRTH_YEAR: i32 = 2024;

/// The shape of an identity number: 18 characters, the first 17 of them
/// ASCII digits, the last an ASCII digit or the letter X in either case.
pub open spec fn id_number_ok(id: Seq<char>) -> bool {
    &&& id.len() == 18
    &&& forall|i: int| 0 <= i < 17 ==> is_ascii_digit(#[trigger] id[i])
    &&& (is_ascii_digit(id[17]) || id[17] == 'X' || id[17] == 'x')
}

/// The shape of a phone number: 11 ASCII digits, the first of them `1`.
pub open spec fn phone_ok(phone: Seq<char>) -> bool {
    &&& phone.len() == 11
    &&& phone[0] == '1'
    &&& forall|i: int| 0 <= i < 11 ==> is_ascii_digit(#[trigger] phone[i])
}

/// The reason for which a member form is refused: that of the first rule,
/// in this order, that it breaks. `None` where it breaks no rule. The
/// rules: the identity number is not empty, has 18 characters, has the
/// shape of an identity number; the birth year is from 1900 to 2024, the
/// month from 1 to 12, the day from 1 to 31; the three name an existing
/// day. Nothing is asked of the name.
pub open spec fn member_form_error(form: MemberFormView) -> Option<Seq<char>> {
    if form.id_number.len() == 0 {
        Some("身份证号不能为空"@)
    } else if form.id_number.len() != 18 {
        Some("身份证号必须是18位"@)
    } else if !id_number_ok(form.id_number) {
        Some("身份证号格式不正确"@)
    } else if form.birth_year < MIN_BIRTH_YEAR || form.birth_year > MAX_BIRTH_YEAR {
        Some("出生年份不合理"@)
    } else if form.birth_month < 1 || form.birth_month > 12 {
        Some("出生月份必须在1-12之间"@)
    } else if form.birth_day < 1 || form.birth_day > 31 {
        Some("出生日期必须在1-31之间"@)
    } else if !is_calendar_date(form.birth_year, form.birth_month, form.birth_day) {
        Some("无效的出生日期"@)
    } else {
        None
    }
}

/// The position of the first member form, at `start` or after it, that is
/// refused; the number of forms where none is.
pub open spec fn first_refused_member(members: Seq<MemberFormView>, start: int) -> int
    decreases members.len() - start,
{
    if start < 0 || start >= members.len() {
        members.len() as int
    } else if member_form_error(members[start]) is Some {
        start
    } else {
        first_refused_member(members, start + 1)
    }
}

/// The reason given for the member at `position` (counted from 0): the
/// member's own reason behind its position counted from 1.
pub open spec fn member_error_text(position: int, reason: Seq<char>) -> Seq<char> {
    "第"@ + decimal((position + 1) as nat) + "个成员: "@ + reason
}

/// The reason for which a household form is refused: that of the first rule,
/// in this order, that it breaks. `None` where it breaks no rule. The
/// rules: the head's name is more than whitespace; the identity number is
/// not empty, has 18 characters, has the shape of an identity number; the
/// address is not empty; the phone is empty or has the shape of a phone
/// number; there is a member; every member form breaks no rule.
pub open spec fn household_form_error(form: HouseholdFormView) -> Option<Seq<char>> {
    if blank(form.head_name) {
        Some("户主姓名不能为空"@)
    } else if form.id_number.len() == 0 {
        Some("身份证号不能为空"@)
    } else if form.id_number.len() != 18 {
        Some("身份证号必须是18位"@)
    } else if !id_number_ok(form.id_number) {
        Some("身份证号格式不正确"@)
    } else if form.address.len() == 0 {
        Some("地址不能为空"@)
    } else if form.phone.len() > 0 && !phone_ok(form.phone) {
        Some("手机号格式不正确"@)
    } else if form.members.len() == 0 {
        Some("至少需要一个家庭成员"@)
    } else {
        let k = first_refused_member(form.members, 0);
        if k < form.members.len() {
            Some(member_error_text(k, member_form_error(form.members[k])->0))
        } else {
            None
        }
    }
}

/// What can be checked before it is stored: the check passes, or gives the
/// reason of the first rule that is broken.
pub trait Validate {
    /// The reason for which the value is refused, if it is.
    spec fn refusal(&self) -> Option<Seq<char>>;

    fn validate(&self) -> (r: Result<(), String>)
        ensures
            match r {
                Ok(_) => self.refusal() is None,
                Err(reason) => self.refusal() == Some(reason@),
            },
    ;
}

/// Tells whether `id` has the shape of an identity number.
pub fn validate_id_number(id: &str) -> (r: bool)
    ensures
        r == id_number_ok(id@),
{
    if id.unicode_len() != 18 {
        return false;
    }
    let mut i: usize = 0;
    while i < 17
        invariant
            i <= 17,
            id@.len() == 18,
            forall|j: int| 0 <= j < i ==> is_ascii_digit(#[trigger] id@[j]),
        decreases 17 - i,
    {
        let c = id.get_char(i);
        if !('0' <= c && c <= '9') {
            return false;
        }
        i += 1;
    }
    let last = id.get_char(17);
    ('0' <= last && last <= '9') || last == 'X' || last == 'x'
}

/// Tells whether `phone` has the shape of a phone number.
pub fn validate_phone(phone: &str) -> (r: bool)
    ensures
        r == phone_ok(phone@),
{
    if phone.unicode_len() != 11 {
        return false;
    }
    if phone.get_char(0) != '1' {
        return false;
    }
    let mut i: usize = 0;
    while i < 11
        invariant
            i <= 11,
            phone@.len() == 11,
            forall|j: int| 0 <= j < i ==> is_ascii_digit(#[trigger] phone@[j]),
        decreases 11 - i,
    {
        let c = phone.get_char(i);
        if !('0' <= c && c <= '9') {
            return false;
        }
        i += 1;
    }
    true
}

impl Validate for MemberForm {
    open spec fn refusal(&self) -> Option<Seq<char>> {
        member_form_error(self@)
    }

    fn validate(&self) -> (r: Result<(), String>) {
        if self.id_number.as_str().is_empty() {
            return Err(String::from_str("身份证号不能为空"));
        }
        if self.id_number.as_str().unicode_len() != 18 {
            return Err(String::from_str("身份证号必须是18位"));
        }
        if !validate_id_number(self.id_number.as_str()) {
            return Err(String::from_str("身份证号格式不正确"));
        }
        if self.birth_year < MIN_BIRTH_YEAR || self.birth_year > MAX_BIRTH_YEAR {
            return Err(String::from_str("出生年份不合理"));
        }
        if self.birth_month < 1 || self.birth_month > 12 {
            return Err(String::from_str("出生月份必须在1-12之间"));
        }
        if self.birth_day < 1 || self.birth_day > 31 {
            return Err(String::from_str("出生日期必须在1-31之间"));
        }
        if Date::from_ymd_opt(self.birth_year, self.birth_month, self.birth_day).is_none() {
            return Err(String::from_str("无效的出生日期"));
        }
        Ok(())
    }
}

impl Validate for HouseholdForm {
    open spec fn refusal(&self) -> Option<Seq<char>> {
        household_form_error(self@)
    }

    #[verifier::loop_isolation(false)]
    fn validate(&self) -> (r: Result<(), String>) {
        if is_blank(self.head_name.as_str()) {
            return Err(String::from_str("户主姓名不能为空"));
        }
        if self.id_number.as_str().is_empty() {
            return Err(String::from_str("身份证号不能为空"));
        }
        if self.id_number.as_str().unicode_len() != 18 {
            return Err(String::from_str("身份证号必须是18位"));
        }
        if !validate_id_number(self.id_number.as_str()) {
            return Err(String::from_str("身份证号格式不正确"));
        }
        if self.address.as_str().is_empty() {
            return Err(String::from_str("地址不能为空"));
        }
        if !self.phone.as_str().is_empty() && !validate_phone(self.phone.as_str()) {
            return Err(String::from_str("手机号格式不正确"));
        }
        if self.members.len() == 0 {
            return Err(String::from_str("至少需要一个家庭成员"));
        }
        let mut i: usize = 0;
        while i < self.members.len()
            invariant
                i <= self.members.len(),
                first_refused_member(self@.members, 0) == first_refused_member(
                    self@.members,
                    i as int,
                ),
            decreases self.members.len() - i,
        {
            assert(self@.members[i as int] == self.members[i as int]@);
            match self.members[i].validate() {
                Ok(_) => {},
                Err(reason) => {
                    let position = decimal_text((i + 1) as u128);
                    let text = String::from_str("第").concat(position.as_str()).concat(
                        "个成员: ",
                    ).concat(reason.as_str());
                    assert(first_refused_member(self@.members, i as int) == i);
                    assert(text@ == member_error_text(i as int, reason@));
                    return Err(text);
                },
            }
            i += 1;
        }
        Ok(())
    }
}

} // verus!
