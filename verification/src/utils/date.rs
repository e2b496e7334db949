//! Dates as they are shown, ages, and the check of a birth date.

use crate::calendar::{Date, DateTime, DateTimeView, DateView};
use crate::text::{integer_text, signed_decimal};
use vstd::prelude::*;
use vstd::string::StringExecFns;

verus! {

/// The earliest year a birth may lie in.
pub const EARLIEST_BIRTH_YEAR: i32 = 1900;

/// A date as `Y年M月D日`, each number as its decimal numeral.
pub open spec fn date_chinese(date: DateView) -> Seq<char> {
    signed_decimal(date.year) + "年"@ + signed_decimal(date.month) + "月"@ + signed_decimal(
        date.day,
    ) + "日"@
}

/// A moment as `Y年M月D日 H时M分`, each number as its decimal numeral; the
/// seconds are not shown.
pub open spec fn datetime_chinese(moment: DateTimeView) -> Seq<char> {
    date_chinese(moment.date) + " "@ + signed_decimal(moment.hour) + "时"@ + signed_decimal(
        moment.minute,
    ) + "分"@
}

/// The age, on the day `today`, of one born on `birth_date`: the years
/// between the two, less one where the birthday of the year is still ahead.
pub open spec fn age_between(birth_date: DateView, today: DateView) -> int {
    if today.month < birth_date.month || (today.month == birth_date.month && today.day
        < birth_date.day) {
        today.year - birth_date.year - 1
    } else {
        today.year - birth_date.year
    }
}

/// What the check of a birth date answers in the year `this_year`: the
/// reason of the first rule that the three numbers break, or none.
pub open spec fn birth_date_error(year: int, month: int, day: int, this_year: int) -> Option<
    Seq<char>,
> {
    if year < EARLIEST_BIRTH_YEAR {
        Some("出生年份不能早于1900年"@)
    } else if year > this_year {
        Some("出生年份不能晚于当前年份"@)
    } else if month < 1 || month > 12 {
        Some("月份必须在1-12之间"@)
    } else if day < 1 || day > 31 {
        Some("日期必须在1-31之间"@)
    } else if !(DateView { year, month, day }).wf() {
        Some("无效的日期"@)
    } else {
        None
    }
}

/// Helpers for dates.
pub struct DateUtils;

impl DateUtils {
    /// The date as `Y年M月D日`.
    pub fn format_date_chinese(date: &Date) -> (r: String)
        ensures
            r@ == date_chinese(date@),
    {
        let year = integer_text(date.year() as i64);
        let month = integer_text(date.month() as i64);
        let day = integer_text(date.day() as i64);
        year.concat("年").concat(month.as_str()).concat("月").concat(day.as_str()).concat("日")
    }

    /// The moment as `Y年M月D日 H时M分`.
    pub fn format_datetime_chinese(datetime: &DateTime) -> (r: String)
        ensures
            r@ == datetime_chinese(datetime@),
    {
        let date = DateUtils::format_date_chinese(&datetime.date());
        let hour = integer_text(datetime.hour() as i64);
        let minute = integer_text(datetime.minute() as i64);
        date.concat(" ").concat(hour.as_str()).concat("时").concat(minute.as_str()).concat("分")
    }

    /// The age, on the day `today`, of one born on `birth_date`.
    pub fn age_on(birth_date: &Date, today: &Date) -> (r: i32)
        ensures
            r == age_between(birth_date@, today@),
    {
        proof {
            use_type_invariant(birth_date);
            use_type_invariant(today);
        }
        let years: i32 = today.year() - birth_date.year();
        if today.month() < birth_date.month() || (today.month() == birth_date.month()
            && today.day() < birth_date.day()) {
            years - 1
        } else {
            years
        }
    }

    /// The age today of one born on `birth_date`, by the system clock.
    pub fn calculate_age(birth_date: &Date) -> (r: i32)
        ensures
            exists|today: DateView| today.wf() && r == #[trigger] age_between(birth_date@, today),
    {
        let today = Date::today();
        DateUtils::age_on(birth_date, &today)
    }

    /// The birth date of the three numbers, checked in the year `this_year`:
    /// the year not before 1900 and not after `this_year`, the month from 1
    /// to 12, the day from 1 to 31, and the day an existing one. The first
    /// rule that is broken gives the reason.
    pub fn validate_birth_date_in(year: i32, month: u32, day: u32, this_year: i32) -> (r: Result<
        Date,
        String,
    >)
        ensures
            match r {
                Ok(date) => birth_date_error(year as int, month as int, day as int, this_year as int)
                    is None && date@ == (DateView {
                    year: year as int,
                    month: month as int,
                    day: day as int,
                }),
                Err(reason) => birth_date_error(
                    year as int,
                    month as int,
                    day as int,
                    this_year as int,
                ) == Some(reason@),
            },
    {
        if year < EARLIEST_BIRTH_YEAR {
            return Err(String::from_str("出生年份不能早于1900年"));
        }
        if year > this_year {
            return Err(String::from_str("出生年份不能晚于当前年份"));
        }
        if month < 1 || month > 12 {
            return Err(String::from_str("月份必须在1-12之间"));
        }
        if day < 1 || day > 31 {
            return Err(String::from_str("日期必须在1-31之间"));
        }
        match Date::from_ymd_opt(year, month, day) {
            Some(date) => Ok(date),
            None => Err(String::from_str("无效的日期")),
        }
    }

    /// The birth date of the three numbers, checked in the present year of
    /// the system clock.
    pub fn validate_birth_date(year: i32, month: u32, day: u32) -> (r: Result<Date, String>)
        ensures
            exists|this_year: int|
                match r {
                    Ok(date) => #[trigger] birth_date_error(
                        year as int,
                        month as int,
                        day as int,
                        this_year,
                    ) is None && date@ == (DateView {
                        year: year as int,
                        month: month as int,
                        day: day as int,
                    }),
                    Err(reason) => birth_date_error(
                        year as int,
                        month as int,
                        day as int,
                        this_year,
                    ) == Some(reason@),
                },
    {
        let today = Date::today();
        let r = DateUtils::validate_birth_date_in(year, month, day, today.year());
        proof {
            let this_year = today@.year;
            if r is Ok {
                assert(birth_date_error(year as int, month as int, day as int, this_year)
                    is None);
            } else {
                assert(birth_date_error(year as int, month as int, day as int, this_year)
                    == Some(r->Err_0@));
            }
        }
        r
    }
}

} // verus!
