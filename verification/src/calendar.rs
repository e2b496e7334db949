//! Calendar dates and whole-second timestamps, held as plain numbers, and
//! the texts under which the store keeps them.

use crate::text::occurs_in;
use vstd::prelude::*;

verus! {

/// The earliest year a `Date` can hold.
pub const MIN_YEAR: i32 = -262143;

/// The latest year a `Date` can hold.
pub const MAX_YEAR: i32 = 262142;

/// Whether `year` is a leap year of the proleptic Gregorian calendar.
pub open spec fn is_leap_year(year: int) -> bool {
    year % 4 == 0 && (year % 100 != 0 || year % 400 == 0)
}

/// The number of days of `month` in `year`, for a month from 1 to 12.
pub open spec fn days_in_month(year: int, month: int) -> int {
    if month == 2 {
        if is_leap_year(year) {
            29
        } else {
            28
        }
    } else if month == 4 || month == 6 || month == 9 || month == 11 {
        30
    } else {
        31
    }
}

/// Whether the triple names a day that exists in the Gregorian calendar.
pub open spec fn is_calendar_date(year: int, month: int, day: int) -> bool {
    &&& 1 <= month <= 12
    &&& 1 <= day <= days_in_month(year, month)
}

/// What a `Date` stands for: a year, a month and a day of the month.
pub struct DateView {
    pub year: int,
    pub month: int,
    pub day: int,
}

impl DateView {
    /// An existing calendar day whose year a `Date` can hold.
    pub open spec fn wf(self) -> bool {
        &&& MIN_YEAR <= self.year <= MAX_YEAR
        &&& is_calendar_date(self.year, self.month, self.day)
    }
}

/// What a `DateTime` stands for: a date and a time of day in whole seconds.
pub struct DateTimeView {
    pub date: DateView,
    pub hour: int,
    pub minute: int,
    pub second: int,
}

impl DateTimeView {
    pub open spec fn wf(self) -> bool {
        &&& self.date.wf()
        &&& 0 <= self.hour < 24
        &&& 0 <= self.minute < 60
        &&& 0 <= self.second < 60
    }
}

/// A day of the Gregorian calendar. Every value is an existing day.
#[derive(Clone, Copy, Debug, PartialEq, Eq, Structural)]
pub struct Date {
    year: i32,
    month: u32,
    day: u32,
}

/// A date with a time of day, to the second. Every value is an existing
/// moment; a leap second is not told apart from the second before it.
#[derive(Clone, Copy, Debug, PartialEq, Eq, Structural)]
pub struct DateTime {
    date: Date,
    hour: u32,
    minute: u32,
    second: u32,
}

impl View for Date {
    type V = DateView;

    closed spec fn view(&self) -> DateView {
        DateView { year: self.year as int, month: self.month as int, day: self.day as int }
    }
}

impl View for DateTime {
    type V = DateTimeView;

    closed spec fn view(&self) -> DateTimeView {
        DateTimeView {
            date: self.date@,
            hour: self.hour as int,
            minute: self.minute as int,
            second: self.second as int,
        }
    }
}

/// The text `YYYY-MM-DD` that `chrono` writes for a date through
/// `NaiveDate`'s `Display`.
pub uninterp spec fn date_text(date: DateView) -> Seq<char>;

/// The date that `chrono::NaiveDate::parse_from_str` reads from a text under
/// the format `%Y-%m-%d`, if it reads one.
pub uninterp spec fn date_from_text(text: Seq<char>) -> Option<DateView>;

/// The text that `chrono` writes for a timestamp under the format
/// `%Y-%m-%d %H:%M:%S`.
pub uninterp spec fn timestamp_text(moment: DateTimeView) -> Seq<char>;

/// The timestamp that `chrono::NaiveDateTime::parse_from_str` reads from a
/// text under the format `%Y-%m-%d %H:%M:%S`, if it reads one.
pub uninterp spec fn timestamp_from_text(text: Seq<char>) -> Option<DateTimeView>;

/// Calls `chrono::NaiveDate::from_ymd_opt`. The contract claims what its
/// documentation lists: there is a date exactly when the day exists in the
/// calendar and the year is within `NaiveDate`'s range.
#[verifier::external_body]
fn date_exists(year: i32, month: u32, day: u32) -> (r: bool)
    ensures
        r == (DateView { year: year as int, month: month as int, day: day as int }).wf(),
{
    chrono::NaiveDate::from_ymd_opt(year, month, day).is_some()
}

/// Calls `to_string` on a `chrono::NaiveDate`. The contract names the text
/// and claims, as the documentation of that `Display` does, that the same
/// format reads it back.
#[verifier::external_body]
fn write_date(date: Date) -> (r: String)
    ensures
        r@ == date_text(date@),
        date_from_text(r@) == Some(date@),
{
    chrono::NaiveDate::from_ymd_opt(date.year, date.month, date.day).unwrap_or_default().to_string()
}

/// Calls `chrono::NaiveDate::parse_from_str` with the format `%Y-%m-%d`.
/// The contract names the outcome; a date that is read exists.
#[verifier::external_body]
fn read_date(text: &str) -> (r: Option<Date>)
    ensures
        r is Some <==> date_from_text(text@) is Some,
        r matches Some(d) ==> date_from_text(text@) == Some(d@) && d@.wf(),
{
    chrono::NaiveDate::parse_from_str(text, "%Y-%m-%d").ok().map(
        |d| Date {
            year: chrono::Datelike::year(&d),
            month: chrono::Datelike::month(&d),
            day: chrono::Datelike::day(&d),
        },
    )
}

/// Calls `format("%Y-%m-%d %H:%M:%S")` on a `chrono::NaiveDateTime` and
/// `to_string` on what it gives. The contract names the text and claims that
/// the same format reads it back, as the documentation of
/// `NaiveDateTime::parse_from_str` says of formatting and parsing, and that
/// the text holds the space that the format holds.
#[verifier::external_body]
fn write_timestamp(moment: DateTime) -> (r: String)
    ensures
        r@ == timestamp_text(moment@),
        timestamp_from_text(r@) == Some(moment@),
        occurs_in(" "@, r@),
{
    chrono::NaiveDate::from_ymd_opt(moment.date.year, moment.date.month, moment.date.day)
        .and_then(|d| d.and_hms_opt(moment.hour, moment.minute, moment.second))
        .unwrap_or_default()
        .format("%Y-%m-%d %H:%M:%S")
        .to_string()
}

/// Calls `chrono::NaiveDateTime::parse_from_str` with the format
/// `%Y-%m-%d %H:%M:%S`. The contract names the outcome; a timestamp that is
/// read exists. Of a leap second the second before it is kept.
#[verifier::external_body]
fn read_timestamp(text: &str) -> (r: Option<DateTime>)
    ensures
        r is Some <==> timestamp_from_text(text@) is Some,
        r matches Some(t) ==> timestamp_from_text(text@) == Some(t@) && t@.wf(),
{
    chrono::NaiveDateTime::parse_from_str(text, "%Y-%m-%d %H:%M:%S").ok().map(
        |t| DateTime {
            date: Date {
                year: chrono::Datelike::year(&t),
                month: chrono::Datelike::month(&t),
                day: chrono::Datelike::day(&t),
            },
            hour: chrono::Timelike::hour(&t),
            minute: chrono::Timelike::minute(&t),
            second: chrono::Timelike::second(&t),
        },
    )
}

/// Calls `chrono::Utc::now` and keeps the date and the whole seconds of its
/// `naive_utc`. The clock decides the value, so the contract claims only
/// that it is an existing moment. `Utc::now` panics where the system clock
/// stands before 1970.
#[verifier::external_body]
fn read_clock() -> (r: DateTime)
    ensures
        r@.wf(),
{
    let t = chrono::Utc::now().naive_utc();
    DateTime {
        date: Date {
            year: chrono::Datelike::year(&t),
            month: chrono::Datelike::month(&t),
            day: chrono::Datelike::day(&t),
        },
        hour: chrono::Timelike::hour(&t),
        minute: chrono::Timelike::minute(&t),
        second: chrono::Timelike::second(&t),
    }
}

impl Date {
    #[verifier::type_invariant]
    pub open spec fn valid(self) -> bool {
        self@.wf()
    }

    /// The date of the given year, month and day, if that day exists.
    pub fn from_ymd_opt(year: i32, month: u32, day: u32) -> (r: Option<Date>)
        ensures
            r is Some <==> (DateView {
                year: year as int,
                month: month as int,
                day: day as int,
            }).wf(),
            r matches Some(d) ==> d@ == (DateView {
                year: year as int,
                month: month as int,
                day: day as int,
            }),
    {
        if date_exists(year, month, day) {
            Some(Date { year, month, day })
        } else {
            None
        }
    }

    pub fn year(&self) -> (r: i32)
        ensures
            r == self@.year,
    {
        self.year
    }

    pub fn month(&self) -> (r: u32)
        ensures
            r == self@.month,
    {
        self.month
    }

    pub fn day(&self) -> (r: u32)
        ensures
            r == self@.day,
    {
        self.day
    }

    /// The date as the store keeps it, `YYYY-MM-DD`.
    pub fn to_string(&self) -> (r: String)
        ensures
            r@ == date_text(self@),
            date_from_text(r@) == Some(self@),
    {
        write_date(*self)
    }

    /// Reads a date from the text `YYYY-MM-DD`.
    pub fn parse(text: &str) -> (r: Option<Date>)
        ensures
            r is Some <==> date_from_text(text@) is Some,
            r matches Some(d) ==> date_from_text(text@) == Some(d@) && d@.wf(),
    {
        read_date(text)
    }

    /// Today's date by the system clock, in UTC.
    pub fn today() -> (r: Date)
        ensures
            r@.wf(),
    {
        let now = read_clock();
        now.date()
    }
}

impl DateTime {
    #[verifier::type_invariant]
    pub open spec fn valid(self) -> bool {
        self@.wf()
    }

    /// The given time of day on `date`, if there is such a time.
    pub fn new(date: Date, hour: u32, minute: u32, second: u32) -> (r: Option<DateTime>)
        ensures
            r is Some <==> hour < 24 && minute < 60 && second < 60,
            r matches Some(t) ==> t@ == (DateTimeView {
                date: date@,
                hour: hour as int,
                minute: minute as int,
                second: second as int,
            }),
    {
        if hour < 24 && minute < 60 && second < 60 {
            proof {
                use_type_invariant(&date);
            }
            Some(DateTime { date, hour, minute, second })
        } else {
            None
        }
    }

    /// The first second of `date`.
    pub fn midnight(date: Date) -> (r: DateTime)
        ensures
            r@ == (DateTimeView { date: date@, hour: 0, minute: 0, second: 0 }),
    {
        proof {
            use_type_invariant(&date);
        }
        DateTime { date, hour: 0, minute: 0, second: 0 }
    }

    /// The present moment by the system clock, in UTC, to the second.
    pub fn now() -> (r: DateTime)
        ensures
            r@.wf(),
    {
        read_clock()
    }

    pub fn date(&self) -> (r: Date)
        ensures
            r@ == self@.date,
    {
        self.date
    }

    pub fn hour(&self) -> (r: u32)
        ensures
            r == self@.hour,
    {
        self.hour
    }

    pub fn minute(&self) -> (r: u32)
        ensures
            r == self@.minute,
    {
        self.minute
    }

    pub fn second(&self) -> (r: u32)
        ensures
            r == self@.second,
    {
        self.second
    }

    /// The timestamp as the store keeps it, `YYYY-MM-DD HH:MM:SS`.
    pub fn to_string(&self) -> (r: String)
        ensures
            r@ == timestamp_text(self@),
            timestamp_from_text(r@) == Some(self@),
            occurs_in(" "@, r@),
    {
        write_timestamp(*self)
    }

    /// Reads a timestamp from the text `YYYY-MM-DD HH:MM:SS`.
    pub fn parse(text: &str) -> (r: Option<DateTime>)
        ensures
            r is Some <==> timestamp_from_text(text@) is Some,
            r matches Some(t) ==> timestamp_from_text(text@) == Some(t@) && t@.wf(),
    {
        read_timestamp(text)
    }
}

} // verus!
