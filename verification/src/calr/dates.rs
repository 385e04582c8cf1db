//! Calendar dates: which days there are, what day comes before a day, and
//! how the months are called. The day of the week and the number of the week
//! are asked of the `chrono` crate.

use chrono::Datelike;
use chrono::NaiveDate;
use vstd::arithmetic::div_mod::lemma_mod_multiples_vanish;
use vstd::prelude::*;

verus! {

/// A day of the calendar.
#[derive(Clone, Copy, Debug, PartialEq, Eq, Structural)]
pub struct Date {
    pub year: i32,
    pub month: u32,
    pub day: u32,
}

/// The first year that has dates.
pub const MIN_YEAR: i32 = -262143;

/// The last year that has dates.
pub const MAX_YEAR: i32 = 262142;

/// Whether the year has a 29th of February.
pub open spec fn is_leap_year(year: int) -> bool {
    year % 4 == 0 && (year % 100 != 0 || year % 400 == 0)
}

/// The number of days of a month.
pub open spec fn month_length(year: int, month: int) -> int {
    if month == 2 {
        if is_leap_year(year) {
            29
        } else {
            28
        }
    } else if month == 4 || month == 6 || month == 9 || month == 11 {
        30
    } else {
        31
    }
}

/// Whether the calendar has such a day.
pub open spec fn date_exists(year: int, month: int, day: int) -> bool {
    &&& MIN_YEAR <= year <= MAX_YEAR
    &&& 1 <= month <= 12
    &&& 1 <= day <= month_length(year, month)
}

impl Date {
    /// Whether the calendar has this day.
    pub open spec fn is_valid(self) -> bool {
        date_exists(self.year as int, self.month as int, self.day as int)
    }
}

/// The day before a day.
pub open spec fn previous_day(date: Date) -> Date {
    if date.day > 1 {
        Date { year: date.year, month: date.month, day: (date.day - 1) as u32 }
    } else if date.month > 1 {
        Date {
            year: date.year,
            month: (date.month - 1) as u32,
            day: month_length(date.year as int, date.month - 1) as u32,
        }
    } else {
        Date { year: (date.year - 1) as i32, month: 12, day: 31 }
    }
}

/// The day of the week of a date, counted from Sunday as 0 to Saturday as
/// 6.
pub uninterp spec fn weekday_number(year: int, month: int, day: int) -> int;

/// The number of the week of a date within its year, by ISO 8601.
pub uninterp spec fn iso_week_number(year: int, month: int, day: int) -> int;

/// Whether the year has a 29th of February.
pub fn leap_year(year: i32) -> (leap: bool)
    requires
        MIN_YEAR <= year <= MAX_YEAR,
    ensures
        leap == is_leap_year(year as int),
{
    // moved on by a thousand times 400 years, the year is above zero and
    // stands in its cycle where it stood
    let shifted: u32 = (year + 400000) as u32;
    proof {
        lemma_mod_multiples_vanish(100000, year as int, 4);
        lemma_mod_multiples_vanish(4000, year as int, 100);
        lemma_mod_multiples_vanish(1000, year as int, 400);
        assert(shifted as int == 4 * 100000 + year);
        assert(shifted as int == 100 * 4000 + year);
        assert(shifted as int == 400 * 1000 + year);
    }
    shifted % 4 == 0 && (shifted % 100 != 0 || shifted % 400 == 0)
}

/// The number of days of a month of the calendar.
pub fn days_in_month(year: i32, month: u32) -> (days: u32)
    requires
        MIN_YEAR <= year <= MAX_YEAR,
        1 <= month <= 12,
    ensures
        days == month_length(year as int, month as int),
        28 <= days <= 31,
{
    if month == 2 {
        if leap_year(year) {
            29
        } else {
            28
        }
    } else if month == 4 || month == 6 || month == 9 || month == 11 {
        30
    } else {
        31
    }
}

/// Whether the calendar has such a day.
pub fn valid_date(year: i32, month: u32, day: u32) -> (b: bool)
    ensures
        b == date_exists(year as int, month as int, day as int),
{
    if year < MIN_YEAR || year > MAX_YEAR || month < 1 || month > 12 || day < 1 {
        return false;
    }
    day <= days_in_month(year, month)
}

/// The day before `date`.
pub fn day_before(date: Date) -> (r: Date)
    requires
        date.is_valid(),
        previous_day(date).is_valid(),
    ensures
        r == previous_day(date),
{
    if date.day > 1 {
        Date { year: date.year, month: date.month, day: date.day - 1 }
    } else if date.month > 1 {
        Date {
            year: date.year,
            month: date.month - 1,
            day: days_in_month(date.year, date.month - 1),
        }
    } else {
        Date { year: date.year - 1, month: 12, day: 31 }
    }
}

/// `Datelike::weekday` and `Weekday::num_days_from_sunday`: the day of the
/// week of `date`, from 0 for Sunday to 6 for Saturday.
#[verifier::external_body]
pub(crate) fn weekday_of(date: Date) -> (w: u32)
    requires
        date.is_valid(),
    ensures
        w == weekday_number(date.year as int, date.month as int, date.day as int),
        w < 7,
{
    NaiveDate::from_ymd_opt(date.year, date.month, date.day).unwrap().weekday()
        .num_days_from_sunday()
}

/// `Datelike::iso_week` and `IsoWeek::week`: the number of the ISO week of
/// `date`, from 1 to 53.
#[verifier::external_body]
pub(crate) fn iso_week_of(date: Date) -> (w: u32)
    requires
        date.is_valid(),
    ensures
        w == iso_week_number(date.year as int, date.month as int, date.day as int),
        1 <= w <= 53,
{
    NaiveDate::from_ymd_opt(date.year, date.month, date.day).unwrap().iso_week().week()
}

/// The English name of a month.
pub open spec fn month_title(month: int) -> Seq<char> {
    if month == 1 {
        "January"@
    } else if month == 2 {
        "February"@
    } else if month == 3 {
        "March"@
    } else if month == 4 {
        "April"@
    } else if month == 5 {
        "May"@
    } else if month == 6 {
        "June"@
    } else if month == 7 {
        "July"@
    } else if month == 8 {
        "August"@
    } else if month == 9 {
        "September"@
    } else if month == 10 {
        "October"@
    } else if month == 11 {
        "November"@
    } else {
        "December"@
    }
}

/// The English name of the month.
pub fn month_name(month: u32) -> (name: &'static str)
    requires
        1 <= month <= 12,
    ensures
        name@ == month_title(month as int),
{
    if month == 1 {
        "January"
    } else if month == 2 {
        "February"
    } else if month == 3 {
        "March"
    } else if month == 4 {
        "April"
    } else if month == 5 {
        "May"
    } else if month == 6 {
        "June"
    } else if month == 7 {
        "July"
    } else if month == 8 {
        "August"
    } else if month == 9 {
        "September"
    } else if month == 10 {
        "October"
    } else if month == 11 {
        "November"
    } else {
        "December"
    }
}

/// The last day of a month. A month that is none counts as the month
/// before the first of the month after it, where that exists, and else as
/// December.
pub open spec fn last_day_of(year: int, month: int) -> Date {
    if date_exists(year, month + 1, 1) {
        previous_day(Date { year: year as i32, month: (month + 1) as u32, day: 1 })
    } else {
        Date { year: year as i32, month: 12, day: 31 }
    }
}

/// The last day of the month.
pub fn last_day_in_month(year: i32, month: u32) -> (last: Date)
    requires
        MIN_YEAR <= year < MAX_YEAR,
        month < u32::MAX,
        !(year == MIN_YEAR && month == 0),
    ensures
        last == last_day_of(year as int, month as int),
        last.is_valid(),
        1 <= month <= 12 ==> last == (Date {
            year,
            month,
            day: month_length(year as int, month as int) as u32,
        }),
{
    let next = if valid_date(year, month + 1, 1) {
        Date { year, month: month + 1, day: 1 }
    } else {
        Date { year: year + 1, month: 1, day: 1 }
    };
    day_before(next)
}

} // verus!
