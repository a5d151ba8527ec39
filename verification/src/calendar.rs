//! The proleptic Gregorian calendar and the clock, as `chrono` computes them.
use chrono::{Datelike, Timelike};
use vstd::prelude::*;

verus! {

/// The first year that a date can have.
pub const MIN_YEAR: i32 = -262143;

/// The last year that a date can have.
pub const MAX_YEAR: i32 = 262142;

/// The number of the first day of `MIN_YEAR`, counted so that January 1 of year 1 is day 1.
pub const MIN_DAY: i32 = -95746129;

/// The number of the last day of `MAX_YEAR`.
pub const MAX_DAY: i32 = 95745399;

/// The seconds of a day.
pub const DAY_SECONDS: u32 = 86400;

/// A day of the calendar.
#[derive(Clone, Copy, Debug, PartialEq, Eq, Structural)]
pub struct Date {
    pub year: i32,
    pub month: u32,
    pub day: u32,
}

/// A whole second of a day.
#[derive(Clone, Copy, Debug, PartialEq, Eq, Structural)]
pub struct TimeOfDay {
    pub hour: u32,
    pub minute: u32,
    pub second: u32,
}

/// Whether February has 29 days in `year`.
pub open spec fn is_leap_year(year: int) -> bool {
    year % 4 == 0 && (year % 100 != 0 || year % 400 == 0)
}

/// How many days a month has.
pub open spec fn days_in_month(year: int, month: int) -> int {
    if month == 2 {
        if is_leap_year(year) {
            29
        } else {
            28
        }
    } else if month == 4 || month == 6 || month == 9 || month == 11 {
        30
    } else {
        31
    }
}

/// How many days of a year lie before a month of it.
pub open spec fn days_before_month(year: int, month: int) -> int
    decreases month,
{
    if month <= 1 {
        0
    } else {
        days_before_month(year, month - 1) + days_in_month(year, month - 1)
    }
}

/// How many days lie between January 1 of year 1 and January 1 of `year`.
pub open spec fn days_before_year(year: int) -> int {
    365 * (year - 1) + (year - 1) / 4 - (year - 1) / 100 + (year - 1) / 400
}

impl Date {
    /// Whether there is such a day, in a year of the range.
    pub open spec fn is_valid(self) -> bool {
        &&& MIN_YEAR <= self.year <= MAX_YEAR
        &&& 1 <= self.month <= 12
        &&& 1 <= self.day <= days_in_month(self.year as int, self.month as int)
    }

    /// The number of the day, where January 1 of year 1 is day 1.
    pub open spec fn number(self) -> int {
        days_before_year(self.year as int) + days_before_month(self.year as int, self.month as int)
            + self.day
    }
}

impl TimeOfDay {
    /// Whether the three numbers name a second of a day.
    pub open spec fn is_valid(self) -> bool {
        self.hour < 24 && self.minute < 60 && self.second < 60
    }

    /// How many seconds of the day have gone.
    pub open spec fn number(self) -> int {
        3600 * self.hour + 60 * self.minute + self.second
    }
}

/// The day that has a number.
pub open spec fn date_of(number: int) -> Date {
    choose|date: Date| date.is_valid() && date.number() == number
}

/// The second of the day that has a number.
pub open spec fn time_of(number: int) -> TimeOfDay {
    TimeOfDay {
        hour: (number / 3600) as u32,
        minute: (number / 60 % 60) as u32,
        second: (number % 60) as u32,
    }
}

/// `chrono::NaiveDate::from_ymd_opt` refuses a day that does not exist and a year out of range,
/// and takes every other; `Datelike::num_days_from_ce` then counts the days of the proleptic
/// Gregorian calendar up to it, from January 1 of year 1, which is day 1.
#[verifier::external_body]
fn chrono_day_number(date: Date) -> (number: Option<i32>)
    ensures
        number is Some <==> date.is_valid(),
        number matches Some(n) ==> n == date.number(),
{
    Some(chrono::NaiveDate::from_ymd_opt(date.year, date.month, date.day)?.num_days_from_ce())
}

/// `chrono::NaiveDate::from_num_days_from_ce_opt` gives the day that has a number, and none for
/// a number out of range; `year`, `month` and `day` of `Datelike` take it apart.
#[verifier::external_body]
fn chrono_date(number: i32) -> (date: Option<Date>)
    ensures
        date is Some <==> MIN_DAY <= number <= MAX_DAY,
        date matches Some(d) ==> d.is_valid() && d.number() == number,
{
    let date = chrono::NaiveDate::from_num_days_from_ce_opt(number)?;
    Some(Date { year: date.year(), month: date.month(), day: date.day() })
}

/// `chrono::NaiveTime::from_hms_opt` refuses an hour from 24, a minute from 60 and a second from
/// 60, and takes all else; `Timelike::num_seconds_from_midnight` then counts the seconds.
#[verifier::external_body]
fn chrono_second_number(time: TimeOfDay) -> (number: Option<u32>)
    ensures
        number is Some <==> time.is_valid(),
        number matches Some(n) ==> n == time.number(),
{
    let time = chrono::NaiveTime::from_hms_opt(time.hour, time.minute, time.second)?;
    Some(time.num_seconds_from_midnight())
}

/// `chrono::NaiveTime::from_num_seconds_from_midnight_opt` gives the second of the day that has
/// a number, and none from 86400 on; `hour`, `minute` and `second` of `Timelike` take it apart.
#[verifier::external_body]
fn chrono_time(number: u32) -> (time: Option<TimeOfDay>)
    ensures
        time is Some <==> number < DAY_SECONDS,
        time matches Some(t) ==> t == time_of(number as int),
{
    let time = chrono::NaiveTime::from_num_seconds_from_midnight_opt(number, 0)?;
    Some(TimeOfDay { hour: time.hour(), minute: time.minute(), second: time.second() })
}

/// The number of a day, if there is such a day.
pub fn day_number(date: Date) -> (number: Option<i32>)
    ensures
        number is Some <==> date.is_valid(),
        number matches Some(n) ==> n == date.number() && MIN_DAY <= n <= MAX_DAY,
{
    proof {
        if date.is_valid() {
            lemma_day_range(date);
        }
    }
    chrono_day_number(date)
}

/// The number of a second within its day, if there is such a second.
pub fn second_number(time: TimeOfDay) -> (number: Option<u32>)
    ensures
        number is Some <==> time.is_valid(),
        number matches Some(n) ==> n == time.number() && n < DAY_SECONDS,
{
    chrono_second_number(time)
}

/// The day that has a number.
pub fn date_of_day(number: i32) -> (date: Date)
    requires
        MIN_DAY <= number <= MAX_DAY,
    ensures
        date == date_of(number as int),
        date.is_valid(),
        date.number() == number,
{
    let date = chrono_date(number).unwrap();
    proof {
        law_days_have_numbers_of_their_own(date, date_of(number as int));
    }
    date
}

/// The second of the day that has a number.
pub fn time_of_second(number: u32) -> (time: TimeOfDay)
    requires
        number < DAY_SECONDS,
    ensures
        time == time_of(number as int),
        time.is_valid(),
        time.number() == number,
{
    chrono_time(number).unwrap()
}

/// A year holds the days of its months.
proof fn lemma_days_before_month(year: int, month: int)
    requires
        1 <= month <= 12,
    ensures
        days_before_month(year, month) == (if month == 1 {
            0int
        } else if month == 2 {
            31
        } else {
            (if is_leap_year(year) {
                1int
            } else {
                0
            }) + (if month == 3 {
                59int
            } else if month == 4 {
                90
            } else if month == 5 {
                120
            } else if month == 6 {
                151
            } else if month == 7 {
                181
            } else if month == 8 {
                212
            } else if month == 9 {
                243
            } else if month == 10 {
                273
            } else if month == 11 {
                304
            } else {
                334
            })
        }),
{
    reveal_with_fuel(days_before_month, 12);
}

/// The days of a year follow those of the years before it.
proof fn lemma_year_length(year: int)
    ensures
        days_before_year(year + 1) == days_before_year(year) + (if is_leap_year(year) {
            366int
        } else {
            365
        }),
{
}

proof fn lemma_years_ascend(earlier: int, later: int)
    requires
        earlier <= later,
    ensures
        days_before_year(earlier) <= days_before_year(later),
{
}

/// A day's number lies between those of the first day of its year and of the next one.
proof fn lemma_day_in_year(date: Date)
    requires
        date.is_valid(),
    ensures
        days_before_year(date.year as int) < date.number() <= days_before_year(date.year + 1),
{
    lemma_days_before_month(date.year as int, date.month as int);
    lemma_year_length(date.year as int);
}

proof fn lemma_day_range(date: Date)
    requires
        date.is_valid(),
    ensures
        MIN_DAY <= date.number() <= MAX_DAY,
{
    lemma_day_in_year(date);
    lemma_years_ascend(MIN_YEAR as int, date.year as int);
    lemma_years_ascend(date.year + 1, MAX_YEAR + 1);
}

/// No two days share a number.
pub proof fn law_days_have_numbers_of_their_own(a: Date, b: Date)
    requires
        a.is_valid(),
        b.is_valid(),
        a.number() == b.number(),
    ensures
        a == b,
{
    lemma_day_in_year(a);
    lemma_day_in_year(b);
    if a.year < b.year {
        lemma_years_ascend(a.year + 1, b.year as int);
    }
    if b.year < a.year {
        lemma_years_ascend(b.year + 1, a.year as int);
    }
    lemma_days_before_month(a.year as int, a.month as int);
    lemma_days_before_month(b.year as int, b.month as int);
}

/// A day is found again by its number.
pub proof fn law_date_is_found_by_its_number(date: Date)
    requires
        date.is_valid(),
    ensures
        date_of(date.number()) == date,
{
    law_days_have_numbers_of_their_own(date, date_of(date.number()));
}

/// A second of a day is found again by its number.
pub proof fn law_time_is_found_by_its_number(time: TimeOfDay)
    requires
        time.is_valid(),
    ensures
        time_of(time.number()) == time,
{
}

/// Every number of the range is that of a day.
pub proof fn law_every_day_number_has_a_date(number: int)
    requires
        MIN_DAY <= number <= MAX_DAY,
    ensures
        date_of(number).is_valid(),
        date_of(number).number() == number,
{
    let year = lemma_year_of(number, MAX_YEAR as int);
    lemma_date_in_year(number, year);
}

/// The year in which a day lies, looked for from a year backward.
proof fn lemma_year_of(number: int, last: int) -> (year: int)
    requires
        MIN_YEAR <= last <= MAX_YEAR,
        MIN_DAY <= number <= days_before_year(last + 1),
    ensures
        MIN_YEAR <= year <= last,
        days_before_year(year) < number <= days_before_year(year + 1),
    decreases last - MIN_YEAR,
{
    if number > days_before_year(last) {
        last
    } else {
        assert(days_before_year(MIN_YEAR as int) < MIN_DAY);
        lemma_year_of(number, last - 1)
    }
}

/// A year has a date for each of its days.
proof fn lemma_date_in_year(number: int, year: int)
    requires
        MIN_YEAR <= year <= MAX_YEAR,
        days_before_year(year) < number <= days_before_year(year + 1),
    ensures
        date_of(number).is_valid(),
        date_of(number).number() == number,
{
    lemma_year_length(year);
    let day_of_year = number - days_before_year(year);
    let month = lemma_month_of(year, day_of_year, 12);
    let date = Date {
        year: year as i32,
        month: month as u32,
        day: (day_of_year - days_before_month(year, month)) as u32,
    };
    assert(date.is_valid() && date.number() == number);
}

/// The month in which a day of a year lies, looked for from a month backward.
proof fn lemma_month_of(year: int, day_of_year: int, last: int) -> (month: int)
    requires
        1 <= last <= 12,
        1 <= day_of_year <= days_before_month(year, last) + days_in_month(year, last) || (last == 12
            && 1 <= day_of_year <= if is_leap_year(year) {
            366int
        } else {
            365
        }),
    ensures
        1 <= month <= last,
        days_before_month(year, month) < day_of_year <= days_before_month(year, month)
            + days_in_month(year, month),
    decreases last,
{
    lemma_days_before_month(year, last);
    if day_of_year > days_before_month(year, last) {
        last
    } else {
        lemma_month_of(year, day_of_year, last - 1)
    }
}

/// The calendar goes on day by day: the day after a date is the next one of its month, the first
/// one of the next month, or the first one of the next year, and has the next number.
pub proof fn law_days_follow_each_other(date: Date)
    requires
        date.is_valid(),
    ensures
        ({
            let within = Date { day: (date.day + 1) as u32, ..date };
            let turn = Date { month: (date.month + 1) as u32, day: 1, ..date };
            let new_year = Date { year: (date.year + 1) as i32, month: 1, day: 1 };
            &&& within.is_valid() ==> within.number() == date.number() + 1
            &&& !within.is_valid() && date.month < 12 ==> turn.is_valid() && turn.number()
                == date.number() + 1
            &&& !within.is_valid() && date.month == 12 && date.year < MAX_YEAR
                ==> new_year.is_valid() && new_year.number() == date.number() + 1
        }),
{
    lemma_days_before_month(date.year as int, date.month as int);
    lemma_year_length(date.year as int);
    if date.month < 12 {
        lemma_days_before_month(date.year as int, date.month + 1);
    }
}

} // verus!
