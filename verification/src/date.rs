//! Calendar dates of the proleptic Gregorian calendar.
//!
//! The mathematical model of a date is [`Ymd`], a triple of integers. Day
//! numbers count days with 0001-01-01 as day 1, so that a day number modulo 7
//! is the day of the week with Sunday as 0. The executable type [`Date`] holds
//! a valid triple and nothing else.

use crate::text::digit_char;
use chrono::{Datelike, NaiveDate};
use vstd::prelude::*;

verus! {

/// First year the calendar covers.
pub const MIN_YEAR: i32 = 1;

/// Last year the calendar covers.
pub const MAX_YEAR: i32 = 9999;

/// Whether `year` is a leap year.
pub open spec fn is_leap_year(year: int) -> bool {
    year % 4 == 0 && (year % 100 != 0 || year % 400 == 0)
}

/// Number of days in `year`.
pub open spec fn year_length(year: int) -> int {
    if is_leap_year(year) {
        366
    } else {
        365
    }
}

/// Number of days in month `month` (1 to 12) of `year`.
pub open spec fn month_length(year: int, month: int) -> int {
    if month == 2 {
        if is_leap_year(year) {
            29
        } else {
            28
        }
    } else if month == 4 || month == 6 || month == 9 || month == 11 {
        30
    } else {
        31
    }
}

/// Number of days in the years 1 to `year - 1`.
pub open spec fn days_before_year(year: int) -> int
    decreases year,
{
    if year <= 1 {
        0
    } else {
        days_before_year(year - 1) + year_length(year - 1)
    }
}

/// Number of days in the months 1 to `month - 1` of `year`.
pub open spec fn days_before_month(year: int, month: int) -> int
    decreases month,
{
    if month <= 1 {
        0
    } else {
        days_before_month(year, month - 1) + month_length(year, month - 1)
    }
}

/// A year, a month and a day of the month, as mathematical integers.
pub struct Ymd {
    pub year: int,
    pub month: int,
    pub day: int,
}

impl Ymd {
    /// The triple names a day of the calendar, in a year that it covers.
    pub open spec fn valid(self) -> bool {
        &&& MIN_YEAR <= self.year <= MAX_YEAR
        &&& 1 <= self.month <= 12
        &&& 1 <= self.day <= month_length(self.year, self.month)
    }

    /// Number of the day, counting from 0001-01-01 as day 1.
    pub open spec fn day_number(self) -> int {
        days_before_year(self.year) + days_before_month(self.year, self.month) + self.day
    }

    /// Day of the week, Sunday being 0 and Saturday 6.
    pub open spec fn weekday(self) -> int {
        self.day_number() % 7
    }

    /// Chronological order: by year, then month, then day.
    pub open spec fn before(self, other: Ymd) -> bool {
        self.year < other.year || (self.year == other.year && (self.month < other.month || (
        self.month == other.month && self.day < other.day)))
    }

    /// The year and the month of the day.
    pub open spec fn month_key(self) -> (int, int) {
        (self.year, self.month)
    }

    /// The last day of its month.
    pub open spec fn ends_month(self) -> bool {
        self.day == month_length(self.year, self.month)
    }

    /// The last day that the calendar covers.
    pub open spec fn is_last(self) -> bool {
        self.year == MAX_YEAR && self.month == 12 && self.day == 31
    }

    /// The day after this one.
    pub open spec fn next(self) -> Ymd {
        if !self.ends_month() {
            Ymd { year: self.year, month: self.month, day: self.day + 1 }
        } else if self.month < 12 {
            Ymd { year: self.year, month: self.month + 1, day: 1 }
        } else {
            Ymd { year: self.year + 1, month: 1, day: 1 }
        }
    }
}

/// The day after a valid day is valid, and its number is one more.
pub proof fn lemma_next_day(d: Ymd)
    requires
        d.valid(),
        !d.is_last(),
    ensures
        d.next().valid(),
        d.next().day_number() == d.day_number() + 1,
{
    if d.ends_month() && d.month == 12 {
        lemma_days_before_months(d.year);
    } else {
        reveal_with_fuel(days_before_month, 2);
    }
}

/// The days before a year, counted without walking through the years: 365
/// for each year, and one more for each leap year.
pub proof fn lemma_days_before_year(year: int)
    requires
        1 <= year,
    ensures
        days_before_year(year) == 365 * (year - 1) + (year - 1) / 4 - (year - 1) / 100 + (year
            - 1) / 400,
    decreases year,
{
    if year > 1 {
        lemma_days_before_year(year - 1);
    }
}

/// The days before each month of a year.
pub proof fn lemma_days_before_months(year: int)
    ensures
        days_before_month(year, 1) == 0,
        days_before_month(year, 2) == 31,
        days_before_month(year, 3) == 59 + year_length(year) - 365,
        days_before_month(year, 4) == 90 + year_length(year) - 365,
        days_before_month(year, 5) == 120 + year_length(year) - 365,
        days_before_month(year, 6) == 151 + year_length(year) - 365,
        days_before_month(year, 7) == 181 + year_length(year) - 365,
        days_before_month(year, 8) == 212 + year_length(year) - 365,
        days_before_month(year, 9) == 243 + year_length(year) - 365,
        days_before_month(year, 10) == 273 + year_length(year) - 365,
        days_before_month(year, 11) == 304 + year_length(year) - 365,
        days_before_month(year, 12) == 334 + year_length(year) - 365,
{
    reveal_with_fuel(days_before_month, 13);
}

/// A year's days all come before those of any later year.
pub proof fn lemma_days_before_year_grows(a: int, b: int)
    requires
        1 <= a <= b,
    ensures
        days_before_year(b) - days_before_year(a) >= 365 * (b - a),
    decreases b - a,
{
    if a < b {
        lemma_days_before_year_grows(a, b - 1);
    }
}

/// A month's days all come before those of any later month of the year.
pub proof fn lemma_days_before_month_grows(year: int, a: int, b: int)
    requires
        1 <= a <= b <= 13,
    ensures
        days_before_month(year, b) - days_before_month(year, a) >= 28 * (b - a),
        a < b ==> days_before_month(year, b) - days_before_month(year, a) >= month_length(
            year,
            a,
        ),
        days_before_month(year, 13) == year_length(year),
{
    reveal_with_fuel(days_before_month, 14);
}

/// Day numbers grow with the chronological order.
pub proof fn lemma_before_day_number(a: Ymd, b: Ymd)
    requires
        a.valid(),
        b.valid(),
        a.before(b),
    ensures
        a.day_number() < b.day_number(),
{
    if a.year < b.year {
        lemma_days_before_month_grows(a.year, a.month, 13);
        lemma_days_before_year_grows(a.year + 1, b.year);
        lemma_days_before_month_grows(b.year, 1, b.month);
    } else if a.month < b.month {
        lemma_days_before_month_grows(a.year, a.month, b.month);
    }
}

/// Two valid days with one day number are one day, and the chronological
/// order is the order of the day numbers.
pub proof fn lemma_day_number_order(a: Ymd, b: Ymd)
    requires
        a.valid(),
        b.valid(),
    ensures
        a.before(b) <==> a.day_number() < b.day_number(),
        a == b <==> a.day_number() == b.day_number(),
{
    if a.before(b) {
        lemma_before_day_number(a, b);
    } else if b.before(a) {
        lemma_before_day_number(b, a);
    }
}

/// Within one month the day of the week advances with the day of the month.
pub proof fn lemma_weekday_in_month(year: int, month: int, day: int)
    ensures
        (Ymd { year, month, day }).weekday() == ((Ymd { year, month, day: 1 }).weekday() + day
            - 1) % 7,
{
}

/// `n`, from 0 to 99, in two decimal digits.
pub open spec fn two_digits(n: int) -> Seq<char> {
    seq![digit_char(n / 10), digit_char(n % 10)]
}

/// The date as text: the year in four digits, the month in two, the day in
/// two, with a hyphen between them.
pub open spec fn iso_text(date: Ymd) -> Seq<char> {
    two_digits(date.year / 100) + two_digits(date.year % 100) + seq!['-'] + two_digits(
        date.month,
    ) + seq!['-'] + two_digits(date.day)
}

/// A year and a month name a month that the calendar covers.
pub open spec fn valid_month(key: (int, int)) -> bool {
    MIN_YEAR <= key.0 <= MAX_YEAR && 1 <= key.1 <= 12
}

/// Number of the month, counting the months from January of the year 0 as
/// month 0.
pub open spec fn month_index(key: (int, int)) -> int {
    key.0 * 12 + key.1 - 1
}

/// The month with the given number.
pub open spec fn month_at(index: int) -> (int, int) {
    (index / 12, index % 12 + 1)
}

/// Chronological order of months: by year, then month.
pub open spec fn month_before(a: (int, int), b: (int, int)) -> bool {
    a.0 < b.0 || (a.0 == b.0 && a.1 < b.1)
}

/// A day of the calendar.
///
/// Every value is a valid day in the years `MIN_YEAR` to `MAX_YEAR`.
#[derive(Clone, Copy, Debug, PartialEq, Eq, Structural, PartialOrd, Ord, Hash)]
pub struct Date {
    year: i32,
    month: u32,
    day: u32,
}

impl View for Date {
    type V = Ymd;

    closed spec fn view(&self) -> Ymd {
        Ymd { year: self.year as int, month: self.month as int, day: self.day as int }
    }
}

/// Whether `year` is a leap year.
pub fn leap_year(year: i32) -> (r: bool)
    ensures
        r == is_leap_year(year as int),
{
    year % 4 == 0 && (year % 100 != 0 || year % 400 == 0)
}

/// Number of days in a month. A month outside 1 to 12 has none.
pub fn days_in_month(year: i32, month: u32) -> (r: u32)
    ensures
        1 <= month <= 12 ==> r == month_length(year as int, month as int),
        !(1 <= month <= 12) ==> r == 0,
{
    if month < 1 || month > 12 {
        0
    } else if month == 2 {
        if leap_year(year) {
            29
        } else {
            28
        }
    } else if month == 4 || month == 6 || month == 9 || month == 11 {
        30
    } else {
        31
    }
}

impl Date {
    #[verifier::type_invariant]
    pub open spec fn inv(&self) -> bool {
        self@.valid()
    }

    /// The date of the given year, month and day, if the calendar has it.
    pub fn new(year: i32, month: u32, day: u32) -> (r: Option<Date>)
        ensures
            r is Some <==> (Ymd {
                year: year as int,
                month: month as int,
                day: day as int,
            }).valid(),
            r matches Some(d) ==> d@ == (Ymd {
                year: year as int,
                month: month as int,
                day: day as int,
            }),
    {
        if year < MIN_YEAR || year > MAX_YEAR || month < 1 || month > 12 {
            return None;
        }
        if day < 1 || day > days_in_month(year, month) {
            return None;
        }
        Some(Date { year, month, day })
    }

    /// The year.
    pub fn year(&self) -> (r: i32)
        ensures
            r == self@.year,
            MIN_YEAR <= r <= MAX_YEAR,
    {
        proof {
            use_type_invariant(self);
        }
        self.year
    }

    /// The month, from 1 to 12.
    pub fn month(&self) -> (r: u32)
        ensures
            r == self@.month,
            1 <= r <= 12,
    {
        proof {
            use_type_invariant(self);
        }
        self.month
    }

    /// The day of the month, from 1 on.
    pub fn day(&self) -> (r: u32)
        ensures
            r == self@.day,
            1 <= r <= month_length(self@.year, self@.month),
    {
        proof {
            use_type_invariant(self);
        }
        self.day
    }

    /// Whether this day comes before `other`.
    pub fn is_before(&self, other: &Date) -> (r: bool)
        ensures
            r == self@.before(other@),
    {
        self.year < other.year || (self.year == other.year && (self.month < other.month || (
        self.month == other.month && self.day < other.day)))
    }

    /// Whether the two are the same day.
    pub fn same_day(&self, other: &Date) -> (r: bool)
        ensures
            r == (self@ == other@),
            r == (*self == *other),
    {
        self.year == other.year && self.month == other.month && self.day == other.day
    }

    /// Day of the week, Sunday being 0 and Saturday 6.
    pub fn weekday(&self) -> (r: u32)
        ensures
            r == self@.weekday(),
            r < 7,
    {
        weekday_from_sunday(self)
    }

    /// The date as text, such as `2024-01-15`.
    pub fn text(&self) -> (r: String)
        ensures
            r@ == iso_text(self@),
    {
        date_to_string(self)
    }

    /// The month that the day lies in.
    pub fn month_key(&self) -> (r: MonthKey)
        ensures
            r@ == self@.month_key(),
    {
        proof {
            use_type_invariant(self);
        }
        MonthKey { year: self.year, month: self.month }
    }

    /// The day after this one; none after the last day of `MAX_YEAR`.
    pub fn succ(&self) -> (r: Option<Date>)
        ensures
            r is None <==> self@.is_last(),
            r matches Some(d) ==> d@ == self@.next() && d@.valid(),
    {
        proof {
            use_type_invariant(self);
        }
        if self.day < days_in_month(self.year, self.month) {
            Some(Date { year: self.year, month: self.month, day: self.day + 1 })
        } else if self.month < 12 {
            Some(Date { year: self.year, month: self.month + 1, day: 1 })
        } else if self.year < MAX_YEAR {
            Some(Date { year: self.year + 1, month: 1, day: 1 })
        } else {
            None
        }
    }
}

/// `NaiveDate::weekday` followed by `Weekday::num_days_from_sunday`: the day
/// of the week, Sunday being 0. The contract states it as the day number
/// modulo 7, the days being counted from 0001-01-01 as day 1, a Monday.
#[verifier::external_body]
fn weekday_from_sunday(date: &Date) -> (r: u32)
    ensures
        r == date@.weekday(),
{
    let day = NaiveDate::from_ymd_opt(date.year(), date.month(), date.day()).unwrap();
    day.weekday().num_days_from_sunday()
}

/// A month of a year that the calendar covers.
#[derive(Clone, Copy, Debug, PartialEq, Eq, Structural, PartialOrd, Ord, Hash)]
pub struct MonthKey {
    year: i32,
    month: u32,
}

impl View for MonthKey {
    type V = (int, int);

    closed spec fn view(&self) -> (int, int) {
        (self.year as int, self.month as int)
    }
}

impl MonthKey {
    #[verifier::type_invariant]
    pub open spec fn inv(&self) -> bool {
        valid_month(self@)
    }

    /// The given month of the given year, if the calendar has it.
    pub fn new(year: i32, month: u32) -> (r: Option<MonthKey>)
        ensures
            r is Some <==> valid_month((year as int, month as int)),
            r matches Some(k) ==> k@ == (year as int, month as int),
    {
        if year < MIN_YEAR || year > MAX_YEAR || month < 1 || month > 12 {
            None
        } else {
            Some(MonthKey { year, month })
        }
    }

    /// The year.
    pub fn year(&self) -> (r: i32)
        ensures
            r == self@.0,
            MIN_YEAR <= r <= MAX_YEAR,
    {
        proof {
            use_type_invariant(self);
        }
        self.year
    }

    /// The month, from 1 to 12.
    pub fn month(&self) -> (r: u32)
        ensures
            r == self@.1,
            1 <= r <= 12,
    {
        proof {
            use_type_invariant(self);
        }
        self.month
    }

    /// Whether the two are the same month.
    pub fn same_month(&self, other: &MonthKey) -> (r: bool)
        ensures
            r == (self@ == other@),
            r == (*self == *other),
    {
        self.year == other.year && self.month == other.month
    }

    /// Whether this month comes before `other`.
    pub fn is_before(&self, other: &MonthKey) -> (r: bool)
        ensures
            r == month_before(self@, other@),
    {
        self.year < other.year || (self.year == other.year && self.month < other.month)
    }

    /// Number of days in the month.
    pub fn length(&self) -> (r: u32)
        ensures
            r == month_length(self@.0, self@.1),
            28 <= r <= 31,
    {
        proof {
            use_type_invariant(self);
        }
        days_in_month(self.year, self.month)
    }

    /// The month `months` months after this one, or before it where `months`
    /// is negative, if the calendar has it.
    pub fn shifted(&self, months: i64) -> (r: Option<MonthKey>)
        ensures
            r is Some <==> valid_month(month_at(month_index(self@) + months)),
            r matches Some(k) ==> k@ == month_at(month_index(self@) + months),
    {
        proof {
            use_type_invariant(self);
        }
        if months < -120_000 || months > 120_000 {
            return None;
        }
        let index: i64 = self.year as i64 * 12 + (self.month as i64 - 1) + months;
        if index < 12 || index / 12 > MAX_YEAR as i64 {
            None
        } else {
            Some(MonthKey { year: (index / 12) as i32, month: (index % 12) as u32 + 1 })
        }
    }

    /// The first day of the month.
    pub fn first_day(&self) -> (r: Date)
        ensures
            r@ == (Ymd { year: self@.0, month: self@.1, day: 1 }),
    {
        proof {
            use_type_invariant(self);
        }
        Date { year: self.year, month: self.month, day: 1 }
    }

    /// The last day of the month.
    pub fn last_day(&self) -> (r: Date)
        ensures
            r@ == (Ymd { year: self@.0, month: self@.1, day: month_length(self@.0, self@.1) }),
    {
        proof {
            use_type_invariant(self);
        }
        Date { year: self.year, month: self.month, day: days_in_month(self.year, self.month) }
    }
}

/// `NaiveDate`'s `Display`, through `to_string`: the date as text. For the
/// years 0 to 9999 it writes the year in four digits, the month in two and the
/// day in two, with a hyphen between them.
#[verifier::external_body]
fn date_to_string(date: &Date) -> (r: String)
    ensures
        r@ == iso_text(date@),
{
    let day = NaiveDate::from_ymd_opt(date.year(), date.month(), date.day()).unwrap();
    day.to_string()
}

/// What a run of dates holds.
pub open spec fn dates_view(dates: Seq<Date>) -> Seq<Ymd> {
    Seq::new(dates.len(), |i: int| dates[i]@)
}

} // verus!
