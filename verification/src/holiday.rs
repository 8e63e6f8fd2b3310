//! The national holidays of Japan, looked up in the `jpholiday` crate.

use crate::date::{dates_view, Date, Ymd};
use chrono::NaiveDate;
use jpholiday::jpholiday::JPHoliday;
use vstd::prelude::*;

verus! {

/// `jpholiday::jpholiday::JPHoliday`: the table of holidays. Nothing of what
/// it holds is seen here.
#[verifier::external_type_specification]
#[verifier::external_body]
pub struct ExJPHoliday<'a>(JPHoliday<'a>);

/// The name of the holiday that `JPHoliday::is_holiday_name` gives for the
/// day `year`-`month`-`day`, if it gives one.
pub uninterp spec fn holiday_name_on(year: int, month: int, day: int) -> Option<Seq<char>>;

/// `JPHoliday::new`: the table of holidays. Nothing is claimed of it.
#[verifier::external_body]
pub(crate) fn holiday_table<'a>() -> JPHoliday<'a> {
    JPHoliday::new()
}

/// `JPHoliday::is_holiday_name`: the name of the holiday on `date`, or none.
/// The table is fixed when it is made, so the answer depends on the day alone;
/// the contract gives it the name `holiday_name_on` and claims no more.
#[verifier::external_body]
pub(crate) fn holiday_name(table: &JPHoliday<'_>, date: &Date) -> (r: Option<String>)
    ensures
        name_view(r) == holiday_name_on(date@.year, date@.month, date@.day),
{
    let day = NaiveDate::from_ymd_opt(date.year(), date.month(), date.day()).unwrap();
    table.is_holiday_name(&day)
}

/// What an optional name holds.
pub open spec fn name_view(name: Option<String>) -> Option<Seq<char>> {
    match name {
        Some(s) => Some(s@),
        None => None,
    }
}

/// A day with the name of its holiday, if it is one.
#[derive(Clone, Debug, PartialEq, Eq)]
pub struct Day {
    pub date: Date,
    pub holiday: Option<String>,
}

/// What a [`Day`] holds.
pub struct DayView {
    pub date: Ymd,
    pub holiday: Option<Seq<char>>,
}

impl View for Day {
    type V = DayView;

    open spec fn view(&self) -> DayView {
        DayView { date: self.date@, holiday: name_view(self.holiday) }
    }
}

/// What a run of days holds.
pub open spec fn days_view(days: Seq<Day>) -> Seq<DayView> {
    Seq::new(days.len(), |i: int| days[i]@)
}

/// The day `date` as the holiday table knows it.
pub open spec fn looked_up(date: Ymd) -> DayView {
    DayView { date, holiday: holiday_name_on(date.year, date.month, date.day) }
}

/// The days `dates` as the holiday table knows them.
pub open spec fn all_looked_up(dates: Seq<Ymd>) -> Seq<DayView> {
    Seq::new(dates.len(), |i: int| looked_up(dates[i]))
}

/// Looks each of `dates` up in the holiday table.
pub fn look_up(table: &JPHoliday<'_>, dates: &Vec<Date>) -> (r: Vec<Day>)
    ensures
        days_view(r@) == all_looked_up(dates_view(dates@)),
{
    let mut r: Vec<Day> = Vec::new();
    let mut i: usize = 0;
    while i < dates.len()
        invariant
            i <= dates.len(),
            r.len() == i,
            forall|j: int| 0 <= j < i ==> r@[j]@ == looked_up(#[trigger] dates@[j]@),
        decreases dates.len() - i,
    {
        let date = dates[i];
        let holiday = holiday_name(table, &date);
        r.push(Day { date, holiday });
        i = i + 1;
    }
    r
}

} // verus!
