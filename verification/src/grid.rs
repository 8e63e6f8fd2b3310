//! The grid of one month: week rows of seven cells, Sunday first.
//!
//! The days of the month are walked in order. Each day is written into the
//! cell of its day of the week in the row being filled. A Saturday, or the
//! last day of the month, closes the row, and a blank row is begun. When the
//! days are done, one blank row follows the closed ones; a row that was begun
//! and not closed is not part of the grid.

use crate::date::{month_length, Date, MonthKey, Ymd};
use crate::holiday::{days_view, Day, DayView};
use crate::text::{decimal, decimal_text, ColorTag};
use vstd::prelude::*;

verus! {

/// A day as a cell of the grid shows it.
#[derive(Clone, Copy, Debug, PartialEq, Eq, Structural, Hash)]
pub struct DayCell {
    /// Day of the month.
    pub day: u32,
    /// Colour class of the day.
    pub tag: ColorTag,
    /// Whether the day is today, and so shown emphasized.
    pub today: bool,
}

/// One week of the grid: the cell at index 0 is Sunday's, the one at 6
/// Saturday's. A cell without a day is blank.
#[derive(Clone, Debug, PartialEq, Eq)]
pub struct WeekRow {
    pub cells: [Option<DayCell>; 7],
}

impl View for WeekRow {
    type V = Seq<Option<DayCell>>;

    open spec fn view(&self) -> Seq<Option<DayCell>> {
        self.cells@
    }
}

/// The grid of one month: its header line and its week rows.
#[derive(Clone, Debug, PartialEq, Eq)]
pub struct MonthGrid {
    pub header: String,
    pub rows: Vec<WeekRow>,
}

/// What a [`MonthGrid`] holds.
pub struct GridView {
    pub header: Seq<char>,
    pub rows: Seq<Seq<Option<DayCell>>>,
}

/// What a run of week rows holds.
pub open spec fn rows_view(rows: Seq<WeekRow>) -> Seq<Seq<Option<DayCell>>> {
    Seq::new(rows.len(), |i: int| rows[i]@)
}

impl View for MonthGrid {
    type V = GridView;

    open spec fn view(&self) -> GridView {
        GridView { header: self.header@, rows: rows_view(self.rows@) }
    }
}

/// The colour class of a day: a holiday is one whatever its day of the week;
/// otherwise Sunday and Saturday have their own, and the rest are weekdays.
pub open spec fn tag_of(weekday: int, holiday: bool) -> ColorTag {
    if holiday {
        ColorTag::Holiday
    } else if weekday == 0 {
        ColorTag::Sunday
    } else if weekday == 6 {
        ColorTag::Saturday
    } else {
        ColorTag::Weekday
    }
}

/// The cell of a day, `today` being the current date.
pub open spec fn cell_of(day: DayView, today: Ymd) -> DayCell {
    DayCell {
        day: day.date.day as u32,
        tag: tag_of(day.date.weekday(), day.holiday is Some),
        today: day.date == today,
    }
}

/// A row of seven blank cells.
pub open spec fn blank_row() -> Seq<Option<DayCell>> {
    Seq::new(7, |i: int| None::<DayCell>)
}

/// Whether `day` closes the row it is written into, in the grid of the month
/// `key`: it is a Saturday, or its day of the month is the month's last.
pub open spec fn closes_row(key: (int, int), day: DayView) -> bool {
    day.date.weekday() == 6 || day.date.day == month_length(key.0, key.1)
}

/// `row` with `day` written into the cell of its day of the week.
pub open spec fn with_day(row: Seq<Option<DayCell>>, day: DayView, today: Ymd) -> Seq<
    Option<DayCell>,
> {
    row.update(day.date.weekday(), Some(cell_of(day, today)))
}

/// The row being filled once `days` have been walked.
pub open spec fn open_row(key: (int, int), days: Seq<DayView>, today: Ymd) -> Seq<Option<DayCell>>
    decreases days.len(),
{
    if days.len() == 0 || closes_row(key, days.last()) {
        blank_row()
    } else {
        with_day(open_row(key, days.drop_last(), today), days.last(), today)
    }
}

/// The rows closed once `days` have been walked.
pub open spec fn closed_rows(key: (int, int), days: Seq<DayView>, today: Ymd) -> Seq<
    Seq<Option<DayCell>>,
>
    decreases days.len(),
{
    if days.len() == 0 {
        Seq::empty()
    } else if closes_row(key, days.last()) {
        closed_rows(key, days.drop_last(), today).push(
            with_day(open_row(key, days.drop_last(), today), days.last(), today),
        )
    } else {
        closed_rows(key, days.drop_last(), today)
    }
}

/// The week rows of the month `key` for `days`: the closed rows, then one
/// blank row.
pub open spec fn month_rows(key: (int, int), days: Seq<DayView>, today: Ymd) -> Seq<
    Seq<Option<DayCell>>,
> {
    closed_rows(key, days, today).push(blank_row())
}

/// The header line of a month: the year, the era label in brackets, the
/// month.
pub open spec fn month_header(key: (int, int), era_label: Seq<char>) -> Seq<char> {
    decimal(key.0 as nat) + seq!['年', '('] + era_label + seq![')'] + decimal(key.1 as nat)
        + seq!['月']
}

/// The grid of the month `key` for `days`.
pub open spec fn month_grid(
    key: (int, int),
    days: Seq<DayView>,
    era_label: Seq<char>,
    today: Ymd,
) -> GridView {
    GridView { header: month_header(key, era_label), rows: month_rows(key, days, today) }
}

/// The colour class of a day from its day of the week (Sunday being 0) and
/// from whether it is a holiday.
pub fn color_tag(weekday: u32, holiday: bool) -> (r: ColorTag)
    ensures
        r == tag_of(weekday as int, holiday),
{
    if holiday {
        ColorTag::Holiday
    } else if weekday == 0 {
        ColorTag::Sunday
    } else if weekday == 6 {
        ColorTag::Saturday
    } else {
        ColorTag::Weekday
    }
}

/// The cell that shows `day`, `today` being the current date.
pub fn day_cell(day: &Day, today: &Date) -> (r: DayCell)
    ensures
        r == cell_of(day@, today@),
{
    DayCell {
        day: day.date.day(),
        tag: color_tag(day.date.weekday(), day.holiday.is_some()),
        today: day.date.same_day(today),
    }
}

impl WeekRow {
    /// A row of seven blank cells.
    pub fn blank() -> (r: WeekRow)
        ensures
            r@ == blank_row(),
    {
        let r = WeekRow { cells: [None, None, None, None, None, None, None] };
        r
    }
}

/// The header line of the month `key` with its era label.
pub fn header_text(key: &MonthKey, era_label: &str) -> (r: String)
    ensures
        r@ == month_header(key@, era_label@),
{
    proof {
        reveal_strlit("年(");
        reveal_strlit(")");
        reveal_strlit("月");
    }
    let mut r = decimal_text(key.year() as u32);
    r.append("年(");
    r.append(era_label);
    r.append(")");
    r.append(decimal_text(key.month()).as_str());
    r.append("月");
    r
}

/// Lays the days of one month out as week rows, under the month's header.
///
/// `days` are the days to show, in order; `today` is the current date. A day
/// is written into the cell of its day of the week; a Saturday, or a day whose
/// day of the month is the last of the month `key`, closes its row.
pub fn render_month(key: &MonthKey, days: &Vec<Day>, era_label: &str, today: &Date) -> (r:
    MonthGrid)
    ensures
        r@ == month_grid(key@, days_view(days@), era_label@, today@),
{
    let ghost all = days_view(days@);
    let last = key.length();
    let mut rows: Vec<WeekRow> = Vec::new();
    let mut row = WeekRow::blank();
    let mut i: usize = 0;
    while i < days.len()
        invariant
            i <= days.len(),
            all == days_view(days@),
            last == month_length(key@.0, key@.1),
            rows_view(rows@) == closed_rows(key@, all.take(i as int), today@),
            row@ == open_row(key@, all.take(i as int), today@),
        decreases days.len() - i,
    {
        let day = &days[i];
        let weekday = day.date.weekday();
        let cell = day_cell(day, today);
        proof {
            assert(all.take(i + 1).drop_last() =~= all.take(i as int));
        }
        row.cells[weekday as usize] = Some(cell);
        if weekday == 6 || day.date.day() == last {
            rows.push(row);
            row = WeekRow::blank();
        }
        i = i + 1;
    }
    proof {
        assert(all.take(i as int) =~= all);
    }
    let ghost before = rows_view(rows@);
    rows.push(WeekRow::blank());
    assert(rows_view(rows@) =~= before.push(blank_row()));
    MonthGrid { header: header_text(key, era_label), rows }
}

} // verus!
