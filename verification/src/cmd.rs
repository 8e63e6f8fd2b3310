//! The calendar of a range of days, ready to be shown as a grid or as a list.

use crate::calendar::{
    all_dates, bucketed, buckets_view, build, day_span, BucketView, DateRange, MonthBucket,
};
use crate::compose::{grids_view, render_side_by_side, side_by_side, Layout};
use crate::date::{Date, Ymd};
use crate::grid::{month_grid, render_month, GridView, MonthGrid};
use crate::holiday::{all_looked_up, holiday_table, look_up};
use crate::list::{list_lines, names_view, render_list};
use crate::text::{block_view, Span, SpanView};
use jpholiday::jpholiday::JPHoliday;
use vstd::prelude::*;

verus! {

/// The days of a range bucketed by month, with the table of holidays.
pub struct CalCmd<'a> {
    table: JPHoliday<'a>,
    months: Vec<MonthBucket>,
}

/// How a calendar is shown, with what the way of showing needs.
#[derive(Clone, Debug, PartialEq, Eq)]
pub enum Mode {
    /// As a flat list, one line for each day.
    List {
        /// The names of the days of the week, Sunday's first.
        weekday_names: [String; 7],
    },
    /// As month grids side by side.
    Grid {
        /// The era label of each month, in the order of the months.
        era_labels: Vec<String>,
        /// The current date.
        today: Date,
        /// The measures of the layout.
        layout: Layout,
    },
}

/// What a run of era labels holds.
pub open spec fn labels_view(labels: Seq<String>) -> Seq<Seq<char>> {
    Seq::new(labels.len(), |i: int| labels[i]@)
}

/// The grid of each month, the days as the holiday table knows them and the
/// `i`-th month under the `i`-th label.
pub open spec fn grids_of(months: Seq<BucketView>, labels: Seq<Seq<char>>, today: Ymd) -> Seq<
    GridView,
> {
    Seq::new(
        months.len(),
        |i: int|
            month_grid(months[i].key, all_looked_up(months[i].dates), labels[i], today),
    )
}

/// The lines that show the months in the given mode.
pub open spec fn shown(months: Seq<BucketView>, mode: Mode) -> Seq<Seq<SpanView>> {
    match mode {
        Mode::List { weekday_names } => list_lines(
            all_looked_up(all_dates(months)),
            names_view(weekday_names),
        ),
        Mode::Grid { era_labels, today, layout } => side_by_side(
            grids_of(months, labels_view(era_labels@), today@),
            layout,
        ),
    }
}

/// Whether the months can be shown in the given mode: a grid needs one era
/// label for each month, and one month or more in a group.
pub open spec fn showable(months: Seq<BucketView>, mode: Mode) -> bool {
    match mode {
        Mode::List { .. } => true,
        Mode::Grid { era_labels, layout, .. } => era_labels.len() == months.len()
            && layout.columns_per_row > 0,
    }
}

/// The days of the first buckets are the first days of all the buckets.
proof fn lemma_all_dates_take(months: Seq<BucketView>, i: int)
    requires
        0 <= i < months.len(),
    ensures
        all_dates(months.take(i + 1)) == all_dates(months.take(i)) + months[i].dates,
{
    assert(months.take(i + 1).drop_last() =~= months.take(i));
}

impl<'a> CalCmd<'a> {
    /// The month buckets, in chronological order.
    pub closed spec fn months(&self) -> Seq<BucketView> {
        buckets_view(self.months@)
    }

    /// The calendar of the days from `start_date` to `end_date`, both
    /// included.
    pub fn new(start_date: Date, end_date: Date) -> (r: CalCmd<'a>)
        requires
            !end_date@.before(start_date@),
        ensures
            all_dates(r.months()) == day_span(start_date@, end_date@),
            bucketed(r.months()),
    {
        CalCmd { table: holiday_table(), months: build(start_date, end_date) }
    }

    /// The calendar of the days of `range`.
    pub fn for_range(range: &DateRange) -> (r: CalCmd<'a>)
        ensures
            all_dates(r.months()) == day_span(range.first(), range.last()),
            bucketed(r.months()),
    {
        CalCmd { table: holiday_table(), months: range.months() }
    }

    /// The month buckets, in chronological order.
    pub fn buckets(&self) -> (r: &Vec<MonthBucket>)
        ensures
            buckets_view(r@) == self.months(),
    {
        &self.months
    }

    /// The calendar in the given mode: the lines to print, top to bottom.
    pub fn print(&self, mode: &Mode) -> (r: Vec<Vec<Span>>)
        requires
            showable(self.months(), *mode),
        ensures
            block_view(r@) == shown(self.months(), *mode),
    {
        match mode {
            Mode::List { weekday_names } => self.print_list(weekday_names),
            Mode::Grid { era_labels, today, layout } => self.print_cal(era_labels, today, layout),
        }
    }

    /// The calendar as a flat list: the lines to print, one for each day, in
    /// chronological order. `weekday_names` holds the names of the days of
    /// the week, Sunday's first.
    pub fn print_list(&self, weekday_names: &[String; 7]) -> (r: Vec<Vec<Span>>)
        ensures
            block_view(r@) == list_lines(
                all_looked_up(all_dates(self.months())),
                names_view(*weekday_names),
            ),
    {
        let ghost months = self.months();
        let ghost names = names_view(*weekday_names);
        let mut out: Vec<Vec<Span>> = Vec::new();
        let mut i: usize = 0;
        while i < self.months.len()
            invariant
                i <= self.months.len(),
                months == self.months(),
                names == names_view(*weekday_names),
                block_view(out@) == list_lines(
                    all_looked_up(all_dates(months.take(i as int))),
                    names,
                ),
            decreases self.months.len() - i,
        {
            let bucket = &self.months[i];
            let days = look_up(&self.table, &bucket.dates);
            let mut lines = render_list(&days, weekday_names);
            let ghost before = block_view(out@);
            let ghost added = block_view(lines@);
            out.append(&mut lines);
            proof {
                lemma_all_dates_take(months, i as int);
                assert(block_view(out@) =~= before + added);
            }
            i = i + 1;
        }
        assert(months.take(i as int) =~= months);
        out
    }

    /// The calendar as month grids side by side: the lines to print, top to
    /// bottom. `era_labels` holds the era label of each month, in the order
    /// of the buckets; `today` is the current date; `layout` gives the
    /// measures, and says how many months stand in one group.
    pub fn print_cal(&self, era_labels: &Vec<String>, today: &Date, layout: &Layout) -> (r: Vec<
        Vec<Span>,
    >)
        requires
            era_labels.len() == self.months().len(),
            layout.columns_per_row > 0,
        ensures
            block_view(r@) == side_by_side(
                grids_of(self.months(), labels_view(era_labels@), today@),
                *layout,
            ),
    {
        let ghost months = self.months();
        let ghost labels = labels_view(era_labels@);
        let mut grids: Vec<MonthGrid> = Vec::new();
        let mut i: usize = 0;
        while i < self.months.len()
            invariant
                i <= self.months.len(),
                era_labels.len() == self.months.len(),
                months == self.months(),
                labels == labels_view(era_labels@),
                grids.len() == i,
                forall|j: int|
                    0 <= j < i ==> (#[trigger] grids@[j])@ == grids_of(months, labels, today@)[j],
            decreases self.months.len() - i,
        {
            let bucket = &self.months[i];
            let days = look_up(&self.table, &bucket.dates);
            grids.push(render_month(&bucket.key, &days, era_labels[i].as_str(), today));
            i = i + 1;
        }
        assert(grids_view(grids@) =~= grids_of(months, labels, today@));
        render_side_by_side(&grids, layout)
    }
}

/// Showing a calendar twice in one mode gives the same lines: any two
/// blocks that `print` may return for one calendar and one mode hold the
/// same. So do any two that `print_list` may return for one calendar and one
/// run of names, and any two that `print_cal` may return for one calendar,
/// one run of labels, one current date and one layout.
pub proof fn lemma_shown_twice(
    months: Seq<BucketView>,
    mode: Mode,
    first: Seq<Seq<SpanView>>,
    second: Seq<Seq<SpanView>>,
)
    requires
        first == shown(months, mode),
        second == shown(months, mode),
    ensures
        first == second,
{
}

} // verus!
