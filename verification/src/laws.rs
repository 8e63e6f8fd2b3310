//! What holds of every calendar: of the grid of a month, of the buckets of a
//! range, and of the lines of a group of months.

use crate::calendar::{all_dates, bucketed, day_after, day_span, keyed, lemma_day_span, BucketView};
use crate::compose::{cells_part, group_line, joined, part, parts_of, Layout, LineKind};
use crate::date::{lemma_weekday_in_month, month_before, month_length, valid_month, Ymd};
use crate::grid::{
    blank_row, cell_of, closed_rows, closes_row, month_rows, open_row, with_day, DayCell, GridView,
};
use crate::holiday::{all_looked_up, DayView};
use crate::text::{decimal, line_chars, plain_span, spaces, SpanView};
use vstd::prelude::*;

verus! {

/// `days` are days of the month `key` that follow each other, the first of
/// them being the `first` day of the month.
pub open spec fn month_run(key: (int, int), first: int, days: Seq<DayView>) -> bool {
    &&& valid_month(key)
    &&& 1 <= first
    &&& first + days.len() - 1 <= month_length(key.0, key.1)
    &&& forall|i: int|
        0 <= i < days.len() ==> (#[trigger] days[i]).date == (Ymd {
            year: key.0,
            month: key.1,
            day: first + i,
        })
}

/// Number of cells of a row that hold a day.
pub open spec fn filled_in_row(row: Seq<Option<DayCell>>) -> nat
    decreases row.len(),
{
    if row.len() == 0 {
        0
    } else {
        filled_in_row(row.drop_last()) + if row.last() is Some {
            1nat
        } else {
            0nat
        }
    }
}

/// Number of cells of the rows that hold a day.
pub open spec fn filled_in_rows(rows: Seq<Seq<Option<DayCell>>>) -> nat
    decreases rows.len(),
{
    if rows.len() == 0 {
        0
    } else {
        filled_in_rows(rows.drop_last()) + filled_in_row(rows.last())
    }
}

/// Whether the cell at `column` of one of `rows` shows `day`.
pub open spec fn shown_in(
    rows: Seq<Seq<Option<DayCell>>>,
    column: int,
    day: DayView,
    today: Ymd,
) -> bool {
    exists|r: int| 0 <= r < rows.len() && (#[trigger] rows[r])[column] == Some(cell_of(day, today))
}

/// Whether `cell` shows one of `days` whose day of the week is `column`.
pub open spec fn shows_one_of(cell: DayCell, column: int, days: Seq<DayView>, today: Ymd) -> bool {
    exists|i: int|
        0 <= i < days.len() && (#[trigger] days[i]).date.weekday() == column && cell == cell_of(
            days[i],
            today,
        )
}

proof fn lemma_filled_none(row: Seq<Option<DayCell>>)
    requires
        forall|c: int| 0 <= c < row.len() ==> row[c] is None,
    ensures
        filled_in_row(row) == 0,
    decreases row.len(),
{
    if row.len() > 0 {
        lemma_filled_none(row.drop_last());
    }
}

proof fn lemma_filled_some(row: Seq<Option<DayCell>>, column: int)
    requires
        0 <= column < row.len(),
        row[column] is Some,
    ensures
        filled_in_row(row) >= 1,
    decreases row.len(),
{
    if column < row.len() - 1 {
        lemma_filled_some(row.drop_last(), column);
    }
}

proof fn lemma_filled_update(row: Seq<Option<DayCell>>, column: int, cell: DayCell)
    requires
        0 <= column < row.len(),
    ensures
        filled_in_row(row.update(column, Some(cell))) == filled_in_row(row) + if row[column]
            is None {
            1nat
        } else {
            0nat
        },
    decreases row.len(),
{
    let updated = row.update(column, Some(cell));
    if column == row.len() - 1 {
        assert(updated.drop_last() =~= row.drop_last());
    } else {
        assert(updated.drop_last() =~= row.drop_last().update(column, Some(cell)));
        lemma_filled_update(row.drop_last(), column, cell);
    }
}

/// The row being filled has seven cells, and every day that one of them
/// shows is one of the days walked, in the column of its day of the week.
proof fn lemma_open_row(key: (int, int), days: Seq<DayView>, today: Ymd)
    ensures
        open_row(key, days, today).len() == 7,
        forall|c: int|
            0 <= c < 7 ==> (#[trigger] open_row(key, days, today)[c] matches Some(cell)
                ==> shows_one_of(cell, c, days, today)),
    decreases days.len(),
{
    if days.len() > 0 && !closes_row(key, days.last()) {
        let before = days.drop_last();
        lemma_open_row(key, before, today);
        let row = open_row(key, days, today);
        assert forall|c: int| 0 <= c < 7 implies (#[trigger] row[c] matches Some(cell)
            ==> shows_one_of(cell, c, days, today)) by {
            if row[c] is Some && c != days.last().date.weekday() {
                let cell = row[c]->0;
                let i = choose|i: int|
                    0 <= i < before.len() && (#[trigger] before[i]).date.weekday() == c && cell
                        == cell_of(before[i], today);
                assert(days[i] == before[i]);
            }
        }
    }
}

/// Every row of a grid has seven cells, and every day that a cell shows is
/// one of the days the grid was made for, in the column of its day of the
/// week, Sunday's column being 0.
pub proof fn lemma_cells_at_their_weekday(key: (int, int), days: Seq<DayView>, today: Ymd)
    ensures
        forall|r: int|
            0 <= r < month_rows(key, days, today).len() ==> (#[trigger] month_rows(
                key,
                days,
                today,
            )[r]).len() == 7,
        forall|r: int, c: int|
            0 <= r < month_rows(key, days, today).len() && 0 <= c < 7 ==> (#[trigger] month_rows(
                key,
                days,
                today,
            )[r][c] matches Some(cell) ==> shows_one_of(cell, c, days, today)),
    decreases days.len(),
{
    let rows = month_rows(key, days, today);
    if days.len() > 0 {
        let before = days.drop_last();
        lemma_cells_at_their_weekday(key, before, today);
        lemma_open_row(key, before, today);
        let old_rows = month_rows(key, before, today);
        let old_closed = closed_rows(key, before, today);
        assert forall|r: int, c: int| 0 <= r < rows.len() && 0 <= c < 7 implies (
        #[trigger] rows[r][c] matches Some(cell) ==> shows_one_of(cell, c, days, today)) by {
            if rows[r][c] is Some {
                let cell = rows[r][c]->0;
                if r < old_closed.len() {
                    assert(rows[r] == old_rows[r]);
                }
                if r >= old_closed.len() && c == days.last().date.weekday() {
                    assert(days[days.len() - 1] == days.last());
                } else {
                    let i = choose|i: int|
                        0 <= i < before.len() && (#[trigger] before[i]).date.weekday() == c
                            && cell == cell_of(before[i], today);
                    assert(days[i] == before[i]);
                }
            }
        }
        assert forall|r: int| 0 <= r < rows.len() implies (#[trigger] rows[r]).len() == 7 by {
            if r < old_closed.len() {
                assert(rows[r] == old_rows[r]);
            }
        }
    }
}

/// The days have the days of the week that follow `w`, and none but the
/// last is the last day of the month `key`.
spec fn steady(key: (int, int), days: Seq<DayView>, w: int) -> bool {
    &&& 0 <= w < 7
    &&& forall|i: int| 0 <= i < days.len() ==> (#[trigger] days[i]).date.weekday() == (w + i) % 7
    &&& forall|i: int|
        0 <= i < days.len() - 1 ==> (#[trigger] days[i]).date.day != month_length(key.0, key.1)
}

proof fn lemma_run_is_steady(key: (int, int), first: int, days: Seq<DayView>)
    requires
        month_run(key, first, days),
    ensures
        steady(key, days, (Ymd { year: key.0, month: key.1, day: first }).weekday()),
{
    let w = (Ymd { year: key.0, month: key.1, day: first }).weekday();
    assert forall|i: int| 0 <= i < days.len() implies (#[trigger] days[i]).date.weekday() == (w
        + i) % 7 by {
        lemma_weekday_in_month(key.0, key.1, first + i);
        lemma_weekday_in_month(key.0, key.1, first);
    }
}

/// The cells of the row being filled from the column of the next day on are
/// blank.
proof fn lemma_open_tail(key: (int, int), days: Seq<DayView>, w: int, today: Ymd)
    requires
        steady(key, days, w),
    ensures
        open_row(key, days, today).len() == 7,
        forall|c: int|
            (w + days.len()) % 7 <= c < 7 ==> (#[trigger] open_row(key, days, today)[c]) is None,
    decreases days.len(),
{
    if days.len() > 0 && !closes_row(key, days.last()) {
        lemma_open_tail(key, days.drop_last(), w, today);
    }
}

/// Every day walked is in a cell, of a closed row or of the row being
/// filled.
proof fn lemma_walk_count(key: (int, int), days: Seq<DayView>, w: int, today: Ymd)
    requires
        steady(key, days, w),
    ensures
        filled_in_rows(closed_rows(key, days, today)) + filled_in_row(open_row(key, days, today))
            == days.len(),
    decreases days.len(),
{
    if days.len() == 0 {
        lemma_filled_none(blank_row());
    } else {
        let before = days.drop_last();
        lemma_walk_count(key, before, w, today);
        lemma_open_tail(key, before, w, today);
        let old_open = open_row(key, before, today);
        let column = days.last().date.weekday();
        lemma_filled_update(old_open, column, cell_of(days.last(), today));
        if closes_row(key, days.last()) {
            lemma_filled_none(blank_row());
            let closed = closed_rows(key, days, today);
            assert(closed.drop_last() =~= closed_rows(key, before, today));
        }
    }
}

/// Number of rows closed: one for each Saturday, and one for the last day
/// of the month where it is no Saturday.
proof fn lemma_walk_rows(key: (int, int), days: Seq<DayView>, w: int, today: Ymd)
    requires
        steady(key, days, w),
    ensures
        closed_rows(key, days, today).len() == if days.len() > 0 && days.last().date.day
            == month_length(key.0, key.1) {
            (w + days.len() - 1) / 7 + 1
        } else {
            (w + days.len()) / 7
        },
    decreases days.len(),
{
    if days.len() > 0 {
        lemma_walk_rows(key, days.drop_last(), w, today);
    }
}

/// Every closed row has seven cells, one of which holds a day.
proof fn lemma_closed_rows_hold_days(key: (int, int), days: Seq<DayView>, today: Ymd)
    ensures
        forall|r: int|
            0 <= r < closed_rows(key, days, today).len() ==> (#[trigger] closed_rows(
                key,
                days,
                today,
            )[r]).len() == 7 && filled_in_row(closed_rows(key, days, today)[r]) >= 1,
    decreases days.len(),
{
    if days.len() > 0 {
        let before = days.drop_last();
        lemma_closed_rows_hold_days(key, before, today);
        let closed = closed_rows(key, days, today);
        let old_closed = closed_rows(key, before, today);
        if closes_row(key, days.last()) {
            lemma_open_row(key, before, today);
            let old_open = open_row(key, before, today);
            let row = with_day(old_open, days.last(), today);
            lemma_filled_some(row, days.last().date.weekday());
            assert forall|r: int| 0 <= r < closed.len() implies (#[trigger] closed[r]).len() == 7
                && filled_in_row(closed[r]) >= 1 by {
                if r < old_closed.len() {
                    assert(closed[r] == old_closed[r]);
                }
            }
        }
    }
}

/// Every day walked is shown in the column of its day of the week, in a
/// closed row or in the row being filled.
proof fn lemma_walk_shown(key: (int, int), days: Seq<DayView>, w: int, today: Ymd)
    requires
        steady(key, days, w),
    ensures
        forall|i: int|
            0 <= i < days.len() ==> shown_in(
                closed_rows(key, days, today),
                (#[trigger] days[i]).date.weekday(),
                days[i],
                today,
            ) || open_row(key, days, today)[days[i].date.weekday()] == Some(
                cell_of(days[i], today),
            ),
    decreases days.len(),
{
    if days.len() > 0 {
        let before = days.drop_last();
        lemma_walk_shown(key, before, w, today);
        lemma_open_tail(key, before, w, today);
        let last = days.last();
        let closed = closed_rows(key, days, today);
        let open = open_row(key, days, today);
        let old_closed = closed_rows(key, before, today);
        let old_open = open_row(key, before, today);
        let row = with_day(old_open, last, today);
        assert forall|i: int| 0 <= i < days.len() implies shown_in(
            closed,
            (#[trigger] days[i]).date.weekday(),
            days[i],
            today,
        ) || open[days[i].date.weekday()] == Some(cell_of(days[i], today)) by {
            let column = days[i].date.weekday();
            let cell = cell_of(days[i], today);
            if i < before.len() {
                assert(before[i] == days[i]);
                if shown_in(old_closed, column, days[i], today) {
                    let r = choose|r: int|
                        0 <= r < old_closed.len() && (#[trigger] old_closed[r])[column] == Some(
                            cell,
                        );
                    if closes_row(key, last) {
                        assert(closed[r] == old_closed[r]);
                    }
                } else if closes_row(key, last) {
                    assert(closed[closed.len() - 1] == row);
                }
            } else if closes_row(key, last) {
                assert(closed[closed.len() - 1] == row);
            }
        }
    }
}

/// The grid of a run of days of one month whose last day closes its row
/// holds as many days as the run, and shows each day in the column of its day
/// of the week: none is lost.
///
/// The last day closes its row where it is a Saturday or the last day of the
/// month. A run that ends on another day leaves its last row open, and the
/// grid does not hold the days of that row.
pub proof fn lemma_grid_holds_every_day(
    key: (int, int),
    first: int,
    days: Seq<DayView>,
    today: Ymd,
)
    requires
        month_run(key, first, days),
        days.len() > 0 ==> closes_row(key, days.last()),
    ensures
        filled_in_rows(month_rows(key, days, today)) == days.len(),
        forall|i: int|
            0 <= i < days.len() ==> shown_in(
                month_rows(key, days, today),
                (#[trigger] days[i]).date.weekday(),
                days[i],
                today,
            ),
{
    let w = (Ymd { year: key.0, month: key.1, day: first }).weekday();
    lemma_run_is_steady(key, first, days);
    lemma_walk_count(key, days, w, today);
    lemma_walk_shown(key, days, w, today);
    let closed = closed_rows(key, days, today);
    let rows = month_rows(key, days, today);
    assert(rows.drop_last() =~= closed);
    assert forall|i: int| 0 <= i < days.len() implies shown_in(
        rows,
        (#[trigger] days[i]).date.weekday(),
        days[i],
        today,
    ) by {
        let column = days[i].date.weekday();
        let r = choose|r: int|
            0 <= r < closed.len() && (#[trigger] closed[r])[column] == Some(
                cell_of(days[i], today),
            );
        assert(rows[r] == closed[r]);
    }
}

/// The grid of a whole month: as many rows that hold days as the weeks that
/// the month touches, then one blank row. The last of the rows that hold
/// days shows the month's last day in the column of its day of the week.
pub proof fn lemma_rows_of_a_whole_month(key: (int, int), days: Seq<DayView>, today: Ymd)
    requires
        month_run(key, 1, days),
        days.len() == month_length(key.0, key.1),
    ensures
        ({
            let rows = month_rows(key, days, today);
            let leading = (Ymd { year: key.0, month: key.1, day: 1 }).weekday();
            let weeks = (leading + month_length(key.0, key.1) + 6) / 7;
            &&& rows.len() == weeks + 1
            &&& rows.last() == blank_row()
            &&& filled_in_row(rows.last()) == 0
            &&& forall|r: int| 0 <= r < weeks ==> filled_in_row(#[trigger] rows[r]) >= 1
            &&& rows[weeks - 1][days.last().date.weekday()] == Some(cell_of(days.last(), today))
            &&& filled_in_rows(rows) == month_length(key.0, key.1)
        }),
{
    let w = (Ymd { year: key.0, month: key.1, day: 1 }).weekday();
    lemma_run_is_steady(key, 1, days);
    lemma_walk_rows(key, days, w, today);
    lemma_closed_rows_hold_days(key, days, today);
    lemma_grid_holds_every_day(key, 1, days, today);
    let closed = closed_rows(key, days, today);
    let rows = month_rows(key, days, today);
    lemma_filled_none(blank_row());
    assert forall|r: int| 0 <= r < closed.len() implies filled_in_row(#[trigger] rows[r]) >= 1 by {
        assert(rows[r] == closed[r]);
    }
    lemma_open_row(key, days.drop_last(), today);
}

/// A run of days of one month closes six rows at most: six week rows show
/// every day that its grid holds.
pub proof fn lemma_six_rows_suffice(key: (int, int), first: int, days: Seq<DayView>, today: Ymd)
    requires
        month_run(key, first, days),
    ensures
        closed_rows(key, days, today).len() <= 6,
        month_rows(key, days, today).len() <= 7,
        forall|r: int|
            6 <= r < month_rows(key, days, today).len() ==> #[trigger] month_rows(
                key,
                days,
                today,
            )[r] == blank_row(),
{
    let w = (Ymd { year: key.0, month: key.1, day: first }).weekday();
    lemma_run_is_steady(key, first, days);
    lemma_walk_rows(key, days, w, today);
}

/// Number of days in the first `i` buckets.
pub open spec fn days_before_bucket(buckets: Seq<BucketView>, i: int) -> int {
    all_dates(buckets.take(i)).len() as int
}

/// Where the days of a bucket stand among the days of all the buckets.
proof fn lemma_bucket_days(buckets: Seq<BucketView>, i: int)
    requires
        0 <= i < buckets.len(),
    ensures
        days_before_bucket(buckets, i + 1) == days_before_bucket(buckets, i)
            + buckets[i].dates.len(),
        days_before_bucket(buckets, i + 1) <= all_dates(buckets).len(),
        days_before_bucket(buckets, 0) == 0,
        days_before_bucket(buckets, buckets.len() as int) == all_dates(buckets).len(),
        forall|j: int|
            0 <= j < buckets[i].dates.len() ==> all_dates(buckets)[days_before_bucket(buckets, i)
                + j] == #[trigger] buckets[i].dates[j],
    decreases buckets.len(),
{
    let front = buckets.drop_last();
    assert(buckets.take(buckets.len() as int) =~= buckets);
    if i < buckets.len() - 1 {
        lemma_bucket_days(front, i);
        assert(front.take(i) =~= buckets.take(i));
        assert(front.take(i + 1) =~= buckets.take(i + 1));
    }
}

/// Each bucket of the calendar of a range holds days of its month that
/// follow each other. The first bucket starts with the first day of the
/// range and the last ends with its last day; every other bucket starts with
/// the first day of its month, and every bucket but the last ends with the
/// last day of its month.
pub proof fn lemma_buckets_are_month_runs(
    start: Ymd,
    end: Ymd,
    buckets: Seq<BucketView>,
    i: int,
)
    requires
        start.valid(),
        end.valid(),
        !end.before(start),
        bucketed(buckets),
        all_dates(buckets) == day_span(start, end),
        0 <= i < buckets.len(),
    ensures
        buckets[i].dates.len() > 0,
        month_run(buckets[i].key, buckets[i].dates[0].day, all_looked_up(buckets[i].dates)),
        i == 0 ==> buckets[i].dates[0] == start,
        i > 0 ==> buckets[i].dates[0].day == 1,
        i == buckets.len() - 1 ==> buckets[i].dates.last() == end,
        i < buckets.len() - 1 ==> buckets[i].dates.last().ends_month(),
{
    let span = day_span(start, end);
    let dates = buckets[i].dates;
    let key = buckets[i].key;
    let offset = days_before_bucket(buckets, i);
    // The days of the bucket stand in the span one after the other, so their
    // day numbers grow by one; they lie in one month, so their days of the
    // month do too.
    lemma_day_span(start, end);
    lemma_bucket_days(buckets, i);
    assert(keyed(buckets[i]));
    assert forall|j: int| 0 <= j < dates.len() implies (#[trigger] dates[j]).valid()
        && dates[j].month_key() == key && span[offset + j] == dates[j] by {}
    let first = dates[0].day;
    let days = all_looked_up(dates);
    assert forall|j: int| 0 <= j < days.len() implies (#[trigger] days[j]).date == (Ymd {
        year: key.0,
        month: key.1,
        day: first + j,
    }) by {
        assert(dates[j].day_number() == dates[0].day_number() + j);
        assert(days[j].date == dates[j]);
    }
    assert(dates[dates.len() - 1].valid());
    // The day before the first of the bucket, and the day after its last, lie
    // in other months.
    assert forall|p: int| 0 <= p < span.len() - 1 implies #[trigger] span[p + 1] == span[p].next(
    ) by {
        assert(day_after(start, (p + 1) as nat) == day_after(start, p as nat).next());
    }
    if i > 0 {
        lemma_bucket_days(buckets, i - 1);
        let earlier = buckets[i - 1].dates;
        assert(keyed(buckets[i - 1]));
        assert(month_before(buckets[i - 1].key, key));
        assert(span[offset - 1] == earlier[earlier.len() - 1]);
        assert(span[offset - 1 + 1] == span[offset - 1].next());
        assert(span[offset + 0] == dates[0]);
    }
    if i < buckets.len() - 1 {
        lemma_bucket_days(buckets, i + 1);
        let last = dates.len() - 1;
        assert(keyed(buckets[i + 1]));
        assert(month_before(key, buckets[i + 1].key));
        assert(span[offset + last] == dates[last]);
        assert(span[offset + last + 1] == span[offset + last].next());
        assert(span[offset + dates.len() + 0] == buckets[i + 1].dates[0]);
    } else {
        assert(span[offset + (dates.len() - 1)] == dates[dates.len() - 1]);
    }
}

/// In the calendar of a range, the grid of a month holds as many days as
/// the month's bucket: the days of the whole month for a month that lies
/// inside the range, the days in the range for a month at its border.
///
/// This holds of every month but the last, and of the last where the range
/// ends on a Saturday or on the last day of a month. Where it ends on another
/// day, the grid of the last month lacks the days of the week that the range
/// ends in.
pub proof fn lemma_calendar_grids_hold_every_day(
    start: Ymd,
    end: Ymd,
    buckets: Seq<BucketView>,
    i: int,
    today: Ymd,
)
    requires
        start.valid(),
        end.valid(),
        !end.before(start),
        bucketed(buckets),
        all_dates(buckets) == day_span(start, end),
        0 <= i < buckets.len(),
        i == buckets.len() - 1 ==> end.weekday() == 6 || end.ends_month(),
    ensures
        filled_in_rows(month_rows(buckets[i].key, all_looked_up(buckets[i].dates), today))
            == buckets[i].dates.len(),
        0 < i < buckets.len() - 1 ==> buckets[i].dates.len() == month_length(
            buckets[i].key.0,
            buckets[i].key.1,
        ),
{
    lemma_buckets_are_month_runs(start, end, buckets, i);
    let key = buckets[i].key;
    let dates = buckets[i].dates;
    let days = all_looked_up(dates);
    lemma_grid_holds_every_day(key, dates[0].day, days, today);
}

/// The width that a line of a group gives each column: the header width on
/// the line of month headers, the column width on the others.
pub open spec fn width_on(kind: LineKind, layout: Layout) -> int {
    match kind {
        LineKind::Header => layout.header_width as int,
        _ => layout.column_width as int,
    }
}

/// Whether what the month `grid` shows on a line is no wider than its
/// column: the header is no longer than the header width; the column has
/// room for the seven weekday initials and for seven days of two digits, and
/// no day of the week row has more digits.
pub open spec fn fits(grid: GridView, kind: LineKind, layout: Layout) -> bool {
    match kind {
        LineKind::Header => grid.header.len() <= layout.header_width,
        LineKind::Weekdays => 13 <= layout.column_width,
        LineKind::Body(r) => 20 <= layout.column_width && (r < grid.rows.len() ==> {
            &&& grid.rows[r as int].len() == 7
            &&& forall|c: int|
                0 <= c < 7 ==> ((#[trigger] grid.rows[r as int][c]) matches Some(cell) ==> cell.day
                    < 100)
        }),
    }
}

proof fn lemma_line_chars_add(a: Seq<SpanView>, b: Seq<SpanView>)
    ensures
        line_chars(a + b) == line_chars(a) + line_chars(b),
    decreases b.len(),
{
    if b.len() > 0 {
        lemma_line_chars_add(a, b.drop_last());
        assert((a + b).drop_last() =~= a + b.drop_last());
    }
}

proof fn lemma_cells_width(row: Seq<Option<DayCell>>, n: int)
    requires
        row.len() == 7,
        forall|c: int| 0 <= c < 7 ==> ((#[trigger] row[c]) matches Some(cell) ==> cell.day < 100),
        0 <= n <= 13,
    ensures
        line_chars(cells_part(row).take(n)).len() == n + (n + 1) / 2,
    decreases n,
{
    if n > 0 {
        let cells = cells_part(row);
        lemma_cells_width(row, n - 1);
        assert(cells.take(n).drop_last() =~= cells.take(n - 1));
        if (n - 1) % 2 == 0 {
            let cell = row[(n - 1) / 2];
            if cell is Some {
                let day = cell->0.day as nat;
                assert(decimal(day).len() == if day < 10 {
                    1nat
                } else {
                    2nat
                }) by {
                    reveal_with_fuel(decimal, 2);
                }
            }
        }
    }
}

/// The width of what a month shows on a line, where it fits its column, is
/// the width of the column.
proof fn lemma_part_width(grid: GridView, kind: LineKind, layout: Layout)
    requires
        fits(grid, kind, layout),
    ensures
        line_chars(part(grid, kind, layout)).len() == width_on(kind, layout),
{
    reveal_with_fuel(line_chars, 5);
    match kind {
        LineKind::Body(r) if r < grid.rows.len() => {
            let row = grid.rows[r as int];
            let cells = cells_part(row);
            let fill = seq![plain_span(spaces(layout.column_width - line_chars(cells).len()))];
            lemma_cells_width(row, 13);
            assert(cells.take(13) =~= cells);
            lemma_line_chars_add(cells, fill);
            assert(part(grid, kind, layout) =~= cells + fill);
        },
        _ => {},
    }
}

/// The lines of a group are aligned: where each month fits its column, a
/// line is as wide as the columns and the gutters between them, so that the
/// columns of all the lines of one kind start at the same places.
pub proof fn lemma_columns_align(group: Seq<GridView>, kind: LineKind, layout: Layout)
    requires
        group.len() > 0,
        forall|c: int| 0 <= c < group.len() ==> fits(#[trigger] group[c], kind, layout),
    ensures
        line_chars(group_line(group, kind, layout)).len() == group.len() * width_on(kind, layout)
            + (group.len() - 1) * layout.gutter,
    decreases group.len(),
{
    let parts = parts_of(group, kind, layout);
    let width = width_on(kind, layout);
    let gutter = layout.gutter as int;
    lemma_part_width(group.last(), kind, layout);
    if group.len() > 1 {
        let front = group.drop_last();
        lemma_columns_align(front, kind, layout);
        assert(parts.drop_last() =~= parts_of(front, kind, layout));
        let before = joined(parts.drop_last(), gutter);
        let gap = plain_span(spaces(gutter));
        lemma_line_chars_add(before.push(gap), parts.last());
        assert(before.push(gap).drop_last() =~= before);
        assert(group.len() * width == (group.len() - 1) * width + width) by (nonlinear_arith);
        assert((group.len() - 1) * gutter == (group.len() - 2) * gutter + gutter)
            by (nonlinear_arith);
    } else {
        assert(group.len() * width == width) by (nonlinear_arith)
            requires
                group.len() == 1,
        ;
        assert((group.len() - 1) * gutter == 0) by (nonlinear_arith)
            requires
                group.len() == 1,
        ;
    }
}

} // verus!
