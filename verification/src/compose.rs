//! Month grids side by side.
//!
//! The grids are taken in groups of `columns_per_row`. A group is printed as
//! one line of month headers, one line of weekday headers and `body_rows`
//! lines of week rows, each month in a column of its own, the columns parted
//! by a gutter of blanks. Text is padded to its column's width and never cut:
//! text that is wider than its column pushes what follows to the right.

use crate::grid::{DayCell, GridView, MonthGrid};
use crate::text::{
    blanks, decimal, decimal_text, line_chars, line_text, line_view, pad_left, pad_right,
    padded_left, padded_right, plain_span, spaces, tagged_span, block_view, ColorTag, Span,
    SpanView,
};
use vstd::prelude::*;

verus! {

/// The measures of the layout, in characters and lines.
#[derive(Clone, Copy, Debug, PartialEq, Eq, Structural, Hash)]
pub struct Layout {
    /// Width that a month's header is padded to.
    pub header_width: usize,
    /// Width that a weekday header and a week row are padded to.
    pub column_width: usize,
    /// Blanks between two columns.
    pub gutter: usize,
    /// Months in one group.
    pub columns_per_row: usize,
    /// Week rows printed for a group.
    pub body_rows: usize,
}

/// The layout of three months side by side, six week rows each.
pub open spec fn default_layout() -> Layout {
    Layout { header_width: 15, column_width: 21, gutter: 3, columns_per_row: 3, body_rows: 6 }
}

impl Default for Layout {
    fn default() -> (r: Layout)
        ensures
            r == default_layout(),
    {
        Layout { header_width: 15, column_width: 21, gutter: 3, columns_per_row: 3, body_rows: 6 }
    }
}

/// Which line of a group.
#[derive(Clone, Copy, Debug, PartialEq, Eq, Structural, Hash)]
pub enum LineKind {
    /// The line of month headers.
    Header,
    /// The line of weekday headers.
    Weekdays,
    /// The line of the week rows with the given index.
    Body(usize),
}

/// What a run of grids holds.
pub open spec fn grids_view(grids: Seq<MonthGrid>) -> Seq<GridView> {
    Seq::new(grids.len(), |i: int| grids[i]@)
}

/// A month's header in its column.
pub open spec fn header_part(grid: GridView, layout: Layout) -> Seq<SpanView> {
    seq![plain_span(pad_right(grid.header, layout.header_width as int))]
}

/// The weekday initials between Sunday's and Saturday's.
pub open spec fn inner_weekdays() -> Seq<char> {
    seq![' ', '月', ' ', '火', ' ', '水', ' ', '木', ' ', '金', ' ']
}

/// The weekday header in its column: Sunday's initial in Sunday's colour,
/// Saturday's in Saturday's.
pub open spec fn weekday_part(layout: Layout) -> Seq<SpanView> {
    seq![
        tagged_span(seq!['日'], ColorTag::Sunday),
        plain_span(inner_weekdays()),
        tagged_span(seq!['土'], ColorTag::Saturday),
        plain_span(spaces(layout.column_width - 13)),
    ]
}

/// A cell as text: the day of the month right-justified in two characters in
/// the colour of its class, emphasized if it is today; two blanks for a
/// blank cell.
pub open spec fn cell_span(cell: Option<DayCell>) -> SpanView {
    match cell {
        Some(c) => SpanView {
            text: pad_left(decimal(c.day as nat), 2),
            tag: Some(c.tag),
            emphasized: c.today,
        },
        None => plain_span(spaces(2)),
    }
}

/// The seven cells of a week row, one blank between two cells.
pub open spec fn cells_part(row: Seq<Option<DayCell>>) -> Seq<SpanView> {
    Seq::new(
        13,
        |i: int|
            if i % 2 == 0 {
                cell_span(row[i / 2])
            } else {
                plain_span(seq![' '])
            },
    )
}

/// A week row in its column.
pub open spec fn row_part(row: Seq<Option<DayCell>>, layout: Layout) -> Seq<SpanView> {
    cells_part(row).push(
        plain_span(spaces(layout.column_width - line_chars(cells_part(row)).len())),
    )
}

/// The column of a month that has no week row left.
pub open spec fn missing_part(layout: Layout) -> Seq<SpanView> {
    seq![plain_span(pad_right(seq![' '], layout.column_width as int))]
}

/// What the month `grid` shows in its column on a line of a group.
pub open spec fn part(grid: GridView, kind: LineKind, layout: Layout) -> Seq<SpanView> {
    match kind {
        LineKind::Header => header_part(grid, layout),
        LineKind::Weekdays => weekday_part(layout),
        LineKind::Body(r) => if r < grid.rows.len() {
            row_part(grid.rows[r as int], layout)
        } else {
            missing_part(layout)
        },
    }
}

/// The columns `parts` in one line, a gutter between two columns.
pub open spec fn joined(parts: Seq<Seq<SpanView>>, gutter: int) -> Seq<SpanView>
    decreases parts.len(),
{
    if parts.len() == 0 {
        Seq::empty()
    } else if parts.len() == 1 {
        parts[0]
    } else {
        joined(parts.drop_last(), gutter).push(plain_span(spaces(gutter))) + parts.last()
    }
}

/// What each month of a group shows on one line.
pub open spec fn parts_of(group: Seq<GridView>, kind: LineKind, layout: Layout) -> Seq<
    Seq<SpanView>,
> {
    Seq::new(group.len(), |c: int| part(group[c], kind, layout))
}

/// One line of a group.
pub open spec fn group_line(group: Seq<GridView>, kind: LineKind, layout: Layout) -> Seq<
    SpanView,
> {
    joined(parts_of(group, kind, layout), layout.gutter as int)
}

/// The first `rows` week-row lines of a group.
pub open spec fn body_lines(group: Seq<GridView>, rows: int, layout: Layout) -> Seq<
    Seq<SpanView>,
> {
    Seq::new(rows as nat, |r: int| group_line(group, LineKind::Body(r as usize), layout))
}

/// The lines of a group: headers, weekday headers, week rows.
pub open spec fn group_lines(group: Seq<GridView>, layout: Layout) -> Seq<Seq<SpanView>> {
    seq![
        group_line(group, LineKind::Header, layout),
        group_line(group, LineKind::Weekdays, layout),
    ] + body_lines(group, layout.body_rows as int, layout)
}

/// The lines of all the groups of `grids`, in order. The last group holds
/// what is left and may be smaller.
pub open spec fn side_by_side(grids: Seq<GridView>, layout: Layout) -> Seq<Seq<SpanView>>
    decreases grids.len(),
{
    if grids.len() == 0 || layout.columns_per_row == 0 {
        Seq::empty()
    } else if grids.len() <= layout.columns_per_row {
        group_lines(grids, layout)
    } else {
        group_lines(grids.take(layout.columns_per_row as int), layout) + side_by_side(
            grids.skip(layout.columns_per_row as int),
            layout,
        )
    }
}

/// The span of one cell.
pub fn cell_text(cell: &Option<DayCell>) -> (r: Span)
    ensures
        r@ == cell_span(*cell),
{
    match cell {
        Some(c) => {
            let digits = decimal_text(c.day);
            Span { text: padded_left(digits.as_str(), 2), tag: Some(c.tag), emphasized: c.today }
        },
        None => Span::plain(blanks(2)),
    }
}

/// The spans of a month's header in its column.
pub fn header_spans(grid: &MonthGrid, layout: &Layout) -> (r: Vec<Span>)
    ensures
        line_view(r@) == header_part(grid@, *layout),
{
    let mut r: Vec<Span> = Vec::new();
    r.push(Span::plain(padded_right(grid.header.as_str(), layout.header_width)));
    r
}

/// The spans of the weekday header in its column.
pub fn weekday_spans(layout: &Layout) -> (r: Vec<Span>)
    ensures
        line_view(r@) == weekday_part(*layout),
{
    proof {
        reveal_strlit("日");
        reveal_strlit(" 月 火 水 木 金 ");
        reveal_strlit("土");
    }
    let mut r: Vec<Span> = Vec::new();
    let sunday = String::from_str("日");
    assert(sunday@ =~= seq!['日']);
    r.push(Span::tagged(sunday, ColorTag::Sunday));
    let inner = String::from_str(" 月 火 水 木 金 ");
    assert(inner@ =~= inner_weekdays());
    r.push(Span::plain(inner));
    let saturday = String::from_str("土");
    assert(saturday@ =~= seq!['土']);
    r.push(Span::tagged(saturday, ColorTag::Saturday));
    let fill = if layout.column_width > 13 {
        blanks(layout.column_width - 13)
    } else {
        String::new()
    };
    assert(fill@ =~= spaces(layout.column_width - 13));
    r.push(Span::plain(fill));
    r
}

/// The spans of a week row in its column.
pub fn row_spans(row: &[Option<DayCell>; 7], layout: &Layout) -> (r: Vec<Span>)
    ensures
        line_view(r@) == row_part(row@, *layout),
{
    let mut r: Vec<Span> = Vec::new();
    let mut i: usize = 0;
    while i < 7
        invariant
            i <= 7,
            r.len() == (if i == 0 {
                0int
            } else {
                2 * i - 1
            }),
            forall|j: int| 0 <= j < r.len() ==> (#[trigger] r@[j])@ == cells_part(row@)[j],
        decreases 7 - i,
    {
        if i > 0 {
            proof {
                reveal_strlit(" ");
            }
            let blank = String::from_str(" ");
            assert(blank@ =~= seq![' ']);
            r.push(Span::plain(blank));
        }
        r.push(cell_text(&row[i]));
        i = i + 1;
    }
    assert(line_view(r@) =~= cells_part(row@));
    let used = line_text(&r).as_str().unicode_len();
    let fill = if layout.column_width > used {
        blanks(layout.column_width - used)
    } else {
        String::new()
    };
    assert(fill@ =~= spaces(layout.column_width - line_chars(cells_part(row@)).len()));
    r.push(Span::plain(fill));
    r
}

/// The spans of the column of a month that has no week row left.
pub fn missing_spans(layout: &Layout) -> (r: Vec<Span>)
    ensures
        line_view(r@) == missing_part(*layout),
{
    proof {
        reveal_strlit(" ");
    }
    let mut r: Vec<Span> = Vec::new();
    let text = padded_right(" ", layout.column_width);
    assert(text@ =~= pad_right(seq![' '], layout.column_width as int));
    r.push(Span::plain(text));
    r
}

/// The spans that the month `grid` shows in its column on a line of a
/// group.
pub fn part_spans(grid: &MonthGrid, kind: LineKind, layout: &Layout) -> (r: Vec<Span>)
    ensures
        line_view(r@) == part(grid@, kind, *layout),
{
    match kind {
        LineKind::Header => header_spans(grid, layout),
        LineKind::Weekdays => weekday_spans(layout),
        LineKind::Body(row) => {
            if row < grid.rows.len() {
                row_spans(&grid.rows[row].cells, layout)
            } else {
                missing_spans(layout)
            }
        },
    }
}

/// One line of the group that the grids from `start` up to `end` form.
pub fn line_of_group(
    grids: &Vec<MonthGrid>,
    start: usize,
    end: usize,
    kind: LineKind,
    layout: &Layout,
) -> (r: Vec<Span>)
    requires
        start <= end <= grids.len(),
    ensures
        line_view(r@) == group_line(
            grids_view(grids@).subrange(start as int, end as int),
            kind,
            *layout,
        ),
{
    let ghost group = grids_view(grids@).subrange(start as int, end as int);
    let ghost parts = parts_of(group, kind, *layout);
    let mut r: Vec<Span> = Vec::new();
    let mut c: usize = start;
    while c < end
        invariant
            start <= c <= end <= grids.len(),
            group == grids_view(grids@).subrange(start as int, end as int),
            parts == parts_of(group, kind, *layout),
            line_view(r@) == joined(parts.take(c - start), layout.gutter as int),
        decreases end - c,
    {
        if c > start {
            r.push(Span::plain(blanks(layout.gutter)));
        }
        let mut piece = part_spans(&grids[c], kind, layout);
        r.append(&mut piece);
        proof {
            let k = c - start;
            assert(parts.take(k + 1).drop_last() =~= parts.take(k));
        }
        c = c + 1;
    }
    assert(parts.take(end - start) =~= parts);
    r
}

/// Month grids side by side, in groups of `layout.columns_per_row`.
///
/// Returns the lines to print, top to bottom. Each group gives a line of
/// month headers, a line of weekday headers and `layout.body_rows` lines of
/// week rows; a month with fewer rows than that shows blanks in the rest.
pub fn render_side_by_side(grids: &Vec<MonthGrid>, layout: &Layout) -> (r: Vec<Vec<Span>>)
    requires
        layout.columns_per_row > 0,
    ensures
        block_view(r@) == side_by_side(grids_view(grids@), *layout),
{
    let ghost all = grids_view(grids@);
    let mut out: Vec<Vec<Span>> = Vec::new();
    let mut start: usize = 0;
    assert(all.skip(0) =~= all);
    while start < grids.len()
        invariant
            start <= grids.len(),
            layout.columns_per_row > 0,
            all == grids_view(grids@),
            block_view(out@) + side_by_side(all.skip(start as int), *layout) == side_by_side(
                all,
                *layout,
            ),
        decreases grids.len() - start,
    {
        let left = grids.len() - start;
        let end = if left <= layout.columns_per_row {
            grids.len()
        } else {
            start + layout.columns_per_row
        };
        let ghost done = block_view(out@);
        let ghost group = all.subrange(start as int, end as int);
        out.push(line_of_group(grids, start, end, LineKind::Header, layout));
        out.push(line_of_group(grids, start, end, LineKind::Weekdays, layout));
        let mut row: usize = 0;
        while row < layout.body_rows
            invariant
                row <= layout.body_rows,
                start <= end <= grids.len(),
                all == grids_view(grids@),
                group == all.subrange(start as int, end as int),
                block_view(out@) == done + seq![
                    group_line(group, LineKind::Header, *layout),
                    group_line(group, LineKind::Weekdays, *layout),
                ] + body_lines(group, row as int, *layout),
            decreases layout.body_rows - row,
        {
            let ghost before = block_view(out@);
            out.push(line_of_group(grids, start, end, LineKind::Body(row), layout));
            assert(block_view(out@) =~= before.push(
                group_line(group, LineKind::Body(row), *layout),
            ));
            row = row + 1;
        }
        proof {
            let rest = all.skip(start as int);
            if left > layout.columns_per_row {
                assert(rest.take(layout.columns_per_row as int) =~= group);
                assert(rest.skip(layout.columns_per_row as int) =~= all.skip(end as int));
            }
        }
        start = end;
    }
    out
}

} // verus!
