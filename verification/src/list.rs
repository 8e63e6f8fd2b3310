//! The flat list: one line for each day, with the name of its day of the
//! week and, on a holiday, the name of the holiday.

use crate::date::iso_text;
use crate::grid::{color_tag, tag_of};
use crate::holiday::{days_view, Day, DayView};
use crate::text::{block_view, line_view, plain_span, tagged_span, Span, SpanView};
use vstd::prelude::*;

verus! {

/// What the seven names of the days of the week hold, Sunday's first.
pub open spec fn names_view(names: [String; 7]) -> Seq<Seq<char>> {
    Seq::new(7, |i: int| names@[i]@)
}

/// What stands between two fields of a line: two blanks.
pub open spec fn gap() -> SpanView {
    plain_span(seq![' ', ' '])
}

/// The line of one day: the date, the name of its day of the week and, on a
/// holiday, the name of the holiday, with a gap between two of them, each in
/// the colour of the day's class.
pub open spec fn list_line(day: DayView, names: Seq<Seq<char>>) -> Seq<SpanView> {
    let tag = tag_of(day.date.weekday(), day.holiday is Some);
    let head = seq![
        tagged_span(iso_text(day.date), tag),
        gap(),
        tagged_span(names[day.date.weekday()], tag),
    ];
    match day.holiday {
        Some(name) => head + seq![gap(), tagged_span(name, tag)],
        None => head,
    }
}

/// The lines of `days`, one for each day, in order.
pub open spec fn list_lines(days: Seq<DayView>, names: Seq<Seq<char>>) -> Seq<Seq<SpanView>> {
    Seq::new(days.len(), |i: int| list_line(days[i], names))
}

/// The span that stands between two fields of a line.
fn gap_span() -> (r: Span)
    ensures
        r@ == gap(),
{
    proof {
        reveal_strlit("  ");
    }
    let blanks = String::from_str("  ");
    assert(blanks@ =~= seq![' ', ' ']);
    Span::plain(blanks)
}

/// The line of one day. `weekday_names` holds the names of the days of the
/// week, Sunday's first.
pub fn day_line(day: &Day, weekday_names: &[String; 7]) -> (r: Vec<Span>)
    ensures
        line_view(r@) == list_line(day@, names_view(*weekday_names)),
{
    let weekday = day.date.weekday();
    let tag = color_tag(weekday, day.holiday.is_some());
    let mut r: Vec<Span> = Vec::new();
    r.push(Span::tagged(day.date.text(), tag));
    r.push(gap_span());
    r.push(Span::tagged(weekday_names[weekday as usize].clone(), tag));
    match &day.holiday {
        Some(name) => {
            r.push(gap_span());
            r.push(Span::tagged(name.clone(), tag));
        },
        None => {},
    }
    r
}

/// The flat list of `days`: one line for each, in order.
pub fn render_list(days: &Vec<Day>, weekday_names: &[String; 7]) -> (r: Vec<Vec<Span>>)
    ensures
        block_view(r@) == list_lines(days_view(days@), names_view(*weekday_names)),
{
    let mut r: Vec<Vec<Span>> = Vec::new();
    let mut i: usize = 0;
    while i < days.len()
        invariant
            i <= days.len(),
            r.len() == i,
            forall|j: int|
                0 <= j < i ==> line_view((#[trigger] r@[j])@) == list_line(
                    days@[j]@,
                    names_view(*weekday_names),
                ),
        decreases days.len() - i,
    {
        r.push(day_line(&days[i], weekday_names));
        i = i + 1;
    }
    r
}

} // verus!
