//! From what the command line gives to the range of days to show.

use crate::date::{month_at, month_index, month_length, valid_month, Date, MonthKey, Ymd};
use crate::date::{MAX_YEAR, MIN_YEAR};
use crate::text::{decimal, decimal_text};
use vstd::prelude::*;

verus! {

/// What was wrong with an argument.
#[derive(Clone, Debug, PartialEq, Eq)]
pub enum ParseError {
    /// The text names no month.
    InvalidMonth(String),
    /// The calendar does not cover the year.
    InvalidYear(i32),
    /// The calendar does not cover all the months asked for.
    OutOfCalendar,
}

/// What a [`ParseError`] holds.
pub enum ParseErrorView {
    InvalidMonth(Seq<char>),
    InvalidYear(int),
    OutOfCalendar,
}

impl View for ParseError {
    type V = ParseErrorView;

    open spec fn view(&self) -> ParseErrorView {
        match self {
            ParseError::InvalidMonth(text) => ParseErrorView::InvalidMonth(text@),
            ParseError::InvalidYear(year) => ParseErrorView::InvalidYear(*year as int),
            ParseError::OutOfCalendar => ParseErrorView::OutOfCalendar,
        }
    }
}

/// The decimal digits of `n` with a minus sign before them where it is
/// negative.
pub open spec fn signed_decimal(n: int) -> Seq<char> {
    if n < 0 {
        seq!['-'] + decimal((-n) as nat)
    } else {
        decimal(n as nat)
    }
}

/// The message of an error.
pub open spec fn message_of(error: ParseErrorView) -> Seq<char> {
    match error {
        ParseErrorView::InvalidMonth(text) => "month \""@ + text
            + "\" not in the range 1 through 12"@,
        ParseErrorView::InvalidYear(year) => "year \""@ + signed_decimal(year)
            + "\" not in the range 1 through 9999"@,
        ParseErrorView::OutOfCalendar => "months not in the years 1 through 9999"@,
    }
}

impl ParseError {
    /// The message to show for the error. It quotes the argument.
    pub fn message(&self) -> (r: String)
        ensures
            r@ == message_of(self@),
    {
        match self {
            ParseError::InvalidMonth(text) => {
                let mut r = String::from_str("month \"");
                r.append(text.as_str());
                r.append("\" not in the range 1 through 12");
                r
            },
            ParseError::InvalidYear(year) => {
                let mut r = String::from_str("year \"");
                if *year < 0 {
                    proof {
                        reveal_strlit("-");
                    }
                    r.append("-");
                    let digits = if *year == i32::MIN {
                        decimal_text(2147483648)
                    } else {
                        decimal_text((-*year) as u32)
                    };
                    r.append(digits.as_str());
                } else {
                    r.append(decimal_text(*year as u32).as_str());
                }
                r.append("\" not in the range 1 through 9999");
                r
            },
            ParseError::OutOfCalendar => {
                String::from_str("months not in the years 1 through 9999")
            },
        }
    }
}

/// Whether `c` is a decimal digit.
pub open spec fn is_digit(c: char) -> bool {
    '0' <= c <= '9'
}

/// The number that the decimal digits `s` write.
pub open spec fn digits_value(s: Seq<char>) -> int
    decreases s.len(),
{
    if s.len() == 0 {
        0
    } else {
        digits_value(s.drop_last()) * 10 + (s.last() as int - '0' as int)
    }
}

/// The digits of a number: `s` without a plus sign at its start.
pub open spec fn unsigned_part(s: Seq<char>) -> Seq<char> {
    if s.len() > 0 && s[0] == '+' {
        s.skip(1)
    } else {
        s
    }
}

/// Whether `s` is one decimal digit or more.
pub open spec fn all_digits(s: Seq<char>) -> bool {
    &&& s.len() > 0
    &&& forall|i: int| 0 <= i < s.len() ==> is_digit(#[trigger] s[i])
}

/// Whether `s` writes a number: one decimal digit or more, with or without
/// a plus sign before them.
pub open spec fn is_number(s: Seq<char>) -> bool {
    all_digits(unsigned_part(s))
}

/// `c` in lower case, where it is a letter of the English alphabet.
pub open spec fn lower(c: char) -> int {
    if 'A' <= c <= 'Z' {
        c as int + 32
    } else {
        c as int
    }
}

/// Whether `text` is the start of `name` when upper and lower case count as
/// one.
pub open spec fn starts(name: Seq<char>, text: Seq<char>) -> bool {
    &&& text.len() <= name.len()
    &&& forall|i: int| 0 <= i < text.len() ==> lower(#[trigger] text[i]) == lower(name[i])
}

/// The names of the twelve months.
pub open spec fn month_names() -> Seq<Seq<char>> {
    seq![
        "January"@,
        "February"@,
        "March"@,
        "April"@,
        "May"@,
        "June"@,
        "July"@,
        "August"@,
        "September"@,
        "October"@,
        "November"@,
        "December"@,
    ]
}

/// Whether `text` is the start of the name of the month `month`, upper and
/// lower case counting as one.
pub open spec fn name_starts(month: int, text: Seq<char>) -> bool {
    starts(month_names()[month - 1], text)
}

/// Whether `text` names the month `month`: as a number from 1 to 12, or, if
/// it writes no number, as the start of the name of that month and of no
/// other.
pub open spec fn names_month(text: Seq<char>, month: int) -> bool {
    &&& 1 <= month <= 12
    &&& if is_number(text) {
        digits_value(unsigned_part(text)) == month
    } else {
        &&& name_starts(month, text)
        &&& forall|other: int|
            1 <= other <= 12 && #[trigger] name_starts(other, text) ==> other == month
    }
}

/// The names of the twelve months, January's first.
pub const MONTH_NAMES: [&'static str; 12] = [
    "January",
    "February",
    "March",
    "April",
    "May",
    "June",
    "July",
    "August",
    "September",
    "October",
    "November",
    "December",
];

/// The name of the month `month`, from 1 to 12.
pub fn month_name(month: u32) -> (r: &'static str)
    requires
        1 <= month <= 12,
    ensures
        r@ == month_names()[month - 1],
{
    MONTH_NAMES[(month - 1) as usize]
}

/// The code of `c` in lower case.
fn lower_code(c: char) -> (r: u32)
    ensures
        r == lower(c),
{
    let code = c as u32;
    if 65 <= code && code <= 90 {
        code + 32
    } else {
        code
    }
}

/// Whether `text` is the start of `name`, upper and lower case counting as
/// one.
pub fn starts_with_ignoring_case(name: &str, text: &str) -> (r: bool)
    ensures
        r == starts(name@, text@),
{
    let n = text.unicode_len();
    if n > name.unicode_len() {
        return false;
    }
    let mut i: usize = 0;
    while i < n
        invariant
            i <= n,
            n == text@.len(),
            n <= name@.len(),
            forall|j: int| 0 <= j < i ==> lower(#[trigger] text@[j]) == lower(name@[j]),
        decreases n - i,
    {
        if lower_code(text.get_char(i)) != lower_code(name.get_char(i)) {
            return false;
        }
        i = i + 1;
    }
    true
}

/// The number that `text` writes, if it writes one; 13 stands for every
/// number above 12.
fn small_number(text: &str) -> (r: Option<u32>)
    ensures
        r is Some <==> is_number(text@),
        r matches Some(n) ==> n <= 13 && (if digits_value(unsigned_part(text@)) > 12 {
            n == 13
        } else {
            n == digits_value(unsigned_part(text@))
        }),
{
    let n = text.unicode_len();
    let first: usize = if n > 0 && text.get_char(0) == '+' {
        1
    } else {
        0
    };
    let ghost digits = text@.skip(first as int);
    if first == n {
        return None;
    }
    let mut value: u32 = 0;
    let mut i: usize = first;
    while i < n
        invariant
            first <= i <= n,
            n == text@.len(),
            digits == text@.skip(first as int),
            digits == unsigned_part(text@),
            forall|j: int| 0 <= j < i - first ==> is_digit(#[trigger] digits[j]),
            value <= 13,
            digits_value(digits.take(i - first)) >= 0,
            if digits_value(digits.take(i - first)) > 12 {
                value == 13
            } else {
                value == digits_value(digits.take(i - first))
            },
        decreases n - i,
    {
        let c = text.get_char(i);
        let code = c as u32;
        assert(digits[i - first] == c);
        if code < 48 || code > 57 {
            return None;
        }
        proof {
            let longer = digits.take(i - first + 1);
            assert(longer.drop_last() =~= digits.take(i - first));
        }
        let next = value * 10 + (code - 48);
        value = if next > 12 {
            13
        } else {
            next
        };
        i = i + 1;
    }
    assert(digits.take(n - first) =~= digits);
    Some(value)
}

/// The text, or the empty text where there is none.
pub open spec fn text_or_empty(text: Option<String>) -> Seq<char> {
    match text {
        Some(s) => s@,
        None => Seq::empty(),
    }
}

/// The month that `month` names: a number from 1 to 12, or the start of the
/// name of one month and no other, in upper or lower case. Text that names
/// no month, and no text at all, is an error that quotes the text.
pub fn parse_month(month: Option<String>) -> (r: Result<u32, ParseError>)
    ensures
        match r {
            Ok(m) => names_month(text_or_empty(month), m as int),
            Err(e) => e@ == ParseErrorView::InvalidMonth(text_or_empty(month)) && forall|m: int|
                !names_month(text_or_empty(month), m),
        },
{
    let month = match month {
        Some(s) => s,
        None => String::new(),
    };
    let text = month.as_str();
    match small_number(text) {
        Some(n) => {
            if 1 <= n && n <= 12 {
                Ok(n)
            } else {
                Err(ParseError::InvalidMonth(month))
            }
        },
        None => {
            let mut found: u32 = 0;
            let mut count: u32 = 0;
            let mut m: u32 = 1;
            while m <= 12
                invariant
                    1 <= m <= 13,
                    text@ == month@,
                    count <= m - 1,
                    count == 0 ==> forall|k: int| 1 <= k < m ==> !#[trigger] name_starts(k, text@),
                    count == 1 ==> 1 <= found < m && name_starts(found as int, text@) && forall|
                        k: int,
                    |
                        1 <= k < m && #[trigger] name_starts(k, text@) ==> k == found,
                    count >= 2 ==> exists|a: int, b: int|
                        1 <= a < b < m && #[trigger] name_starts(a, text@)
                            && #[trigger] name_starts(b, text@),
                decreases 13 - m,
            {
                if starts_with_ignoring_case(month_name(m), text) {
                    proof {
                        assert(name_starts(m as int, text@));
                    }
                    found = m;
                    count = count + 1;
                }
                m = m + 1;
            }
            if count == 1 {
                Ok(found)
            } else {
                proof {
                    if count >= 2 {
                        let (a, b) = choose|a: int, b: int|
                            1 <= a < b < 13 && #[trigger] name_starts(a, text@)
                                && #[trigger] name_starts(b, text@);
                        assert(name_starts(a, text@) && name_starts(b, text@));
                    }
                }
                Err(ParseError::InvalidMonth(month))
            }
        },
    }
}

/// The first and the last day of the month `key`.
pub open spec fn whole_month(key: (int, int)) -> (Ymd, Ymd) {
    (
        Ymd { year: key.0, month: key.1, day: 1 },
        Ymd { year: key.0, month: key.1, day: month_length(key.0, key.1) },
    )
}

/// What the command line gives.
#[derive(Clone, Debug, Default, PartialEq, Eq)]
pub struct Args {
    /// The year to show.
    pub year: Option<i32>,
    /// The month to show, by its number or by the start of its name.
    pub month: Option<String>,
    /// Months to show before those asked for.
    pub before: u32,
    /// Months to show after those asked for.
    pub after: u32,
    /// Show the month of today, the one before and the one after.
    pub three: bool,
    /// Show a list in place of the grids.
    pub list: bool,
    /// Show the whole year of today.
    pub show_current_year: bool,
}

/// What [`Args`] hold.
pub struct ArgsView {
    pub year: Option<int>,
    pub month: Option<Seq<char>>,
    pub before: int,
    pub after: int,
    pub three: bool,
    pub list: bool,
    pub show_current_year: bool,
}

impl View for Args {
    type V = ArgsView;

    open spec fn view(&self) -> ArgsView {
        ArgsView {
            year: match self.year {
                Some(y) => Some(y as int),
                None => None,
            },
            month: match self.month {
                Some(s) => Some(s@),
                None => None,
            },
            before: self.before as int,
            after: self.after as int,
            three: self.three,
            list: self.list,
            show_current_year: self.show_current_year,
        }
    }
}

/// The numbers of the first and of the last month that the arguments ask
/// for, before months are added at either end, `named` being the month that
/// the text for the month names.
///
/// With `three`, they are the month before the one of `today` and the month
/// after it. Else, with `show_current_year`, they are January and December
/// of the year of `today`. Else, without a year, both are the month of
/// `today`. With a year, they are its January and its December where no
/// month is named, and both are the month named where one is.
pub open spec fn months_asked(today: Ymd, args: ArgsView, named: int) -> (int, int) {
    let this_month = month_index(today.month_key());
    if args.three {
        (this_month - 1, this_month + 1)
    } else if args.show_current_year {
        (month_index((today.year, 1)), month_index((today.year, 12)))
    } else if args.year is None {
        (this_month, this_month)
    } else if args.month is None {
        (month_index((args.year->0, 1)), month_index((args.year->0, 12)))
    } else {
        (month_index((args.year->0, named)), month_index((args.year->0, named)))
    }
}

/// The range from the first day of the month numbered `first` to the last
/// day of the month numbered `last`, if the calendar covers both.
pub open spec fn months_range(first: int, last: int) -> Result<(Ymd, Ymd), ParseErrorView> {
    if valid_month(month_at(first)) && valid_month(month_at(last)) {
        Ok((whole_month(month_at(first)).0, whole_month(month_at(last)).1))
    } else {
        Err(ParseErrorView::OutOfCalendar)
    }
}

/// Whether `r` is the range of days that the arguments ask for, `named`
/// being the month that the text for the month names, where there is such
/// a text: the range from the first day of the first month asked for, moved
/// back by `before` months, to the last day of the last month asked for,
/// moved on by `after` months, if the calendar covers both.
pub open spec fn range_with(
    today: Ymd,
    args: ArgsView,
    named: int,
    r: Result<(Ymd, Ymd), ParseErrorView>,
) -> bool {
    &&& args.month is Some ==> names_month(args.month->0, named)
    &&& r == months_range(
        months_asked(today, args, named).0 - args.before,
        months_asked(today, args, named).1 + args.after,
    )
}

/// Whether `r` is the range of days that the arguments ask for.
///
/// A year outside the calendar is an error, and so is a text for the month
/// that names none, whether the month is looked at or not. Else the range
/// is that of the months asked for, with the months added before and after.
pub open spec fn range_for(
    today: Ymd,
    args: ArgsView,
    r: Result<(Ymd, Ymd), ParseErrorView>,
) -> bool {
    if args.year is Some && !(MIN_YEAR <= args.year->0 <= MAX_YEAR) {
        r == Err::<(Ymd, Ymd), ParseErrorView>(ParseErrorView::InvalidYear(args.year->0))
    } else if args.month is Some && forall|m: int| !names_month(args.month->0, m) {
        r == Err::<(Ymd, Ymd), ParseErrorView>(ParseErrorView::InvalidMonth(args.month->0))
    } else {
        exists|named: int| #[trigger] range_with(today, args, named, r)
    }
}

/// What the result of [`parse_args`] holds.
pub open spec fn range_view(r: Result<(Date, Date), ParseError>) -> Result<
    (Ymd, Ymd),
    ParseErrorView,
> {
    match r {
        Ok((start, end)) => Ok((start@, end@)),
        Err(e) => Err(e@),
    }
}

/// The first and the last day of the range to show, from the current date
/// and from what the command line gives.
pub fn parse_args(today: &Date, args: &Args) -> (r: Result<(Date, Date), ParseError>)
    ensures
        range_for(today@, args@, range_view(r)),
        r matches Ok((start, end)) ==> !end@.before(start@),
{
    proof {
        use_type_invariant(today);
    }
    if let Some(y) = args.year {
        if y < MIN_YEAR || y > MAX_YEAR {
            return Err(ParseError::InvalidYear(y));
        }
    }
    let named: u32 = match &args.month {
        Some(text) => {
            match parse_month(Some(text.clone())) {
                Ok(m) => m,
                Err(e) => {
                    return Err(e);
                },
            }
        },
        None => 1,
    };
    let of_today = args.three || args.show_current_year || args.year.is_none();
    let year = if of_today {
        today.year()
    } else {
        args.year.unwrap()
    };
    let (from, to) = if args.three || !args.show_current_year && args.year.is_none() {
        (today.month(), today.month())
    } else if args.show_current_year || args.month.is_none() {
        (1, 12)
    } else {
        (named, named)
    };
    let (first, last) = match (MonthKey::new(year, from), MonthKey::new(year, to)) {
        (Some(first), Some(last)) => (first, last),
        _ => {
            return Err(ParseError::OutOfCalendar);
        },
    };
    let around: i64 = if args.three {
        1
    } else {
        0
    };
    let back = -around - args.before as i64;
    let forth = around + args.after as i64;
    let r = match (first.shifted(back), last.shifted(forth)) {
        (Some(first), Some(last)) => Ok((first.first_day(), last.last_day())),
        _ => Err(ParseError::OutOfCalendar),
    };
    assert(range_with(today@, args@, named as int, range_view(r)));
    r
}

} // verus!
