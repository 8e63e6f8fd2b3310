use rcal::args::{
    month_name, parse_args, parse_month, starts_with_ignoring_case, Args, ParseError,
};
use rcal::date::{Date, MonthKey};

fn date(year: i32, month: u32, day: u32) -> Date {
    Date::new(year, month, day).unwrap()
}

fn text(s: &str) -> Option<String> {
    Some(s.to_string())
}

fn invalid(s: &str) -> Result<u32, ParseError> {
    Err(ParseError::InvalidMonth(s.to_string()))
}

#[test]
fn month_by_number() {
    assert_eq!(parse_month(text("1")), Ok(1));
    assert_eq!(parse_month(text("12")), Ok(12));
    assert_eq!(parse_month(text("7")), Ok(7));
    assert_eq!(parse_month(text("07")), Ok(7));
    assert_eq!(parse_month(text("+7")), Ok(7));
    assert_eq!(parse_month(text("0012")), Ok(12));
}

#[test]
fn month_number_out_of_range() {
    assert_eq!(parse_month(text("0")), invalid("0"));
    assert_eq!(parse_month(text("13")), invalid("13"));
    assert_eq!(parse_month(text("130")), invalid("130"));
    assert_eq!(parse_month(text("99999999999999999999")), invalid("99999999999999999999"));
    assert_eq!(parse_month(text("-1")), invalid("-1"));
    assert_eq!(parse_month(text("+")), invalid("+"));
    assert_eq!(parse_month(text("1 ")), invalid("1 "));
    assert_eq!(parse_month(text(" 1")), invalid(" 1"));
    assert_eq!(parse_month(text("1x")), invalid("1x"));
}

#[test]
fn month_by_name() {
    assert_eq!(parse_month(text("January")), Ok(1));
    assert_eq!(parse_month(text("jan")), Ok(1));
    assert_eq!(parse_month(text("FEB")), Ok(2));
    assert_eq!(parse_month(text("f")), Ok(2));
    assert_eq!(parse_month(text("mar")), Ok(3));
    assert_eq!(parse_month(text("ap")), Ok(4));
    assert_eq!(parse_month(text("May")), Ok(5));
    assert_eq!(parse_month(text("jun")), Ok(6));
    assert_eq!(parse_month(text("jul")), Ok(7));
    assert_eq!(parse_month(text("au")), Ok(8));
    assert_eq!(parse_month(text("s")), Ok(9));
    assert_eq!(parse_month(text("O")), Ok(10));
    assert_eq!(parse_month(text("n")), Ok(11));
    assert_eq!(parse_month(text("dEcEmBeR")), Ok(12));
}

#[test]
fn month_name_that_is_ambiguous_or_unknown() {
    assert_eq!(parse_month(text("j")), invalid("j"));
    assert_eq!(parse_month(text("ju")), invalid("ju"));
    assert_eq!(parse_month(text("ma")), invalid("ma"));
    assert_eq!(parse_month(text("a")), invalid("a"));
    assert_eq!(parse_month(text("m")), invalid("m"));
    assert_eq!(parse_month(text("")), invalid(""));
    assert_eq!(parse_month(None), invalid(""));
    assert_eq!(parse_month(text("foo")), invalid("foo"));
    assert_eq!(parse_month(text("januaryy")), invalid("januaryy"));
    assert_eq!(parse_month(text("jän")), invalid("jän"));
    assert_eq!(parse_month(text("１")), invalid("１"));
}

#[test]
fn month_names_and_prefixes() {
    assert_eq!(month_name(1), "January");
    assert_eq!(month_name(9), "September");
    assert_eq!(month_name(12), "December");
    assert!(starts_with_ignoring_case("March", "mAR"));
    assert!(starts_with_ignoring_case("March", ""));
    assert!(!starts_with_ignoring_case("March", "marche"));
    assert!(!starts_with_ignoring_case("May", "mar"));
    assert!(!starts_with_ignoring_case("[", "{"));
    assert!(!starts_with_ignoring_case("@", "`"));
}

#[test]
fn error_messages_quote_the_argument() {
    assert_eq!(
        ParseError::InvalidMonth("foo".to_string()).message(),
        "month \"foo\" not in the range 1 through 12"
    );
    assert_eq!(
        ParseError::InvalidYear(10000).message(),
        "year \"10000\" not in the range 1 through 9999"
    );
    assert_eq!(ParseError::InvalidYear(0).message(), "year \"0\" not in the range 1 through 9999");
    assert_eq!(
        ParseError::InvalidYear(-12).message(),
        "year \"-12\" not in the range 1 through 9999"
    );
    assert_eq!(
        ParseError::InvalidYear(i32::MIN).message(),
        "year \"-2147483648\" not in the range 1 through 9999"
    );
    assert_eq!(ParseError::OutOfCalendar.message(), "months not in the years 1 through 9999");
}

fn args(year: Option<i32>, month: Option<&str>) -> Args {
    Args { year, month: month.map(|m| m.to_string()), ..Args::default() }
}

#[test]
fn range_without_arguments_is_the_month_of_today() {
    let today = date(2024, 2, 15);
    assert_eq!(parse_args(&today, &Args::default()), Ok((date(2024, 2, 1), date(2024, 2, 29))));
    // Without a year the month is not looked at, once it names one.
    assert_eq!(
        parse_args(&today, &args(None, Some("7"))),
        Ok((date(2024, 2, 1), date(2024, 2, 29)))
    );
    // Whether a list is asked for does not change the range.
    assert_eq!(
        parse_args(&today, &Args { list: true, ..Args::default() }),
        Ok((date(2024, 2, 1), date(2024, 2, 29)))
    );
}

#[test]
fn range_of_a_year_and_of_a_month() {
    let today = date(2024, 2, 15);
    assert_eq!(
        parse_args(&today, &args(Some(2023), None)),
        Ok((date(2023, 1, 1), date(2023, 12, 31)))
    );
    assert_eq!(
        parse_args(&today, &args(Some(2023), Some("2"))),
        Ok((date(2023, 2, 1), date(2023, 2, 28)))
    );
    assert_eq!(
        parse_args(&today, &args(Some(2024), Some("feb"))),
        Ok((date(2024, 2, 1), date(2024, 2, 29)))
    );
    assert_eq!(
        parse_args(&today, &args(Some(9999), Some("dec"))),
        Ok((date(9999, 12, 1), date(9999, 12, 31)))
    );
    assert_eq!(parse_args(&today, &args(Some(1), None)), Ok((date(1, 1, 1), date(1, 12, 31))));
}

#[test]
fn range_of_the_three_months_around_today() {
    let three = Args { three: true, ..Args::default() };
    assert_eq!(
        parse_args(&date(2024, 2, 15), &three),
        Ok((date(2024, 1, 1), date(2024, 3, 31)))
    );
    assert_eq!(
        parse_args(&date(2023, 12, 1), &three),
        Ok((date(2023, 11, 1), date(2024, 1, 31)))
    );
    // The three months are those around today, whatever year and month are given.
    assert_eq!(
        parse_args(&date(2024, 1, 31), &Args { three: true, ..args(Some(1999), Some("5")) }),
        Ok((date(2023, 12, 1), date(2024, 2, 29)))
    );
    assert_eq!(
        parse_args(&date(2024, 1, 31), &Args { three: true, show_current_year: true, ..Args::default() }),
        Ok((date(2023, 12, 1), date(2024, 2, 29)))
    );
}

#[test]
fn range_of_the_whole_current_year() {
    let today = date(2024, 2, 15);
    assert_eq!(
        parse_args(&today, &Args { show_current_year: true, ..Args::default() }),
        Ok((date(2024, 1, 1), date(2024, 12, 31)))
    );
}

#[test]
fn range_with_months_before_and_after() {
    let today = date(2024, 2, 15);
    assert_eq!(
        parse_args(&today, &Args { before: 1, ..Args::default() }),
        Ok((date(2024, 1, 1), date(2024, 2, 29)))
    );
    assert_eq!(
        parse_args(&today, &Args { after: 2, ..Args::default() }),
        Ok((date(2024, 2, 1), date(2024, 4, 30)))
    );
    assert_eq!(
        parse_args(&today, &Args { before: 2, after: 11, ..Args::default() }),
        Ok((date(2023, 12, 1), date(2025, 1, 31)))
    );
    assert_eq!(
        parse_args(&today, &Args { before: 1, after: 1, ..args(Some(2023), Some("may")) }),
        Ok((date(2023, 4, 1), date(2023, 6, 30)))
    );
    assert_eq!(
        parse_args(&today, &Args { before: 1, after: 1, ..args(Some(2023), None) }),
        Ok((date(2022, 12, 1), date(2024, 1, 31)))
    );
    assert_eq!(
        parse_args(&today, &Args { before: 1, after: 1, three: true, ..Args::default() }),
        Ok((date(2023, 12, 1), date(2024, 4, 30)))
    );
    assert_eq!(
        parse_args(&today, &Args { after: 3, show_current_year: true, ..Args::default() }),
        Ok((date(2024, 1, 1), date(2025, 3, 31)))
    );
}

#[test]
fn range_errors() {
    let today = date(2024, 2, 15);
    assert_eq!(parse_args(&today, &args(Some(0), None)), Err(ParseError::InvalidYear(0)));
    assert_eq!(
        parse_args(&today, &Args { three: true, ..args(Some(10000), None) }),
        Err(ParseError::InvalidYear(10000))
    );
    assert_eq!(parse_args(&today, &args(Some(-5), Some("1"))), Err(ParseError::InvalidYear(-5)));
    assert_eq!(
        parse_args(&today, &args(Some(2024), Some("13"))),
        Err(ParseError::InvalidMonth("13".to_string()))
    );
    assert_eq!(
        parse_args(&today, &args(None, Some("ju"))),
        Err(ParseError::InvalidMonth("ju".to_string()))
    );
    assert_eq!(
        parse_args(&today, &Args { three: true, ..args(Some(2024), Some("")) }),
        Err(ParseError::InvalidMonth("".to_string()))
    );
    let three = Args { three: true, ..Args::default() };
    assert_eq!(parse_args(&date(1, 1, 20), &three), Err(ParseError::OutOfCalendar));
    assert_eq!(parse_args(&date(9999, 12, 20), &three), Err(ParseError::OutOfCalendar));
    assert_eq!(
        parse_args(&date(1, 2, 20), &Args { before: 2, ..Args::default() }),
        Err(ParseError::OutOfCalendar)
    );
    assert_eq!(
        parse_args(&date(1, 2, 20), &Args { before: 1, ..Args::default() }),
        Ok((date(1, 1, 1), date(1, 2, 28)))
    );
    assert_eq!(
        parse_args(&today, &Args { after: 1, ..args(Some(9999), None) }),
        Err(ParseError::OutOfCalendar)
    );
    assert_eq!(
        parse_args(&today, &Args { before: u32::MAX, after: u32::MAX, ..Args::default() }),
        Err(ParseError::OutOfCalendar)
    );
}

#[test]
fn months_shifted() {
    let key = MonthKey::new(2024, 1).unwrap();
    assert_eq!(key.shifted(-1), MonthKey::new(2023, 12));
    assert_eq!(key.shifted(1), MonthKey::new(2024, 2));
    assert_eq!(key.shifted(0), Some(key));
    assert_eq!(key.shifted(11), MonthKey::new(2024, 12));
    assert_eq!(key.shifted(12), MonthKey::new(2025, 1));
    assert_eq!(key.shifted(-13), MonthKey::new(2022, 12));
    assert_eq!(key.shifted(-24), MonthKey::new(2022, 1));
    assert_eq!(MonthKey::new(1, 1).unwrap().shifted(-1), None);
    assert_eq!(MonthKey::new(1, 2).unwrap().shifted(-1), MonthKey::new(1, 1));
    assert_eq!(MonthKey::new(9999, 12).unwrap().shifted(1), None);
    assert_eq!(MonthKey::new(9999, 11).unwrap().shifted(1), MonthKey::new(9999, 12));
    assert_eq!(MonthKey::new(1, 1).unwrap().shifted(119_987), MonthKey::new(9999, 12));
    assert_eq!(MonthKey::new(9999, 12).unwrap().shifted(-119_987), MonthKey::new(1, 1));
    assert_eq!(MonthKey::new(1, 1).unwrap().shifted(119_988), None);
    assert_eq!(key.shifted(120_001), None);
    assert_eq!(key.shifted(-120_001), None);
    assert_eq!(key.shifted(i64::MAX), None);
    assert_eq!(key.shifted(i64::MIN), None);
}
