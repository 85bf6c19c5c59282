use climsum::date::{days_in_month, is_leap_year, Date, DayTime};
use climsum::decimal::Decimal;
use climsum::lexer::{next_token, Lexed, TokenKind};
use climsum::report::{DayField, Report};
use climsum::text::chars_of;
use climsum::units::{Direction, RainUnit, TemperatureUnit, WindSpeedUnit};

fn dec(neg: bool, int_digits: &[u8], frac_digits: &[u8]) -> Decimal {
    Decimal::new(neg, int_digits.to_vec(), frac_digits.to_vec()).unwrap()
}

fn date(year: i32, month: u8, day: u8) -> Date {
    Date::new(year, month, day).unwrap()
}

const JULY_HEADER: &str = "MONTHLY CLIMATOLOGICAL SUMMARY for JUL. 2006\n\n";

#[test]
fn month_token_beats_word_on_equal_length() {
    let v = chars_of("FEV");
    assert_eq!(next_token(&v, 0), Lexed::Token(TokenKind::Month(2), 0, 3));
    let v = chars_of("FEB");
    assert_eq!(next_token(&v, 0), Lexed::Token(TokenKind::Month(2), 0, 3));
}

#[test]
fn longer_word_beats_month_token() {
    let v = chars_of("FEVER");
    assert_eq!(next_token(&v, 0), Lexed::Token(TokenKind::Word, 0, 5));
    let v = chars_of("JANUARY");
    assert_eq!(next_token(&v, 0), Lexed::Token(TokenKind::Word, 0, 7));
}

#[test]
fn number_token_is_maximal() {
    let v = chars_of("  -12.5.3");
    assert_eq!(next_token(&v, 0), Lexed::Token(TokenKind::Number, 2, 7));
    assert_eq!(next_token(&v, 7), Lexed::Token(TokenKind::Dot, 7, 8));
    assert_eq!(next_token(&v, 8), Lexed::Token(TokenKind::Number, 8, 9));
    assert_eq!(next_token(&v, 9), Lexed::End);
}

#[test]
fn keyword_beats_word() {
    let v = chars_of("NAME: maxou");
    assert_eq!(next_token(&v, 0), Lexed::Token(TokenKind::NameKey, 0, 5));
    assert_eq!(next_token(&v, 5), Lexed::Token(TokenKind::Word, 6, 11));
}

#[test]
fn title_literal_is_one_token() {
    let v = chars_of("MONTHLY CLIMATOLOGICAL SUMMARY for JUN. 2006");
    assert_eq!(next_token(&v, 0), Lexed::Token(TokenKind::Title, 0, 35));
    assert_eq!(next_token(&v, 35), Lexed::Token(TokenKind::Month(6), 35, 38));
    assert_eq!(next_token(&v, 38), Lexed::Token(TokenKind::Dot, 38, 39));
    assert_eq!(next_token(&v, 39), Lexed::Token(TokenKind::Number, 40, 44));
}

#[test]
fn missing_marker_and_lone_dash() {
    let v = chars_of("--- -");
    assert_eq!(next_token(&v, 0), Lexed::Token(TokenKind::Missing, 0, 3));
    assert_eq!(next_token(&v, 3), Lexed::Fail(4));
}

#[test]
fn decimal_order_is_numeric() {
    assert!(dec(false, &[1, 8], &[3]).lt(&dec(false, &[2, 5], &[1])));
    assert!(dec(false, &[0], &[4, 5]).lt(&dec(false, &[0], &[5])));
    assert!(!dec(false, &[0], &[5]).lt(&dec(false, &[0], &[4, 5])));
    assert!(dec(true, &[2], &[]).lt(&dec(true, &[1], &[5])));
    assert!(dec(true, &[1], &[5]).lt(&dec(false, &[0], &[])));
}

#[test]
fn decimal_negative_zero_sorts_below_zero() {
    let neg_zero = dec(true, &[0], &[]);
    let zero = dec(false, &[0], &[]);
    assert!(neg_zero.lt(&zero));
    assert!(!zero.lt(&neg_zero));
    assert!(neg_zero.le(&zero));
    assert!(!zero.le(&neg_zero));
}

#[test]
fn decimal_written_variants_compare_equal() {
    let a = dec(false, &[7], &[]);
    let b = dec(false, &[0, 7], &[0]);
    assert!(a.le(&b));
    assert!(b.le(&a));
    assert!(!a.lt(&b));
    // Structural equality still tells them apart.
    assert!(a != b);
}

#[test]
fn decimal_new_rejects_bad_digits() {
    assert!(Decimal::new(false, vec![], vec![]).is_none());
    assert!(Decimal::new(false, vec![10], vec![]).is_none());
    assert!(Decimal::new(false, vec![1], vec![12]).is_none());
    assert!(Decimal::new(false, vec![9], vec![9]).is_some());
}

#[test]
fn leap_year_rules() {
    assert!(is_leap_year(2004));
    assert!(!is_leap_year(1900));
    assert!(is_leap_year(2000));
    assert!(!is_leap_year(2006));
    assert_eq!(days_in_month(2004, 2), 29);
    assert_eq!(days_in_month(1900, 2), 28);
    assert_eq!(days_in_month(2006, 6), 30);
    assert_eq!(days_in_month(2006, 7), 31);
}

#[test]
fn date_construction_bounds() {
    assert!(Date::new(2006, 6, 31).is_none());
    assert!(Date::new(2006, 13, 1).is_none());
    assert!(Date::new(10000, 1, 1).is_none());
    assert!(Date::new(2004, 2, 29).is_some());
    let d = date(2006, 6, 1);
    assert!(d.replace_day(30).is_some());
    assert!(d.replace_day(31).is_none());
    assert!(d.replace_day(0).is_none());
}

#[test]
fn date_order_is_chronological() {
    assert!(date(2006, 6, 30).lt(date(2006, 7, 1)));
    assert!(date(2005, 12, 31).lt(date(2006, 1, 1)));
    assert!(!date(2006, 6, 15).lt(date(2006, 6, 15)));
    assert!(date(2006, 6, 15).le(date(2006, 6, 15)));
}

#[test]
fn daytime_bounds() {
    let d = date(2006, 6, 15);
    assert!(DayTime::new(d, 23, 59).is_some());
    assert!(DayTime::new(d, 24, 0).is_none());
    assert!(DayTime::new(d, 0, 60).is_none());
}

#[test]
fn direction_names_parse() {
    assert_eq!(Direction::from_str("N"), Ok(Direction::N));
    assert_eq!(Direction::from_str("NNW"), Ok(Direction::NNW));
    assert_eq!(Direction::from_str("WSW"), Ok(Direction::WSW));
    assert_eq!(
        Direction::from_str("north"),
        Err("Unknown wind direction: north".to_string())
    );
}

#[test]
fn unit_names_parse() {
    assert_eq!(
        TemperatureUnit::from_str("ºC"),
        Ok(TemperatureUnit::Celsius)
    );
    assert_eq!(
        TemperatureUnit::from_str("F"),
        Err("Unknown temperature unit F. Expecting `ºC`".to_string())
    );
    assert_eq!(RainUnit::from_str("mm"), Ok(RainUnit::Mm));
    assert_eq!(
        RainUnit::from_str("in"),
        Err("Unknown rain unit in. Expecting `mm`".to_string())
    );
    assert_eq!(WindSpeedUnit::from_str("km/hr"), Ok(WindSpeedUnit::KmHr));
    assert_eq!(
        WindSpeedUnit::from_str("mph"),
        Err("Unknown wind speed unit mph. Expecting km/hr".to_string())
    );
}

fn three_day_report() -> Report {
    let text = format!(
        "{}----\n\
         14 20.0 27.5 15:00 12.5 05:00 0 0 1.0 9.0 14.0 12:00 N\n\
         15 18.3 25.1 14:32 10.2 05:10 0 0 2.4 8.1 12.5 13:00 NW\n\
         16 21.0 29.4 16:10 13.0 06:00 0 0 0.0 7.0 11.0 --- ---\n\
         ----\n",
        JULY_HEADER
    );
    Report::parse(&text).unwrap()
}

#[test]
fn first_and_last_date() {
    let report = three_day_report();
    assert_eq!(report.first_date(), date(2006, 7, 14));
    assert_eq!(report.last_date(), date(2006, 7, 16));
}

#[test]
fn range_of_a_field() {
    let report = three_day_report();
    let (min_rain, max_rain) = report.range(DayField::Rain);
    assert!(min_rain == dec(false, &[0], &[0]));
    assert!(max_rain == dec(false, &[2], &[4]));
    let (min_mean, max_mean) = report.range(DayField::MeanTemp);
    assert!(min_mean == dec(false, &[1, 8], &[3]));
    assert!(max_mean == dec(false, &[2, 1], &[0]));
}

#[test]
fn temperature_range_spans_low_to_high() {
    let report = three_day_report();
    let (low, high) = report.temperature_range();
    assert!(low == dec(false, &[1, 0], &[2]));
    assert!(high == dec(false, &[2, 9], &[4]));
}

#[test]
fn reports_compare_by_anchor_date() {
    let june = Report::parse(&format!(
        "MONTHLY CLIMATOLOGICAL SUMMARY for JUN. 2006\n\n----\n----\n"
    ))
    .unwrap();
    let july = Report::parse(&format!(
        "MONTHLY CLIMATOLOGICAL SUMMARY for JUL. 2006\n\n----\n----\n"
    ))
    .unwrap();
    assert!(june < july);
    assert!(june != july);
    let june_again = Report::parse(&format!(
        "MONTHLY CLIMATOLOGICAL SUMMARY for JUN. 2006\n\n----\n----\n"
    ))
    .unwrap();
    assert!(june == june_again);
}
