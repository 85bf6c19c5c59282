use climsum::date::Date;
use climsum::day::{Day, DayOutcome, ParseDayError};
use climsum::decimal::Decimal;
use climsum::metadata::{Metadata, MetadataError};
use climsum::report::{ParseError, Report};
use climsum::units::Direction;

fn dec(neg: bool, int_digits: &[u8], frac_digits: &[u8]) -> Decimal {
    Decimal::new(neg, int_digits.to_vec(), frac_digits.to_vec()).unwrap()
}

fn date(year: i32, month: u8, day: u8) -> Date {
    Date::new(year, month, day).unwrap()
}

const JUNE_HEADER: &str = "MONTHLY CLIMATOLOGICAL SUMMARY for JUN. 2006\n\n";

#[test]
fn full_day_line() {
    let text = format!(
        "{}--------------------------------\n\
         15 18.3 25.1 14:32 10.2 05:10 0 0 2.4 8.1 12.5 13:00 NW\n\
         --------------------------------\n",
        JUNE_HEADER
    );
    let report = Report::parse(&text).unwrap();
    assert_eq!(report.metadata.date, date(2006, 6, 1));
    assert_eq!(report.days.len(), 1);
    let day: &Day = &report.days[0];
    assert_eq!(day.date, date(2006, 6, 15));
    assert!(day.mean_temp == dec(false, &[1, 8], &[3]));
    assert!(day.high_temp == dec(false, &[2, 5], &[1]));
    assert_eq!(day.high_temp_date.date, date(2006, 6, 15));
    assert_eq!(day.high_temp_date.hour, 14);
    assert_eq!(day.high_temp_date.minute, 32);
    assert!(day.low_temp == dec(false, &[1, 0], &[2]));
    assert_eq!(day.low_temp_date.hour, 5);
    assert_eq!(day.low_temp_date.minute, 10);
    assert!(day.rain == dec(false, &[2], &[4]));
    assert!(day.avg_wind_speed == dec(false, &[8], &[1]));
    assert!(day.high_wind_speed == dec(false, &[1, 2], &[5]));
    let hw = day.high_wind_speed_date.unwrap();
    assert_eq!(hw.hour, 13);
    assert_eq!(hw.minute, 0);
    assert_eq!(day.wind_direction, Some(Direction::NW));
}

#[test]
fn empty_day_line_is_skipped() {
    let text = format!("{}----\n20\n----\n", JUNE_HEADER);
    let report = Report::parse(&text).unwrap();
    assert_eq!(report.days.len(), 0);
}

#[test]
fn day_beyond_month_length_is_calendar_invalid() {
    let text = format!(
        "{}----\n31 18.3 25.1 14:32 10.2 05:10 0 0 2.4 8.1 12.5 13:00 NW\n----\n",
        JUNE_HEADER
    );
    let err = Report::parse(&text).unwrap_err();
    assert!(matches!(
        err,
        ParseError::ParseDayError(ParseDayError::InvalidDay)
    ));
}

#[test]
fn missing_wind_fields_become_none() {
    let text = format!(
        "{}----\n15 18.3 25.1 14:32 10.2 05:10 0 0 2.4 8.1 12.5 --- ---\n----\n",
        JUNE_HEADER
    );
    let report = Report::parse(&text).unwrap();
    let day = &report.days[0];
    assert!(day.high_wind_speed_date.is_none());
    assert!(day.wind_direction.is_none());
    assert!(day.high_wind_speed == dec(false, &[1, 2], &[5]));
    assert!(day.rain == dec(false, &[2], &[4]));
}

#[test]
fn parse_is_deterministic() {
    let text = format!(
        "{}----\n15 18.3 25.1 14:32 10.2 05:10 0 0 2.4 8.1 12.5 13:00 NW\n\
         16 19.0 26.0 12:00 11.0 04:00 0 0 0.0 7.5 11.0 --- N\n----\n",
        JUNE_HEADER
    );
    let a = Report::parse(&text).unwrap();
    let b = Report::parse(&text).unwrap();
    assert_eq!(a.metadata.date, b.metadata.date);
    assert_eq!(a.metadata.name, b.metadata.name);
    assert_eq!(a.metadata.city, b.metadata.city);
    assert_eq!(a.metadata.state, b.metadata.state);
    assert_eq!(a.metadata.elevation, b.metadata.elevation);
    assert_eq!(a.metadata.lat, b.metadata.lat);
    assert_eq!(a.metadata.long, b.metadata.long);
    assert_eq!(a.days.len(), b.days.len());
    for (da, db) in a.days.iter().zip(b.days.iter()) {
        assert_eq!(da.date, db.date);
        assert!(da.mean_temp == db.mean_temp);
        assert!(da.high_temp == db.high_temp);
        assert_eq!(da.high_temp_date, db.high_temp_date);
        assert!(da.low_temp == db.low_temp);
        assert_eq!(da.low_temp_date, db.low_temp_date);
        assert!(da.rain == db.rain);
        assert!(da.avg_wind_speed == db.avg_wind_speed);
        assert!(da.high_wind_speed == db.high_wind_speed);
        assert_eq!(da.high_wind_speed_date, db.high_wind_speed_date);
        assert_eq!(da.wind_direction, db.wind_direction);
    }
}

#[test]
fn missing_title_line() {
    let err = Report::parse("").unwrap_err();
    assert!(matches!(
        err,
        ParseError::MetadataError(MetadataError::MissingTitle)
    ));
}

#[test]
fn bad_title_line() {
    let err = Report::parse("hello world\n\n----\n----\n").unwrap_err();
    assert!(matches!(
        err,
        ParseError::MetadataError(MetadataError::BadTitle)
    ));
}

#[test]
fn bad_month_carries_offending_slice() {
    let err = Report::parse("MONTHLY CLIMATOLOGICAL SUMMARY for XYZ. 2006\n\n----\n----\n")
        .unwrap_err();
    match err {
        ParseError::MetadataError(MetadataError::BadMonth(s)) => assert_eq!(s, "XYZ"),
        other => panic!("expected BadMonth, got {:?}", other),
    }
}

#[test]
fn missing_dot_after_month() {
    let err =
        Report::parse("MONTHLY CLIMATOLOGICAL SUMMARY for JUN 2006\n\n----\n----\n").unwrap_err();
    match err {
        ParseError::MetadataError(MetadataError::BadMonth(s)) => {
            assert_eq!(s, "Missing dot after month")
        }
        other => panic!("expected BadMonth, got {:?}", other),
    }
}

#[test]
fn missing_year_after_month() {
    let err =
        Report::parse("MONTHLY CLIMATOLOGICAL SUMMARY for JUN. end\n\n----\n----\n").unwrap_err();
    match err {
        ParseError::MetadataError(MetadataError::BadMonth(s)) => {
            assert_eq!(s, "Missing year after month")
        }
        other => panic!("expected BadMonth, got {:?}", other),
    }
}

#[test]
fn fractional_year_is_rejected() {
    let err =
        Report::parse("MONTHLY CLIMATOLOGICAL SUMMARY for JUN. 20.5\n\n----\n----\n").unwrap_err();
    match err {
        ParseError::MetadataError(MetadataError::BadMonth(s)) => assert_eq!(s, "Bad year"),
        other => panic!("expected BadMonth, got {:?}", other),
    }
}

#[test]
fn nonempty_second_line_is_bad_header() {
    let err = Report::parse("MONTHLY CLIMATOLOGICAL SUMMARY for JUN. 2006\nstation\n----\n----\n")
        .unwrap_err();
    assert!(matches!(
        err,
        ParseError::MetadataError(MetadataError::BadHeader)
    ));
}

#[test]
fn missing_opening_separator_is_bad_header() {
    let text = format!("{}just some header text\n", JUNE_HEADER);
    let err = Report::parse(&text).unwrap_err();
    assert!(matches!(
        err,
        ParseError::MetadataError(MetadataError::BadHeader)
    ));
}

#[test]
fn missing_closing_separator_fails() {
    let text = format!(
        "{}----\n15 18.3 25.1 14:32 10.2 05:10 0 0 2.4 8.1 12.5 13:00 NW\n",
        JUNE_HEADER
    );
    let err = Report::parse(&text).unwrap_err();
    match err {
        ParseError::ParseDayError(ParseDayError::BadThing(s)) => {
            assert_eq!(s, "Missing closing separator")
        }
        other => panic!("expected BadThing, got {:?}", other),
    }
}

#[test]
fn unreadable_day_number_is_bad_day() {
    let out = Day::parse(date(2006, 6, 1), "abc 1 2 3:00");
    assert!(matches!(out, DayOutcome::Failed(ParseDayError::BadDay)));
}

#[test]
fn day_zero_is_calendar_invalid() {
    let out = Day::parse(date(2006, 6, 1), "0 18.3 25.1 14:32");
    assert!(matches!(out, DayOutcome::Failed(ParseDayError::InvalidDay)));
}

#[test]
fn missing_high_temp_is_bad_thing() {
    let out = Day::parse(date(2006, 6, 1), "15 18.3");
    match out {
        DayOutcome::Failed(ParseDayError::BadThing(s)) => assert_eq!(s, "Bad high temp"),
        other => panic!("expected BadThing, got {:?}", other),
    }
}

#[test]
fn unknown_wind_direction_is_bad_thing() {
    let out = Day::parse(
        date(2006, 6, 1),
        "15 18.3 25.1 14:32 10.2 05:10 0 0 2.4 8.1 12.5 13:00 QQ",
    );
    match out {
        DayOutcome::Failed(ParseDayError::BadThing(s)) => assert_eq!(s, "Wind direction"),
        other => panic!("expected BadThing, got {:?}", other),
    }
}

#[test]
fn hour_out_of_range_is_bad_thing() {
    let out = Day::parse(
        date(2006, 6, 1),
        "15 18.3 25.1 99:32 10.2 05:10 0 0 2.4 8.1 12.5 13:00 NW",
    );
    match out {
        DayOutcome::Failed(ParseDayError::BadThing(s)) => assert_eq!(s, "Invalid time"),
        other => panic!("expected BadThing, got {:?}", other),
    }
}

#[test]
fn trailing_text_after_direction_is_ignored() {
    let out = Day::parse(
        date(2006, 6, 1),
        "15 18.3 25.1 14:32 10.2 05:10 0 0 2.4 8.1 12.5 13:00 NW extra @@@",
    );
    match out {
        DayOutcome::Parsed(d) => assert_eq!(d.wind_direction, Some(Direction::NW)),
        other => panic!("expected a day, got {:?}", other),
    }
}

#[test]
fn metadata_uses_placeholder_station_identity() {
    let lines: Vec<String> = vec![
        "MONTHLY CLIMATOLOGICAL SUMMARY for FEB. 2004".to_string(),
        String::new(),
    ];
    let m = Metadata::parse(&lines).unwrap();
    assert_eq!(m.date, date(2004, 2, 1));
    assert_eq!(m.name, "maxou");
    assert_eq!(m.city, "LE VIGAN");
    assert_eq!(m.state, "FRONCE");
    assert_eq!(m.elevation, 245);
    assert_eq!(m.lat, (43, 59, 23));
    assert_eq!(m.long, (3, 36, 4));
}

#[test]
fn february_alternate_spelling_is_accepted() {
    let lines: Vec<String> = vec![
        "MONTHLY CLIMATOLOGICAL SUMMARY for FEV. 2004".to_string(),
        String::new(),
    ];
    let m = Metadata::parse(&lines).unwrap();
    assert_eq!(m.date, date(2004, 2, 1));
}

#[test]
fn out_of_order_days_warn_but_parse() {
    let text = format!(
        "{}----\n16 18.3 25.1 14:32 10.2 05:10 0 0 2.4 8.1 12.5 13:00 NW\n\
         15 19.0 26.0 12:00 11.0 04:00 0 0 0.0 7.5 11.0 --- N\n----\n",
        JUNE_HEADER
    );
    let (result, warnings) = Report::parse_with_warnings(&text);
    let report = result.unwrap();
    assert_eq!(report.days.len(), 2);
    assert_eq!(warnings, vec![1]);
}
