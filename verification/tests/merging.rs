use climsum::date::Date;
use climsum::metadata::Metadata;
use climsum::report::Report;

fn date(year: i32, month: u8, day: u8) -> Date {
    Date::new(year, month, day).unwrap()
}

fn month_report(month_abbr: &str, day_lines: &[&str]) -> Report {
    let mut text = format!(
        "MONTHLY CLIMATOLOGICAL SUMMARY for {}. 2006\n\n----\n",
        month_abbr
    );
    for line in day_lines {
        text.push_str(line);
        text.push('\n');
    }
    text.push_str("----\n");
    Report::parse(&text).unwrap()
}

const JUNE_DAY_A: &str = "10 18.3 25.1 14:32 10.2 05:10 0 0 2.4 8.1 12.5 13:00 NW";
const JUNE_DAY_B: &str = "11 19.0 26.0 12:00 11.0 04:00 0 0 0.0 7.5 11.0 --- N";
const JULY_DAY: &str = "1 22.0 30.0 15:00 14.0 06:00 0 0 0.5 6.0 10.0 11:30 SE";

#[test]
fn merge_earlier_report_keeps_its_date_and_order() {
    let mut june = month_report("JUN", &[JUNE_DAY_A, JUNE_DAY_B]);
    let july = month_report("JUL", &[JULY_DAY]);
    june.merge(july).unwrap();
    assert_eq!(june.metadata.date, date(2006, 6, 1));
    assert_eq!(june.days.len(), 3);
    assert_eq!(june.days[0].date, date(2006, 6, 10));
    assert_eq!(june.days[1].date, date(2006, 6, 11));
    assert_eq!(june.days[2].date, date(2006, 7, 1));
}

#[test]
fn merge_with_roles_swapped_gives_the_same_result() {
    let june = month_report("JUN", &[JUNE_DAY_A, JUNE_DAY_B]);
    let mut july = month_report("JUL", &[JULY_DAY]);
    july.merge(june).unwrap();
    assert_eq!(july.metadata.date, date(2006, 6, 1));
    assert_eq!(july.days.len(), 3);
    assert_eq!(july.days[0].date, date(2006, 6, 10));
    assert_eq!(july.days[1].date, date(2006, 6, 11));
    assert_eq!(july.days[2].date, date(2006, 7, 1));
}

#[test]
fn merge_differing_city_fails_and_changes_nothing() {
    let base = month_report("JUN", &[JUNE_DAY_A]);
    let mut left = Report {
        metadata: Metadata {
            date: date(2006, 6, 1),
            name: base.metadata.name.clone(),
            city: "LE VIGAN".to_string(),
            state: base.metadata.state.clone(),
            elevation: base.metadata.elevation,
            lat: base.metadata.lat,
            long: base.metadata.long,
        },
        days: base.days,
    };
    let other_days = month_report("JUL", &[JULY_DAY]);
    let right = Report {
        metadata: Metadata {
            date: date(2006, 7, 1),
            name: left.metadata.name.clone(),
            city: "ELSEWHERE".to_string(),
            state: left.metadata.state.clone(),
            elevation: left.metadata.elevation,
            lat: left.metadata.lat,
            long: left.metadata.long,
        },
        days: other_days.days,
    };
    let err = left.merge(right).unwrap_err();
    assert_eq!(err, "Metadata differs");
    assert_eq!(left.days.len(), 1);
    assert_eq!(left.days[0].date, date(2006, 6, 10));
    assert_eq!(left.metadata.date, date(2006, 6, 1));
    assert_eq!(left.metadata.city, "LE VIGAN");
}

#[test]
fn merge_differing_elevation_fails_even_with_valid_dates() {
    let base = month_report("JUN", &[JUNE_DAY_A]);
    let july = month_report("JUL", &[JULY_DAY]);
    let mut left = base;
    let mut right_meta = Metadata {
        date: date(2006, 7, 1),
        name: left.metadata.name.clone(),
        city: left.metadata.city.clone(),
        state: left.metadata.state.clone(),
        elevation: left.metadata.elevation + 1,
        lat: left.metadata.lat,
        long: left.metadata.long,
    };
    right_meta.date = date(2006, 7, 1);
    let right = Report {
        metadata: right_meta,
        days: july.days,
    };
    let err = left.merge(right).unwrap_err();
    assert_eq!(err, "Metadata differs");
    assert_eq!(left.days.len(), 1);
}

#[test]
fn merge_equal_dates_puts_other_first() {
    let a = month_report("JUN", &[JUNE_DAY_A]);
    let mut b = month_report("JUN", &[JUNE_DAY_B]);
    b.merge(a).unwrap();
    assert_eq!(b.days.len(), 2);
    assert_eq!(b.days[0].date, date(2006, 6, 10));
    assert_eq!(b.days[1].date, date(2006, 6, 11));
}
