use brisbane_bin_data::date::{
    current_window, now, parse_date, schedule_window, today, CalendarDate, DateError, Moment,
    ScheduleWindow,
};

fn date(year: i32, month: u8, day: u8) -> CalendarDate {
    CalendarDate { year, month, day }
}

fn moment(year: i32, month: u8, day: u8, hour: u8, minute: u8, second: u8) -> Moment {
    Moment { date: date(year, month, day), hour, minute, second }
}

#[test]
fn reads_a_date_of_year_month_and_day() {
    assert_eq!(parse_date("2024-03-05"), Ok(date(2024, 3, 5)));
    assert_eq!(parse_date("1999-12-31"), Ok(date(1999, 12, 31)));
    assert_eq!(parse_date("2024-02-29"), Ok(date(2024, 2, 29)));
}

#[test]
fn refuses_what_is_no_date() {
    for text in [
        "",
        "tomorrow",
        "2024-13-01",
        "2024-00-10",
        "2024-02-30",
        "2023-02-29",
        "2024-3-5",
        "2024/03/05",
        "2024-03-05T10:00:00Z",
        " 2024-03-05",
        "05-03-2024",
    ] {
        assert_eq!(parse_date(text), Err(DateError::Unparsable), "{:?}", text);
    }
}

#[test]
fn the_window_ends_on_the_last_day_of_the_month() {
    let w = schedule_window(&moment(2024, 3, 6, 10, 20, 30)).unwrap();
    assert_eq!(w.end, moment(2024, 3, 31, 10, 20, 30));
    let w = schedule_window(&moment(2024, 4, 30, 0, 0, 0)).unwrap();
    assert_eq!(w.end, moment(2024, 4, 30, 0, 0, 0));
    let w = schedule_window(&moment(2024, 12, 1, 23, 59, 59)).unwrap();
    assert_eq!(w.end, moment(2024, 12, 31, 23, 59, 59));
}

#[test]
fn the_window_ends_on_the_29th_in_a_leap_february() {
    assert_eq!(schedule_window(&moment(2024, 2, 10, 8, 0, 0)).unwrap().end.date, date(2024, 2, 29));
    assert_eq!(schedule_window(&moment(2000, 2, 1, 8, 0, 0)).unwrap().end.date, date(2000, 2, 29));
    assert_eq!(schedule_window(&moment(2023, 2, 10, 8, 0, 0)).unwrap().end.date, date(2023, 2, 28));
    assert_eq!(schedule_window(&moment(1900, 2, 28, 8, 0, 0)).unwrap().end.date, date(1900, 2, 28));
}

#[test]
fn the_window_starts_as_many_days_back_as_the_day_of_the_month_counts() {
    let w = schedule_window(&moment(2024, 3, 6, 10, 20, 30)).unwrap();
    assert_eq!(w.start, moment(2024, 2, 29, 14, 0, 0));
    let w = schedule_window(&moment(2023, 3, 31, 10, 20, 30)).unwrap();
    assert_eq!(w.start, moment(2023, 2, 28, 14, 0, 0));
    let w = schedule_window(&moment(2024, 1, 1, 0, 0, 0)).unwrap();
    assert_eq!(w.start, moment(2023, 12, 31, 14, 0, 0));
    let w = schedule_window(&moment(2024, 5, 15, 0, 0, 0)).unwrap();
    assert_eq!(w.start, moment(2024, 4, 30, 14, 0, 0));
}

#[test]
fn the_window_is_that_of_the_calendar_arithmetic_on_the_clock() {
    let mut day = time::Date::from_calendar_date(2023, time::Month::January, 1).unwrap();
    let last = time::Date::from_calendar_date(2025, time::Month::January, 1).unwrap();
    while day < last {
        let at = day.with_hms(9, 30, 15).unwrap().assume_utc();
        let start = (at - time::Duration::days(at.day() as i64))
            .replace_time(time::Time::from_hms(14, 0, 0).unwrap());
        let end = at.replace_date(
            time::Date::from_calendar_date(
                at.year(),
                at.month(),
                time::util::days_in_month(at.month(), at.year()),
            )
            .unwrap(),
        );
        let w = schedule_window(&moment(at.year(), at.month() as u8, at.day(), 9, 30, 15)).unwrap();
        assert_eq!(
            w,
            ScheduleWindow {
                start: moment(start.year(), start.month() as u8, start.day(), 14, 0, 0),
                end: moment(end.year(), end.month() as u8, end.day(), 9, 30, 15),
            }
        );
        day = day.next_day().unwrap();
    }
}

#[test]
fn there_is_no_window_for_a_moment_that_is_none() {
    assert_eq!(schedule_window(&moment(2024, 2, 30, 0, 0, 0)), Err(DateError::Invalid));
    assert_eq!(schedule_window(&moment(2024, 13, 1, 0, 0, 0)), Err(DateError::Invalid));
    assert_eq!(schedule_window(&moment(2024, 0, 1, 0, 0, 0)), Err(DateError::Invalid));
    assert_eq!(schedule_window(&moment(2024, 1, 0, 0, 0, 0)), Err(DateError::Invalid));
    assert_eq!(schedule_window(&moment(2024, 1, 1, 24, 0, 0)), Err(DateError::Invalid));
    assert_eq!(schedule_window(&moment(2024, 1, 1, 0, 60, 0)), Err(DateError::Invalid));
    assert_eq!(schedule_window(&moment(2024, 1, 1, 0, 0, 60)), Err(DateError::Invalid));
    assert_eq!(schedule_window(&moment(10000, 1, 1, 0, 0, 0)), Err(DateError::Invalid));
}

#[test]
fn there_is_no_window_before_the_first_day() {
    assert_eq!(schedule_window(&moment(-9999, 1, 15, 0, 0, 0)), Err(DateError::OutOfRange));
    let w = schedule_window(&moment(-9999, 2, 15, 0, 0, 0)).unwrap();
    assert_eq!(w.start.date, date(-9999, 1, 31));
}

#[test]
fn a_moment_is_written_as_a_timestamp() {
    assert_eq!(moment(2024, 2, 29, 14, 0, 0).to_string().unwrap(), "2024-02-29T14:00:00Z");
    assert_eq!(moment(2024, 3, 31, 9, 5, 7).to_string().unwrap(), "2024-03-31T09:05:07Z");
    assert_eq!(moment(987, 11, 3, 23, 59, 59).to_string().unwrap(), "0987-11-03T23:59:59Z");
    assert_eq!(moment(0, 1, 1, 0, 0, 0).to_string().unwrap(), "0000-01-01T00:00:00Z");
    assert_eq!(moment(-44, 3, 15, 1, 2, 3).to_string().unwrap(), "-0044-03-15T01:02:03Z");
    assert_eq!(moment(-9999, 12, 31, 23, 0, 9).to_string().unwrap(), "-9999-12-31T23:00:09Z");
    assert_eq!(moment(9999, 12, 31, 23, 0, 9).to_string().unwrap(), "9999-12-31T23:00:09Z");
}

#[test]
fn a_moment_that_is_none_is_not_written() {
    assert_eq!(moment(2024, 2, 30, 14, 0, 0).to_string(), Err(DateError::Unprintable));
    assert_eq!(moment(2024, 2, 20, 25, 0, 0).to_string(), Err(DateError::Unprintable));
}

#[test]
fn a_date_is_shown_with_hyphens() {
    assert_eq!(date(2024, 3, 5).to_string().unwrap(), "2024-03-05");
    assert_eq!(date(33, 12, 25).to_string().unwrap(), "0033-12-25");
    assert_eq!(date(0, 2, 29).to_string().unwrap(), "0000-02-29");
    assert_eq!(date(-44, 3, 15).to_string().unwrap(), "-0044-03-15");
    assert_eq!(date(-9999, 1, 1).to_string().unwrap(), "-9999-01-01");
    assert_eq!(date(9999, 12, 31).to_string().unwrap(), "9999-12-31");
    assert_eq!(date(2024, 2, 30).to_string(), None);
}

#[test]
fn a_date_is_valid_where_the_month_has_the_day() {
    assert!(date(2024, 2, 29).validate());
    assert!(!date(2023, 2, 29).validate());
    assert!(date(2024, 1, 31).validate());
    assert!(!date(2024, 4, 31).validate());
    assert!(!date(2024, 4, 0).validate());
    assert!(!date(2024, 0, 1).validate());
    assert!(!date(2024, 13, 1).validate());
    assert!(date(9999, 12, 31).validate());
    assert!(!date(10000, 1, 1).validate());
    assert!(date(-9999, 1, 1).validate());
    assert!(!date(-10000, 1, 1).validate());
    assert!(moment(2024, 6, 30, 23, 59, 59).validate());
    assert!(!moment(2024, 6, 31, 23, 59, 59).validate());
}

#[test]
fn dates_are_ordered_by_year_month_and_day() {
    assert!(date(2024, 3, 1).is_before(&date(2024, 3, 5)));
    assert!(date(2024, 2, 29).is_before(&date(2024, 3, 1)));
    assert!(date(2023, 12, 31).is_before(&date(2024, 1, 1)));
    assert!(!date(2024, 3, 5).is_before(&date(2024, 3, 5)));
    assert!(!date(2024, 3, 6).is_before(&date(2024, 3, 5)));
    assert!(!date(2025, 1, 1).is_before(&date(2024, 12, 31)));
}

#[test]
fn the_clock_shows_a_day_of_the_calendar() {
    assert!(now().validate());
    assert!(today().validate());
    let direct = time::OffsetDateTime::now_utc().date();
    let shown = today();
    let as_date =
        time::Date::from_calendar_date(shown.year, time::Month::try_from(shown.month).unwrap(), shown.day)
            .unwrap();
    assert!((as_date - direct).whole_days().abs() <= 1);
}

#[test]
fn the_window_of_the_clock_spans_the_month() {
    let w = current_window().unwrap();
    assert_eq!((w.start.hour, w.start.minute, w.start.second), (14, 0, 0));
    assert!(w.start.date.is_before(&w.end.date));
    assert!(w.end.date.validate());
    assert!(!date(w.end.date.year, w.end.date.month, w.end.date.day + 1).validate());
}

fn leap(year: i32) -> bool {
    year.rem_euclid(4) == 0 && (year.rem_euclid(100) != 0 || year.rem_euclid(400) == 0)
}

fn length(year: i32, month: u8) -> u8 {
    match month {
        2 => {
            if leap(year) {
                29
            } else {
                28
            }
        }
        4 | 6 | 9 | 11 => 30,
        _ => 31,
    }
}

#[test]
fn the_window_holds_across_the_centuries() {
    let mut year = -9999;
    while year <= 9999 {
        for month in 1..=12u8 {
            for day in [1, 15, length(year, month)] {
                let w = schedule_window(&moment(year, month, day, 7, 8, 9));
                if year == -9999 && month == 1 {
                    assert_eq!(w, Err(DateError::OutOfRange));
                    continue;
                }
                let start = if month == 1 {
                    date(year - 1, 12, 31)
                } else {
                    date(year, month - 1, length(year, month - 1))
                };
                assert_eq!(
                    w,
                    Ok(ScheduleWindow {
                        start: Moment { date: start, hour: 14, minute: 0, second: 0 },
                        end: moment(year, month, length(year, month), 7, 8, 9),
                    }),
                    "{}-{}-{}",
                    year,
                    month,
                    day
                );
                assert!(!date(year, month, length(year, month) + 1).validate());
                assert!(date(year, month, length(year, month)).validate());
            }
        }
        year += if year % 100 == 99 || year % 100 == -1 || year % 100 == 0 || year % 4 == 3 { 1 } else { 7 };
    }
}
