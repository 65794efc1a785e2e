use campus_data::hours::{sample_hours, Hours, Instant, Time, TimeRange, Weekday, WeeklySchedule};
use chrono::{DateTime, TimeZone, Utc};
use chrono_tz::America::Chicago;
use chrono_tz::Tz;

fn instant<T: TimeZone>(dt: DateTime<T>) -> Instant {
    Instant::from_timestamp(dt.timestamp(), dt.timestamp_subsec_nanos()).unwrap()
}

fn range(open: &str, close: &str) -> Option<TimeRange> {
    Some(TimeRange {
        open: Time::parse(open).unwrap(),
        close: Time::parse(close).unwrap(),
    })
}

fn weekdays_9_to_5() -> Hours {
    Hours::Weekly {
        schedule: WeeklySchedule {
            monday: range("09:00", "17:00"),
            tuesday: range("09:00", "17:00"),
            wednesday: range("09:00", "17:00"),
            thursday: range("09:00", "17:00"),
            friday: range("09:00", "17:00"),
            saturday: None,
            sunday: None,
        },
    }
}

/// 2026-09-09 is a Wednesday.
fn campus_time(hour: u32, minute: u32) -> Instant {
    let dt: DateTime<Tz> = Chicago.with_ymd_and_hms(2026, 9, 9, hour, minute, 0).unwrap();
    instant(dt)
}

#[test]
fn unknown_hours_are_neither_open_nor_closed() {
    assert_eq!(Hours::Unknown.is_open_at(campus_time(12, 0)), None);
    assert!(!Hours::Unknown.is_known());
}

#[test]
fn always_open_is_open_at_any_hour() {
    assert_eq!(Hours::AlwaysOpen.is_open_at(campus_time(3, 30)), Some(true));
}

#[test]
fn weekly_hours_respect_the_open_window() {
    let hours = weekdays_9_to_5();
    assert_eq!(hours.is_open_at(campus_time(8, 59)), Some(false));
    assert_eq!(hours.is_open_at(campus_time(9, 0)), Some(true));
    assert_eq!(hours.is_open_at(campus_time(16, 59)), Some(true));
    // Closing time itself is closed, not open.
    assert_eq!(hours.is_open_at(campus_time(17, 0)), Some(false));
}

#[test]
fn a_day_with_no_range_is_closed() {
    // 2026-09-12 is a Saturday.
    let saturday = instant(Chicago.with_ymd_and_hms(2026, 9, 12, 12, 0, 0).unwrap());
    assert_eq!(weekdays_9_to_5().is_open_at(saturday), Some(false));
}

/// Evaluating "open now" in the viewer's time zone rather than the campus's
/// would be wrong: a viewer in Los Angeles at 07:30 local is looking at 09:30
/// on campus, so the building is open.
#[test]
fn evaluation_uses_campus_time_not_viewer_time() {
    let hours = weekdays_9_to_5();

    let la = chrono_tz::America::Los_Angeles
        .with_ymd_and_hms(2026, 9, 9, 7, 30, 0)
        .unwrap();
    assert_eq!(
        hours.is_open_at(instant(la)),
        Some(true),
        "07:30 in Los Angeles is 09:30 on campus, which is open"
    );

    // And the reverse: 16:30 in LA is 18:30 on campus, which is shut.
    let la_evening = chrono_tz::America::Los_Angeles
        .with_ymd_and_hms(2026, 9, 9, 16, 30, 0)
        .unwrap();
    assert_eq!(hours.is_open_at(instant(la_evening)), Some(false));
}

#[test]
fn utc_instants_are_converted_to_campus_time() {
    // 14:30 UTC on 2026-09-09 is 09:30 CDT.
    let utc = Utc.with_ymd_and_hms(2026, 9, 9, 14, 30, 0).unwrap();
    assert_eq!(weekdays_9_to_5().is_open_at(instant(utc)), Some(true));
}

#[test]
fn times_round_trip_and_reject_nonsense() {
    assert_eq!(Time::parse("07:00").unwrap().to_string(), "07:00");
    assert!(Time::parse("25:00").is_err());
    assert!(Time::parse("noon").is_err());
}

// ---------------------------------------------------------------------------

#[test]
fn campus_clock_follows_daylight_saving_time() {
    // 2026-01-14 is a Wednesday; in January campus time is UTC-6, so 15:30
    // UTC is 09:30 on campus.
    let winter = Utc.with_ymd_and_hms(2026, 1, 14, 15, 30, 0).unwrap();
    let (day, time) = instant(winter).campus_clock();
    assert_eq!(day, Weekday::Wed);
    assert_eq!(time.to_string(), "09:30");
    assert_eq!(time.seconds_from_midnight(), (9 * 3600 + 30 * 60, 0));
    // In September it is UTC-5.
    let summer = Utc.with_ymd_and_hms(2026, 9, 9, 14, 30, 0).unwrap();
    let (day, time) = instant(summer).campus_clock();
    assert_eq!(day, Weekday::Wed);
    assert_eq!(time.to_string(), "09:30");
}

#[test]
fn campus_clock_crosses_midnight_into_the_previous_day() {
    // 03:00 UTC on Thursday 2026-09-10 is 22:00 on Wednesday on campus.
    let utc = Utc.with_ymd_and_hms(2026, 9, 10, 3, 0, 0).unwrap();
    let (day, time) = instant(utc).campus_clock();
    assert_eq!(day, Weekday::Wed);
    assert_eq!(time.to_string(), "22:00");
    assert_eq!(weekdays_9_to_5().is_open_at(instant(utc)), Some(false));
}

#[test]
fn seconds_within_the_last_minute_are_still_open() {
    let t = instant(Chicago.with_ymd_and_hms(2026, 9, 9, 16, 59, 59).unwrap());
    assert_eq!(weekdays_9_to_5().is_open_at(t), Some(true));
}

#[test]
fn instants_out_of_range_are_refused() {
    assert!(Instant::from_timestamp(i64::MAX, 0).is_none());
    assert!(Instant::from_timestamp(0, 2_000_000_000).is_none());
    let epoch = Instant::from_timestamp(0, 0).unwrap();
    assert_eq!(epoch.timestamp(), 0);
    assert_eq!(epoch.subsec_nanos(), 0);
    // 1970-01-01 00:00 UTC is Wednesday 1969-12-31 18:00 on campus.
    let (day, time) = epoch.campus_clock();
    assert_eq!(day, Weekday::Wed);
    assert_eq!(time.to_string(), "18:00");
}

#[test]
fn is_open_during_judges_a_campus_clock_reading() {
    let hours = weekdays_9_to_5();
    let nine = Time::parse("09:00").unwrap();
    let five = Time::parse("17:00").unwrap();
    assert_eq!(hours.is_open_during(Weekday::Mon, &nine), Some(true));
    assert_eq!(hours.is_open_during(Weekday::Mon, &five), Some(false));
    assert_eq!(hours.is_open_during(Weekday::Sun, &nine), Some(false));
    assert_eq!(Hours::AlwaysOpen.is_open_during(Weekday::Sun, &five), Some(true));
    assert_eq!(Hours::Unknown.is_open_during(Weekday::Sun, &five), None);
    assert!(Hours::AlwaysOpen.is_known());
    assert!(hours.is_known());
}

#[test]
fn time_parse_rejects_bad_minutes_and_trailing_text() {
    let err = Time::parse("12:60").unwrap_err();
    assert_eq!(err.0.kind(), chrono::format::ParseErrorKind::OutOfRange);
    assert_eq!(Time::parse("noon").unwrap_err().0.kind(), chrono::format::ParseErrorKind::Invalid);
    assert!(Time::parse("12:00 pm").is_err());
    assert!(Time::parse("").is_err());
    assert_eq!(Time::parse("23:59").unwrap().to_string(), "23:59");
    assert_eq!(Time::parse("00:00").unwrap().seconds_from_midnight(), (0, 0));
    assert_eq!(Time::parse("13:05").unwrap().seconds_from_midnight(), (13 * 3600 + 5 * 60, 0));
}

#[test]
fn time_order_is_by_time_of_day() {
    let a = Time::parse("08:15").unwrap();
    let b = Time::parse("08:16").unwrap();
    assert!(a.is_before(&b));
    assert!(!b.is_before(&a));
    assert!(!a.is_before(&a));
}

#[test]
fn schedules_list_their_days_in_order() {
    let schedule = WeeklySchedule {
        tuesday: range("10:00", "12:00"),
        sunday: range("13:00", "14:00"),
        ..Default::default()
    };
    let ranges = schedule.all_ranges();
    assert_eq!(ranges.len(), 2);
    assert_eq!(ranges[0].0, Weekday::Tue);
    assert_eq!(ranges[0].1.open.to_string(), "10:00");
    assert_eq!(ranges[1].0, Weekday::Sun);
    assert_eq!(ranges[1].1.close.to_string(), "14:00");
    assert!(schedule.for_weekday(Weekday::Mon).is_none());
    assert_eq!(schedule.for_weekday(Weekday::Tue).unwrap().close.to_string(), "12:00");
    assert!(WeeklySchedule::default().all_ranges().is_empty());
    assert_eq!(Hours::default(), Hours::Unknown);
}

#[test]
fn weekday_names_are_short() {
    assert_eq!(Weekday::Mon.name(), "Mon");
    assert_eq!(Weekday::Sun.name(), "Sun");
    assert_eq!(Weekday::from_days_since_monday(3), Weekday::Thu);
}

#[test]
fn every_minute_of_the_day_round_trips() {
    for h in 0..24 {
        for m in 0..60 {
            let text = format!("{h:02}:{m:02}");
            let t = Time::parse(&text).unwrap();
            assert_eq!(t.seconds_from_midnight(), (h * 3600 + m * 60, 0));
            assert_eq!(t.to_string(), text);
            assert_eq!(Time::parse(&t.to_string()), Ok(t));
        }
    }
}

#[test]
fn instants_within_the_documented_range_exist() {
    assert!(Instant::from_timestamp(8_000_000_000_000, 999_999_999).is_some());
    assert!(Instant::from_timestamp(-8_000_000_000_000, 0).is_some());
    let t = Instant::from_timestamp(1_757_430_000, 5).unwrap();
    assert_eq!((t.timestamp(), t.subsec_nanos()), (1_757_430_000, 5));
}

#[test]
fn out_of_range_and_digitless_times_are_refused() {
    assert!(Time::parse("24:00").is_err());
    assert!(Time::parse("99:59").is_err());
    assert!(Time::parse("12:60").is_err());
    assert!(Time::parse("").is_err());
    assert!(Time::parse("ab:cd").is_err());
    assert!(Time::parse("23:59").is_ok());
}

#[test]
fn the_sample_schedule_is_weekdays_nine_to_five() {
    assert_eq!(sample_hours(), weekdays_9_to_5());
    let h = sample_hours();
    let ten = Time::parse("10:00").unwrap();
    assert_eq!(h.is_open_during(Weekday::Fri, &ten), Some(true));
    assert_eq!(h.is_open_during(Weekday::Sun, &ten), Some(false));
    assert_eq!(h.is_open_during(Weekday::Mon, &Time::parse("17:00").unwrap()), Some(false));
}

#[test]
fn campus_time_text_is_written_in_campus_time() {
    // 2026-01-15 15:30 UTC is 09:30 on campus, in standard time.
    let winter = instant(Utc.with_ymd_and_hms(2026, 1, 15, 15, 30, 0).unwrap());
    assert_eq!(winter.campus_time_text(), "2026-01-15 09:30 CST");
    // 2026-07-01 03:15 UTC is still the evening before on campus, in daylight time.
    let summer = instant(Utc.with_ymd_and_hms(2026, 7, 1, 3, 15, 0).unwrap());
    assert_eq!(summer.campus_time_text(), "2026-06-30 22:15 CDT");
}

#[test]
fn the_hh_mm_grammar_is_chrono_s() {
    let secs = |raw: &str| Time::parse(raw).map(|t| t.seconds_from_midnight());
    assert_eq!(secs("9:05").unwrap(), (9 * 3600 + 5 * 60, 0));
    assert_eq!(secs(" 09:5").unwrap(), (9 * 3600 + 5 * 60, 0));
    assert_eq!(secs("07: 30").unwrap(), (7 * 3600 + 30 * 60, 0));
    assert_eq!(secs("\u{3000}23:59").unwrap(), (23 * 3600 + 59 * 60, 0));
    assert!(secs("09:00 ").is_err());
    assert!(secs("09 :00").is_err());
    assert!(secs("009:00").is_err());
    assert!(secs("09:000").is_err());
    assert!(secs(":30").is_err());
    assert!(secs("09:").is_err());
}

#[test]
fn instants_exist_exactly_within_chrono_s_range() {
    assert!(Instant::from_timestamp(8_210_266_876_799, 0).is_some());
    assert!(Instant::from_timestamp(8_210_266_876_800, 0).is_none());
    assert!(Instant::from_timestamp(-8_334_601_228_800, 0).is_some());
    assert!(Instant::from_timestamp(-8_334_601_228_801, 0).is_none());
    assert!(Instant::from_timestamp(59, 1_500_000_000).is_some());
    assert!(Instant::from_timestamp(58, 1_500_000_000).is_none());
    assert!(Instant::from_timestamp(-1, 1_999_999_999).is_some());
    assert!(Instant::from_timestamp(-1, 2_000_000_000).is_none());
}

#[test]
fn times_are_ordered_by_time_of_day() {
    let nine = Time::parse("09:00").unwrap();
    let five = Time::parse("17:00").unwrap();
    assert!(nine < five);
    assert!(five > nine);
    assert_eq!(nine.partial_cmp(&nine), Some(std::cmp::Ordering::Equal));
    assert_eq!(nine.max(five), five);
    let mut times = vec![five, nine, Time::parse("00:00").unwrap()];
    times.sort();
    assert_eq!(times, vec![Time::parse("00:00").unwrap(), nine, five]);
}
