use lunasched::schedule::{parse_calendar, parse_duration, parse_nth_weekday, parse_weekday};
use lunasched::{parse_schedule, CalendarParams, ScheduleConfig, ScheduleError};

#[test]
fn every_schedules_parse_to_seconds() {
    assert_eq!(parse_schedule("every 5s"), Ok(ScheduleConfig::Every(5)));
    assert_eq!(parse_schedule("every 10m"), Ok(ScheduleConfig::Every(600)));
    assert_eq!(parse_schedule("every 2h"), Ok(ScheduleConfig::Every(7200)));
    assert_eq!(parse_schedule("every   3s  "), Ok(ScheduleConfig::Every(3)));
    assert_eq!(parse_schedule("every every 4s"), Ok(ScheduleConfig::Every(4)));
}

#[test]
fn duration_errors() {
    assert_eq!(parse_duration(""), Err(ScheduleError::EmptyDuration));
    assert_eq!(parse_duration("5d"), Err(ScheduleError::UnknownUnit));
    assert_eq!(parse_duration("xs"), Err(ScheduleError::InvalidNumber));
    assert_eq!(parse_duration("s"), Err(ScheduleError::InvalidNumber));
    assert_eq!(parse_duration("+7s"), Ok(7));
    assert_eq!(parse_duration("18446744073709551615s"), Ok(u64::MAX));
    assert_eq!(parse_duration("18446744073709551616s"), Err(ScheduleError::InvalidNumber));
    assert_eq!(parse_duration("18446744073709551615m"), Err(ScheduleError::DurationOverflow));
    assert_eq!(parse_schedule("every "), Err(ScheduleError::EmptyDuration));
}

#[test]
fn other_text_is_a_cron_expression() {
    assert_eq!(
        parse_schedule("*/5 * * * *"),
        Ok(ScheduleConfig::Cron("*/5 * * * *".to_string()))
    );
}

#[test]
fn calendar_at_a_time() {
    let expected = CalendarParams { days_of_week: None, nth_weekday: None, time: (14, 30, 0) };
    assert_eq!(parse_schedule("at 14:30"), Ok(ScheduleConfig::Calendar(expected)));
    let expected = CalendarParams { days_of_week: None, nth_weekday: None, time: (9, 5, 7) };
    assert_eq!(parse_calendar("at 09:05:07"), Ok(ScheduleConfig::Calendar(expected)));
}

#[test]
fn calendar_on_days() {
    let expected = CalendarParams {
        days_of_week: Some(vec![1, 3]),
        nth_weekday: None,
        time: (9, 0, 0),
    };
    assert_eq!(parse_schedule("on Mon,Wed at 09:00"), Ok(ScheduleConfig::Calendar(expected)));
    let expected = CalendarParams {
        days_of_week: Some(vec![5, 7]),
        nth_weekday: None,
        time: (18, 15, 0),
    };
    assert_eq!(
        parse_schedule("on FRIDAY , sun at 18:15"),
        Ok(ScheduleConfig::Calendar(expected))
    );
}

#[test]
fn calendar_on_an_ordinal_weekday() {
    let expected = CalendarParams { days_of_week: None, nth_weekday: Some((1, 1)), time: (10, 0, 0) };
    assert_eq!(parse_schedule("on 1st Mon at 10:00"), Ok(ScheduleConfig::Calendar(expected)));
    assert_eq!(parse_nth_weekday("3RD friday"), Some((3, 5)));
    assert_eq!(parse_nth_weekday("5th friday"), None);
    assert_eq!(parse_nth_weekday("1st"), None);
}

#[test]
fn calendar_errors() {
    assert_eq!(parse_calendar("on Mon"), Err(ScheduleError::MissingAt));
    assert_eq!(parse_schedule("at 9"), Err(ScheduleError::InvalidTimeFormat));
    assert_eq!(parse_schedule("at 9:x"), Err(ScheduleError::InvalidNumber));
    assert_eq!(parse_schedule("on Funday at 09:00"), Err(ScheduleError::InvalidWeekday));
    assert_eq!(parse_schedule("on 5th Mon at 09:00"), Err(ScheduleError::InvalidWeekday));
}

#[test]
fn weekday_names() {
    assert_eq!(parse_weekday("mon"), Ok(1));
    assert_eq!(parse_weekday("Tuesday"), Ok(2));
    assert_eq!(parse_weekday("WED"), Ok(3));
    assert_eq!(parse_weekday("thursday"), Ok(4));
    assert_eq!(parse_weekday("Sat"), Ok(6));
    assert_eq!(parse_weekday("Sunday"), Ok(7));
    assert_eq!(parse_weekday("mo"), Err(ScheduleError::InvalidWeekday));
}
