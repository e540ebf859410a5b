use chrono::{Datelike, Timelike};
use reminder_bot::clock::{now_in, Date, Moment, TimeOfDay, Weekday, DAY_SECONDS};

#[test]
fn weekday_numbers_run_from_monday() {
    assert_eq!(Weekday::from_number(1), Some(Weekday::Mon));
    assert_eq!(Weekday::from_number(2), Some(Weekday::Tue));
    assert_eq!(Weekday::from_number(3), Some(Weekday::Wed));
    assert_eq!(Weekday::from_number(4), Some(Weekday::Thu));
    assert_eq!(Weekday::from_number(5), Some(Weekday::Fri));
    assert_eq!(Weekday::from_number(6), Some(Weekday::Sat));
    assert_eq!(Weekday::from_number(7), Some(Weekday::Sun));
}

#[test]
fn other_numbers_stand_for_no_weekday() {
    assert_eq!(Weekday::from_number(0), None);
    assert_eq!(Weekday::from_number(8), None);
    assert_eq!(Weekday::from_number(u32::MAX), None);
}

#[test]
fn weekdays_count_from_monday() {
    assert_eq!(Weekday::after_monday(0), Weekday::Mon);
    assert_eq!(Weekday::after_monday(3), Weekday::Thu);
    assert_eq!(Weekday::after_monday(6), Weekday::Sun);
}

#[test]
fn time_of_day_from_hours_minutes_seconds() {
    assert_eq!(TimeOfDay::from_hms(0, 0, 0).unwrap().seconds(), 0);
    assert_eq!(TimeOfDay::from_hms(9, 0, 0).unwrap().seconds(), 32_400);
    assert_eq!(TimeOfDay::from_hms(8, 50, 7).unwrap().seconds(), 31_807);
    assert_eq!(TimeOfDay::from_hms(23, 59, 59).unwrap().seconds(), 86_399);
}

#[test]
fn time_of_day_rejects_what_no_clock_shows() {
    assert!(TimeOfDay::from_hms(24, 0, 0).is_none());
    assert!(TimeOfDay::from_hms(0, 60, 0).is_none());
    assert!(TimeOfDay::from_hms(0, 0, 60).is_none());
    assert!(TimeOfDay::from_seconds(DAY_SECONDS).is_none());
    assert_eq!(TimeOfDay::from_seconds(86_399).unwrap().seconds(), 86_399);
}

#[test]
fn adding_seconds_wraps_at_midnight() {
    let late = TimeOfDay::from_hms(23, 45, 0).unwrap();
    assert_eq!(late.plus_seconds(1800), TimeOfDay::from_hms(0, 15, 0).unwrap());
    let morning = TimeOfDay::from_hms(8, 35, 0).unwrap();
    assert_eq!(morning.plus_seconds(1800), TimeOfDay::from_hms(9, 5, 0).unwrap());
    assert_eq!(morning.plus_seconds(0), morning);
    assert_eq!(morning.plus_seconds(86_400), morning);
    assert_eq!(morning.plus_seconds(u32::MAX).seconds(), (30_900 + 4_294_967_295u64 % 86_400) as u32 % 86_400);
}

#[test]
fn parsing_reads_hours_and_minutes() {
    assert_eq!(TimeOfDay::parse("09:00", "%H:%M"), TimeOfDay::from_hms(9, 0, 0));
    assert_eq!(TimeOfDay::parse("23:34", "%H:%M"), TimeOfDay::from_hms(23, 34, 0));
    assert_eq!(TimeOfDay::parse("7:15", "%H:%M"), TimeOfDay::from_hms(7, 15, 0));
    assert_eq!(TimeOfDay::parse("08:50:07", "%H:%M:%S"), TimeOfDay::from_hms(8, 50, 7));
}

#[test]
fn parsing_rejects_what_is_no_time() {
    assert!(TimeOfDay::parse("", "%H:%M").is_none());
    assert!(TimeOfDay::parse("24:00", "%H:%M").is_none());
    assert!(TimeOfDay::parse("17:60", "%H:%M").is_none());
    assert!(TimeOfDay::parse("noon", "%H:%M").is_none());
    assert!(TimeOfDay::parse("09:00:00", "%H:%M").is_none());
}

fn instant(moment: &Moment) -> i64 {
    moment.date.day_number as i64 * 86_400 + moment.time.seconds() as i64
}

#[test]
fn the_clock_is_read_in_the_zone() {
    let zone = chrono_tz::Asia::Taipei;
    let before = now_in(&zone);
    let local = chrono::Utc::now().with_timezone(&zone);
    let after = now_in(&zone);
    let read = Moment {
        weekday: Weekday::after_monday(local.weekday().num_days_from_monday()),
        date: Date { day_number: local.num_days_from_ce() },
        time: TimeOfDay::from_seconds(local.num_seconds_from_midnight()).unwrap(),
    };
    assert!(instant(&before) <= instant(&read));
    assert!(instant(&read) <= instant(&after));
    assert!(instant(&after) - instant(&before) < 60);
    assert!(before.time.seconds() < DAY_SECONDS);
    if before.date == after.date {
        assert_eq!(before.weekday, read.weekday);
    }
}

#[test]
fn the_clock_follows_the_zone() {
    let east = now_in(&chrono_tz::Asia::Taipei);
    let west = now_in(&chrono_tz::Etc::GMTPlus12);
    let ahead = instant(&east) - instant(&west);
    assert!((20 * 3600 - 60..=20 * 3600 + 60).contains(&ahead));
}
