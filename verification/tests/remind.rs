use reminder_bot::clock::{TimeOfDay, Weekday};
use reminder_bot::commands::remind::{
    add_weekly, parse_time, parse_weekdays, run, ValidationError,
};
use reminder_bot::table::ReminderTable;

const G: u64 = 1143403544599334992;
const C: u64 = 1260445361932079115;

#[test]
fn first_reminder_in_an_empty_table() {
    let mut table = ReminderTable::new();
    assert!(table.is_empty());
    let reply = run(&mut table, "1,3,5", "09:00", "standup", G, C);
    assert_eq!(reply, Ok(">> 已設定每週提醒".to_string()));
    assert_eq!(table.guild_ids(), vec![G]);
    assert_eq!(table.channel_ids(G), vec![C]);
    let list = table.reminders(G, C).unwrap();
    assert_eq!(list.len(), 1);
    assert_eq!(list[0].weekdays, vec![Weekday::Mon, Weekday::Wed, Weekday::Fri]);
    assert_eq!(list[0].time, TimeOfDay::from_hms(9, 0, 0).unwrap());
    assert_eq!(list[0].message, "standup");
    assert_eq!(list[0].last_executed, None);
}

#[test]
fn reminders_are_appended_in_order() {
    let mut table = ReminderTable::new();
    assert!(run(&mut table, "1", "08:00", "first", G, C).is_ok());
    assert!(run(&mut table, "2", "08:10", "second", G, C).is_ok());
    assert!(run(&mut table, "3", "08:20", "elsewhere", G, C + 1).is_ok());
    assert!(run(&mut table, "4", "08:30", "third", G, C).is_ok());
    let list = table.reminders(G, C).unwrap();
    let messages: Vec<&str> = list.iter().map(|r| r.message.as_str()).collect();
    assert_eq!(messages, vec!["first", "second", "third"]);
    assert_eq!(table.reminders(G, C + 1).unwrap().len(), 1);
    assert!(table.reminders(G + 1, C).is_none());
}

#[test]
fn weekday_lists_are_read() {
    assert_eq!(parse_weekdays("1,4,7"), Some(vec![Weekday::Mon, Weekday::Thu, Weekday::Sun]));
    assert_eq!(parse_weekdays(" 2 ,\t6 "), Some(vec![Weekday::Tue, Weekday::Sat]));
    assert_eq!(parse_weekdays("5"), Some(vec![Weekday::Fri]));
    assert_eq!(parse_weekdays("+3"), Some(vec![Weekday::Wed]));
    assert_eq!(parse_weekdays("1,1"), Some(vec![Weekday::Mon, Weekday::Mon]));
    assert_eq!(parse_weekdays("07"), Some(vec![Weekday::Sun]));
    assert_eq!(
        parse_weekdays("1,2,3,4,5,6,7"),
        Some(vec![
            Weekday::Mon,
            Weekday::Tue,
            Weekday::Wed,
            Weekday::Thu,
            Weekday::Fri,
            Weekday::Sat,
            Weekday::Sun,
        ])
    );
}

#[test]
fn malformed_weekday_lists_are_refused() {
    assert_eq!(parse_weekdays(""), None);
    assert_eq!(parse_weekdays(" "), None);
    assert_eq!(parse_weekdays("1,"), None);
    assert_eq!(parse_weekdays(",1"), None);
    assert_eq!(parse_weekdays("1,,2"), None);
    assert_eq!(parse_weekdays("mon"), None);
    assert_eq!(parse_weekdays("1;2"), None);
    assert_eq!(parse_weekdays("-1"), None);
    assert_eq!(parse_weekdays("1,x,3"), None);
    assert_eq!(parse_weekdays("4294967296"), None);
    assert_eq!(parse_weekdays("1 2"), None);
}

#[test]
fn weekday_numbers_outside_the_week_are_refused() {
    assert_eq!(parse_weekdays("0"), None);
    assert_eq!(parse_weekdays("8"), None);
    assert_eq!(parse_weekdays("9"), None);
    assert_eq!(parse_weekdays("10"), None);
    assert_eq!(parse_weekdays("1,8"), None);
    assert_eq!(parse_weekdays("0,8,9"), None);
    assert_eq!(parse_weekdays("4294967297"), None);
    let mut table = ReminderTable::new();
    assert_eq!(run(&mut table, "8", "09:00", "x", G, C), Err(ValidationError::Weekdays));
    assert!(table.is_empty());
    assert_eq!(run(&mut table, "1,0", "09:00", "x", G, C), Err(ValidationError::Weekdays));
    assert!(table.is_empty());
    let time = TimeOfDay::from_hms(9, 0, 0);
    assert_eq!(add_weekly(&mut table, "8", time, "x", G, C), Err(ValidationError::Weekdays));
    assert!(table.is_empty());
}

#[test]
fn reminder_times_are_read() {
    assert_eq!(parse_time("09:00"), TimeOfDay::from_hms(9, 0, 0));
    assert_eq!(parse_time("  23:34\n"), TimeOfDay::from_hms(23, 34, 0));
    assert_eq!(parse_time("01:24"), TimeOfDay::from_hms(1, 24, 0));
    assert_eq!(parse_time("00:00"), TimeOfDay::from_hms(0, 0, 0));
    assert_eq!(parse_time(""), None);
    assert_eq!(parse_time("25:00"), None);
    assert_eq!(parse_time("9 o'clock"), None);
    assert_eq!(parse_time("09:00:30"), None);
}

#[test]
fn bad_weekdays_leave_the_table_alone() {
    let mut table = ReminderTable::new();
    assert_eq!(run(&mut table, "one", "09:00", "standup", G, C), Err(ValidationError::Weekdays));
    assert!(table.is_empty());
    assert_eq!(run(&mut table, "", "09:00", "standup", G, C), Err(ValidationError::Weekdays));
    assert!(table.is_empty());
}

#[test]
fn bad_time_leaves_the_table_alone() {
    let mut table = ReminderTable::new();
    assert_eq!(run(&mut table, "1,3,5", "9am", "standup", G, C), Err(ValidationError::Time));
    assert!(table.is_empty());
    assert_eq!(run(&mut table, "1,3,5", "", "standup", G, C), Err(ValidationError::Time));
    assert!(table.is_empty());
}

#[test]
fn weekdays_are_judged_before_the_time() {
    let mut table = ReminderTable::new();
    assert_eq!(run(&mut table, "x", "y", "standup", G, C), Err(ValidationError::Weekdays));
    assert_eq!(add_weekly(&mut table, "x", None, "standup", G, C), Err(ValidationError::Weekdays));
    assert_eq!(add_weekly(&mut table, "1", None, "standup", G, C), Err(ValidationError::Time));
    assert!(table.is_empty());
}

#[test]
fn a_read_time_is_stored_as_given() {
    let mut table = ReminderTable::new();
    let time = TimeOfDay::from_hms(8, 50, 7);
    assert!(add_weekly(&mut table, "7", time, "", G, C).is_ok());
    let list = table.reminders(G, C).unwrap();
    assert_eq!(list[0].time.seconds(), 31_807);
    assert_eq!(list[0].weekdays, vec![Weekday::Sun]);
    assert_eq!(list[0].message, "");
}

#[test]
fn validation_errors_say_what_was_expected() {
    assert_eq!(ValidationError::Weekdays.message(), ">> 錯誤的日期格式：ex. 1,2,3");
    assert_eq!(ValidationError::Time.message(), ">> 錯誤的時間格式(24小時制)：ex. 01:24 or 23:34");
}
