use reminder_bot::clock::{Date, Moment, TimeOfDay, Weekday};
use reminder_bot::reminder::{is_within, Reminder, HALF_HOUR, TWO_MINUTES};
use reminder_bot::table::{copy_list, keys_of, ReminderTable, RemoveError};
use std::collections::HashMap;

fn reminder(hour: u32, minute: u32, message: &str) -> Reminder {
    Reminder::new(
        vec![Weekday::Wed, Weekday::Fri],
        TimeOfDay::from_hms(hour, minute, 0).unwrap(),
        message.to_string(),
    )
}

fn wednesday(hour: u32, minute: u32) -> Moment {
    Moment {
        weekday: Weekday::Wed,
        date: Date { day_number: 739_909 },
        time: TimeOfDay::from_hms(hour, minute, 0).unwrap(),
    }
}

#[test]
fn a_new_reminder_was_never_taken_up() {
    let made = reminder(9, 0, "standup");
    assert_eq!(made.weekdays, vec![Weekday::Wed, Weekday::Fri]);
    assert_eq!(made.time.seconds(), 32_400);
    assert_eq!(made.message, "standup");
    assert_eq!(made.last_executed, None);
}

#[test]
fn a_copy_keeps_every_field() {
    let mut made = reminder(9, 0, "standup");
    made.last_executed = Some(Date { day_number: 5 });
    let copy = made.clone();
    assert_eq!(copy.weekdays, made.weekdays);
    assert_eq!(copy.time, made.time);
    assert_eq!(copy.message, made.message);
    assert_eq!(copy.last_executed, made.last_executed);
    let copies = copy_list(&vec![made, reminder(10, 0, "second")]);
    assert_eq!(copies.len(), 2);
    assert_eq!(copies[1].message, "second");
}

#[test]
fn weekdays_are_looked_up() {
    let made = reminder(9, 0, "standup");
    assert!(made.falls_on(Weekday::Wed));
    assert!(made.falls_on(Weekday::Fri));
    assert!(!made.falls_on(Weekday::Mon));
    let never = Reminder::new(vec![], TimeOfDay::from_hms(9, 0, 0).unwrap(), String::new());
    assert!(!never.falls_on(Weekday::Mon));
}

#[test]
fn a_reminder_without_weekdays_is_never_due() {
    let never = Reminder::new(vec![], TimeOfDay::from_hms(9, 0, 0).unwrap(), String::new());
    for weekday in [Weekday::Mon, Weekday::Tue, Weekday::Wed, Weekday::Thu, Weekday::Fri, Weekday::Sat, Weekday::Sun] {
        let now = Moment { weekday, ..wednesday(8, 45) };
        assert!(!never.is_due(&now));
    }
}

#[test]
fn due_means_today_soon_and_not_yet_taken() {
    let mut made = reminder(9, 0, "standup");
    assert!(made.is_due(&wednesday(8, 45)));
    assert!(made.is_due(&wednesday(8, 30)));
    assert!(!made.is_due(&wednesday(8, 29)));
    assert!(!made.is_due(&wednesday(9, 0)));
    assert!(!made.is_due(&Moment { weekday: Weekday::Thu, ..wednesday(8, 45) }));
    made.last_executed = Some(Date { day_number: 739_909 });
    assert!(!made.is_due(&wednesday(8, 45)));
    made.last_executed = Some(Date { day_number: 739_908 });
    assert!(made.is_due(&wednesday(8, 45)));
}

#[test]
fn windows_are_measured_in_seconds() {
    let time = |h, m, s| TimeOfDay::from_hms(h, m, s).unwrap();
    assert!(is_within(time(9, 0, 0), time(8, 30, 0), HALF_HOUR));
    assert!(!is_within(time(9, 0, 1), time(8, 30, 0), HALF_HOUR));
    assert!(is_within(time(9, 0, 0), time(8, 58, 0), TWO_MINUTES));
    assert!(!is_within(time(9, 0, 0), time(8, 57, 59), TWO_MINUTES));
    assert!(!is_within(time(9, 0, 0), time(9, 0, 0), TWO_MINUTES));
    assert!(is_within(time(23, 59, 59), time(23, 59, 58), 1));
    assert!(is_within(time(23, 59, 59), time(23, 59, 58), 2));
    assert!(is_within(time(23, 59, 59), time(23, 59, 58), u32::MAX));
    assert!(is_within(time(23, 50, 0), time(23, 45, 0), HALF_HOUR));
    assert!(is_within(time(23, 59, 30), time(23, 59, 0), TWO_MINUTES));
    assert!(!is_within(time(0, 0, 0), time(23, 59, 59), TWO_MINUTES));
    assert!(!is_within(time(0, 10, 0), time(23, 45, 0), HALF_HOUR));
}

#[test]
fn lists_are_kept_by_guild_and_channel() {
    let mut table = ReminderTable::new();
    table.add(1, 10, reminder(9, 0, "a"));
    table.add(1, 11, reminder(9, 0, "b"));
    table.add(2, 10, reminder(9, 0, "c"));
    table.add(1, 10, reminder(9, 0, "d"));
    let mut guilds = table.guild_ids();
    guilds.sort();
    assert_eq!(guilds, vec![1, 2]);
    let mut channels = table.channel_ids(1);
    channels.sort();
    assert_eq!(channels, vec![10, 11]);
    assert_eq!(table.channel_ids(2), vec![10]);
    assert!(table.channel_ids(3).is_empty());
    let list = table.reminders(1, 10).unwrap();
    assert_eq!(list.iter().map(|r| r.message.as_str()).collect::<Vec<_>>(), vec!["a", "d"]);
    assert!(table.reminders(2, 11).is_none());
    assert!(!table.is_empty());
}

#[test]
fn a_list_can_be_put_in_place() {
    let mut table = ReminderTable::new();
    table.add(1, 10, reminder(9, 0, "old"));
    table.set_list(1, 10, vec![reminder(9, 0, "x"), reminder(9, 5, "y")]);
    table.set_list(2, 20, vec![]);
    let list = table.reminders(1, 10).unwrap();
    assert_eq!(list.iter().map(|r| r.message.as_str()).collect::<Vec<_>>(), vec!["x", "y"]);
    assert_eq!(table.reminders(2, 20).unwrap().len(), 0);
    assert_eq!(table.remove(2, 20, 1).unwrap_err(), RemoveError::IndexOutOfRange);
    assert_eq!(table.channel_ids(2), vec![20]);
}

#[test]
fn removal_hands_back_the_reminder() {
    let mut table = ReminderTable::new();
    table.add(1, 10, reminder(9, 0, "a"));
    table.add(1, 10, reminder(9, 5, "b"));
    let removed = table.remove(1, 10, 1).unwrap();
    assert_eq!(removed.message, "a");
    assert_eq!(table.reminders(1, 10).unwrap()[0].message, "b");
    assert_eq!(table.remove(1, 10, 2).unwrap_err(), RemoveError::IndexOutOfRange);
    assert_eq!(table.remove(1, 12, 1).unwrap_err(), RemoveError::ChannelNotFound);
    assert_eq!(table.remove(3, 10, 1).unwrap_err(), RemoveError::GuildNotFound);
    assert_eq!(table.remove(1, 10, 1).unwrap().message, "b");
    assert!(table.is_empty());
}

#[test]
fn a_scan_stamps_what_it_takes() {
    let mut table = ReminderTable::new();
    table.add(1, 10, reminder(9, 0, "due"));
    table.add(1, 10, reminder(12, 0, "later"));
    let taken = table.take_due(&wednesday(8, 45));
    assert_eq!(taken.len(), 1);
    assert_eq!(taken[0].channel, 10);
    assert_eq!(taken[0].reminder.message, "due");
    assert_eq!(taken[0].reminder.last_executed, Some(Date { day_number: 739_909 }));
    let list = table.reminders(1, 10).unwrap();
    assert_eq!(list[0].last_executed, Some(Date { day_number: 739_909 }));
    assert_eq!(list[1].last_executed, None);
    assert!(table.take_due(&wednesday(8, 45)).is_empty());
    assert!(table.take_due(&wednesday(8, 50)).is_empty());
    assert_eq!(table.take_due(&wednesday(11, 45)).len(), 1);
}

#[test]
fn a_scan_of_an_empty_table_takes_nothing() {
    let mut table = ReminderTable::new();
    assert!(table.take_due(&wednesday(8, 45)).is_empty());
    assert!(table.is_empty());
}

#[test]
fn keys_come_out_once_each() {
    let mut map: HashMap<u64, &str> = HashMap::new();
    for key in [5u64, 3, 9, 3, 5, 1] {
        map.insert(key, "x");
    }
    let mut keys = keys_of(&map);
    keys.sort();
    assert_eq!(keys, vec![1, 3, 5, 9]);
    assert!(keys_of(&HashMap::<u64, u8>::new()).is_empty());
}
