use chrono::{Datelike, NaiveDate, NaiveTime, Timelike};
use reminder_bot::clock::{Date, TimeOfDay, Weekday};
use reminder_bot::commands::remind;
use reminder_bot::reminder::Reminder;
use reminder_bot::table::ReminderTable;
use serde_json::Value;

fn encode(table: &ReminderTable) -> String {
    let mut guilds = serde_json::Map::new();
    for guild in table.guild_ids() {
        let mut channels = serde_json::Map::new();
        for channel in table.channel_ids(guild) {
            let list = table.list(guild, channel).unwrap();
            let mut entries = Vec::new();
            for reminder in list {
                let mut entry = serde_json::Map::new();
                let days = reminder.weekdays.iter().map(|day| Value::String(day.name().to_string()));
                entry.insert("weekdays".to_string(), Value::Array(days.collect()));
                let time =
                    NaiveTime::from_num_seconds_from_midnight_opt(reminder.time.seconds(), 0).unwrap();
                entry.insert("time".to_string(), Value::String(time.to_string()));
                entry.insert("message".to_string(), Value::String(reminder.message.clone()));
                let stamp = match reminder.last_executed {
                    Some(date) => Value::String(
                        NaiveDate::from_num_days_from_ce_opt(date.day_number).unwrap().to_string(),
                    ),
                    None => Value::Null,
                };
                entry.insert("last_executed".to_string(), stamp);
                entries.push(Value::Object(entry));
            }
            channels.insert(channel.to_string(), Value::Array(entries));
        }
        guilds.insert(guild.to_string(), Value::Object(channels));
    }
    serde_json::to_string(&Value::Object(guilds)).unwrap()
}

fn weekday(name: &str) -> Weekday {
    let all = [
        Weekday::Mon,
        Weekday::Tue,
        Weekday::Wed,
        Weekday::Thu,
        Weekday::Fri,
        Weekday::Sat,
        Weekday::Sun,
    ];
    *all.iter().find(|day| day.name() == name).unwrap()
}

fn decode(text: &str) -> ReminderTable {
    let document: Value = serde_json::from_str(text).unwrap();
    let mut table = ReminderTable::new();
    for (guild, channels) in document.as_object().unwrap() {
        for (channel, entries) in channels.as_object().unwrap() {
            let mut list = Vec::new();
            for entry in entries.as_array().unwrap() {
                let days = entry["weekdays"].as_array().unwrap();
                let time: NaiveTime = entry["time"].as_str().unwrap().parse().unwrap();
                let mut reminder = Reminder::new(
                    days.iter().map(|day| weekday(day.as_str().unwrap())).collect(),
                    TimeOfDay::from_seconds(time.num_seconds_from_midnight()).unwrap(),
                    entry["message"].as_str().unwrap().to_string(),
                );
                reminder.last_executed = entry["last_executed"].as_str().map(|date| Date {
                    day_number: date.parse::<NaiveDate>().unwrap().num_days_from_ce(),
                });
                list.push(reminder);
            }
            table.set_list(guild.parse().unwrap(), channel.parse().unwrap(), list);
        }
    }
    table
}

fn fields(table: &ReminderTable) -> Vec<(u64, u64, Vec<(Vec<Weekday>, u32, String, Option<i32>)>)> {
    let mut all = Vec::new();
    let mut guilds = table.guild_ids();
    guilds.sort();
    for guild in guilds {
        let mut channels = table.channel_ids(guild);
        channels.sort();
        for channel in channels {
            let list = table.reminders(guild, channel).unwrap();
            let list = list
                .into_iter()
                .map(|r| {
                    (r.weekdays, r.time.seconds(), r.message, r.last_executed.map(|d| d.day_number))
                })
                .collect();
            all.push((guild, channel, list));
        }
    }
    all
}

#[test]
fn a_saved_reminder_is_read_back() {
    let mut table = ReminderTable::new();
    assert!(remind::run(&mut table, "1,3,5", "09:00", "standup", 5, 50).is_ok());
    let saved = encode(&table);
    assert_eq!(
        saved,
        "{\"5\":{\"50\":[{\"last_executed\":null,\"message\":\"standup\",\
         \"time\":\"09:00:00\",\"weekdays\":[\"Mon\",\"Wed\",\"Fri\"]}]}}"
    );
    let loaded = decode(&saved);
    assert_eq!(
        fields(&loaded),
        vec![(
            5,
            50,
            vec![(
                vec![Weekday::Mon, Weekday::Wed, Weekday::Fri],
                32_400,
                "standup".to_string(),
                None
            )]
        )]
    );
}

#[test]
fn a_saved_table_is_read_back_as_it_was() {
    let mut table = ReminderTable::new();
    assert!(remind::run(&mut table, "1", "08:50", "first \"quoted\"\n", 5, 50).is_ok());
    assert!(remind::run(&mut table, "6,7", "23:59", "提醒", 5, 50).is_ok());
    assert!(remind::run(&mut table, "2", "00:00", "", 5, 51).is_ok());
    assert!(remind::run(&mut table, "4", "12:30", "other guild", u64::MAX, 1).is_ok());
    let mut stamped = Reminder::new(
        vec![Weekday::Thu],
        TimeOfDay::from_hms(7, 8, 9).unwrap(),
        "stamped".to_string(),
    );
    stamped.last_executed = Some(Date { day_number: 739_907 });
    table.add(5, 50, stamped);
    let loaded = decode(&encode(&table));
    assert_eq!(fields(&loaded), fields(&table));
    assert_eq!(fields(&loaded).len(), 3);
    assert_eq!(encode(&loaded).len(), encode(&table).len());
    assert!(fields(&decode(&encode(&ReminderTable::new()))).is_empty());
}
