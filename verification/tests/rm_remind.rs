use reminder_bot::commands::remind;
use reminder_bot::commands::rm_remind::{refusal, run, target_channel};
use reminder_bot::table::{ReminderTable, RemoveError};

const G: u64 = 7;
const C: u64 = 70;

fn table_of(messages: &[&str]) -> ReminderTable {
    let mut table = ReminderTable::new();
    for message in messages {
        assert!(remind::run(&mut table, "1", "09:00", message, G, C).is_ok());
    }
    table
}

fn messages(table: &ReminderTable, guild: u64, channel: u64) -> Vec<String> {
    table.reminders(guild, channel).unwrap().into_iter().map(|r| r.message).collect()
}

#[test]
fn second_of_three_is_removed() {
    let mut table = table_of(&["one", "two", "three"]);
    assert_eq!(run(&mut table, 2, None, G, C), Ok(">> 提醒索引 '2' 已移除".to_string()));
    assert_eq!(messages(&table, G, C), vec!["one", "three"]);
}

#[test]
fn removal_takes_exactly_the_numbered_entry() {
    for index in 1..=4i64 {
        let mut table = table_of(&["a", "b", "c", "d"]);
        assert!(run(&mut table, index, None, G, C).is_ok());
        let mut expected = vec!["a", "b", "c", "d"];
        expected.remove(index as usize - 1);
        assert_eq!(messages(&table, G, C), expected);
    }
}

#[test]
fn numbers_outside_the_list_are_refused() {
    for index in [0i64, -1, 4, 5, i64::MAX, i64::MIN] {
        let mut table = table_of(&["one", "two", "three"]);
        assert_eq!(run(&mut table, index, None, G, C), Err(RemoveError::IndexOutOfRange));
        assert_eq!(messages(&table, G, C), vec!["one", "two", "three"]);
    }
}

#[test]
fn unknown_guild_and_channel_are_told_apart() {
    let mut table = table_of(&["one"]);
    assert_eq!(run(&mut table, 1, None, G + 1, C), Err(RemoveError::GuildNotFound));
    assert_eq!(run(&mut table, 1, None, G, C + 1), Err(RemoveError::ChannelNotFound));
    assert_eq!(messages(&table, G, C), vec!["one"]);
    let mut empty = ReminderTable::new();
    assert_eq!(run(&mut empty, 1, None, G, C), Err(RemoveError::GuildNotFound));
}

#[test]
fn last_reminder_takes_its_channel_along() {
    let mut table = table_of(&["one"]);
    assert!(remind::run(&mut table, "2", "10:00", "other", G, C + 1).is_ok());
    assert!(run(&mut table, 1, None, G, C).is_ok());
    assert_eq!(table.channel_ids(G), vec![C + 1]);
    assert!(table.reminders(G, C).is_none());
    assert_eq!(run(&mut table, 1, None, G, C), Err(RemoveError::ChannelNotFound));
}

#[test]
fn last_channel_takes_its_guild_along() {
    let mut table = table_of(&["one"]);
    assert!(remind::run(&mut table, "2", "10:00", "other", G + 1, C).is_ok());
    assert!(run(&mut table, 1, None, G, C).is_ok());
    assert_eq!(table.guild_ids(), vec![G + 1]);
    assert!(table.channel_ids(G).is_empty());
    assert!(run(&mut table, 1, None, G + 1, C).is_ok());
    assert!(table.is_empty());
    assert!(table.guild_ids().is_empty());
}

#[test]
fn a_written_channel_is_used() {
    let mut table = table_of(&["here"]);
    assert!(remind::run(&mut table, "2", "10:00", "there", G, 71).is_ok());
    assert!(run(&mut table, 1, Some("71"), G, C).is_ok());
    assert_eq!(messages(&table, G, C), vec!["here"]);
    assert!(table.reminders(G, 71).is_none());
}

#[test]
fn the_channel_falls_back_to_the_current_one() {
    assert_eq!(target_channel(None, C), C);
    assert_eq!(target_channel(Some("71"), C), 71);
    assert_eq!(target_channel(Some("+71"), C), 71);
    assert_eq!(target_channel(Some("18446744073709551615"), C), u64::MAX);
    assert_eq!(target_channel(Some("18446744073709551616"), C), C);
    assert_eq!(target_channel(Some(""), C), C);
    assert_eq!(target_channel(Some(" 71"), C), C);
    assert_eq!(target_channel(Some("<#71>"), C), C);
}

#[test]
fn refusals_name_the_reason() {
    assert_eq!(refusal(RemoveError::GuildNotFound, 3), ">> 該公會沒有設置任何提醒");
    assert_eq!(refusal(RemoveError::ChannelNotFound, 3), ">> 該頻道沒有設置任何提醒");
    assert_eq!(refusal(RemoveError::IndexOutOfRange, 3), ">> 索引 '3' 無效");
    assert_eq!(refusal(RemoveError::IndexOutOfRange, 0), ">> 索引 '0' 無效");
    assert_eq!(refusal(RemoveError::IndexOutOfRange, -12), ">> 索引 '-12' 無效");
}
