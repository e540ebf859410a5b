//! The command that lists a guild's reminders.

use crate::clock::{TimeOfDay, Weekday};
use crate::reminder::{Reminder, ReminderView};
use crate::table::{channels_at, list_view, ReminderTable, TableView};
use crate::text::{digit_char, natural_string, natural_text};
use vstd::prelude::*;
use vstd::string::*;

verus! {

/// `n`, below a hundred, in two decimal digits.
pub open spec fn two_digits(n: nat) -> Seq<char> {
    seq![digit_char(n / 10), digit_char(n % 10)]
}

/// The time `seconds` after midnight as `HH:MM:SS`.
pub open spec fn time_text(seconds: nat) -> Seq<char> {
    two_digits(seconds / 3600) + seq![':'] + two_digits(seconds / 60 % 60) + seq![':']
        + two_digits(seconds % 60)
}

/// The names of `days`, separated by a comma and a space.
pub open spec fn day_names(days: Seq<Weekday>) -> Seq<char>
    decreases days.len(),
{
    if days.len() == 0 {
        Seq::empty()
    } else if days.len() == 1 {
        days[0].name_text()
    } else {
        day_names(days.drop_last()) + ", "@ + days.last().name_text()
    }
}

/// The line of the reminder with the one-based number `index` in its list.
pub open spec fn reminder_line(index: nat, reminder: ReminderView) -> Seq<char> {
    natural_text(index) + ". 週期: ["@ + day_names(reminder.weekdays) + "], 時間: "@ + time_text(
        reminder.time,
    ) + ", 訊息: "@ + reminder.message + "\n"@
}

/// The lines of the first `count` reminders of `list`, numbered from 1 as
/// the removal of a reminder numbers them.
pub open spec fn reminder_lines(list: Seq<ReminderView>, count: nat) -> Seq<char>
    decreases count,
{
    if count == 0 {
        Seq::empty()
    } else {
        reminder_lines(list, (count - 1) as nat) + reminder_line(count, list[count - 1])
    }
}

/// The block that lists the reminders of `channel`: a heading, which marks
/// the channel in which the command was given, then one line for each
/// reminder or a note that there is none, then an empty line.
pub open spec fn channel_block(channel: u64, list: Seq<ReminderView>, current: bool) -> Seq<char> {
    "V 頻道 ID: "@ + natural_text(channel as nat) + (if current {
        " (當前頻道) V\n"@
    } else {
        " V\n"@
    }) + (if list.len() == 0 {
        ">> 尚未新增提醒\n"@
    } else {
        reminder_lines(list, list.len())
    }) + "\n"@
}

/// The blocks of the channels that `order` names, but for `current`.
pub open spec fn other_blocks(
    channels: Map<u64, Seq<ReminderView>>,
    current: u64,
    order: Seq<u64>,
) -> Seq<char>
    decreases order.len(),
{
    if order.len() == 0 {
        Seq::empty()
    } else {
        other_blocks(channels, current, order.drop_last()) + (if order.last() != current {
            channel_block(order.last(), channels[order.last()], false)
        } else {
            Seq::empty()
        })
    }
}

/// The listing of the reminders of `guild`, asked for in `channel`: the
/// block of `channel` first, or a note that it has no reminders, and then
/// the blocks of the guild's other channels in `order`. For a guild that is
/// not in the table, a note.
pub open spec fn listing(table: TableView, guild: u64, channel: u64, order: Seq<u64>) -> Seq<char> {
    if !table.contains_key(guild) {
        ">> 該群組尚未新增提醒\n"@
    } else {
        (if table[guild].contains_key(channel) {
            channel_block(channel, table[guild][channel], true)
        } else {
            ">> 當前頻道尚未新增提醒\n\n"@
        }) + other_blocks(table[guild], channel, order)
    }
}

/// Writes `n`, below a hundred, in two digits at the end of `text`.
fn push_two_digits(text: &mut String, n: u32)
    requires
        n < 100,
    ensures
        final(text)@ == old(text)@ + two_digits(n as nat),
{
    let tens = natural_string((n / 10) as u64);
    let ones = natural_string((n % 10) as u64);
    text.append(tens.as_str());
    text.append(ones.as_str());
    assert(text@ =~= old(text)@ + two_digits(n as nat));
}

/// Writes `time` as `HH:MM:SS`.
pub fn time_string(time: TimeOfDay) -> (text: String)
    ensures
        text@ == time_text(time@),
{
    let seconds = time.seconds();
    proof {
        reveal_strlit(":");
    }
    let mut text = String::new();
    push_two_digits(&mut text, seconds / 3600);
    text.append(":");
    push_two_digits(&mut text, seconds / 60 % 60);
    text.append(":");
    push_two_digits(&mut text, seconds % 60);
    assert(text@ =~= time_text(time@));
    text
}

/// Writes the names of `days`, separated by a comma and a space.
pub fn day_names_string(days: &Vec<Weekday>) -> (text: String)
    ensures
        text@ == day_names(days@),
{
    let mut text = String::new();
    let mut i: usize = 0;
    while i < days.len()
        invariant
            i <= days.len(),
            text@ == day_names(days@.subrange(0, i as int)),
        decreases days.len() - i,
    {
        let ghost seen = days@.subrange(0, i as int);
        let ghost longer = days@.subrange(0, i + 1);
        assert(longer.drop_last() == seen);
        if i > 0 {
            text.append(", ");
        }
        text.append(days[i].name());
        assert(text@ =~= day_names(longer));
        i += 1;
    }
    assert(days@.subrange(0, days.len() as int) == days@);
    text
}

/// Writes the line of `reminder`, which has the number `index` in its list.
fn push_reminder_line(text: &mut String, index: usize, reminder: &Reminder)
    ensures
        final(text)@ == old(text)@ + reminder_line(index as nat, reminder@),
{
    text.append(natural_string(index as u64).as_str());
    text.append(". 週期: [");
    text.append(day_names_string(&reminder.weekdays).as_str());
    text.append("], 時間: ");
    text.append(time_string(reminder.time).as_str());
    text.append(", 訊息: ");
    text.append(reminder.message.as_str());
    text.append("\n");
    assert(text@ =~= old(text)@ + reminder_line(index as nat, reminder@));
}

/// Writes the block of `channel` at the end of `text`.
fn push_channel_block(text: &mut String, channel: u64, list: &Vec<Reminder>, current: bool)
    ensures
        final(text)@ == old(text)@ + channel_block(channel, list_view(list@), current),
{
    let ghost lines = list_view(list@);
    text.append("V 頻道 ID: ");
    text.append(natural_string(channel).as_str());
    if current {
        text.append(" (當前頻道) V\n");
    } else {
        text.append(" V\n");
    }
    let ghost head = text@;
    if list.is_empty() {
        text.append(">> 尚未新增提醒\n");
    } else {
        let mut i: usize = 0;
        assert(text@ =~= head + reminder_lines(lines, 0));
        while i < list.len()
            invariant
                i <= list.len(),
                lines == list_view(list@),
                text@ == head + reminder_lines(lines, i as nat),
            decreases list.len() - i,
        {
            push_reminder_line(text, i + 1, &list[i]);
            assert(text@ =~= head + reminder_lines(lines, (i + 1) as nat));
            i += 1;
        }
    }
    text.append("\n");
    assert(text@ =~= old(text)@ + channel_block(channel, lines, current));
}

/// Lists the reminders of `guild` for a user who asks in `channel`. The
/// guild's other channels follow in the order in which the table hands them
/// out.
pub fn format_reminders(table: &ReminderTable, guild: u64, channel: u64) -> (text: String)
    ensures
        exists|order: Seq<u64>|
            {
                &&& order.no_duplicates()
                &&& order.to_set() == channels_at(table@, guild).dom()
                &&& text@ == #[trigger] listing(table@, guild, channel, order)
            },
{
    let ids = table.channel_ids(guild);
    if !table.has_guild(guild) {
        let text = String::from_str(">> 該群組尚未新增提醒\n");
        assert(text@ == listing(table@, guild, channel, ids@));
        return text;
    }
    let mut text = String::new();
    match table.list(guild, channel) {
        Some(list) => {
            push_channel_block(&mut text, channel, list, true);
        },
        None => {
            text.append(">> 當前頻道尚未新增提醒\n\n");
        },
    }
    let ghost head = text@;
    let mut i: usize = 0;
    assert(ids@.subrange(0, 0) =~= Seq::<u64>::empty());
    assert(text@ =~= head + other_blocks(table@[guild], channel, ids@.subrange(0, 0)));
    while i < ids.len()
        invariant
            i <= ids.len(),
            table@.contains_key(guild),
            ids@.to_set() == table@[guild].dom(),
            text@ == head + other_blocks(table@[guild], channel, ids@.subrange(0, i as int)),
        decreases ids.len() - i,
    {
        let ghost longer = ids@.subrange(0, i + 1);
        assert(longer.drop_last() == ids@.subrange(0, i as int));
        assert(ids@.contains(ids@[i as int]));
        if ids[i] != channel {
            match table.list(guild, ids[i]) {
                Some(list) => {
                    push_channel_block(&mut text, ids[i], list, false);
                },
                None => {},
            }
        }
        assert(text@ =~= head + other_blocks(table@[guild], channel, longer));
        i += 1;
    }
    assert(ids@.subrange(0, ids.len() as int) == ids@);
    assert(text@ =~= listing(table@, guild, channel, ids@));
    text
}

} // verus!
