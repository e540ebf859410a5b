//! The command that removes a reminder.

use crate::table::{with_removed, ReminderTable, RemoveError};
use crate::text::{decimal_up_to, integer_string, integer_text, read_u64};
use vstd::prelude::*;
use vstd::string::*;

verus! {

/// The channel that the command is about: the one that `written` names in
/// decimal digits, and `current` where nothing is written or what is written
/// is no 64-bit number.
pub open spec fn chosen_channel(written: Option<Seq<char>>, current: u64) -> u64 {
    match written {
        Some(text) => match decimal_up_to(text, u64::MAX as nat) {
            Some(id) => id as u64,
            None => current,
        },
        None => current,
    }
}

/// The channel that the command is about.
pub fn target_channel(written: Option<&str>, current: u64) -> (channel: u64)
    ensures
        channel == chosen_channel(
            match written {
                Some(text) => Some(text@),
                None => None,
            },
            current,
        ),
{
    match written {
        Some(text) => match read_u64(text) {
            Some(id) => id,
            None => current,
        },
        None => current,
    }
}

/// The reply to a removal of entry `index` that was carried out.
pub open spec fn removed_reply(index: int) -> Seq<char> {
    ">> 提醒索引 '"@ + integer_text(index) + "' 已移除"@
}

/// The reply to a removal of entry `index` that failed with `error`.
pub open spec fn refused_reply(error: RemoveError, index: int) -> Seq<char> {
    match error {
        RemoveError::GuildNotFound => ">> 該公會沒有設置任何提醒"@,
        RemoveError::ChannelNotFound => ">> 該頻道沒有設置任何提醒"@,
        RemoveError::IndexOutOfRange => ">> 索引 '"@ + integer_text(index) + "' 無效"@,
    }
}

/// The reply that tells the user why entry `index` was not removed.
pub fn refusal(error: RemoveError, index: i64) -> (reply: String)
    ensures
        reply@ == refused_reply(error, index as int),
{
    match error {
        RemoveError::GuildNotFound => String::from_str(">> 該公會沒有設置任何提醒"),
        RemoveError::ChannelNotFound => String::from_str(">> 該頻道沒有設置任何提醒"),
        RemoveError::IndexOutOfRange => {
            let mut reply = String::from_str(">> 索引 '");
            reply.append(integer_string(index).as_str());
            reply.append("' 無效");
            reply
        },
    }
}

/// Removes the reminder with the one-based number `index` from a channel of
/// `guild`: from the channel that `channel_id` names, or from `channel` where
/// it names none. On success the reply confirms the removal; on failure the
/// table is as it was.
pub fn run(
    table: &mut ReminderTable,
    index: i64,
    channel_id: Option<&str>,
    guild: u64,
    channel: u64,
) -> (outcome: Result<String, RemoveError>)
    ensures
        ({
            let target = chosen_channel(
                match channel_id {
                    Some(text) => Some(text@),
                    None => None,
                },
                channel,
            );
            let before = old(table)@;
            match outcome {
                Ok(reply) => {
                    &&& before.contains_key(guild)
                    &&& before[guild].contains_key(target)
                    &&& 1 <= index <= before[guild][target].len()
                    &&& final(table)@ == with_removed(before, guild, target, index - 1)
                    &&& reply@ == removed_reply(index as int)
                },
                Err(RemoveError::GuildNotFound) => {
                    &&& !before.contains_key(guild)
                    &&& final(table)@ == before
                },
                Err(RemoveError::ChannelNotFound) => {
                    &&& before.contains_key(guild)
                    &&& !before[guild].contains_key(target)
                    &&& final(table)@ == before
                },
                Err(RemoveError::IndexOutOfRange) => {
                    &&& before.contains_key(guild)
                    &&& before[guild].contains_key(target)
                    &&& !(1 <= index <= before[guild][target].len())
                    &&& final(table)@ == before
                },
            }
        }),
{
    let target = target_channel(channel_id, channel);
    match table.remove(guild, target, index) {
        Ok(_) => {
            let mut reply = String::from_str(">> 提醒索引 '");
            reply.append(integer_string(index).as_str());
            reply.append("' 已移除");
            Ok(reply)
        },
        Err(error) => Err(error),
    }
}

} // verus!
