//! The command that sets a weekly reminder.

use crate::clock::{clock_time_read, TimeOfDay, Weekday};
use crate::reminder::{Reminder, ReminderView};
use crate::table::{with_added, ReminderTable};
use crate::text::{
    chars_of, decimal_up_to, lemma_split_keeps_closed, parse_decimal, split_on, trim_bounds,
    trimmed,
};
use vstd::prelude::*;
use vstd::string::*;

verus! {

/// Why a reminder could not be set.
#[derive(Clone, Copy, Debug, PartialEq, Eq, Structural)]
pub enum ValidationError {
    /// The weekdays are no list of numbers from 1 to 7.
    Weekdays,
    /// The time is no time of day.
    Time,
}

impl ValidationError {
    /// The reply that tells the user what was expected.
    pub fn message(&self) -> (text: String)
        ensures
            text@ == match *self {
                ValidationError::Weekdays => ">> 錯誤的日期格式：ex. 1,2,3"@,
                ValidationError::Time => ">> 錯誤的時間格式(24小時制)：ex. 01:24 or 23:34"@,
            },
    {
        match self {
            ValidationError::Weekdays => String::from_str(">> 錯誤的日期格式：ex. 1,2,3"),
            ValidationError::Time => String::from_str(
                ">> 錯誤的時間格式(24小時制)：ex. 01:24 or 23:34",
            ),
        }
    }
}

/// The weekday that one piece of the list names: a number from 1 to 7, with
/// white space around it allowed.
pub open spec fn weekday_token(token: Seq<char>) -> Option<Weekday> {
    match decimal_up_to(trimmed(token), 7) {
        Some(number) => Weekday::of_number(number as int),
        None => None,
    }
}

/// The weekdays that `text` lists, separated by commas: 1 for Monday to 7
/// for Sunday. `None` where a piece between two commas is no number from 1
/// to 7; the empty text is one such piece.
pub open spec fn weekday_list(text: Seq<char>) -> Option<Seq<Weekday>> {
    let tokens = split_on(text, ',');
    if forall|k: int| 0 <= k < tokens.len() ==> (#[trigger] weekday_token(tokens[k])) is Some {
        Some(Seq::new(tokens.len(), |k: int| weekday_token(tokens[k])->0))
    } else {
        None
    }
}

/// Reads `chars[from..to]` as one piece of a list of weekdays.
fn read_weekday(chars: &Vec<char>, from: usize, to: usize) -> (day: Option<Weekday>)
    requires
        from <= to <= chars.len(),
    ensures
        day == weekday_token(chars@.subrange(from as int, to as int)),
{
    let bounds = trim_bounds(chars, from, to);
    match parse_decimal(chars, bounds.0, bounds.1, 7) {
        Some(number) => Weekday::from_number(number as u32),
        None => None,
    }
}

/// Reads a list of weekdays.
pub fn parse_weekdays(text: &str) -> (days: Option<Vec<Weekday>>)
    ensures
        days is Some <==> weekday_list(text@) is Some,
        days matches Some(list) ==> weekday_list(text@) == Some(list@),
{
    let chars = chars_of(text);
    let n = chars.len();
    let mut days: Vec<Weekday> = Vec::new();
    let mut start: usize = 0;
    let mut i: usize = 0;
    let ghost mut closed: Seq<Seq<char>> = Seq::empty();
    assert(chars@.subrange(0, 0) =~= Seq::<char>::empty());
    assert(split_on(chars@.subrange(0, 0), ',') =~= closed.push(chars@.subrange(0, 0)));
    while i < n
        invariant
            chars@ == text@,
            n == chars.len(),
            start <= i <= n,
            split_on(chars@.subrange(0, i as int), ',') == closed.push(
                chars@.subrange(start as int, i as int),
            ),
            days@.len() == closed.len(),
            forall|k: int| 0 <= k < closed.len() ==> weekday_token(closed[k]) == Some(days@[k]),
        decreases n - i,
    {
        let ghost piece = chars@.subrange(start as int, i as int);
        let ghost read = chars@.subrange(0, i + 1);
        assert(read.drop_last() == chars@.subrange(0, i as int));
        assert(closed.push(piece).drop_last() == closed);
        if chars[i] == ',' {
            assert(split_on(read, ',') == closed.push(piece).push(Seq::<char>::empty()));
            match read_weekday(&chars, start, i) {
                None => {
                    proof {
                        lemma_split_keeps_closed(chars@, ',', i + 1, n as int);
                        assert(chars@.subrange(0, n as int) == chars@);
                        let tokens = split_on(chars@, ',');
                        let count = closed.len() as int;
                        assert(tokens.subrange(0, count + 1) == closed.push(piece));
                        assert(tokens[count] == tokens.subrange(0, count + 1)[count]);
                        assert(weekday_token(tokens[closed.len() as int]) is None);
                    }
                    return None;
                },
                Some(day) => {
                    days.push(day);
                    proof {
                        closed = closed.push(piece);
                    }
                    start = i + 1;
                    assert(chars@.subrange(start as int, i + 1) =~= Seq::<char>::empty());
                },
            }
        } else {
            assert(piece.push(chars@[i as int]) == chars@.subrange(start as int, i + 1));
        }
        i += 1;
    }
    assert(chars@.subrange(0, n as int) == chars@);
    let ghost last = chars@.subrange(start as int, n as int);
    let ghost tokens = split_on(chars@, ',');
    assert(tokens == closed.push(last));
    match read_weekday(&chars, start, n) {
        None => {
            assert(weekday_token(tokens[closed.len() as int]) is None);
            None
        },
        Some(day) => {
            days.push(day);
            assert forall|k: int| 0 <= k < tokens.len() implies (#[trigger] weekday_token(
                tokens[k],
            )) is Some by {
                if k < closed.len() {
                    assert(tokens[k] == closed[k]);
                }
            }
            assert(days@ =~= Seq::new(tokens.len(), |k: int| weekday_token(tokens[k])->0));
            Some(days)
        },
    }
}

/// Reads the time of a reminder: `HH:MM` on a 24-hour clock, as chrono reads
/// its format `%H:%M`, with white space around it allowed.
pub fn parse_time(text: &str) -> (time: Option<TimeOfDay>)
    ensures
        time is Some <==> clock_time_read(trimmed(text@), "%H:%M"@) is Some,
        time matches Some(t) ==> t@ == clock_time_read(trimmed(text@), "%H:%M"@)->0,
{
    let chars = chars_of(text);
    let bounds = trim_bounds(&chars, 0, chars.len());
    assert(chars@.subrange(0, chars.len() as int) == text@);
    let piece = text.substring_char(bounds.0, bounds.1);
    TimeOfDay::parse(piece, "%H:%M")
}

/// Sets a weekly reminder for `channel` in `guild`, given the list of
/// weekdays as the user wrote it and the time as it was read. On success the
/// new reminder stands at the end of the channel's list and the reply
/// confirms it; on failure the table is as it was.
pub fn add_weekly(
    table: &mut ReminderTable,
    weekdays: &str,
    time: Option<TimeOfDay>,
    message: &str,
    guild: u64,
    channel: u64,
) -> (outcome: Result<String, ValidationError>)
    ensures
        match outcome {
            Ok(reply) => {
                &&& weekday_list(weekdays@) is Some
                &&& time is Some
                &&& final(table)@ == with_added(
                    old(table)@,
                    guild,
                    channel,
                    ReminderView {
                        weekdays: weekday_list(weekdays@)->0,
                        time: time->0@,
                        message: message@,
                        last_executed: None,
                    },
                )
                &&& reply@ == ">> 已設定每週提醒"@
            },
            Err(ValidationError::Weekdays) => {
                &&& weekday_list(weekdays@) is None
                &&& final(table)@ == old(table)@
            },
            Err(ValidationError::Time) => {
                &&& weekday_list(weekdays@) is Some
                &&& time is None
                &&& final(table)@ == old(table)@
            },
        },
{
    let days = match parse_weekdays(weekdays) {
        Some(days) => days,
        None => {
            return Err(ValidationError::Weekdays);
        },
    };
    let time = match time {
        Some(time) => time,
        None => {
            return Err(ValidationError::Time);
        },
    };
    table.add(guild, channel, Reminder::new(days, time, String::from_str(message)));
    Ok(String::from_str(">> 已設定每週提醒"))
}

/// Sets a weekly reminder for `channel` in `guild` from the command's three
/// texts.
pub fn run(
    table: &mut ReminderTable,
    weekdays: &str,
    time: &str,
    message: &str,
    guild: u64,
    channel: u64,
) -> (outcome: Result<String, ValidationError>)
    ensures
        match outcome {
            Ok(reply) => {
                &&& weekday_list(weekdays@) is Some
                &&& clock_time_read(trimmed(time@), "%H:%M"@) is Some
                &&& final(table)@ == with_added(
                    old(table)@,
                    guild,
                    channel,
                    ReminderView {
                        weekdays: weekday_list(weekdays@)->0,
                        time: clock_time_read(trimmed(time@), "%H:%M"@)->0 as nat,
                        message: message@,
                        last_executed: None,
                    },
                )
                &&& reply@ == ">> 已設定每週提醒"@
            },
            Err(ValidationError::Weekdays) => {
                &&& weekday_list(weekdays@) is None
                &&& final(table)@ == old(table)@
            },
            Err(ValidationError::Time) => {
                &&& weekday_list(weekdays@) is Some
                &&& clock_time_read(trimmed(time@), "%H:%M"@) is None
                &&& final(table)@ == old(table)@
            },
        },
{
    let read = parse_time(time);
    add_weekly(table, weekdays, read, message, guild, channel)
}

} // verus!
