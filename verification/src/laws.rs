//! What holds of the table and the schedule whatever their contents.

use crate::clock::Moment;
use crate::commands::remind::{weekday_list, weekday_token};
use crate::reminder::{PendingView, ReminderView};
use crate::schedule::{
    after_one_second_pass, after_one_second_run, after_scan, after_two_minute_pass,
    deliveries_of, delivery_of, distant, fired, fired_in_run, imminent, silent, striking,
    struck_in_run, StoreView,
};
use crate::sequences::{lemma_filter_drops, lemma_filter_splits};
use crate::table::{
    enumerates, list_at, scanned_list, taken_from, taken_in_order, with_added, with_removed,
    TableView,
};
use crate::text::{decimal_up_to, lemma_split_nonempty, split_on, trimmed};
use vstd::prelude::*;
use vstd::seq_lib::lemma_multiset_commutative;

verus! {

/// A list of weekdays that a command accepts names at least one weekday.
pub proof fn law_accepted_weekdays_are_not_empty(text: Seq<char>)
    ensures
        weekday_list(text) matches Some(days) ==> days.len() >= 1,
{
    lemma_split_nonempty(text, ',');
}

/// A piece of a list of weekdays names a weekday only where it writes a
/// number from 1 to 7, and a list with any other piece is refused.
pub proof fn law_weekday_numbers_run_from_1_to_7(text: Seq<char>, k: int)
    requires
        0 <= k < split_on(text, ',').len(),
    ensures
        weekday_token(split_on(text, ',')[k]) is Some <==> (decimal_up_to(
            trimmed(split_on(text, ',')[k]),
            u64::MAX as nat,
        ) matches Some(number) && 1 <= number <= 7),
        weekday_token(split_on(text, ',')[k]) is None ==> weekday_list(text) is None,
{
}

/// A reminder without weekdays is never due.
pub proof fn law_no_weekdays_never_due(reminder: ReminderView, now: Moment)
    requires
        reminder.weekdays.len() == 0,
    ensures
        !reminder.due(now),
{
}

/// A reminder that was taken up today is not due again today: a scan stamps
/// what it takes, and no scan on the stamp's day takes a stamped reminder.
pub proof fn law_taken_once_a_day(reminder: ReminderView, first: Moment, second: Moment)
    requires
        second.date == first.date,
    ensures
        reminder.last_executed == Some(first.date) ==> !reminder.due(first),
        reminder.due(first) ==> !reminder.scanned(first).due(second),
{
}

/// A scan takes nothing from a list whose reminders all carry today's stamp,
/// and leaves the list as it is.
pub proof fn law_stamped_list_is_passed_over(list: Seq<ReminderView>, channel: u64, now: Moment)
    requires
        forall|i: int| 0 <= i < list.len() ==> list[i].last_executed == Some(now.date),
    ensures
        taken_from(list, channel, now) == Seq::<PendingView>::empty(),
        scanned_list(list, now) == list,
    decreases list.len(),
{
    if list.len() > 0 {
        law_stamped_list_is_passed_over(list.drop_last(), channel, now);
    }
    assert(scanned_list(list, now) =~= list);
}

/// After a scan, a second scan on the same day takes from a list only what
/// the first scan left alone: no reminder is taken twice in a day.
pub proof fn law_second_scan_takes_the_rest(
    list: Seq<ReminderView>,
    channel: u64,
    first: Moment,
    second: Moment,
)
    requires
        second.date == first.date,
    ensures
        taken_from(scanned_list(list, first), channel, second) == taken_from(
            list.filter(|reminder: ReminderView| !reminder.due(first)),
            channel,
            second,
        ),
    decreases list.len(),
{
    reveal(Seq::filter);
    let left_alone = |reminder: ReminderView| !reminder.due(first);
    if list.len() > 0 {
        let shorter = list.drop_last();
        law_second_scan_takes_the_rest(shorter, channel, first, second);
        assert(scanned_list(list, first).drop_last() =~= scanned_list(shorter, first));
        if !list.last().due(first) {
            assert(list.filter(left_alone).drop_last() =~= shorter.filter(left_alone));
        }
    } else {
        assert(scanned_list(list, first) =~= list);
    }
}

/// What a scan takes from a list carries the day's stamp and the list's
/// channel, and stems from a reminder of the list that was due.
pub proof fn law_taken_entries_are_stamped(
    list: Seq<ReminderView>,
    channel: u64,
    now: Moment,
    at: int,
)
    requires
        0 <= at < taken_from(list, channel, now).len(),
    ensures
        taken_from(list, channel, now)[at].channel == channel,
        taken_from(list, channel, now)[at].reminder.last_executed == Some(now.date),
        exists|index: int|
            0 <= index < list.len() && (#[trigger] list[index]).due(now) && taken_from(
                list,
                channel,
                now,
            )[at].reminder == list[index].stamped(now.date),
    decreases list.len(),
{
    let shorter = list.drop_last();
    let before = taken_from(shorter, channel, now);
    if at < before.len() {
        law_taken_entries_are_stamped(shorter, channel, now, at);
        let index = choose|index: int|
            0 <= index < shorter.len() && (#[trigger] shorter[index]).due(now) && before[at].reminder
                == shorter[index].stamped(now.date);
        assert(list[index] == shorter[index]);
    } else {
        assert(list[list.len() - 1].due(now));
    }
}

/// A scan takes each due reminder of a list, stamped, for the list's channel.
pub proof fn law_due_reminder_is_taken(
    list: Seq<ReminderView>,
    channel: u64,
    now: Moment,
    index: int,
)
    requires
        0 <= index < list.len(),
        list[index].due(now),
    ensures
        taken_from(list, channel, now).contains(
            PendingView { channel, reminder: list[index].stamped(now.date) },
        ),
    decreases list.len(),
{
    let entry = PendingView { channel, reminder: list[index].stamped(now.date) };
    let shorter = list.drop_last();
    let before = taken_from(shorter, channel, now);
    if index == list.len() - 1 {
        let taken = before + seq![entry];
        assert(taken[before.len() as int] == entry);
    } else {
        law_due_reminder_is_taken(shorter, channel, now, index);
        let at = choose|at: int| 0 <= at < before.len() && before[at] == entry;
        if list.last().due(now) {
            let last = PendingView { channel, reminder: list.last().stamped(now.date) };
            assert((before + seq![last])[at] == entry);
        }
    }
}

/// A scan of the table takes each due reminder of each list that its walk
/// names.
pub proof fn law_scan_reaches_every_list(
    table: TableView,
    order: Seq<(u64, u64)>,
    now: Moment,
    guild: u64,
    channel: u64,
    index: int,
)
    requires
        order.contains((guild, channel)),
        0 <= index < table[guild][channel].len(),
        table[guild][channel][index].due(now),
    ensures
        taken_in_order(table, order, now).contains(
            PendingView { channel, reminder: table[guild][channel][index].stamped(now.date) },
        ),
    decreases order.len(),
{
    let entry = PendingView { channel, reminder: table[guild][channel][index].stamped(now.date) };
    let earlier = taken_in_order(table, order.drop_last(), now);
    let here = taken_from(table[order.last().0][order.last().1], order.last().1, now);
    if order.last() == (guild, channel) {
        law_due_reminder_is_taken(table[guild][channel], channel, now, index);
        let at = choose|at: int| 0 <= at < here.len() && here[at] == entry;
        assert((earlier + here)[earlier.len() + at] == entry);
    } else {
        let k = choose|k: int| 0 <= k < order.len() && order[k] == (guild, channel);
        assert(order.drop_last()[k] == (guild, channel));
        law_scan_reaches_every_list(table, order.drop_last(), now, guild, channel, index);
        let at = choose|at: int| 0 <= at < earlier.len() && earlier[at] == entry;
        assert((earlier + here)[at] == entry);
    }
}

/// The cascade. A reminder for time `T`, on one of its weekdays and not yet
/// taken up today: a scan 25 minutes before `T` puts it in the first tier;
/// the two-minute pass 90 seconds before `T` moves it to the second tier;
/// the one-second pass at `T` hands its message over for delivery, and then
/// it is in neither tier.
pub proof fn law_cascade(
    table: TableView,
    store: StoreView,
    order: Seq<(u64, u64)>,
    guild: u64,
    channel: u64,
    index: int,
    scan: Moment,
    close: Moment,
    exact: Moment,
)
    requires
        enumerates(table, order),
        table.contains_key(guild),
        table[guild].contains_key(channel),
        0 <= index < table[guild][channel].len(),
        table[guild][channel][index].weekdays.contains(scan.weekday),
        table[guild][channel][index].last_executed != Some(scan.date),
        scan.time@ + 1500 == table[guild][channel][index].time,
        close.time@ + 90 == table[guild][channel][index].time,
        exact.time@ == table[guild][channel][index].time,
    ensures
        ({
            let entry = PendingView {
                channel,
                reminder: table[guild][channel][index].stamped(scan.date),
            };
            let scanned = after_scan(store, table, order, scan);
            let moved = after_two_minute_pass(scanned, close);
            let sent = after_one_second_pass(moved, exact);
            &&& scanned.reminders_30_min.contains(entry)
            &&& moved.reminders_2_min.contains(entry)
            &&& !moved.reminders_30_min.contains(entry)
            &&& fired(moved, exact).contains(delivery_of(entry))
            &&& !sent.reminders_2_min.contains(entry)
            &&& !sent.reminders_30_min.contains(entry)
        }),
{
    let reminder = table[guild][channel][index];
    let entry = PendingView { channel, reminder: reminder.stamped(scan.date) };
    let scanned = after_scan(store, table, order, scan);
    let moved = after_two_minute_pass(scanned, close);
    let sent = after_one_second_pass(moved, exact);
    assert(reminder.due(scan));
    law_scan_reaches_every_list(table, order, scan, guild, channel, index);
    let taken = taken_in_order(table, order, scan);
    let at = choose|at: int| 0 <= at < taken.len() && taken[at] == entry;
    let first = scanned.reminders_30_min;
    assert(first[store.reminders_30_min.len() + at] == entry);
    assert(imminent(close)(entry));
    first.lemma_filter_contains(imminent(close), store.reminders_30_min.len() + at);
    let arrived = first.filter(imminent(close));
    let slot = choose|slot: int| 0 <= slot < arrived.len() && arrived[slot] == entry;
    let second = moved.reminders_2_min;
    assert(second[scanned.reminders_2_min.len() + slot] == entry);
    lemma_filter_drops(first, distant(close), entry);
    assert(striking(exact)(entry));
    second.lemma_filter_contains(striking(exact), scanned.reminders_2_min.len() + slot);
    let struck = second.filter(striking(exact));
    let hit = choose|hit: int| 0 <= hit < struck.len() && struck[hit] == entry;
    assert(deliveries_of(struck)[hit] == delivery_of(entry));
    lemma_filter_drops(second, silent(exact), entry);
}

/// A two-minute pass 90 seconds before an entry's time moves the entry from
/// the first tier to the second.
pub proof fn law_two_minute_pass_moves(store: StoreView, now: Moment, entry: PendingView)
    requires
        store.reminders_30_min.contains(entry),
        now.time@ + 90 == entry.reminder.time,
    ensures
        after_two_minute_pass(store, now).reminders_2_min.contains(entry),
        !after_two_minute_pass(store, now).reminders_30_min.contains(entry),
{
    let first = store.reminders_30_min;
    let at = choose|at: int| 0 <= at < first.len() && first[at] == entry;
    assert(imminent(now)(entry));
    first.lemma_filter_contains(imminent(now), at);
    let moved = first.filter(imminent(now));
    let slot = choose|slot: int| 0 <= slot < moved.len() && moved[slot] == entry;
    assert((store.reminders_2_min + moved)[store.reminders_2_min.len() + slot] == entry);
    lemma_filter_drops(first, distant(now), entry);
}

/// A two-minute pass loses no entry and makes none: each entry of the two
/// tiers is in one of them afterwards, as often as before.
pub proof fn law_two_minute_pass_keeps_every_entry(store: StoreView, now: Moment)
    ensures
        after_two_minute_pass(store, now).reminders_30_min.to_multiset().add(
            after_two_minute_pass(store, now).reminders_2_min.to_multiset(),
        ) == store.reminders_30_min.to_multiset().add(store.reminders_2_min.to_multiset()),
{
    let first = store.reminders_30_min;
    lemma_filter_splits(first, imminent(now), distant(now));
    lemma_multiset_commutative(store.reminders_2_min, first.filter(imminent(now)));
    assert(after_two_minute_pass(store, now).reminders_30_min.to_multiset().add(
        after_two_minute_pass(store, now).reminders_2_min.to_multiset(),
    ) =~= store.reminders_30_min.to_multiset().add(store.reminders_2_min.to_multiset()));
}

/// The one-second pass at an entry's time hands the entry's message over
/// for delivery and takes the entry out of the second tier; the first tier
/// is as it was, so the entry is in neither tier where the first did not
/// hold it.
pub proof fn law_striking_pass_delivers(store: StoreView, now: Moment, entry: PendingView)
    requires
        store.reminders_2_min.contains(entry),
        entry.reminder.time == now.time@,
    ensures
        fired(store, now).contains(delivery_of(entry)),
        !after_one_second_pass(store, now).reminders_2_min.contains(entry),
        after_one_second_pass(store, now).reminders_30_min == store.reminders_30_min,
{
    let second = store.reminders_2_min;
    let at = choose|at: int| 0 <= at < second.len() && second[at] == entry;
    assert(striking(now)(entry));
    second.lemma_filter_contains(striking(now), at);
    let struck = second.filter(striking(now));
    let hit = choose|hit: int| 0 <= hit < struck.len() && struck[hit] == entry;
    assert(deliveries_of(struck)[hit] == delivery_of(entry));
    lemma_filter_drops(second, silent(now), entry);
}

/// Over a whole run of the one-second poller, whatever the moments of its
/// passes: what is handed over for delivery are the messages of the entries
/// that leave the second tier; each entry of the tier leaves it at most
/// once, and an entry that has not left is still there; the first tier and
/// the two-minute poller's flag are never touched. So no entry is delivered
/// twice.
pub proof fn law_one_second_run_delivers_once(store: StoreView, moments: Seq<Moment>)
    ensures
        fired_in_run(store, moments) == deliveries_of(struck_in_run(store, moments)),
        struck_in_run(store, moments).to_multiset().add(
            after_one_second_run(store, moments).reminders_2_min.to_multiset(),
        ) == store.reminders_2_min.to_multiset(),
        after_one_second_run(store, moments).reminders_30_min == store.reminders_30_min,
        after_one_second_run(store, moments).two_min_checking == store.two_min_checking,
    decreases moments.len(),
{
    if moments.len() == 0 {
        assert(fired_in_run(store, moments) =~= deliveries_of(struck_in_run(store, moments)));
        assert(struck_in_run(store, moments).to_multiset().add(
            store.reminders_2_min.to_multiset(),
        ) =~= store.reminders_2_min.to_multiset()) by {
            struck_in_run(store, moments).to_multiset_ensures();
        }
    } else {
        let earlier = moments.drop_last();
        let now = moments.last();
        law_one_second_run_delivers_once(store, earlier);
        let before = after_one_second_run(store, earlier);
        let gone = struck_in_run(store, earlier);
        let struck = before.reminders_2_min.filter(striking(now));
        assert(deliveries_of(gone + struck) =~= deliveries_of(gone) + deliveries_of(struck));
        lemma_filter_splits(before.reminders_2_min, striking(now), silent(now));
        lemma_multiset_commutative(gone, struck);
        assert(struck_in_run(store, moments).to_multiset().add(
            after_one_second_run(store, moments).reminders_2_min.to_multiset(),
        ) =~= store.reminders_2_min.to_multiset());
    }
}

/// A new reminder goes to the end of its channel's list, and every other
/// list is as it was.
pub proof fn law_added_reminder_is_last(
    table: TableView,
    guild: u64,
    channel: u64,
    reminder: ReminderView,
)
    ensures
        list_at(with_added(table, guild, channel, reminder), guild, channel) == list_at(
            table,
            guild,
            channel,
        ).push(reminder),
        forall|g: u64, c: u64|
            g != guild || c != channel ==> #[trigger] list_at(
                with_added(table, guild, channel, reminder),
                g,
                c,
            ) == list_at(table, g, c),
{
}

/// Removing entry `position` of a list of `n` leaves `n - 1`: the entries
/// before it where they were, those after it one place earlier, and every
/// other list as it was.
pub proof fn law_removal_takes_one(table: TableView, guild: u64, channel: u64, position: int)
    requires
        table.contains_key(guild),
        table[guild].contains_key(channel),
        0 <= position < table[guild][channel].len(),
    ensures
        ({
            let before = table[guild][channel];
            let after = list_at(with_removed(table, guild, channel, position), guild, channel);
            &&& after.len() == before.len() - 1
            &&& forall|j: int| 0 <= j < position ==> after[j] == before[j]
            &&& forall|j: int| position <= j < after.len() ==> after[j] == before[j + 1]
        }),
        forall|g: u64, c: u64|
            g != guild || c != channel ==> #[trigger] list_at(
                with_removed(table, guild, channel, position),
                g,
                c,
            ) == list_at(table, g, c),
{
    let list = table[guild][channel].remove(position);
    let channels = if list.len() == 0 {
        table[guild].remove(channel)
    } else {
        table[guild].insert(channel, list)
    };
    assert(channels.is_empty() ==> !channels.contains_key(channel));
    assert forall|g: u64, c: u64| g != guild || c != channel implies #[trigger] list_at(
        with_removed(table, guild, channel, position),
        g,
        c,
    ) == list_at(table, g, c) by {
        if g == guild && table[guild].contains_key(c) {
            assert(channels.contains_key(c));
        }
    }
}

/// Pruning. Removing the only reminder of a channel takes the channel out of
/// its guild's map, and takes the guild out of the table where it had no
/// other channel; no other guild and no other channel comes or goes.
pub proof fn law_last_removal_prunes(table: TableView, guild: u64, channel: u64)
    requires
        table.contains_key(guild),
        table[guild].contains_key(channel),
        table[guild][channel].len() == 1,
    ensures
        ({
            let after = with_removed(table, guild, channel, 0);
            &&& after.contains_key(guild) ==> !after[guild].contains_key(channel)
            &&& after.contains_key(guild) <==> exists|c: u64|
                c != channel && #[trigger] table[guild].contains_key(c)
            &&& forall|g: u64| g != guild ==> (after.contains_key(g) <==> table.contains_key(g))
            &&& forall|c: u64|
                c != channel && after.contains_key(guild) ==> (after[guild].contains_key(c)
                    <==> table[guild].contains_key(c))
        }),
{
    let channels = table[guild].remove(channel);
    if channels.is_empty() {
        assert forall|c: u64| c != channel implies !#[trigger] table[guild].contains_key(c) by {
            if table[guild].contains_key(c) {
                assert(channels.contains_key(c));
            }
        }
    } else {
        let c = choose|c: u64| channels.contains_key(c);
        assert(c != channel && table[guild].contains_key(c));
    }
}

} // verus!
