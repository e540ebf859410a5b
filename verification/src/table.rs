//! The reminder table: for each guild, for each of its channels, the
//! channel's reminders in the order in which they were added.

use crate::clock::Moment;
use crate::reminder::{
    lemma_pending_view_push, pending_view, Pending, PendingView, Reminder, ReminderView,
};
use std::collections::HashMap;
use vstd::prelude::*;
use vstd::std_specs::hash::*;
use vstd::std_specs::iter::IteratorSpec;

verus! {

broadcast use vstd::std_specs::hash::group_hash_axioms;

/// A channel's reminders as mathematical values.
pub open spec fn list_view(list: Seq<Reminder>) -> Seq<ReminderView> {
    Seq::new(list.len(), |i: int| list[i]@)
}

/// A guild's channels as a mathematical map.
pub open spec fn channels_view(channels: Map<u64, Vec<Reminder>>) -> Map<
    u64,
    Seq<ReminderView>,
> {
    Map::new(|c: u64| channels.contains_key(c), |c: u64| list_view(channels[c]@))
}

/// Why a reminder could not be removed.
#[derive(Clone, Copy, Debug, PartialEq, Eq, Structural)]
pub enum RemoveError {
    /// The guild has no reminders.
    GuildNotFound,
    /// The guild has reminders, but the channel has none.
    ChannelNotFound,
    /// The channel's list has no entry with that number.
    IndexOutOfRange,
}

/// The table of all reminders.
pub struct ReminderTable {
    guilds: HashMap<u64, HashMap<u64, Vec<Reminder>>>,
}

/// The table's mathematical value: guild to channel to list.
pub type TableView = Map<u64, Map<u64, Seq<ReminderView>>>;

/// The list of `channel` in `guild`, empty where there is none.
pub open spec fn list_at(table: TableView, guild: u64, channel: u64) -> Seq<ReminderView> {
    if table.contains_key(guild) && table[guild].contains_key(channel) {
        table[guild][channel]
    } else {
        Seq::empty()
    }
}

/// The channels of `guild`, none where the guild is not in the table.
pub open spec fn channels_at(table: TableView, guild: u64) -> Map<u64, Seq<ReminderView>> {
    if table.contains_key(guild) {
        table[guild]
    } else {
        Map::empty()
    }
}

/// `table` with `reminder` at the end of the list of `channel` in `guild`.
pub open spec fn with_added(
    table: TableView,
    guild: u64,
    channel: u64,
    reminder: ReminderView,
) -> TableView {
    table.insert(
        guild,
        channels_at(table, guild).insert(channel, list_at(table, guild, channel).push(reminder)),
    )
}

/// `table` with `list` as the list of `channel` in `guild`.
pub open spec fn with_list(
    table: TableView,
    guild: u64,
    channel: u64,
    list: Seq<ReminderView>,
) -> TableView {
    table.insert(guild, channels_at(table, guild).insert(channel, list))
}

/// `table` without entry `position` of the list of `channel` in `guild`;
/// a channel left without reminders goes, and so does a guild left without
/// channels.
pub open spec fn with_removed(table: TableView, guild: u64, channel: u64, position: int) -> TableView {
    let list = table[guild][channel].remove(position);
    let channels = if list.len() == 0 {
        table[guild].remove(channel)
    } else {
        table[guild].insert(channel, list)
    };
    if channels.is_empty() {
        table.remove(guild)
    } else {
        table.insert(guild, channels)
    }
}

/// What a scan at `now` takes of one reminder of `channel`: nothing where it
/// is not due, else the reminder with today's stamp.
pub open spec fn promotion(channel: u64, now: Moment) -> spec_fn(ReminderView) -> Option<
    PendingView,
> {
    |reminder: ReminderView|
        if reminder.due(now) {
            Some(PendingView { channel, reminder: reminder.stamped(now.date) })
        } else {
            None
        }
}

/// What a scan at `now` takes from the list of `channel`, in the list's
/// order.
pub open spec fn taken_from(list: Seq<ReminderView>, channel: u64, now: Moment) -> Seq<
    PendingView,
> {
    list.filter_map(promotion(channel, now))
}

/// A list as a scan at `now` leaves it: each due reminder is stamped.
pub open spec fn scanned_list(list: Seq<ReminderView>, now: Moment) -> Seq<ReminderView> {
    Seq::new(list.len(), |i: int| list[i].scanned(now))
}

/// A guild's channels as a scan at `now` leaves them.
pub open spec fn scanned_channels(channels: Map<u64, Seq<ReminderView>>, now: Moment) -> Map<
    u64,
    Seq<ReminderView>,
> {
    Map::new(|c: u64| channels.contains_key(c), |c: u64| scanned_list(channels[c], now))
}

/// The table as a scan at `now` leaves it.
pub open spec fn scanned_table(table: TableView, now: Moment) -> TableView {
    Map::new(|g: u64| table.contains_key(g), |g: u64| scanned_channels(table[g], now))
}

/// Whether `order` names each list of the table once, by guild and channel.
pub open spec fn enumerates(table: TableView, order: Seq<(u64, u64)>) -> bool {
    &&& order.no_duplicates()
    &&& forall|g: u64, c: u64| #[trigger]
        order.contains((g, c)) <==> table.contains_key(g) && table[g].contains_key(c)
}

/// What a scan at `now` takes from the lists that `order` names, list after
/// list.
pub open spec fn taken_in_order(table: TableView, order: Seq<(u64, u64)>, now: Moment) -> Seq<
    PendingView,
>
    decreases order.len(),
{
    if order.len() == 0 {
        Seq::empty()
    } else {
        taken_in_order(table, order.drop_last(), now) + taken_from(
            table[order.last().0][order.last().1],
            order.last().1,
            now,
        )
    }
}

/// Whether `key` is among the first `n` of `keys`.
spec fn among(keys: Seq<u64>, n: int, key: u64) -> bool {
    exists|j: int| 0 <= j < n && keys[j] == key
}

proof fn lemma_among_next(keys: Seq<u64>, n: int, key: u64)
    requires
        0 <= n < keys.len(),
    ensures
        among(keys, n + 1, key) <==> among(keys, n, key) || keys[n] == key,
{
    if among(keys, n + 1, key) {
        let j = choose|j: int| 0 <= j < n + 1 && keys[j] == key;
        if j < n {
            assert(among(keys, n, key));
        }
    }
    if among(keys, n, key) {
        let j = choose|j: int| 0 <= j < n && keys[j] == key;
        assert(0 <= j < n + 1 && keys[j] == key);
    }
    if keys[n] == key {
        assert(0 <= n < n + 1 && keys[n] == key);
    }
}

proof fn lemma_among_all(keys: Seq<u64>, key: u64)
    ensures
        among(keys, keys.len() as int, key) <==> keys.to_set().contains(key),
{
    if among(keys, keys.len() as int, key) {
        let j = choose|j: int| 0 <= j < keys.len() && keys[j] == key;
        assert(keys.contains(keys[j]));
    }
    if keys.to_set().contains(key) {
        assert(keys.contains(key));
        let j = choose|j: int| 0 <= j < keys.len() && keys[j] == key;
        assert(0 <= j < keys.len() && keys[j] == key);
    }
}

/// What is taken from a list with one more reminder.
proof fn lemma_taken_from_push(list: Seq<ReminderView>, last: ReminderView, channel: u64, now: Moment)
    ensures
        taken_from(list.push(last), channel, now) == if last.due(now) {
            taken_from(list, channel, now).push(
                PendingView { channel, reminder: last.stamped(now.date) },
            )
        } else {
            taken_from(list, channel, now)
        },
{
    assert(list.push(last).drop_last() == list);
    if last.due(now) {
        let entry = PendingView { channel, reminder: last.stamped(now.date) };
        assert(taken_from(list, channel, now) + seq![entry] =~= taken_from(list, channel, now).push(
            entry,
        ));
    }
}

/// Scans one list at `now`: stamps each due reminder and appends a copy of
/// it, for `channel`, to `taken`.
fn scan_list(list: &mut Vec<Reminder>, channel: u64, now: &Moment, taken: &mut Vec<Pending>)
    ensures
        list_view(final(list)@) == scanned_list(list_view(old(list)@), *now),
        pending_view(final(taken)@) == pending_view(old(taken)@) + taken_from(
            list_view(old(list)@),
            channel,
            *now,
        ),
{
    let ghost first = list@;
    let ghost had = taken@;
    let mut i: usize = 0;
    assert(list_view(first.subrange(0, 0)) =~= Seq::empty());
    assert(pending_view(had) + Seq::empty() =~= pending_view(had));
    while i < list.len()
        invariant
            i <= list.len(),
            list@.len() == first.len(),
            forall|j: int| 0 <= j < i ==> (#[trigger] list@[j])@ == first[j]@.scanned(*now),
            forall|j: int| i <= j < first.len() ==> #[trigger] list@[j] == first[j],
            pending_view(taken@) == pending_view(had) + taken_from(
                list_view(first.subrange(0, i as int)),
                channel,
                *now,
            ),
        decreases list.len() - i,
    {
        let ghost seen = first.subrange(0, i as int);
        let ghost earlier = taken@;
        proof {
            assert(list_view(first.subrange(0, i + 1)) =~= list_view(seen).push(first[i as int]@));
            lemma_taken_from_push(list_view(seen), first[i as int]@, channel, *now);
        }
        if list[i].is_due(now) {
            list[i].last_executed = Some(now.date);
            let entry = Pending { channel, reminder: list[i].clone() };
            proof {
                lemma_pending_view_push(earlier, entry);
            }
            taken.push(entry);
            assert(pending_view(taken@) =~= pending_view(had) + taken_from(
                list_view(seen),
                channel,
                *now,
            ).push(entry@));
        }
        i += 1;
    }
    assert(first.subrange(0, first.len() as int) == first);
    assert(list_view(list@) =~= scanned_list(list_view(first), *now));
}

/// Scans the lists of one guild at `now`, in the order in which its map hands
/// out the channels.
fn scan_channels(
    channels: &mut HashMap<u64, Vec<Reminder>>,
    guild: u64,
    now: &Moment,
    taken: &mut Vec<Pending>,
    Ghost(table): Ghost<TableView>,
    Ghost(order): Ghost<Seq<(u64, u64)>>,
) -> (extended: Ghost<Seq<(u64, u64)>>)
    requires
        table.contains_key(guild),
        channels_view(old(channels)@) == table[guild],
        pending_view(old(taken)@) == taken_in_order(table, order, *now),
        order.no_duplicates(),
        forall|i: int| 0 <= i < order.len() ==> (#[trigger] order[i]).0 != guild,
    ensures
        channels_view(final(channels)@) == scanned_channels(table[guild], *now),
        pending_view(final(taken)@) == taken_in_order(table, extended@, *now),
        extended@.no_duplicates(),
        forall|g: u64, c: u64| #[trigger]
            extended@.contains((g, c)) <==> order.contains((g, c)) || (g == guild
                && table[guild].contains_key(c)),
{
    let ids = keys_of(channels);
    let ghost mut visited = order;
    let mut i: usize = 0;
    assert(channels_view(channels@).dom() =~= channels@.dom());
    while i < ids.len()
        invariant
            i <= ids.len(),
            ids@.no_duplicates(),
            ids@.to_set() == table[guild].dom(),
            channels@.dom() == table[guild].dom(),
            table.contains_key(guild),
            forall|j: int|
                0 <= j < i ==> list_view(channels@[#[trigger] ids@[j]]@) == scanned_list(
                    table[guild][ids@[j]],
                    *now,
                ),
            forall|j: int|
                i <= j < ids.len() ==> list_view(channels@[#[trigger] ids@[j]]@)
                    == table[guild][ids@[j]],
            order.no_duplicates(),
            forall|k: int| 0 <= k < order.len() ==> (#[trigger] order[k]).0 != guild,
            visited.no_duplicates(),
            forall|g: u64, c: u64| #[trigger]
                visited.contains((g, c)) <==> order.contains((g, c)) || (g == guild && among(
                    ids@,
                    i as int,
                    c,
                )),
            pending_view(taken@) == taken_in_order(table, visited, *now),
        decreases ids.len() - i,
    {
        let channel = ids[i];
        let ghost held = channels@;
        assert(ids@.contains(ids@[i as int]));
        assert(held.contains_key(channel));
        let mut list = match channels.remove(&channel) {
            Some(list) => list,
            None => Vec::new(),
        };
        assert(list_view(list@) == table[guild][channel]);
        scan_list(&mut list, channel, now, taken);
        channels.insert(channel, list);
        proof {
            assert(channels@.dom() =~= table[guild].dom());
            let longer = visited.push((guild, channel));
            assert(longer.drop_last() == visited);
            assert(!visited.contains((guild, channel))) by {
                if order.contains((guild, channel)) {
                    let k = choose|k: int| 0 <= k < order.len() && order[k] == (guild, channel);
                    assert(order[k].0 == guild);
                }
                if among(ids@, i as int, channel) {
                    let j = choose|j: int| 0 <= j < i && ids@[j] == channel;
                    assert(ids@[j] == ids@[i as int]);
                }
            }
            assert(longer.no_duplicates()) by {
                assert forall|a: int, b: int|
                    0 <= a < longer.len() && 0 <= b < longer.len() && a != b implies longer[a]
                    != longer[b] by {
                    if a == visited.len() {
                        assert(visited.contains(visited[b]));
                    } else if b == visited.len() {
                        assert(visited.contains(visited[a]));
                    }
                }
            }
            assert forall|g: u64, c: u64| #[trigger]
                longer.contains((g, c)) <==> order.contains((g, c)) || (g == guild && among(
                    ids@,
                    i + 1,
                    c,
                )) by {
                lemma_among_next(ids@, i as int, c);
                if longer.contains((g, c)) {
                    let k = choose|k: int| 0 <= k < longer.len() && longer[k] == (g, c);
                    if k < visited.len() {
                        assert(visited.contains(visited[k]));
                    }
                }
                if visited.contains((g, c)) {
                    let k = choose|k: int| 0 <= k < visited.len() && visited[k] == (g, c);
                    assert(longer[k] == (g, c));
                }
                if g == guild && c == channel {
                    assert(longer[visited.len() as int] == (g, c));
                }
            }
            visited = longer;
        }
        i += 1;
    }
    proof {
        assert(channels_view(channels@) =~= scanned_channels(table[guild], *now)) by {
            assert forall|c: u64| table[guild].contains_key(c) implies list_view(channels@[c]@)
                == scanned_list(table[guild][c], *now) by {
                assert(ids@.to_set().contains(c));
                assert(ids@.contains(c));
                let j = choose|j: int| 0 <= j < ids@.len() && ids@[j] == c;
                assert(list_view(channels@[ids@[j]]@) == scanned_list(
                    table[guild][ids@[j]],
                    *now,
                ));
            }
        }
        assert forall|g: u64, c: u64| #[trigger]
            visited.contains((g, c)) <==> order.contains((g, c)) || (g == guild
                && table[guild].contains_key(c)) by {
            lemma_among_all(ids@, c);
        }
    }
    Ghost(visited)
}

impl View for ReminderTable {
    type V = TableView;

    closed spec fn view(&self) -> TableView {
        Map::new(
            |g: u64| self.guilds@.contains_key(g),
            |g: u64| channels_view(self.guilds@[g]@),
        )
    }
}

/// The keys of `map`, each once, in the order in which the map hands them
/// out.
pub fn keys_of<V>(map: &HashMap<u64, V>) -> (keys: Vec<u64>)
    ensures
        keys@.no_duplicates(),
        keys@.to_set() == map@.dom(),
{
    let mut keys: Vec<u64> = Vec::new();
    for key in it: map.keys()
        invariant
            keys@.len() == it.index(),
            forall|j: int| 0 <= j < keys@.len() ==> keys@[j] == *it.seq()[j],
    {
        keys.push(*key);
    }
    assert(keys@ =~= spec_keys_iter(map).remaining().unref());
    keys
}

/// A copy of `list`.
pub fn copy_list(list: &Vec<Reminder>) -> (copies: Vec<Reminder>)
    ensures
        list_view(copies@) == list_view(list@),
{
    let mut copies: Vec<Reminder> = Vec::new();
    let mut i: usize = 0;
    while i < list.len()
        invariant
            i <= list.len(),
            copies@.len() == i,
            forall|j: int| 0 <= j < i ==> copies@[j]@ == list@[j]@,
        decreases list.len() - i,
    {
        copies.push(list[i].clone());
        i += 1;
    }
    assert(list_view(copies@) =~= list_view(list@));
    copies
}

impl ReminderTable {
    /// The empty table.
    pub fn new() -> (table: ReminderTable)
        ensures
            table@ == Map::<u64, Map<u64, Seq<ReminderView>>>::empty(),
    {
        let table = ReminderTable { guilds: HashMap::new() };
        assert(table@ =~= Map::<u64, Map<u64, Seq<ReminderView>>>::empty());
        table
    }

    /// Appends `reminder` to the list of `channel` in `guild`, making the
    /// guild's and the channel's entries where they are missing.
    pub fn add(&mut self, guild: u64, channel: u64, reminder: Reminder)
        ensures
            final(self)@ == with_added(old(self)@, guild, channel, reminder@),
    {
        let ghost before = self.guilds@;
        let mut channels = match self.guilds.remove(&guild) {
            Some(channels) => channels,
            None => HashMap::new(),
        };
        let ghost found = channels@;
        assert(self.guilds@ == before.remove(guild));
        assert(before.contains_key(guild) ==> found == before[guild]@);
        assert(!before.contains_key(guild) ==> found == Map::<u64, Vec<Reminder>>::empty());
        assert(channels_view(found) =~= channels_at(old(self)@, guild));
        let mut list = match channels.remove(&channel) {
            Some(list) => list,
            None => Vec::new(),
        };
        assert(channels@ == found.remove(channel));
        assert(found.contains_key(channel) ==> list == found[channel]);
        assert(!found.contains_key(channel) ==> list@ == Seq::<Reminder>::empty());
        assert(list_view(list@) =~= list_at(old(self)@, guild, channel));
        assert(channels_view(channels@).insert(channel, list_view(list@)) =~= channels_at(
            old(self)@,
            guild,
        ).insert(channel, list_at(old(self)@, guild, channel)));
        list.push(reminder);
        assert(list_view(list@) =~= list_at(old(self)@, guild, channel).push(reminder@));
        channels.insert(channel, list);
        assert(channels_view(channels@) =~= channels_at(old(self)@, guild).insert(
            channel,
            list_at(old(self)@, guild, channel).push(reminder@),
        ));
        self.guilds.insert(guild, channels);
        assert(self@ =~= with_added(old(self)@, guild, channel, reminder@));
    }

    /// Makes `list` the list of `channel` in `guild`, in place of any list
    /// that the channel had.
    pub fn set_list(&mut self, guild: u64, channel: u64, list: Vec<Reminder>)
        ensures
            final(self)@ == with_list(old(self)@, guild, channel, list_view(list@)),
    {
        let ghost before = self.guilds@;
        let mut channels = match self.guilds.remove(&guild) {
            Some(channels) => channels,
            None => HashMap::new(),
        };
        assert(channels_view(channels@) =~= channels_at(old(self)@, guild));
        channels.insert(channel, list);
        assert(channels_view(channels@) =~= channels_at(old(self)@, guild).insert(
            channel,
            list_view(list@),
        ));
        self.guilds.insert(guild, channels);
        assert(self@ =~= with_list(old(self)@, guild, channel, list_view(list@)));
    }

    /// Removes the reminder with the one-based number `index` from the list
    /// of `channel` in `guild`. A channel left without reminders leaves the
    /// guild's map, and a guild left without channels leaves the table.
    pub fn remove(&mut self, guild: u64, channel: u64, index: i64) -> (outcome: Result<
        Reminder,
        RemoveError,
    >)
        ensures
            match outcome {
                Ok(removed) => {
                    &&& old(self)@.contains_key(guild)
                    &&& old(self)@[guild].contains_key(channel)
                    &&& 1 <= index <= old(self)@[guild][channel].len()
                    &&& removed@ == old(self)@[guild][channel][index - 1]
                    &&& final(self)@ == with_removed(old(self)@, guild, channel, index - 1)
                },
                Err(RemoveError::GuildNotFound) => {
                    &&& !old(self)@.contains_key(guild)
                    &&& final(self)@ == old(self)@
                },
                Err(RemoveError::ChannelNotFound) => {
                    &&& old(self)@.contains_key(guild)
                    &&& !old(self)@[guild].contains_key(channel)
                    &&& final(self)@ == old(self)@
                },
                Err(RemoveError::IndexOutOfRange) => {
                    &&& old(self)@.contains_key(guild)
                    &&& old(self)@[guild].contains_key(channel)
                    &&& !(1 <= index <= old(self)@[guild][channel].len())
                    &&& final(self)@ == old(self)@
                },
            },
    {
        let length = match self.guilds.get(&guild) {
            None => {
                return Err(RemoveError::GuildNotFound);
            },
            Some(channels) => match channels.get(&channel) {
                None => {
                    return Err(RemoveError::ChannelNotFound);
                },
                Some(list) => list.len(),
            },
        };
        if index < 1 || index as u64 > length as u64 {
            return Err(RemoveError::IndexOutOfRange);
        }
        let position: usize = (index - 1) as usize;
        let ghost before = self.guilds@;
        let mut channels = match self.guilds.remove(&guild) {
            Some(channels) => channels,
            None => HashMap::new(),
        };
        let ghost found = channels@;
        assert(channels_view(found) =~= old(self)@[guild]);
        let mut list = match channels.remove(&channel) {
            Some(list) => list,
            None => Vec::new(),
        };
        assert(list_view(list@) =~= old(self)@[guild][channel]);
        let removed = list.remove(position);
        assert(list_view(list@) =~= old(self)@[guild][channel].remove(index - 1));
        if list.is_empty() {
            assert(channels_view(channels@) =~= old(self)@[guild].remove(channel));
        } else {
            channels.insert(channel, list);
            assert(channels_view(channels@) =~= old(self)@[guild].insert(
                channel,
                old(self)@[guild][channel].remove(index - 1),
            ));
        }
        if channels.is_empty() {
            assert(channels_view(channels@).is_empty());
            assert(self@ =~= with_removed(old(self)@, guild, channel, index - 1));
        } else {
            assert(!channels_view(channels@).is_empty()) by {
                let c = choose|c: u64| channels@.contains_key(c);
                assert(channels_view(channels@).contains_key(c));
            }
            self.guilds.insert(guild, channels);
            assert(self@ =~= with_removed(old(self)@, guild, channel, index - 1));
        }
        Ok(removed)
    }

    /// Scans the table at `now`. Each reminder that is due within half an
    /// hour is stamped with today's date, and a copy of it, with its channel,
    /// is handed back. The copies of one list come in the list's order, list
    /// after list; the order of the lists is that in which the maps hand
    /// them out.
    pub fn take_due(&mut self, now: &Moment) -> (taken: Vec<Pending>)
        ensures
            final(self)@ == scanned_table(old(self)@, *now),
            exists|order: Seq<(u64, u64)>|
                enumerates(old(self)@, order) && pending_view(taken@) == #[trigger] taken_in_order(
                    old(self)@,
                    order,
                    *now,
                ),
    {
        let ghost table = self@;
        let ids = keys_of(&self.guilds);
        let mut taken: Vec<Pending> = Vec::new();
        let ghost mut visited: Seq<(u64, u64)> = Seq::empty();
        let mut i: usize = 0;
        assert(pending_view(taken@) =~= Seq::empty());
        while i < ids.len()
            invariant
                i <= ids.len(),
                ids@.no_duplicates(),
                ids@.to_set() == table.dom(),
                self.guilds@.dom() == table.dom(),
                forall|j: int|
                    0 <= j < i ==> channels_view(self.guilds@[#[trigger] ids@[j]]@)
                        == scanned_channels(table[ids@[j]], *now),
                forall|j: int|
                    i <= j < ids.len() ==> channels_view(self.guilds@[#[trigger] ids@[j]]@)
                        == table[ids@[j]],
                visited.no_duplicates(),
                forall|g: u64, c: u64| #[trigger]
                    visited.contains((g, c)) <==> among(ids@, i as int, g) && table[g].contains_key(
                        c,
                    ),
                pending_view(taken@) == taken_in_order(table, visited, *now),
            decreases ids.len() - i,
        {
            let guild = ids[i];
            assert(ids@.contains(ids@[i as int]));
            assert(self.guilds@.contains_key(guild));
            let mut channels = match self.guilds.remove(&guild) {
                Some(channels) => channels,
                None => HashMap::new(),
            };
            proof {
                assert forall|k: int| 0 <= k < visited.len() implies (#[trigger] visited[k]).0
                    != guild by {
                    assert(visited.contains(visited[k]));
                    assert(visited[k] == (visited[k].0, visited[k].1));
                    if visited[k].0 == guild {
                        assert(visited.contains((guild, visited[k].1)));
                        assert(among(ids@, i as int, guild));
                        let j = choose|j: int| 0 <= j < i && ids@[j] == guild;
                        assert(ids@[j] == ids@[i as int]);
                    }
                }
            }
            let extended = scan_channels(
                &mut channels,
                guild,
                now,
                &mut taken,
                Ghost(table),
                Ghost(visited),
            );
            self.guilds.insert(guild, channels);
            proof {
                assert(self.guilds@.dom() =~= table.dom());
                assert forall|g: u64, c: u64| #[trigger]
                    extended@.contains((g, c)) <==> among(ids@, i + 1, g) && table[g].contains_key(
                        c,
                    ) by {
                    lemma_among_next(ids@, i as int, g);
                }
                visited = extended@;
            }
            i += 1;
        }
        proof {
            assert(self@ =~= scanned_table(table, *now)) by {
                assert forall|g: u64| table.contains_key(g) implies channels_view(
                    self.guilds@[g]@,
                ) == scanned_channels(table[g], *now) by {
                    assert(ids@.to_set().contains(g));
                    assert(ids@.contains(g));
                    let j = choose|j: int| 0 <= j < ids@.len() && ids@[j] == g;
                    assert(channels_view(self.guilds@[ids@[j]]@) == scanned_channels(
                        table[ids@[j]],
                        *now,
                    ));
                }
            }
            assert forall|g: u64, c: u64| #[trigger]
                visited.contains((g, c)) <==> table.contains_key(g) && table[g].contains_key(
                    c,
                ) by {
                lemma_among_all(ids@, g);
            }
            assert(enumerates(table, visited));
        }
        taken
    }

    /// Whether the table holds no guild.
    pub fn is_empty(&self) -> (empty: bool)
        ensures
            empty == self@.is_empty(),
    {
        let empty = self.guilds.is_empty();
        assert(self@.dom() =~= self.guilds@.dom());
        empty
    }

    /// The guilds of the table, each once, in no particular order.
    pub fn guild_ids(&self) -> (ids: Vec<u64>)
        ensures
            ids@.no_duplicates(),
            ids@.to_set() == self@.dom(),
    {
        let ids = keys_of(&self.guilds);
        assert(self@.dom() =~= self.guilds@.dom());
        ids
    }

    /// The channels of `guild` that have a list, each once, in no particular
    /// order; none where the guild is not in the table.
    pub fn channel_ids(&self, guild: u64) -> (ids: Vec<u64>)
        ensures
            ids@.no_duplicates(),
            ids@.to_set() == channels_at(self@, guild).dom(),
    {
        match self.guilds.get(&guild) {
            Some(channels) => {
                let ids = keys_of(channels);
                assert(channels_at(self@, guild).dom() =~= channels@.dom());
                ids
            },
            None => {
                let ids: Vec<u64> = Vec::new();
                assert(ids@.to_set() =~= channels_at(self@, guild).dom());
                ids
            },
        }
    }

    /// The list of `channel` in `guild`, where there is one.
    pub fn list(&self, guild: u64, channel: u64) -> (list: Option<&Vec<Reminder>>)
        ensures
            list is Some <==> self@.contains_key(guild) && self@[guild].contains_key(channel),
            list matches Some(found) ==> list_view(found@) == self@[guild][channel],
    {
        match self.guilds.get(&guild) {
            None => None,
            Some(channels) => channels.get(&channel),
        }
    }

    /// Whether `guild` is in the table.
    pub fn has_guild(&self, guild: u64) -> (found: bool)
        ensures
            found == self@.contains_key(guild),
    {
        self.guilds.contains_key(&guild)
    }

    /// A copy of the list of `channel` in `guild`, where there is one.
    pub fn reminders(&self, guild: u64, channel: u64) -> (list: Option<Vec<Reminder>>)
        ensures
            list is Some <==> self@.contains_key(guild) && self@[guild].contains_key(channel),
            list matches Some(copies) ==> list_view(copies@) == self@[guild][channel],
    {
        match self.guilds.get(&guild) {
            None => None,
            Some(channels) => match channels.get(&channel) {
                None => None,
                Some(list) => Some(copy_list(list)),
            },
        }
    }
}

} // verus!
