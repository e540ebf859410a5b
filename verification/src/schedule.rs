//! The schedule's tiers. A scan of the table takes up the reminders due
//! within half an hour; a pass every two minutes moves those due within two
//! minutes on to the last tier; a pass every second delivers those whose
//! second has come.

use crate::clock::{now_in, Moment};
use crate::reminder::{
    is_within, lemma_pending_view_push, pending_view, within, Pending, PendingView, TWO_MINUTES,
};
use crate::sequences::lemma_filter_push;
use crate::table::{enumerates, scanned_table, taken_in_order, ReminderTable, TableView};
use vstd::prelude::*;

verus! {

/// A message to send to a channel.
#[derive(Debug)]
pub struct Delivery {
    pub channel: u64,
    pub message: String,
}

/// A delivery as a mathematical value.
pub struct DeliveryView {
    pub channel: u64,
    pub message: Seq<char>,
}

impl View for Delivery {
    type V = DeliveryView;

    open spec fn view(&self) -> DeliveryView {
        DeliveryView { channel: self.channel, message: self.message@ }
    }
}

/// Deliveries as mathematical values.
pub open spec fn delivery_view(deliveries: Seq<Delivery>) -> Seq<DeliveryView> {
    Seq::new(deliveries.len(), |i: int| deliveries[i]@)
}

/// The schedule's state between passes: the reminders due within half an
/// hour, those due within two minutes, and for each of the two pollers
/// whether one is running.
pub struct ReminderStore {
    pub reminders_30_min: Vec<Pending>,
    pub reminders_2_min: Vec<Pending>,
    pub two_min_checking: bool,
    pub one_secs_checking: bool,
}

/// The schedule's state as a mathematical value.
#[verifier::ext_equal]
pub struct StoreView {
    pub reminders_30_min: Seq<PendingView>,
    pub reminders_2_min: Seq<PendingView>,
    pub two_min_checking: bool,
    pub one_secs_checking: bool,
}

impl View for ReminderStore {
    type V = StoreView;

    open spec fn view(&self) -> StoreView {
        StoreView {
            reminders_30_min: pending_view(self.reminders_30_min@),
            reminders_2_min: pending_view(self.reminders_2_min@),
            two_min_checking: self.two_min_checking,
            one_secs_checking: self.one_secs_checking,
        }
    }
}

/// What a poller is to do after one of its passes.
#[derive(Clone, Copy, Debug, PartialEq, Eq, Structural)]
pub struct PassOutcome {
    /// Start the poller of the next tier: it has work and none is running.
    pub start_next: bool,
    /// Stop: this poller's tier is empty.
    pub finished: bool,
}

/// The entries whose time lies within the two minutes after `now`.
pub open spec fn imminent(now: Moment) -> spec_fn(PendingView) -> bool {
    |entry: PendingView| within(entry.reminder.time, now.time@, TWO_MINUTES as nat)
}

/// The entries that a two-minute pass at `now` leaves in the first tier.
pub open spec fn distant(now: Moment) -> spec_fn(PendingView) -> bool {
    |entry: PendingView| !within(entry.reminder.time, now.time@, TWO_MINUTES as nat)
}

/// The entries whose time is the second that `now` shows.
pub open spec fn striking(now: Moment) -> spec_fn(PendingView) -> bool {
    |entry: PendingView| entry.reminder.time == now.time@
}

/// The entries that a one-second pass at `now` keeps.
pub open spec fn silent(now: Moment) -> spec_fn(PendingView) -> bool {
    |entry: PendingView| entry.reminder.time != now.time@
}

/// The delivery that an entry asks for.
pub open spec fn delivery_of(entry: PendingView) -> DeliveryView {
    DeliveryView { channel: entry.channel, message: entry.reminder.message }
}

/// The deliveries that `entries` ask for, in order.
pub open spec fn deliveries_of(entries: Seq<PendingView>) -> Seq<DeliveryView> {
    Seq::new(entries.len(), |i: int| delivery_of(entries[i]))
}

/// The state after a scan of `table` at `now` that walks the lists in
/// `order`: what the scan takes goes to the end of the first tier.
pub open spec fn after_scan(
    store: StoreView,
    table: TableView,
    order: Seq<(u64, u64)>,
    now: Moment,
) -> StoreView {
    StoreView {
        reminders_30_min: store.reminders_30_min + taken_in_order(table, order, now),
        ..store
    }
}

/// Whether a scan at `now` can lead from `table` and `store` to
/// `table_after` and `store_after`: the table is scanned, and the schedule
/// has taken the due reminders in some order of the table's lists.
pub open spec fn scan_step(
    table: TableView,
    store: StoreView,
    now: Moment,
    table_after: TableView,
    store_after: StoreView,
) -> bool {
    &&& table_after == scanned_table(table, now)
    &&& exists|order: Seq<(u64, u64)>|
        enumerates(table, order) && store_after == #[trigger] after_scan(store, table, order, now)
}

/// What the two-minute poller is to do after its pass at `now`.
pub open spec fn two_minute_outcome(store: StoreView, now: Moment) -> PassOutcome {
    PassOutcome {
        start_next: (store.reminders_2_min + store.reminders_30_min.filter(imminent(now))).len() > 0
            && !store.one_secs_checking,
        finished: store.reminders_30_min.filter(distant(now)).len() == 0,
    }
}

/// The state after the two-minute poller's pass at `now`.
pub open spec fn after_two_minute_pass(store: StoreView, now: Moment) -> StoreView {
    StoreView {
        reminders_30_min: store.reminders_30_min.filter(distant(now)),
        reminders_2_min: store.reminders_2_min + store.reminders_30_min.filter(imminent(now)),
        two_min_checking: store.two_min_checking && !two_minute_outcome(store, now).finished,
        one_secs_checking: store.one_secs_checking || two_minute_outcome(store, now).start_next,
    }
}

/// What the one-second poller's pass at `now` hands over for delivery.
pub open spec fn fired(store: StoreView, now: Moment) -> Seq<DeliveryView> {
    deliveries_of(store.reminders_2_min.filter(striking(now)))
}

/// The state after the one-second poller's pass at `now`.
pub open spec fn after_one_second_pass(store: StoreView, now: Moment) -> StoreView {
    StoreView {
        reminders_2_min: store.reminders_2_min.filter(silent(now)),
        one_secs_checking: store.one_secs_checking && store.reminders_2_min.filter(
            silent(now),
        ).len() != 0,
        ..store
    }
}

/// The state after the one-second poller's passes at `moments`, one after
/// the other.
pub open spec fn after_one_second_run(store: StoreView, moments: Seq<Moment>) -> StoreView
    decreases moments.len(),
{
    if moments.len() == 0 {
        store
    } else {
        after_one_second_pass(
            after_one_second_run(store, moments.drop_last()),
            moments.last(),
        )
    }
}

/// The entries that leave the second tier in the one-second poller's passes
/// at `moments`, in the order in which they leave.
pub open spec fn struck_in_run(store: StoreView, moments: Seq<Moment>) -> Seq<PendingView>
    decreases moments.len(),
{
    if moments.len() == 0 {
        Seq::empty()
    } else {
        struck_in_run(store, moments.drop_last()) + after_one_second_run(
            store,
            moments.drop_last(),
        ).reminders_2_min.filter(striking(moments.last()))
    }
}

/// What the one-second poller's passes at `moments` hand over for delivery,
/// pass after pass.
pub open spec fn fired_in_run(store: StoreView, moments: Seq<Moment>) -> Seq<DeliveryView>
    decreases moments.len(),
{
    if moments.len() == 0 {
        Seq::empty()
    } else {
        fired_in_run(store, moments.drop_last()) + fired(
            after_one_second_run(store, moments.drop_last()),
            moments.last(),
        )
    }
}

/// The view of a list of deliveries with one more.
proof fn lemma_delivery_view_push(deliveries: Seq<Delivery>, delivery: Delivery)
    ensures
        delivery_view(deliveries.push(delivery)) == delivery_view(deliveries).push(delivery@),
{
    assert(delivery_view(deliveries.push(delivery)) =~= delivery_view(deliveries).push(
        delivery@,
    ));
}

/// The deliveries of a list of entries with one more.
proof fn lemma_deliveries_of_push(entries: Seq<PendingView>, entry: PendingView)
    ensures
        deliveries_of(entries.push(entry)) == deliveries_of(entries).push(delivery_of(entry)),
{
    assert(deliveries_of(entries.push(entry)) =~= deliveries_of(entries).push(
        delivery_of(entry),
    ));
}

impl ReminderStore {
    /// A schedule with empty tiers and no poller running.
    pub fn new() -> (store: ReminderStore)
        ensures
            store@ == (StoreView {
                reminders_30_min: Seq::empty(),
                reminders_2_min: Seq::empty(),
                two_min_checking: false,
                one_secs_checking: false,
            }),
    {
        let store = ReminderStore {
            reminders_30_min: Vec::new(),
            reminders_2_min: Vec::new(),
            two_min_checking: false,
            one_secs_checking: false,
        };
        assert(store@.reminders_30_min =~= Seq::empty());
        assert(store@.reminders_2_min =~= Seq::empty());
        store
    }

    /// Scans `table` at `now` and puts what the scan takes at the end of the
    /// first tier.
    pub fn promote_due(&mut self, table: &mut ReminderTable, now: &Moment)
        ensures
            scan_step(old(table)@, old(self)@, *now, final(table)@, final(self)@),
    {
        let mut taken = table.take_due(now);
        let ghost order = choose|order: Seq<(u64, u64)>|
            enumerates(old(table)@, order) && pending_view(taken@) == #[trigger] taken_in_order(
                old(table)@,
                order,
                *now,
            );
        let ghost first = self.reminders_30_min@;
        self.reminders_30_min.append(&mut taken);
        assert(pending_view(self.reminders_30_min@) =~= pending_view(first) + taken_in_order(
            old(table)@,
            order,
            *now,
        ));
        assert(self@ =~= after_scan(old(self)@, old(table)@, order, *now));
    }

    /// Decides, after a scan, whether to start the two-minute poller: the
    /// first tier holds a reminder and no such poller runs. Where it says
    /// yes, the poller counts as running from now on.
    pub fn claim_two_min_poller(&mut self) -> (start: bool)
        ensures
            start == (old(self)@.reminders_30_min.len() > 0 && !old(self)@.two_min_checking),
            final(self)@ == (StoreView {
                two_min_checking: old(self)@.two_min_checking || start,
                ..old(self)@
            }),
    {
        if !self.reminders_30_min.is_empty() && !self.two_min_checking {
            self.two_min_checking = true;
            true
        } else {
            false
        }
    }

    /// One pass of the two-minute poller at `now`. The entries of the first
    /// tier whose time lies within the two minutes after `now` move to the
    /// end of the second tier, in their order; the others stay. With work in
    /// the second tier and no one-second poller running, one is to start and
    /// counts as running. With the first tier empty, this poller is to stop
    /// and counts as stopped.
    pub fn promote_imminent(&mut self, now: &Moment) -> (outcome: PassOutcome)
        ensures
            final(self)@ == after_two_minute_pass(old(self)@, *now),
            outcome == two_minute_outcome(old(self)@, *now),
    {
        let ghost tier = self.reminders_30_min@;
        let ghost second = self.reminders_2_min@;
        let mut kept: Vec<Pending> = Vec::new();
        let mut i: usize = 0;
        assert(pending_view(tier.subrange(0, 0)) =~= Seq::empty());
        assert(pending_view(kept@) =~= Seq::empty());
        assert(pending_view(second) + Seq::empty() =~= pending_view(second));
        while i < self.reminders_30_min.len()
            invariant
                i <= tier.len(),
                self.reminders_30_min@ == tier,
                self.two_min_checking == old(self).two_min_checking,
                self.one_secs_checking == old(self).one_secs_checking,
                pending_view(kept@) == pending_view(tier.subrange(0, i as int)).filter(
                    distant(*now),
                ),
                pending_view(self.reminders_2_min@) == pending_view(second) + pending_view(
                    tier.subrange(0, i as int),
                ).filter(imminent(*now)),
            decreases tier.len() - i,
        {
            let ghost seen = tier.subrange(0, i as int);
            let ghost earlier = self.reminders_2_min@;
            let ghost held = kept@;
            let entry = self.reminders_30_min[i].clone();
            proof {
                assert(tier.subrange(0, i + 1) == seen.push(tier[i as int]));
                lemma_pending_view_push(seen, tier[i as int]);
                lemma_filter_push(pending_view(seen), entry@, distant(*now));
                lemma_filter_push(pending_view(seen), entry@, imminent(*now));
                lemma_pending_view_push(earlier, entry);
                lemma_pending_view_push(held, entry);
            }
            if is_within(entry.reminder.time, now.time, TWO_MINUTES) {
                self.reminders_2_min.push(entry);
                assert(pending_view(self.reminders_2_min@) =~= pending_view(second)
                    + pending_view(seen).filter(imminent(*now)).push(entry@));
            } else {
                kept.push(entry);
            }
            i += 1;
        }
        assert(tier.subrange(0, tier.len() as int) == tier);
        self.reminders_30_min = kept;
        let start_next = !self.reminders_2_min.is_empty() && !self.one_secs_checking;
        if start_next {
            self.one_secs_checking = true;
        }
        let finished = self.reminders_30_min.is_empty();
        if finished {
            self.two_min_checking = false;
        }
        assert(self@ =~= after_two_minute_pass(old(self)@, *now));
        PassOutcome { start_next, finished }
    }

    /// One pass of the one-second poller at `now`. The entries of the second
    /// tier whose time is the second that `now` shows leave the tier, and
    /// their messages are handed back for delivery, in their order; the
    /// others stay. With the tier empty, this poller is to stop and counts as
    /// stopped.
    pub fn fire_due(&mut self, now: &Moment) -> (outcome: (Vec<Delivery>, bool))
        ensures
            delivery_view(outcome.0@) == fired(old(self)@, *now),
            final(self)@ == after_one_second_pass(old(self)@, *now),
            outcome.1 == (final(self)@.reminders_2_min.len() == 0),
    {
        let ghost tier = self.reminders_2_min@;
        let mut kept: Vec<Pending> = Vec::new();
        let mut sent: Vec<Delivery> = Vec::new();
        let mut i: usize = 0;
        assert(pending_view(tier.subrange(0, 0)) =~= Seq::empty());
        assert(pending_view(kept@) =~= Seq::empty());
        assert(delivery_view(sent@) =~= deliveries_of(Seq::empty()));
        while i < self.reminders_2_min.len()
            invariant
                i <= tier.len(),
                self.reminders_2_min@ == tier,
                self.reminders_30_min == old(self).reminders_30_min,
                self.two_min_checking == old(self).two_min_checking,
                self.one_secs_checking == old(self).one_secs_checking,
                pending_view(kept@) == pending_view(tier.subrange(0, i as int)).filter(
                    silent(*now),
                ),
                delivery_view(sent@) == deliveries_of(
                    pending_view(tier.subrange(0, i as int)).filter(striking(*now)),
                ),
            decreases tier.len() - i,
        {
            let ghost seen = tier.subrange(0, i as int);
            let ghost held = kept@;
            let ghost gone = sent@;
            let entry = self.reminders_2_min[i].clone();
            proof {
                assert(tier.subrange(0, i + 1) == seen.push(tier[i as int]));
                lemma_pending_view_push(seen, tier[i as int]);
                lemma_filter_push(pending_view(seen), entry@, silent(*now));
                lemma_filter_push(pending_view(seen), entry@, striking(*now));
                lemma_pending_view_push(held, entry);
            }
            if entry.reminder.time.seconds() == now.time.seconds() {
                let delivery = Delivery {
                    channel: entry.channel,
                    message: entry.reminder.message,
                };
                proof {
                    lemma_delivery_view_push(gone, delivery);
                    lemma_deliveries_of_push(
                        pending_view(seen).filter(striking(*now)),
                        entry@,
                    );
                }
                sent.push(delivery);
            } else {
                kept.push(entry);
            }
            i += 1;
        }
        assert(tier.subrange(0, tier.len() as int) == tier);
        self.reminders_2_min = kept;
        let finished = self.reminders_2_min.is_empty();
        if finished {
            self.one_secs_checking = false;
        }
        assert(self@ =~= after_one_second_pass(old(self)@, *now));
        (sent, finished)
    }
}

/// One turn of the reminder task, on its half-hour tick or on a wake-up
/// after a command: a scan at the present moment in `zone`, and then the
/// decision whether the two-minute poller is to start.
pub fn remind_task(
    table: &mut ReminderTable,
    store: &mut ReminderStore,
    zone: &chrono_tz::Tz,
) -> (start_two_min: bool)
    ensures
        exists|now: Moment, scanned: StoreView|
            {
                &&& #[trigger] scan_step(old(table)@, old(store)@, now, final(table)@, scanned)
                &&& start_two_min == (scanned.reminders_30_min.len() > 0
                    && !scanned.two_min_checking)
                &&& final(store)@ == (StoreView {
                    two_min_checking: scanned.two_min_checking || start_two_min,
                    ..scanned
                })
            },
{
    process_reminders(table, store, zone);
    let ghost scanned = store@;
    let ghost now = choose|now: Moment|
        scan_step(old(table)@, old(store)@, now, table@, scanned);
    let start = store.claim_two_min_poller();
    assert(scan_step(old(table)@, old(store)@, now, table@, scanned));
    start
}

/// A scan of `table` at the present moment in `zone`.
pub fn process_reminders(table: &mut ReminderTable, store: &mut ReminderStore, zone: &chrono_tz::Tz)
    ensures
        exists|now: Moment| scan_step(old(table)@, old(store)@, now, final(table)@, final(store)@),
{
    let now = now_in(zone);
    store.promote_due(table, &now);
}

/// One pass of the two-minute poller at the present moment in `zone`.
pub fn check_2min_remind(store: &mut ReminderStore, zone: &chrono_tz::Tz) -> (outcome: PassOutcome)
    ensures
        exists|now: Moment|
            final(store)@ == #[trigger] after_two_minute_pass(old(store)@, now) && outcome
                == two_minute_outcome(old(store)@, now),
{
    let now = now_in(zone);
    store.promote_imminent(&now)
}

/// One pass of the one-second poller at the present moment in `zone`: the
/// deliveries to make, and whether the poller is to stop.
pub fn check_1secs_remind(store: &mut ReminderStore, zone: &chrono_tz::Tz) -> (outcome: (
    Vec<Delivery>,
    bool,
))
    ensures
        exists|now: Moment|
            {
                &&& final(store)@ == #[trigger] after_one_second_pass(old(store)@, now)
                &&& delivery_view(outcome.0@) == fired(old(store)@, now)
                &&& outcome.1 == (final(store)@.reminders_2_min.len() == 0)
            },
{
    let now = now_in(zone);
    store.fire_due(&now)
}

} // verus!
