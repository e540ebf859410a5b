//! A weekly reminder and the tests that decide when it moves on.

use crate::clock::{Date, Moment, TimeOfDay, Weekday};
use vstd::prelude::*;

verus! {

/// The width of the first tier's window, in seconds.
pub const HALF_HOUR: u32 = 1800;

/// The width of the second tier's window, in seconds.
pub const TWO_MINUTES: u32 = 120;

/// One weekly reminder: on each of `weekdays`, at `time`, `message` goes to
/// the reminder's channel. `last_executed` is the day on which it was last
/// taken up for delivery.
#[derive(Debug)]
pub struct Reminder {
    pub weekdays: Vec<Weekday>,
    pub time: TimeOfDay,
    pub message: String,
    pub last_executed: Option<Date>,
}

/// A reminder as a mathematical value.
pub struct ReminderView {
    pub weekdays: Seq<Weekday>,
    /// Seconds since midnight.
    pub time: nat,
    pub message: Seq<char>,
    pub last_executed: Option<Date>,
}

impl View for Reminder {
    type V = ReminderView;

    open spec fn view(&self) -> ReminderView {
        ReminderView {
            weekdays: self.weekdays@,
            time: self.time@,
            message: self.message@,
            last_executed: self.last_executed,
        }
    }
}

/// Whether `time` lies after `now` and no more than `span` seconds after
/// it, all in seconds since midnight of one day: the window is open at
/// `now` and closed at its end, and it ends with the day.
pub open spec fn within(time: nat, now: nat, span: nat) -> bool {
    now < time && time <= now + span
}

impl ReminderView {
    /// Whether a scan at `now` takes the reminder up: today is one of its
    /// weekdays, its time lies in the half hour after `now`, and it was not
    /// taken up today already.
    pub open spec fn due(self, now: Moment) -> bool {
        &&& self.weekdays.contains(now.weekday)
        &&& within(self.time, now.time@, HALF_HOUR as nat)
        &&& self.last_executed != Some(now.date)
    }

    /// The reminder marked as taken up on `date`.
    pub open spec fn stamped(self, date: Date) -> ReminderView {
        ReminderView { last_executed: Some(date), ..self }
    }

    /// The reminder as a scan at `now` leaves it.
    pub open spec fn scanned(self, now: Moment) -> ReminderView {
        if self.due(now) {
            self.stamped(now.date)
        } else {
            self
        }
    }
}

/// Whether `time` lies in the window of `span` seconds after `now`.
pub fn is_within(time: TimeOfDay, now: TimeOfDay, span: u32) -> (inside: bool)
    ensures
        inside == within(time@, now@, span as nat),
{
    now.seconds() < time.seconds() && time.seconds() - now.seconds() <= span
}

impl Reminder {
    /// A reminder that has never been taken up.
    pub fn new(weekdays: Vec<Weekday>, time: TimeOfDay, message: String) -> (reminder: Reminder)
        ensures
            reminder@ == (ReminderView {
                weekdays: weekdays@,
                time: time@,
                message: message@,
                last_executed: None,
            }),
    {
        Reminder { weekdays, time, message, last_executed: None }
    }

    /// Whether `day` is one of the reminder's weekdays.
    pub fn falls_on(&self, day: Weekday) -> (found: bool)
        ensures
            found == self@.weekdays.contains(day),
    {
        let mut i: usize = 0;
        while i < self.weekdays.len()
            invariant
                i <= self.weekdays.len(),
                forall|j: int| 0 <= j < i ==> self.weekdays@[j] != day,
            decreases self.weekdays.len() - i,
        {
            if self.weekdays[i] == day {
                return true;
            }
            i += 1;
        }
        false
    }

    /// Whether a scan at `now` takes the reminder up.
    pub fn is_due(&self, now: &Moment) -> (due: bool)
        ensures
            due == self@.due(*now),
    {
        let fresh = match self.last_executed {
            Some(date) => date != now.date,
            None => true,
        };
        self.falls_on(now.weekday) && is_within(self.time, now.time, HALF_HOUR) && fresh
    }
}

impl Clone for Reminder {
    fn clone(&self) -> (copy: Reminder)
        ensures
            copy@ == self@,
    {
        let mut weekdays: Vec<Weekday> = Vec::new();
        let mut i: usize = 0;
        while i < self.weekdays.len()
            invariant
                i <= self.weekdays.len(),
                weekdays@ == self.weekdays@.subrange(0, i as int),
            decreases self.weekdays.len() - i,
        {
            weekdays.push(self.weekdays[i]);
            i += 1;
        }
        assert(weekdays@ == self.weekdays@);
        Reminder {
            weekdays,
            time: self.time,
            message: self.message.clone(),
            last_executed: self.last_executed,
        }
    }
}

/// A reminder on its way to delivery, with the channel it goes to.
#[derive(Debug)]
pub struct Pending {
    pub channel: u64,
    pub reminder: Reminder,
}

/// A pending reminder as a mathematical value.
pub struct PendingView {
    pub channel: u64,
    pub reminder: ReminderView,
}

impl View for Pending {
    type V = PendingView;

    open spec fn view(&self) -> PendingView {
        PendingView { channel: self.channel, reminder: self.reminder@ }
    }
}

impl Clone for Pending {
    fn clone(&self) -> (copy: Pending)
        ensures
            copy@ == self@,
    {
        Pending { channel: self.channel, reminder: self.reminder.clone() }
    }
}

/// A tier's entries as mathematical values.
pub open spec fn pending_view(tier: Seq<Pending>) -> Seq<PendingView> {
    Seq::new(tier.len(), |i: int| tier[i]@)
}

/// The view of a tier with one more entry.
pub proof fn lemma_pending_view_push(tier: Seq<Pending>, entry: Pending)
    ensures
        pending_view(tier.push(entry)) == pending_view(tier).push(entry@),
{
    assert(pending_view(tier.push(entry)) =~= pending_view(tier).push(entry@));
}

} // verus!
