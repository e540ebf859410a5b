//! The list of members who are banned from speaking until a time of day.

use crate::clock::{TimeOfDay, DAY_SECONDS};
use vstd::arithmetic::div_mod::{lemma_fundamental_div_mod, lemma_mod_multiples_vanish};
use vstd::prelude::*;

verus! {

/// The member who cannot be banned.
pub const PROTECTED_USER: u64 = 412803325768237066;

/// One ban: `user` is muted until the clock shows `until`.
#[derive(Clone, Copy, Debug, PartialEq, Eq, Structural)]
pub struct Ban {
    pub user: u64,
    pub until: TimeOfDay,
}

/// The bans in force, in the order in which they were imposed.
pub struct BanList {
    pub entries: Vec<Ban>,
}

/// Why a member was not banned.
#[derive(Clone, Copy, Debug, PartialEq, Eq, Structural)]
pub enum BanError {
    /// The member is the protected one.
    Protected,
    /// The member is on the list already.
    AlreadyBanned,
}

/// What to do when a member's voice state changes.
#[derive(Clone, Copy, Debug, PartialEq, Eq, Structural)]
pub enum VoiceAction {
    /// Leave the member alone.
    Nothing,
    /// The ban has run out and was lifted.
    Unban,
    /// The ban holds: mute the member.
    Mute,
}

impl View for BanList {
    type V = Seq<(u64, nat)>;

    open spec fn view(&self) -> Seq<(u64, nat)> {
        Seq::new(self.entries@.len(), |i: int| (self.entries@[i].user, self.entries@[i].until@))
    }
}

/// The position of the first ban of `user` among the first `count` bans, or
/// `count` where there is none.
pub open spec fn first_ban(list: Seq<(u64, nat)>, user: u64, count: int) -> int
    decreases count,
{
    if count <= 0 {
        0
    } else if first_ban(list, user, count - 1) < count - 1 || list[count - 1].0 != user {
        first_ban(list, user, count - 1) + if first_ban(list, user, count - 1) < count - 1 {
            0int
        } else {
            1int
        }
    } else {
        count - 1
    }
}

/// Whether `user` is on the list.
pub open spec fn banned(list: Seq<(u64, nat)>, user: u64) -> bool {
    first_ban(list, user, list.len() as int) < list.len()
}

/// The bans of everyone but `user`.
pub open spec fn others(user: u64) -> spec_fn((u64, nat)) -> bool {
    |ban: (u64, nat)| ban.0 != user
}

/// The time of day `minutes` minutes after `now`, on a clock that wraps at
/// midnight in both directions.
pub open spec fn ban_end(now: nat, minutes: int) -> nat {
    ((now + minutes * 60) % (DAY_SECONDS as int)) as nat
}

/// What a change of voice state asks for: nothing where the member stayed
/// in the channel or is not banned; else the ban's end decides.
pub open spec fn voice_action(list: Seq<(u64, nat)>, user: u64, moved: bool, now: nat) -> VoiceAction {
    if !moved || !banned(list, user) {
        VoiceAction::Nothing
    } else if list[first_ban(list, user, list.len() as int)].1 < now {
        VoiceAction::Unban
    } else {
        VoiceAction::Mute
    }
}

impl BanList {
    /// The empty list.
    pub fn new() -> (list: BanList)
        ensures
            list@ == Seq::<(u64, nat)>::empty(),
    {
        let list = BanList { entries: Vec::new() };
        assert(list@ =~= Seq::<(u64, nat)>::empty());
        list
    }

    /// The position of the first ban of `user`, or the list's length.
    pub fn position(&self, user: u64) -> (at: usize)
        ensures
            at == first_ban(self@, user, self@.len() as int),
            at <= self.entries.len(),
            at < self.entries.len() ==> self.entries@[at as int].user == user,
    {
        let mut i: usize = 0;
        while i < self.entries.len()
            invariant
                i <= self.entries.len(),
                first_ban(self@, user, i as int) == i,
            decreases self.entries.len() - i,
        {
            if self.entries[i].user == user {
                proof {
                    lemma_first_ban_stays(self@, user, i as int, self@.len() as int);
                }
                return i;
            }
            i += 1;
        }
        i
    }

    /// Bans `user` for `minutes` minutes from `now`.
    pub fn add(&mut self, user: u64, now: TimeOfDay, minutes: i64) -> (outcome: Result<
        TimeOfDay,
        BanError,
    >)
        ensures
            match outcome {
                Ok(until) => {
                    &&& user != PROTECTED_USER
                    &&& !banned(old(self)@, user)
                    &&& until@ == ban_end(now@, minutes as int)
                    &&& final(self)@ == old(self)@.push((user, until@))
                },
                Err(BanError::Protected) => user == PROTECTED_USER && final(self)@ == old(self)@,
                Err(BanError::AlreadyBanned) => {
                    &&& user != PROTECTED_USER
                    &&& banned(old(self)@, user)
                    &&& final(self)@ == old(self)@
                },
            },
    {
        if user == PROTECTED_USER {
            return Err(BanError::Protected);
        }
        if self.position(user) < self.entries.len() {
            return Err(BanError::AlreadyBanned);
        }
        let rest: i64 = minutes % 1440;
        let shift: u32 = if rest < 0 {
            (rest + 1440) as u32
        } else {
            rest as u32
        };
        let until = now.plus_seconds(shift * 60);
        proof {
            let whole = (minutes as int) / 1440;
            lemma_fundamental_div_mod(minutes as int, 1440);
            assert(shift == (minutes as int) % 1440);
            assert(now@ + minutes * 60 == 86400 * whole + (now@ + shift * 60));
            lemma_mod_multiples_vanish(whole, now@ + shift * 60, 86400);
        }
        self.entries.push(Ban { user, until });
        assert(self@ =~= old(self)@.push((user, until@)));
        Ok(until)
    }

    /// Lifts every ban of `user`.
    pub fn unban(&mut self, user: u64)
        ensures
            final(self)@ == old(self)@.filter(others(user)),
    {
        let ghost before = self@;
        let mut kept: Vec<Ban> = Vec::new();
        let mut i: usize = 0;
        assert(before.subrange(0, 0).filter(others(user)) =~= Seq::empty()) by {
            reveal(Seq::filter);
        }
        while i < self.entries.len()
            invariant
                i <= self.entries.len(),
                self@ == before,
                Seq::new(kept@.len(), |k: int| (kept@[k].user, kept@[k].until@))
                    == before.subrange(0, i as int).filter(others(user)),
            decreases self.entries.len() - i,
        {
            let ban = self.entries[i];
            proof {
                reveal(Seq::filter);
                assert(before.subrange(0, i + 1).drop_last() == before.subrange(0, i as int));
            }
            if ban.user != user {
                kept.push(ban);
            }
            assert(Seq::new(kept@.len(), |k: int| (kept@[k].user, kept@[k].until@))
                =~= before.subrange(0, i + 1).filter(others(user)));
            i += 1;
        }
        assert(before.subrange(0, before.len() as int) == before);
        self.entries = kept;
        assert(self@ =~= before.filter(others(user)));
    }

    /// Decides what a change of the voice state of `user` at `now` asks
    /// for, and lifts the member's bans where the first has run out.
    pub fn on_voice_change(&mut self, user: u64, moved: bool, now: TimeOfDay) -> (action:
        VoiceAction)
        ensures
            action == voice_action(old(self)@, user, moved, now@),
            final(self)@ == if action == VoiceAction::Unban {
                old(self)@.filter(others(user))
            } else {
                old(self)@
            },
    {
        if !moved {
            return VoiceAction::Nothing;
        }
        let at = self.position(user);
        if at >= self.entries.len() {
            return VoiceAction::Nothing;
        }
        if self.entries[at].until.seconds() < now.seconds() {
            self.unban(user);
            VoiceAction::Unban
        } else {
            VoiceAction::Mute
        }
    }
}

/// Once found, the first ban of a member stays the first as the list grows.
proof fn lemma_first_ban_stays(list: Seq<(u64, nat)>, user: u64, at: int, count: int)
    requires
        0 <= at < count <= list.len(),
        first_ban(list, user, at) == at,
        list[at].0 == user,
    ensures
        first_ban(list, user, count) == at,
    decreases count - at,
{
    if count > at + 1 {
        lemma_first_ban_stays(list, user, at, count - 1);
    }
}

} // verus!
