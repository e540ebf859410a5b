//! The ledger of debts between the members of a guild.

use crate::table::keys_of;
use crate::text::{natural_string, natural_text};
use std::collections::HashMap;
use vstd::prelude::*;
use vstd::std_specs::hash::*;
use vstd::string::*;

verus! {

broadcast use vstd::std_specs::hash::group_hash_axioms;

/// One debt: `debtor` owes `creditor` the sum `debt`; `creator` wrote it
/// down, with the note `ps`.
#[derive(Debug)]
pub struct Cash {
    pub creator: u64,
    pub debtor: String,
    pub creditor: String,
    pub debt: u64,
    pub ps: String,
}

/// A debt as a mathematical value.
pub struct CashView {
    pub creator: u64,
    pub debtor: Seq<char>,
    pub creditor: Seq<char>,
    pub debt: nat,
    pub ps: Seq<char>,
}

impl View for Cash {
    type V = CashView;

    open spec fn view(&self) -> CashView {
        CashView {
            creator: self.creator,
            debtor: self.debtor@,
            creditor: self.creditor@,
            debt: self.debt as nat,
            ps: self.ps@,
        }
    }
}

/// Debts as mathematical values.
pub open spec fn debts_view(debts: Seq<Cash>) -> Seq<CashView> {
    Seq::new(debts.len(), |i: int| debts[i]@)
}

/// Why a debt was not deleted.
#[derive(Clone, Copy, Debug, PartialEq, Eq, Structural)]
pub enum DelError {
    /// The guild has no ledger.
    NothingToDelete,
    /// The ledger has no debt with that number.
    IndexOutOfRange,
    /// Someone else wrote the debt down.
    NotCreator,
}

/// The ledgers of all guilds.
pub struct CashList {
    guilds: HashMap<u64, Vec<Cash>>,
}

impl View for CashList {
    type V = Map<u64, Seq<CashView>>;

    closed spec fn view(&self) -> Map<u64, Seq<CashView>> {
        Map::new(|g: u64| self.guilds@.contains_key(g), |g: u64| debts_view(self.guilds@[g]@))
    }
}

/// The debts of `guild`, none where it has no ledger.
pub open spec fn debts_at(ledgers: Map<u64, Seq<CashView>>, guild: u64) -> Seq<CashView> {
    if ledgers.contains_key(guild) {
        ledgers[guild]
    } else {
        Seq::empty()
    }
}

/// The line of the debt with the one-based number `index` in its ledger.
pub open spec fn debt_line(index: nat, cash: CashView) -> Seq<char> {
    natural_text(index) + ". "@ + cash.debtor + " 欠 "@ + cash.creditor + " "@ + natural_text(
        cash.debt,
    ) + (if cash.ps.len() == 0 {
        "元\n"@
    } else {
        "元 ，備註:"@ + cash.ps + "\n"@
    })
}

/// The lines of the first `count` debts, numbered from 1 as the deletion of
/// a debt numbers them.
pub open spec fn debt_lines(debts: Seq<CashView>, count: nat) -> Seq<char>
    decreases count,
{
    if count == 0 {
        Seq::empty()
    } else {
        debt_lines(debts, (count - 1) as nat) + debt_line(count, debts[count - 1])
    }
}

/// The listing of a ledger: a heading and one line for each debt, or a note
/// that there is none.
pub open spec fn ledger_text(debts: Seq<CashView>) -> Seq<char> {
    if debts.len() == 0 {
        "V 目前沒有任何欠款 V"@
    } else {
        "V 欠債列表 V\n"@ + debt_lines(debts, debts.len())
    }
}

impl CashList {
    /// No ledgers.
    pub fn new() -> (list: CashList)
        ensures
            list@ == Map::<u64, Seq<CashView>>::empty(),
    {
        let list = CashList { guilds: HashMap::new() };
        assert(list@ =~= Map::<u64, Seq<CashView>>::empty());
        list
    }

    /// Writes `cash` at the end of the ledger of `guild`.
    pub fn add(&mut self, guild: u64, cash: Cash)
        ensures
            final(self)@ == old(self)@.insert(guild, debts_at(old(self)@, guild).push(cash@)),
    {
        let mut debts = match self.guilds.remove(&guild) {
            Some(debts) => debts,
            None => Vec::new(),
        };
        assert(debts_view(debts@) =~= debts_at(old(self)@, guild));
        debts.push(cash);
        assert(debts_view(debts@) =~= debts_at(old(self)@, guild).push(cash@));
        self.guilds.insert(guild, debts);
        assert(self@ =~= old(self)@.insert(guild, debts_at(old(self)@, guild).push(cash@)));
    }

    /// Makes `debts` the ledger of `guild`.
    pub fn set_debts(&mut self, guild: u64, debts: Vec<Cash>)
        ensures
            final(self)@ == old(self)@.insert(guild, debts_view(debts@)),
    {
        self.guilds.insert(guild, debts);
        assert(self@ =~= old(self)@.insert(guild, debts_view(debts@)));
    }

    /// The ledger of `guild`, where it has one.
    pub fn debts(&self, guild: u64) -> (debts: Option<&Vec<Cash>>)
        ensures
            debts is Some <==> self@.contains_key(guild),
            debts matches Some(found) ==> debts_view(found@) == self@[guild],
    {
        self.guilds.get(&guild)
    }

    /// The guilds that have a ledger, each once, in no particular order.
    pub fn guild_ids(&self) -> (ids: Vec<u64>)
        ensures
            ids@.no_duplicates(),
            ids@.to_set() == self@.dom(),
    {
        let ids = keys_of(&self.guilds);
        assert(self@.dom() =~= self.guilds@.dom());
        ids
    }

    /// Deletes, for `user`, the debt with the one-based number `index` from
    /// the ledger of `guild`. Only the member who wrote a debt down may
    /// delete it.
    pub fn del(&mut self, guild: u64, index: i64, user: u64) -> (outcome: Result<Cash, DelError>)
        ensures
            match outcome {
                Ok(deleted) => {
                    &&& old(self)@.contains_key(guild)
                    &&& 1 <= index <= old(self)@[guild].len()
                    &&& old(self)@[guild][index - 1].creator == user
                    &&& deleted@ == old(self)@[guild][index - 1]
                    &&& final(self)@ == old(self)@.insert(
                        guild,
                        old(self)@[guild].remove(index - 1),
                    )
                },
                Err(DelError::NothingToDelete) => {
                    &&& !old(self)@.contains_key(guild)
                    &&& final(self)@ == old(self)@
                },
                Err(DelError::IndexOutOfRange) => {
                    &&& old(self)@.contains_key(guild)
                    &&& !(1 <= index <= old(self)@[guild].len())
                    &&& final(self)@ == old(self)@
                },
                Err(DelError::NotCreator) => {
                    &&& old(self)@.contains_key(guild)
                    &&& 1 <= index <= old(self)@[guild].len()
                    &&& old(self)@[guild][index - 1].creator != user
                    &&& final(self)@ == old(self)@
                },
            },
    {
        match self.guilds.get(&guild) {
            None => {
                return Err(DelError::NothingToDelete);
            },
            Some(debts) => {
                if index < 1 || index as u64 > debts.len() as u64 {
                    return Err(DelError::IndexOutOfRange);
                }
                if debts[(index - 1) as usize].creator != user {
                    return Err(DelError::NotCreator);
                }
            },
        }
        let mut debts = match self.guilds.remove(&guild) {
            Some(debts) => debts,
            None => Vec::new(),
        };
        assert(debts_view(debts@) =~= old(self)@[guild]);
        let deleted = debts.remove((index - 1) as usize);
        assert(debts_view(debts@) =~= old(self)@[guild].remove(index - 1));
        self.guilds.insert(guild, debts);
        assert(self@ =~= old(self)@.insert(guild, old(self)@[guild].remove(index - 1)));
        Ok(deleted)
    }

    /// Lists the debts of `guild`.
    pub fn look(&self, guild: u64) -> (text: String)
        ensures
            text@ == ledger_text(debts_at(self@, guild)),
    {
        match self.guilds.get(&guild) {
            None => String::from_str("V 目前沒有任何欠款 V"),
            Some(debts) => {
                if debts.is_empty() {
                    return String::from_str("V 目前沒有任何欠款 V");
                }
                let ghost lines = debts_view(debts@);
                let mut text = String::from_str("V 欠債列表 V\n");
                let ghost head = text@;
                let mut i: usize = 0;
                assert(text@ =~= head + debt_lines(lines, 0));
                while i < debts.len()
                    invariant
                        i <= debts.len(),
                        lines == debts_view(debts@),
                        text@ == head + debt_lines(lines, i as nat),
                    decreases debts.len() - i,
                {
                    let ghost earlier = text@;
                    let cash = &debts[i];
                    text.append(natural_string(i as u64 + 1).as_str());
                    text.append(". ");
                    text.append(cash.debtor.as_str());
                    text.append(" 欠 ");
                    text.append(cash.creditor.as_str());
                    text.append(" ");
                    text.append(natural_string(cash.debt).as_str());
                    if cash.ps.as_str().unicode_len() == 0 {
                        text.append("元\n");
                    } else {
                        text.append("元 ，備註:");
                        text.append(cash.ps.as_str());
                        text.append("\n");
                    }
                    assert(text@ =~= earlier + debt_line((i + 1) as nat, lines[i as int]));
                    assert(text@ =~= head + debt_lines(lines, (i + 1) as nat));
                    i += 1;
                }
                text
            },
        }
    }
}

} // verus!
