use reminder_bot::cash::{Cash, CashList, DelError};

fn debt(creator: u64, debtor: &str, creditor: &str, debt: u64, ps: &str) -> Cash {
    Cash {
        creator,
        debtor: debtor.to_string(),
        creditor: creditor.to_string(),
        debt,
        ps: ps.to_string(),
    }
}

#[test]
fn an_empty_ledger_says_so() {
    let mut list = CashList::new();
    assert_eq!(list.look(1), "V 目前沒有任何欠款 V");
    list.set_debts(1, vec![]);
    assert_eq!(list.look(1), "V 目前沒有任何欠款 V");
    assert!(list.debts(2).is_none());
    assert_eq!(list.guild_ids(), vec![1]);
}

#[test]
fn debts_are_listed_in_order() {
    let mut list = CashList::new();
    list.add(1, debt(9, "@a", "@b", 120, ""));
    list.add(1, debt(9, "@c", "@d", 0, "lunch"));
    list.add(2, debt(9, "@e", "@f", 5, ""));
    assert_eq!(
        list.look(1),
        "V 欠債列表 V\n1. @a 欠 @b 120元\n2. @c 欠 @d 0元 ，備註:lunch\n"
    );
    assert_eq!(list.look(2), "V 欠債列表 V\n1. @e 欠 @f 5元\n");
    assert_eq!(list.debts(1).unwrap().len(), 2);
}

#[test]
fn only_the_writer_deletes() {
    let mut list = CashList::new();
    list.add(1, debt(9, "@a", "@b", 120, ""));
    list.add(1, debt(8, "@c", "@d", 7, ""));
    assert_eq!(list.del(1, 2, 9).unwrap_err(), DelError::NotCreator);
    assert_eq!(list.debts(1).unwrap().len(), 2);
    let deleted = list.del(1, 2, 8).unwrap();
    assert_eq!(deleted.debtor, "@c");
    assert_eq!(list.debts(1).unwrap().len(), 1);
    assert_eq!(list.debts(1).unwrap()[0].debtor, "@a");
}

#[test]
fn deleting_needs_a_ledger_and_a_number_in_it() {
    let mut list = CashList::new();
    assert_eq!(list.del(1, 1, 9).unwrap_err(), DelError::NothingToDelete);
    list.add(1, debt(9, "@a", "@b", 120, ""));
    for index in [0i64, -1, 2, i64::MAX, i64::MIN] {
        assert_eq!(list.del(1, index, 9).unwrap_err(), DelError::IndexOutOfRange);
    }
    assert!(list.del(1, 1, 9).is_ok());
    assert_eq!(list.del(1, 1, 9).unwrap_err(), DelError::IndexOutOfRange);
    assert_eq!(list.guild_ids(), vec![1]);
}
