use yosoku_ledger::{
    Account, AccountData, Ledger, LedgerError, MemoryLedger, Posting, Token, TokenAmount,
    Transaction, TransactionData, TransactionStatus, SYSTEM_ACCOUNT_ID,
};

fn system() -> Account {
    Account(SYSTEM_ACCOUNT_ID)
}

fn posting(account: Account, amount: i64) -> Posting {
    Posting { account, amount: TokenAmount(Token::SiteCurrency, amount) }
}

fn transfer(creator: Account, postings: Vec<Posting>) -> Transaction {
    Transaction {
        postings,
        created_by: creator,
        status: TransactionStatus::Proposed,
        data: TransactionData::Transfer,
        memo: String::from("transfer"),
    }
}

fn balance(ledger: &MemoryLedger, account: Account) -> i64 {
    let r = ledger.account_balance(account, Token::SiteCurrency);
    assert_eq!(r.0, Token::SiteCurrency);
    r.1
}

fn ledger_with_two() -> (MemoryLedger, Account, Account) {
    let mut ledger = MemoryLedger::new();
    let a = ledger.create_account(AccountData::User, system()).unwrap();
    let b = ledger.create_account(AccountData::User, system()).unwrap();
    (ledger, a, b)
}

#[test]
fn empty_ledger_balance_is_zero() {
    let ledger = MemoryLedger::new();
    assert_eq!(
        ledger.account_balance(system(), Token::SiteCurrency),
        TokenAmount(Token::SiteCurrency, 0)
    );
    assert_eq!(
        ledger.account_balance(Account(42), Token::SiteCurrency),
        TokenAmount(Token::SiteCurrency, 0)
    );
}

#[test]
fn new_ledger_holds_system_account_creation() {
    let ledger = MemoryLedger::new();
    assert_eq!(ledger.time(), 0);
    let txns = ledger.transactions();
    assert_eq!(txns.len(), 1);
    assert!(txns[0].postings.is_empty());
    assert_eq!(txns[0].created_by, system());
    assert_eq!(txns[0].status, TransactionStatus::Finalised { time: 0 });
    assert_eq!(txns[0].data, TransactionData::AccountCreation(system()));
    assert_eq!(ledger.account_type(system()), Some(AccountData::System));
    assert_eq!(ledger.account_type(Account(1)), None);
}

#[test]
fn balanced_transfer_updates_balances() {
    let (mut ledger, a, b) = ledger_with_two();
    let r = ledger.transact(transfer(system(), vec![posting(a, 50), posting(b, -50)]));
    assert_eq!(r, Ok(()));
    assert_eq!(balance(&ledger, a), 50);
    assert_eq!(balance(&ledger, b), -50);
    assert_eq!(balance(&ledger, system()), 0);
}

#[test]
fn imbalanced_transaction_rejected() {
    let (mut ledger, a, b) = ledger_with_two();
    let len = ledger.transactions().len();
    let time = ledger.time();
    let r = ledger.transact(transfer(system(), vec![posting(a, 30), posting(b, -20)]));
    assert_eq!(r, Err(LedgerError::ImbalancedTransaction));
    assert_eq!(ledger.transactions().len(), len);
    assert_eq!(ledger.time(), time);
    assert_eq!(balance(&ledger, a), 0);
    assert_eq!(balance(&ledger, b), 0);
}

#[test]
fn unknown_posting_account_rejected() {
    let (mut ledger, a, _b) = ledger_with_two();
    let len = ledger.transactions().len();
    let r = ledger.transact(transfer(system(), vec![posting(a, 5), posting(Account(99), -5)]));
    assert_eq!(r, Err(LedgerError::UnknownAccount));
    assert_eq!(ledger.transactions().len(), len);
    assert_eq!(balance(&ledger, a), 0);
}

#[test]
fn unknown_creator_rejected() {
    let (mut ledger, a, b) = ledger_with_two();
    let r = ledger.transact(transfer(Account(7), vec![posting(a, 5), posting(b, -5)]));
    assert_eq!(r, Err(LedgerError::UnknownAccount));
}

#[test]
fn imbalance_reported_before_unknown_account() {
    let mut ledger = MemoryLedger::new();
    let r = ledger.transact(transfer(Account(7), vec![posting(Account(8), 5)]));
    assert_eq!(r, Err(LedgerError::ImbalancedTransaction));
}

#[test]
fn overflowing_balance_rejected() {
    let (mut ledger, a, b) = ledger_with_two();
    let r = ledger.transact(transfer(system(), vec![posting(a, i64::MAX), posting(b, -i64::MAX)]));
    assert_eq!(r, Ok(()));
    let len = ledger.transactions().len();
    let r = ledger.transact(transfer(system(), vec![posting(a, 1), posting(b, -1)]));
    assert_eq!(r, Err(LedgerError::BalanceOverflow));
    assert_eq!(ledger.transactions().len(), len);
    assert_eq!(balance(&ledger, a), i64::MAX);
    assert_eq!(balance(&ledger, b), -i64::MAX);
    let r = ledger.transact(transfer(system(), vec![posting(a, -1), posting(b, 1)]));
    assert_eq!(r, Ok(()));
    assert_eq!(balance(&ledger, a), i64::MAX - 1);
}

#[test]
fn extreme_amounts_in_one_transaction() {
    let (mut ledger, a, b) = ledger_with_two();
    let r = ledger.transact(transfer(
        system(),
        vec![posting(a, i64::MAX), posting(a, i64::MAX), posting(b, i64::MIN), posting(b, i64::MIN), posting(a, 2)],
    ));
    assert_eq!(r, Err(LedgerError::BalanceOverflow));
    let r = ledger.transact(transfer(
        system(),
        vec![posting(a, i64::MAX), posting(a, -i64::MAX), posting(b, i64::MIN), posting(a, i64::MIN), posting(b, i64::MAX), posting(a, i64::MAX), posting(b, 1), posting(a, 1), posting(b, -1), posting(a, -1), posting(b, -1), posting(b, 1), posting(a, 0)],
    ));
    assert_eq!(r, Err(LedgerError::ImbalancedTransaction));
}

#[test]
fn same_account_postings_net_out() {
    let (mut ledger, a, _b) = ledger_with_two();
    let r = ledger.transact(transfer(a, vec![posting(a, 50), posting(a, -50)]));
    assert_eq!(r, Ok(()));
    assert_eq!(balance(&ledger, a), 0);
}

#[test]
fn empty_transfer_accepted() {
    let mut ledger = MemoryLedger::new();
    assert_eq!(ledger.transact(transfer(system(), vec![])), Ok(()));
    assert_eq!(ledger.transactions().len(), 2);
}

#[test]
fn accepted_transaction_is_stamped_with_next_time() {
    let (mut ledger, a, b) = ledger_with_two();
    assert_eq!(ledger.time(), 2);
    let r = ledger.transact(transfer(a, vec![posting(a, 10), posting(b, -10)]));
    assert_eq!(r, Ok(()));
    assert_eq!(ledger.time(), 3);
    let txns = ledger.transactions();
    assert_eq!(txns.len(), 4);
    let last = &txns[3];
    assert_eq!(last.status, TransactionStatus::Finalised { time: 3 });
    assert_eq!(last.created_by, a);
    assert_eq!(last.data, TransactionData::Transfer);
    assert_eq!(last.memo, "transfer");
    assert_eq!(last.postings, vec![posting(a, 10), posting(b, -10)]);
}

#[test]
fn create_account_returns_fresh_identifiers() {
    let mut ledger = MemoryLedger::new();
    let mut seen = vec![system()];
    for kind in [AccountData::User, AccountData::Contract, AccountData::BonusSource, AccountData::User] {
        let before = ledger.transactions().len();
        let id = ledger.create_account(kind, system()).unwrap();
        assert!(!seen.contains(&id));
        seen.push(id);
        assert_eq!(ledger.account_type(id), Some(kind));
        let txns = ledger.transactions();
        assert_eq!(txns.len(), before + 1);
        let last = &txns[before];
        assert!(last.postings.is_empty());
        assert_eq!(last.created_by, system());
        assert_eq!(last.data, TransactionData::AccountCreation(id));
        assert_eq!(last.status, TransactionStatus::Finalised { time: before as u64 });
    }
    assert_eq!(seen.len(), 5);
}

#[test]
fn create_account_by_created_account() {
    let (mut ledger, a, _b) = ledger_with_two();
    let c = ledger.create_account(AccountData::Contract, a).unwrap();
    assert_eq!(ledger.transactions().last().unwrap().created_by, a);
    assert_eq!(ledger.account_type(c), Some(AccountData::Contract));
}

#[test]
fn create_account_with_unknown_creator_rejected() {
    let mut ledger = MemoryLedger::new();
    let r = ledger.create_account(AccountData::User, Account(3));
    assert_eq!(r, Err(LedgerError::UnknownAccount));
    assert_eq!(ledger.transactions().len(), 1);
    assert_eq!(ledger.time(), 0);
    assert_eq!(ledger.account_type(Account(1)), None);
}

#[test]
fn every_logged_transaction_is_balanced() {
    let (mut ledger, a, b) = ledger_with_two();
    ledger.transact(transfer(a, vec![posting(a, 7), posting(b, -7)])).unwrap();
    let _ = ledger.transact(transfer(a, vec![posting(a, 7), posting(b, -6)]));
    ledger.transact(transfer(b, vec![posting(b, 3), posting(a, -1), posting(a, -2)])).unwrap();
    for (i, txn) in ledger.transactions().iter().enumerate() {
        assert!(txn.is_balanced());
        assert_eq!(txn.status, TransactionStatus::Finalised { time: i as u64 });
    }
}

#[test]
fn balances_independent_of_submission_order() {
    let (mut first, a, b) = ledger_with_two();
    let (mut second, _, _) = ledger_with_two();
    let c = first.create_account(AccountData::User, system()).unwrap();
    let d = first.create_account(AccountData::User, system()).unwrap();
    assert_eq!(second.create_account(AccountData::User, system()), Ok(c));
    assert_eq!(second.create_account(AccountData::User, system()), Ok(d));
    let x = transfer(a, vec![posting(a, 12), posting(b, -12)]);
    let y = transfer(c, vec![posting(c, -4), posting(d, 4)]);
    first.transact(x.clone()).unwrap();
    first.transact(y.clone()).unwrap();
    second.transact(y).unwrap();
    second.transact(x).unwrap();
    for acct in [a, b, c, d] {
        assert_eq!(balance(&first, acct), balance(&second, acct));
    }
    assert_eq!(balance(&first, a), 12);
    assert_eq!(balance(&first, d), 4);
}

#[test]
fn balance_sums_over_whole_log() {
    let (mut ledger, a, b) = ledger_with_two();
    ledger.transact(transfer(a, vec![posting(a, 100), posting(b, -100)])).unwrap();
    ledger.transact(transfer(a, vec![posting(a, -30), posting(b, 30)])).unwrap();
    ledger.transact(transfer(a, vec![posting(b, 5), posting(a, -5)])).unwrap();
    assert_eq!(balance(&ledger, a), 65);
    assert_eq!(balance(&ledger, b), -65);
}

fn creation(creator: Account, account: Account) -> Transaction {
    Transaction {
        postings: vec![],
        created_by: creator,
        status: TransactionStatus::Proposed,
        data: TransactionData::AccountCreation(account),
        memo: String::new(),
    }
}

#[test]
fn creation_tag_registers_account() {
    let mut ledger = MemoryLedger::new();
    assert_eq!(ledger.transact(creation(system(), Account(5))), Ok(()));
    assert_eq!(ledger.account_type(Account(5)), None);
    let c = ledger.create_account(AccountData::User, Account(5)).unwrap();
    assert_ne!(c, Account(5));
    assert_ne!(c, system());
    assert_eq!(ledger.account_type(c), Some(AccountData::User));
    let r = ledger.transact(transfer(Account(5), vec![posting(Account(5), 9), posting(c, -9)]));
    assert_eq!(r, Ok(()));
    assert_eq!(balance(&ledger, Account(5)), 9);
}

#[test]
fn create_account_skips_identifier_taken_by_creation_tag() {
    let mut ledger = MemoryLedger::new();
    assert_eq!(ledger.transact(creation(system(), Account(1))), Ok(()));
    let c = ledger.create_account(AccountData::Contract, system()).unwrap();
    assert_eq!(c, Account(2));
    let d = ledger.create_account(AccountData::User, system()).unwrap();
    assert_eq!(d, Account(3));
    let records = ledger
        .transactions()
        .iter()
        .filter(|t| t.data == TransactionData::AccountCreation(Account(1)))
        .count();
    assert_eq!(records, 1);
}

#[test]
fn creation_tag_for_known_account_changes_only_the_log() {
    let (mut ledger, a, b) = ledger_with_two();
    let len = ledger.transactions().len();
    assert_eq!(ledger.transact(creation(system(), a)), Ok(()));
    assert_eq!(ledger.transact(creation(system(), system())), Ok(()));
    assert_eq!(ledger.transactions().len(), len + 2);
    assert_eq!(ledger.time(), len as u64 + 1);
    assert_eq!(ledger.account_type(a), Some(AccountData::User));
    assert_eq!(ledger.account_type(system()), Some(AccountData::System));
    let c = ledger.create_account(AccountData::Contract, system()).unwrap();
    assert!(c != a && c != b && c != system());
    assert_eq!(c, Account(3));
}

#[test]
fn creation_by_unknown_creator_rejected() {
    let mut ledger = MemoryLedger::new();
    assert_eq!(ledger.transact(creation(Account(4), Account(5))), Err(LedgerError::UnknownAccount));
    assert_eq!(ledger.account_type(Account(5)), None);
    assert_eq!(ledger.create_account(AccountData::User, Account(5)), Err(LedgerError::UnknownAccount));
}
