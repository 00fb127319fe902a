use yosoku_ledger::check_pricing_input;
use yosoku_ledger::model::{account_total, token_total};
use yosoku_ledger::{
    Account, LedgerError, Posting, Token, TokenAmount, Transaction, TransactionData,
    TransactionStatus,
};

fn posting(account: u64, amount: i64) -> Posting {
    Posting { account: Account(account), amount: TokenAmount(Token::SiteCurrency, amount) }
}

fn txn(postings: Vec<Posting>) -> Transaction {
    Transaction {
        postings,
        created_by: Account(0),
        status: TransactionStatus::Proposed,
        data: TransactionData::Transfer,
        memo: String::new(),
    }
}

#[test]
fn token_total_sums_exactly() {
    let ps = vec![posting(1, i64::MAX), posting(2, i64::MAX), posting(3, -4)];
    assert_eq!(token_total(&ps, Token::SiteCurrency), 2 * (i64::MAX as i128) - 4);
    assert_eq!(token_total(&vec![], Token::SiteCurrency), 0);
}

#[test]
fn account_total_filters_by_account() {
    let ps = vec![posting(1, 10), posting(2, -3), posting(1, 5), posting(3, -12)];
    assert_eq!(account_total(&ps, Account(1), Token::SiteCurrency), 15);
    assert_eq!(account_total(&ps, Account(2), Token::SiteCurrency), -3);
    assert_eq!(account_total(&ps, Account(9), Token::SiteCurrency), 0);
}

#[test]
fn is_balanced_checks_sum() {
    assert!(txn(vec![]).is_balanced());
    assert!(txn(vec![posting(1, 50), posting(2, -50)]).is_balanced());
    assert!(!txn(vec![posting(1, 30), posting(2, -20)]).is_balanced());
    assert!(!txn(vec![posting(1, 1)]).is_balanced());
    assert!(txn(vec![posting(1, i64::MIN), posting(2, i64::MAX), posting(3, 1)]).is_balanced());
}

#[test]
fn pricing_input_accepted() {
    assert_eq!(check_pricing_input(100, 100, 10), Ok(()));
    assert_eq!(check_pricing_input(1, 1, 0), Ok(()));
}

#[test]
fn pricing_input_rejected() {
    assert_eq!(check_pricing_input(0, 100, 10), Err(LedgerError::InvalidPricingInput));
    assert_eq!(check_pricing_input(100, -1, 10), Err(LedgerError::InvalidPricingInput));
    assert_eq!(check_pricing_input(100, 100, -1), Err(LedgerError::InvalidPricingInput));
}
