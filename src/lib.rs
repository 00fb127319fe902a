pub mod cpmm;
pub mod ledger;
pub mod model;

pub use cpmm::check_pricing_input;
pub use ledger::{Ledger, MemoryLedger};
pub use model::{
    Account, AccountData, LedgerError, Posting, Token, TokenAmount, TokenNumber, Transaction,
    TransactionData, TransactionStatus, SYSTEM_ACCOUNT_ID,
};
