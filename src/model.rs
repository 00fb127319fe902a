use vstd::prelude::*;

verus! {

/// A signed quantity of tokens.
pub type TokenNumber = i64;

/// Identifies an account.
#[derive(Debug, Clone, Copy, PartialEq, Eq, Structural)]
pub struct Account(pub u64);

/// The identifier of the reserved system account that seeds every ledger.
pub const SYSTEM_ACCOUNT_ID: u64 = 0;

/// What kind of account an identifier was created as.
#[derive(Debug, Clone, Copy, PartialEq, Eq, Structural)]
pub enum AccountData {
    System,
    // holds tokens
    User,
    Contract,
    // token sources
    BonusSource,
}

/// A currency kind.
#[derive(Debug, Clone, Copy, PartialEq, Eq, Structural)]
pub enum Token {
    SiteCurrency,
}

/// A signed amount of one currency: a delta in a posting, a total in a balance.
#[derive(Debug, Clone, Copy, PartialEq, Eq, Structural)]
pub struct TokenAmount(pub Token, pub TokenNumber);

/// One leg of a transaction: positive credits the account, negative debits it.
#[derive(Debug, Clone, Copy, PartialEq, Eq, Structural)]
pub struct Posting {
    pub account: Account,
    pub amount: TokenAmount,
}

/// Where a transaction is in its lifecycle.
#[derive(Debug, Clone, Copy, PartialEq, Eq, Structural)]
pub enum TransactionStatus {
    Proposed,
    Finalised { time: u64 },
}

/// What a transaction is for.
#[derive(Debug, Clone, Copy, PartialEq, Eq, Structural)]
pub enum TransactionData {
    AccountCreation(Account),
    Transfer,
}

/// A transaction is a list of postings that balance (sum to zero per token).
#[derive(Debug, Clone, PartialEq)]
pub struct Transaction {
    pub postings: Vec<Posting>,
    pub created_by: Account,
    pub status: TransactionStatus,
    pub data: TransactionData,
    pub memo: String,
}

/// Why an operation was rejected. A rejected operation changes nothing.
#[derive(Debug, Clone, Copy, PartialEq, Eq, Structural)]
pub enum LedgerError {
    /// Some token's postings do not sum to zero.
    ImbalancedTransaction,
    /// A posting or the creator refers to an account that was never created.
    UnknownAccount,
    /// Some resulting balance would not fit in a signed 64-bit quantity.
    BalanceOverflow,
    /// A pool reserve is not positive or a bet is negative.
    InvalidPricingInput,
}

/// The magnitude of the most negative posting amount.
pub open spec fn amount_floor() -> int {
    0x8000_0000_0000_0000
}

/// The largest posting amount.
pub open spec fn amount_ceiling() -> int {
    0x7fff_ffff_ffff_ffff
}

/// What one posting adds to the total of token `t`.
pub open spec fn token_part(p: Posting, t: Token) -> int {
    if p.amount.0 == t {
        p.amount.1 as int
    } else {
        0
    }
}

/// What one posting adds to the balance of `(a, t)`.
pub open spec fn account_part(p: Posting, a: Account, t: Token) -> int {
    if p.account == a && p.amount.0 == t {
        p.amount.1 as int
    } else {
        0
    }
}

/// The signed sum of the amounts of token `t` in `ps`.
pub open spec fn token_sum(ps: Seq<Posting>, t: Token) -> int
    decreases ps.len(),
{
    if ps.len() == 0 {
        0
    } else {
        token_sum(ps.drop_last(), t) + token_part(ps.last(), t)
    }
}

/// The signed sum of the amounts of token `t` posted to account `a` in `ps`.
pub open spec fn posting_sum(ps: Seq<Posting>, a: Account, t: Token) -> int
    decreases ps.len(),
{
    if ps.len() == 0 {
        0
    } else {
        posting_sum(ps.drop_last(), a, t) + account_part(ps.last(), a, t)
    }
}

/// The double-entry law: for every token, the postings sum to zero.
pub open spec fn balanced(ps: Seq<Posting>) -> bool {
    forall|t: Token| #[trigger] token_sum(ps, t) == 0
}

/// The balance of `(a, t)`: a left fold of the postings of every transaction of `log`.
pub open spec fn log_balance(log: Seq<Transaction>, a: Account, t: Token) -> int
    decreases log.len(),
{
    if log.len() == 0 {
        0
    } else {
        log_balance(log.drop_last(), a, t) + posting_sum(log.last().postings@, a, t)
    }
}

/// Whether a value fits in a `TokenNumber`.
pub open spec fn fits_amount(v: int) -> bool {
    i64::MIN <= v <= i64::MAX
}

/// Each posting moves a token total by at most one `TokenNumber`.
pub proof fn lemma_token_sum_bound(ps: Seq<Posting>, t: Token)
    ensures
        -(ps.len() as int) * amount_floor() <= token_sum(ps, t) <= (ps.len() as int)
            * amount_ceiling(),
    decreases ps.len(),
{
    if ps.len() > 0 {
        lemma_token_sum_bound(ps.drop_last(), t);
    }
}

/// Each posting moves a balance by at most one `TokenNumber`.
pub proof fn lemma_posting_sum_bound(ps: Seq<Posting>, a: Account, t: Token)
    ensures
        -(ps.len() as int) * amount_floor() <= posting_sum(ps, a, t) <= (ps.len() as int)
            * amount_ceiling(),
    decreases ps.len(),
{
    if ps.len() > 0 {
        lemma_posting_sum_bound(ps.drop_last(), a, t);
    }
}

/// A token that no posting carries sums to zero.
pub proof fn lemma_token_sum_absent(ps: Seq<Posting>, t: Token)
    requires
        forall|i: int| 0 <= i < ps.len() ==> (#[trigger] ps[i]).amount.0 != t,
    ensures
        token_sum(ps, t) == 0,
    decreases ps.len(),
{
    if ps.len() > 0 {
        lemma_token_sum_absent(ps.drop_last(), t);
    }
}

/// An account and token pair that no posting carries sums to zero.
pub proof fn lemma_posting_sum_absent(ps: Seq<Posting>, a: Account, t: Token)
    requires
        forall|i: int|
            0 <= i < ps.len() ==> !((#[trigger] ps[i]).account == a && ps[i].amount.0 == t),
    ensures
        posting_sum(ps, a, t) == 0,
    decreases ps.len(),
{
    if ps.len() > 0 {
        lemma_posting_sum_absent(ps.drop_last(), a, t);
    }
}

/// The signed sum of the amounts of token `t` in `ps`, computed exactly.
pub fn token_total(ps: &Vec<Posting>, t: Token) -> (r: i128)
    ensures
        r as int == token_sum(ps@, t),
{
    let mut s: i128 = 0;
    let mut i: usize = 0;
    while i < ps.len()
        invariant
            i <= ps.len(),
            s as int == token_sum(ps@.take(i as int), t),
        decreases ps.len() - i,
    {
        proof {
            let next = ps@.take(i as int + 1);
            assert(next.drop_last() =~= ps@.take(i as int));
            lemma_token_sum_bound(next, t);
        }
        if ps[i].amount.0 == t {
            s = s + ps[i].amount.1 as i128;
        }
        i = i + 1;
    }
    assert(ps@.take(i as int) =~= ps@);
    s
}

/// The signed sum of the amounts of token `t` posted to account `a` in `ps`, computed exactly.
pub fn account_total(ps: &Vec<Posting>, a: Account, t: Token) -> (r: i128)
    ensures
        r as int == posting_sum(ps@, a, t),
{
    let mut s: i128 = 0;
    let mut i: usize = 0;
    while i < ps.len()
        invariant
            i <= ps.len(),
            s as int == posting_sum(ps@.take(i as int), a, t),
        decreases ps.len() - i,
    {
        proof {
            let next = ps@.take(i as int + 1);
            assert(next.drop_last() =~= ps@.take(i as int));
            lemma_posting_sum_bound(next, a, t);
        }
        if ps[i].account == a && ps[i].amount.0 == t {
            s = s + ps[i].amount.1 as i128;
        }
        i = i + 1;
    }
    assert(ps@.take(i as int) =~= ps@);
    s
}

impl Transaction {
    /// Whether the postings obey the double-entry law.
    pub fn is_balanced(&self) -> (r: bool)
        ensures
            r == balanced(self.postings@),
    {
        let mut i: usize = 0;
        while i < self.postings.len()
            invariant
                i <= self.postings.len(),
                forall|j: int| 0 <= j < i ==> token_sum(self.postings@, (#[trigger] self.postings@[j]).amount.0) == 0,
            decreases self.postings.len() - i,
        {
            let t = self.postings[i].amount.0;
            let total = token_total(&self.postings, t);
            if total != 0 {
                assert(token_sum(self.postings@, t) != 0);
                assert(!balanced(self.postings@));
                return false;
            }
            i = i + 1;
        }
        assert forall|t: Token| #[trigger] token_sum(self.postings@, t) == 0 by {
            if exists|j: int| 0 <= j < self.postings.len() && self.postings@[j].amount.0 == t {
                let j = choose|j: int| 0 <= j < self.postings.len() && self.postings@[j].amount.0 == t;
                assert(token_sum(self.postings@, self.postings@[j].amount.0) == 0);
            } else {
                lemma_token_sum_absent(self.postings@, t);
            }
        }
        true
    }
}

} // verus!
