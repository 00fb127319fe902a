use vstd::prelude::*;
use vstd::set_lib::{lemma_int_range, lemma_len_subset, set_int_range};

use crate::model::{
    account_total, balanced, fits_amount, lemma_posting_sum_absent, lemma_posting_sum_bound,
    log_balance, posting_sum, token_sum, Account, AccountData, LedgerError, Token, TokenAmount,
    Transaction, TransactionData, TransactionStatus, SYSTEM_ACCOUNT_ID,
};

verus! {

/// `txn` as accepted at logical time `time`.
pub open spec fn finalised(txn: Transaction, time: u64) -> Transaction {
    Transaction { status: TransactionStatus::Finalised { time }, ..txn }
}

/// The record of the creation of `account` by `creator`: no postings and an empty memo.
pub open spec fn creation_record(account: Account, creator: Account, txn: Transaction) -> bool {
    &&& txn.postings@.len() == 0
    &&& txn.created_by == creator
    &&& txn.data == TransactionData::AccountCreation(account)
    &&& txn.memo@.len() == 0
}

/// Whether `log` holds a transaction tagged as the creation of `a`.
pub open spec fn has_creation(log: Seq<Transaction>, a: Account) -> bool {
    exists|i: int| 0 <= i < log.len() && (#[trigger] log[i]).data == TransactionData::AccountCreation(a)
}

/// The most recent registration of `a` in `reg`, if any: the kind it was created as,
/// where one was given.
pub open spec fn lookup(reg: Seq<(Account, Option<AccountData>)>, a: Account) -> Option<
    Option<AccountData>,
>
    decreases reg.len(),
{
    if reg.len() == 0 {
        None
    } else if reg.last().0 == a {
        Some(reg.last().1)
    } else {
        lookup(reg.drop_last(), a)
    }
}

proof fn lemma_lookup_found(reg: Seq<(Account, Option<AccountData>)>, a: Account)
    requires
        lookup(reg, a) is Some,
    ensures
        exists|i: int| 0 <= i < reg.len() && (#[trigger] reg[i]).0 == a,
    decreases reg.len(),
{
    if reg.last().0 != a {
        lemma_lookup_found(reg.drop_last(), a);
        let i = choose|i: int| 0 <= i < reg.len() - 1 && (#[trigger] reg.drop_last()[i]).0 == a;
        assert(reg[i] == reg.drop_last()[i]);
    }
}

/// When every identifier below `c` is registered, the registry has at least `c` entries.
proof fn lemma_registered_range(reg: Seq<(Account, Option<AccountData>)>, c: int)
    requires
        0 <= c <= u64::MAX as int + 1,
        forall|d: u64| (d as int) < c ==> #[trigger] lookup(reg, Account(d)) is Some,
    ensures
        c <= reg.len(),
{
    let ids = reg.map_values(|e: (Account, Option<AccountData>)| e.0.0 as int);
    assert forall|d: int| #[trigger] set_int_range(0, c).contains(d) implies ids.to_set().contains(
        d,
    ) by {
        assert(lookup(reg, Account(d as u64)) is Some);
        lemma_lookup_found(reg, Account(d as u64));
        let i = choose|i: int| 0 <= i < reg.len() && (#[trigger] reg[i]).0 == Account(d as u64);
        assert(ids[i] == d);
        assert(ids.contains(d));
    }
    lemma_int_range(0, c);
    vstd::seq_lib::seq_to_set_is_finite(ids);
    lemma_len_subset(set_int_range(0, c), ids.to_set());
    ids.lemma_cardinality_of_set();
}

/// A queryable, append-only log of balanced transactions.
pub trait Ledger: Sized {
    /// The internal invariant of the store.
    spec fn inv(&self) -> bool;

    /// The finalised transactions, oldest first.
    spec fn log(&self) -> Seq<Transaction>;

    /// The logical time of the last accepted transaction.
    spec fn clock(&self) -> u64;

    /// Whether `a` was created in this ledger.
    spec fn is_known(&self, a: Account) -> bool;

    /// The kind that account `a` was created as; `None` where no kind was recorded.
    spec fn kind_of(&self, a: Account) -> Option<AccountData>;

    /// Whether every balance stays representable once `txn` is accepted.
    spec fn can_hold(&self, txn: Transaction) -> bool;

    /// Whether the creator and every posting of `txn` name known accounts.
    open spec fn refs_known(&self, txn: Transaction) -> bool {
        &&& self.is_known(txn.created_by)
        &&& forall|i: int|
            0 <= i < txn.postings@.len() ==> self.is_known(#[trigger] txn.postings@[i].account)
    }

    /// Validates `txn`, stamps it with the next logical time and appends it.
    /// A transaction tagged as the creation of an account makes that account known; where
    /// it is known already, the tag changes nothing but the log.
    /// A rejected transaction leaves the ledger unchanged.
    fn transact(&mut self, txn: Transaction) -> (r: Result<(), LedgerError>)
        requires
            old(self).inv(),
        ensures
            final(self).inv(),
            (r == Err::<(), LedgerError>(LedgerError::ImbalancedTransaction)) <==> !balanced(
                txn.postings@,
            ),
            (r == Err::<(), LedgerError>(LedgerError::UnknownAccount)) <==> (balanced(
                txn.postings@,
            ) && !old(self).refs_known(txn)),
            (r == Err::<(), LedgerError>(LedgerError::BalanceOverflow)) <==> (balanced(
                txn.postings@,
            ) && old(self).refs_known(txn) && !old(self).can_hold(txn)),
            r is Ok <==> (balanced(txn.postings@) && old(self).refs_known(txn) && old(
                self,
            ).can_hold(txn)),
            r is Ok ==> {
                &&& final(self).clock() == old(self).clock() + 1
                &&& final(self).log() == old(self).log().push(finalised(txn, final(self).clock()))
                &&& forall|a: Account| #[trigger]
                    final(self).is_known(a) == (old(self).is_known(a) || txn.data
                        == TransactionData::AccountCreation(a))
                &&& forall|a: Account|
                    old(self).is_known(a) ==> #[trigger] final(self).kind_of(a) == old(
                        self,
                    ).kind_of(a)
                &&& forall|a: Account|
                    txn.data == TransactionData::AccountCreation(a) && !old(self).is_known(a)
                        ==> #[trigger] final(self).kind_of(a) == None::<AccountData>
            },
            r is Err ==> *final(self) == *old(self),
    ;

    /// Allocates a fresh account of kind `typ` and records its creation by `creator`.
    fn create_account(&mut self, typ: AccountData, creator: Account) -> (r: Result<
        Account,
        LedgerError,
    >)
        requires
            old(self).inv(),
        ensures
            final(self).inv(),
            (r == Err::<Account, LedgerError>(LedgerError::UnknownAccount)) <==> !old(
                self,
            ).is_known(creator),
            r is Ok <==> old(self).is_known(creator),
            r is Err ==> *final(self) == *old(self),
            r matches Ok(a) ==> {
                &&& !old(self).is_known(a)
                &&& final(self).is_known(a)
                &&& forall|b: Account| #[trigger]
                    final(self).is_known(b) == (old(self).is_known(b) || b == a)
                &&& final(self).kind_of(a) == Some(typ)
                &&& forall|b: Account|
                    old(self).is_known(b) ==> #[trigger] final(self).kind_of(b) == old(
                        self,
                    ).kind_of(b)
                &&& final(self).clock() == old(self).clock() + 1
                &&& final(self).log().len() == old(self).log().len() + 1
                &&& final(self).log().drop_last() == old(self).log()
                &&& final(self).log().last().status == (TransactionStatus::Finalised {
                    time: final(self).clock(),
                })
                &&& creation_record(a, creator, final(self).log().last())
            },
    ;

    /// The signed sum of every finalised posting of `token` to `account`; zero when there is none.
    fn account_balance(&self, account: Account, token: Token) -> (r: TokenAmount)
        requires
            self.inv(),
        ensures
            r.0 == token,
            r.1 as int == log_balance(self.log(), account, token),
    ;
}

/// An in-memory ledger: the log, a logical clock, and a registry of the accounts created,
/// with the kind of each where one was given. Balances are found by scanning the whole log.
#[derive(Debug)]
pub struct MemoryLedger {
    txns: Vec<Transaction>,
    time: u64,
    registry: Vec<(Account, Option<AccountData>)>,
}

impl MemoryLedger {
    /// A ledger that holds the creation of the system account at time zero.
    pub fn new() -> (r: Self)
        ensures
            r.inv(),
            r.clock() == 0,
            r.log().len() == 1,
            r.log()[0].status == (TransactionStatus::Finalised { time: 0 }),
            creation_record(Account(SYSTEM_ACCOUNT_ID), Account(SYSTEM_ACCOUNT_ID), r.log()[0]),
            r.kind_of(Account(SYSTEM_ACCOUNT_ID)) == Some(AccountData::System),
            forall|a: Account| #[trigger] r.is_known(a) <==> a.0 == SYSTEM_ACCOUNT_ID,
    {
        let genesis = Transaction {
            postings: Vec::new(),
            created_by: Account(SYSTEM_ACCOUNT_ID),
            status: TransactionStatus::Finalised { time: 0 },
            data: TransactionData::AccountCreation(Account(SYSTEM_ACCOUNT_ID)),
            memo: String::new(),
        };
        let mut txns: Vec<Transaction> = Vec::new();
        txns.push(genesis);
        let mut registry: Vec<(Account, Option<AccountData>)> = Vec::new();
        registry.push((Account(SYSTEM_ACCOUNT_ID), Some(AccountData::System)));
        let r = MemoryLedger { txns, time: 0, registry };
        proof {
            assert(r.registry@.drop_last().len() == 0);
            assert forall|k: int, a: Account, t: Token|
                0 <= k <= r.txns@.len() implies fits_amount(
                #[trigger] log_balance(r.txns@.take(k), a, t),
            ) by {
                let pre = r.txns@.take(k);
                if k == 1 {
                    assert(pre.drop_last().len() == 0);
                    assert(log_balance(pre.drop_last(), a, t) == 0);
                    assert(pre.last() == r.txns@[0]);
                    assert(pre.last().postings@.len() == 0);
                    assert(posting_sum(pre.last().postings@, a, t) == 0);
                } else {
                    assert(pre.len() == 0);
                }
            }
            assert forall|a: Account| #[trigger] has_creation(r.txns@, a) <==> lookup(
                r.registry@,
                a,
            ) is Some by {
                assert(lookup(r.registry@.drop_last(), a) is None);
                if a == Account(SYSTEM_ACCOUNT_ID) {
                    assert(r.txns@[0].data == TransactionData::AccountCreation(a));
                }
            }
            assert forall|a: Account| #[trigger] r.is_known(a) <==> a.0 == SYSTEM_ACCOUNT_ID by {
                assert(lookup(r.registry@.drop_last(), a) is None);
            }
            assert(r.txns@[0].postings@.len() == 0);
            assert(balanced(r.txns@[0].postings@));
            assert(r.refs_known(r.txns@[0]));
        }
        r
    }

    /// This ledger uses simulated time for testing; this is the simulated current time.
    pub fn time(&self) -> (r: u64)
        ensures
            r == self.clock(),
    {
        self.time
    }

    /// The finalised transactions, oldest first.
    pub fn transactions(&self) -> (r: &Vec<Transaction>)
        ensures
            r@ == self.log(),
    {
        &self.txns
    }

    /// The kind `a` was created as, or `None` for an unknown account and for one
    /// whose creation recorded no kind.
    pub fn account_type(&self, a: Account) -> (r: Option<AccountData>)
        ensures
            r == (if self.is_known(a) {
                self.kind_of(a)
            } else {
                None::<AccountData>
            }),
    {
        match self.find(a) {
            Some(kind) => kind,
            None => None,
        }
    }

    /// Advances the clock and returns the new time.
    fn next_time(&mut self) -> (r: u64)
        requires
            old(self).time < u64::MAX,
        ensures
            r == old(self).time + 1,
            *final(self) == (MemoryLedger { time: r, ..*old(self) }),
    {
        self.time = self.time + 1;
        return self.time;
    }

    /// The most recent registration of `a`.
    fn find(&self, a: Account) -> (r: Option<Option<AccountData>>)
        ensures
            r == lookup(self.registry@, a),
    {
        let mut i: usize = self.registry.len();
        assert(self.registry@.take(i as int) =~= self.registry@);
        while i > 0
            invariant
                i <= self.registry@.len(),
                lookup(self.registry@, a) == lookup(self.registry@.take(i as int), a),
            decreases i,
        {
            let entry = self.registry[i - 1];
            assert(self.registry@.take(i as int).drop_last() =~= self.registry@.take(i - 1));
            if entry.0 == a {
                return Some(entry.1);
            }
            i = i - 1;
        }
        None
    }

    /// Whether `a` names a created account.
    fn knows(&self, a: Account) -> (r: bool)
        ensures
            r == self.is_known(a),
    {
        self.find(a).is_some()
    }

    /// Whether the creator and every posting of `txn` name created accounts.
    fn knows_all(&self, txn: &Transaction) -> (r: bool)
        ensures
            r == self.refs_known(*txn),
    {
        if !self.knows(txn.created_by) {
            return false;
        }
        let mut i: usize = 0;
        while i < txn.postings.len()
            invariant
                i <= txn.postings.len(),
                forall|j: int| 0 <= j < i ==> self.is_known(#[trigger] txn.postings@[j].account),
            decreases txn.postings.len() - i,
        {
            if !self.knows(txn.postings[i].account) {
                return false;
            }
            i = i + 1;
        }
        true
    }

    /// The smallest identifier that names no account yet.
    fn fresh_account(&self) -> (r: Account)
        ensures
            !self.is_known(r),
    {
        let n = self.registry.len();
        let mut c: u64 = 0;
        while self.knows(Account(c))
            invariant
                c as int <= n,
                n == self.registry@.len(),
                forall|d: u64| d < c ==> #[trigger] lookup(self.registry@, Account(d)) is Some,
            decreases n - c,
        {
            proof {
                assert forall|d: u64| (d as int) < c + 1 implies #[trigger] lookup(
                    self.registry@,
                    Account(d),
                ) is Some by {}
                lemma_registered_range(self.registry@, c + 1);
            }
            c = c + 1;
        }
        Account(c)
    }

    /// The balance of `(account, token)`, by a scan of the whole log.
    fn scan_balance(&self, account: Account, token: Token) -> (r: i64)
        requires
            self.inv(),
        ensures
            r as int == log_balance(self.log(), account, token),
    {
        let mut total: i64 = 0;
        let mut i: usize = 0;
        while i < self.txns.len()
            invariant
                self.inv(),
                i <= self.txns@.len(),
                total as int == log_balance(self.txns@.take(i as int), account, token),
            decreases self.txns@.len() - i,
        {
            let part = account_total(&self.txns[i].postings, account, token);
            proof {
                let next = self.txns@.take(i as int + 1);
                assert(next.drop_last() =~= self.txns@.take(i as int));
                lemma_posting_sum_bound(self.txns@[i as int].postings@, account, token);
                assert(fits_amount(log_balance(next, account, token)));
            }
            total = (total as i128 + part) as i64;
            i = i + 1;
        }
        assert(self.txns@.take(i as int) =~= self.txns@);
        total
    }

    /// Whether every balance stays representable once `txn` is accepted.
    fn holds(&self, txn: &Transaction) -> (r: bool)
        requires
            self.inv(),
        ensures
            r == self.can_hold(*txn),
    {
        let mut i: usize = 0;
        while i < txn.postings.len()
            invariant
                self.inv(),
                i <= txn.postings.len(),
                forall|j: int|
                    0 <= j < i ==> fits_amount(
                        log_balance(self.log(), (#[trigger] txn.postings@[j]).account, txn.postings@[j].amount.0)
                            + posting_sum(txn.postings@, txn.postings@[j].account, txn.postings@[j].amount.0),
                    ),
            decreases txn.postings.len() - i,
        {
            let a = txn.postings[i].account;
            let t = txn.postings[i].amount.0;
            let before = self.scan_balance(a, t);
            let delta = account_total(&txn.postings, a, t);
            proof {
                lemma_posting_sum_bound(txn.postings@, a, t);
            }
            let after: i128 = before as i128 + delta;
            if after < i64::MIN as i128 || after > i64::MAX as i128 {
                return false;
            }
            i = i + 1;
        }
        assert forall|a: Account, t: Token|
            fits_amount(#[trigger] log_balance(self.log(), a, t) + posting_sum(txn.postings@, a, t)) by {
            if exists|j: int| 0 <= j < txn.postings@.len() && txn.postings@[j].account == a && txn.postings@[j].amount.0 == t {
                let j = choose|j: int| 0 <= j < txn.postings@.len() && txn.postings@[j].account == a && txn.postings@[j].amount.0 == t;
                assert(fits_amount(
                    log_balance(self.log(), txn.postings@[j].account, txn.postings@[j].amount.0)
                        + posting_sum(txn.postings@, txn.postings@[j].account, txn.postings@[j].amount.0),
                ));
            } else {
                lemma_posting_sum_absent(txn.postings@, a, t);
                assert(self.txns@.take(self.txns@.len() as int) =~= self.txns@);
            }
        }
        true
    }

    /// Stamps `txn` with the next logical time and appends it; registers the account
    /// that it is tagged as creating, with `kind`, unless that account is known already.
    fn append(&mut self, txn: Transaction, kind: Option<AccountData>)
        requires
            old(self).inv(),
            balanced(txn.postings@),
            old(self).refs_known(txn),
            old(self).can_hold(txn),
            kind is Some ==> (txn.data is AccountCreation && lookup(
                old(self).registry@,
                txn.data->AccountCreation_0,
            ) is None),
        ensures
            final(self).inv(),
            final(self).clock() == old(self).clock() + 1,
            final(self).log() == old(self).log().push(finalised(txn, final(self).clock())),
            final(self).registry@ == (match txn.data {
                TransactionData::AccountCreation(a) => if lookup(old(self).registry@, a) is Some {
                    old(self).registry@
                } else {
                    old(self).registry@.push((a, kind))
                },
                TransactionData::Transfer => old(self).registry@,
            }),
    {
        // The log's length fits in a usize, so the clock is below u64::MAX.
        let _ = self.txns.len();
        let time = self.next_time();
        let data = txn.data;
        let mut txn = txn;
        txn.status = TransactionStatus::Finalised { time };
        self.txns.push(txn);
        match data {
            TransactionData::AccountCreation(a) => {
                if !self.knows(a) {
                    self.registry.push((a, kind));
                }
            },
            TransactionData::Transfer => {},
        }
        proof {
            let before = old(self).txns@;
            let after = self.txns@;
            let reg0 = old(self).registry@;
            let reg1 = self.registry@;
            assert(after.drop_last() =~= before);
            assert(before.take(before.len() as int) =~= before);
            assert forall|k: int, a: Account, t: Token|
                0 <= k <= after.len() implies fits_amount(
                #[trigger] log_balance(after.take(k), a, t),
            ) by {
                if k <= before.len() {
                    assert(after.take(k) =~= before.take(k));
                } else {
                    assert(after.take(k) =~= after);
                    assert(old(self).log() == before);
                    assert(fits_amount(
                        log_balance(old(self).log(), a, t) + posting_sum(txn.postings@, a, t),
                    ));
                }
            }
            assert forall|a: Account| lookup(reg0, a) is Some implies #[trigger] lookup(
                reg1,
                a,
            ) is Some by {
                if reg1 != reg0 {
                    assert(reg1.drop_last() =~= reg0);
                }
            }
            assert forall|a: Account| #[trigger] has_creation(after, a) <==> lookup(
                reg1,
                a,
            ) is Some by {
                if reg1 != reg0 {
                    assert(reg1.drop_last() =~= reg0);
                }
                if has_creation(after, a) {
                    let i = choose|i: int|
                        0 <= i < after.len() && (#[trigger] after[i]).data
                            == TransactionData::AccountCreation(a);
                    if i < before.len() {
                        assert(after[i] == before[i]);
                        assert(has_creation(before, a));
                    }
                }
                if has_creation(before, a) {
                    let i = choose|i: int|
                        0 <= i < before.len() && (#[trigger] before[i]).data
                            == TransactionData::AccountCreation(a);
                    assert(after[i] == before[i]);
                }
                if data == TransactionData::AccountCreation(a) {
                    assert(after[before.len() as int].data == TransactionData::AccountCreation(a));
                }
            }
            assert forall|i: int| 0 <= i < after.len() implies self.refs_known(
                #[trigger] after[i],
            ) by {
                if i < before.len() {
                    assert(after[i] == before[i]);
                    assert(old(self).refs_known(before[i]));
                }
            }
        }
    }
}

impl Ledger for MemoryLedger {
    closed spec fn inv(&self) -> bool {
        &&& self.txns@.len() == self.time as int + 1
        &&& forall|i: int|
            0 <= i < self.txns@.len() ==> (#[trigger] self.txns@[i]).status == (
            TransactionStatus::Finalised { time: i as u64 })
        &&& forall|i: int|
            0 <= i < self.txns@.len() ==> balanced((#[trigger] self.txns@[i]).postings@)
        &&& forall|k: int, a: Account, t: Token|
            0 <= k <= self.txns@.len() ==> fits_amount(
                #[trigger] log_balance(self.txns@.take(k), a, t),
            )
        &&& forall|a: Account| #[trigger]
            has_creation(self.txns@, a) <==> lookup(self.registry@, a) is Some
        &&& forall|i: int| 0 <= i < self.txns@.len() ==> self.refs_known(#[trigger] self.txns@[i])
    }

    closed spec fn log(&self) -> Seq<Transaction> {
        self.txns@
    }

    closed spec fn clock(&self) -> u64 {
        self.time
    }

    closed spec fn is_known(&self, a: Account) -> bool {
        lookup(self.registry@, a) is Some
    }

    closed spec fn kind_of(&self, a: Account) -> Option<AccountData> {
        match lookup(self.registry@, a) {
            Some(kind) => kind,
            None => None,
        }
    }

    open spec fn can_hold(&self, txn: Transaction) -> bool {
        forall|a: Account, t: Token|
            fits_amount(#[trigger] log_balance(self.log(), a, t) + posting_sum(txn.postings@, a, t))
    }

    fn transact(&mut self, txn: Transaction) -> (r: Result<(), LedgerError>) {
        if !txn.is_balanced() {
            return Err(LedgerError::ImbalancedTransaction);
        }
        if !self.knows_all(&txn) {
            return Err(LedgerError::UnknownAccount);
        }
        if !self.holds(&txn) {
            return Err(LedgerError::BalanceOverflow);
        }
        let ghost reg0 = self.registry@;
        self.append(txn, None);
        proof {
            if self.registry@ != reg0 {
                assert(self.registry@.drop_last() =~= reg0);
            }
        }
        Ok(())
    }

    fn create_account(&mut self, typ: AccountData, creator: Account) -> (r: Result<
        Account,
        LedgerError,
    >) {
        if !self.knows(creator) {
            return Err(LedgerError::UnknownAccount);
        }
        let account = self.fresh_account();
        let txn = Transaction {
            postings: Vec::new(),
            created_by: creator,
            status: TransactionStatus::Proposed,
            data: TransactionData::AccountCreation(account),
            memo: String::new(),
        };
        proof {
            assert(balanced(txn.postings@));
            assert forall|a: Account, t: Token|
                fits_amount(#[trigger] log_balance(self.txns@, a, t) + posting_sum(txn.postings@, a, t)) by {
                assert(self.txns@.take(self.txns@.len() as int) =~= self.txns@);
            }
        }
        let ghost reg0 = self.registry@;
        self.append(txn, Some(typ));
        proof {
            assert(self.registry@.drop_last() =~= reg0);
        }
        Ok(account)
    }

    fn account_balance(&self, account: Account, token: Token) -> (r: TokenAmount) {
        TokenAmount(token, self.scan_balance(account, token))
    }
}

} // verus!

verus! {

/// Every transaction in the log of a ledger obeys the double-entry law: for each token,
/// its postings sum to zero. It is finalised, at the logical time of its position.
pub proof fn lemma_log_balanced(ledger: &MemoryLedger, i: int, t: Token)
    requires
        ledger.inv(),
        0 <= i < ledger.log().len(),
    ensures
        token_sum(ledger.log()[i].postings@, t) == 0,
        ledger.log()[i].status == (TransactionStatus::Finalised { time: i as u64 }),
{
    assert(balanced(ledger.txns@[i].postings@));
}

/// Balances do not depend on the order in which two transactions were accepted:
/// stamping changes no posting, and the balance folds postings alone.
pub proof fn lemma_balance_order_independent(
    log: Seq<Transaction>,
    x1: Transaction,
    x2: Transaction,
    y1: Transaction,
    y2: Transaction,
    a: Account,
    t: Token,
)
    requires
        x1.postings@ == x2.postings@,
        y1.postings@ == y2.postings@,
    ensures
        log_balance(log.push(x1).push(y1), a, t) == log_balance(log.push(y2).push(x2), a, t),
{
    assert(log.push(x1).push(y1).drop_last() =~= log.push(x1));
    assert(log.push(x1).drop_last() =~= log);
    assert(log.push(y2).push(x2).drop_last() =~= log.push(y2));
    assert(log.push(y2).drop_last() =~= log);
    let base = log_balance(log, a, t);
    let px = posting_sum(x1.postings@, a, t);
    let py = posting_sum(y1.postings@, a, t);
    assert(log_balance(log.push(x1), a, t) == base + px);
    assert(log_balance(log.push(x1).push(y1), a, t) == base + px + py);
    assert(log_balance(log.push(y2), a, t) == base + py);
    assert(log_balance(log.push(y2).push(x2), a, t) == base + py + px);
}

/// Every transaction in the log of a ledger was created by a known account.
pub proof fn lemma_log_creator_known(ledger: &MemoryLedger, i: int)
    requires
        ledger.inv(),
        0 <= i < ledger.log().len(),
    ensures
        ledger.is_known(ledger.log()[i].created_by),
{
    assert(ledger.refs_known(ledger.txns@[i]));
}

/// Every transaction in the log of a ledger posts to known accounts only.
pub proof fn lemma_log_refs_known(ledger: &MemoryLedger, i: int, j: int)
    requires
        ledger.inv(),
        0 <= i < ledger.log().len(),
        0 <= j < ledger.log()[i].postings@.len(),
    ensures
        ledger.is_known(ledger.log()[i].postings@[j].account),
{
    assert(ledger.refs_known(ledger.txns@[i]));
}

/// A ledger knows exactly the accounts whose creation its log records.
pub proof fn lemma_known_iff_created(ledger: &MemoryLedger, a: Account)
    requires
        ledger.inv(),
    ensures
        ledger.is_known(a) <==> exists|i: int|
            0 <= i < ledger.log().len() && (#[trigger] ledger.log()[i]).data
                == TransactionData::AccountCreation(a),
{
    assert(has_creation(ledger.txns@, a) <==> lookup(ledger.registry@, a) is Some);
}

/// The clock is the time of the last accepted transaction: the log holds one transaction
/// per tick, the seed at time zero included.
pub proof fn lemma_clock_matches_log(ledger: &MemoryLedger)
    requires
        ledger.inv(),
    ensures
        ledger.log().len() == ledger.clock() as int + 1,
        ledger.log().last().status == (TransactionStatus::Finalised { time: ledger.clock() }),
{
    assert(ledger.txns@[ledger.txns@.len() - 1].status == (TransactionStatus::Finalised {
        time: (ledger.txns@.len() - 1) as u64,
    }));
}

} // verus!
