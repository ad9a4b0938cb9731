use std::collections::HashMap;

use vstd::prelude::*;

use crate::account::Account;
use crate::amount::in_i64;
use crate::error::Transaction as TransactionError;
use crate::transaction::{Transaction, Type as TransactionType};

verus! {

/// The ledger as a value: the accounts by client id and the stored deposits
/// and withdrawals by transaction id.
pub type LedgerState = (Map<u16, Account>, Map<u32, Transaction>);

/// What applying `t` to a ledger gives: the next ledger, or the error.
pub open spec fn apply_spec(
    accounts: Map<u16, Account>,
    txs: Map<u32, Transaction>,
    t: Transaction,
) -> Result<LedgerState, TransactionError> {
    let c = t.client;
    if accounts.contains_key(c) && accounts[c].locked {
        Err(TransactionError::AccountLocked(c))
    } else {
        match t.t_type {
            TransactionType::Deposit => deposit_spec(accounts, txs, t),
            TransactionType::Withdrawal => withdrawal_spec(accounts, txs, t),
            TransactionType::Dispute => dispute_spec(accounts, txs, t),
            TransactionType::Resolve => resolve_spec(accounts, txs, t),
            TransactionType::Chargeback => chargeback_spec(accounts, txs, t),
        }
    }
}

/// The account of `c`, or a fresh one where `c` has none yet.
pub open spec fn account_or_new(accounts: Map<u16, Account>, c: u16) -> Account {
    if accounts.contains_key(c) {
        accounts[c]
    } else {
        Account::empty(c)
    }
}

/// `a` with its three balances replaced.
pub open spec fn with_balances(a: Account, available: int, held: int, total: int) -> Account {
    Account { available: available as i64, held: held as i64, total: total as i64, ..a }
}

/// A deposit adds its amount to the available and total funds, creating the
/// account where needed, and is stored.
pub open spec fn deposit_spec(
    accounts: Map<u16, Account>,
    txs: Map<u32, Transaction>,
    t: Transaction,
) -> Result<LedgerState, TransactionError> {
    match t.amount {
        None => Err(TransactionError::InvalidAmount(t.tx)),
        Some(v) => {
            let a = account_or_new(accounts, t.client);
            if !in_i64(a.available + v) || !in_i64(a.total + v) {
                Err(TransactionError::Overflow(t.tx))
            } else {
                Ok(
                    (
                        accounts.insert(
                            t.client,
                            with_balances(a, a.available + v, a.held as int, a.total + v),
                        ),
                        txs.insert(t.tx, t),
                    ),
                )
            }
        },
    }
}

/// A withdrawal takes its amount from the available and total funds of an
/// existing account that has that much available, and is stored.
pub open spec fn withdrawal_spec(
    accounts: Map<u16, Account>,
    txs: Map<u32, Transaction>,
    t: Transaction,
) -> Result<LedgerState, TransactionError> {
    match t.amount {
        None => Err(TransactionError::InvalidAmount(t.tx)),
        Some(v) => {
            if !accounts.contains_key(t.client) {
                Err(TransactionError::AccountNotFound(t.client))
            } else {
                let a = accounts[t.client];
                if a.available < v {
                    Err(TransactionError::InsufficientFunds(t.client))
                } else if !in_i64(a.available - v) || !in_i64(a.total - v) {
                    Err(TransactionError::Overflow(t.tx))
                } else {
                    Ok(
                        (
                            accounts.insert(
                                t.client,
                                with_balances(a, a.available - v, a.held as int, a.total - v),
                            ),
                            txs.insert(t.tx, t),
                        ),
                    )
                }
            }
        },
    }
}

/// A dispute moves the amount of one of the client's stored deposits from
/// available to held, and marks that deposit disputed.
pub open spec fn dispute_spec(
    accounts: Map<u16, Account>,
    txs: Map<u32, Transaction>,
    t: Transaction,
) -> Result<LedgerState, TransactionError> {
    if !txs.contains_key(t.tx) {
        Err(TransactionError::NotFound(t.tx, t.client))
    } else {
        let o = txs[t.tx];
        if o.disputed || o.client != t.client {
            Err(TransactionError::AlreadyDisputed(t.tx))
        } else {
            match o.amount {
                None => Err(TransactionError::InvalidAmount(t.tx)),
                Some(v) => {
                    if o.t_type != TransactionType::Deposit {
                        Err(TransactionError::InvalidDispute(t.tx))
                    } else if !accounts.contains_key(t.client) {
                        Err(TransactionError::AccountNotFound(t.client))
                    } else {
                        let a = accounts[t.client];
                        if !in_i64(a.available - v) || !in_i64(a.held + v) {
                            Err(TransactionError::Overflow(t.tx))
                        } else {
                            Ok(
                                (
                                    accounts.insert(
                                        t.client,
                                        with_balances(
                                            a,
                                            a.available - v,
                                            a.held + v,
                                            a.total as int,
                                        ),
                                    ),
                                    txs.insert(t.tx, Transaction { disputed: true, ..o }),
                                ),
                            )
                        }
                    }
                },
            }
        }
    }
}

/// Whether `t` names a stored transaction of its own client that is under
/// dispute.
pub open spec fn names_open_dispute(txs: Map<u32, Transaction>, t: Transaction) -> bool {
    txs.contains_key(t.tx) && txs[t.tx].disputed && txs[t.tx].client == t.client
}

/// A resolve moves the amount of a disputed transaction back from held to
/// available, and clears its dispute.
pub open spec fn resolve_spec(
    accounts: Map<u16, Account>,
    txs: Map<u32, Transaction>,
    t: Transaction,
) -> Result<LedgerState, TransactionError> {
    if !names_open_dispute(txs, t) {
        Err(TransactionError::NotUnderDispute(t.tx))
    } else {
        let o = txs[t.tx];
        match o.amount {
            None => Err(TransactionError::InvalidAmount(t.tx)),
            Some(v) => {
                if !accounts.contains_key(t.client) {
                    Err(TransactionError::AccountNotFound(t.client))
                } else {
                    let a = accounts[t.client];
                    if !in_i64(a.available + v) || !in_i64(a.held - v) {
                        Err(TransactionError::Overflow(t.tx))
                    } else {
                        Ok(
                            (
                                accounts.insert(
                                    t.client,
                                    with_balances(a, a.available + v, a.held - v, a.total as int),
                                ),
                                txs.insert(t.tx, Transaction { disputed: false, ..o }),
                            ),
                        )
                    }
                }
            },
        }
    }
}

/// A chargeback removes the amount of a disputed deposit from the held and
/// total funds, clears its dispute and locks the account.
pub open spec fn chargeback_spec(
    accounts: Map<u16, Account>,
    txs: Map<u32, Transaction>,
    t: Transaction,
) -> Result<LedgerState, TransactionError> {
    if !names_open_dispute(txs, t) {
        Err(TransactionError::NotUnderDispute(t.tx))
    } else {
        let o = txs[t.tx];
        if o.t_type != TransactionType::Deposit {
            Err(TransactionError::InvalidChargeback(t.tx))
        } else {
            match o.amount {
                None => Err(TransactionError::InvalidAmount(t.tx)),
                Some(v) => {
                    if !accounts.contains_key(t.client) {
                        Err(TransactionError::AccountNotFound(t.client))
                    } else {
                        let a = accounts[t.client];
                        if !in_i64(a.held - v) || !in_i64(a.total - v) {
                            Err(TransactionError::Overflow(t.tx))
                        } else {
                            Ok(
                                (
                                    accounts.insert(
                                        t.client,
                                        Account {
                                            locked: true,
                                            ..with_balances(
                                                a,
                                                a.available as int,
                                                a.held - v,
                                                a.total - v,
                                            )
                                        },
                                    ),
                                    txs.insert(t.tx, Transaction { disputed: false, ..o }),
                                ),
                            )
                        }
                    }
                },
            }
        }
    }
}

/// Every account is filed under its own client id and keeps
/// `total == available + held`.
pub open spec fn accounts_wf(accounts: Map<u16, Account>) -> bool {
    forall|c: u16| #[trigger] accounts.contains_key(c) ==> accounts[c].client == c && accounts[c].wf()
}

/// Every stored transaction is a deposit or a withdrawal with an amount,
/// filed under its own id.
pub open spec fn transactions_wf(txs: Map<u32, Transaction>) -> bool {
    forall|id: u32| #[trigger]
        txs.contains_key(id) ==> {
            &&& txs[id].tx == id
            &&& txs[id].amount is Some
            &&& (txs[id].t_type == TransactionType::Deposit || txs[id].t_type
                == TransactionType::Withdrawal)
        }
}

/// Applying any transaction to a well-formed ledger keeps it well-formed: in
/// particular every account still has `total == available + held`.
pub proof fn lemma_apply_keeps_wf(
    accounts: Map<u16, Account>,
    txs: Map<u32, Transaction>,
    t: Transaction,
)
    requires
        accounts_wf(accounts),
        transactions_wf(txs),
    ensures
        apply_spec(accounts, txs, t) matches Ok(next) ==> accounts_wf(next.0) && transactions_wf(
            next.1,
        ),
{
}

/// Once an account is locked, every later transaction of its client fails
/// with `AccountLocked`, and no transaction of any client changes that
/// account.
pub proof fn lemma_locked_account_frozen(
    accounts: Map<u16, Account>,
    txs: Map<u32, Transaction>,
    t: Transaction,
    c: u16,
)
    requires
        accounts.contains_key(c),
        accounts[c].locked,
    ensures
        t.client == c ==> apply_spec(accounts, txs, t) == Err::<LedgerState, TransactionError>(
            TransactionError::AccountLocked(c),
        ),
        apply_spec(accounts, txs, t) matches Ok(next) ==> next.0.contains_key(c) && next.0[c]
            == accounts[c],
{
}

/// A deposit that is disputed and then resolved leaves the account with the
/// balances it had right after the deposit: the dispute always can be
/// resolved, and the resolve undoes the dispute.
pub proof fn lemma_dispute_resolve_round_trip(
    accounts: Map<u16, Account>,
    txs: Map<u32, Transaction>,
    deposit: Transaction,
    dispute: Transaction,
    resolve: Transaction,
)
    requires
        deposit.t_type == TransactionType::Deposit,
        dispute.t_type == TransactionType::Dispute,
        resolve.t_type == TransactionType::Resolve,
        dispute.client == deposit.client && dispute.tx == deposit.tx,
        resolve.client == deposit.client && resolve.tx == deposit.tx,
        apply_spec(accounts, txs, deposit) is Ok,
        apply_spec(apply_spec(accounts, txs, deposit)->Ok_0.0, apply_spec(accounts, txs, deposit)->Ok_0.1, dispute) is Ok,
    ensures
        ({
            let s1 = apply_spec(accounts, txs, deposit)->Ok_0;
            let s2 = apply_spec(s1.0, s1.1, dispute)->Ok_0;
            &&& apply_spec(s2.0, s2.1, resolve) is Ok
            &&& apply_spec(s2.0, s2.1, resolve)->Ok_0 == s1
        }),
{
    let s1 = apply_spec(accounts, txs, deposit)->Ok_0;
    let s2 = apply_spec(s1.0, s1.1, dispute)->Ok_0;
    let s3 = apply_spec(s2.0, s2.1, resolve)->Ok_0;
    assert(s3.0 =~= s1.0);
    assert(s3.1 =~= s1.1);
}

/// The ledger after applying `ts` in order, where a rejected transaction
/// leaves the ledger as it was and processing goes on with the next one.
pub open spec fn run_spec(
    accounts: Map<u16, Account>,
    txs: Map<u32, Transaction>,
    ts: Seq<Transaction>,
) -> LedgerState
    decreases ts.len(),
{
    if ts.len() == 0 {
        (accounts, txs)
    } else {
        let prev = run_spec(accounts, txs, ts.drop_last());
        match apply_spec(prev.0, prev.1, ts.last()) {
            Ok(next) => next,
            Err(_) => prev,
        }
    }
}

/// However long the stream, a well-formed ledger stays well-formed: every
/// account keeps `total == available + held` after every transaction.
pub proof fn lemma_run_keeps_wf(
    accounts: Map<u16, Account>,
    txs: Map<u32, Transaction>,
    ts: Seq<Transaction>,
)
    requires
        accounts_wf(accounts),
        transactions_wf(txs),
    ensures
        accounts_wf(run_spec(accounts, txs, ts).0),
        transactions_wf(run_spec(accounts, txs, ts).1),
    decreases ts.len(),
{
    if ts.len() > 0 {
        lemma_run_keeps_wf(accounts, txs, ts.drop_last());
        let prev = run_spec(accounts, txs, ts.drop_last());
        lemma_apply_keeps_wf(prev.0, prev.1, ts.last());
    }
}

/// Once an account is locked it stays exactly as it is for the rest of the
/// stream, and every later transaction of its client is rejected with
/// `AccountLocked`.
pub proof fn lemma_locked_account_stays_frozen(
    accounts: Map<u16, Account>,
    txs: Map<u32, Transaction>,
    ts: Seq<Transaction>,
    c: u16,
)
    requires
        accounts.contains_key(c),
        accounts[c].locked,
    ensures
        run_spec(accounts, txs, ts).0.contains_key(c),
        run_spec(accounts, txs, ts).0[c] == accounts[c],
        forall|i: int|
            0 <= i < ts.len() && (#[trigger] ts[i]).client == c ==> apply_spec(
                run_spec(accounts, txs, ts.take(i)).0,
                run_spec(accounts, txs, ts.take(i)).1,
                ts[i],
            ) == Err::<LedgerState, TransactionError>(TransactionError::AccountLocked(c)),
    decreases ts.len(),
{
    if ts.len() > 0 {
        let init = ts.drop_last();
        lemma_locked_account_stays_frozen(accounts, txs, init, c);
        let prev = run_spec(accounts, txs, init);
        lemma_locked_account_frozen(prev.0, prev.1, ts.last(), c);
        assert forall|i: int| 0 <= i < ts.len() && (#[trigger] ts[i]).client == c implies apply_spec(
            run_spec(accounts, txs, ts.take(i)).0,
            run_spec(accounts, txs, ts.take(i)).1,
            ts[i],
        ) == Err::<LedgerState, TransactionError>(TransactionError::AccountLocked(c)) by {
            if i < init.len() {
                assert(ts.take(i) =~= init.take(i));
                assert(init[i] == ts[i]);
            } else {
                assert(ts.take(i) =~= init);
            }
        }
    }
}

/// The processor: accounts by client id, and the deposits and withdrawals
/// that succeeded, by transaction id, kept as targets for disputes.
pub struct Engine {
    pub accounts: HashMap<u16, Account>,
    pub transactions: HashMap<u32, Transaction>,
}

impl Engine {
    /// The ledger that this engine holds.
    pub open spec fn state(&self) -> LedgerState {
        (self.accounts@, self.transactions@)
    }

    /// Both tables are well-formed; every call keeps it so.
    pub open spec fn wf(&self) -> bool {
        accounts_wf(self.accounts@) && transactions_wf(self.transactions@)
    }

    /// An engine with no accounts and no stored transactions.
    pub fn new() -> (r: Engine)
        ensures
            r.accounts@ == Map::<u16, Account>::empty(),
            r.transactions@ == Map::<u32, Transaction>::empty(),
            r.wf(),
    {
        Engine { accounts: HashMap::new(), transactions: HashMap::new() }
    }

    /// Applies one transaction. On success the ledger becomes what
    /// `apply_spec` gives; on failure it is left exactly as it was, and no
    /// account is created.
    ///
    /// Only a deposit opens an account: a withdrawal by a client without one
    /// fails with `AccountNotFound`. A resolve or chargeback that names an
    /// unknown transaction fails with `NotUnderDispute`. A repeated deposit
    /// or withdrawal id overwrites the stored record.
    pub fn process_transaction(&mut self, transaction: Transaction) -> (r: Result<
        (),
        TransactionError,
    >)
        ensures
            match apply_spec(old(self).accounts@, old(self).transactions@, transaction) {
                Ok(next) => r is Ok && final(self).state() == next,
                Err(e) => r == Err::<(), TransactionError>(e) && final(self).state() == old(
                    self,
                ).state(),
            },
            old(self).wf() ==> final(self).wf(),
    {
        let client_id: u16 = transaction.client;
        match self.accounts.get(&client_id) {
            Some(account) => {
                if account.locked {
                    return Err(TransactionError::AccountLocked(client_id));
                }
            },
            None => {},
        }
        match transaction.t_type {
            TransactionType::Deposit => self.process_deposit(transaction),
            TransactionType::Withdrawal => self.process_withdrawal(transaction),
            TransactionType::Dispute => self.process_dispute(&transaction),
            TransactionType::Resolve => self.process_resolve(&transaction),
            TransactionType::Chargeback => self.process_chargeback(&transaction),
        }
    }

    fn process_deposit(&mut self, transaction: Transaction) -> (r: Result<(), TransactionError>)
        requires
            transaction.t_type == TransactionType::Deposit,
        ensures
            match deposit_spec(old(self).accounts@, old(self).transactions@, transaction) {
                Ok(next) => r is Ok && final(self).state() == next,
                Err(e) => r == Err::<(), TransactionError>(e) && final(self).state() == old(
                    self,
                ).state(),
            },
            old(self).wf() ==> final(self).wf(),
    {
        let amount: i64 = match transaction.amount {
            Some(v) => v,
            None => {
                return Err(TransactionError::InvalidAmount(transaction.tx));
            },
        };
        let account = match self.accounts.get(&transaction.client) {
            Some(a) => *a,
            None => Account::new(transaction.client),
        };
        let available: i64 = match account.available.checked_add(amount) {
            Some(x) => x,
            None => {
                return Err(TransactionError::Overflow(transaction.tx));
            },
        };
        let total: i64 = match account.total.checked_add(amount) {
            Some(x) => x,
            None => {
                return Err(TransactionError::Overflow(transaction.tx));
            },
        };
        self.accounts.insert(transaction.client, Account { available, total, ..account });
        self.transactions.insert(transaction.tx, transaction);
        Ok(())
    }

    fn process_withdrawal(&mut self, transaction: Transaction) -> (r: Result<
        (),
        TransactionError,
    >)
        requires
            transaction.t_type == TransactionType::Withdrawal,
        ensures
            match withdrawal_spec(old(self).accounts@, old(self).transactions@, transaction) {
                Ok(next) => r is Ok && final(self).state() == next,
                Err(e) => r == Err::<(), TransactionError>(e) && final(self).state() == old(
                    self,
                ).state(),
            },
            old(self).wf() ==> final(self).wf(),
    {
        let amount: i64 = match transaction.amount {
            Some(v) => v,
            None => {
                return Err(TransactionError::InvalidAmount(transaction.tx));
            },
        };
        let account = match self.accounts.get(&transaction.client) {
            Some(a) => *a,
            None => {
                return Err(TransactionError::AccountNotFound(transaction.client));
            },
        };
        if account.available < amount {
            return Err(TransactionError::InsufficientFunds(transaction.client));
        }
        let available: i64 = match account.available.checked_sub(amount) {
            Some(x) => x,
            None => {
                return Err(TransactionError::Overflow(transaction.tx));
            },
        };
        let total: i64 = match account.total.checked_sub(amount) {
            Some(x) => x,
            None => {
                return Err(TransactionError::Overflow(transaction.tx));
            },
        };
        self.accounts.insert(transaction.client, Account { available, total, ..account });
        self.transactions.insert(transaction.tx, transaction);
        Ok(())
    }

    fn process_dispute(&mut self, transaction: &Transaction) -> (r: Result<(), TransactionError>)
        requires
            transaction.t_type == TransactionType::Dispute,
        ensures
            match dispute_spec(old(self).accounts@, old(self).transactions@, *transaction) {
                Ok(next) => r is Ok && final(self).state() == next,
                Err(e) => r == Err::<(), TransactionError>(e) && final(self).state() == old(
                    self,
                ).state(),
            },
            old(self).wf() ==> final(self).wf(),
    {
        let target = match self.transactions.get(&transaction.tx) {
            Some(o) => *o,
            None => {
                return Err(TransactionError::NotFound(transaction.tx, transaction.client));
            },
        };
        if target.disputed || target.client != transaction.client {
            return Err(TransactionError::AlreadyDisputed(transaction.tx));
        }
        let amount: i64 = match target.amount {
            Some(v) => v,
            None => {
                return Err(TransactionError::InvalidAmount(transaction.tx));
            },
        };
        if target.t_type != TransactionType::Deposit {
            return Err(TransactionError::InvalidDispute(transaction.tx));
        }
        let account = match self.accounts.get(&transaction.client) {
            Some(a) => *a,
            None => {
                return Err(TransactionError::AccountNotFound(transaction.client));
            },
        };
        let available: i64 = match account.available.checked_sub(amount) {
            Some(x) => x,
            None => {
                return Err(TransactionError::Overflow(transaction.tx));
            },
        };
        let held: i64 = match account.held.checked_add(amount) {
            Some(x) => x,
            None => {
                return Err(TransactionError::Overflow(transaction.tx));
            },
        };
        self.accounts.insert(transaction.client, Account { available, held, ..account });
        self.transactions.insert(transaction.tx, Transaction { disputed: true, ..target });
        Ok(())
    }

    fn process_resolve(&mut self, transaction: &Transaction) -> (r: Result<(), TransactionError>)
        requires
            transaction.t_type == TransactionType::Resolve,
        ensures
            match resolve_spec(old(self).accounts@, old(self).transactions@, *transaction) {
                Ok(next) => r is Ok && final(self).state() == next,
                Err(e) => r == Err::<(), TransactionError>(e) && final(self).state() == old(
                    self,
                ).state(),
            },
            old(self).wf() ==> final(self).wf(),
    {
        let target = match self.transactions.get(&transaction.tx) {
            Some(o) => *o,
            None => {
                return Err(TransactionError::NotUnderDispute(transaction.tx));
            },
        };
        if !target.disputed || target.client != transaction.client {
            return Err(TransactionError::NotUnderDispute(transaction.tx));
        }
        let amount: i64 = match target.amount {
            Some(v) => v,
            None => {
                return Err(TransactionError::InvalidAmount(transaction.tx));
            },
        };
        let account = match self.accounts.get(&transaction.client) {
            Some(a) => *a,
            None => {
                return Err(TransactionError::AccountNotFound(transaction.client));
            },
        };
        let available: i64 = match account.available.checked_add(amount) {
            Some(x) => x,
            None => {
                return Err(TransactionError::Overflow(transaction.tx));
            },
        };
        let held: i64 = match account.held.checked_sub(amount) {
            Some(x) => x,
            None => {
                return Err(TransactionError::Overflow(transaction.tx));
            },
        };
        self.accounts.insert(transaction.client, Account { available, held, ..account });
        self.transactions.insert(transaction.tx, Transaction { disputed: false, ..target });
        Ok(())
    }

    fn process_chargeback(&mut self, transaction: &Transaction) -> (r: Result<
        (),
        TransactionError,
    >)
        requires
            transaction.t_type == TransactionType::Chargeback,
        ensures
            match chargeback_spec(old(self).accounts@, old(self).transactions@, *transaction) {
                Ok(next) => r is Ok && final(self).state() == next,
                Err(e) => r == Err::<(), TransactionError>(e) && final(self).state() == old(
                    self,
                ).state(),
            },
            old(self).wf() ==> final(self).wf(),
    {
        let target = match self.transactions.get(&transaction.tx) {
            Some(o) => *o,
            None => {
                return Err(TransactionError::NotUnderDispute(transaction.tx));
            },
        };
        if !target.disputed || target.client != transaction.client {
            return Err(TransactionError::NotUnderDispute(transaction.tx));
        }
        if target.t_type != TransactionType::Deposit {
            return Err(TransactionError::InvalidChargeback(transaction.tx));
        }
        let amount: i64 = match target.amount {
            Some(v) => v,
            None => {
                return Err(TransactionError::InvalidAmount(transaction.tx));
            },
        };
        let account = match self.accounts.get(&transaction.client) {
            Some(a) => *a,
            None => {
                return Err(TransactionError::AccountNotFound(transaction.client));
            },
        };
        let held: i64 = match account.held.checked_sub(amount) {
            Some(x) => x,
            None => {
                return Err(TransactionError::Overflow(transaction.tx));
            },
        };
        let total: i64 = match account.total.checked_sub(amount) {
            Some(x) => x,
            None => {
                return Err(TransactionError::Overflow(transaction.tx));
            },
        };
        self.accounts.insert(
            transaction.client,
            Account { held, total, locked: true, ..account },
        );
        self.transactions.insert(transaction.tx, Transaction { disputed: false, ..target });
        Ok(())
    }
}

} // verus!
