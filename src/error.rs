use vstd::prelude::*;

verus! {

/// Why a transaction was rejected. A rejected transaction leaves the ledger
/// exactly as it was.
#[derive(Clone, Copy, Debug, PartialEq, Eq, Structural)]
pub enum Transaction {
    /// A dispute names a transaction id (first field) unknown for the client
    /// (second field).
    NotFound(u32, u16),
    /// A withdrawal asks for more than the client has available.
    InsufficientFunds(u16),
    /// The client's account was locked by a chargeback.
    AccountLocked(u16),
    /// A deposit or withdrawal carries no amount.
    InvalidAmount(u32),
    /// A dispute names a transaction that is already disputed, or that
    /// belongs to another client.
    AlreadyDisputed(u32),
    /// A resolve or chargeback names a transaction that is not under dispute.
    NotUnderDispute(u32),
    /// A dispute names a stored transaction that is not a deposit.
    InvalidDispute(u32),
    /// A chargeback names a stored transaction that is not a deposit.
    InvalidChargeback(u32),
    /// A withdrawal, dispute, resolve or chargeback names a client that has
    /// no account.
    AccountNotFound(u16),
    /// Applying the transaction would take a balance out of the range of `i64`.
    Overflow(u32),
}

} // verus!
