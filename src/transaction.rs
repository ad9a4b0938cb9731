use vstd::prelude::*;

verus! {

/// The five kinds of record in the input stream.
#[derive(Clone, Copy, Debug, PartialEq, Eq, Structural)]
pub enum Type {
    Deposit,
    Withdrawal,
    Dispute,
    Resolve,
    Chargeback,
}

/// One record of the input stream.
///
/// `amount` is given in ten-thousandths of a unit and is present only for
/// deposits and withdrawals. `disputed` marks a stored deposit that is under
/// an open dispute.
#[derive(Clone, Copy, Debug, PartialEq, Eq, Structural)]
pub struct Transaction {
    pub t_type: Type,
    pub client: u16,
    pub tx: u32,
    pub amount: Option<i64>,
    pub disputed: bool,
}

} // verus!
