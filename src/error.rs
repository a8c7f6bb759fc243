use vstd::prelude::*;

use crate::types::{Amount, Client, Tx};

verus! {

/// Business errors: the reasons for which an event is rejected. A rejected
/// event leaves the ledger as it was.
#[derive(Debug, Clone, Copy, PartialEq, Eq, Structural)]
pub enum Error {
    /// Deposit or withdrawal of a negative amount (zero is allowed).
    NegativeAmountOperation(Client, Tx, Amount),
    /// The transaction ID was already used by a deposit or a withdrawal.
    DuplicateOperation(Tx),
    /// The client has no account yet.
    AccountNotFound(Client),
    /// The withdrawal exceeds the client's available funds.
    InsufficientFunds(Client, Tx, Amount),
    /// The transaction is already under dispute.
    DisputeAlreadyInProgress(Tx),
    /// The transaction is not among the client's recorded operations.
    OperationNotFound(Client, Tx),
    /// Only deposits can be disputed.
    WithdrawalDisputeAttempt(Client, Tx),
    /// No active dispute on the transaction raised by this client.
    DisputeNotFound(Client, Tx),
    /// The account is locked after a chargeback.
    AccountLocked(Client),
}

/// The outcome of processing one event.
pub type AnalysisResult<T> = Result<T, Error>;

} // verus!
