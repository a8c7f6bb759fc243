//! The mathematical model of the ledger: its state, the effect of one event
//! on it, and the invariant that event processing keeps.
use vstd::prelude::*;

use crate::error::Error;
use crate::event::Event;
use crate::sums::sum_by;
use crate::types::{Amount, Client, Tx};

verus! {

/// Only deposits and withdrawals count as operations; the dispute
/// lifecycle acts on them.
#[derive(Debug, Clone, Copy, PartialEq, Eq, Structural)]
pub enum Kind {
    Deposit,
    Withdrawal,
}

/// A recorded deposit or withdrawal: created once, never changed.
#[derive(Debug, Clone, Copy, PartialEq, Eq, Structural)]
pub struct Operation {
    pub kind: Kind,
    pub amount: Amount,
}

/// One client's account: balances in ten-thousandths, and the operations
/// the client made, by transaction ID.
#[verifier::ext_equal]
pub struct AccountModel {
    pub available: int,
    pub held: int,
    pub operations: Map<u32, Operation>,
}

/// The whole ledger: accounts by client ID, active disputes (transaction ID
/// to the client who raised it), locked clients, and every transaction ID
/// that a deposit or a withdrawal has used.
#[verifier::ext_equal]
pub struct LedgerModel {
    pub accounts: Map<u16, AccountModel>,
    pub disputes: Map<u32, u16>,
    pub locked: Set<u16>,
    pub used: Set<u32>,
}

/// Bound on the absolute value of every balance of a well-formed ledger.
pub open spec fn balance_bound() -> int {
    0x1_0000_0000_0000_0000_0000_0000
}

/// Bound on the magnitude of a single amount.
pub open spec fn amount_bound() -> int {
    0x8000_0000_0000_0000
}

impl AccountModel {
    pub open spec fn empty() -> AccountModel {
        AccountModel { available: 0, held: 0, operations: Map::empty() }
    }

    pub open spec fn total(self) -> int {
        self.available + self.held
    }
}

/// The amount of an operation, with its sign: deposits add, withdrawals
/// take away.
pub open spec fn signed_amount(op: Operation) -> int {
    match op.kind {
        Kind::Deposit => op.amount.units(),
        Kind::Withdrawal => -op.amount.units(),
    }
}

pub open spec fn amount_of(ops: Map<u32, Operation>) -> spec_fn(u32) -> int {
    |t: u32| ops[t].amount.units()
}

pub open spec fn signed_of(ops: Map<u32, Operation>) -> spec_fn(u32) -> int {
    |t: u32| signed_amount(ops[t])
}

/// The operations of `acct` under a dispute that its owner `c` raised.
pub open spec fn disputed_ops(acct: AccountModel, disputes: Map<u32, u16>, c: u16) -> Set<u32> {
    acct.operations.dom().filter(|t: u32| disputes.contains_key(t) && disputes[t] == c)
}

/// Sum of the amounts of the operations in `s`.
pub open spec fn amounts(ops: Map<u32, Operation>, s: Set<u32>) -> int {
    sum_by(s, amount_of(ops))
}

/// What the deposits bring in, less what the withdrawals take out.
pub open spec fn net(ops: Map<u32, Operation>) -> int {
    sum_by(ops.dom(), signed_of(ops))
}

/// The balances of `c`'s account agree with its operations: the total is
/// the net of its operations, and the held funds lie between the amounts
/// under dispute less all the account's amounts, and the amounts under
/// dispute.
pub open spec fn account_balanced(acct: AccountModel, disputes: Map<u32, u16>, c: u16) -> bool {
    let ops = acct.operations;
    let d = amounts(ops, disputed_ops(acct, disputes, c));
    &&& acct.total() == net(ops)
    &&& d - amounts(ops, ops.dom()) <= acct.held
    &&& acct.held <= d
}

impl LedgerModel {
    pub open spec fn empty() -> LedgerModel {
        LedgerModel {
            accounts: Map::empty(),
            disputes: Map::empty(),
            locked: Set::empty(),
            used: Set::empty(),
        }
    }

    /// The client's account, or a fresh one where the client has none.
    pub open spec fn account_or_empty(self, c: u16) -> AccountModel {
        if self.accounts.contains_key(c) {
            self.accounts[c]
        } else {
            AccountModel::empty()
        }
    }

    /// Whether `t` is under a dispute raised by `c`.
    pub open spec fn disputed_by(self, t: u32, c: u16) -> bool {
        self.disputes.contains_key(t) && self.disputes[t] == c
    }

    pub open spec fn balanced(self, c: u16) -> bool {
        account_balanced(self.accounts[c], self.disputes, c)
    }

    /// The invariant of the ledger.
    pub open spec fn wf(self) -> bool {
        &&& self.used.finite()
        &&& forall|c: u16| #[trigger]
            self.accounts.contains_key(c) ==> {
                let acct = self.accounts[c];
                &&& acct.operations.dom().subset_of(self.used)
                &&& forall|t: u32| #[trigger]
                    acct.operations.contains_key(t) ==> acct.operations[t].amount.units() >= 0
                &&& -balance_bound() <= acct.available <= balance_bound()
                &&& -balance_bound() <= acct.held <= balance_bound()
                &&& !self.locked.contains(c) ==> self.balanced(c)
            }
    }

    /// The states after each kind of event succeeds.
    pub open spec fn deposit_applied(self, c: u16, t: u32, a: Amount) -> LedgerModel {
        let acct = self.account_or_empty(c);
        LedgerModel {
            accounts: self.accounts.insert(
                c,
                AccountModel {
                    available: acct.available + a.units(),
                    held: acct.held,
                    operations: acct.operations.insert(
                        t,
                        Operation { kind: Kind::Deposit, amount: a },
                    ),
                },
            ),
            used: self.used.insert(t),
            ..self
        }
    }

    pub open spec fn withdrawal_applied(self, c: u16, t: u32, a: Amount) -> LedgerModel {
        let acct = self.accounts[c];
        LedgerModel {
            accounts: self.accounts.insert(
                c,
                AccountModel {
                    available: acct.available - a.units(),
                    held: acct.held,
                    operations: acct.operations.insert(
                        t,
                        Operation { kind: Kind::Withdrawal, amount: a },
                    ),
                },
            ),
            used: self.used.insert(t),
            ..self
        }
    }

    pub open spec fn dispute_applied(self, c: u16, t: u32) -> LedgerModel {
        let acct = self.accounts[c];
        let a = acct.operations[t].amount.units();
        LedgerModel {
            accounts: self.accounts.insert(
                c,
                AccountModel { available: acct.available - a, held: acct.held + a, ..acct },
            ),
            disputes: self.disputes.insert(t, c),
            ..self
        }
    }

    pub open spec fn resolve_applied(self, c: u16, t: u32) -> LedgerModel {
        let acct = self.accounts[c];
        let a = acct.operations[t].amount.units();
        LedgerModel {
            accounts: self.accounts.insert(
                c,
                AccountModel { available: acct.available + a, held: acct.held - a, ..acct },
            ),
            disputes: self.disputes.remove(t),
            ..self
        }
    }

    pub open spec fn chargeback_applied(self, c: u16, t: u32) -> LedgerModel {
        let acct = self.accounts[c];
        let a = acct.operations[t].amount.units();
        LedgerModel {
            accounts: self.accounts.insert(c, AccountModel { held: acct.held - a, ..acct }),
            disputes: self.disputes.remove(t),
            locked: self.locked.insert(c),
            ..self
        }
    }

    /// The outcome of a deposit: the first failing check, in order, or success.
    pub open spec fn deposit_result(self, c: Client, t: Tx, a: Amount) -> Result<(), Error> {
        if self.locked.contains(c.0) {
            Err(Error::AccountLocked(c))
        } else if self.used.contains(t.0) {
            Err(Error::DuplicateOperation(t))
        } else if a.units() < 0 {
            Err(Error::NegativeAmountOperation(c, t, a))
        } else {
            Ok(())
        }
    }

    pub open spec fn withdrawal_result(self, c: Client, t: Tx, a: Amount) -> Result<(), Error> {
        if self.locked.contains(c.0) {
            Err(Error::AccountLocked(c))
        } else if self.used.contains(t.0) {
            Err(Error::DuplicateOperation(t))
        } else if a.units() < 0 {
            Err(Error::NegativeAmountOperation(c, t, a))
        } else if !self.accounts.contains_key(c.0) {
            Err(Error::AccountNotFound(c))
        } else if a.units() > self.accounts[c.0].available {
            Err(Error::InsufficientFunds(c, t, a))
        } else {
            Ok(())
        }
    }

    pub open spec fn dispute_result(self, c: Client, t: Tx) -> Result<(), Error> {
        if self.locked.contains(c.0) {
            Err(Error::AccountLocked(c))
        } else if self.disputes.contains_key(t.0) {
            Err(Error::DisputeAlreadyInProgress(t))
        } else if !self.accounts.contains_key(c.0) {
            Err(Error::AccountNotFound(c))
        } else if !self.accounts[c.0].operations.contains_key(t.0) {
            Err(Error::OperationNotFound(c, t))
        } else if self.accounts[c.0].operations[t.0].kind == Kind::Withdrawal {
            Err(Error::WithdrawalDisputeAttempt(c, t))
        } else {
            Ok(())
        }
    }

    /// The outcome of a resolve or a chargeback, which check the same things.
    pub open spec fn settle_result(self, c: Client, t: Tx) -> Result<(), Error> {
        if self.locked.contains(c.0) {
            Err(Error::AccountLocked(c))
        } else if !self.disputed_by(t.0, c.0) {
            Err(Error::DisputeNotFound(c, t))
        } else if !self.accounts.contains_key(c.0) {
            Err(Error::AccountNotFound(c))
        } else if !self.accounts[c.0].operations.contains_key(t.0) {
            Err(Error::OperationNotFound(c, t))
        } else {
            Ok(())
        }
    }

    /// The outcome of processing `e`.
    pub open spec fn result(self, e: Event) -> Result<(), Error> {
        match e {
            Event::Deposit { client, tx, amount } => self.deposit_result(client, tx, amount),
            Event::Withdrawal { client, tx, amount } => self.withdrawal_result(client, tx, amount),
            Event::Dispute { client, tx } => self.dispute_result(client, tx),
            Event::Resolve { client, tx } => self.settle_result(client, tx),
            Event::Chargeback { client, tx } => self.settle_result(client, tx),
        }
    }

    /// The ledger after processing `e`: unchanged where `e` is rejected.
    pub open spec fn step(self, e: Event) -> LedgerModel {
        if self.result(e) is Err {
            self
        } else {
            match e {
                Event::Deposit { client, tx, amount } => self.deposit_applied(
                    client.0,
                    tx.0,
                    amount,
                ),
                Event::Withdrawal { client, tx, amount } => self.withdrawal_applied(
                    client.0,
                    tx.0,
                    amount,
                ),
                Event::Dispute { client, tx } => self.dispute_applied(client.0, tx.0),
                Event::Resolve { client, tx } => self.resolve_applied(client.0, tx.0),
                Event::Chargeback { client, tx } => self.chargeback_applied(client.0, tx.0),
            }
        }
    }
}

} // verus!
