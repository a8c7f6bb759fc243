//! The ledger state machine.
use std::collections::{HashMap, HashSet};

use vstd::prelude::*;

use crate::error::Error;
use crate::event::Event;
use crate::model::{balance_bound, disputed_ops, AccountModel, Kind, LedgerModel, Operation};
use crate::preservation::lemma_step_wf;
use crate::types::{Amount, Client, Tx};

verus! {

broadcast use vstd::std_specs::hash::group_hash_axioms;

/// A client's account: balances in ten-thousandths, and the client's
/// operations by transaction ID.
pub(crate) struct Account {
    pub(crate) available: i128,
    pub(crate) held: i128,
    pub(crate) operations: HashMap<u32, Operation>,
}

impl View for Account {
    type V = AccountModel;

    closed spec fn view(&self) -> AccountModel {
        AccountModel {
            available: self.available as int,
            held: self.held as int,
            operations: self.operations@,
        }
    }
}

impl Account {
    pub(crate) proof fn lemma_view(&self)
        ensures
            self@.available == self.available,
            self@.held == self.held,
            self@.operations == self.operations@,
    {
    }

    fn new() -> (r: Account)
        ensures
            r@ == AccountModel::empty(),
    {
        Account { available: 0, held: 0, operations: HashMap::new() }
    }
}

/// The state of the analysis: client accounts, active disputes, locked
/// accounts and used transaction IDs.
///
/// # Example
/// ```
/// use scoring::{Analysis, Event};
///
/// let mut analysis = Analysis::begin();
///
/// let events = Vec::<Event>::new();
/// for event in events.iter() {
///     let _ = analysis.process_event(event);
/// }
///
/// let summary = analysis.summary();
/// ```
pub struct Analysis {
    accounts: HashMap<u16, Account>,
    /// The clients that have an account, in the order the accounts were opened.
    clients: Vec<u16>,
    disputes: HashMap<u32, u16>,
    locked_accounts: HashSet<u16>,
    used_txs: HashSet<u32>,
}

impl View for Analysis {
    type V = LedgerModel;

    closed spec fn view(&self) -> LedgerModel {
        LedgerModel {
            accounts: self.accounts@.map_values(|a: Account| a@),
            disputes: self.disputes@,
            locked: self.locked_accounts@,
            used: self.used_txs@,
        }
    }
}

impl Analysis {
    /// The ledger's invariant.
    pub closed spec fn wf(&self) -> bool {
        &&& self@.wf()
        &&& self.clients@.no_duplicates()
        &&& forall|c: u16| self.accounts@.contains_key(c) <==> self.clients@.contains(c)
    }

    pub(crate) closed spec fn clients_spec(&self) -> Seq<u16> {
        self.clients@
    }

    pub(crate) proof fn lemma_clients(&self)
        requires
            self.wf(),
        ensures
            self@.wf(),
            self.clients_spec().no_duplicates(),
            forall|c: u16|
                #![trigger self@.accounts.contains_key(c)]
                #![trigger self.clients_spec().contains(c)]
                self@.accounts.contains_key(c) <==> self.clients_spec().contains(c),
    {
    }

    /// Takes the accounts out, in the order they were opened, with the set
    /// of locked clients.
    pub(crate) fn into_parts(self) -> (r: (Vec<(Client, Account)>, HashSet<u16>))
        requires
            self.wf(),
        ensures
            r.0@.len() == self.clients_spec().len(),
            forall|i: int|
                0 <= i < r.0@.len() ==> (#[trigger] r.0@[i]).0 == Client(self.clients_spec()[i])
                    && r.0@[i].1@ == self@.accounts[self.clients_spec()[i]],
            r.1@ == self@.locked,
    {
        let mut accounts = self.accounts;
        let clients = self.clients;
        let ghost opened = accounts@;
        let mut out: Vec<(Client, Account)> = Vec::new();
        let n = clients.len();
        let mut i: usize = 0;
        assert forall|j: int| 0 <= j < n implies accounts@.contains_key(#[trigger] clients@[j]) by {
            assert(clients@.contains(clients@[j]));
        }
        while i < n
            invariant
                n == clients@.len(),
                0 <= i <= n,
                clients@.no_duplicates(),
                forall|c: u16| opened.contains_key(c) <==> clients@.contains(c),
                out@.len() == i,
                forall|j: int|
                    0 <= j < i ==> (#[trigger] out@[j]).0 == Client(clients@[j]) && out@[j].1
                        == opened[clients@[j]],
                forall|j: int|
                    i <= j < n ==> accounts@.contains_key(#[trigger] clients@[j])
                        && accounts@[clients@[j]] == opened[clients@[j]],
            decreases n - i,
        {
            let c = clients[i];
            let account = accounts.remove(&c).unwrap();
            out.push((Client(c), account));
            i = i + 1;
            assert forall|j: int| i <= j < n implies accounts@.contains_key(#[trigger] clients@[j])
                && accounts@[clients@[j]] == opened[clients@[j]] by {
                assert(clients@[j] != c);
            }
        }
        (out, self.locked_accounts)
    }

    /// Starts an analysis with no accounts.
    pub fn begin() -> (r: Analysis)
        ensures
            r.wf(),
            r@ == LedgerModel::empty(),
    {
        let r = Analysis {
            accounts: HashMap::new(),
            clients: Vec::new(),
            disputes: HashMap::new(),
            locked_accounts: HashSet::new(),
            used_txs: HashSet::new(),
        };
        assert(r@ =~= LedgerModel::empty());
        r
    }

    /// Processes one event. A rejected event leaves the analysis unchanged.
    pub fn process_event(&mut self, event: &Event) -> (r: Result<(), Error>)
        requires
            old(self).wf(),
        ensures
            final(self).wf(),
            r == old(self)@.result(*event),
            final(self)@ == old(self)@.step(*event),
    {
        match event {
            Event::Deposit { client, tx, amount } => self.process_deposit(*client, *tx, *amount),
            Event::Withdrawal { client, tx, amount } => self.process_withdrawal(
                *client,
                *tx,
                *amount,
            ),
            Event::Dispute { client, tx } => self.process_dispute_init(*client, *tx),
            Event::Resolve { client, tx } => self.process_dispute_resolve(*client, *tx),
            Event::Chargeback { client, tx } => self.process_dispute_chargeback(*client, *tx),
        }
    }

    /// Adds `to_available` and `to_held` to the balances of `client`'s account.
    fn shift_balances(&mut self, client: u16, to_available: i128, to_held: i128)
        requires
            old(self).accounts@.contains_key(client),
            -balance_bound() <= old(self).accounts@[client].available <= balance_bound(),
            -balance_bound() <= old(self).accounts@[client].held <= balance_bound(),
            -0x8000_0000_0000_0000 <= to_available <= 0x8000_0000_0000_0000,
            -0x8000_0000_0000_0000 <= to_held <= 0x8000_0000_0000_0000,
        ensures
            final(self).accounts@ == old(self).accounts@.insert(
                client,
                Account {
                    available: (old(self).accounts@[client].available + to_available) as i128,
                    held: (old(self).accounts@[client].held + to_held) as i128,
                    operations: old(self).accounts@[client].operations,
                },
            ),
            final(self).clients == old(self).clients,
            final(self).disputes == old(self).disputes,
            final(self).locked_accounts == old(self).locked_accounts,
            final(self).used_txs == old(self).used_txs,
    {
        let mut account = self.accounts.remove(&client).unwrap();
        account.available = account.available + to_available;
        account.held = account.held + to_held;
        self.accounts.insert(client, account);
    }

    /// The operation that `client` recorded under `tx`.
    fn find_operation(&self, client: Client, tx: Tx) -> (r: Result<Operation, Error>)
        ensures
            match r {
                Ok(op) => self@.accounts.contains_key(client.0)
                    && self@.accounts[client.0].operations.contains_key(tx.0)
                    && op == self@.accounts[client.0].operations[tx.0],
                Err(e) => if !self@.accounts.contains_key(client.0) {
                    e == Error::AccountNotFound(client)
                } else {
                    !self@.accounts[client.0].operations.contains_key(tx.0) && e
                        == Error::OperationNotFound(client, tx)
                },
            },
    {
        match self.accounts.get(&client.0) {
            Some(account) => match account.operations.get(&tx.0) {
                Some(operation) => Ok(*operation),
                None => Err(Error::OperationNotFound(client, tx)),
            },
            None => Err(Error::AccountNotFound(client)),
        }
    }

    fn process_deposit(&mut self, client: Client, tx: Tx, amount: Amount) -> (r: Result<
        (),
        Error,
    >)
        requires
            old(self).wf(),
        ensures
            final(self).wf(),
            r == old(self)@.deposit_result(client, tx, amount),
            final(self)@ == old(self)@.step(Event::Deposit { client, tx, amount }),
    {
        if self.locked_accounts.contains(&client.0) {
            return Err(Error::AccountLocked(client));
        }
        if self.used_txs.contains(&tx.0) {
            return Err(Error::DuplicateOperation(tx));
        }
        if amount.is_negative() {
            return Err(Error::NegativeAmountOperation(client, tx, amount));
        }
        let ghost m = self@;
        let ghost clients = self.clients@;
        let mut account = match self.accounts.remove(&client.0) {
            Some(account) => account,
            None => {
                assert(!clients.contains(client.0));
                self.clients.push(client.0);
                Account::new()
            },
        };
        assert(self.clients@ == clients || self.clients@ == clients.push(client.0));
        assert(account@ == m.account_or_empty(client.0));
        account.operations.insert(tx.0, Operation { kind: Kind::Deposit, amount });
        account.available = account.available + amount.0 as i128;
        self.accounts.insert(client.0, account);
        self.used_txs.insert(tx.0);
        proof {
            lemma_step_wf(m, Event::Deposit { client, tx, amount });
            assert(self@ =~= m.deposit_applied(client.0, tx.0, amount));
            assert forall|c: u16| self.accounts@.contains_key(c) <==> self.clients@.contains(c) by {
                if self.clients@ == clients.push(client.0) {
                    let v = self.clients@;
                    if clients.contains(c) {
                        let i = choose|i: int| 0 <= i < clients.len() && clients[i] == c;
                        assert(v[i] == c);
                    }
                    if c == client.0 {
                        assert(v[clients.len() as int] == c);
                    }
                    if v.contains(c) {
                        let i = choose|i: int| 0 <= i < v.len() && v[i] == c;
                        if i < clients.len() {
                            assert(clients[i] == c);
                        }
                    }
                }
            }
        }
        Ok(())
    }

    fn process_withdrawal(&mut self, client: Client, tx: Tx, amount: Amount) -> (r: Result<
        (),
        Error,
    >)
        requires
            old(self).wf(),
        ensures
            final(self).wf(),
            r == old(self)@.withdrawal_result(client, tx, amount),
            final(self)@ == old(self)@.step(Event::Withdrawal { client, tx, amount }),
    {
        if self.locked_accounts.contains(&client.0) {
            return Err(Error::AccountLocked(client));
        }
        if self.used_txs.contains(&tx.0) {
            return Err(Error::DuplicateOperation(tx));
        }
        if amount.is_negative() {
            return Err(Error::NegativeAmountOperation(client, tx, amount));
        }
        let available = match self.accounts.get(&client.0) {
            Some(account) => account.available,
            None => return Err(Error::AccountNotFound(client)),
        };
        if amount.0 as i128 > available {
            return Err(Error::InsufficientFunds(client, tx, amount));
        }
        let ghost m = self@;
        let mut account = self.accounts.remove(&client.0).unwrap();
        account.operations.insert(tx.0, Operation { kind: Kind::Withdrawal, amount });
        account.available = account.available - amount.0 as i128;
        self.accounts.insert(client.0, account);
        self.used_txs.insert(tx.0);
        proof {
            lemma_step_wf(m, Event::Withdrawal { client, tx, amount });
            assert(self@ =~= m.withdrawal_applied(client.0, tx.0, amount));
        }
        Ok(())
    }

    fn process_dispute_init(&mut self, client: Client, tx: Tx) -> (r: Result<(), Error>)
        requires
            old(self).wf(),
        ensures
            final(self).wf(),
            r == old(self)@.dispute_result(client, tx),
            final(self)@ == old(self)@.step(Event::Dispute { client, tx }),
    {
        if self.locked_accounts.contains(&client.0) {
            return Err(Error::AccountLocked(client));
        }
        if self.disputes.contains_key(&tx.0) {
            return Err(Error::DisputeAlreadyInProgress(tx));
        }
        let operation = match self.find_operation(client, tx) {
            Ok(operation) => operation,
            Err(e) => return Err(e),
        };
        let amount = match operation.kind {
            Kind::Deposit => operation.amount,
            Kind::Withdrawal => return Err(Error::WithdrawalDisputeAttempt(client, tx)),
        };
        let ghost m = self@;
        self.disputes.insert(tx.0, client.0);
        self.shift_balances(client.0, -(amount.0 as i128), amount.0 as i128);
        proof {
            lemma_step_wf(m, Event::Dispute { client, tx });
            assert(self@ =~= m.dispute_applied(client.0, tx.0));
        }
        Ok(())
    }

    fn process_dispute_resolve(&mut self, client: Client, tx: Tx) -> (r: Result<(), Error>)
        requires
            old(self).wf(),
        ensures
            final(self).wf(),
            r == old(self)@.settle_result(client, tx),
            final(self)@ == old(self)@.step(Event::Resolve { client, tx }),
    {
        if self.locked_accounts.contains(&client.0) {
            return Err(Error::AccountLocked(client));
        }
        match self.disputes.get(&tx.0) {
            Some(owner) => {
                if *owner != client.0 {
                    return Err(Error::DisputeNotFound(client, tx));
                }
            },
            None => return Err(Error::DisputeNotFound(client, tx)),
        }
        let operation = match self.find_operation(client, tx) {
            Ok(operation) => operation,
            Err(e) => return Err(e),
        };
        let amount = operation.amount;
        let ghost m = self@;
        self.disputes.remove(&tx.0);
        self.shift_balances(client.0, amount.0 as i128, -(amount.0 as i128));
        proof {
            lemma_step_wf(m, Event::Resolve { client, tx });
            assert(self@ =~= m.resolve_applied(client.0, tx.0));
        }
        Ok(())
    }

    fn process_dispute_chargeback(&mut self, client: Client, tx: Tx) -> (r: Result<(), Error>)
        requires
            old(self).wf(),
        ensures
            final(self).wf(),
            r == old(self)@.settle_result(client, tx),
            final(self)@ == old(self)@.step(Event::Chargeback { client, tx }),
    {
        if self.locked_accounts.contains(&client.0) {
            return Err(Error::AccountLocked(client));
        }
        match self.disputes.get(&tx.0) {
            Some(owner) => {
                if *owner != client.0 {
                    return Err(Error::DisputeNotFound(client, tx));
                }
            },
            None => return Err(Error::DisputeNotFound(client, tx)),
        }
        let operation = match self.find_operation(client, tx) {
            Ok(operation) => operation,
            Err(e) => return Err(e),
        };
        let amount = operation.amount;
        let ghost m = self@;
        self.disputes.remove(&tx.0);
        self.shift_balances(client.0, 0, -(amount.0 as i128));
        self.locked_accounts.insert(client.0);
        proof {
            lemma_step_wf(m, Event::Chargeback { client, tx });
            assert(self@ =~= m.chargeback_applied(client.0, tx.0));
        }
        Ok(())
    }

    /// The available and held funds of `client`, in ten-thousandths; `None`
    /// without an account.
    pub fn balances(&self, client: Client) -> (r: Option<(i128, i128)>)
        ensures
            match r {
                Some((available, held)) => self@.accounts.contains_key(client.0)
                    && available == self@.accounts[client.0].available
                    && held == self@.accounts[client.0].held,
                None => !self@.accounts.contains_key(client.0),
            },
    {
        match self.accounts.get(&client.0) {
            Some(account) => Some((account.available, account.held)),
            None => None,
        }
    }

    /// The operation that `client` recorded under `tx`.
    pub fn operation(&self, client: Client, tx: Tx) -> (r: Option<Operation>)
        ensures
            match r {
                Some(op) => self@.accounts.contains_key(client.0)
                    && self@.accounts[client.0].operations.contains_key(tx.0)
                    && op == self@.accounts[client.0].operations[tx.0],
                None => !self@.accounts.contains_key(client.0)
                    || !self@.accounts[client.0].operations.contains_key(tx.0),
            },
    {
        match self.find_operation(client, tx) {
            Ok(op) => Some(op),
            Err(_) => None,
        }
    }

    /// The number of operations that `client` recorded; `None` without an
    /// account.
    pub fn operations_count(&self, client: Client) -> (r: Option<usize>)
        ensures
            match r {
                Some(n) => self@.accounts.contains_key(client.0) && n
                    == self@.accounts[client.0].operations.len(),
                None => !self@.accounts.contains_key(client.0),
            },
    {
        match self.accounts.get(&client.0) {
            Some(account) => Some(account.operations.len()),
            None => None,
        }
    }

    /// The number of active disputes.
    pub fn disputes_count(&self) -> (r: usize)
        ensures
            r == self@.disputes.len(),
    {
        self.disputes.len()
    }

    /// The client that raised the active dispute on `tx`, if any.
    pub fn dispute_owner(&self, tx: Tx) -> (r: Option<Client>)
        ensures
            match r {
                Some(c) => self@.disputes.contains_key(tx.0) && c.0 == self@.disputes[tx.0],
                None => !self@.disputes.contains_key(tx.0),
            },
    {
        match self.disputes.get(&tx.0) {
            Some(owner) => Some(Client(*owner)),
            None => None,
        }
    }

    pub fn is_locked(&self, client: Client) -> (r: bool)
        ensures
            r == self@.locked.contains(client.0),
    {
        self.locked_accounts.contains(&client.0)
    }

    /// Locks `client`'s account directly, with no chargeback. Event
    /// processing never does this; it builds states in which a client is
    /// locked without an account.
    pub fn lock_account(&mut self, client: Client)
        requires
            old(self).wf(),
        ensures
            final(self).wf(),
            final(self)@ == (LedgerModel { locked: old(self)@.locked.insert(client.0), ..old(self)@ }),
    {
        self.locked_accounts.insert(client.0);
        assert(self@ =~= (LedgerModel { locked: old(self)@.locked.insert(client.0), ..old(self)@ }));
    }

    /// Registers a dispute on `tx` by `client` directly, without the checks
    /// of dispute processing, where `tx` is neither used by an operation nor
    /// already disputed; returns whether it did. Event processing never
    /// registers a dispute on an unrecorded transaction; this builds such
    /// states.
    pub fn insert_dispute(&mut self, tx: Tx, client: Client) -> (r: bool)
        requires
            old(self).wf(),
        ensures
            final(self).wf(),
            r == (!old(self)@.used.contains(tx.0) && !old(self)@.disputes.contains_key(tx.0)),
            final(self)@ == if r {
                LedgerModel { disputes: old(self)@.disputes.insert(tx.0, client.0), ..old(self)@ }
            } else {
                old(self)@
            },
    {
        if self.used_txs.contains(&tx.0) || self.disputes.contains_key(&tx.0) {
            return false;
        }
        let ghost m = self@;
        self.disputes.insert(tx.0, client.0);
        proof {
            assert(self@ =~= (LedgerModel { disputes: m.disputes.insert(tx.0, client.0), ..m }));
            assert forall|b: u16| #[trigger] m.accounts.contains_key(b) implies disputed_ops(
                m.accounts[b],
                self@.disputes,
                b,
            ) == disputed_ops(m.accounts[b], m.disputes, b) by {
                assert(!m.accounts[b].operations.contains_key(tx.0));
                assert(disputed_ops(m.accounts[b], self@.disputes, b) =~= disputed_ops(
                    m.accounts[b],
                    m.disputes,
                    b,
                ));
            }
        }
        true
    }
}

} // verus!
