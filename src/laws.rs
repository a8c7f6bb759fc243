//! Laws of event processing, stated over the ledger model.
use vstd::prelude::*;

use crate::error::Error;
use crate::event::Event;
use crate::model::{Kind, LedgerModel};
use crate::types::{Amount, Client, Tx};

verus! {

/// The ledger after processing `events` in order, starting from `m`.
pub open spec fn run(m: LedgerModel, events: Seq<Event>) -> LedgerModel
    decreases events.len(),
{
    if events.len() == 0 {
        m
    } else {
        run(m, events.drop_last()).step(events.last())
    }
}

/// What event `e`, processed on ledger `m`, adds to client `c`'s funds when
/// it is a deposit or a withdrawal that succeeds.
pub open spec fn applied_amount(m: LedgerModel, e: Event, c: u16) -> int {
    if m.result(e) is Ok && e.spec_client().0 == c {
        match e {
            Event::Deposit { amount, .. } => amount.units(),
            Event::Withdrawal { amount, .. } => -amount.units(),
            _ => 0,
        }
    } else {
        0
    }
}

/// The successfully applied deposits of client `c` along `events`, less
/// its successfully applied withdrawals.
pub open spec fn applied_net(m: LedgerModel, events: Seq<Event>, c: u16) -> int
    decreases events.len(),
{
    if events.len() == 0 {
        0
    } else {
        applied_net(m, events.drop_last(), c) + applied_amount(
            run(m, events.drop_last()),
            events.last(),
            c,
        )
    }
}

/// The total funds (available plus held) of client `c`; zero without an
/// account.
pub open spec fn funds(m: LedgerModel, c: u16) -> int {
    if m.accounts.contains_key(c) {
        m.accounts[c].total()
    } else {
        0
    }
}

/// Each transaction ID is recorded by one account at most, and every
/// disputed transaction is a deposit recorded by the client that raised the
/// dispute. Event processing keeps this; only a registry edited by hand
/// breaks it.
pub open spec fn records_consistent(m: LedgerModel) -> bool {
    &&& forall|c1: u16, c2: u16, t: u32|
        #![trigger m.accounts[c1].operations.contains_key(t), m.accounts[c2].operations.contains_key(t)]
        c1 != c2 && m.accounts.contains_key(c1) && m.accounts.contains_key(c2)
            && m.accounts[c1].operations.contains_key(t) ==> !m.accounts[c2].operations.contains_key(t)
    &&& forall|t: u32| #[trigger]
        m.disputes.contains_key(t) ==> {
            let c = m.disputes[t];
            &&& m.accounts.contains_key(c)
            &&& m.accounts[c].operations.contains_key(t)
            &&& m.accounts[c].operations[t].kind == Kind::Deposit
        }
}

proof fn lemma_step_funds(m: LedgerModel, e: Event, c: u16)
    requires
        !(e is Chargeback),
    ensures
        funds(m.step(e), c) == funds(m, c) + applied_amount(m, e, c),
{
}

/// Without chargebacks, each client's total funds (available plus held)
/// move only by its successful deposits and withdrawals: starting from `m`,
/// they end at the starting funds plus the deposits less the withdrawals.
pub proof fn lemma_funds_follow_operations(m: LedgerModel, events: Seq<Event>, c: u16)
    requires
        forall|i: int| 0 <= i < events.len() ==> !(#[trigger] events[i] is Chargeback),
    ensures
        funds(run(m, events), c) == funds(m, c) + applied_net(m, events, c),
    decreases events.len(),
{
    if events.len() > 0 {
        let init = events.drop_last();
        assert forall|i: int| 0 <= i < init.len() implies !(#[trigger] init[i] is Chargeback) by {
            assert(init[i] == events[i]);
        }
        lemma_funds_follow_operations(m, init, c);
        lemma_step_funds(run(m, init), events.last(), c);
    }
}

/// Conservation: after any sequence of events without chargebacks, processed
/// from an empty ledger, each client's available plus held funds equal its
/// successfully applied deposits less its successfully applied withdrawals.
pub proof fn lemma_conservation(events: Seq<Event>, c: Client)
    requires
        forall|i: int| 0 <= i < events.len() ==> !(#[trigger] events[i] is Chargeback),
    ensures
        funds(run(LedgerModel::empty(), events), c.0) == applied_net(
            LedgerModel::empty(),
            events,
            c.0,
        ),
{
    lemma_funds_follow_operations(LedgerModel::empty(), events, c.0);
}

/// Transaction IDs stay used and locked clients stay locked.
pub proof fn lemma_step_monotone(m: LedgerModel, e: Event)
    ensures
        m.used.subset_of(m.step(e).used),
        m.locked.subset_of(m.step(e).locked),
{
}

/// Rejection of a reused transaction ID: a deposit or withdrawal whose ID is
/// already used, for a client that is not locked, fails with
/// `DuplicateOperation` and changes nothing.
pub proof fn lemma_replay_rejected(m: LedgerModel, e: Event)
    requires
        e is Deposit || e is Withdrawal,
        m.used.contains(e.spec_tx().0),
        !m.locked.contains(e.spec_client().0),
    ensures
        m.result(e) == Err::<(), Error>(Error::DuplicateOperation(e.spec_tx())),
        m.step(e) == m,
{
}

/// Once a deposit or a withdrawal succeeds, every later deposit or
/// withdrawal with the same transaction ID, by any client that is not
/// locked, is rejected with `DuplicateOperation` and changes nothing.
pub proof fn lemma_replay_after(m: LedgerModel, first: Event, later: Seq<Event>, replay: Event)
    requires
        first is Deposit || first is Withdrawal,
        m.result(first) is Ok,
        replay is Deposit || replay is Withdrawal,
        replay.spec_tx() == first.spec_tx(),
        !run(m.step(first), later).locked.contains(replay.spec_client().0),
    ensures
        run(m.step(first), later).result(replay) == Err::<(), Error>(
            Error::DuplicateOperation(replay.spec_tx()),
        ),
        run(m.step(first), later).step(replay) == run(m.step(first), later),
{
    lemma_run_monotone(m.step(first), later);
    lemma_replay_rejected(run(m.step(first), later), replay);
}

/// Used transaction IDs and locked clients are never given back.
pub proof fn lemma_run_monotone(m: LedgerModel, events: Seq<Event>)
    ensures
        m.used.subset_of(run(m, events).used),
        m.locked.subset_of(run(m, events).locked),
    decreases events.len(),
{
    if events.len() > 0 {
        lemma_run_monotone(m, events.drop_last());
        lemma_step_monotone(run(m, events.drop_last()), events.last());
    }
}

/// Dispute round trip: a deposit that succeeds, then a dispute on it and
/// its resolution, both of which succeed, leave the ledger exactly as the
/// deposit left it; the available and held funds are back to their values
/// before the dispute.
pub proof fn lemma_dispute_round_trip(m: LedgerModel, c: Client, t: Tx, a: Amount)
    requires
        m.wf(),
        records_consistent(m),
        m.result(Event::Deposit { client: c, tx: t, amount: a }) is Ok,
    ensures
        ({
            let deposited = m.step(Event::Deposit { client: c, tx: t, amount: a });
            let disputed = deposited.step(Event::Dispute { client: c, tx: t });
            &&& deposited.result(Event::Dispute { client: c, tx: t }) is Ok
            &&& disputed.result(Event::Resolve { client: c, tx: t }) is Ok
            &&& disputed.step(Event::Resolve { client: c, tx: t }) == deposited
        }),
{
    let deposited = m.step(Event::Deposit { client: c, tx: t, amount: a });
    let disputed = deposited.step(Event::Dispute { client: c, tx: t });
    if m.disputes.contains_key(t.0) {
        assert(m.accounts.contains_key(m.disputes[t.0]));
    }
    assert(!m.disputes.contains_key(t.0));
    let resolved = disputed.step(Event::Resolve { client: c, tx: t });
    assert(resolved.disputes =~= deposited.disputes);
    assert(resolved.accounts[c.0] =~= deposited.accounts[c.0]);
    assert(resolved.accounts =~= deposited.accounts);
    assert(resolved =~= deposited);
}

/// Lock finality: every event of a locked client, whatever its kind, fails
/// with `AccountLocked` and changes nothing.
pub proof fn lemma_lock_final(m: LedgerModel, e: Event)
    requires
        m.locked.contains(e.spec_client().0),
    ensures
        m.result(e) == Err::<(), Error>(Error::AccountLocked(e.spec_client())),
        m.step(e) == m,
{
}

/// Once a chargeback succeeds, every later event of that client, after any
/// events in between, fails with `AccountLocked` and changes nothing.
pub proof fn lemma_locked_after_chargeback(
    m: LedgerModel,
    c: Client,
    t: Tx,
    between: Seq<Event>,
    e: Event,
)
    requires
        m.result(Event::Chargeback { client: c, tx: t }) is Ok,
        e.spec_client() == c,
    ensures
        ({
            let before = run(m.step(Event::Chargeback { client: c, tx: t }), between);
            &&& before.result(e) == Err::<(), Error>(Error::AccountLocked(c))
            &&& before.step(e) == before
        }),
{
    let charged = m.step(Event::Chargeback { client: c, tx: t });
    lemma_run_monotone(charged, between);
    lemma_lock_final(run(charged, between), e);
}

/// Withdrawal guard: disputing a recorded withdrawal of a client that is not
/// locked fails with `WithdrawalDisputeAttempt` and changes nothing.
pub proof fn lemma_withdrawal_guard(m: LedgerModel, c: Client, t: Tx)
    requires
        records_consistent(m),
        !m.locked.contains(c.0),
        m.accounts.contains_key(c.0),
        m.accounts[c.0].operations.contains_key(t.0),
        m.accounts[c.0].operations[t.0].kind == Kind::Withdrawal,
    ensures
        m.result(Event::Dispute { client: c, tx: t }) == Err::<(), Error>(
            Error::WithdrawalDisputeAttempt(c, t),
        ),
        m.step(Event::Dispute { client: c, tx: t }) == m,
{
    if m.disputes.contains_key(t.0) {
        let owner = m.disputes[t.0];
        assert(m.accounts[owner].operations.contains_key(t.0));
    }
}

/// Event processing keeps the dispute registry well formed.
pub proof fn lemma_records_consistent_step(m: LedgerModel, e: Event)
    requires
        m.wf(),
        records_consistent(m),
    ensures
        records_consistent(m.step(e)),
{
    let m2 = m.step(e);
    if m.result(e) is Ok {
        assert forall|c1: u16, c2: u16, t: u32|
            c1 != c2 && m2.accounts.contains_key(c1) && m2.accounts.contains_key(c2)
                && #[trigger] m2.accounts[c1].operations.contains_key(t) implies !#[trigger] m2.accounts[c2].operations.contains_key(t) by {
            if m.accounts.contains_key(c1) && m.accounts[c1].operations.contains_key(t) {
                assert(m.used.contains(t));
            }
            if m.accounts.contains_key(c2) && m.accounts[c2].operations.contains_key(t) {
                assert(m.used.contains(t));
            }
        }
        assert forall|t: u32| #[trigger] m2.disputes.contains_key(t) implies {
            let c = m2.disputes[t];
            &&& m2.accounts.contains_key(c)
            &&& m2.accounts[c].operations.contains_key(t)
            &&& m2.accounts[c].operations[t].kind == Kind::Deposit
        } by {
            if m.disputes.contains_key(t) {
                let c = m.disputes[t];
                assert(m.accounts[c].operations.contains_key(t));
                assert(m.used.contains(t));
            }
        }
    }
}

/// Every ledger reached from the empty one by processing events is well
/// formed and has a well-formed dispute registry.
pub proof fn lemma_run_wf(events: Seq<Event>)
    ensures
        run(LedgerModel::empty(), events).wf(),
        records_consistent(run(LedgerModel::empty(), events)),
    decreases events.len(),
{
    if events.len() > 0 {
        let init = events.drop_last();
        lemma_run_wf(init);
        crate::preservation::lemma_step_wf(run(LedgerModel::empty(), init), events.last());
        lemma_records_consistent_step(run(LedgerModel::empty(), init), events.last());
    }
}

} // verus!
