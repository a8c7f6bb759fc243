//! Event processing keeps the ledger well formed.
use vstd::prelude::*;

use crate::event::Event;
use crate::model::{
    account_balanced, amount_bound, amount_of, amounts, balance_bound, disputed_ops, net,
    signed_amount, signed_of, AccountModel, LedgerModel, Operation,
};
use crate::sums::{
    lemma_sum_congruent, lemma_sum_dominated, lemma_sum_empty, lemma_sum_insert,
    lemma_sum_remove, lemma_sum_subset, lemma_u32_set_len,
};

verus! {

/// A balanced account whose operations use IDs out of a finite set has
/// bounded balances.
proof fn lemma_account_bounds(acct: AccountModel, disputes: Map<u32, u16>, c: u16, used: Set<u32>)
    requires
        used.finite(),
        acct.operations.dom().subset_of(used),
        forall|t: u32| #[trigger]
            acct.operations.contains_key(t) ==> acct.operations[t].amount.units() >= 0,
        account_balanced(acct, disputes, c),
    ensures
        -0x8000_0000_0000_0000_0000_0000 <= acct.held <= 0x8000_0000_0000_0000_0000_0000,
        -balance_bound() <= acct.available <= balance_bound(),
{
    let ops = acct.operations;
    let dom = ops.dom();
    let d = disputed_ops(acct, disputes, c);
    vstd::set_lib::lemma_len_subset(dom, used);
    lemma_u32_set_len(used);
    assert forall|t: u32| dom.contains(t) implies -amount_of(ops)(t) <= amount_of(ops)(t)
        <= amount_of(ops)(t) && amount_of(ops)(t) <= amount_bound() by {}
    lemma_sum_dominated(dom, amount_of(ops), amount_of(ops), amount_bound());
    assert forall|t: u32| dom.contains(t) implies -amount_of(ops)(t) <= signed_of(ops)(t)
        <= amount_of(ops)(t) && amount_of(ops)(t) <= amount_bound() by {}
    lemma_sum_dominated(dom, signed_of(ops), amount_of(ops), amount_bound());
    assert(d.subset_of(dom));
    lemma_sum_subset(d, dom, amount_of(ops));
    assert(dom.len() * amount_bound() <= 0x8000_0000_0000_0000_0000_0000);
}

/// Adding a new operation to an account adds its amount to the sums.
proof fn lemma_add_op(
    acct: AccountModel,
    acct2: AccountModel,
    disputes: Map<u32, u16>,
    c: u16,
    t: u32,
    op: Operation,
)
    requires
        acct.operations.dom().finite(),
        !acct.operations.contains_key(t),
        acct2.operations == acct.operations.insert(t, op),
    ensures
        net(acct2.operations) == net(acct.operations) + signed_amount(op),
        amounts(acct2.operations, acct2.operations.dom()) == amounts(
            acct.operations,
            acct.operations.dom(),
        ) + op.amount.units(),
        amounts(acct2.operations, disputed_ops(acct2, disputes, c)) == amounts(
            acct.operations,
            disputed_ops(acct, disputes, c),
        ) + (if disputes.contains_key(t) && disputes[t] == c {
            op.amount.units()
        } else {
            0
        }),
{
    let ops = acct.operations;
    let ops2 = acct2.operations;
    let dom = ops.dom();
    assert(ops2.dom() =~= dom.insert(t));
    lemma_sum_congruent(dom, signed_of(ops2), signed_of(ops));
    lemma_sum_insert(dom, signed_of(ops2), t);
    lemma_sum_congruent(dom, amount_of(ops2), amount_of(ops));
    lemma_sum_insert(dom, amount_of(ops2), t);
    let d = disputed_ops(acct, disputes, c);
    let d2 = disputed_ops(acct2, disputes, c);
    vstd::set_lib::lemma_len_subset(d, dom);
    lemma_sum_congruent(d, amount_of(ops2), amount_of(ops));
    if disputes.contains_key(t) && disputes[t] == c {
        assert(d2 =~= d.insert(t));
        lemma_sum_insert(d, amount_of(ops2), t);
    } else {
        assert(d2 =~= d);
    }
}

/// An account with no operations is balanced when its balances are zero.
proof fn lemma_empty_account_balanced(disputes: Map<u32, u16>, c: u16)
    ensures
        account_balanced(AccountModel::empty(), disputes, c),
{
    let e = AccountModel::empty();
    assert(e.operations.dom() =~= Set::empty());
    assert(disputed_ops(e, disputes, c) =~= Set::empty());
    lemma_sum_empty(signed_of(e.operations));
    lemma_sum_empty(amount_of(e.operations));
}

/// A new deposit or withdrawal keeps the ledger well formed.
proof fn lemma_new_operation_wf(m: LedgerModel, m2: LedgerModel, c: u16, t: u32, op: Operation)
    requires
        m.wf(),
        !m.locked.contains(c),
        !m.used.contains(t),
        op.amount.units() >= 0,
        m2.disputes == m.disputes,
        m2.locked == m.locked,
        m2.used == m.used.insert(t),
        m2.accounts.dom() == m.accounts.dom().insert(c),
        forall|b: u16| b != c && #[trigger] m.accounts.contains_key(b) ==> m2.accounts[b]
            == m.accounts[b],
        m2.accounts[c].operations == m.account_or_empty(c).operations.insert(t, op),
        m2.accounts[c].total() == m.account_or_empty(c).total() + signed_amount(op),
        m2.accounts[c].held == m.account_or_empty(c).held,
    ensures
        m2.wf(),
{
    let acct = m.account_or_empty(c);
    let acct2 = m2.accounts[c];
    if m.accounts.contains_key(c) {
        assert(account_balanced(acct, m.disputes, c));
    } else {
        lemma_empty_account_balanced(m.disputes, c);
        assert(acct.operations.dom() =~= Set::empty());
    }
    vstd::set_lib::lemma_len_subset(acct.operations.dom(), m.used);
    lemma_add_op(acct, acct2, m.disputes, c, t, op);
    assert(account_balanced(acct2, m2.disputes, c));
    assert(acct2.operations.dom().subset_of(m2.used));
    lemma_account_bounds(acct2, m2.disputes, c, m2.used);
    assert forall|b: u16| #[trigger] m2.accounts.contains_key(b) implies {
        let a = m2.accounts[b];
        &&& a.operations.dom().subset_of(m2.used)
        &&& forall|x: u32| #[trigger]
            a.operations.contains_key(x) ==> a.operations[x].amount.units() >= 0
        &&& -balance_bound() <= a.available <= balance_bound()
        &&& -balance_bound() <= a.held <= balance_bound()
        &&& !m2.locked.contains(b) ==> m2.balanced(b)
    } by {
        if b != c {
            assert(m.accounts.contains_key(b));
        }
    }
}

/// A change of the dispute registry at `t`, an operation of `c`, that
/// leaves every other client's disputed operations as they were.
proof fn lemma_others_unchanged(m: LedgerModel, disputes2: Map<u32, u16>, c: u16, t: u32, b: u16)
    requires
        m.accounts.contains_key(b),
        b != c,
        !m.disputes.contains_key(t) || m.disputes[t] == c,
        !disputes2.contains_key(t) || disputes2[t] == c,
        forall|x: u32| x != t ==> (m.disputes.contains_key(x) == disputes2.contains_key(x)),
        forall|x: u32| x != t && m.disputes.contains_key(x) ==> m.disputes[x] == disputes2[x],
    ensures
        disputed_ops(m.accounts[b], disputes2, b) == disputed_ops(m.accounts[b], m.disputes, b),
{
    assert(disputed_ops(m.accounts[b], disputes2, b) =~= disputed_ops(
        m.accounts[b],
        m.disputes,
        b,
    ));
}

/// Processing any event keeps the ledger well formed.
pub proof fn lemma_step_wf(m: LedgerModel, e: Event)
    requires
        m.wf(),
    ensures
        m.step(e).wf(),
{
    if m.result(e) is Ok {
        match e {
            Event::Deposit { client, tx, amount } => {
                let m2 = m.deposit_applied(client.0, tx.0, amount);
                assert(m2.accounts.dom() =~= m.accounts.dom().insert(client.0));
                lemma_new_operation_wf(
                    m,
                    m2,
                    client.0,
                    tx.0,
                    Operation { kind: crate::model::Kind::Deposit, amount },
                );
            },
            Event::Withdrawal { client, tx, amount } => {
                let m2 = m.withdrawal_applied(client.0, tx.0, amount);
                assert(m2.accounts.dom() =~= m.accounts.dom().insert(client.0));
                lemma_new_operation_wf(
                    m,
                    m2,
                    client.0,
                    tx.0,
                    Operation { kind: crate::model::Kind::Withdrawal, amount },
                );
            },
            Event::Dispute { client, tx } => {
                let (c, t) = (client.0, tx.0);
                let m2 = m.dispute_applied(c, t);
                let acct = m.accounts[c];
                let acct2 = m2.accounts[c];
                let ops = acct.operations;
                let d = disputed_ops(acct, m.disputes, c);
                assert(m.balanced(c));
                assert(disputed_ops(acct2, m2.disputes, c) =~= d.insert(t));
                vstd::set_lib::lemma_len_subset(ops.dom(), m.used);
                vstd::set_lib::lemma_len_subset(d, ops.dom());
                lemma_sum_insert(d, amount_of(ops), t);
                assert(account_balanced(acct2, m2.disputes, c));
                lemma_account_bounds(acct2, m2.disputes, c, m2.used);
                assert forall|b: u16| #[trigger] m2.accounts.contains_key(b) && b != c implies m2.balanced(b)
                    == m.balanced(b) by {
                    lemma_others_unchanged(m, m2.disputes, c, t, b);
                }
            },
            Event::Resolve { client, tx } => {
                let (c, t) = (client.0, tx.0);
                let m2 = m.resolve_applied(c, t);
                let acct = m.accounts[c];
                let acct2 = m2.accounts[c];
                let ops = acct.operations;
                let d = disputed_ops(acct, m.disputes, c);
                assert(m.balanced(c));
                assert(disputed_ops(acct2, m2.disputes, c) =~= d.remove(t));
                vstd::set_lib::lemma_len_subset(ops.dom(), m.used);
                vstd::set_lib::lemma_len_subset(d, ops.dom());
                lemma_sum_remove(d, amount_of(ops), t);
                assert(account_balanced(acct2, m2.disputes, c));
                lemma_account_bounds(acct2, m2.disputes, c, m2.used);
                assert forall|b: u16| #[trigger] m2.accounts.contains_key(b) && b != c implies m2.balanced(b)
                    == m.balanced(b) by {
                    lemma_others_unchanged(m, m2.disputes, c, t, b);
                }
            },
            Event::Chargeback { client, tx } => {
                let (c, t) = (client.0, tx.0);
                let m2 = m.chargeback_applied(c, t);
                let acct = m.accounts[c];
                assert(m.balanced(c));
                lemma_account_bounds(acct, m.disputes, c, m.used);
                assert forall|b: u16| #[trigger] m2.accounts.contains_key(b) && b != c implies m2.balanced(b)
                    == m.balanced(b) by {
                    lemma_others_unchanged(m, m2.disputes, c, t, b);
                }
            },
        }
    }
}

} // verus!
