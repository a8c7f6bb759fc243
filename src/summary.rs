//! The final, per-client summary of an analysis.
use std::collections::HashSet;

use vstd::prelude::*;

use crate::analysis::{Account, Analysis};
use crate::model::{balance_bound, LedgerModel};
use crate::text::{fixed4, units_to_string};
use crate::types::Client;

verus! {

broadcast use vstd::std_specs::hash::group_hash_axioms;

/// A summary record as numbers: balances in ten-thousandths.
pub struct SummaryModel {
    pub client: Client,
    pub available: int,
    pub held: int,
    pub locked: bool,
}

/// The resulting state of one account. The amounts are text with exactly
/// four decimal places (`"1.5000"`).
#[derive(Debug, Clone, PartialEq, Eq, Hash)]
pub struct Summary {
    /// Client ID.
    pub client: Client,
    /// Available amount.
    pub available: String,
    /// Held amount (under disputes in progress).
    pub held: String,
    /// Total amount (available + held).
    pub total: String,
    /// Whether the account is locked (after a chargeback).
    pub locked: bool,
}

impl Summary {
    /// The record is the text of `m`; the total is computed from the final
    /// available and held amounts.
    pub open spec fn renders(self, m: SummaryModel) -> bool {
        &&& self.client == m.client
        &&& self.available@ == fixed4(m.available)
        &&& self.held@ == fixed4(m.held)
        &&& self.total@ == fixed4(m.available + m.held)
        &&& self.locked == m.locked
    }
}

/// The summary record of client `c`'s account in ledger `m`.
pub open spec fn entry_of(m: LedgerModel, c: u16) -> SummaryModel {
    SummaryModel {
        client: Client(c),
        available: m.accounts[c].available,
        held: m.accounts[c].held,
        locked: m.locked.contains(c),
    }
}

/// `s` holds exactly one record for each account of `m`, in some order.
pub open spec fn lists_accounts(s: Seq<SummaryModel>, m: LedgerModel) -> bool {
    &&& forall|i: int|
        0 <= i < s.len() ==> m.accounts.contains_key((#[trigger] s[i]).client.0) && s[i]
            == entry_of(m, s[i].client.0)
    &&& forall|c: u16| #[trigger]
        m.accounts.contains_key(c) ==> exists|i: int| 0 <= i < s.len() && s[i].client.0 == c
    &&& forall|i: int, j: int|
        0 <= i < s.len() && 0 <= j < s.len() && (#[trigger] s[i]).client == (#[trigger] s[j]).client
            ==> i == j
}

/// The summary of an [`Analysis`], handed out one account at a time by
/// [`AnalysisSummary::next`].
pub struct AnalysisSummary {
    accounts: Vec<(Client, Account)>,
    locked: HashSet<u16>,
}

impl View for AnalysisSummary {
    type V = Seq<SummaryModel>;

    /// The records still to come; `next` hands out the last one first.
    closed spec fn view(&self) -> Seq<SummaryModel> {
        self.accounts@.map_values(
            |e: (Client, Account)|
                SummaryModel {
                    client: e.0,
                    available: e.1@.available,
                    held: e.1@.held,
                    locked: self.locked@.contains(e.0.0),
                },
        )
    }
}

impl AnalysisSummary {
    pub closed spec fn wf(&self) -> bool {
        forall|i: int|
            0 <= i < self.accounts@.len() ==> -balance_bound() <= (
            #[trigger] self.accounts@[i]).1@.available <= balance_bound() && -balance_bound()
                <= self.accounts@[i].1@.held <= balance_bound()
    }

    /// Turns an analysis into its summary.
    pub fn from(analysis: Analysis) -> (r: AnalysisSummary)
        requires
            analysis.wf(),
        ensures
            r.wf(),
            lists_accounts(r@, analysis@),
    {
        proof {
            analysis.lemma_clients();
        }
        let ghost m = analysis@;
        let ghost clients = analysis.clients_spec();
        let (accounts, locked) = analysis.into_parts();
        let r = AnalysisSummary { accounts, locked };
        assert forall|i: int| 0 <= i < r@.len() implies m.accounts.contains_key(
            (#[trigger] r@[i]).client.0,
        ) && r@[i] == entry_of(m, r@[i].client.0) by {
            assert(clients.contains(clients[i]));
        }
        assert forall|c: u16| #[trigger] m.accounts.contains_key(c) implies exists|i: int|
            0 <= i < r@.len() && r@[i].client.0 == c by {
            assert(analysis@.accounts.contains_key(c));
            assert(clients.contains(c));
            let i = choose|i: int| 0 <= i < clients.len() && clients[i] == c;
            assert(r@[i].client.0 == c);
        }
        assert forall|i: int| 0 <= i < r.accounts@.len() implies -balance_bound() <= (
        #[trigger] r.accounts@[i]).1@.available <= balance_bound() && -balance_bound()
            <= r.accounts@[i].1@.held <= balance_bound() by {
            assert(clients.contains(clients[i]));
            assert(m.accounts.contains_key(clients[i]));
        }
        r
    }

    /// Hands out the next record, or `None` when all have been handed out.
    pub fn next(&mut self) -> (r: Option<Summary>)
        requires
            old(self).wf(),
        ensures
            final(self).wf(),
            old(self)@.len() == 0 ==> r is None && final(self)@ == old(self)@,
            old(self)@.len() > 0 ==> r is Some && r->0.renders(old(self)@.last())
                && final(self)@ == old(self)@.drop_last(),
    {
        let ghost before = self.accounts@;
        match self.accounts.pop() {
            None => None,
            Some((client, account)) => {
                proof {
                    account.lemma_view();
                    assert(self.accounts@ =~= before.drop_last());
                    assert(self@ =~= old(self)@.drop_last());
                }
                let available = account.available;
                let held = account.held;
                Some(
                    Summary {
                        client,
                        available: units_to_string(available),
                        held: units_to_string(held),
                        total: units_to_string(available + held),
                        locked: self.locked.contains(&client.0),
                    },
                )
            },
        }
    }

    /// All the records, in the order `next` hands them out.
    pub fn into_records(self) -> (r: Vec<Summary>)
        requires
            self.wf(),
        ensures
            r@.len() == self@.len(),
            forall|i: int|
                0 <= i < r@.len() ==> (#[trigger] r@[i]).renders(self@[self@.len() - 1 - i]),
    {
        let mut rest = self;
        let ghost all = rest@;
        let mut out: Vec<Summary> = Vec::new();
        loop
            invariant
                rest.wf(),
                out@.len() + rest@.len() == all.len(),
                rest@ == all.subrange(0, rest@.len() as int),
                forall|i: int|
                    0 <= i < out@.len() ==> (#[trigger] out@[i]).renders(all[all.len() - 1 - i]),
            ensures
                out@.len() == all.len(),
                forall|i: int|
                    0 <= i < out@.len() ==> (#[trigger] out@[i]).renders(all[all.len() - 1 - i]),
            decreases rest@.len(),
        {
            let ghost len = rest@.len();
            match rest.next() {
                Some(record) => {
                    assert(all[all.len() - 1 - out@.len()] == all.subrange(0, len as int).last());
                    out.push(record);
                    assert(rest@ =~= all.subrange(0, rest@.len() as int));
                },
                None => break,
            }
        }
        out
    }
}

impl Analysis {
    /// Turns the analysis into its summary: one record per account, locked
    /// or not.
    pub fn summary(self) -> (r: AnalysisSummary)
        requires
            self.wf(),
        ensures
            r.wf(),
            lists_accounts(r@, self@),
    {
        AnalysisSummary::from(self)
    }
}

} // verus!
