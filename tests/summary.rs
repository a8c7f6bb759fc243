use std::collections::HashSet;

use scoring::{AccountSummary, Amount, Analysis, AnalysisError, Client, Event, Tx};

fn amount(x: f64) -> Amount {
    Amount((x * 10000.0).round() as i64)
}

fn summary_set(analysis: Analysis) -> HashSet<AccountSummary> {
    analysis.summary().into_records().into_iter().collect::<HashSet<AccountSummary>>()
}

fn record(client: u16, available: &str, held: &str, total: &str, locked: bool) -> AccountSummary {
    AccountSummary {
        client: Client(client),
        available: String::from(available),
        held: String::from(held),
        total: String::from(total),
        locked,
    }
}

fn apply_all(analysis: &mut Analysis, events: &[Event]) {
    for event in events {
        assert_eq!(analysis.process_event(event), Ok(()));
    }
}

#[test]
fn test_basic() {
    let mut analysis = Analysis::begin();

    apply_all(
        &mut analysis,
        &[
            Event::Deposit { client: Client(1), tx: Tx(1), amount: amount(1.0) },
            Event::Deposit { client: Client(1), tx: Tx(2), amount: amount(1.0) },
            Event::Dispute { client: Client(1), tx: Tx(1) },
            Event::Deposit { client: Client(2), tx: Tx(3), amount: amount(10.0) },
            Event::Withdrawal { client: Client(2), tx: Tx(4), amount: amount(1.0) },
            Event::Dispute { client: Client(2), tx: Tx(3) },
            Event::Resolve { client: Client(2), tx: Tx(3) },
            Event::Deposit { client: Client(3), tx: Tx(5), amount: amount(10.0) },
            Event::Deposit { client: Client(3), tx: Tx(6), amount: amount(1.0) },
            Event::Dispute { client: Client(3), tx: Tx(5) },
            Event::Chargeback { client: Client(3), tx: Tx(5) },
        ],
    );

    let summary = summary_set(analysis);

    assert_eq!(
        summary,
        [
            record(1, "1.0000", "1.0000", "2.0000", false),
            record(2, "9.0000", "0.0000", "9.0000", false),
            record(3, "1.0000", "0.0000", "1.0000", true),
        ]
        .into_iter()
        .collect::<HashSet<AccountSummary>>()
    )
}

#[test]
fn scenario_dispute_holds_funds() {
    let mut analysis = Analysis::begin();
    apply_all(
        &mut analysis,
        &[
            Event::Deposit { client: Client(1), tx: Tx(1), amount: amount(1.0) },
            Event::Deposit { client: Client(1), tx: Tx(2), amount: amount(2.0) },
            Event::Dispute { client: Client(1), tx: Tx(1) },
        ],
    );
    let records = analysis.summary().into_records();
    assert_eq!(records, vec![record(1, "2.0000", "1.0000", "3.0000", false)]);
}

#[test]
fn scenario_resolve_restores_funds() {
    let mut analysis = Analysis::begin();
    apply_all(
        &mut analysis,
        &[
            Event::Deposit { client: Client(2), tx: Tx(3), amount: amount(10.0) },
            Event::Withdrawal { client: Client(2), tx: Tx(4), amount: amount(1.0) },
            Event::Dispute { client: Client(2), tx: Tx(3) },
            Event::Resolve { client: Client(2), tx: Tx(3) },
        ],
    );
    let records = analysis.summary().into_records();
    assert_eq!(records, vec![record(2, "9.0000", "0.0000", "9.0000", false)]);
}

#[test]
fn scenario_chargeback_locks_account() {
    let mut analysis = Analysis::begin();
    apply_all(
        &mut analysis,
        &[
            Event::Deposit { client: Client(3), tx: Tx(5), amount: amount(10.0) },
            Event::Deposit { client: Client(3), tx: Tx(6), amount: amount(1.0) },
            Event::Dispute { client: Client(3), tx: Tx(5) },
            Event::Chargeback { client: Client(3), tx: Tx(5) },
        ],
    );
    let records = analysis.summary().into_records();
    assert_eq!(records, vec![record(3, "1.0000", "0.0000", "1.0000", true)]);
}

#[test]
fn summary_of_empty_analysis_has_no_records() {
    let mut summary = Analysis::begin().summary();
    assert_eq!(summary.next(), None);
    assert!(Analysis::begin().summary().into_records().is_empty());
}

#[test]
fn summary_lists_locked_account_without_record_of_own() {
    let mut analysis = Analysis::begin();
    analysis.lock_account(Client(9));
    apply_all(&mut analysis, &[Event::Deposit { client: Client(1), tx: Tx(1), amount: amount(0.5) }]);
    let records = analysis.summary().into_records();
    assert_eq!(records, vec![record(1, "0.5000", "0.0000", "0.5000", false)]);
}

#[test]
fn summary_next_hands_out_each_account_once() {
    let mut analysis = Analysis::begin();
    apply_all(
        &mut analysis,
        &[
            Event::Deposit { client: Client(1), tx: Tx(1), amount: amount(1.0) },
            Event::Deposit { client: Client(2), tx: Tx(2), amount: amount(2.0) },
            Event::Deposit { client: Client(1), tx: Tx(3), amount: amount(3.0) },
        ],
    );
    let mut summary = analysis.summary();
    let mut seen = Vec::new();
    while let Some(record) = summary.next() {
        seen.push(record);
    }
    assert_eq!(seen.len(), 2);
    let set = seen.into_iter().collect::<HashSet<AccountSummary>>();
    assert!(set.contains(&record(1, "4.0000", "0.0000", "4.0000", false)));
    assert!(set.contains(&record(2, "2.0000", "0.0000", "2.0000", false)));
}

#[test]
fn summary_total_is_computed_from_final_balances() {
    let mut analysis = Analysis::begin();
    apply_all(
        &mut analysis,
        &[
            Event::Deposit { client: Client(5), tx: Tx(1), amount: Amount(12345) },
            Event::Withdrawal { client: Client(5), tx: Tx(2), amount: Amount(2) },
            Event::Dispute { client: Client(5), tx: Tx(1) },
        ],
    );
    let records = analysis.summary().into_records();
    assert_eq!(records, vec![record(5, "-0.0002", "1.2345", "1.2343", false)]);
}

#[test]
fn locked_account_rejects_every_kind_of_event() {
    let mut analysis = Analysis::begin();
    let c = Client(3);
    apply_all(
        &mut analysis,
        &[
            Event::Deposit { client: c, tx: Tx(5), amount: amount(10.0) },
            Event::Deposit { client: c, tx: Tx(6), amount: amount(1.0) },
            Event::Dispute { client: c, tx: Tx(6) },
            Event::Dispute { client: c, tx: Tx(5) },
            Event::Chargeback { client: c, tx: Tx(5) },
        ],
    );
    let before = analysis.balances(c);
    for event in [
        Event::Deposit { client: c, tx: Tx(7), amount: amount(1.0) },
        Event::Withdrawal { client: c, tx: Tx(8), amount: amount(0.5) },
        Event::Dispute { client: c, tx: Tx(5) },
        Event::Resolve { client: c, tx: Tx(6) },
        Event::Chargeback { client: c, tx: Tx(6) },
    ] {
        assert_eq!(analysis.process_event(&event), Err(AnalysisError::AccountLocked(c)));
        assert_eq!(analysis.balances(c), before);
    }
    assert_eq!(before, Some((0, 10000)));
    assert_eq!(analysis.disputes_count(), 1);
}

#[test]
fn dispute_then_resolve_restores_balances() {
    let mut analysis = Analysis::begin();
    let c = Client(4);
    apply_all(&mut analysis, &[Event::Deposit { client: c, tx: Tx(1), amount: amount(2.0) }]);
    let deposit = Event::Deposit { client: c, tx: Tx(2), amount: amount(0.75) };
    assert_eq!(analysis.process_event(&deposit), Ok(()));
    let after_deposit = analysis.balances(c);
    assert_eq!(analysis.process_event(&Event::Dispute { client: c, tx: Tx(2) }), Ok(()));
    assert_eq!(analysis.balances(c), Some((20000, 7500)));
    assert_eq!(analysis.process_event(&Event::Resolve { client: c, tx: Tx(2) }), Ok(()));
    assert_eq!(analysis.balances(c), after_deposit);
    assert_eq!(analysis.disputes_count(), 0);
}

#[test]
fn funds_follow_applied_deposits_and_withdrawals() {
    let mut analysis = Analysis::begin();
    let c = Client(8);
    let events = [
        Event::Deposit { client: c, tx: Tx(1), amount: amount(5.0) },
        Event::Withdrawal { client: c, tx: Tx(2), amount: amount(7.0) },
        Event::Withdrawal { client: c, tx: Tx(3), amount: amount(2.0) },
        Event::Dispute { client: c, tx: Tx(1) },
        Event::Deposit { client: c, tx: Tx(1), amount: amount(9.0) },
        Event::Deposit { client: c, tx: Tx(4), amount: amount(-1.0) },
        Event::Resolve { client: c, tx: Tx(1) },
        Event::Dispute { client: c, tx: Tx(1) },
    ];
    for event in events.iter() {
        let _ = analysis.process_event(event);
    }
    let (available, held) = analysis.balances(c).unwrap();
    assert_eq!(available + held, 30000);
    assert_eq!((available, held), (-20000, 50000));
}
