use scoring::{Amount, Analysis, AnalysisError, Client, Event, Operation, OperationKind, Tx};

fn amount(x: f64) -> Amount {
    Amount((x * 10000.0).round() as i64)
}

fn assert_operation_exists(analysis: &Analysis, client: Client, tx: Tx, expected: Operation) {
    assert!(analysis.balances(client).is_some());
    let operation = analysis.operation(client, tx);
    assert!(operation.is_some());
    assert_eq!(expected, operation.unwrap());
}

fn assert_account_balance(analysis: &Analysis, client: Client, available: Amount, held: Amount) {
    let balances = analysis.balances(client);
    assert!(balances.is_some());
    assert_eq!(balances.unwrap(), (available.0 as i128, held.0 as i128));
}

#[test]
fn test_process_deposit_test_success() {
    let mut analysis = Analysis::begin();

    let client = Client(1);
    let tx = Tx(1);
    let amount_ = amount(1.0);

    assert!(analysis.balances(client).is_none());

    let event = Event::Deposit { client, tx, amount: amount_ };

    let result = analysis.process_event(&event);
    assert_eq!(result, Ok(()));

    assert!(analysis.balances(client).is_some());

    assert_operation_exists(
        &analysis,
        client,
        tx,
        Operation { kind: OperationKind::Deposit, amount: amount_ },
    );

    assert_account_balance(&analysis, client, amount(1.0), amount(0.0));
    assert!(analysis.balances(client).is_some());
}

#[test]
fn test_failure_negative_amount_operation() {
    let mut analysis = Analysis::begin();

    let client = Client(1);
    let tx = Tx(1);
    let amount_ = amount(-1.0);

    let event = Event::Deposit { client, tx, amount: amount_ };

    let result = analysis.process_event(&event);
    assert_eq!(result, Err(AnalysisError::NegativeAmountOperation(client, tx, amount_)));

    assert!(analysis.balances(client).is_none());
}

#[test]
fn test_process_deposit_test_synthetic_failure_account_locked() {
    let mut analysis = Analysis::begin();

    let client = Client(1);
    let tx = Tx(1);
    let amount_ = amount(-1.0);

    analysis.lock_account(client);

    let event = Event::Deposit { client, tx, amount: amount_ };

    let result = analysis.process_event(&event);
    assert_eq!(result, Err(AnalysisError::AccountLocked(client)));

    // The account is locked but does not exist: a state that only a direct
    // lock builds.
    assert!(analysis.balances(client).is_none());
    assert!(analysis.is_locked(client));
}

#[test]
fn test_failure_duplicate_operation() {
    let mut analysis = Analysis::begin();

    let client = Client(1);
    let tx = Tx(1);
    let amount_ = amount(1.0);

    let event = Event::Deposit { client, tx, amount: amount_ };

    let result = analysis.process_event(&event);
    assert_eq!(result, Ok(()));

    assert_operation_exists(
        &analysis,
        client,
        tx,
        Operation { kind: OperationKind::Deposit, amount: amount_ },
    );
    assert_eq!(analysis.operations_count(client), Some(1));
    assert_account_balance(&analysis, client, amount(1.0), amount(0.0));

    // Repeat the same operation
    let result = analysis.process_event(&event);
    assert_eq!(result, Err(AnalysisError::DuplicateOperation(tx)));

    assert_eq!(analysis.operations_count(client), Some(1));
    assert_account_balance(&analysis, client, amount(1.0), amount(0.0));
}

#[test]
fn deposit_of_zero_is_accepted() {
    let mut analysis = Analysis::begin();
    let event = Event::Deposit { client: Client(4), tx: Tx(9), amount: amount(0.0) };
    assert_eq!(analysis.process_event(&event), Ok(()));
    assert_account_balance(&analysis, Client(4), amount(0.0), amount(0.0));
    assert_eq!(analysis.operations_count(Client(4)), Some(1));
}

#[test]
fn largest_deposits_add_up_without_overflow() {
    let mut analysis = Analysis::begin();
    let client = Client(u16::MAX);
    for tx in 0..3u32 {
        let event = Event::Deposit { client, tx: Tx(u32::MAX - tx), amount: Amount(i64::MAX) };
        assert_eq!(analysis.process_event(&event), Ok(()));
    }
    assert_eq!(analysis.balances(client), Some((3 * i64::MAX as i128, 0)));
}
