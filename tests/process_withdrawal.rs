use scoring::{Amount, Analysis, AnalysisError, Client, Event, Operation, OperationKind, Tx};

fn amount(x: f64) -> Amount {
    Amount((x * 10000.0).round() as i64)
}

fn assert_operation_exists(analysis: &Analysis, client: Client, tx: Tx, expected: Operation) {
    assert!(analysis.balances(client).is_some());
    let operation = analysis.operation(client, tx);
    assert!(operation.is_some());
    assert_eq!(expected, operation.unwrap());
}

fn assert_account_balance(analysis: &Analysis, client: Client, available: Amount, held: Amount) {
    let balances = analysis.balances(client);
    assert!(balances.is_some());
    assert_eq!(balances.unwrap(), (available.0 as i128, held.0 as i128));
}

#[test]
fn test_process_withdrawal_test_success() {
    let mut analysis = Analysis::begin();

    let client = Client(1);
    let tx = Tx(1);
    let amount_ = amount(1.0);

    assert!(analysis.balances(client).is_none());

    // A deposit with sufficient amount should occur before a withdrawal
    let event = Event::Deposit { client, tx, amount: amount_ };

    let result = analysis.process_event(&event);
    assert_eq!(result, Ok(()));

    assert_operation_exists(
        &analysis,
        client,
        tx,
        Operation { kind: OperationKind::Deposit, amount: amount_ },
    );
    assert_eq!(analysis.operations_count(client), Some(1));
    assert_account_balance(&analysis, client, amount(1.0), amount(0.0));

    let client = Client(1);
    let tx = Tx(2);
    let amount_ = amount(1.0);

    assert!(analysis.balances(client).is_some());

    let event = Event::Withdrawal { client, tx, amount: amount_ };

    let result = analysis.process_event(&event);
    assert_eq!(result, Ok(()));

    assert_operation_exists(
        &analysis,
        client,
        tx,
        Operation { kind: OperationKind::Withdrawal, amount: amount_ },
    );
    assert_eq!(analysis.operations_count(client), Some(2));
    assert_account_balance(&analysis, client, amount(0.0), amount(0.0));
}

#[test]
fn test_process_withdrawal_test_failure_account_not_found() {
    let mut analysis = Analysis::begin();

    let client = Client(1);
    let tx = Tx(2);
    let amount_ = amount(1.0);

    assert!(analysis.balances(client).is_none());

    // Withdrawal can happen only if account record has previously been created
    let event = Event::Withdrawal { client, tx, amount: amount_ };

    let result = analysis.process_event(&event);
    assert_eq!(result, Err(AnalysisError::AccountNotFound(client)));

    assert!(analysis.balances(client).is_none());
}

#[test]
fn test_failure_negative_amount_operations() {
    let mut analysis = Analysis::begin();

    let client = Client(1);

    let tx = Tx(1);
    let amount_ = amount(1.0);

    let event = Event::Deposit { client, tx, amount: amount_ };

    let result = analysis.process_event(&event);
    assert_eq!(result, Ok(()));

    assert_eq!(analysis.operations_count(client), Some(1));
    assert_account_balance(&analysis, client, amount(1.0), amount(0.0));

    let tx = Tx(2);
    let amount_ = amount(-1.0);

    let event = Event::Withdrawal { client, tx, amount: amount_ };

    let result = analysis.process_event(&event);
    assert_eq!(result, Err(AnalysisError::NegativeAmountOperation(client, tx, amount_)));

    assert_eq!(analysis.operations_count(client), Some(1));
    assert_account_balance(&analysis, client, amount(1.0), amount(0.0));
}

#[test]
fn test_failure_insufficient_funds() {
    let mut analysis = Analysis::begin();

    let client = Client(1);

    let tx = Tx(1);
    let amount_ = amount(1.0);

    let event = Event::Deposit { client, tx, amount: amount_ };

    let result = analysis.process_event(&event);
    assert_eq!(result, Ok(()));

    assert_eq!(analysis.operations_count(client), Some(1));
    assert_account_balance(&analysis, client, amount(1.0), amount(0.0));

    let tx = Tx(2);
    let amount_ = amount(1.5);

    let event = Event::Withdrawal { client, tx, amount: amount_ };

    let result = analysis.process_event(&event);
    assert_eq!(result, Err(AnalysisError::InsufficientFunds(client, tx, amount_)));

    assert_eq!(analysis.operations_count(client), Some(1));
    assert_account_balance(&analysis, client, amount(1.0), amount(0.0));
}

#[test]
fn test_process_withdrawal_test_synthetic_failure_account_locked() {
    let mut analysis = Analysis::begin();

    let client = Client(1);
    let tx = Tx(1);
    let amount_ = amount(-1.0);

    analysis.lock_account(client);

    let event = Event::Withdrawal { client, tx, amount: amount_ };

    let result = analysis.process_event(&event);
    assert_eq!(result, Err(AnalysisError::AccountLocked(client)));

    // The account is locked but does not exist: a state that only a direct
    // lock builds.
    assert!(analysis.balances(client).is_none());
    assert!(analysis.is_locked(client));
}

#[test]
fn test_failure_duplicate_operations_same_account() {
    let mut analysis = Analysis::begin();

    let client = Client(1);
    let tx = Tx(1);
    let amount_ = amount(1.0);

    let event = Event::Deposit { client, tx, amount: amount_ };

    let result = analysis.process_event(&event);
    assert_eq!(result, Ok(()));

    assert_operation_exists(
        &analysis,
        client,
        tx,
        Operation { kind: OperationKind::Deposit, amount: amount_ },
    );
    assert_eq!(analysis.operations_count(client), Some(1));
    assert_account_balance(&analysis, client, amount(1.0), amount(0.0));

    // Emit event with same tx
    let event = Event::Withdrawal { client, tx, amount: amount_ };

    let result = analysis.process_event(&event);
    assert_eq!(result, Err(AnalysisError::DuplicateOperation(tx)));

    assert_eq!(analysis.operations_count(client), Some(1));
    assert_account_balance(&analysis, client, amount(1.0), amount(0.0));
}

#[test]
fn test_failure_duplicate_operations_different_accounts() {
    let mut analysis = Analysis::begin();

    let client = Client(1);
    let tx = Tx(1);
    let amount_ = amount(1.0);

    let event = Event::Deposit { client, tx, amount: amount_ };

    let result = analysis.process_event(&event);
    assert_eq!(result, Ok(()));

    assert_eq!(analysis.operations_count(client), Some(1));
    assert_account_balance(&analysis, client, amount(1.0), amount(0.0));

    let client = Client(2);
    let tx = Tx(2);
    let amount_ = amount(1.0);

    let event = Event::Deposit { client, tx, amount: amount_ };

    let result = analysis.process_event(&event);
    assert_eq!(result, Ok(()));

    assert_eq!(analysis.operations_count(client), Some(1));
    assert_account_balance(&analysis, client, amount(1.0), amount(0.0));

    let client = Client(2);
    let tx = Tx(1);
    let amount_ = amount(1.0);

    let event = Event::Deposit { client, tx, amount: amount_ };

    let result = analysis.process_event(&event);
    assert_eq!(result, Err(AnalysisError::DuplicateOperation(tx)));

    assert_eq!(analysis.operations_count(client), Some(1));
    assert_account_balance(&analysis, client, amount(1.0), amount(0.0));
}

#[test]
fn withdrawal_of_all_available_funds_is_accepted() {
    let mut analysis = Analysis::begin();
    let client = Client(3);
    let deposit = Event::Deposit { client, tx: Tx(1), amount: amount(2.5) };
    assert_eq!(analysis.process_event(&deposit), Ok(()));
    let withdrawal = Event::Withdrawal { client, tx: Tx(2), amount: amount(2.5) };
    assert_eq!(analysis.process_event(&withdrawal), Ok(()));
    assert_account_balance(&analysis, client, amount(0.0), amount(0.0));
    let more = Event::Withdrawal { client, tx: Tx(3), amount: amount(0.0001) };
    assert_eq!(
        analysis.process_event(&more),
        Err(AnalysisError::InsufficientFunds(client, Tx(3), amount(0.0001)))
    );
}

#[test]
fn replayed_withdrawal_id_is_rejected_without_change() {
    let mut analysis = Analysis::begin();
    let client = Client(1);
    let deposit = Event::Deposit { client, tx: Tx(1), amount: amount(5.0) };
    assert_eq!(analysis.process_event(&deposit), Ok(()));
    let withdrawal = Event::Withdrawal { client, tx: Tx(2), amount: amount(1.0) };
    assert_eq!(analysis.process_event(&withdrawal), Ok(()));
    assert_eq!(analysis.process_event(&withdrawal), Err(AnalysisError::DuplicateOperation(Tx(2))));
    let as_deposit = Event::Deposit { client, tx: Tx(2), amount: amount(1.0) };
    assert_eq!(analysis.process_event(&as_deposit), Err(AnalysisError::DuplicateOperation(Tx(2))));
    assert_eq!(analysis.operations_count(client), Some(2));
    assert_account_balance(&analysis, client, amount(4.0), amount(0.0));
}
