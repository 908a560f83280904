use std::collections::HashSet;
use std::str::FromStr;

use rust_decimal::Decimal;
use transact::model::{Account, Amount, Chargeback, ClientId, Deposit, Dispute, Resolve, Transaction, TxId, Withdrawal};
use transact::{TxError, TxProcessor};

fn amount_of(text: &str) -> Amount {
    let d = Decimal::from_str(text).expect("Test data invalid.");
    Amount::from_scaled(d.mantissa(), d.scale()).expect("Test data invalid.")
}

fn amount_from_decimal(d: Decimal) -> Amount {
    Amount::from_scaled(d.mantissa(), d.scale()).expect("Test data invalid.")
}

fn disputed(txs: &[u32]) -> HashSet<u32> {
    txs.iter().copied().collect()
}

#[test]
fn deposit_positive_amount_adds_available_amount() {
    let client = ClientId::new(1);
    let tx = TxId::new(2);
    let amount = amount_of("1.0");
    let mut account = Account::empty(client);

    let tx_processor = TxProcessor::new();
    let process_result = tx_processor.handle_deposit(&mut account, Deposit::new(client, tx, amount));

    let account_expected = Account::try_new(client, amount_of("1.0"), amount_of("0.0"), false, HashSet::new())
        .expect("Test data invalid.");
    assert_eq!(Ok(()), process_result);
    assert_eq!(account_expected, account);
}

#[test]
fn deposit_negative_amount_returns_err() {
    let client = ClientId::new(1);
    let tx = TxId::new(2);
    let amount = amount_of("-1.0");
    let mut account = Account::empty(client);

    let tx_processor = TxProcessor::new();
    let result = tx_processor.handle_deposit(&mut account, Deposit::new(client, tx, amount));

    assert!(matches!(
        result,
        Err(TxError::DepositAmountNegative { client, tx, amount })
        if client == ClientId::new(1) && tx == TxId::new(2) && amount == amount_of("-1.0")
    ));
}

#[test]
fn deposit_amount_overflow_available() {
    let client = ClientId::new(1);
    let tx = TxId::new(2);
    let amount = amount_from_decimal(Decimal::MAX);
    let mut account = Account::try_new(client, amount_of("1.0"), amount_of("0.0"), false, HashSet::new())
        .expect("Test data invalid.");

    let tx_processor = TxProcessor::new();
    let result = tx_processor.handle_deposit(&mut account, Deposit::new(client, tx, amount));

    assert!(matches!(
        result,
        Err(TxError::DepositAvailableOverflow { client, tx })
        if client == ClientId::new(1) && tx == TxId::new(2)
    ));
}

#[test]
fn deposit_total_overflow() {
    let client = ClientId::new(1);
    let tx = TxId::new(2);
    let amount = amount_from_decimal(Decimal::MAX.saturating_sub(Decimal::from_str("1.0").unwrap()));
    let mut account = Account::try_new(client, amount_of("1.0"), amount_of("2.0"), false, HashSet::new())
        .expect("Test data invalid.");

    let tx_processor = TxProcessor::new();
    let result = tx_processor.handle_deposit(&mut account, Deposit::new(client, tx, amount));

    assert!(matches!(
        result,
        Err(TxError::DepositTotalOverflow { client, tx })
        if client == ClientId::new(1) && tx == TxId::new(2)
    ));
}

#[test]
fn withdrawal_positive_amount_with_sufficient_extra_amount_subtracts_amount() {
    let client = ClientId::new(1);
    let tx = TxId::new(2);
    let amount = amount_of("1.0");
    let mut account = Account::try_new(client, amount_of("2.0"), amount_of("0.0"), false, HashSet::new())
        .expect("Test data invalid.");

    let tx_processor = TxProcessor::new();
    let process_result = tx_processor.handle_withdrawal(&mut account, Withdrawal::new(client, tx, amount));

    let account_expected = Account::try_new(client, amount_of("1.0"), amount_of("0.0"), false, HashSet::new())
        .expect("Test data invalid.");
    assert_eq!(Ok(()), process_result);
    assert_eq!(account_expected, account);
}

#[test]
fn withdrawal_positive_amount_with_sufficient_exact_amount_subtracts_amount() {
    let client = ClientId::new(1);
    let tx = TxId::new(2);
    let amount = amount_of("1.0");
    let mut account = Account::try_new(client, amount_of("1.0"), amount_of("0.0"), false, HashSet::new())
        .expect("Test data invalid.");

    let tx_processor = TxProcessor::new();
    let process_result = tx_processor.handle_withdrawal(&mut account, Withdrawal::new(client, tx, amount));

    let account_expected = Account::try_new(client, amount_of("0.0"), amount_of("0.0"), false, HashSet::new())
        .expect("Test data invalid.");
    assert_eq!(Ok(()), process_result);
    assert_eq!(account_expected, account);
}

#[test]
fn withdrawal_positive_amount_with_insufficient_amount_does_nothing() {
    let client = ClientId::new(1);
    let tx = TxId::new(2);
    let amount = amount_of("2.0");
    let mut account = Account::try_new(client, amount_of("1.0"), amount_of("0.0"), false, HashSet::new())
        .expect("Test data invalid.");

    let tx_processor = TxProcessor::new();
    let process_result = tx_processor.handle_withdrawal(&mut account, Withdrawal::new(client, tx, amount));

    let account_expected = Account::try_new(client, amount_of("1.0"), amount_of("0.0"), false, HashSet::new())
        .expect("Test data invalid.");
    assert_eq!(
        Err(TxError::WithdrawalInsufficientAvailable {
            client,
            tx,
            available: amount_of("1.0"),
            amount
        }),
        process_result
    );
    assert_eq!(account_expected, account);
}

#[test]
fn withdrawal_negative_amount_returns_err() {
    let client = ClientId::new(1);
    let tx = TxId::new(2);
    let amount = amount_of("-1.0");
    let mut account = Account::empty(client);

    let tx_processor = TxProcessor::new();
    let result = tx_processor.handle_withdrawal(&mut account, Withdrawal::new(client, tx, amount));

    assert!(matches!(
        result,
        Err(TxError::WithdrawalAmountNegative { client, tx, amount })
        if client == ClientId::new(1) && tx == TxId::new(2) && amount == amount_of("-1.0")
    ));
}

#[test]
fn locked_account_refuses_deposit_and_stays_unchanged() {
    let client = ClientId::new(3);
    let mut account = Account::try_new(client, amount_of("4.0"), amount_of("1.0"), true, HashSet::new())
        .expect("Test data invalid.");
    let before = Account::try_new(client, amount_of("4.0"), amount_of("1.0"), true, HashSet::new())
        .expect("Test data invalid.");
    let deposit = Transaction::Deposit(Deposit::new(client, TxId::new(9), amount_of("10")));
    let result = TxProcessor::new().process(&mut account, deposit, None);
    assert_eq!(Err(TxError::AccountLocked { client, tx: TxId::new(9) }), result);
    assert_eq!(before, account);
}

#[test]
fn dispute_moves_amount_from_available_to_held() {
    let client = ClientId::new(1);
    let mut account = Account::try_new(client, amount_of("8.0"), amount_of("0"), false, HashSet::new())
        .expect("Test data invalid.");
    let found = Deposit::new(client, TxId::new(1), amount_of("5.0"));
    let result = TxProcessor::new().handle_dispute(&mut account, Dispute::new(client, TxId::new(1)), Some(found));
    assert_eq!(Ok(()), result);
    assert_eq!(amount_of("3.0"), account.available());
    assert_eq!(amount_of("5.0"), account.held());
    assert_eq!(amount_of("8.0"), account.total());
    assert!(account.is_disputed(1));
}

#[test]
fn second_dispute_of_same_tx_moves_no_funds() {
    let client = ClientId::new(1);
    let mut account = Account::try_new(client, amount_of("3.0"), amount_of("5.0"), false, disputed(&[1]))
        .expect("Test data invalid.");
    let found = Deposit::new(client, TxId::new(1), amount_of("5.0"));
    let result = TxProcessor::new().handle_dispute(&mut account, Dispute::new(client, TxId::new(1)), Some(found));
    assert_eq!(Err(TxError::DisputeTxAlreadyDisputed { client, tx: TxId::new(1) }), result);
    assert_eq!(amount_of("3.0"), account.available());
    assert_eq!(amount_of("5.0"), account.held());
}

#[test]
fn dispute_of_unknown_tx_is_reported_and_ignored() {
    let client = ClientId::new(1);
    let mut account = Account::try_new(client, amount_of("3.0"), amount_of("0"), false, HashSet::new())
        .expect("Test data invalid.");
    let result = TxProcessor::new().handle_dispute(&mut account, Dispute::new(client, TxId::new(7)), None);
    assert_eq!(Err(TxError::DisputeTxNotFound { tx: TxId::new(7) }), result);
    assert_eq!(amount_of("3.0"), account.available());
}

#[test]
fn dispute_of_other_clients_deposit_is_refused() {
    let mut account = Account::try_new(ClientId::new(1), amount_of("3.0"), amount_of("0"), false, HashSet::new())
        .expect("Test data invalid.");
    let found = Deposit::new(ClientId::new(2), TxId::new(2), amount_of("2.0"));
    let result = TxProcessor::new().handle_dispute(&mut account, Dispute::new(ClientId::new(1), TxId::new(2)), Some(found));
    assert_eq!(
        Err(TxError::DisputeClientMismatch {
            tx: TxId::new(2),
            dispute_tx_client: ClientId::new(1),
            disputed_tx_client: ClientId::new(2),
        }),
        result
    );
}

#[test]
fn dispute_beyond_available_is_refused() {
    let client = ClientId::new(1);
    let mut account = Account::try_new(client, amount_of("1.0"), amount_of("0"), false, HashSet::new())
        .expect("Test data invalid.");
    let found = Deposit::new(client, TxId::new(4), amount_of("2.5"));
    let result = TxProcessor::new().handle_dispute(&mut account, Dispute::new(client, TxId::new(4)), Some(found));
    assert_eq!(
        Err(TxError::DisputeInsufficientAvailable {
            client,
            tx: TxId::new(4),
            available: amount_of("1.0"),
            amount: amount_of("2.5"),
        }),
        result
    );
    assert!(!account.is_disputed(4));
}

#[test]
fn dispute_of_negative_deposit_is_refused() {
    let client = ClientId::new(1);
    let mut account = Account::try_new(client, amount_of("1.0"), amount_of("0"), false, HashSet::new())
        .expect("Test data invalid.");
    let found = Deposit::new(client, TxId::new(4), amount_of("-2"));
    let result = TxProcessor::new().handle_dispute(&mut account, Dispute::new(client, TxId::new(4)), Some(found));
    assert_eq!(
        Err(TxError::DepositAmountNegative { client, tx: TxId::new(4), amount: amount_of("-2") }),
        result
    );
    assert_eq!(amount_of("0"), account.held());
}

#[test]
fn resolve_releases_held_funds() {
    let client = ClientId::new(1);
    let mut account = Account::try_new(client, amount_of("3.0"), amount_of("5.0"), false, disputed(&[1]))
        .expect("Test data invalid.");
    let found = Deposit::new(client, TxId::new(1), amount_of("5.0"));
    let result = TxProcessor::new().handle_resolve(&mut account, Resolve::new(client, TxId::new(1)), Some(found));
    assert_eq!(Ok(()), result);
    assert_eq!(amount_of("8.0"), account.available());
    assert_eq!(amount_of("0"), account.held());
    assert!(!account.is_disputed(1));
}

#[test]
fn resolve_of_undisputed_tx_is_refused() {
    let client = ClientId::new(1);
    let mut account = Account::try_new(client, amount_of("3.0"), amount_of("0"), false, HashSet::new())
        .expect("Test data invalid.");
    let result = TxProcessor::new().handle_resolve(&mut account, Resolve::new(client, TxId::new(1)), None);
    assert_eq!(Err(TxError::ResolveTxNotInDispute { client, tx: TxId::new(1) }), result);
    assert_eq!(amount_of("3.0"), account.available());
}

#[test]
fn resolve_of_other_clients_deposit_is_refused() {
    let client = ClientId::new(1);
    let mut account = Account::try_new(client, amount_of("3.0"), amount_of("5.0"), false, disputed(&[1]))
        .expect("Test data invalid.");
    let found = Deposit::new(ClientId::new(9), TxId::new(1), amount_of("5.0"));
    let result = TxProcessor::new().handle_resolve(&mut account, Resolve::new(client, TxId::new(1)), Some(found));
    assert_eq!(
        Err(TxError::ResolveClientMismatch {
            tx: TxId::new(1),
            resolve_tx_client: client,
            disputed_tx_client: ClientId::new(9),
        }),
        result
    );
}

#[test]
fn resolve_beyond_held_is_refused() {
    let client = ClientId::new(1);
    let mut account = Account::try_new(client, amount_of("3.0"), amount_of("1.0"), false, disputed(&[1]))
        .expect("Test data invalid.");
    let found = Deposit::new(client, TxId::new(1), amount_of("5.0"));
    let result = TxProcessor::new().handle_resolve(&mut account, Resolve::new(client, TxId::new(1)), Some(found));
    assert_eq!(
        Err(TxError::ResolveInsufficientHeld {
            client,
            tx: TxId::new(1),
            held: amount_of("1.0"),
            amount: amount_of("5.0"),
        }),
        result
    );
    assert!(account.is_disputed(1));
}

#[test]
fn chargeback_removes_held_funds_and_locks() {
    let client = ClientId::new(1);
    let mut account = Account::try_new(client, amount_of("3.0"), amount_of("5.0"), false, disputed(&[1]))
        .expect("Test data invalid.");
    let found = Deposit::new(client, TxId::new(1), amount_of("5.0"));
    let result = TxProcessor::new().handle_chargeback(&mut account, Chargeback::new(client, TxId::new(1)), Some(found));
    assert_eq!(Ok(()), result);
    assert_eq!(amount_of("3.0"), account.available());
    assert_eq!(amount_of("0"), account.held());
    assert_eq!(amount_of("3.0"), account.total());
    assert!(account.locked());
    assert!(!account.is_disputed(1));
}

#[test]
fn chargeback_of_undisputed_tx_is_refused() {
    let client = ClientId::new(1);
    let mut account = Account::try_new(client, amount_of("3.0"), amount_of("0"), false, HashSet::new())
        .expect("Test data invalid.");
    let result = TxProcessor::new().handle_chargeback(&mut account, Chargeback::new(client, TxId::new(1)), None);
    assert_eq!(Err(TxError::ChargebackTxNotInDispute { client, tx: TxId::new(1) }), result);
    assert!(!account.locked());
}

#[test]
fn chargeback_of_other_clients_deposit_is_refused() {
    let client = ClientId::new(1);
    let mut account = Account::try_new(client, amount_of("3.0"), amount_of("5.0"), false, disputed(&[1]))
        .expect("Test data invalid.");
    let found = Deposit::new(ClientId::new(2), TxId::new(1), amount_of("5.0"));
    let result = TxProcessor::new().handle_chargeback(&mut account, Chargeback::new(client, TxId::new(1)), Some(found));
    assert_eq!(
        Err(TxError::ChargebackClientMismatch {
            tx: TxId::new(1),
            chargeback_tx_client: client,
            disputed_tx_client: ClientId::new(2),
        }),
        result
    );
    assert!(!account.locked());
}

#[test]
fn chargeback_beyond_held_is_refused() {
    let client = ClientId::new(1);
    let mut account = Account::try_new(client, amount_of("3.0"), amount_of("1.0"), false, disputed(&[1]))
        .expect("Test data invalid.");
    let found = Deposit::new(client, TxId::new(1), amount_of("5.0"));
    let result = TxProcessor::new().handle_chargeback(&mut account, Chargeback::new(client, TxId::new(1)), Some(found));
    assert_eq!(
        Err(TxError::ChargebackInsufficientHeld {
            client,
            tx: TxId::new(1),
            held: amount_of("1.0"),
            amount: amount_of("5.0"),
        }),
        result
    );
    assert!(!account.locked());
}

#[test]
fn lookup_target_asks_only_when_needed() {
    let client = ClientId::new(1);
    let processor = TxProcessor::new();
    let fresh = Account::empty(client);
    let dispute = Transaction::Dispute(Dispute::new(client, TxId::new(5)));
    let resolve = Transaction::Resolve(Resolve::new(client, TxId::new(5)));
    let deposit = Transaction::Deposit(Deposit::new(client, TxId::new(6), amount_of("1")));
    assert_eq!(Some(TxId::new(5)), processor.lookup_target(&fresh, &dispute));
    assert_eq!(None, processor.lookup_target(&fresh, &resolve));
    assert_eq!(None, processor.lookup_target(&fresh, &deposit));
    let held = Account::try_new(client, amount_of("0"), amount_of("1"), false, disputed(&[5])).unwrap();
    assert_eq!(None, processor.lookup_target(&held, &dispute));
    assert_eq!(Some(TxId::new(5)), processor.lookup_target(&held, &resolve));
    let locked = Account::try_new(client, amount_of("0"), amount_of("1"), true, disputed(&[5])).unwrap();
    assert_eq!(None, processor.lookup_target(&locked, &resolve));
}

#[test]
fn try_new_rejects_total_overflow() {
    let client = ClientId::new(1);
    let max = amount_from_decimal(Decimal::MAX);
    assert!(Account::try_new(client, max, amount_of("0.0001"), false, HashSet::new()).is_err());
    let account = Account::try_new(client, max, amount_of("0"), false, HashSet::new()).unwrap();
    assert_eq!(max, account.total());
}

#[test]
fn empty_account_has_nothing() {
    let account = Account::empty(ClientId::new(42));
    assert_eq!(ClientId::new(42), account.client());
    assert_eq!(Amount::zero(), account.available());
    assert_eq!(Amount::zero(), account.held());
    assert_eq!(Amount::zero(), account.total());
    assert!(!account.locked());
    assert!(account.disputed_txs().is_empty());
}
