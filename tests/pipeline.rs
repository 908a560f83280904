use std::str::FromStr;

use rust_decimal::Decimal;
use transact::model::{Account, Accounts, Amount, ClientId, Deposit, Dispute, Transaction, TxId, Withdrawal};
use transact::tx_block_store::{
    block_file_name, block_may_have, deposit_with_id, find_in_block, parse_min_max_tx, plan_block,
    select_blocks,
};
use transact::{Error, TxError, TxRecord, TxType};

fn amt(text: &str) -> Amount {
    let d = Decimal::from_str(text).expect("Test data invalid.");
    Amount::from_scaled(d.mantissa(), d.scale()).expect("Test data invalid.")
}

fn record(kind: TxType, client: u16, tx: u32, amount: Option<&str>) -> TxRecord {
    TxRecord { kind, client: ClientId::new(client), tx: TxId::new(tx), amount: amount.map(amt) }
}

/// Runs records through the same steps as the program: chunks are planned
/// into blocks before their transactions are applied, and lookups go
/// through the block names and block search.
fn run(records: &[TxRecord], chunk_size: usize) -> Vec<(u16, i128, i128, i128, bool)> {
    let transactions: Vec<Transaction> = records
        .iter()
        .map(|r| Transaction::try_from_record(*r).expect("Test data invalid."))
        .collect();
    let mut blocks: Vec<(String, Vec<Transaction>)> = Vec::new();
    let mut accounts = Accounts::new();
    for chunk in transactions.chunks(chunk_size) {
        if let Some(plan) = plan_block(chunk) {
            let name = block_file_name(plan.tx_min, plan.tx_max);
            let contents = plan.deposits.iter().map(|d| Transaction::Deposit(*d)).collect();
            blocks.push((name, contents));
        }
        for transaction in chunk {
            let found = match accounts.lookup_target(transaction) {
                Some(tx) => {
                    let names: Vec<String> = blocks.iter().map(|(n, _)| n.clone()).collect();
                    let candidates = select_blocks(&names, tx).expect("block names are valid");
                    candidates.iter().find_map(|&i| find_in_block(&blocks[i].1, tx))
                }
                None => None,
            };
            let _ = accounts.apply(*transaction, found);
        }
    }
    accounts
        .into_values()
        .iter()
        .map(|a| {
            (a.client().into_inner(), a.available().units(), a.held().units(), a.total().units(), a.locked())
        })
        .collect()
}

#[test]
fn simple_deposit_then_withdrawal() {
    let rows = run(
        &[record(TxType::Deposit, 1, 1, Some("1.5")), record(TxType::Withdrawal, 1, 2, Some("0.5"))],
        10000,
    );
    assert_eq!(vec![(1, 10000, 0, 10000, false)], rows);
}

#[test]
fn insufficient_withdrawal_ignored() {
    let rows = run(
        &[record(TxType::Deposit, 1, 1, Some("1.0")), record(TxType::Withdrawal, 1, 2, Some("2.0"))],
        10000,
    );
    assert_eq!(vec![(1, 10000, 0, 10000, false)], rows);
}

#[test]
fn dispute_then_resolve() {
    let rows = run(
        &[
            record(TxType::Deposit, 1, 1, Some("5.0")),
            record(TxType::Deposit, 1, 2, Some("3.0")),
            record(TxType::Dispute, 1, 1, None),
            record(TxType::Resolve, 1, 1, None),
        ],
        10000,
    );
    assert_eq!(vec![(1, 80000, 0, 80000, false)], rows);
}

#[test]
fn dispute_then_chargeback_locks_the_account() {
    let rows = run(
        &[
            record(TxType::Deposit, 1, 1, Some("5.0")),
            record(TxType::Deposit, 1, 2, Some("3.0")),
            record(TxType::Dispute, 1, 1, None),
            record(TxType::Chargeback, 1, 1, None),
        ],
        10000,
    );
    assert_eq!(vec![(1, 30000, 0, 30000, true)], rows);
}

#[test]
fn chargeback_blocks_subsequent_activity() {
    let rows = run(
        &[
            record(TxType::Deposit, 1, 1, Some("5.0")),
            record(TxType::Dispute, 1, 1, None),
            record(TxType::Chargeback, 1, 1, None),
            record(TxType::Deposit, 1, 2, Some("10.0")),
        ],
        10000,
    );
    assert_eq!(vec![(1, 0, 0, 0, true)], rows);
}

#[test]
fn cross_client_isolation() {
    let rows = run(
        &[
            record(TxType::Deposit, 1, 1, Some("1.0")),
            record(TxType::Deposit, 2, 2, Some("2.0")),
            record(TxType::Dispute, 1, 2, None),
        ],
        10000,
    );
    assert_eq!(vec![(1, 10000, 0, 10000, false), (2, 20000, 0, 20000, false)], rows);
}

#[test]
fn dispute_finds_deposit_in_an_earlier_block() {
    let rows = run(
        &[
            record(TxType::Deposit, 1, 10, Some("5.0")),
            record(TxType::Deposit, 1, 3, Some("1.0")),
            record(TxType::Withdrawal, 1, 11, Some("0.5")),
            record(TxType::Deposit, 2, 20, Some("2.0")),
            record(TxType::Dispute, 1, 3, None),
        ],
        2,
    );
    assert_eq!(vec![(1, 45000, 10000, 55000, false), (2, 20000, 0, 20000, false)], rows);
}

#[test]
fn ledger_total_matches_applied_transactions() {
    // deposits 5 + 3 + 2, withdrawal 1, charged back 3: total 6
    let rows = run(
        &[
            record(TxType::Deposit, 7, 1, Some("5")),
            record(TxType::Deposit, 7, 2, Some("3")),
            record(TxType::Withdrawal, 7, 3, Some("1")),
            record(TxType::Withdrawal, 7, 4, Some("100")),
            record(TxType::Deposit, 7, 5, Some("2")),
            record(TxType::Dispute, 7, 2, None),
            record(TxType::Dispute, 7, 2, None),
            record(TxType::Chargeback, 7, 2, None),
        ],
        3,
    );
    assert_eq!(vec![(7, 60000, 0, 60000, true)], rows);
}

#[test]
fn accounts_apply_touches_only_its_client() {
    let mut accounts = Accounts::new();
    let d1 = Transaction::Deposit(Deposit::new(ClientId::new(1), TxId::new(1), amt("4")));
    let d2 = Transaction::Deposit(Deposit::new(ClientId::new(2), TxId::new(2), amt("6")));
    assert_eq!(Ok(()), accounts.apply(d1, None));
    assert_eq!(Ok(()), accounts.apply(d2, None));
    let w = Transaction::Withdrawal(Withdrawal::new(ClientId::new(1), TxId::new(3), amt("1")));
    assert_eq!(Ok(()), accounts.apply(w, None));
    assert_eq!(amt("3"), accounts.get(ClientId::new(1)).unwrap().available());
    assert_eq!(amt("6"), accounts.get(ClientId::new(2)).unwrap().available());
    assert!(accounts.get(ClientId::new(3)).is_none());
}

#[test]
fn accounts_into_values_is_ordered_by_client() {
    let mut accounts = Accounts::new();
    for (c, t) in [(9u16, 1u32), (2, 2), (65535, 3), (0, 4)] {
        let d = Transaction::Deposit(Deposit::new(ClientId::new(c), TxId::new(t), amt("1")));
        accounts.apply(d, None).unwrap();
    }
    let clients: Vec<u16> = accounts.into_values().iter().map(|a: &Account| a.client().into_inner()).collect();
    assert_eq!(vec![0, 2, 9, 65535], clients);
}

#[test]
fn block_round_trip_finds_each_deposit() {
    let chunk = vec![
        Transaction::Deposit(Deposit::new(ClientId::new(1), TxId::new(40), amt("1.25"))),
        Transaction::Withdrawal(Withdrawal::new(ClientId::new(1), TxId::new(2), amt("1"))),
        Transaction::Deposit(Deposit::new(ClientId::new(3), TxId::new(7), amt("0.0001"))),
        Transaction::Dispute(Dispute::new(ClientId::new(1), TxId::new(999))),
        Transaction::Deposit(Deposit::new(ClientId::new(2), TxId::new(12), amt("9"))),
    ];
    let plan = plan_block(&chunk).expect("chunk has deposits");
    assert_eq!(TxId::new(7), plan.tx_min);
    assert_eq!(TxId::new(40), plan.tx_max);
    assert_eq!(3, plan.deposits.len());
    let name = block_file_name(plan.tx_min, plan.tx_max);
    assert_eq!("7_40.csv", name);
    assert_eq!(Ok((TxId::new(7), TxId::new(40))), parse_min_max_tx(&name));
    let records: Vec<Transaction> = plan.deposits.iter().map(|d| Transaction::Deposit(*d)).collect();
    for d in &plan.deposits {
        assert!(block_may_have(plan.tx_min, plan.tx_max, d.tx()));
        assert_eq!(Some(*d), find_in_block(&records, d.tx()));
    }
    assert_eq!(None, find_in_block(&records, TxId::new(2)));
    assert_eq!(None, find_in_block(&chunk, TxId::new(2)));
}

#[test]
fn chunk_without_deposits_has_no_block() {
    let chunk = vec![Transaction::Dispute(Dispute::new(ClientId::new(1), TxId::new(3)))];
    assert!(plan_block(&chunk).is_none());
    assert!(plan_block(&[]).is_none());
}

#[test]
fn block_file_name_of_extremes() {
    assert_eq!("0_4294967295.csv", block_file_name(TxId::new(0), TxId::new(u32::MAX)));
    assert_eq!(Ok((TxId::new(0), TxId::new(u32::MAX))), parse_min_max_tx("0_4294967295.csv"));
}

#[test]
fn block_file_name_parse_failures() {
    for bad in ["abc.csv", "12.csv", "12_x.csv", "_5.csv", "1_.csv", "1_4294967296.csv", "", "1_-2.csv", "1_2_3.csv"] {
        assert_eq!(
            Err(Error::BlockFileNameInvalid { file_name: bad.to_string() }),
            parse_min_max_tx(bad),
            "{bad}"
        );
    }
    assert_eq!(Ok((TxId::new(5), TxId::new(7))), parse_min_max_tx("+5_7.csv"));
    assert_eq!(Ok((TxId::new(5), TxId::new(7))), parse_min_max_tx("5_7"));
    assert_eq!(Ok((TxId::new(5), TxId::new(7))), parse_min_max_tx("5_7.tmp.csv"));
}

#[test]
fn select_blocks_prunes_by_range() {
    let names = vec!["1_10.csv".to_string(), "11_20.csv".to_string(), "5_15.csv".to_string()];
    assert_eq!(Ok(vec![1, 2]), select_blocks(&names, TxId::new(12)));
    assert_eq!(Ok(vec![0]), select_blocks(&names, TxId::new(1)));
    assert_eq!(Ok(vec![]), select_blocks(&names, TxId::new(21)));
    let with_bad = vec!["1_10.csv".to_string(), "junk".to_string()];
    assert_eq!(
        Err(Error::BlockFileNameInvalid { file_name: "junk".to_string() }),
        select_blocks(&with_bad, TxId::new(3))
    );
}

#[test]
fn deposit_with_id_matches_deposits_only() {
    let d = Deposit::new(ClientId::new(1), TxId::new(5), amt("2"));
    assert_eq!(Some(d), deposit_with_id(&Transaction::Deposit(d), TxId::new(5)));
    assert_eq!(None, deposit_with_id(&Transaction::Deposit(d), TxId::new(6)));
    let w = Withdrawal::new(ClientId::new(1), TxId::new(5), amt("2"));
    assert_eq!(None, deposit_with_id(&Transaction::Withdrawal(w), TxId::new(5)));
}

#[test]
fn records_decode_and_encode() {
    let deposit = Transaction::try_from_record(record(TxType::Deposit, 1, 2, Some("1.5"))).unwrap();
    assert_eq!(Transaction::Deposit(Deposit::new(ClientId::new(1), TxId::new(2), amt("1.5"))), deposit);
    assert_eq!(record(TxType::Deposit, 1, 2, Some("1.5")), TxRecord::from_transaction(deposit));
    let dispute = Transaction::try_from_record(record(TxType::Dispute, 3, 4, Some("8"))).unwrap();
    assert_eq!(Transaction::Dispute(Dispute::new(ClientId::new(3), TxId::new(4))), dispute);
    assert_eq!(record(TxType::Dispute, 3, 4, None), TxRecord::from_transaction(dispute));
    assert_eq!(ClientId::new(3), dispute.client());
    assert_eq!(TxId::new(4), dispute.tx());
}

#[test]
fn records_without_required_amount_fail() {
    assert_eq!(
        Err(Error::DepositAmountNotProvided { client: ClientId::new(1), tx: TxId::new(2) }),
        Transaction::try_from_record(record(TxType::Deposit, 1, 2, None))
    );
    assert_eq!(
        Err(Error::WithdrawalAmountNotProvided { client: ClientId::new(1), tx: TxId::new(2) }),
        Transaction::try_from_record(record(TxType::Withdrawal, 1, 2, None))
    );
    assert!(Transaction::try_from_record(record(TxType::Chargeback, 1, 2, None)).is_ok());
}

#[test]
fn amount_from_scaled_is_exact() {
    assert_eq!(Some(15000), Amount::from_scaled(15, 1).map(|a| a.units()));
    assert_eq!(Some(-15000), Amount::from_scaled(-150000, 5).map(|a| a.units()));
    assert_eq!(Some(1), Amount::from_scaled(1, 4).map(|a| a.units()));
    assert_eq!(None, Amount::from_scaled(1, 5));
    assert_eq!(Some(0), Amount::from_scaled(0, 40).map(|a| a.units()));
    assert_eq!(None, Amount::from_scaled(i128::MIN, 0));
    assert_eq!(None, Amount::from_scaled(i128::MIN, 9));
    let max = Decimal::MAX;
    assert_eq!(Some(792281625142643375935439503350000), Amount::from_scaled(max.mantissa(), max.scale()).map(|a| a.units()));
    assert_eq!(None, Amount::from_scaled(max.mantissa() + 1, 0));
}

#[test]
fn amount_parse_reads_decimal_text() {
    assert_eq!(Some(15000), Amount::parse("1.5").map(|a| a.units()));
    assert_eq!(Some(-2500), Amount::parse("-0.25").map(|a| a.units()));
    assert_eq!(Some(70000), Amount::parse("7").map(|a| a.units()));
    assert_eq!(Some(12345), Amount::parse("1.23450").map(|a| a.units()));
    assert_eq!(None, Amount::parse("1.23456"));
    assert_eq!(None, Amount::parse("abc"));
    assert_eq!(None, Amount::parse(""));
}

#[test]
fn amount_renders_as_decimal_text() {
    assert_eq!("1.5", amt("1.5").to_decimal_string());
    assert_eq!("1.0", amt("1").to_decimal_string());
    assert_eq!("0.0", amt("0").to_decimal_string());
    assert_eq!("-0.0001", amt("-0.0001").to_decimal_string());
    assert_eq!("12.034", amt("12.0340").to_decimal_string());
    let max = Amount::from_units(792281625142643375935439503350000).unwrap();
    assert_eq!("79228162514264337593543950335.0", max.to_decimal_string());
    assert_eq!("-79228162514264337593543950335.0", Amount::from_units(-792281625142643375935439503350000).unwrap().to_decimal_string());
}

#[test]
fn amount_arithmetic_is_checked() {
    let max = Amount::from_units(792281625142643375935439503350000).unwrap();
    assert!(Amount::from_units(792281625142643375935439503350001).is_none());
    assert_eq!(None, max.checked_add(&amt("0.0001")));
    assert_eq!(Some(amt("3.5")), amt("1.25").checked_add(&amt("2.25")));
    assert_eq!(Some(amt("-1")), amt("1.25").checked_sub(&amt("2.25")));
    assert_eq!(None, amt("-1").checked_sub(&max));
    assert_eq!(amt("0"), amt("1").saturating_sub(&amt("2")));
    assert_eq!(amt("0.5"), amt("2").saturating_sub(&amt("1.5")));
    assert_eq!(max, max.saturating_sub(&amt("-1")));
    assert!(amt("-0.0001").is_sign_negative());
    assert!(!amt("0").is_sign_negative());
    assert!(amt("2").greater_than(&amt("1.9999")));
    assert!(!amt("2").greater_than(&amt("2")));
}

#[test]
fn identifiers_round_trip() {
    assert_eq!(65535, ClientId::new(65535).into_inner());
    assert_eq!(ClientId::new(4), ClientId::from(4u16));
    assert_eq!(u32::MAX, TxId::new(u32::MAX).into_inner());
    assert_eq!(TxId::new(4), TxId::from(4u32));
    let _ = TxError::AccountLocked { client: ClientId::new(1), tx: TxId::new(1) };
}
