use processor::{
    AccountInfo, Chargeback, ClientId, Deposit, Dispute, Ledger, LedgerError, Resolve, Transaction,
    TxAmount, TxId, Withdrawal,
};

fn read_transactions(input: &str) -> Vec<Transaction> {
    let mut reader = csv::ReaderBuilder::new()
        .has_headers(true)
        .trim(csv::Trim::All)
        .flexible(true)
        .from_reader(input.as_bytes());
    let mut out = Vec::new();
    for record in reader.records() {
        let record = record.unwrap();
        let kind = record.get(0).unwrap();
        let client = ClientId(record.get(1).unwrap().parse().unwrap());
        let tx = TxId(record.get(2).unwrap().parse().unwrap());
        out.push(Transaction::try_from_record(kind, client, tx, record.get(3)).unwrap());
    }
    out
}

fn process_transactions(input: &str) -> Result<Ledger, LedgerError> {
    let mut ledger = Ledger::new();
    for tx in read_transactions(input) {
        ledger.process(tx)?
    }
    Ok(ledger)
}

fn amount(text: &str) -> TxAmount {
    TxAmount::parse(text).unwrap()
}

fn check_row(row: &(ClientId, AccountInfo), client: u16, available: &str, held: &str, total: &str, locked: bool) {
    assert_eq!(row.0, ClientId(client));
    assert_eq!(row.1.available_funds(), amount(available));
    assert_eq!(row.1.held_funds(), amount(held));
    assert_eq!(row.1.total_funds(), amount(total));
    assert_eq!(row.1.is_locked(), locked);
}

fn deposit(client: u16, tx: u32, value: &str) -> Transaction {
    Transaction::Deposit(Deposit { client: ClientId(client), tx: TxId(tx), amount: amount(value) })
}

fn withdrawal(client: u16, tx: u32, value: &str) -> Transaction {
    Transaction::Withdrawal(Withdrawal { client: ClientId(client), tx: TxId(tx), amount: amount(value) })
}

fn dispute(client: u16, tx: u32) -> Transaction {
    Transaction::Dispute(Dispute { client: ClientId(client), tx: TxId(tx) })
}

fn resolve(client: u16, tx: u32) -> Transaction {
    Transaction::Resolve(Resolve { client: ClientId(client), tx: TxId(tx) })
}

fn chargeback(client: u16, tx: u32) -> Transaction {
    Transaction::Chargeback(Chargeback { client: ClientId(client), tx: TxId(tx) })
}

#[test]
fn deposit_single_account() {
    let ledger = process_transactions(&[
        "type,       client, tx, amount\n",
        "deposit,         1,  1,   1.0\n",
        "deposit,         1,  2,   2.0",
    ].concat())
    .unwrap();
    let rows = ledger.snapshot();
    assert_eq!(rows.len(), 1);
    check_row(&rows[0], 1, "3.0", "0", "3.0", false);
}

#[test]
fn deposit_multiple_accounts() {
    let ledger = process_transactions(&[
        "type,       client, tx, amount\n",
        "deposit,         1,  1,   1.0\n",
        "deposit,         2,  2,   1.0\n",
        "deposit,         1,  3,   2.0",
    ].concat())
    .unwrap();
    let rows = ledger.snapshot();
    assert_eq!(rows.len(), 2);
    check_row(&rows[0], 1, "3.0", "0", "3.0", false);
    check_row(&rows[1], 2, "1.0", "0", "1.0", false);
}

#[test]
fn deposit_and_withdrawal() {
    let ledger = process_transactions(&[
        "type,       client, tx, amount\n",
        "deposit,         1,  1,   1.0\n",
        "deposit,         2,  2,   1.0\n",
        "deposit,         1,  3,   2.0\n",
        "withdrawal,      1,  4,   1.5\n",
        "withdrawal,      2,  5,   1.0",
    ].concat())
    .unwrap();
    let rows = ledger.snapshot();
    assert_eq!(rows.len(), 2);
    check_row(&rows[0], 1, "1.5", "0", "1.5", false);
    check_row(&rows[1], 2, "0.0", "0", "0.0", false);
}

#[test]
fn deposit_and_withdrawal_not_enough_funds() {
    let error = process_transactions(&[
        "type,       client, tx, amount\n",
        "deposit,         2,  2,   1.0\n",
        "withdrawal,      2,  5,   3.0",
    ].concat())
    .err()
    .unwrap();
    assert_eq!(error, LedgerError::NotEnoughFunds);
}

#[test]
fn dispute_deposit() {
    let ledger = process_transactions(&[
        "type,       client, tx, amount\n",
        "deposit,         1,  1,   1.0\n",
        "dispute,         1,  1",
    ].concat())
    .unwrap();
    let rows = ledger.snapshot();
    assert_eq!(rows.len(), 1);
    check_row(&rows[0], 1, "0.0", "1.0", "1.0", false);
}

#[test]
fn dispute_withdrawal() {
    let ledger = process_transactions(&[
        "type,       client, tx, amount\n",
        "deposit,         1,  1,   1.0\n",
        "withdrawal,      1,  2,   1.0\n",
        "dispute,         1,  2",
    ].concat())
    .unwrap();
    let rows = ledger.snapshot();
    assert_eq!(rows.len(), 1);
    check_row(&rows[0], 1, "1.0", "-1.0", "0.0", false);
}

#[test]
fn resolve_dispute() {
    let ledger = process_transactions(&[
        "type,       client, tx, amount\n",
        "deposit,         1,  1,   1.0\n",
        "dispute,         1,  1\n",
        "resolve,         1,  1",
    ].concat())
    .unwrap();
    let rows = ledger.snapshot();
    assert_eq!(rows.len(), 1);
    check_row(&rows[0], 1, "1.0", "0.0", "1.0", false);
}

#[test]
fn chargeback_dispute() {
    let ledger = process_transactions(&[
        "type,       client, tx, amount\n",
        "deposit,         1,  1,   1.0\n",
        "dispute,         1,  1\n",
        "chargeback,      1,  1",
    ].concat())
    .unwrap();
    let rows = ledger.snapshot();
    assert_eq!(rows.len(), 1);
    check_row(&rows[0], 1, "0.0", "0.0", "0.0", true);
}

#[test]
fn frozen_account_refuses_everything() {
    let mut ledger = Ledger::new();
    ledger.process(deposit(1, 1, "1.0")).unwrap();
    ledger.process(deposit(1, 2, "2.0")).unwrap();
    ledger.process(dispute(1, 1)).unwrap();
    ledger.process(chargeback(1, 1)).unwrap();
    let before = ledger.snapshot();
    check_row(&before[0], 1, "2.0", "0.0", "2.0", true);
    assert_eq!(ledger.process(deposit(1, 3, "1.0")), Err(LedgerError::FrozenAccount));
    assert_eq!(ledger.process(withdrawal(1, 4, "1.0")), Err(LedgerError::FrozenAccount));
    assert_eq!(ledger.process(dispute(1, 2)), Err(LedgerError::FrozenAccount));
    assert_eq!(ledger.snapshot(), before);
}

#[test]
fn chargeback_then_more_transactions_fail() {
    let mut ledger = Ledger::new();
    ledger.process(deposit(1, 1, "1.0")).unwrap();
    ledger.process(dispute(1, 1)).unwrap();
    ledger.process(chargeback(1, 1)).unwrap();
    let rows = ledger.snapshot();
    check_row(&rows[0], 1, "0.0", "0.0", "0.0", true);
    assert_eq!(ledger.process(deposit(1, 2, "5.0")), Err(LedgerError::FrozenAccount));
    assert_eq!(ledger.snapshot(), rows);
}

#[test]
fn insufficient_funds_leaves_snapshot_unchanged() {
    let mut ledger = Ledger::new();
    ledger.process(deposit(2, 2, "1.0")).unwrap();
    let before = ledger.snapshot();
    assert_eq!(ledger.process(withdrawal(2, 5, "3.0")), Err(LedgerError::NotEnoughFunds));
    let after = ledger.snapshot();
    assert_eq!(after, before);
    check_row(&after[0], 2, "1.0", "0", "1.0", false);
    // the refused withdrawal left no record behind
    assert_eq!(ledger.process(dispute(2, 5)), Err(LedgerError::UnknownTx(ClientId(2), TxId(5))));
}

#[test]
fn withdrawal_by_unknown_client_creates_no_account() {
    let mut ledger = Ledger::new();
    assert_eq!(ledger.process(withdrawal(7, 1, "1.0")), Err(LedgerError::NotEnoughFunds));
    assert!(ledger.snapshot().is_empty());
}

#[test]
fn second_dispute_is_refused() {
    let mut ledger = Ledger::new();
    ledger.process(deposit(1, 1, "4.25")).unwrap();
    ledger.process(dispute(1, 1)).unwrap();
    let before = ledger.snapshot();
    assert_eq!(ledger.process(dispute(1, 1)), Err(LedgerError::AlreadyDisputed));
    assert_eq!(ledger.snapshot(), before);
    check_row(&before[0], 1, "0", "4.25", "4.25", false);
}

#[test]
fn resolved_transaction_cannot_be_disputed_again() {
    let mut ledger = Ledger::new();
    ledger.process(deposit(1, 1, "1.0")).unwrap();
    ledger.process(dispute(1, 1)).unwrap();
    ledger.process(resolve(1, 1)).unwrap();
    assert_eq!(ledger.process(dispute(1, 1)), Err(LedgerError::AlreadyDisputed));
    assert_eq!(ledger.process(resolve(1, 1)), Err(LedgerError::NotDisputed));
    assert_eq!(ledger.process(chargeback(1, 1)), Err(LedgerError::NotDisputed));
}

#[test]
fn resolve_and_chargeback_need_a_dispute() {
    let mut ledger = Ledger::new();
    ledger.process(deposit(1, 1, "1.0")).unwrap();
    assert_eq!(ledger.process(resolve(1, 1)), Err(LedgerError::NotDisputed));
    assert_eq!(ledger.process(chargeback(1, 1)), Err(LedgerError::NotDisputed));
    check_row(&ledger.snapshot()[0], 1, "1.0", "0", "1.0", false);
}

#[test]
fn references_to_unknown_transactions_fail() {
    let mut ledger = Ledger::new();
    ledger.process(deposit(1, 1, "1.0")).unwrap();
    assert_eq!(ledger.process(dispute(1, 9)), Err(LedgerError::UnknownTx(ClientId(1), TxId(9))));
    // a transaction id is looked up together with its client
    assert_eq!(ledger.process(dispute(2, 1)), Err(LedgerError::UnknownTx(ClientId(2), TxId(1))));
    assert_eq!(ledger.process(resolve(1, 9)), Err(LedgerError::UnknownTx(ClientId(1), TxId(9))));
    assert_eq!(ledger.process(chargeback(1, 9)), Err(LedgerError::UnknownTx(ClientId(1), TxId(9))));
}

#[test]
fn snapshot_twice_is_identical() {
    let mut ledger = Ledger::new();
    ledger.process(deposit(3, 1, "1.5")).unwrap();
    ledger.process(deposit(1, 2, "2.0")).unwrap();
    let first = ledger.snapshot();
    let second = ledger.snapshot();
    assert_eq!(first, second);
}

#[test]
fn snapshot_is_ordered_by_client() {
    let mut ledger = Ledger::new();
    ledger.process(deposit(65535, 1, "1")).unwrap();
    ledger.process(deposit(0, 2, "2")).unwrap();
    ledger.process(deposit(300, 3, "3")).unwrap();
    let rows = ledger.snapshot();
    let clients: Vec<u16> = rows.iter().map(|r| r.0 .0).collect();
    assert_eq!(clients, vec![0, 300, 65535]);
}

#[test]
fn deposit_overflow_is_refused() {
    let mut ledger = Ledger::new();
    ledger.process(deposit(1, 1, "900000000000000")).unwrap();
    assert_eq!(ledger.process(deposit(1, 2, "900000000000000")), Err(LedgerError::Overflow));
    check_row(&ledger.snapshot()[0], 1, "900000000000000", "0", "900000000000000", false);
}

#[test]
fn withdrawal_of_smallest_amount_overflows() {
    let mut ledger = Ledger::new();
    let w = Transaction::Withdrawal(Withdrawal {
        client: ClientId(1),
        tx: TxId(1),
        amount: TxAmount(i64::MIN),
    });
    assert_eq!(ledger.process(w), Err(LedgerError::Overflow));
}

#[test]
fn dispute_then_resolve_restores_balances() {
    let mut ledger = Ledger::new();
    ledger.process(deposit(4, 1, "10.1234")).unwrap();
    ledger.process(withdrawal(4, 2, "0.1234")).unwrap();
    ledger.process(dispute(4, 1)).unwrap();
    check_row(&ledger.snapshot()[0], 4, "-0.1234", "10.1234", "10", false);
    ledger.process(resolve(4, 1)).unwrap();
    check_row(&ledger.snapshot()[0], 4, "10", "0", "10", false);
}

#[test]
fn account_info_operations() {
    let mut a = AccountInfo::new();
    assert_eq!(a.apply_deposit(amount("2")), Ok(()));
    assert_eq!(a.apply_delta(amount("-3")), Err(LedgerError::NotEnoughFunds));
    assert_eq!(a.apply_delta(amount("-0.5")), Ok(()));
    assert_eq!(a.available_funds(), amount("1.5"));
    assert_eq!(a.apply_dispute(amount("1")), Ok(()));
    assert_eq!(a.held_funds(), amount("1"));
    assert_eq!(a.apply_chargeback(amount("1")), Ok(()));
    assert!(a.is_locked());
    assert_eq!(a.total_funds(), amount("0.5"));
    assert_eq!(a.apply_resolution(amount("1")), Err(LedgerError::FrozenAccount));
}

#[test]
fn default_ledger_is_empty() {
    let ledger = Ledger::default();
    assert!(ledger.snapshot().is_empty());
}

#[test]
fn repeated_deposit_id_is_refused() {
    let mut ledger = Ledger::new();
    ledger.process(deposit(1, 1, "1.0")).unwrap();
    let before = ledger.snapshot();
    assert_eq!(ledger.process(deposit(1, 1, "2.0")), Err(LedgerError::DuplicateTx(ClientId(1), TxId(1))));
    assert_eq!(ledger.process(withdrawal(1, 1, "0.5")), Err(LedgerError::DuplicateTx(ClientId(1), TxId(1))));
    assert_eq!(ledger.snapshot(), before);
    // the stored amount is still the first one
    ledger.process(dispute(1, 1)).unwrap();
    check_row(&ledger.snapshot()[0], 1, "0", "1.0", "1.0", false);
}

#[test]
fn resolved_transaction_is_not_reset_by_a_repeated_id() {
    let mut ledger = Ledger::new();
    ledger.process(deposit(1, 1, "1.0")).unwrap();
    ledger.process(dispute(1, 1)).unwrap();
    ledger.process(resolve(1, 1)).unwrap();
    assert_eq!(ledger.process(deposit(1, 1, "1.0")), Err(LedgerError::DuplicateTx(ClientId(1), TxId(1))));
    assert_eq!(ledger.process(dispute(1, 1)), Err(LedgerError::AlreadyDisputed));
}

#[test]
fn same_id_under_another_client_is_accepted() {
    let mut ledger = Ledger::new();
    ledger.process(deposit(1, 1, "1.0")).unwrap();
    assert_eq!(ledger.process(deposit(2, 1, "2.0")), Ok(()));
}

#[test]
fn locked_account_is_checked_before_the_amount() {
    let mut ledger = Ledger::new();
    ledger.process(deposit(1, 1, "1.0")).unwrap();
    ledger.process(dispute(1, 1)).unwrap();
    ledger.process(chargeback(1, 1)).unwrap();
    let w = Transaction::Withdrawal(Withdrawal { client: ClientId(1), tx: TxId(2), amount: TxAmount(i64::MIN) });
    assert_eq!(ledger.process(w), Err(LedgerError::FrozenAccount));
}

#[test]
fn references_on_a_locked_account() {
    let mut ledger = Ledger::new();
    ledger.process(deposit(1, 1, "1.0")).unwrap();
    ledger.process(deposit(1, 2, "1.0")).unwrap();
    ledger.process(dispute(1, 1)).unwrap();
    ledger.process(chargeback(1, 1)).unwrap();
    let before = ledger.snapshot();
    // every transaction against a locked account is refused as such
    assert_eq!(ledger.process(dispute(1, 1)), Err(LedgerError::FrozenAccount));
    assert_eq!(ledger.process(resolve(1, 1)), Err(LedgerError::FrozenAccount));
    assert_eq!(ledger.process(chargeback(1, 1)), Err(LedgerError::FrozenAccount));
    assert_eq!(ledger.process(dispute(1, 9)), Err(LedgerError::FrozenAccount));
    assert_eq!(ledger.process(resolve(1, 9)), Err(LedgerError::FrozenAccount));
    assert_eq!(ledger.process(dispute(1, 2)), Err(LedgerError::FrozenAccount));
    assert_eq!(ledger.process(withdrawal(1, 3, "0.5")), Err(LedgerError::FrozenAccount));
    assert_eq!(ledger.process(deposit(1, 2, "0.5")), Err(LedgerError::FrozenAccount));
    assert_eq!(ledger.snapshot(), before);
}

#[test]
fn overdrawing_withdrawal_under_a_recorded_id_is_not_enough_funds() {
    let mut ledger = Ledger::new();
    ledger.process(deposit(1, 1, "1.0")).unwrap();
    let before = ledger.snapshot();
    assert_eq!(ledger.process(withdrawal(1, 1, "3.0")), Err(LedgerError::NotEnoughFunds));
    assert_eq!(ledger.process(withdrawal(1, 1, "0.5")), Err(LedgerError::DuplicateTx(ClientId(1), TxId(1))));
    assert_eq!(ledger.snapshot(), before);
}
