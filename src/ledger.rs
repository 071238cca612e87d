//! The ledger: accounts by client, and recorded transactions by client and id.
use vstd::prelude::*;
use vstd::hash_map::HashMapWithView;

use crate::account::{AccountInfo, TxState};
use crate::error::LedgerError;
use crate::primitives::{in_amount_range, ClientId, TxAmount, TxId};
use crate::transaction::{Chargeback, Deposit, Dispute, Resolve, Transaction, Withdrawal};

verus! {

broadcast use vstd::std_specs::hash::group_hash_axioms;

/// A recorded deposit or withdrawal: its signed amount (negative for a
/// withdrawal) and its dispute state.
#[derive(Copy, Clone, Debug, PartialEq, Eq, Structural)]
pub struct TxRecord {
    pub amount: TxAmount,
    pub state: TxState,
}

/// What a ledger holds: the account of each client that has one, and the
/// record of each accepted deposit and withdrawal.
pub ghost struct LedgerView {
    pub accounts: Map<ClientId, AccountInfo>,
    pub records: Map<(ClientId, TxId), TxRecord>,
}

impl LedgerView {
    /// Every record belongs to an existing account, and every account's
    /// total can be held as an amount.
    pub open spec fn wf(self) -> bool {
        &&& forall|k: (ClientId, TxId)| #[trigger]
            self.records.contains_key(k) ==> self.accounts.contains_key(k.0)
        &&& forall|c: ClientId| #[trigger]
            self.accounts.contains_key(c) ==> self.accounts[c].wf()
    }

    /// The account of `c`, or a fresh one where `c` has none yet.
    pub open spec fn account_or_new(self, c: ClientId) -> AccountInfo {
        if self.accounts.contains_key(c) {
            self.accounts[c]
        } else {
            AccountInfo::empty()
        }
    }

    /// Ledger and result after a deposit or withdrawal whose effect on the
    /// account of `client` is `outcome`; on success the transaction is
    /// recorded with its signed amount as `Processed`.
    pub open spec fn after_movement(
        self,
        client: ClientId,
        tx: TxId,
        signed: TxAmount,
        outcome: Result<AccountInfo, LedgerError>,
    ) -> (LedgerView, Result<(), LedgerError>) {
        match outcome {
            Ok(a) => (
                LedgerView {
                    accounts: self.accounts.insert(client, a),
                    records: self.records.insert(
                        (client, tx),
                        TxRecord { amount: signed, state: TxState::Processed },
                    ),
                },
                Ok(()),
            ),
            Err(e) => (self, Err(e)),
        }
    }

    /// Ledger and result after a dispute, resolution or chargeback of the
    /// recorded transaction `(client, tx)` whose outcome is `outcome`.
    pub open spec fn after_transition(
        self,
        client: ClientId,
        tx: TxId,
        outcome: Result<(TxState, AccountInfo), LedgerError>,
    ) -> (LedgerView, Result<(), LedgerError>) {
        match outcome {
            Ok((st, a)) => (
                LedgerView {
                    accounts: self.accounts.insert(client, a),
                    records: self.records.insert(
                        (client, tx),
                        TxRecord { amount: self.records[(client, tx)].amount, state: st },
                    ),
                },
                Ok(()),
            ),
            Err(e) => (self, Err(e)),
        }
    }

    /// Ledger and result after a dispute, resolution or chargeback of
    /// `(client, tx)`: refused on a locked account, then on an unknown
    /// transaction; otherwise the transition of `kind` from the recorded
    /// state, the client's account and the signed amount.
    pub open spec fn after_reference(
        self,
        client: ClientId,
        tx: TxId,
        kind: ReferenceKind,
    ) -> (LedgerView, Result<(), LedgerError>) {
        if self.account_or_new(client).locked {
            (self, Err(LedgerError::FrozenAccount))
        } else if !self.records.contains_key((client, tx)) {
            (self, Err(LedgerError::UnknownTx(client, tx)))
        } else {
            let rec = self.records[(client, tx)];
            let a = self.accounts[client];
            self.after_transition(
                client,
                tx,
                match kind {
                    ReferenceKind::Dispute => rec.state.dispute_transition(a, rec.amount@),
                    ReferenceKind::Resolve => rec.state.resolution_transition(a, rec.amount@),
                    ReferenceKind::Chargeback => rec.state.chargeback_transition(a, rec.amount@),
                },
            )
        }
    }

    /// Why a deposit `(client, tx)` is refused before its amount is looked
    /// at: the account is locked, or a transaction is
    /// already recorded under that client and id.
    pub open spec fn movement_refusal(self, client: ClientId, tx: TxId) -> Option<LedgerError> {
        if self.account_or_new(client).locked {
            Some(LedgerError::FrozenAccount)
        } else if self.records.contains_key((client, tx)) {
            Some(LedgerError::DuplicateTx(client, tx))
        } else {
            None
        }
    }

    /// The ledger and the result after processing `t`.
    pub open spec fn step(self, t: Transaction) -> (LedgerView, Result<(), LedgerError>) {
        match t {
            Transaction::Deposit(d) => match self.movement_refusal(d.client, d.tx) {
                Some(e) => (self, Err(e)),
                None => self.after_movement(
                    d.client,
                    d.tx,
                    d.amount,
                    self.account_or_new(d.client).deposit_outcome(d.amount@),
                ),
            },
            Transaction::Withdrawal(w) => if self.account_or_new(w.client).locked {
                (self, Err(LedgerError::FrozenAccount))
            } else if self.account_or_new(w.client).available_funds@ - w.amount@ < 0 {
                (self, Err(LedgerError::NotEnoughFunds))
            } else if self.records.contains_key((w.client, w.tx)) {
                (self, Err(LedgerError::DuplicateTx(w.client, w.tx)))
            } else if !in_amount_range(-w.amount@) {
                (self, Err(LedgerError::Overflow))
            } else {
                self.after_movement(
                    w.client,
                    w.tx,
                    TxAmount((-w.amount@) as i64),
                    self.account_or_new(w.client).delta_outcome(-w.amount@),
                )
            },
            Transaction::Dispute(d) => self.after_reference(d.client, d.tx, ReferenceKind::Dispute),
            Transaction::Resolve(d) => self.after_reference(d.client, d.tx, ReferenceKind::Resolve),
            Transaction::Chargeback(d) => self.after_reference(
                d.client,
                d.tx,
                ReferenceKind::Chargeback,
            ),
        }
    }
}

/// The three transactions that refer back to a recorded one.
pub ghost enum ReferenceKind {
    Dispute,
    Resolve,
    Chargeback,
}

/// The accounts of clients below `n`, by ascending client id.
pub open spec fn rows_below(accounts: Map<ClientId, AccountInfo>, n: nat) -> Seq<
    (ClientId, AccountInfo),
>
    decreases n,
{
    if n == 0 {
        Seq::empty()
    } else {
        let prev = rows_below(accounts, (n - 1) as nat);
        let c = ClientId((n - 1) as u16);
        if accounts.contains_key(c) {
            prev.push((c, accounts[c]))
        } else {
            prev
        }
    }
}

/// Number of distinct client ids.
pub open spec fn client_id_count() -> nat {
    65536
}

/// Every account, by ascending client id.
pub open spec fn snapshot_rows(accounts: Map<ClientId, AccountInfo>) -> Seq<
    (ClientId, AccountInfo),
> {
    rows_below(accounts, client_id_count())
}

/// The key under which the record of `(c, t)` is stored.
pub open spec fn record_key(c: ClientId, t: TxId) -> u64 {
    (c.0 as int * 4294967296 + t.0 as int) as u64
}

proof fn lemma_record_key_injective(c1: ClientId, t1: TxId, c2: ClientId, t2: TxId)
    ensures
        record_key(c1, t1) == record_key(c2, t2) ==> c1 == c2 && t1 == t2,
{
}

fn tx_key(client: ClientId, tx: TxId) -> (r: u64)
    ensures
        r == record_key(client, tx),
{
    client.0 as u64 * 4294967296 + tx.0 as u64
}

/// A ledger of accounts, which processes transactions one at a time.
pub struct Ledger {
    accounts: HashMapWithView<u16, AccountInfo>,
    transactions: HashMapWithView<u64, TxRecord>,
}

impl View for Ledger {
    type V = LedgerView;

    closed spec fn view(&self) -> LedgerView {
        LedgerView {
            accounts: Map::new(
                |c: ClientId| self.accounts@.contains_key(c.0),
                |c: ClientId| self.accounts@[c.0],
            ),
            records: Map::new(
                |k: (ClientId, TxId)| self.transactions@.contains_key(record_key(k.0, k.1)),
                |k: (ClientId, TxId)| self.transactions@[record_key(k.0, k.1)],
            ),
        }
    }
}


impl Default for Ledger {
    /// An empty ledger.
    fn default() -> (r: Ledger)
        ensures
            r@.accounts == Map::<ClientId, AccountInfo>::empty(),
            r@.records == Map::<(ClientId, TxId), TxRecord>::empty(),
            r@.wf(),
    {
        Ledger::new()
    }
}

impl Ledger {
    /// An empty ledger.
    pub fn new() -> (r: Ledger)
        ensures
            r@.accounts == Map::<ClientId, AccountInfo>::empty(),
            r@.records == Map::<(ClientId, TxId), TxRecord>::empty(),
            r@.wf(),
    {
        let r = Ledger { accounts: HashMapWithView::new(), transactions: HashMapWithView::new() };
        assert(r@.accounts =~= Map::<ClientId, AccountInfo>::empty());
        assert(r@.records =~= Map::<(ClientId, TxId), TxRecord>::empty());
        r
    }

    /// Applies one transaction. On failure the ledger is left as it was.
    pub fn process(&mut self, tx: Transaction) -> (r: Result<(), LedgerError>)
        requires
            old(self)@.wf(),
        ensures
            (final(self)@, r) == old(self)@.step(tx),
            final(self)@.wf(),
    {
        proof {
            lemma_step_preserves_invariants(self@, tx);
        }
        match tx {
            Transaction::Deposit(Deposit { client, tx, amount }) => self.deposit(client, tx, amount),
            Transaction::Withdrawal(Withdrawal { client, tx, amount }) => self.withdraw(
                client,
                tx,
                amount,
            ),
            Transaction::Dispute(tx) => self.dispute(tx),
            Transaction::Resolve(tx) => self.resolve(tx),
            Transaction::Chargeback(tx) => self.chargeback(tx),
        }
    }

    /// Every account, by ascending client id.
    pub fn snapshot(&self) -> (r: Vec<(ClientId, AccountInfo)>)
        ensures
            r@ == snapshot_rows(self@.accounts),
    {
        let mut rows: Vec<(ClientId, AccountInfo)> = Vec::new();
        let mut id: u32 = 0;
        while id < 65536
            invariant
                id <= 65536,
                rows@ == rows_below(self@.accounts, id as nat),
            decreases 65536 - id,
        {
            let c = ClientId(id as u16);
            assert(self@.accounts.contains_key(c) == self.accounts@.contains_key(id as u16));
            match self.accounts.get(&(id as u16)) {
                Some(a) => rows.push((c, *a)),
                None => {},
            }
            id = id + 1;
        }
        rows
    }

    /// The account of `client`, or a fresh one where it has none yet.
    fn account_or_new(&self, client: ClientId) -> (r: AccountInfo)
        ensures
            r == self@.account_or_new(client),
    {
        match self.accounts.get(&client.0) {
            Some(a) => *a,
            None => AccountInfo::new(),
        }
    }

    /// Stores the account of `client` and the record of `(client, tx)`.
    fn store(&mut self, client: ClientId, tx: TxId, account: AccountInfo, record: TxRecord)
        ensures
            final(self)@.accounts == old(self)@.accounts.insert(client, account),
            final(self)@.records == old(self)@.records.insert((client, tx), record),
    {
        let key = tx_key(client, tx);
        self.accounts.insert(client.0, account);
        self.transactions.insert(key, record);
        assert(self@.accounts =~= old(self)@.accounts.insert(client, account));
        assert forall|k: (ClientId, TxId)|
            record_key(k.0, k.1) == key implies k == (client, tx) by {
            lemma_record_key_injective(k.0, k.1, client, tx);
        }
        assert(self@.records =~= old(self)@.records.insert((client, tx), record));
    }

    /// Refuses a deposit `(client, tx)` on a locked account or
    /// under an id that is already recorded.
    fn check_movement(&self, client: ClientId, tx: TxId) -> (r: Result<AccountInfo, LedgerError>)
        ensures
            match self@.movement_refusal(client, tx) {
                Some(e) => r == Err::<AccountInfo, LedgerError>(e),
                None => r == Ok::<AccountInfo, LedgerError>(self@.account_or_new(client)),
            },
    {
        let account = self.account_or_new(client);
        if account.is_locked() {
            return Err(LedgerError::FrozenAccount);
        }
        if self.transactions.contains_key(&tx_key(client, tx)) {
            return Err(LedgerError::DuplicateTx(client, tx));
        }
        assert(!self@.records.contains_key((client, tx)));
        Ok(account)
    }

    fn deposit(&mut self, client: ClientId, tx: TxId, amount: TxAmount) -> (r: Result<
        (),
        LedgerError,
    >)
        ensures
            (final(self)@, r) == old(self)@.step(
                Transaction::Deposit(Deposit { client, tx, amount }),
            ),
    {
        let mut account = self.check_movement(client, tx)?;
        account.apply_deposit(amount)?;
        self.store(client, tx, account, TxRecord { amount, state: TxState::Processed });
        Ok(())
    }

    fn withdraw(&mut self, client: ClientId, tx: TxId, amount: TxAmount) -> (r: Result<
        (),
        LedgerError,
    >)
        ensures
            (final(self)@, r) == old(self)@.step(
                Transaction::Withdrawal(Withdrawal { client, tx, amount }),
            ),
    {
        let mut account = self.account_or_new(client);
        if account.is_locked() {
            return Err(LedgerError::FrozenAccount);
        }
        if (account.available_funds.0 as i128) - (amount.0 as i128) < 0 {
            return Err(LedgerError::NotEnoughFunds);
        }
        if self.transactions.contains_key(&tx_key(client, tx)) {
            return Err(LedgerError::DuplicateTx(client, tx));
        }
        assert(!self@.records.contains_key((client, tx)));
        let delta = match amount.checked_neg() {
            Some(d) => d,
            None => return Err(LedgerError::Overflow),
        };
        account.apply_delta(delta)?;
        self.store(client, tx, account, TxRecord { amount: delta, state: TxState::Processed });
        Ok(())
    }

    /// Refuses any change to the account of `client` once it is locked.
    fn check_unlocked(&self, client: ClientId) -> (r: Result<(), LedgerError>)
        ensures
            r == if self@.account_or_new(client).locked {
                Err::<(), LedgerError>(LedgerError::FrozenAccount)
            } else {
                Ok(())
            },
    {
        self.account_or_new(client).check_frozen()
    }

    /// The record of `(client, tx)` and the account of `client`.
    fn get_past_transaction_info(&self, client: ClientId, tx: TxId) -> (r: Result<
        (TxRecord, AccountInfo),
        LedgerError,
    >)
        requires
            self@.wf(),
        ensures
            match r {
                Ok((rec, a)) => self@.records.contains_key((client, tx)) && rec == self@.records[(
                    client,
                    tx,
                )] && a == self@.accounts[client],
                Err(e) => !self@.records.contains_key((client, tx)) && e == LedgerError::UnknownTx(
                    client,
                    tx,
                ),
            },
    {
        let rec = match self.transactions.get(&tx_key(client, tx)) {
            Some(rec) => *rec,
            None => return Err(LedgerError::UnknownTx(client, tx)),
        };
        assert(self@.records.contains_key((client, tx)));
        let account = match self.accounts.get(&client.0) {
            Some(a) => *a,
            None => return Err(LedgerError::UnknownTx(client, tx)),
        };
        Ok((rec, account))
    }

    fn dispute(&mut self, d: Dispute) -> (r: Result<(), LedgerError>)
        requires
            old(self)@.wf(),
        ensures
            (final(self)@, r) == old(self)@.after_reference(d.client, d.tx, ReferenceKind::Dispute),
    {
        self.check_unlocked(d.client)?;
        let (rec, mut account) = self.get_past_transaction_info(d.client, d.tx)?;
        let mut state = rec.state;
        state.apply_dispute(&mut account, rec.amount)?;
        self.store(d.client, d.tx, account, TxRecord { amount: rec.amount, state });
        Ok(())
    }

    fn resolve(&mut self, d: Resolve) -> (r: Result<(), LedgerError>)
        requires
            old(self)@.wf(),
        ensures
            (final(self)@, r) == old(self)@.after_reference(d.client, d.tx, ReferenceKind::Resolve),
    {
        self.check_unlocked(d.client)?;
        let (rec, mut account) = self.get_past_transaction_info(d.client, d.tx)?;
        let mut state = rec.state;
        state.apply_resolution(&mut account, rec.amount)?;
        self.store(d.client, d.tx, account, TxRecord { amount: rec.amount, state });
        Ok(())
    }

    fn chargeback(&mut self, d: Chargeback) -> (r: Result<(), LedgerError>)
        requires
            old(self)@.wf(),
        ensures
            (final(self)@, r) == old(self)@.after_reference(
                d.client,
                d.tx,
                ReferenceKind::Chargeback,
            ),
    {
        self.check_unlocked(d.client)?;
        let (rec, mut account) = self.get_past_transaction_info(d.client, d.tx)?;
        let mut state = rec.state;
        state.apply_chargeback(&mut account, rec.amount)?;
        self.store(d.client, d.tx, account, TxRecord { amount: rec.amount, state });
        Ok(())
    }
}

/// Processing a transaction keeps the ledger's invariants: every record
/// belongs to an account, every account's `available + held` is a
/// representable total, no account disappears, and a locked account stays
/// locked and unchanged.
pub proof fn lemma_step_preserves_invariants(s: LedgerView, t: Transaction)
    requires
        s.wf(),
    ensures
        s.step(t).0.wf(),
        forall|c: ClientId| #[trigger]
            s.accounts.contains_key(c) ==> s.step(t).0.accounts.contains_key(c),
        forall|c: ClientId| #[trigger]
            s.accounts.contains_key(c) && s.accounts[c].locked ==> s.step(t).0.accounts[c]
                == s.accounts[c],
{
}


/// A transaction that fails leaves every account and every record as it was.
pub proof fn lemma_failed_step_changes_nothing(s: LedgerView, t: Transaction)
    ensures
        s.step(t).1 is Err ==> s.step(t).0 == s,
{
}

/// A withdrawal of more than the available funds of an unlocked account, or
/// of a client with no account yet, fails with `NotEnoughFunds` and leaves
/// every account and record unchanged; no account is created.
pub proof fn lemma_withdrawal_atomic(s: LedgerView, w: Withdrawal)
    requires
        !s.account_or_new(w.client).locked,
        s.account_or_new(w.client).available_funds@ < w.amount@,
    ensures
        s.step(Transaction::Withdrawal(w)) == (s, Err::<(), LedgerError>(
            LedgerError::NotEnoughFunds,
        )),
{
}

/// A deposit or withdrawal under a client and id that are already recorded
/// changes nothing: the recorded amount stays as it was.
pub proof fn lemma_recorded_id_not_reused(s: LedgerView, t: Transaction)
    requires
        match t {
            Transaction::Deposit(d) => s.records.contains_key((d.client, d.tx)),
            Transaction::Withdrawal(w) => s.records.contains_key((w.client, w.tx)),
            _ => false,
        },
    ensures
        s.step(t).0 == s,
        s.step(t).1 is Err,
{
}

/// A record, once stored, is never removed; its amount never changes; and
/// its state either stays or moves along one of the transitions
/// `Processed -> Disputed`, `Disputed -> Resolved`, `Disputed -> ChargedBack`.
pub proof fn lemma_records_only_advance(s: LedgerView, t: Transaction)
    ensures
        forall|k: (ClientId, TxId)| #[trigger]
            s.records.contains_key(k) ==> {
                let before = s.records[k];
                let after = s.step(t).0.records[k];
                &&& s.step(t).0.records.contains_key(k)
                &&& after.amount == before.amount
                &&& after.state == before.state || legal_transition(before.state, after.state)
            },
{
}

/// The dispute transitions: `Processed -> Disputed`, `Disputed -> Resolved`
/// and `Disputed -> ChargedBack`.
pub open spec fn legal_transition(from: TxState, to: TxState) -> bool {
    ||| from == TxState::Processed && to == TxState::Disputed
    ||| from == TxState::Disputed && to == TxState::Resolved
    ||| from == TxState::Disputed && to == TxState::ChargedBack
}

/// The client that a transaction is made against.
pub open spec fn client_of(t: Transaction) -> ClientId {
    match t {
        Transaction::Deposit(d) => d.client,
        Transaction::Withdrawal(w) => w.client,
        Transaction::Dispute(d) => d.client,
        Transaction::Resolve(d) => d.client,
        Transaction::Chargeback(d) => d.client,
    }
}

/// Once an account is locked, every transaction against its client, of
/// any kind, fails with `FrozenAccount` and changes nothing.
pub proof fn lemma_locked_account_refuses(s: LedgerView, t: Transaction)
    requires
        s.account_or_new(client_of(t)).locked,
    ensures
        s.step(t) == (s, Err::<(), LedgerError>(LedgerError::FrozenAccount)),
{
}

/// Disputing a recorded transaction of an unlocked account that is no
/// longer `Processed` fails with `AlreadyDisputed` and changes nothing; so,
/// for a fixed client and id, at most one dispute ever succeeds.
pub proof fn lemma_dispute_needs_processed(s: LedgerView, d: Dispute)
    requires
        !s.account_or_new(d.client).locked,
        s.records.contains_key((d.client, d.tx)),
        s.records[(d.client, d.tx)].state != TxState::Processed,
    ensures
        s.step(Transaction::Dispute(d)) == (s, Err::<(), LedgerError>(
            LedgerError::AlreadyDisputed,
        )),
{
}

/// Once a dispute of `(client, tx)` has succeeded, disputing it again
/// before a resolve or chargeback fails with `AlreadyDisputed` and changes
/// nothing.
pub proof fn lemma_dispute_at_most_once(s: LedgerView, d: Dispute)
    requires
        s.wf(),
        s.step(Transaction::Dispute(d)).1 is Ok,
    ensures
        ({
            let mid = s.step(Transaction::Dispute(d)).0;
            mid.step(Transaction::Dispute(d)) == (mid, Err::<(), LedgerError>(
                LedgerError::AlreadyDisputed,
            ))
        }),
{
}

/// Taking a snapshot twice with no transaction in between gives the same
/// rows: they depend on the accounts alone.
pub proof fn lemma_snapshot_repeatable(
    v: LedgerView,
    first: Seq<(ClientId, AccountInfo)>,
    second: Seq<(ClientId, AccountInfo)>,
)
    requires
        first == snapshot_rows(v.accounts),
        second == snapshot_rows(v.accounts),
    ensures
        first == second,
{
}


/// Rows of the clients below `n` come by strictly ascending id, each with
/// that client's account, and every such client with an account has a row.
proof fn lemma_rows_below(accounts: Map<ClientId, AccountInfo>, n: nat)
    requires
        n <= client_id_count(),
    ensures
        forall|i: int, j: int|
            0 <= i < j < rows_below(accounts, n).len() ==> (#[trigger] rows_below(accounts, n)[i]).0.0
                < (#[trigger] rows_below(accounts, n)[j]).0.0,
        forall|i: int|
            0 <= i < rows_below(accounts, n).len() ==> {
                let row = #[trigger] rows_below(accounts, n)[i];
                &&& row.0.0 < n
                &&& accounts.contains_key(row.0)
                &&& accounts[row.0] == row.1
            },
        forall|c: ClientId|
            #![trigger accounts.contains_key(c)]
            accounts.contains_key(c) && c.0 < n ==> exists|i: int|
                0 <= i < rows_below(accounts, n).len() && (#[trigger] rows_below(
                    accounts,
                    n,
                )[i]).0 == c,
    decreases n,
{
    if n > 0 {
        let m = (n - 1) as nat;
        lemma_rows_below(accounts, m);
        let prev = rows_below(accounts, m);
        let c = ClientId(m as u16);
        let rows = rows_below(accounts, n);
        if accounts.contains_key(c) {
            assert(rows == prev.push((c, accounts[c])));
            assert forall|d: ClientId|
                #![trigger accounts.contains_key(d)]
                accounts.contains_key(d) && d.0 < n implies exists|i: int|
                    0 <= i < rows.len() && (#[trigger] rows[i]).0 == d by {
                if d.0 == m {
                    assert(d == c);
                    assert(rows[prev.len() as int].0 == d);
                } else {
                    let i = choose|i: int| 0 <= i < prev.len() && (#[trigger] prev[i]).0 == d;
                    assert(rows[i] == prev[i]);
                }
            }
        } else {
            assert(rows == prev);
            assert forall|d: ClientId|
                #![trigger accounts.contains_key(d)]
                accounts.contains_key(d) && d.0 < n implies exists|i: int|
                    0 <= i < rows.len() && (#[trigger] rows[i]).0 == d by {
                if d.0 == m {
                    assert(d == c);
                }
            }
        }
    }
}

/// A snapshot lists every account of the ledger exactly once, with its
/// balances, by strictly ascending client id.
pub proof fn lemma_snapshot_ordered_and_complete(accounts: Map<ClientId, AccountInfo>)
    ensures
        forall|i: int, j: int|
            0 <= i < j < snapshot_rows(accounts).len() ==> (#[trigger] snapshot_rows(accounts)[i]).0.0
                < (#[trigger] snapshot_rows(accounts)[j]).0.0,
        forall|i: int|
            0 <= i < snapshot_rows(accounts).len() ==> {
                let row = #[trigger] snapshot_rows(accounts)[i];
                accounts.contains_key(row.0) && accounts[row.0] == row.1
            },
        forall|c: ClientId|
            #![trigger accounts.contains_key(c)]
            accounts.contains_key(c) ==> exists|i: int|
                0 <= i < snapshot_rows(accounts).len() && (#[trigger] snapshot_rows(
                    accounts,
                )[i]).0 == c,
{
    lemma_rows_below(accounts, client_id_count());
    let rows = snapshot_rows(accounts);
    assert forall|c: ClientId|
        #![trigger accounts.contains_key(c)]
        accounts.contains_key(c) implies exists|i: int|
            0 <= i < rows.len() && (#[trigger] rows[i]).0 == c by {
        assert(c.0 < client_id_count());
    }
}

} // verus!
