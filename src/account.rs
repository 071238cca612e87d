//! Balances of one client, and the dispute state of one transaction.
use vstd::prelude::*;

use crate::error::LedgerError;
use crate::primitives::{in_amount_range, TxAmount};

verus! {

/// Balances of one client. `available + held` is the total; a locked account
/// takes no further changes.
#[derive(Copy, Clone, Debug, Default, PartialEq, Eq, Structural, PartialOrd, Ord)]
pub struct AccountInfo {
    pub available_funds: TxAmount,
    pub held_funds: TxAmount,
    pub locked: bool,
}

/// The dispute state of a recorded deposit or withdrawal. The transitions
/// are `Processed -> Disputed`, `Disputed -> Resolved` and
/// `Disputed -> ChargedBack`; `Processed` is the initial state.
#[derive(Copy, Clone, Debug, PartialEq, Eq, Structural, PartialOrd, Ord)]
pub enum TxState {
    /// A transaction was just accepted.
    Processed,
    /// A transaction dispute has been processed.
    Disputed,
    /// A transaction disputed was resolved.
    Resolved,
    /// A transaction disputed was charged back.
    ChargedBack,
}

impl AccountInfo {
    /// A fresh account: no funds, not locked.
    pub open spec fn empty() -> AccountInfo {
        AccountInfo { available_funds: TxAmount(0), held_funds: TxAmount(0), locked: false }
    }

    /// The total of the account, as a mathematical integer.
    pub open spec fn total(self) -> int {
        self.available_funds@ + self.held_funds@
    }

    /// Whether the total can itself be held as an amount.
    pub open spec fn wf(self) -> bool {
        in_amount_range(self.total())
    }

    /// The account with `da` added to the available funds and `dh` to the
    /// held funds, where both and their sum stay in range.
    pub open spec fn moved(self, da: int, dh: int) -> Option<AccountInfo> {
        let a = self.available_funds@ + da;
        let h = self.held_funds@ + dh;
        if in_amount_range(a) && in_amount_range(h) && in_amount_range(a + h) {
            Some(
                AccountInfo {
                    available_funds: TxAmount(a as i64),
                    held_funds: TxAmount(h as i64),
                    locked: self.locked,
                },
            )
        } else {
            None
        }
    }

    /// Outcome of a move of funds on an unlocked account.
    pub open spec fn move_outcome(self, da: int, dh: int) -> Result<AccountInfo, LedgerError> {
        if self.locked {
            Err(LedgerError::FrozenAccount)
        } else {
            match self.moved(da, dh) {
                Some(b) => Ok(b),
                None => Err(LedgerError::Overflow),
            }
        }
    }

    /// Outcome of crediting `amount` to the available funds.
    pub open spec fn deposit_outcome(self, amount: int) -> Result<AccountInfo, LedgerError> {
        self.move_outcome(amount, 0)
    }

    /// Outcome of adding a signed `delta` to the available funds, which must
    /// not become negative.
    pub open spec fn delta_outcome(self, delta: int) -> Result<AccountInfo, LedgerError> {
        if self.locked {
            Err(LedgerError::FrozenAccount)
        } else if self.available_funds@ + delta < 0 {
            Err(LedgerError::NotEnoughFunds)
        } else {
            self.move_outcome(delta, 0)
        }
    }

    /// Outcome of holding the signed amount `amount` of a disputed transaction.
    pub open spec fn dispute_outcome(self, amount: int) -> Result<AccountInfo, LedgerError> {
        self.move_outcome(-amount, amount)
    }

    /// Outcome of releasing the held `amount` back to the available funds.
    pub open spec fn resolution_outcome(self, amount: int) -> Result<AccountInfo, LedgerError> {
        self.move_outcome(amount, -amount)
    }

    /// Outcome of removing the held `amount` and locking the account.
    pub open spec fn chargeback_outcome(self, amount: int) -> Result<AccountInfo, LedgerError> {
        match self.move_outcome(0, -amount) {
            Ok(b) => Ok(AccountInfo { locked: true, ..b }),
            Err(e) => Err(e),
        }
    }

    /// Whether a call that returned `r` changed `before` into `after` as
    /// `outcome` prescribes: the new account on success, nothing on failure.
    pub open spec fn follows(
        outcome: Result<AccountInfo, LedgerError>,
        before: AccountInfo,
        after: AccountInfo,
        r: Result<(), LedgerError>,
    ) -> bool {
        match outcome {
            Ok(b) => r is Ok && after == b,
            Err(e) => r == Err::<(), LedgerError>(e) && after == before,
        }
    }

    /// A fresh account: no funds, not locked.
    pub fn new() -> (r: AccountInfo)
        ensures
            r == AccountInfo::empty(),
    {
        AccountInfo { available_funds: TxAmount::zero(), held_funds: TxAmount::zero(), locked: false }
    }

    /// Whether or not an account has been locked.
    pub fn is_locked(&self) -> (r: bool)
        ensures
            r == self.locked,
    {
        self.locked
    }

    /// The funds that are usable on this account.
    pub fn available_funds(&self) -> (r: TxAmount)
        ensures
            r == self.available_funds,
    {
        self.available_funds
    }

    /// The funds that have been held pending resolution of a dispute.
    pub fn held_funds(&self) -> (r: TxAmount)
        ensures
            r == self.held_funds,
    {
        self.held_funds
    }

    /// The total funds on an account, i.e: available funds and held funds.
    pub fn total_funds(&self) -> (r: TxAmount)
        requires
            self.wf(),
        ensures
            r@ == self.total(),
    {
        TxAmount((self.available_funds.0 as i128 + self.held_funds.0 as i128) as i64)
    }

    /// Refuses any change once the account is locked.
    pub fn check_frozen(&self) -> (r: Result<(), LedgerError>)
        ensures
            r == if self.locked {
                Err::<(), LedgerError>(LedgerError::FrozenAccount)
            } else {
                Ok(())
            },
    {
        if self.is_locked() {
            Err(LedgerError::FrozenAccount)
        } else {
            Ok(())
        }
    }

    /// Sets the balances to `available` and `held` where their sum is in range.
    fn set_balances(&mut self, available: TxAmount, held: TxAmount) -> (r: Result<(), LedgerError>)
        ensures
            in_amount_range(available@ + held@) ==> r is Ok && *final(self) == (AccountInfo {
                available_funds: available,
                held_funds: held,
                ..*old(self)
            }),
            !in_amount_range(available@ + held@) ==> r == Err::<(), LedgerError>(
                LedgerError::Overflow,
            ) && *final(self) == *old(self),
    {
        match available.checked_add(held) {
            Some(_) => {
                self.available_funds = available;
                self.held_funds = held;
                Ok(())
            },
            None => Err(LedgerError::Overflow),
        }
    }

    /// Credits `amount` to the available funds of an unlocked account.
    pub fn apply_deposit(&mut self, amount: TxAmount) -> (r: Result<(), LedgerError>)
        ensures
            AccountInfo::follows(old(self).deposit_outcome(amount@), *old(self), *final(self), r),
    {
        self.check_frozen()?;
        let available = match self.available_funds.checked_add(amount) {
            Some(v) => v,
            None => return Err(LedgerError::Overflow),
        };
        self.set_balances(available, self.held_funds)
    }

    /// Adds the signed `delta` to the available funds of an unlocked
    /// account, unless they would become negative.
    pub fn apply_delta(&mut self, delta: TxAmount) -> (r: Result<(), LedgerError>)
        ensures
            AccountInfo::follows(old(self).delta_outcome(delta@), *old(self), *final(self), r),
    {
        self.check_frozen()?;
        if (self.available_funds.0 as i128) + (delta.0 as i128) < 0 {
            return Err(LedgerError::NotEnoughFunds);
        }
        let available = match self.available_funds.checked_add(delta) {
            Some(v) => v,
            None => return Err(LedgerError::Overflow),
        };
        self.set_balances(available, self.held_funds)
    }

    /// Moves the signed amount `delta` of a disputed transaction from the
    /// available funds to the held funds.
    pub fn apply_dispute(&mut self, delta: TxAmount) -> (r: Result<(), LedgerError>)
        ensures
            AccountInfo::follows(old(self).dispute_outcome(delta@), *old(self), *final(self), r),
    {
        self.check_frozen()?;
        let available = match self.available_funds.checked_sub(delta) {
            Some(v) => v,
            None => return Err(LedgerError::Overflow),
        };
        let held = match self.held_funds.checked_add(delta) {
            Some(v) => v,
            None => return Err(LedgerError::Overflow),
        };
        self.set_balances(available, held)
    }

    /// Moves the signed amount `delta` of a resolved dispute from the held
    /// funds back to the available funds.
    pub fn apply_resolution(&mut self, delta: TxAmount) -> (r: Result<(), LedgerError>)
        ensures
            AccountInfo::follows(
                old(self).resolution_outcome(delta@),
                *old(self),
                *final(self),
                r,
            ),
    {
        self.check_frozen()?;
        let available = match self.available_funds.checked_add(delta) {
            Some(v) => v,
            None => return Err(LedgerError::Overflow),
        };
        let held = match self.held_funds.checked_sub(delta) {
            Some(v) => v,
            None => return Err(LedgerError::Overflow),
        };
        self.set_balances(available, held)
    }

    /// Removes the signed amount `delta` of a charged-back dispute from the
    /// held funds and locks the account.
    pub fn apply_chargeback(&mut self, delta: TxAmount) -> (r: Result<(), LedgerError>)
        ensures
            AccountInfo::follows(
                old(self).chargeback_outcome(delta@),
                *old(self),
                *final(self),
                r,
            ),
    {
        self.check_frozen()?;
        let held = match self.held_funds.checked_sub(delta) {
            Some(v) => v,
            None => return Err(LedgerError::Overflow),
        };
        self.set_balances(self.available_funds, held)?;
        self.locked = true;
        Ok(())
    }
}


impl TxState {
    /// Outcome of disputing a transaction in this state whose signed amount
    /// is `amount`, on the account `a`: the new state and account.
    pub open spec fn dispute_transition(self, a: AccountInfo, amount: int) -> Result<
        (TxState, AccountInfo),
        LedgerError,
    > {
        if self != TxState::Processed {
            Err(LedgerError::AlreadyDisputed)
        } else {
            match a.dispute_outcome(amount) {
                Ok(b) => Ok((TxState::Disputed, b)),
                Err(e) => Err(e),
            }
        }
    }

    /// Outcome of resolving a dispute of a transaction in this state.
    pub open spec fn resolution_transition(self, a: AccountInfo, amount: int) -> Result<
        (TxState, AccountInfo),
        LedgerError,
    > {
        if self != TxState::Disputed {
            Err(LedgerError::NotDisputed)
        } else {
            match a.resolution_outcome(amount) {
                Ok(b) => Ok((TxState::Resolved, b)),
                Err(e) => Err(e),
            }
        }
    }

    /// Outcome of charging back a transaction in this state.
    pub open spec fn chargeback_transition(self, a: AccountInfo, amount: int) -> Result<
        (TxState, AccountInfo),
        LedgerError,
    > {
        if self != TxState::Disputed {
            Err(LedgerError::NotDisputed)
        } else {
            match a.chargeback_outcome(amount) {
                Ok(b) => Ok((TxState::ChargedBack, b)),
                Err(e) => Err(e),
            }
        }
    }

    /// Whether a call that returned `r` took state and account from
    /// `(s0, a0)` to `(s1, a1)` as `outcome` prescribes.
    pub open spec fn follows(
        outcome: Result<(TxState, AccountInfo), LedgerError>,
        s0: TxState,
        a0: AccountInfo,
        s1: TxState,
        a1: AccountInfo,
        r: Result<(), LedgerError>,
    ) -> bool {
        match outcome {
            Ok((s, a)) => r is Ok && s1 == s && a1 == a,
            Err(e) => r == Err::<(), LedgerError>(e) && s1 == s0 && a1 == a0,
        }
    }

    /// Disputes a processed transaction of signed amount `amount`.
    pub fn apply_dispute(&mut self, account: &mut AccountInfo, amount: TxAmount) -> (r: Result<
        (),
        LedgerError,
    >)
        ensures
            TxState::follows(
                old(self).dispute_transition(*old(account), amount@),
                *old(self),
                *old(account),
                *final(self),
                *final(account),
                r,
            ),
    {
        if *self != TxState::Processed {
            return Err(LedgerError::AlreadyDisputed);
        }
        account.apply_dispute(amount)?;
        *self = TxState::Disputed;
        Ok(())
    }

    /// Resolves the dispute of a disputed transaction of signed amount `amount`.
    pub fn apply_resolution(&mut self, account: &mut AccountInfo, amount: TxAmount) -> (r:
        Result<(), LedgerError>)
        ensures
            TxState::follows(
                old(self).resolution_transition(*old(account), amount@),
                *old(self),
                *old(account),
                *final(self),
                *final(account),
                r,
            ),
    {
        if *self != TxState::Disputed {
            return Err(LedgerError::NotDisputed);
        }
        account.apply_resolution(amount)?;
        *self = TxState::Resolved;
        Ok(())
    }

    /// Charges back a disputed transaction of signed amount `amount`.
    pub fn apply_chargeback(&mut self, account: &mut AccountInfo, amount: TxAmount) -> (r:
        Result<(), LedgerError>)
        ensures
            TxState::follows(
                old(self).chargeback_transition(*old(account), amount@),
                *old(self),
                *old(account),
                *final(self),
                *final(account),
                r,
            ),
    {
        if *self != TxState::Disputed {
            return Err(LedgerError::NotDisputed);
        }
        account.apply_chargeback(amount)?;
        *self = TxState::ChargedBack;
        Ok(())
    }
}

} // verus!
