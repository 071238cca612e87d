//! Error types of the ledger and of transaction decoding.
use vstd::prelude::*;

use crate::primitives::{ClientId, TxId};

verus! {

/// Why the ledger refused a transaction. A refused transaction leaves the
/// ledger exactly as it was.
#[derive(Clone, Copy, Debug, PartialEq, Eq, Structural, PartialOrd, Ord, Hash)]
pub enum LedgerError {
    /// A withdrawal would leave the available funds negative.
    NotEnoughFunds,
    /// No deposit or withdrawal is recorded under this client and id.
    UnknownTx(ClientId, TxId),
    /// A deposit or withdrawal is already recorded under this client and id.
    DuplicateTx(ClientId, TxId),
    /// The transaction is not in its initial, undisputed state.
    AlreadyDisputed,
    /// The transaction is not currently disputed.
    NotDisputed,
    /// The account has been locked by a chargeback.
    FrozenAccount,
    /// A balance would leave the range that an amount can represent.
    Overflow,
}

/// Why a decoded record could not be turned into a transaction.
#[derive(Clone, Debug, PartialEq, Eq, PartialOrd, Ord, Hash)]
pub enum ParseError {
    /// A deposit or withdrawal came without an amount.
    MissingAmount,
    /// The record names no known kind of transaction.
    UnknownTx(String),
    /// The amount is not a decimal number with at most four places that
    /// fits the supported range.
    InvalidAmount(String),
}

} // verus!
