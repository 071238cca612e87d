//! Replays a stream of deposits, withdrawals and disputes into per-client
//! account balances.
pub mod primitives;
pub mod error;
pub mod transaction;
pub mod account;
pub mod ledger;

pub use crate::primitives::{ClientId, TxAmount, TxId};
pub use crate::error::{LedgerError, ParseError};
pub use crate::transaction::{Chargeback, Deposit, Dispute, Resolve, Transaction, Withdrawal};
pub use crate::account::{AccountInfo, TxState};
pub use crate::ledger::{Ledger, LedgerView, TxRecord};
