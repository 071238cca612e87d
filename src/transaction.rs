//! The five kinds of transaction, and how a decoded record becomes one.
use vstd::prelude::*;

use crate::error::ParseError;
use crate::primitives::{is_invalid_amount, parsed_amount, ClientId, TxAmount, TxId};

verus! {

/// One entry of the input stream.
#[derive(Copy, Clone, Debug, PartialEq, Eq, Structural, PartialOrd, Ord)]
pub enum Transaction {
    Deposit(Deposit),
    Withdrawal(Withdrawal),
    Dispute(Dispute),
    Resolve(Resolve),
    Chargeback(Chargeback),
}

/// Deposit funds into an account, i.e: increase its available funds by the
/// amount given.
#[derive(Copy, Clone, Debug, PartialEq, Eq, Structural, PartialOrd, Ord)]
pub struct Deposit {
    pub client: ClientId,
    pub tx: TxId,
    pub amount: TxAmount,
}

/// Withdraw funds from an account, the opposite of a [Deposit]. Withdrawing
/// more than is available is refused and changes nothing.
#[derive(Copy, Clone, Debug, PartialEq, Eq, Structural, PartialOrd, Ord)]
pub struct Withdrawal {
    pub client: ClientId,
    pub tx: TxId,
    pub amount: TxAmount,
}

/// Hold the funds of an earlier transaction that is claimed to be wrong: its
/// amount moves from the available funds to the held funds.
#[derive(Copy, Clone, Debug, PartialEq, Eq, Structural, PartialOrd, Ord)]
pub struct Dispute {
    pub client: ClientId,
    pub tx: TxId,
}

/// Settle a [Dispute] in favour of the client: the held funds of the
/// transaction go back to the available funds.
#[derive(Copy, Clone, Debug, PartialEq, Eq, Structural, PartialOrd, Ord)]
pub struct Resolve {
    pub client: ClientId,
    pub tx: TxId,
}

/// Settle a [Dispute] by reversal: the held funds of the transaction are
/// removed and the account is locked.
#[derive(Copy, Clone, Debug, PartialEq, Eq, Structural, PartialOrd, Ord)]
pub struct Chargeback {
    pub client: ClientId,
    pub tx: TxId,
}

/// The amount field of a record: an empty field counts as absent.
pub open spec fn amount_field(amount: Option<&str>) -> Option<Seq<char>> {
    match amount {
        Some(t) => if t@.len() == 0 {
            None
        } else {
            Some(t@)
        },
        None => None,
    }
}

/// Whether `kind` names one of the five kinds of transaction.
pub open spec fn is_known_kind(kind: Seq<char>) -> bool {
    ||| kind == "deposit"@
    ||| kind == "withdrawal"@
    ||| kind == "dispute"@
    ||| kind == "resolve"@
    ||| kind == "chargeback"@
}

/// Whether `r` is the error that rejects the kind `kind`.
pub open spec fn is_unknown_kind(r: Result<Transaction, ParseError>, kind: Seq<char>) -> bool {
    match r {
        Err(ParseError::UnknownTx(k)) => k@ == kind,
        _ => false,
    }
}

fn same_text(a: &str, b: &str) -> (r: bool)
    ensures
        r == (a@ == b@),
{
    let x = a.to_owned();
    let y = b.to_owned();
    x.eq(&y)
}

impl Transaction {
    /// Builds a transaction from the fields of one record: its kind, client,
    /// transaction id and, for deposits and withdrawals, its amount text.
    pub fn try_from_record(kind: &str, client: ClientId, tx: TxId, amount: Option<&str>) -> (r:
        Result<Transaction, ParseError>)
        ensures
            (kind@ == "deposit"@ || kind@ == "withdrawal"@) ==> match amount_field(amount) {
                None => r == Err::<Transaction, ParseError>(ParseError::MissingAmount),
                Some(t) => match parsed_amount(t) {
                    Some(a) => r == Ok::<Transaction, ParseError>(
                        if kind@ == "deposit"@ {
                            Transaction::Deposit(Deposit { client, tx, amount: a })
                        } else {
                            Transaction::Withdrawal(Withdrawal { client, tx, amount: a })
                        },
                    ),
                    None => is_invalid_amount(r, t),
                },
            },
            kind@ == "dispute"@ ==> r == Ok::<Transaction, ParseError>(
                Transaction::Dispute(Dispute { client, tx }),
            ),
            kind@ == "resolve"@ ==> r == Ok::<Transaction, ParseError>(
                Transaction::Resolve(Resolve { client, tx }),
            ),
            kind@ == "chargeback"@ ==> r == Ok::<Transaction, ParseError>(
                Transaction::Chargeback(Chargeback { client, tx }),
            ),
            !is_known_kind(kind@) ==> is_unknown_kind(r, kind@),
    {
        proof {
            reveal_strlit("deposit");
            reveal_strlit("withdrawal");
            reveal_strlit("dispute");
            reveal_strlit("resolve");
            reveal_strlit("chargeback");
            assert("deposit"@[1] != "dispute"@[1]);
            assert("deposit"@[0] != "resolve"@[0]);
            assert("withdrawal"@[0] != "chargeback"@[0]);
        }
        let is_deposit = same_text(kind, "deposit");
        if is_deposit || same_text(kind, "withdrawal") {
            let text = match amount {
                Some(t) => t,
                None => {
                    return Err(ParseError::MissingAmount);
                },
            };
            if same_text(text, "") {
                proof {
                    reveal_strlit("");
                }
                return Err(ParseError::MissingAmount);
            }
            proof {
                reveal_strlit("");
                assert(text@.len() != 0) by {
                    if text@.len() == 0 {
                        assert(text@ =~= ""@);
                    }
                }
            }
            let amount = TxAmount::parse(text)?;
            if is_deposit {
                Ok(Transaction::Deposit(Deposit { client, tx, amount }))
            } else {
                Ok(Transaction::Withdrawal(Withdrawal { client, tx, amount }))
            }
        } else if same_text(kind, "dispute") {
            Ok(Transaction::Dispute(Dispute { client, tx }))
        } else if same_text(kind, "resolve") {
            Ok(Transaction::Resolve(Resolve { client, tx }))
        } else if same_text(kind, "chargeback") {
            Ok(Transaction::Chargeback(Chargeback { client, tx }))
        } else {
            Err(ParseError::UnknownTx(kind.to_owned()))
        }
    }
}

} // verus!
