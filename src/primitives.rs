//! Identifiers and exact fixed-point amounts.
use vstd::prelude::*;

use crate::error::ParseError;

verus! {

/// Identifies an account holder. An account exists from the first
/// transaction that names its client.
#[derive(Copy, Clone, Debug, Default, PartialEq, Eq, Structural, PartialOrd, Ord, Hash)]
pub struct ClientId(pub u16);

/// Identifies a deposit or withdrawal; disputes refer back to it.
#[derive(Copy, Clone, Debug, Default, PartialEq, Eq, Structural, PartialOrd, Ord, Hash)]
pub struct TxId(pub u32);

/// An exact decimal amount with four fractional places, held as a whole
/// number of ten-thousandths.
#[derive(Copy, Clone, Debug, Default, PartialEq, Eq, Structural, PartialOrd, Ord, Hash)]
pub struct TxAmount(pub i64);

/// Number of fractional decimal places of every amount.
pub const FRAC_DIGITS: u8 = 4;

/// Most fractional digits that a parsed decimal literal can carry.
pub const MAX_LITERAL_FRAC_DIGITS: u8 = 18;

impl View for TxAmount {
    type V = int;

    open spec fn view(&self) -> int {
        self.0 as int
    }
}

pub open spec fn pow10(n: nat) -> int
    decreases n,
{
    if n == 0 {
        1
    } else {
        10 * pow10((n - 1) as nat)
    }
}

/// Whether a number of ten-thousandths can be held by a `TxAmount`.
pub open spec fn in_amount_range(v: int) -> bool {
    i64::MIN <= v <= i64::MAX
}

pub open spec fn abs(v: int) -> int {
    if v < 0 {
        -v
    } else {
        v
    }
}

/// The value `coeff * 10^-n`, counted in ten-thousandths, where that is a
/// whole number.
pub open spec fn units_of_decimal(coeff: int, n: nat) -> Option<int> {
    if n <= 4 {
        Some(coeff * pow10((4 - n) as nat))
    } else {
        let p = pow10((n - 4) as nat);
        if abs(coeff) % p == 0 {
            Some(if coeff < 0 {
                -(abs(coeff) / p)
            } else {
                abs(coeff) / p
            })
        } else {
            None
        }
    }
}

/// The amount that a decimal `coeff * 10^-n` stands for, if it has at most
/// four significant fractional places, fits the range and has no more
/// digits than a literal can carry.
pub open spec fn amount_of_decimal(coeff: int, n: nat) -> Option<TxAmount> {
    if n > MAX_LITERAL_FRAC_DIGITS {
        None
    } else {
        match units_of_decimal(coeff, n) {
            Some(u) => if in_amount_range(u) {
                Some(TxAmount(u as i64))
            } else {
                None
            },
            None => None,
        }
    }
}

/// Whether `r` is the error that rejects the amount text `s`.
pub open spec fn is_invalid_amount<T>(r: Result<T, ParseError>, s: Seq<char>) -> bool {
    match r {
        Err(ParseError::InvalidAmount(t)) => t@ == s,
        _ => false,
    }
}

/// The coefficient and the number of fractional digits of a decimal literal,
/// as fpdec reads it; `None` where it reads no number.
pub uninterp spec fn decimal_literal(s: Seq<char>) -> Option<(int, int)>;

/// The character of the decimal digit `d`.
pub open spec fn digit_char(d: int) -> char {
    if d == 0 {
        '0'
    } else if d == 1 {
        '1'
    } else if d == 2 {
        '2'
    } else if d == 3 {
        '3'
    } else if d == 4 {
        '4'
    } else if d == 5 {
        '5'
    } else if d == 6 {
        '6'
    } else if d == 7 {
        '7'
    } else if d == 8 {
        '8'
    } else {
        '9'
    }
}

/// The decimal digits of `n`, most significant first, without leading zeros
/// (`"0"` for zero).
pub open spec fn decimal_digits(n: nat) -> Seq<char>
    decreases n,
{
    if n < 10 {
        seq![digit_char(n as int)]
    } else {
        decimal_digits(n / 10).push(digit_char((n % 10) as int))
    }
}

/// The text of `u` ten-thousandths: a minus sign for a negative value, the
/// integer part, a point, and exactly four fractional digits.
pub open spec fn four_place_text(u: int) -> Seq<char> {
    let m = abs(u);
    let f = m % 10000;
    let sign = if u < 0 {
        seq!['-']
    } else {
        Seq::<char>::empty()
    };
    sign + decimal_digits((m / 10000) as nat) + seq![
        '.',
        digit_char(f / 1000),
        digit_char(f / 100 % 10),
        digit_char(f / 10 % 10),
        digit_char(f % 10),
    ]
}

/// The amount that the text `s` stands for, if any.
pub open spec fn parsed_amount(s: Seq<char>) -> Option<TxAmount> {
    match decimal_literal(s) {
        Some((c, n)) => if n >= 0 {
            amount_of_decimal(c, n as nat)
        } else {
            None
        },
        None => None,
    }
}

/// Relies on `<fpdec::Decimal as FromStr>::from_str`: the parsed coefficient
/// and number of fractional digits, which that function bounds by 18.
#[verifier::external_body]
fn parse_decimal(s: &str) -> (r: Option<(i128, u8)>)
    ensures
        match r {
            Some((c, n)) => decimal_literal(s@) == Some((c as int, n as int)) && n
                <= MAX_LITERAL_FRAC_DIGITS,
            None => decimal_literal(s@) is None,
        },
{
    match <fpdec::Decimal as std::str::FromStr>::from_str(s) {
        Ok(d) => Some((d.coefficient(), d.n_frac_digits())),
        Err(_) => None,
    }
}

/// Relies on `fpdec::Decimal::new_raw` and fpdec's `Display` for `Decimal`:
/// with four fractional digits and no precision asked for, the integer and
/// fractional parts of the absolute value, the latter zero-padded to four
/// places, and a minus sign before a negative value. Rendering takes the
/// absolute value of the coefficient, which `i128::MIN` does not have.
#[verifier::external_body]
fn display_decimal(coeff: i128, n: u8) -> (r: String)
    requires
        n == 4,
        coeff != i128::MIN,
    ensures
        r@ == four_place_text(coeff as int),
{
    fpdec::Decimal::new_raw(coeff, n).to_string()
}

proof fn lemma_pow10_monotonic(i: nat, j: nat)
    requires
        i <= j,
    ensures
        0 < pow10(i) <= pow10(j),
    decreases j,
{
    if i < j {
        lemma_pow10_monotonic(i, (j - 1) as nat);
    } else {
        lemma_pow10_positive(i);
    }
}

proof fn lemma_pow10_positive(i: nat)
    ensures
        pow10(i) > 0,
    decreases i,
{
    if i > 0 {
        lemma_pow10_positive((i - 1) as nat);
    }
}

/// `10^k`, for the exponents that amount conversion needs.
fn pow10_u128(k: u8) -> (r: u128)
    requires
        k <= 14,
    ensures
        r == pow10(k as nat),
{
    proof {
        reveal_with_fuel(pow10, 15);
        lemma_pow10_monotonic(k as nat, 14);
    }
    let mut p: u128 = 1;
    let mut i: u8 = 0;
    while i < k
        invariant
            i <= k <= 14,
            p == pow10(i as nat),
            pow10(14) == 100000000000000,
        decreases k - i,
    {
        proof {
            lemma_pow10_monotonic((i + 1) as nat, 14);
        }
        p = p * 10;
        i = i + 1;
    }
    p
}

impl TxAmount {
    /// The amount zero.
    pub fn zero() -> (r: TxAmount)
        ensures
            r@ == 0,
    {
        TxAmount(0)
    }

    /// `self + rhs`, or `None` where the sum leaves the range.
    pub fn checked_add(self, rhs: TxAmount) -> (r: Option<TxAmount>)
        ensures
            match r {
                Some(s) => in_amount_range(self@ + rhs@) && s@ == self@ + rhs@,
                None => !in_amount_range(self@ + rhs@),
            },
    {
        let s: i128 = self.0 as i128 + rhs.0 as i128;
        if s < i64::MIN as i128 || s > i64::MAX as i128 {
            None
        } else {
            Some(TxAmount(s as i64))
        }
    }

    /// `self - rhs`, or `None` where the difference leaves the range.
    pub fn checked_sub(self, rhs: TxAmount) -> (r: Option<TxAmount>)
        ensures
            match r {
                Some(s) => in_amount_range(self@ - rhs@) && s@ == self@ - rhs@,
                None => !in_amount_range(self@ - rhs@),
            },
    {
        let s: i128 = self.0 as i128 - rhs.0 as i128;
        if s < i64::MIN as i128 || s > i64::MAX as i128 {
            None
        } else {
            Some(TxAmount(s as i64))
        }
    }

    /// `-self`, or `None` for the one amount whose negation leaves the range.
    pub fn checked_neg(self) -> (r: Option<TxAmount>)
        ensures
            match r {
                Some(s) => in_amount_range(-self@) && s@ == -self@,
                None => !in_amount_range(-self@),
            },
    {
        if self.0 == i64::MIN {
            None
        } else {
            Some(TxAmount(-self.0))
        }
    }

    /// The amount that fpdec's coefficient and fractional-digit count stand
    /// for: `None` where the value has more than four significant
    /// fractional places, leaves the range, or has more than 18 digits.
    pub fn from_decimal_parts(coeff: i128, n_frac_digits: u8) -> (r: Option<TxAmount>)
        ensures
            r == amount_of_decimal(coeff as int, n_frac_digits as nat),
    {
        if n_frac_digits > MAX_LITERAL_FRAC_DIGITS {
            return None;
        }
        if n_frac_digits <= FRAC_DIGITS {
            let p = pow10_u128(FRAC_DIGITS - n_frac_digits);
            assert(pow10(4) == 10000) by {
                reveal_with_fuel(pow10, 5);
            }
            proof {
                lemma_pow10_monotonic((4 - n_frac_digits) as nat, 4);
            }
            if coeff > i64::MAX as i128 || coeff < i64::MIN as i128 {
                assert(!in_amount_range(coeff * p)) by (nonlinear_arith)
                    requires
                        coeff > i64::MAX || coeff < i64::MIN,
                        1 <= p,
                ;
                return None;
            }
            assert(i128::MIN <= coeff * p <= i128::MAX) by (nonlinear_arith)
                requires
                    i64::MIN <= coeff <= i64::MAX,
                    1 <= p <= 10000,
            ;
            let u: i128 = coeff * (p as i128);
            if u < i64::MIN as i128 || u > i64::MAX as i128 {
                None
            } else {
                Some(TxAmount(u as i64))
            }
        } else {
            let p = pow10_u128(n_frac_digits - FRAC_DIGITS);
            proof {
                lemma_pow10_positive((n_frac_digits - 4) as nat);
            }
            let m: u128 = if coeff < 0 {
                (-(coeff + 1)) as u128 + 1
            } else {
                coeff as u128
            };
            assert(m == abs(coeff as int));
            if m % p != 0 {
                return None;
            }
            let q: u128 = m / p;
            if coeff < 0 {
                if q > 9223372036854775808 {
                    None
                } else if q == 9223372036854775808 {
                    Some(TxAmount(i64::MIN))
                } else {
                    Some(TxAmount(-(q as i64)))
                }
            } else {
                if q > i64::MAX as u128 {
                    None
                } else {
                    Some(TxAmount(q as i64))
                }
            }
        }
    }

    /// Reads a decimal literal (through fpdec) as an amount.
    pub fn parse(s: &str) -> (r: Result<TxAmount, ParseError>)
        ensures
            match parsed_amount(s@) {
                Some(a) => r == Ok::<TxAmount, ParseError>(a),
                None => is_invalid_amount(r, s@),
            },
    {
        match parse_decimal(s) {
            Some((c, n)) => match TxAmount::from_decimal_parts(c, n) {
                Some(a) => Ok(a),
                None => Err(ParseError::InvalidAmount(s.to_owned())),
            },
            None => Err(ParseError::InvalidAmount(s.to_owned())),
        }
    }

    /// The decimal text of the amount, with its four fractional places.
    pub fn render(&self) -> (r: String)
        ensures
            r@ == four_place_text(self@),
    {
        display_decimal(self.0 as i128, FRAC_DIGITS)
    }
}

} // verus!
