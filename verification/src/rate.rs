//! Non-negative fixed-point numbers with 18 decimal places.
//!
//! Rates, advance rates, write-off percentages and accrual factors are all
//! quotients `units / RATE_ONE`. Every operation is checked: a computation
//! whose 256-bit intermediate product does not fit in 128 bits yields `None`,
//! which callers surface as [`crate::Error::ArithmeticOverflow`].

use vstd::prelude::*;

verus! {

/// Number of fixed-point units in the value one.
pub const RATE_ONE: u128 = 1_000_000_000_000_000_000;

/// Seconds in a 365-day year, used to turn an annual rate into a per-second
/// compounding factor.
pub const SECONDS_PER_YEAR: u64 = 31_536_000;

/// A non-negative fixed-point number: the denoted value is `units / RATE_ONE`.
#[derive(Clone, Copy, Debug, PartialEq, Eq, Structural)]
pub struct Rate {
    pub units: u128,
}

impl Rate {
    /// The fixed-point representation of one.
    pub open spec fn spec_one() -> Rate {
        Rate { units: RATE_ONE }
    }

    /// The fixed-point representation of zero.
    pub open spec fn spec_zero() -> Rate {
        Rate { units: 0 }
    }

    /// True when the rate denotes a value in the closed interval [0, 1].
    pub open spec fn is_fraction(self) -> bool {
        self.units <= RATE_ONE
    }

    pub fn one() -> (r: Rate)
        ensures
            r == Rate::spec_one(),
    {
        Rate { units: RATE_ONE }
    }

    pub fn zero() -> (r: Rate)
        ensures
            r == Rate::spec_zero(),
    {
        Rate { units: 0 }
    }

    /// Builds a rate directly from its fixed-point units.
    pub fn from_units(units: u128) -> (r: Rate)
        ensures
            r.units == units,
    {
        Rate { units }
    }
}

/// `amount * rate`, rounded down; `None` when the intermediate product
/// overflows 128 bits.
pub open spec fn spec_mul_rate(amount: u128, rate: Rate) -> Option<u128> {
    if amount * rate.units <= u128::MAX {
        Some((amount * rate.units / (RATE_ONE as int)) as u128)
    } else {
        None
    }
}

pub fn mul_rate(amount: u128, rate: Rate) -> (r: Option<u128>)
    ensures
        r == spec_mul_rate(amount, rate),
{
    match amount.checked_mul(rate.units) {
        Some(product) => Some(product / RATE_ONE),
        None => None,
    }
}

/// `amount / rate`, rounded down; `None` when the rate is zero or the
/// intermediate product overflows 128 bits.
pub open spec fn spec_div_rate(amount: u128, rate: Rate) -> Option<u128> {
    if rate.units == 0 {
        None
    } else if amount * RATE_ONE <= u128::MAX {
        Some((amount * RATE_ONE / (rate.units as int)) as u128)
    } else {
        None
    }
}

pub fn div_rate(amount: u128, rate: Rate) -> (r: Option<u128>)
    ensures
        r == spec_div_rate(amount, rate),
{
    if rate.units == 0 {
        return None;
    }
    match amount.checked_mul(RATE_ONE) {
        Some(product) => Some(product / rate.units),
        None => None,
    }
}

/// The product of two rates, rounded down; `None` when the intermediate
/// product overflows 128 bits.
pub open spec fn spec_rate_mul(a: Rate, b: Rate) -> Option<Rate> {
    if a.units * b.units <= u128::MAX {
        Some(Rate { units: (a.units * b.units / (RATE_ONE as int)) as u128 })
    } else {
        None
    }
}

pub fn rate_mul(a: Rate, b: Rate) -> (r: Option<Rate>)
    ensures
        r == spec_rate_mul(a, b),
{
    match a.units.checked_mul(b.units) {
        Some(product) => Some(Rate { units: product / RATE_ONE }),
        None => None,
    }
}

/// `base` raised to `exp` by binary exponentiation, every intermediate
/// product checked; `None` as soon as one of them overflows 128 bits.
pub open spec fn spec_rate_pow(base: Rate, exp: nat) -> Option<Rate>
    decreases exp,
{
    if exp == 0 {
        Some(Rate { units: RATE_ONE })
    } else if exp == 1 {
        Some(base)
    } else {
        match spec_rate_mul(base, base) {
            Some(sq) => match spec_rate_pow(sq, exp / 2) {
                Some(p) => if exp % 2 == 0 {
                    Some(p)
                } else {
                    spec_rate_mul(base, p)
                },
                None => None,
            },
            None => None,
        }
    }
}

pub fn rate_pow(base: Rate, exp: u64) -> (r: Option<Rate>)
    ensures
        r == spec_rate_pow(base, exp as nat),
    decreases exp,
{
    if exp == 0 {
        Some(Rate { units: RATE_ONE })
    } else if exp == 1 {
        Some(base)
    } else {
        match rate_mul(base, base) {
            Some(sq) => match rate_pow(sq, exp / 2) {
                Some(p) => if exp % 2 == 0 {
                    Some(p)
                } else {
                    rate_mul(base, p)
                },
                None => None,
            },
            None => None,
        }
    }
}

/// The per-second compounding factor `1 + rate_per_year / SECONDS_PER_YEAR`,
/// rounded down; `None` when it overflows 128 bits.
pub open spec fn spec_per_second_factor(rate_per_year: Rate) -> Option<Rate> {
    if (rate_per_year.units as int) / (SECONDS_PER_YEAR as int) + RATE_ONE <= u128::MAX {
        Some(Rate { units: ((rate_per_year.units as int) / (SECONDS_PER_YEAR as int) + RATE_ONE) as u128 })
    } else {
        None
    }
}

pub fn per_second_factor(rate_per_year: Rate) -> (r: Option<Rate>)
    ensures
        r == spec_per_second_factor(rate_per_year),
{
    let per_second: u128 = rate_per_year.units / (SECONDS_PER_YEAR as u128);
    match per_second.checked_add(RATE_ONE) {
        Some(units) => Some(Rate { units }),
        None => None,
    }
}

} // verus!
