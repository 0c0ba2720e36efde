//! Collateralized loan accounting for a lending pool.
//!
//! The crate keeps the books of a single pool: loan origination, borrowing,
//! repayment, interest accrual against externally supplied rate references,
//! write-off on default, governance-gated mutations, and portfolio valuation.
//! All balances are plain `u128` amounts; fractional quantities (rates,
//! percentages) are fixed-point numbers from [`rate`].

#![verifier::loop_isolation(false)]

use vstd::prelude::*;

pub mod changes;
pub mod investments;
pub mod ledger;
pub mod loan;
pub mod policy;
pub mod rate;

verus! {

/// An instant or a duration, in seconds.
pub type Seconds = u64;

/// Why an operation on the pool ledger was refused.
///
/// No operation that returns an error changes any state.
#[derive(Clone, Copy, Debug, PartialEq, Eq, Structural)]
pub enum Error {
    /// The loan id is not present in this pool, or the operation needs an
    /// active loan and the loan was never borrowed against.
    LoanNotFound,
    /// A fixed maturity does not lie strictly in the future at creation time,
    /// or a valuation method that discounts from maturity was given no
    /// maturity at all.
    InvalidMaturity,
    /// The collateral reference is already attached to another loan of the
    /// pool.
    CollateralAlreadyUsed,
    /// The requested amount would push the loan beyond what its max-borrow
    /// policy allows.
    BorrowLimitExceeded,
    /// Borrowing is restricted to loans that are not written off, and this
    /// loan is written off.
    LoanWrittenOff,
    /// The repaid principal exceeds the outstanding principal and the repay
    /// restriction does not tolerate excess.
    RepayAmountTooHigh,
    /// No rule of the current write-off policy is triggered by the loan's
    /// overdue duration.
    NoWriteOffRuleApplies,
    /// The requested write-off terms are less punitive than what the policy
    /// would currently compute.
    AdminWriteOffLessThanPolicy,
    /// The loan still has outstanding principal or uncollected interest.
    LoanNotFullyRepaid,
    /// The change id does not name a noted change of this pool.
    ChangeNotFound,
    /// The governance delay since noting has not elapsed yet.
    ChangeNotReady,
    /// The change was already applied; a change is single-use.
    ChangeAlreadyApplied,
    /// No accrual reference for the loan's interest rate has been consumed
    /// from the rate basis registry.
    RateNotRegistered,
    /// No price has been recorded for the loan's price feed identifier.
    PriceNotRegistered,
    /// The policy holds more rules than the configured bound.
    TooManyWriteOffRules,
    /// A rule's percentage or penalty lies outside [0, 1].
    InvalidWriteOffRule,
    /// The mutation does not apply to the loan's pricing variant.
    InvalidMutation,
    /// A pricing parameter lies outside its domain: an advance rate or
    /// default parameter above one, or an interest rate too large to carry a
    /// penalty.
    InvalidPricing,
    /// The change id names a change of another kind than the operation
    /// applies.
    UnrelatedChange,
    /// A checked fixed-point or balance computation does not fit in 128 bits.
    ArithmeticOverflow,
}

} // verus!
