//! Loan descriptors and the per-loan ledger arithmetic.
//!
//! A [`LoanInfo`] describes a loan before activation; the first borrow turns
//! it into an [`ActiveLoan`], whose entry keeps exact integer totals
//! (borrowed, repaid) and, for internally priced loans, a normalized debt:
//! the current debt divided by the accrual factor consumed from the rate
//! basis registry, so that `debt = normalized_debt * factor`.
//!
//! Every operation here is a pure function from the old entry to the new
//! one: the pool ledger commits the result only when the whole operation
//! succeeds, which keeps multi-leg operations atomic.

use vstd::prelude::*;

use crate::Error;
use crate::Seconds;
use crate::policy::WriteOffStatus;
use crate::rate::{Rate, RATE_ONE, spec_mul_rate, spec_div_rate, spec_rate_mul, spec_rate_pow,
    spec_per_second_factor, mul_rate, div_rate, rate_mul, rate_pow, per_second_factor};

verus! {

/// Seconds in one day, for overdue durations.
pub const SECONDS_PER_DAY: u64 = 86_400;

/// A collateral reference: collection and item of an externally owned asset.
/// The engine never mints or burns it, only locks it to at most one loan.
#[derive(Clone, Copy, Debug, PartialEq, Eq, Structural)]
pub struct CollateralRef {
    pub collection: u64,
    pub item: u64,
}

/// When the loan must be fully repaid.
#[derive(Clone, Copy, Debug, PartialEq, Eq, Structural)]
pub enum Maturity {
    /// A fixed instant; it must lie strictly in the future at creation time.
    Fixed { date: Seconds },
    /// No maturity: the loan is never overdue.
    Unbounded,
}

/// When interest payments are expected.
#[derive(Clone, Copy, Debug, PartialEq, Eq, Structural)]
pub enum InterestPayments {
    /// All interest is due in one bullet at maturity.
    OnceAtMaturity,
}

/// An optional principal pay-down schedule.
#[derive(Clone, Copy, Debug, PartialEq, Eq, Structural)]
pub enum PayDownSchedule {
    /// No schedule: repayment is applied principal-first on request.
    NoSchedule,
}

/// The repayment schedule of a loan.
#[derive(Clone, Copy, Debug, PartialEq, Eq, Structural)]
pub struct RepaymentSchedule {
    pub maturity: Maturity,
    pub interest_payments: InterestPayments,
    pub pay_down_schedule: PayDownSchedule,
}

/// How an interest rate compounds.
#[derive(Clone, Copy, Debug, PartialEq, Eq, Structural)]
pub enum CompoundingSchedule {
    /// Compounded every second.
    Secondly,
}

/// A fixed interest rate descriptor, resolved to accrual factors by the
/// external rate basis registry.
#[derive(Clone, Copy, Debug, PartialEq, Eq, Structural)]
pub struct InterestRate {
    pub rate_per_year: Rate,
    pub compounding: CompoundingSchedule,
}

/// The max-borrow policy of a pricing: what quantity the advance rate caps.
#[derive(Clone, Copy, Debug, PartialEq, Eq, Structural)]
pub enum MaxBorrowAmount {
    /// Caps the cumulative borrowed amount at `advance_rate * base`.
    UpToTotalBorrowed { advance_rate: Rate },
    /// Caps the current outstanding debt at `advance_rate * base`, so that
    /// repaying frees room to borrow again.
    UpToOutstandingDebt { advance_rate: Rate },
}

impl MaxBorrowAmount {
    pub open spec fn advance_rate(self) -> Rate {
        match self {
            MaxBorrowAmount::UpToTotalBorrowed { advance_rate } => advance_rate,
            MaxBorrowAmount::UpToOutstandingDebt { advance_rate } => advance_rate,
        }
    }
}

/// Parameters of the discounted-cash-flow valuation.
#[derive(Clone, Copy, Debug, PartialEq, Eq, Structural)]
pub struct DiscountedCashFlow {
    pub probability_of_default: Rate,
    pub loss_given_default: Rate,
    pub discount_rate: InterestRate,
}

/// How an internally priced loan is valued.
#[derive(Clone, Copy, Debug, PartialEq, Eq, Structural)]
pub enum ValuationMethod {
    /// Present value is the outstanding debt itself.
    OutstandingDebt,
    /// Present value is the risk-adjusted debt discounted from maturity.
    DiscountedCashFlow(DiscountedCashFlow),
}

/// Pricing against an external collateral valuation.
#[derive(Clone, Copy, Debug, PartialEq, Eq, Structural)]
pub struct InternalPricing {
    /// The external valuation of the collateral, in pool currency.
    pub collateral_value: u128,
    pub max_borrow_amount: MaxBorrowAmount,
    pub valuation_method: ValuationMethod,
}

/// Pricing against a registered price feed: amounts are quantities of the
/// underlying asset and the debt is `quantity * latest price`.
#[derive(Clone, Copy, Debug, PartialEq, Eq, Structural)]
pub struct ExternalPricing {
    /// Identifier of the registered price feed.
    pub price_id: u64,
    /// The maximum borrowable quantity of the underlying asset.
    pub max_borrow_quantity: u128,
    pub max_borrow_amount: MaxBorrowAmount,
}

/// The two valuation strategies.
#[derive(Clone, Copy, Debug, PartialEq, Eq, Structural)]
pub enum Pricing {
    Internal(InternalPricing),
    External(ExternalPricing),
}

/// When borrowing is allowed.
#[derive(Clone, Copy, Debug, PartialEq, Eq, Structural)]
pub enum BorrowRestrictions {
    /// Borrowing is refused while the loan is written off.
    NotWrittenOff,
    /// No restriction.
    Unrestricted,
}

/// When repaying is allowed.
///
/// The repaid interest is always clamped to the interest owed. For the
/// principal the two policies differ on excess: `Unrestricted` ignores the
/// part of the input beyond the outstanding principal (it is neither moved
/// nor recorded), `NoExcess` refuses the whole repayment instead.
#[derive(Clone, Copy, Debug, PartialEq, Eq, Structural)]
pub enum RepayRestrictions {
    Unrestricted,
    NoExcess,
}

/// The restriction flags of a loan.
#[derive(Clone, Copy, Debug, PartialEq, Eq, Structural)]
pub struct LoanRestrictions {
    pub borrows: BorrowRestrictions,
    pub repayments: RepayRestrictions,
}

/// The pre-activation descriptor of a loan. Immutable once active, except
/// through the change proposal gateway.
#[derive(Clone, Copy, Debug, PartialEq, Eq, Structural)]
pub struct LoanInfo {
    pub schedule: RepaymentSchedule,
    pub collateral: CollateralRef,
    pub interest_rate: InterestRate,
    pub pricing: Pricing,
    pub restrictions: LoanRestrictions,
}

impl LoanInfo {
    /// Static validity: advance rates and default parameters lie in [0, 1],
    /// the interest rate leaves room for a penalty, and a valuation that
    /// discounts from maturity has one.
    pub open spec fn wf(self) -> bool {
        &&& self.pricing.max_borrow_amount().advance_rate().is_fraction()
        &&& self.interest_rate.rate_per_year.units <= u128::MAX - RATE_ONE
        &&& match self.pricing {
            Pricing::Internal(ip) => match ip.valuation_method {
                ValuationMethod::DiscountedCashFlow(dcf) => {
                    &&& dcf.probability_of_default.is_fraction()
                    &&& dcf.loss_given_default.is_fraction()
                    &&& self.schedule.maturity is Fixed
                },
                ValuationMethod::OutstandingDebt => true,
            },
            Pricing::External(_) => true,
        }
    }
}

impl LoanInfo {
    /// Runtime check of [`LoanInfo::wf`].
    pub fn is_valid(&self) -> (b: bool)
        ensures
            b == self.wf(),
    {
        let advance_rate = match self.pricing {
            Pricing::Internal(ip) => match ip.max_borrow_amount {
                MaxBorrowAmount::UpToTotalBorrowed { advance_rate } => advance_rate,
                MaxBorrowAmount::UpToOutstandingDebt { advance_rate } => advance_rate,
            },
            Pricing::External(ep) => match ep.max_borrow_amount {
                MaxBorrowAmount::UpToTotalBorrowed { advance_rate } => advance_rate,
                MaxBorrowAmount::UpToOutstandingDebt { advance_rate } => advance_rate,
            },
        };
        if advance_rate.units > RATE_ONE {
            return false;
        }
        if self.interest_rate.rate_per_year.units > u128::MAX - RATE_ONE {
            return false;
        }
        match self.pricing {
            Pricing::Internal(ip) => match ip.valuation_method {
                ValuationMethod::DiscountedCashFlow(dcf) => {
                    dcf.probability_of_default.units <= RATE_ONE
                        && dcf.loss_given_default.units <= RATE_ONE
                        && matches!(self.schedule.maturity, Maturity::Fixed { .. })
                },
                ValuationMethod::OutstandingDebt => true,
            },
            Pricing::External(_) => true,
        }
    }
}

impl Pricing {
    pub open spec fn max_borrow_amount(self) -> MaxBorrowAmount {
        match self {
            Pricing::Internal(ip) => ip.max_borrow_amount,
            Pricing::External(ep) => ep.max_borrow_amount,
        }
    }
}

/// The write-off state of an active loan.
#[derive(Clone, Copy, Debug, PartialEq, Eq, Structural)]
pub enum WriteOffState {
    /// The loan is not written off.
    NotWrittenOff,
    /// Written off with the terms of the policy rule that applied.
    WrittenOffByPolicy(WriteOffStatus),
    /// Written off with administrator-chosen terms.
    WrittenOffByAdmin(WriteOffStatus),
}

impl WriteOffState {
    pub open spec fn is_written_off(self) -> bool {
        !(self is NotWrittenOff)
    }

    /// The current terms; zero for a loan that is not written off.
    pub open spec fn spec_status(self) -> WriteOffStatus {
        match self {
            WriteOffState::NotWrittenOff => WriteOffStatus {
                percentage: Rate::spec_zero(),
                penalty: Rate::spec_zero(),
            },
            WriteOffState::WrittenOffByPolicy(s) => s,
            WriteOffState::WrittenOffByAdmin(s) => s,
        }
    }

    pub open spec fn wf(self) -> bool {
        self.spec_status().wf()
    }

    pub fn status(&self) -> (s: WriteOffStatus)
        ensures
            s == self.spec_status(),
    {
        match self {
            WriteOffState::NotWrittenOff => WriteOffStatus {
                percentage: Rate { units: 0 },
                penalty: Rate { units: 0 },
            },
            WriteOffState::WrittenOffByPolicy(s) => *s,
            WriteOffState::WrittenOffByAdmin(s) => *s,
        }
    }
}

/// The effective repaid amounts of one repayment, after clamping.
#[derive(Clone, Copy, Debug, PartialEq, Eq, Structural)]
pub struct RepaidSummary {
    pub principal: u128,
    pub interest: u128,
    pub unscheduled: u128,
}

/// The ledger entry of an active loan.
#[derive(Clone, Copy, Debug, PartialEq, Eq, Structural)]
pub struct ActiveLoan {
    pub loan_id: u64,
    pub info: LoanInfo,
    /// The instant of first borrow.
    pub origination: Seconds,
    pub write_off: WriteOffState,
    /// Cumulative principal drawn, including administrative debt increases.
    /// For externally priced loans all principal amounts are quantities of
    /// the underlying asset.
    pub total_borrowed: u128,
    pub total_repaid_principal: u128,
    pub total_repaid_interest: u128,
    pub total_repaid_unscheduled: u128,
    /// Internally priced loans only: current debt divided by the accrual
    /// factor of the loan's interest rate, so that reading the debt at a
    /// newer factor compounds the interest. Zero for external pricing.
    pub normalized_debt: u128,
}

impl ActiveLoan {
    pub open spec fn wf(self) -> bool {
        &&& self.info.wf()
        &&& self.write_off.wf()
        &&& self.total_repaid_principal <= self.total_borrowed
        &&& self.info.pricing is External ==> self.normalized_debt == 0
    }

    /// Principal still owed: what was drawn and not yet repaid.
    pub open spec fn spec_outstanding_principal(self) -> int {
        self.total_borrowed - self.total_repaid_principal
    }

    pub fn outstanding_principal(&self) -> (p: u128)
        requires
            self.wf(),
        ensures
            p == self.spec_outstanding_principal(),
    {
        self.total_borrowed - self.total_repaid_principal
    }

    /// The descriptor under which the loan currently accrues interest: the
    /// contractual rate plus the write-off penalty.
    pub open spec fn spec_accrual_rate(self) -> InterestRate {
        InterestRate {
            rate_per_year: Rate {
                units: (self.info.interest_rate.rate_per_year.units
                    + self.write_off.spec_status().penalty.units) as u128,
            },
            compounding: self.info.interest_rate.compounding,
        }
    }

    pub fn accrual_rate(&self) -> (r: InterestRate)
        requires
            self.wf(),
        ensures
            r == self.spec_accrual_rate(),
    {
        InterestRate {
            rate_per_year: Rate {
                units: self.info.interest_rate.rate_per_year.units
                    + self.write_off.status().penalty.units,
            },
            compounding: self.info.interest_rate.compounding,
        }
    }

    /// The current debt of an internally priced loan at the given accrual
    /// factor; `None` when the product overflows.
    pub open spec fn spec_debt(self, factor: Rate) -> Option<u128> {
        spec_mul_rate(self.normalized_debt, factor)
    }

    pub fn debt(&self, factor: Rate) -> (d: Option<u128>)
        ensures
            d == self.spec_debt(factor),
    {
        mul_rate(self.normalized_debt, factor)
    }

    /// Days the principal is overdue at `now`: zero before maturity or
    /// without one.
    pub open spec fn spec_overdue_days(self, now: Seconds) -> u64 {
        match self.info.schedule.maturity {
            Maturity::Fixed { date } => if now > date {
                (((now - date) as u64) / SECONDS_PER_DAY) as u64
            } else {
                0
            },
            Maturity::Unbounded => 0,
        }
    }

    pub fn overdue_days(&self, now: Seconds) -> (d: u64)
        ensures
            d == self.spec_overdue_days(now),
    {
        match self.info.schedule.maturity {
            Maturity::Fixed { date } => if now > date {
                (now - date) / SECONDS_PER_DAY
            } else {
                0
            },
            Maturity::Unbounded => 0,
        }
    }

    /// The fresh ledger entry of a loan activated at `now`: nothing borrowed
    /// or repaid yet.
    pub open spec fn spec_activate(loan_id: u64, info: LoanInfo, now: Seconds) -> ActiveLoan {
        ActiveLoan {
            loan_id,
            info,
            origination: now,
            write_off: WriteOffState::NotWrittenOff,
            total_borrowed: 0,
            total_repaid_principal: 0,
            total_repaid_interest: 0,
            total_repaid_unscheduled: 0,
            normalized_debt: 0,
        }
    }

    pub fn activate(loan_id: u64, info: LoanInfo, now: Seconds) -> (l: ActiveLoan)
        requires
            info.wf(),
        ensures
            l == ActiveLoan::spec_activate(loan_id, info, now),
            l.wf(),
            l.spec_outstanding_principal() == 0,
    {
        ActiveLoan {
            loan_id,
            info,
            origination: now,
            write_off: WriteOffState::NotWrittenOff,
            total_borrowed: 0,
            total_repaid_principal: 0,
            total_repaid_interest: 0,
            total_repaid_unscheduled: 0,
            normalized_debt: 0,
        }
    }
}

impl ActiveLoan {
    /// The cap the max-borrow policy puts on the governing quantity:
    /// `advance_rate * collateral_value` for internal pricing,
    /// `advance_rate * max_borrow_quantity` for external pricing.
    pub open spec fn spec_borrow_limit(self) -> Option<u128> {
        match self.info.pricing {
            Pricing::Internal(ip) => spec_mul_rate(
                ip.collateral_value,
                ip.max_borrow_amount.advance_rate(),
            ),
            Pricing::External(ep) => spec_mul_rate(
                ep.max_borrow_quantity,
                ep.max_borrow_amount.advance_rate(),
            ),
        }
    }

    /// What already counts against the cap: the cumulative borrowed amount
    /// under `UpToTotalBorrowed`, the current outstanding debt under
    /// `UpToOutstandingDebt`.
    pub open spec fn spec_borrow_used(self, factor: Rate) -> Option<u128> {
        match self.info.pricing.max_borrow_amount() {
            MaxBorrowAmount::UpToTotalBorrowed { .. } => Some(self.total_borrowed),
            MaxBorrowAmount::UpToOutstandingDebt { .. } => match self.info.pricing {
                Pricing::Internal(_) => self.spec_debt(factor),
                Pricing::External(_) => Some(self.spec_outstanding_principal() as u128),
            },
        }
    }

    /// Why a borrow of `amount` at accrual factor `factor` is refused, or
    /// `None` when it goes through.
    pub open spec fn spec_borrow_error(self, amount: u128, factor: Rate) -> Option<Error> {
        if self.info.restrictions.borrows is NotWrittenOff && self.write_off.is_written_off() {
            Some(Error::LoanWrittenOff)
        } else {
            match self.spec_borrow_used(factor) {
                None => Some(Error::ArithmeticOverflow),
                Some(used) => match self.spec_borrow_limit() {
                    None => Some(Error::ArithmeticOverflow),
                    Some(limit) => if used + amount > limit {
                        Some(Error::BorrowLimitExceeded)
                    } else if self.total_borrowed + amount > u128::MAX {
                        Some(Error::ArithmeticOverflow)
                    } else {
                        match self.info.pricing {
                            Pricing::Internal(_) => match spec_div_rate(amount, factor) {
                                None => Some(Error::ArithmeticOverflow),
                                Some(inc) => if self.normalized_debt + inc > u128::MAX {
                                    Some(Error::ArithmeticOverflow)
                                } else {
                                    None
                                },
                            },
                            Pricing::External(_) => None,
                        }
                    },
                },
            }
        }
    }

    /// The entry after a successful borrow: the drawn amount is added to the
    /// cumulative principal, and for internal pricing the normalized debt
    /// grows by `amount / factor`.
    pub open spec fn spec_borrowed(self, amount: u128, factor: Rate) -> ActiveLoan {
        ActiveLoan {
            total_borrowed: (self.total_borrowed + amount) as u128,
            normalized_debt: match self.info.pricing {
                Pricing::Internal(_) => (self.normalized_debt
                    + spec_div_rate(amount, factor)->Some_0) as u128,
                Pricing::External(_) => self.normalized_debt,
            },
            ..self
        }
    }

    /// Draws `amount` more principal against the loan, under the pricing
    /// model's max-borrow policy and the borrow restrictions.
    pub fn apply_borrow(&self, amount: u128, factor: Rate) -> (r: Result<ActiveLoan, Error>)
        requires
            self.wf(),
        ensures
            match r {
                Ok(nl) => {
                    &&& self.spec_borrow_error(amount, factor) is None
                    &&& nl == self.spec_borrowed(amount, factor)
                    &&& nl.wf()
                },
                Err(e) => Some(e) == self.spec_borrow_error(amount, factor),
            },
    {
        if matches!(self.info.restrictions.borrows, BorrowRestrictions::NotWrittenOff)
            && !matches!(self.write_off, WriteOffState::NotWrittenOff) {
            return Err(Error::LoanWrittenOff);
        }
        let used: u128 = match self.info.pricing {
            Pricing::Internal(ip) => match ip.max_borrow_amount {
                MaxBorrowAmount::UpToTotalBorrowed { .. } => self.total_borrowed,
                MaxBorrowAmount::UpToOutstandingDebt { .. } => match self.debt(factor) {
                    Some(d) => d,
                    None => {
                        return Err(Error::ArithmeticOverflow);
                    },
                },
            },
            Pricing::External(ep) => match ep.max_borrow_amount {
                MaxBorrowAmount::UpToTotalBorrowed { .. } => self.total_borrowed,
                MaxBorrowAmount::UpToOutstandingDebt { .. } => self.outstanding_principal(),
            },
        };
        let limit: u128 = match self.info.pricing {
            Pricing::Internal(ip) => match mul_rate(
                ip.collateral_value,
                match ip.max_borrow_amount {
                    MaxBorrowAmount::UpToTotalBorrowed { advance_rate } => advance_rate,
                    MaxBorrowAmount::UpToOutstandingDebt { advance_rate } => advance_rate,
                },
            ) {
                Some(l) => l,
                None => {
                    return Err(Error::ArithmeticOverflow);
                },
            },
            Pricing::External(ep) => match mul_rate(
                ep.max_borrow_quantity,
                match ep.max_borrow_amount {
                    MaxBorrowAmount::UpToTotalBorrowed { advance_rate } => advance_rate,
                    MaxBorrowAmount::UpToOutstandingDebt { advance_rate } => advance_rate,
                },
            ) {
                Some(l) => l,
                None => {
                    return Err(Error::ArithmeticOverflow);
                },
            },
        };
        match used.checked_add(amount) {
            None => {
                return Err(Error::BorrowLimitExceeded);
            },
            Some(total) => if total > limit {
                return Err(Error::BorrowLimitExceeded);
            },
        }
        let total_borrowed = match self.total_borrowed.checked_add(amount) {
            Some(t) => t,
            None => {
                return Err(Error::ArithmeticOverflow);
            },
        };
        let normalized_debt: u128 = match self.info.pricing {
            Pricing::Internal(_) => {
                let inc = match div_rate(amount, factor) {
                    Some(i) => i,
                    None => {
                        return Err(Error::ArithmeticOverflow);
                    },
                };
                match self.normalized_debt.checked_add(inc) {
                    Some(n) => n,
                    None => {
                        return Err(Error::ArithmeticOverflow);
                    },
                }
            },
            Pricing::External(_) => self.normalized_debt,
        };
        Ok(ActiveLoan { total_borrowed, normalized_debt, ..*self })
    }
}

impl ActiveLoan {
    /// Interest currently owed by an internally priced loan at the given
    /// factor: the part of the debt beyond the outstanding principal.
    pub open spec fn spec_interest_owed(self, debt: u128) -> int {
        if debt > self.spec_outstanding_principal() {
            debt - self.spec_outstanding_principal()
        } else {
            0
        }
    }

    /// The effective amounts of a repayment, after clamping: the interest is
    /// clamped to the interest owed, the principal to the outstanding
    /// principal when the restriction tolerates excess. `debt` is the
    /// current debt (equal to the outstanding principal for external
    /// pricing, where no interest accrues).
    pub open spec fn spec_repaid_summary(self, principal: u128, interest: u128, unscheduled: u128, debt: u128) -> RepaidSummary {
        RepaidSummary {
            principal: if principal > self.spec_outstanding_principal() {
                self.spec_outstanding_principal() as u128
            } else {
                principal
            },
            interest: if interest > self.spec_interest_owed(debt) {
                self.spec_interest_owed(debt) as u128
            } else {
                interest
            },
            unscheduled,
        }
    }

    /// The debt a repayment is measured against: the current debt at the
    /// given factor for internal pricing, the outstanding quantity for
    /// external pricing (no interest accrues there).
    pub open spec fn spec_repay_basis_debt(self, factor: Rate) -> u128 {
        match self.info.pricing {
            Pricing::Internal(_) => self.spec_debt(factor)->Some_0,
            Pricing::External(_) => self.spec_outstanding_principal() as u128,
        }
    }

    /// Why a repayment is refused, or `None` when it goes through.
    pub open spec fn spec_repay_error(self, principal: u128, interest: u128, unscheduled: u128, factor: Rate) -> Option<Error> {
        match self.info.pricing {
            Pricing::Internal(_) => match self.spec_debt(factor) {
                None => Some(Error::ArithmeticOverflow),
                Some(debt) => if self.info.restrictions.repayments is NoExcess
                    && principal > self.spec_outstanding_principal() {
                    Some(Error::RepayAmountTooHigh)
                } else {
                    let eff = self.spec_repaid_summary(principal, interest, unscheduled, debt);
                    if self.total_repaid_interest + eff.interest > u128::MAX {
                        Some(Error::ArithmeticOverflow)
                    } else if self.total_repaid_unscheduled + unscheduled > u128::MAX {
                        Some(Error::ArithmeticOverflow)
                    } else {
                        match spec_div_rate((eff.principal + eff.interest) as u128, factor) {
                            None => Some(Error::ArithmeticOverflow),
                            Some(_) => None,
                        }
                    }
                },
            },
            Pricing::External(_) => if self.info.restrictions.repayments is NoExcess
                && principal > self.spec_outstanding_principal() {
                Some(Error::RepayAmountTooHigh)
            } else if self.total_repaid_unscheduled + unscheduled > u128::MAX {
                Some(Error::ArithmeticOverflow)
            } else {
                None
            },
        }
    }

    /// The entry after a successful repayment: the effective amounts are
    /// added to the repaid totals and, for internal pricing, the normalized
    /// debt shrinks by `(principal + interest) / factor`, saturating at
    /// zero.
    pub open spec fn spec_repaid(self, principal: u128, interest: u128, unscheduled: u128, factor: Rate) -> ActiveLoan {
        let debt = match self.info.pricing {
            Pricing::Internal(_) => self.spec_debt(factor)->Some_0,
            Pricing::External(_) => self.spec_outstanding_principal() as u128,
        };
        let eff = self.spec_repaid_summary(principal, interest, unscheduled, debt);
        let dec = spec_div_rate((eff.principal + eff.interest) as u128, factor)->Some_0;
        ActiveLoan {
            total_repaid_principal: (self.total_repaid_principal + eff.principal) as u128,
            total_repaid_interest: (self.total_repaid_interest + eff.interest) as u128,
            total_repaid_unscheduled: (self.total_repaid_unscheduled + unscheduled) as u128,
            normalized_debt: match self.info.pricing {
                Pricing::Internal(_) => if dec <= self.normalized_debt {
                    (self.normalized_debt - dec) as u128
                } else {
                    0
                },
                Pricing::External(_) => self.normalized_debt,
            },
            ..self
        }
    }

    /// Repays principal, interest and an unscheduled amount. Repayment is
    /// applied principal-first; the interest input is clamped to the
    /// interest owed, so passing the maximum balance collects all interest.
    pub fn apply_repay(&self, principal: u128, interest: u128, unscheduled: u128, factor: Rate)
        -> (r: Result<(ActiveLoan, RepaidSummary), Error>)
        requires
            self.wf(),
        ensures
            match r {
                Ok((nl, summary)) => {
                    &&& self.spec_repay_error(principal, interest, unscheduled, factor) is None
                    &&& nl == self.spec_repaid(principal, interest, unscheduled, factor)
                    &&& summary == self.spec_repaid_summary(
                        principal,
                        interest,
                        unscheduled,
                        match self.info.pricing {
                            Pricing::Internal(_) => self.spec_debt(factor)->Some_0,
                            Pricing::External(_) => self.spec_outstanding_principal() as u128,
                        },
                    )
                    &&& nl.wf()
                },
                Err(e) => Some(e) == self.spec_repay_error(principal, interest, unscheduled, factor),
            },
    {
        let outstanding = self.outstanding_principal();
        let debt: u128 = match self.info.pricing {
            Pricing::Internal(_) => match self.debt(factor) {
                Some(d) => d,
                None => {
                    return Err(Error::ArithmeticOverflow);
                },
            },
            Pricing::External(_) => outstanding,
        };
        if matches!(self.info.restrictions.repayments, RepayRestrictions::NoExcess)
            && principal > outstanding {
            return Err(Error::RepayAmountTooHigh);
        }
        let eff_principal = if principal > outstanding { outstanding } else { principal };
        let interest_owed = if debt > outstanding { debt - outstanding } else { 0 };
        let eff_interest: u128 = match self.info.pricing {
            Pricing::Internal(_) => if interest > interest_owed { interest_owed } else { interest },
            Pricing::External(_) => 0,
        };
        proof {
            if self.info.pricing is External {
                assert(self.spec_interest_owed(debt) == 0);
            }
        }
        let total_repaid_interest = match self.total_repaid_interest.checked_add(eff_interest) {
            Some(t) => t,
            None => {
                return Err(Error::ArithmeticOverflow);
            },
        };
        let total_repaid_unscheduled = match self.total_repaid_unscheduled.checked_add(unscheduled) {
            Some(t) => t,
            None => {
                return Err(Error::ArithmeticOverflow);
            },
        };
        let normalized_debt: u128 = match self.info.pricing {
            Pricing::Internal(_) => {
                let dec = match div_rate(eff_principal + eff_interest, factor) {
                    Some(d) => d,
                    None => {
                        return Err(Error::ArithmeticOverflow);
                    },
                };
                if dec <= self.normalized_debt {
                    self.normalized_debt - dec
                } else {
                    0
                }
            },
            Pricing::External(_) => self.normalized_debt,
        };
        let nl = ActiveLoan {
            total_repaid_principal: self.total_repaid_principal + eff_principal,
            total_repaid_interest,
            total_repaid_unscheduled,
            normalized_debt,
            ..*self
        };
        Ok((nl, RepaidSummary {
            principal: eff_principal,
            interest: eff_interest,
            unscheduled,
        }))
    }

    /// Why moving to the given write-off state is refused, or `None`: the
    /// only failure is overflow while the debt is re-normalized from the old
    /// accrual rate (with the old penalty) to the new one.
    pub open spec fn spec_write_off_error(self, factor_old: Rate, factor_new: Rate) -> Option<Error> {
        match self.info.pricing {
            Pricing::Internal(_) => match self.spec_debt(factor_old) {
                None => Some(Error::ArithmeticOverflow),
                Some(debt) => match spec_div_rate(debt, factor_new) {
                    None => Some(Error::ArithmeticOverflow),
                    Some(_) => None,
                },
            },
            Pricing::External(_) => None,
        }
    }

    /// The entry in the given write-off state: the debt read at the old
    /// accrual factor is carried over normalized to the new one, so the
    /// penalty takes effect only from now on.
    pub open spec fn spec_written_off(self, state: WriteOffState, factor_old: Rate, factor_new: Rate) -> ActiveLoan {
        ActiveLoan {
            write_off: state,
            normalized_debt: match self.info.pricing {
                Pricing::Internal(_) => spec_div_rate(
                    self.spec_debt(factor_old)->Some_0,
                    factor_new,
                )->Some_0,
                Pricing::External(_) => self.normalized_debt,
            },
            ..self
        }
    }

    /// Moves the loan to a write-off state. `factor_old` is the accrual
    /// factor of the current accrual rate, `factor_new` the one of the rate
    /// with the new penalty.
    pub fn apply_write_off(&self, state: WriteOffState, factor_old: Rate, factor_new: Rate)
        -> (r: Result<ActiveLoan, Error>)
        requires
            self.wf(),
            state.wf(),
        ensures
            match r {
                Ok(nl) => {
                    &&& self.spec_write_off_error(factor_old, factor_new) is None
                    &&& nl == self.spec_written_off(state, factor_old, factor_new)
                    &&& nl.wf()
                },
                Err(e) => Some(e) == self.spec_write_off_error(factor_old, factor_new),
            },
    {
        let normalized_debt: u128 = match self.info.pricing {
            Pricing::Internal(_) => {
                let debt = match self.debt(factor_old) {
                    Some(d) => d,
                    None => {
                        return Err(Error::ArithmeticOverflow);
                    },
                };
                match div_rate(debt, factor_new) {
                    Some(n) => n,
                    None => {
                        return Err(Error::ArithmeticOverflow);
                    },
                }
            },
            Pricing::External(_) => self.normalized_debt,
        };
        Ok(ActiveLoan { write_off: state, normalized_debt, ..*self })
    }

    /// Why the loan cannot be closed, or `None` when it can: closing needs
    /// zero outstanding principal and, for internal pricing, a debt of zero
    /// at the current factor (all accrued interest collected).
    pub open spec fn spec_close_error(self, factor: Rate) -> Option<Error> {
        if self.spec_outstanding_principal() != 0 {
            Some(Error::LoanNotFullyRepaid)
        } else {
            match self.info.pricing {
                Pricing::Internal(_) => match self.spec_debt(factor) {
                    None => Some(Error::ArithmeticOverflow),
                    Some(debt) => if debt > 0 {
                        Some(Error::LoanNotFullyRepaid)
                    } else {
                        None
                    },
                },
                Pricing::External(_) => None,
            }
        }
    }

    /// Checks that the loan may be closed.
    pub fn ensure_closable(&self, factor: Rate) -> (r: Result<(), Error>)
        requires
            self.wf(),
        ensures
            match r {
                Ok(()) => self.spec_close_error(factor) is None,
                Err(e) => Some(e) == self.spec_close_error(factor),
            },
    {
        if self.outstanding_principal() != 0 {
            return Err(Error::LoanNotFullyRepaid);
        }
        match self.info.pricing {
            Pricing::Internal(_) => match self.debt(factor) {
                Some(debt) => if debt > 0 {
                    Err(Error::LoanNotFullyRepaid)
                } else {
                    Ok(())
                },
                None => Err(Error::ArithmeticOverflow),
            },
            Pricing::External(_) => Ok(()),
        }
    }
}

/// The discounted-cash-flow value of a debt: the debt is first reduced by
/// the expected loss `probability_of_default * loss_given_default`, then
/// discounted from maturity at the discount rate, compounded secondly;
/// `None` when some intermediate product overflows.
pub open spec fn spec_dcf_value(debt: u128, dcf: DiscountedCashFlow, maturity_date: Seconds, now: Seconds) -> Option<u128> {
    match spec_rate_mul(dcf.probability_of_default, dcf.loss_given_default) {
        None => None,
        Some(el) => match spec_mul_rate(debt, Rate { units: (RATE_ONE - el.units) as u128 }) {
            None => None,
            Some(risk_adjusted) => if now < maturity_date {
                match spec_per_second_factor(dcf.discount_rate.rate_per_year) {
                    None => None,
                    Some(per_second) => match spec_rate_pow(per_second, (maturity_date - now) as nat) {
                        None => None,
                        Some(discount) => spec_div_rate(risk_adjusted, discount),
                    },
                }
            } else {
                Some(risk_adjusted)
            },
        },
    }
}

/// Exact twin of [`spec_dcf_value`].
pub fn dcf_value(debt: u128, dcf: DiscountedCashFlow, maturity_date: Seconds, now: Seconds) -> (r: Option<u128>)
    requires
        dcf.probability_of_default.is_fraction(),
        dcf.loss_given_default.is_fraction(),
    ensures
        r == spec_dcf_value(debt, dcf, maturity_date, now),
{
    let el = match rate_mul(dcf.probability_of_default, dcf.loss_given_default) {
        Some(el) => el,
        None => {
            return None;
        },
    };
    proof {
        assert(dcf.probability_of_default.units * dcf.loss_given_default.units
            <= RATE_ONE * RATE_ONE) by (nonlinear_arith)
            requires
                dcf.probability_of_default.units <= RATE_ONE,
                dcf.loss_given_default.units <= RATE_ONE,
        ;
        assert(el.units <= RATE_ONE) by (nonlinear_arith)
            requires
                el.units == dcf.probability_of_default.units * dcf.loss_given_default.units
                    / (RATE_ONE as int),
                dcf.probability_of_default.units * dcf.loss_given_default.units
                    <= RATE_ONE * RATE_ONE,
                RATE_ONE > 0,
        ;
    }
    let risk_adjusted = match mul_rate(debt, Rate { units: RATE_ONE - el.units }) {
        Some(v) => v,
        None => {
            return None;
        },
    };
    if now < maturity_date {
        let per_second = match per_second_factor(dcf.discount_rate.rate_per_year) {
            Some(p) => p,
            None => {
                return None;
            },
        };
        let discount = match rate_pow(per_second, maturity_date - now) {
            Some(d) => d,
            None => {
                return None;
            },
        };
        div_rate(risk_adjusted, discount)
    } else {
        Some(risk_adjusted)
    }
}

impl ActiveLoan {
    /// Present value of an internally priced loan at accrual factor
    /// `factor` and instant `now`: the debt, valued by the pricing's
    /// valuation method, scaled down by the written-off percentage; `None`
    /// when some intermediate product overflows.
    pub open spec fn spec_present_value_internal(self, factor: Rate, now: Seconds) -> Option<u128> {
        match self.spec_debt(factor) {
            None => None,
            Some(debt) => {
                let base = match self.info.pricing {
                    Pricing::Internal(ip) => match ip.valuation_method {
                        ValuationMethod::OutstandingDebt => Some(debt),
                        ValuationMethod::DiscountedCashFlow(dcf) => spec_dcf_value(
                            debt,
                            dcf,
                            self.info.schedule.maturity->date,
                            now,
                        ),
                    },
                    Pricing::External(_) => None,
                };
                match base {
                    None => None,
                    Some(b) => spec_mul_rate(
                        b,
                        Rate { units: (RATE_ONE - self.write_off.spec_status().percentage.units) as u128 },
                    ),
                }
            },
        }
    }

    pub fn present_value_internal(&self, factor: Rate, now: Seconds) -> (r: Option<u128>)
        requires
            self.wf(),
            self.info.pricing is Internal,
        ensures
            r == self.spec_present_value_internal(factor, now),
    {
        let debt = match self.debt(factor) {
            Some(d) => d,
            None => {
                return None;
            },
        };
        let base = match self.info.pricing {
            Pricing::Internal(ip) => match ip.valuation_method {
                ValuationMethod::OutstandingDebt => Some(debt),
                ValuationMethod::DiscountedCashFlow(dcf) => {
                    let maturity_date = match self.info.schedule.maturity {
                        Maturity::Fixed { date } => date,
                        Maturity::Unbounded => {
                            proof {
                                assert(false);
                            }
                            0
                        },
                    };
                    dcf_value(debt, dcf, maturity_date, now)
                },
            },
            Pricing::External(_) => {
                proof {
                    assert(false);
                }
                None
            },
        };
        match base {
            Some(b) => mul_rate(
                b,
                Rate { units: RATE_ONE - self.write_off.status().percentage.units },
            ),
            None => None,
        }
    }

    /// Present value of an externally priced loan: the outstanding quantity
    /// times the latest price, scaled down by the written-off percentage;
    /// `None` when a product overflows.
    pub open spec fn spec_present_value_external(self, price: u128) -> Option<u128> {
        if self.spec_outstanding_principal() * price > u128::MAX {
            None
        } else {
            spec_mul_rate(
                ((self.spec_outstanding_principal() * price) as u128),
                Rate { units: (RATE_ONE - self.write_off.spec_status().percentage.units) as u128 },
            )
        }
    }

    pub fn present_value_external(&self, price: u128) -> (r: Option<u128>)
        requires
            self.wf(),
            self.info.pricing is External,
        ensures
            r == self.spec_present_value_external(price),
    {
        let quantity = self.outstanding_principal();
        let value = match quantity.checked_mul(price) {
            Some(v) => v,
            None => {
                return None;
            },
        };
        mul_rate(value, Rate { units: RATE_ONE - self.write_off.status().percentage.units })
    }
}

/// A mutation of one field of an active loan, performed only through the
/// change proposal gateway.
#[derive(Clone, Copy, Debug, PartialEq, Eq, Structural)]
pub enum LoanMutation {
    /// Replaces the maturity.
    Maturity(Maturity),
    /// Replaces the yearly interest rate; the debt so far is carried over.
    InterestRate(Rate),
    /// Replaces the interest payment timing.
    InterestPayments(InterestPayments),
    /// Replaces the collateral valuation of an internally priced loan.
    CollateralValue(u128),
}

impl ActiveLoan {
    /// Why a mutation is refused, or `None` when it goes through. The two
    /// factors matter only when the interest rate of an internally priced
    /// loan changes: the debt is read at the old rate's factor and
    /// re-normalized to the new rate's.
    pub open spec fn spec_mutation_error(self, m: LoanMutation, now: Seconds, factor_old: Rate, factor_new: Rate) -> Option<Error> {
        match m {
            LoanMutation::Maturity(mat) => match mat {
                Maturity::Fixed { date } => if date <= now {
                    Some(Error::InvalidMaturity)
                } else {
                    None
                },
                Maturity::Unbounded => match self.info.pricing {
                    Pricing::Internal(ip) => if ip.valuation_method is DiscountedCashFlow {
                        Some(Error::InvalidMutation)
                    } else {
                        None
                    },
                    Pricing::External(_) => None,
                },
            },
            LoanMutation::InterestPayments(_) => None,
            LoanMutation::CollateralValue(_) => if self.info.pricing is Internal {
                None
            } else {
                Some(Error::InvalidMutation)
            },
            LoanMutation::InterestRate(r) => if r.units > u128::MAX - RATE_ONE {
                Some(Error::InvalidPricing)
            } else {
                match self.info.pricing {
                    Pricing::Internal(_) => match self.spec_debt(factor_old) {
                        None => Some(Error::ArithmeticOverflow),
                        Some(debt) => match spec_div_rate(debt, factor_new) {
                            None => Some(Error::ArithmeticOverflow),
                            Some(_) => None,
                        },
                    },
                    Pricing::External(_) => None,
                }
            },
        }
    }

    /// The entry after a successful mutation.
    pub open spec fn spec_mutated(self, m: LoanMutation, factor_old: Rate, factor_new: Rate) -> ActiveLoan {
        match m {
            LoanMutation::Maturity(mat) => ActiveLoan {
                info: LoanInfo {
                    schedule: RepaymentSchedule { maturity: mat, ..self.info.schedule },
                    ..self.info
                },
                ..self
            },
            LoanMutation::InterestPayments(ip) => ActiveLoan {
                info: LoanInfo {
                    schedule: RepaymentSchedule { interest_payments: ip, ..self.info.schedule },
                    ..self.info
                },
                ..self
            },
            LoanMutation::CollateralValue(v) => ActiveLoan {
                info: LoanInfo {
                    pricing: match self.info.pricing {
                        Pricing::Internal(ip) => Pricing::Internal(
                            InternalPricing { collateral_value: v, ..ip },
                        ),
                        Pricing::External(ep) => Pricing::External(ep),
                    },
                    ..self.info
                },
                ..self
            },
            LoanMutation::InterestRate(r) => ActiveLoan {
                info: LoanInfo {
                    interest_rate: InterestRate {
                        rate_per_year: r,
                        ..self.info.interest_rate
                    },
                    ..self.info
                },
                normalized_debt: match self.info.pricing {
                    Pricing::Internal(_) => spec_div_rate(
                        self.spec_debt(factor_old)->Some_0,
                        factor_new,
                    )->Some_0,
                    Pricing::External(_) => self.normalized_debt,
                },
                ..self
            },
        }
    }

    /// Applies a mutation to the entry.
    pub fn apply_mutation(&self, m: LoanMutation, now: Seconds, factor_old: Rate, factor_new: Rate)
        -> (r: Result<ActiveLoan, Error>)
        requires
            self.wf(),
        ensures
            match r {
                Ok(nl) => {
                    &&& self.spec_mutation_error(m, now, factor_old, factor_new) is None
                    &&& nl == self.spec_mutated(m, factor_old, factor_new)
                    &&& nl.wf()
                },
                Err(e) => Some(e) == self.spec_mutation_error(m, now, factor_old, factor_new),
            },
    {
        match m {
            LoanMutation::Maturity(mat) => {
                match mat {
                    Maturity::Fixed { date } => if date <= now {
                        return Err(Error::InvalidMaturity);
                    },
                    Maturity::Unbounded => match self.info.pricing {
                        Pricing::Internal(ip) => if matches!(
                            ip.valuation_method,
                            ValuationMethod::DiscountedCashFlow(_),
                        ) {
                            return Err(Error::InvalidMutation);
                        },
                        Pricing::External(_) => {},
                    },
                }
                Ok(ActiveLoan {
                    info: LoanInfo {
                        schedule: RepaymentSchedule { maturity: mat, ..self.info.schedule },
                        ..self.info
                    },
                    ..*self
                })
            },
            LoanMutation::InterestPayments(ip) => Ok(ActiveLoan {
                info: LoanInfo {
                    schedule: RepaymentSchedule { interest_payments: ip, ..self.info.schedule },
                    ..self.info
                },
                ..*self
            }),
            LoanMutation::CollateralValue(v) => match self.info.pricing {
                Pricing::Internal(ip) => Ok(ActiveLoan {
                    info: LoanInfo {
                        pricing: Pricing::Internal(InternalPricing { collateral_value: v, ..ip }),
                        ..self.info
                    },
                    ..*self
                }),
                Pricing::External(_) => Err(Error::InvalidMutation),
            },
            LoanMutation::InterestRate(r) => {
                if r.units > u128::MAX - RATE_ONE {
                    return Err(Error::InvalidPricing);
                }
                let normalized_debt: u128 = match self.info.pricing {
                    Pricing::Internal(_) => {
                        let debt = match self.debt(factor_old) {
                            Some(d) => d,
                            None => {
                                return Err(Error::ArithmeticOverflow);
                            },
                        };
                        match div_rate(debt, factor_new) {
                            Some(n) => n,
                            None => {
                                return Err(Error::ArithmeticOverflow);
                            },
                        }
                    },
                    Pricing::External(_) => self.normalized_debt,
                };
                Ok(ActiveLoan {
                    info: LoanInfo {
                        interest_rate: InterestRate {
                            rate_per_year: r,
                            ..self.info.interest_rate
                        },
                        ..self.info
                    },
                    normalized_debt,
                    ..*self
                })
            },
        }
    }

    /// Why an administrative debt increase is refused, or `None`: like a
    /// borrow, but without the max-borrow check and without a collateral
    /// re-check.
    pub open spec fn spec_increase_error(self, amount: u128, factor: Rate) -> Option<Error> {
        if self.info.restrictions.borrows is NotWrittenOff && self.write_off.is_written_off() {
            Some(Error::LoanWrittenOff)
        } else if self.total_borrowed + amount > u128::MAX {
            Some(Error::ArithmeticOverflow)
        } else {
            match self.info.pricing {
                Pricing::Internal(_) => match spec_div_rate(amount, factor) {
                    None => Some(Error::ArithmeticOverflow),
                    Some(inc) => if self.normalized_debt + inc > u128::MAX {
                        Some(Error::ArithmeticOverflow)
                    } else {
                        None
                    },
                },
                Pricing::External(_) => None,
            }
        }
    }

    /// Increases the principal without a max-borrow check; used for
    /// administrative corrections. The resulting entry is the same as for a
    /// borrow of the amount.
    pub fn apply_increase_debt(&self, amount: u128, factor: Rate) -> (r: Result<ActiveLoan, Error>)
        requires
            self.wf(),
        ensures
            match r {
                Ok(nl) => {
                    &&& self.spec_increase_error(amount, factor) is None
                    &&& nl == self.spec_borrowed(amount, factor)
                    &&& nl.wf()
                },
                Err(e) => Some(e) == self.spec_increase_error(amount, factor),
            },
    {
        if matches!(self.info.restrictions.borrows, BorrowRestrictions::NotWrittenOff)
            && !matches!(self.write_off, WriteOffState::NotWrittenOff) {
            return Err(Error::LoanWrittenOff);
        }
        let total_borrowed = match self.total_borrowed.checked_add(amount) {
            Some(t) => t,
            None => {
                return Err(Error::ArithmeticOverflow);
            },
        };
        let normalized_debt: u128 = match self.info.pricing {
            Pricing::Internal(_) => {
                let inc = match div_rate(amount, factor) {
                    Some(i) => i,
                    None => {
                        return Err(Error::ArithmeticOverflow);
                    },
                };
                match self.normalized_debt.checked_add(inc) {
                    Some(n) => n,
                    None => {
                        return Err(Error::ArithmeticOverflow);
                    },
                }
            },
            Pricing::External(_) => self.normalized_debt,
        };
        Ok(ActiveLoan { total_borrowed, normalized_debt, ..*self })
    }
}

/// The principal a loan can never owe less than nothing: in a well-formed
/// entry the outstanding principal is non-negative after any sequence of
/// borrow and repay operations, because each of them preserves
/// `total_repaid_principal <= total_borrowed`.
pub proof fn lemma_outstanding_principal_nonnegative(loan: ActiveLoan)
    requires
        loan.wf(),
    ensures
        loan.spec_outstanding_principal() >= 0,
{
}

/// Round trip: a successful borrow followed at the same accrual factor (the
/// same instant, so no interest has accrued in between) by a repayment of
/// the same amount succeeds and returns the outstanding principal to its
/// value before the borrow. The one extra hypothesis is that reading the
/// debt right after the borrow does not overflow, which a borrow under
/// `UpToTotalBorrowed` does not itself check.
pub proof fn lemma_borrow_repay_round_trip(loan: ActiveLoan, amount: u128, factor: Rate)
    requires
        loan.wf(),
        loan.spec_borrow_error(amount, factor) is None,
        loan.spec_borrowed(amount, factor).spec_debt(factor) is Some,
    ensures
        ({
            let borrowed = loan.spec_borrowed(amount, factor);
            &&& borrowed.spec_repay_error(amount, 0, 0, factor) is None
            &&& borrowed.spec_repaid(amount, 0, 0, factor).spec_outstanding_principal()
                == loan.spec_outstanding_principal()
        }),
{
    let borrowed = loan.spec_borrowed(amount, factor);
    assert(borrowed.total_borrowed == loan.total_borrowed + amount);
    assert(borrowed.total_repaid_principal == loan.total_repaid_principal);
    assert(borrowed.spec_outstanding_principal() == loan.spec_outstanding_principal() + amount);
    assert(loan.spec_outstanding_principal() >= 0);
    match loan.info.pricing {
        Pricing::Internal(_) => {
            let debt = borrowed.spec_debt(factor)->Some_0;
            let eff = borrowed.spec_repaid_summary(amount, 0, 0, debt);
            assert(eff.principal == amount);
            assert(eff.interest == 0);
            assert(spec_div_rate(amount, factor) is Some);
        },
        Pricing::External(_) => {
            let debt = borrowed.spec_outstanding_principal() as u128;
            let eff = borrowed.spec_repaid_summary(amount, 0, 0, debt);
            assert(eff.principal == amount);
            assert(eff.interest == 0);
        },
    }
}

} // verus!
