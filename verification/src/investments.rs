//! Investment bookkeeping types of the enclosing ledger: per-account
//! collection state and a portfolio summary of free, pending and claimable
//! pool currency and tranche tokens.
//!
//! Balances are `u128`; account, currency and investment identifiers are
//! `u64`.

use vstd::prelude::*;

use crate::Error;

verus! {

/// An investment identifier that the enclosing system can turn into an
/// account address.
#[derive(Clone, Copy, Debug, PartialEq, Eq, Structural)]
pub struct InvestmentAccount {
    pub investment_id: u64,
}

/// The ownership record of one investment.
#[derive(Clone, Copy, Debug, PartialEq, Eq, Structural)]
pub struct InvestmentInfo {
    pub owner: u64,
    pub id: u64,
    pub payment_currency: u64,
}

/// The outstanding invest-side collections of an account.
#[derive(Clone, Copy, Debug, PartialEq, Eq, Structural)]
pub struct InvestCollection {
    /// The payout in the denomination currency of an investment.
    pub payout_investment_invest: u128,
    /// The remaining investment in the payment currency.
    pub remaining_investment_invest: u128,
}

impl Default for InvestCollection {
    /// An empty collection: nothing paid out, nothing remaining.
    fn default() -> (r: InvestCollection)
        ensures
            r.payout_investment_invest == 0,
            r.remaining_investment_invest == 0,
    {
        InvestCollection {
            payout_investment_invest: 0,
            remaining_investment_invest: 0,
        }
    }
}

/// The outstanding redeem-side collections of an account.
#[derive(Clone, Copy, Debug, PartialEq, Eq, Structural)]
pub struct RedeemCollection {
    /// The payout in the payment currency of an investment.
    pub payout_investment_redeem: u128,
    /// The remaining redemption in the denomination currency.
    pub remaining_investment_redeem: u128,
}

impl Default for RedeemCollection {
    /// An empty collection: nothing paid out, nothing remaining.
    fn default() -> (r: RedeemCollection)
        ensures
            r.payout_investment_redeem == 0,
            r.remaining_investment_redeem == 0,
    {
        RedeemCollection {
            payout_investment_redeem: 0,
            remaining_investment_redeem: 0,
        }
    }
}

/// The collected amount of an account: what was collected and what was
/// converted during processing.
#[derive(Clone, Copy, Debug, PartialEq, Eq, Structural)]
pub struct CollectedAmount {
    pub amount_collected: u128,
    pub amount_payment: u128,
}

impl CollectedAmount {
    /// Adds another collected amount, both fields checked; on overflow
    /// nothing changes and the error is surfaced.
    pub fn increase(&mut self, other: &CollectedAmount) -> (r: Result<(), Error>)
        ensures
            match r {
                Ok(()) => {
                    &&& old(self).amount_collected + other.amount_collected <= u128::MAX
                    &&& old(self).amount_payment + other.amount_payment <= u128::MAX
                    &&& final(self).amount_collected
                        == old(self).amount_collected + other.amount_collected
                    &&& final(self).amount_payment
                        == old(self).amount_payment + other.amount_payment
                },
                Err(e) => {
                    &&& e == Error::ArithmeticOverflow
                    &&& *final(self) == *old(self)
                    &&& (old(self).amount_collected + other.amount_collected > u128::MAX
                        || old(self).amount_payment + other.amount_payment > u128::MAX)
                },
            },
    {
        let amount_collected = match self.amount_collected.checked_add(other.amount_collected) {
            Some(v) => v,
            None => {
                return Err(Error::ArithmeticOverflow);
            },
        };
        let amount_payment = match self.amount_payment.checked_add(other.amount_payment) {
            Some(v) => v,
            None => {
                return Err(Error::ArithmeticOverflow);
            },
        };
        self.amount_collected = amount_collected;
        self.amount_payment = amount_payment;
        Ok(())
    }
}

/// An investment portfolio: free, pending and claimable pool currency and
/// tranche tokens of one account.
#[derive(Clone, Copy, Debug, PartialEq, Eq, Structural)]
pub struct InvestmentPortfolio {
    /// The identifier of the pool currency.
    pub pool_currency_id: u64,
    /// The unprocessed invest order amount in pool currency.
    pub pending_invest_currency: u128,
    /// The tranche tokens collectable for an invest order.
    pub claimable_tranche_tokens: u128,
    /// The tranche tokens that can be transferred.
    pub free_tranche_tokens: u128,
    /// The tranche tokens that cannot be used at all.
    pub reserved_tranche_tokens: u128,
    /// The unprocessed redeem order amount in tranche tokens.
    pub pending_redeem_tranche_tokens: u128,
    /// The pool currency collectable for a redeem order.
    pub claimable_currency: u128,
}

impl InvestmentPortfolio {
    /// An empty portfolio in the given pool currency.
    pub fn new(pool_currency_id: u64) -> (r: InvestmentPortfolio)
        ensures
            r == (InvestmentPortfolio {
                pool_currency_id,
                pending_invest_currency: 0,
                claimable_tranche_tokens: 0,
                free_tranche_tokens: 0,
                reserved_tranche_tokens: 0,
                pending_redeem_tranche_tokens: 0,
                claimable_currency: 0,
            }),
    {
        InvestmentPortfolio {
            pool_currency_id,
            pending_invest_currency: 0,
            claimable_tranche_tokens: 0,
            free_tranche_tokens: 0,
            reserved_tranche_tokens: 0,
            pending_redeem_tranche_tokens: 0,
            claimable_currency: 0,
        }
    }

    /// The portfolio with the pending invest currency replaced.
    pub fn with_pending_invest_currency(self, amount: u128) -> (r: InvestmentPortfolio)
        ensures
            r == (InvestmentPortfolio { pending_invest_currency: amount, ..self }),
    {
        InvestmentPortfolio { pending_invest_currency: amount, ..self }
    }

    /// The portfolio with the free tranche tokens replaced.
    pub fn with_free_tranche_tokens(self, amount: u128) -> (r: InvestmentPortfolio)
        ensures
            r == (InvestmentPortfolio { free_tranche_tokens: amount, ..self }),
    {
        InvestmentPortfolio { free_tranche_tokens: amount, ..self }
    }

    /// The portfolio with the reserved tranche tokens replaced.
    pub fn with_reserved_tranche_tokens(self, amount: u128) -> (r: InvestmentPortfolio)
        ensures
            r == (InvestmentPortfolio { reserved_tranche_tokens: amount, ..self }),
    {
        InvestmentPortfolio { reserved_tranche_tokens: amount, ..self }
    }

    /// The portfolio with the claimable tranche tokens replaced.
    pub fn with_claimable_tranche_tokens(self, amount: u128) -> (r: InvestmentPortfolio)
        ensures
            r == (InvestmentPortfolio { claimable_tranche_tokens: amount, ..self }),
    {
        InvestmentPortfolio { claimable_tranche_tokens: amount, ..self }
    }

    /// The portfolio with the pending redeem tranche tokens replaced.
    pub fn with_pending_redeem_tranche_tokens(self, amount: u128) -> (r: InvestmentPortfolio)
        ensures
            r == (InvestmentPortfolio { pending_redeem_tranche_tokens: amount, ..self }),
    {
        InvestmentPortfolio { pending_redeem_tranche_tokens: amount, ..self }
    }

    /// The portfolio with the claimable pool currency replaced.
    pub fn with_claimable_currency(self, amount: u128) -> (r: InvestmentPortfolio)
        ensures
            r == (InvestmentPortfolio { claimable_currency: amount, ..self }),
    {
        InvestmentPortfolio { claimable_currency: amount, ..self }
    }
}

} // verus!
