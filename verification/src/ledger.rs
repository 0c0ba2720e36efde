//! The pool-scoped loan ledger: the owner of all loan state of one pool.
//!
//! The ledger holds the created (not yet borrowed against) and active loans,
//! the pool's write-off policy, the noted change records, and the values it
//! consumes from external collaborators: the accrual factors of the rate
//! basis registry and the latest price of each registered feed. The host
//! feeds those in through [`PoolLedger::reference_rate`] and
//! [`PoolLedger::set_price`]; every other operation is pure loan accounting.
//!
//! Operations are transactional: an operation that returns an error leaves
//! the ledger exactly as it was.

use vstd::prelude::*;

use crate::Error;
use crate::Seconds;
use crate::changes::{Change, ChangeRecord, change_matches, clone_change, ensure_released, note,
    note_post, release_error};
use crate::loan::{ActiveLoan, CollateralRef, InterestRate, LoanInfo, LoanMutation, Maturity,
    Pricing, RepaidSummary, ValuationMethod, WriteOffState};
use crate::policy::{WriteOffPolicy, WriteOffStatus};
use crate::rate::{Rate, RATE_ONE};

verus! {

/// One consumed accrual reference: the cumulative compounding factor of a
/// rate descriptor, as of the instant the registry was last read.
#[derive(Clone, Copy, Debug, PartialEq, Eq, Structural)]
pub struct RateEntry {
    pub rate: InterestRate,
    pub factor: Rate,
}

/// The most recent (price, timestamp) pair of one price feed.
#[derive(Clone, Copy, Debug, PartialEq, Eq, Structural)]
pub struct PriceEntry {
    pub price_id: u64,
    pub price: u128,
    pub at: Seconds,
}

/// A loan that was created but not yet borrowed against: it has no ledger
/// entry, only its descriptor, and it already locks its collateral.
#[derive(Clone, Copy, Debug, PartialEq, Eq, Structural)]
pub struct CreatedLoan {
    pub loan_id: u64,
    pub info: LoanInfo,
}

/// The cached total present value of the pool's active loans.
#[derive(Clone, Copy, Debug, PartialEq, Eq, Structural)]
pub struct PortfolioValuation {
    pub value: u128,
    pub last_updated: Seconds,
}

/// The ledger of one pool.
#[derive(Debug)]
pub struct PoolLedger {
    pub pool_id: u64,
    /// Minimum delay, in seconds, between noting a change and applying it;
    /// the governance collaborator's policy, fixed at construction.
    pub min_change_delay: Seconds,
    /// The last loan id handed out; ids are monotonically increasing and
    /// never reused within the pool.
    pub last_loan_id: u64,
    pub created: Vec<CreatedLoan>,
    pub active: Vec<ActiveLoan>,
    pub policy: WriteOffPolicy,
    pub rates: Vec<RateEntry>,
    pub prices: Vec<PriceEntry>,
    pub changes: Vec<ChangeRecord>,
    pub valuation: PortfolioValuation,
    /// Set by every balance-affecting transition; cleared when the valuation
    /// is recomputed.
    pub valuation_dirty: bool,
}

impl PoolLedger {
    /// Well-formedness: every loan entry is well-formed, loan ids are unique
    /// and never exceed the id counter, each collateral is locked to at most
    /// one loan, the lookup tables have unique keys, and every policy held
    /// in a change record is well-formed.
    pub open spec fn wf(self) -> bool {
        &&& self.policy.wf()
        &&& forall|i: int| 0 <= i < self.created@.len() ==> {
            &&& (#[trigger] self.created@[i]).info.wf()
            &&& 0 < self.created@[i].loan_id <= self.last_loan_id
        }
        &&& forall|i: int| 0 <= i < self.active@.len() ==> {
            &&& (#[trigger] self.active@[i]).wf()
            &&& 0 < self.active@[i].loan_id <= self.last_loan_id
        }
        &&& forall|i: int, j: int| 0 <= i < j < self.created@.len() ==> {
            &&& (#[trigger] self.created@[i]).loan_id != (#[trigger] self.created@[j]).loan_id
            &&& self.created@[i].info.collateral != self.created@[j].info.collateral
        }
        &&& forall|i: int, j: int| 0 <= i < j < self.active@.len() ==> {
            &&& (#[trigger] self.active@[i]).loan_id != (#[trigger] self.active@[j]).loan_id
            &&& self.active@[i].info.collateral != self.active@[j].info.collateral
        }
        &&& forall|i: int, j: int|
            0 <= i < self.created@.len() && 0 <= j < self.active@.len() ==> {
                &&& (#[trigger] self.created@[i]).loan_id != (#[trigger] self.active@[j]).loan_id
                &&& self.created@[i].info.collateral != self.active@[j].info.collateral
            }
        &&& forall|i: int, j: int| 0 <= i < j < self.rates@.len() ==>
            (#[trigger] self.rates@[i]).rate != (#[trigger] self.rates@[j]).rate
        &&& forall|i: int, j: int| 0 <= i < j < self.prices@.len() ==>
            (#[trigger] self.prices@[i]).price_id != (#[trigger] self.prices@[j]).price_id
        &&& forall|i: int| 0 <= i < self.changes@.len() ==> match (#[trigger] self.changes@[i]).change {
            Change::Policy(p) => p.wf(),
            _ => true,
        }
    }

    /// A fresh ledger: no loans, no noted changes, the empty policy (nothing
    /// can be written off until one is applied), a zero valuation.
    pub fn new(pool_id: u64, min_change_delay: Seconds) -> (l: PoolLedger)
        ensures
            l.wf(),
            l.pool_id == pool_id,
            l.min_change_delay == min_change_delay,
            l.last_loan_id == 0,
            l.created@ == Seq::<CreatedLoan>::empty(),
            l.active@ == Seq::<ActiveLoan>::empty(),
            l.policy.rules_seq() == Seq::<crate::policy::WriteOffRule>::empty(),
            l.rates@ == Seq::<RateEntry>::empty(),
            l.prices@ == Seq::<PriceEntry>::empty(),
            l.changes@ == Seq::<ChangeRecord>::empty(),
            l.valuation == (PortfolioValuation { value: 0, last_updated: 0 }),
            !l.valuation_dirty,
    {
        let l = PoolLedger {
            pool_id,
            min_change_delay,
            last_loan_id: 0,
            created: Vec::new(),
            active: Vec::new(),
            policy: WriteOffPolicy::empty(),
            rates: Vec::new(),
            prices: Vec::new(),
            changes: Vec::new(),
            valuation: PortfolioValuation { value: 0, last_updated: 0 },
            valuation_dirty: false,
        };
        proof {
            assert(l.created@ =~= Seq::<CreatedLoan>::empty());
            assert(l.active@ =~= Seq::<ActiveLoan>::empty());
            assert(l.rates@ =~= Seq::<RateEntry>::empty());
            assert(l.prices@ =~= Seq::<PriceEntry>::empty());
            assert(l.changes@ =~= Seq::<ChangeRecord>::empty());
        }
        l
    }

    /// Whether the registry has been consulted for this rate descriptor.
    pub open spec fn has_rate(self, rate: InterestRate) -> bool {
        exists|i: int| 0 <= i < self.rates@.len() && (#[trigger] self.rates@[i]).rate == rate
    }

    /// The accrual factor last consumed for this rate descriptor.
    pub open spec fn factor_of(self, rate: InterestRate) -> Option<Rate> {
        if self.has_rate(rate) {
            Some(
                self.rates@[choose|i: int|
                    0 <= i < self.rates@.len() && (#[trigger] self.rates@[i]).rate == rate].factor,
            )
        } else {
            None
        }
    }

    /// Whether a price has been recorded for this feed.
    pub open spec fn has_price(self, price_id: u64) -> bool {
        exists|i: int| 0 <= i < self.prices@.len() && (#[trigger] self.prices@[i]).price_id == price_id
    }

    /// The most recent (price, timestamp) pair of this feed.
    pub open spec fn price_of(self, price_id: u64) -> Option<PriceEntry> {
        if self.has_price(price_id) {
            Some(
                self.prices@[choose|i: int|
                    0 <= i < self.prices@.len()
                        && (#[trigger] self.prices@[i]).price_id == price_id],
            )
        } else {
            None
        }
    }

    pub open spec fn has_active(self, loan_id: u64) -> bool {
        exists|i: int| 0 <= i < self.active@.len() && (#[trigger] self.active@[i]).loan_id == loan_id
    }

    pub open spec fn active_index(self, loan_id: u64) -> int {
        choose|i: int| 0 <= i < self.active@.len() && (#[trigger] self.active@[i]).loan_id == loan_id
    }

    /// The active loan with this id, if any.
    pub open spec fn spec_get_active(self, loan_id: u64) -> Option<ActiveLoan> {
        if self.has_active(loan_id) {
            Some(self.active@[self.active_index(loan_id)])
        } else {
            None
        }
    }

    pub open spec fn has_created(self, loan_id: u64) -> bool {
        exists|i: int| 0 <= i < self.created@.len() && (#[trigger] self.created@[i]).loan_id == loan_id
    }

    pub open spec fn created_index(self, loan_id: u64) -> int {
        choose|i: int| 0 <= i < self.created@.len() && (#[trigger] self.created@[i]).loan_id == loan_id
    }

    /// The created, not yet active, loan with this id, if any.
    pub open spec fn spec_get_created(self, loan_id: u64) -> Option<CreatedLoan> {
        if self.has_created(loan_id) {
            Some(self.created@[self.created_index(loan_id)])
        } else {
            None
        }
    }

    /// Whether some loan of the pool, created or active, holds this
    /// collateral reference.
    pub open spec fn collateral_used(self, collateral: CollateralRef) -> bool {
        ||| exists|i: int|
            0 <= i < self.created@.len()
                && (#[trigger] self.created@[i]).info.collateral == collateral
        ||| exists|i: int|
            0 <= i < self.active@.len()
                && (#[trigger] self.active@[i]).info.collateral == collateral
    }

    /// Looks up the accrual factor last consumed for a rate descriptor.
    pub fn lookup_factor(&self, rate: InterestRate) -> (r: Option<Rate>)
        requires
            self.wf(),
        ensures
            r == self.factor_of(rate),
    {
        let mut i: usize = 0;
        while i < self.rates.len()
            invariant
                0 <= i <= self.rates@.len(),
                forall|k: int| 0 <= k < i ==> (#[trigger] self.rates@[k]).rate != rate,
            decreases self.rates@.len() - i,
        {
            if self.rates[i].rate == rate {
                proof {
                    assert(self.has_rate(rate));
                    let w = choose|k: int|
                        0 <= k < self.rates@.len() && (#[trigger] self.rates@[k]).rate == rate;
                    assert(w == i);
                }
                return Some(self.rates[i].factor);
            }
            i = i + 1;
        }
        None
    }

    /// Looks up the most recent price of a feed.
    pub fn lookup_price(&self, price_id: u64) -> (r: Option<PriceEntry>)
        requires
            self.wf(),
        ensures
            r == self.price_of(price_id),
    {
        let mut i: usize = 0;
        while i < self.prices.len()
            invariant
                0 <= i <= self.prices@.len(),
                forall|k: int| 0 <= k < i ==> (#[trigger] self.prices@[k]).price_id != price_id,
            decreases self.prices@.len() - i,
        {
            if self.prices[i].price_id == price_id {
                proof {
                    assert(self.has_price(price_id));
                    let w = choose|k: int|
                        0 <= k < self.prices@.len()
                            && (#[trigger] self.prices@[k]).price_id == price_id;
                    assert(w == i);
                }
                return Some(self.prices[i]);
            }
            i = i + 1;
        }
        None
    }

    /// Finds the position of an active loan.
    fn find_active(&self, loan_id: u64) -> (r: Option<usize>)
        requires
            self.wf(),
        ensures
            match r {
                Some(i) => {
                    &&& i < self.active@.len()
                    &&& self.active@[i as int].loan_id == loan_id
                    &&& self.active_index(loan_id) == i
                    &&& self.spec_get_active(loan_id) == Some(self.active@[i as int])
                },
                None => self.spec_get_active(loan_id) is None,
            },
    {
        let mut i: usize = 0;
        while i < self.active.len()
            invariant
                0 <= i <= self.active@.len(),
                forall|k: int| 0 <= k < i ==> (#[trigger] self.active@[k]).loan_id != loan_id,
            decreases self.active@.len() - i,
        {
            if self.active[i].loan_id == loan_id {
                proof {
                    assert(self.has_active(loan_id));
                    let w = choose|k: int|
                        0 <= k < self.active@.len()
                            && (#[trigger] self.active@[k]).loan_id == loan_id;
                    assert(w == i);
                }
                return Some(i);
            }
            i = i + 1;
        }
        None
    }

    /// Finds the position of a created, not yet active, loan.
    fn find_created(&self, loan_id: u64) -> (r: Option<usize>)
        requires
            self.wf(),
        ensures
            match r {
                Some(i) => {
                    &&& i < self.created@.len()
                    &&& self.created@[i as int].loan_id == loan_id
                    &&& self.created_index(loan_id) == i
                    &&& self.spec_get_created(loan_id) == Some(self.created@[i as int])
                },
                None => self.spec_get_created(loan_id) is None,
            },
    {
        let mut i: usize = 0;
        while i < self.created.len()
            invariant
                0 <= i <= self.created@.len(),
                forall|k: int| 0 <= k < i ==> (#[trigger] self.created@[k]).loan_id != loan_id,
            decreases self.created@.len() - i,
        {
            if self.created[i].loan_id == loan_id {
                proof {
                    assert(self.has_created(loan_id));
                    let w = choose|k: int|
                        0 <= k < self.created@.len()
                            && (#[trigger] self.created@[k]).loan_id == loan_id;
                    assert(w == i);
                }
                return Some(i);
            }
            i = i + 1;
        }
        None
    }

    /// Whether some loan of the pool already holds this collateral.
    pub fn collateral_in_use(&self, collateral: CollateralRef) -> (b: bool)
        ensures
            b == self.collateral_used(collateral),
    {
        let mut i: usize = 0;
        while i < self.created.len()
            invariant
                0 <= i <= self.created@.len(),
                forall|k: int| 0 <= k < i
                    ==> (#[trigger] self.created@[k]).info.collateral != collateral,
            decreases self.created@.len() - i,
        {
            if self.created[i].info.collateral == collateral {
                return true;
            }
            i = i + 1;
        }
        let mut j: usize = 0;
        while j < self.active.len()
            invariant
                0 <= j <= self.active@.len(),
                forall|k: int| 0 <= k < self.created@.len()
                    ==> (#[trigger] self.created@[k]).info.collateral != collateral,
                forall|k: int| 0 <= k < j
                    ==> (#[trigger] self.active@[k]).info.collateral != collateral,
            decreases self.active@.len() - j,
        {
            if self.active[j].info.collateral == collateral {
                return true;
            }
            j = j + 1;
        }
        false
    }

    /// Why creating a loan from this descriptor is refused, or `None`: the
    /// maturity must lie strictly in the future (and exist at all when the
    /// valuation discounts from it), the pricing parameters must lie in
    /// their domains, the collateral must be free, and the id counter must
    /// not be exhausted.
    pub open spec fn spec_create_error(self, info: LoanInfo, now: Seconds) -> Option<Error> {
        if !(match info.pricing {
            Pricing::Internal(ip) => ip.valuation_method is DiscountedCashFlow
                ==> info.schedule.maturity is Fixed,
            Pricing::External(_) => true,
        }) {
            Some(Error::InvalidMaturity)
        } else if match info.schedule.maturity {
            Maturity::Fixed { date } => date <= now,
            Maturity::Unbounded => false,
        } {
            Some(Error::InvalidMaturity)
        } else if !info.wf() {
            Some(Error::InvalidPricing)
        } else if self.collateral_used(info.collateral) {
            Some(Error::CollateralAlreadyUsed)
        } else if self.last_loan_id == u64::MAX {
            Some(Error::ArithmeticOverflow)
        } else {
            None
        }
    }

    /// Creates a loan from a descriptor: locks its collateral and hands out
    /// the next loan id. The loan is in the created state until the first
    /// borrow activates it.
    pub fn create(&mut self, info: LoanInfo, now: Seconds) -> (r: Result<u64, Error>)
        requires
            old(self).wf(),
        ensures
            final(self).wf(),
            match r {
                Ok(id) => {
                    &&& old(self).spec_create_error(info, now) is None
                    &&& id == old(self).last_loan_id + 1
                    &&& final(self).last_loan_id == id
                    &&& final(self).created@ == old(self).created@.push(
                        CreatedLoan { loan_id: id, info },
                    )
                    &&& final(self).active@ == old(self).active@
                    &&& final(self).pool_id == old(self).pool_id
                    &&& final(self).min_change_delay == old(self).min_change_delay
                    &&& final(self).policy == old(self).policy
                    &&& final(self).rates@ == old(self).rates@
                    &&& final(self).prices@ == old(self).prices@
                    &&& final(self).changes@ == old(self).changes@
                    &&& final(self).valuation == old(self).valuation
                    &&& final(self).valuation_dirty == old(self).valuation_dirty
                },
                Err(e) => {
                    &&& *final(self) == *old(self)
                    &&& Some(e) == old(self).spec_create_error(info, now)
                },
            },
    {
        match info.pricing {
            Pricing::Internal(ip) => if matches!(
                ip.valuation_method,
                ValuationMethod::DiscountedCashFlow(_),
            ) && !matches!(info.schedule.maturity, Maturity::Fixed { .. }) {
                return Err(Error::InvalidMaturity);
            },
            Pricing::External(_) => {},
        }
        match info.schedule.maturity {
            Maturity::Fixed { date } => if date <= now {
                return Err(Error::InvalidMaturity);
            },
            Maturity::Unbounded => {},
        }
        if !info.is_valid() {
            return Err(Error::InvalidPricing);
        }
        if self.collateral_in_use(info.collateral) {
            return Err(Error::CollateralAlreadyUsed);
        }
        if self.last_loan_id == u64::MAX {
            return Err(Error::ArithmeticOverflow);
        }
        let id = self.last_loan_id + 1;
        self.last_loan_id = id;
        self.created.push(CreatedLoan { loan_id: id, info });
        proof {
            let pre = *old(self);
            let post = *self;
            assert forall|i: int, j: int| 0 <= i < j < post.created@.len() implies
                (#[trigger] post.created@[i]).loan_id != (#[trigger] post.created@[j]).loan_id
                    && post.created@[i].info.collateral != post.created@[j].info.collateral by {
                if j < pre.created@.len() {
                    assert(pre.created@[i].loan_id != pre.created@[j].loan_id);
                } else {
                    assert(pre.created@[i].loan_id <= pre.last_loan_id);
                    assert(!pre.collateral_used(info.collateral));
                }
            }
            assert forall|i: int, j: int|
                0 <= i < post.created@.len() && 0 <= j < post.active@.len() implies
                (#[trigger] post.created@[i]).loan_id != (#[trigger] post.active@[j]).loan_id
                    && post.created@[i].info.collateral != post.active@[j].info.collateral by {
                if i < pre.created@.len() {
                    assert(pre.created@[i].loan_id != pre.active@[j].loan_id);
                } else {
                    assert(pre.active@[j].loan_id <= pre.last_loan_id);
                    assert(!pre.collateral_used(info.collateral));
                }
            }
        }
        Ok(id)
    }

    /// Consumes an accrual reference from the rate basis registry: records
    /// `factor` as the current cumulative factor of `rate`.
    pub fn reference_rate(&mut self, rate: InterestRate, factor: Rate)
        requires
            old(self).wf(),
        ensures
            final(self).wf(),
            final(self).factor_of(rate) == Some(factor),
            forall|other: InterestRate| other != rate
                ==> #[trigger] final(self).factor_of(other) == old(self).factor_of(other),
            final(self).pool_id == old(self).pool_id,
            final(self).min_change_delay == old(self).min_change_delay,
            final(self).last_loan_id == old(self).last_loan_id,
            final(self).created@ == old(self).created@,
            final(self).active@ == old(self).active@,
            final(self).policy == old(self).policy,
            final(self).prices@ == old(self).prices@,
            final(self).changes@ == old(self).changes@,
            final(self).valuation == old(self).valuation,
            final(self).valuation_dirty == old(self).valuation_dirty,
    {
        let ghost pre = *self;
        let mut i: usize = 0;
        while i < self.rates.len()
            invariant
                *self == pre,
                0 <= i <= self.rates@.len(),
                forall|k: int| 0 <= k < i ==> (#[trigger] self.rates@[k]).rate != rate,
            decreases self.rates@.len() - i,
        {
            if self.rates[i].rate == rate {
                self.rates[i] = RateEntry { rate, factor };
                proof {
                    lemma_rate_table_updated(pre, *self, i as int, rate, factor);
                }
                return;
            }
            i = i + 1;
        }
        self.rates.push(RateEntry { rate, factor });
        proof {
            lemma_rate_table_pushed(pre, *self, rate, factor);
        }
    }

    /// Records the most recent (price, timestamp) pair of a feed.
    pub fn set_price(&mut self, price_id: u64, price: u128, at: Seconds)
        requires
            old(self).wf(),
        ensures
            final(self).wf(),
            final(self).price_of(price_id) == Some(PriceEntry { price_id, price, at }),
            forall|other: u64| other != price_id
                ==> #[trigger] final(self).price_of(other) == old(self).price_of(other),
            final(self).pool_id == old(self).pool_id,
            final(self).min_change_delay == old(self).min_change_delay,
            final(self).last_loan_id == old(self).last_loan_id,
            final(self).created@ == old(self).created@,
            final(self).active@ == old(self).active@,
            final(self).policy == old(self).policy,
            final(self).rates@ == old(self).rates@,
            final(self).changes@ == old(self).changes@,
            final(self).valuation == old(self).valuation,
            final(self).valuation_dirty == old(self).valuation_dirty,
    {
        let ghost pre = *self;
        let mut i: usize = 0;
        while i < self.prices.len()
            invariant
                *self == pre,
                0 <= i <= self.prices@.len(),
                forall|k: int| 0 <= k < i ==> (#[trigger] self.prices@[k]).price_id != price_id,
            decreases self.prices@.len() - i,
        {
            if self.prices[i].price_id == price_id {
                self.prices[i] = PriceEntry { price_id, price, at };
                proof {
                    lemma_price_table_updated(pre, *self, i as int, price_id, price, at);
                }
                return;
            }
            i = i + 1;
        }
        self.prices.push(PriceEntry { price_id, price, at });
        proof {
            lemma_price_table_pushed(pre, *self, price_id, price, at);
        }
    }
}

impl PoolLedger {
    /// The entry a borrow-like operation works on: the active loan with this
    /// id, or the created loan freshly activated at `now`.
    pub open spec fn spec_borrow_target(self, loan_id: u64, now: Seconds) -> Option<ActiveLoan> {
        match self.spec_get_active(loan_id) {
            Some(l) => Some(l),
            None => match self.spec_get_created(loan_id) {
                Some(c) => Some(ActiveLoan::spec_activate(loan_id, c.info, now)),
                None => None,
            },
        }
    }

    /// The accrual factor an operation on this loan uses: the consumed
    /// factor of the loan's current accrual rate for internal pricing; one
    /// for external pricing, where no interest accrues.
    pub open spec fn spec_loan_factor(self, loan: ActiveLoan) -> Option<Rate> {
        match loan.info.pricing {
            Pricing::Internal(_) => self.factor_of(loan.spec_accrual_rate()),
            Pricing::External(_) => Some(Rate::spec_one()),
        }
    }

    /// Why a borrow is refused, or `None` when it goes through.
    pub open spec fn spec_ledger_borrow_error(self, loan_id: u64, amount: u128, now: Seconds) -> Option<Error> {
        match self.spec_borrow_target(loan_id, now) {
            None => Some(Error::LoanNotFound),
            Some(pre) => match self.spec_loan_factor(pre) {
                None => Some(Error::RateNotRegistered),
                Some(f) => pre.spec_borrow_error(amount, f),
            },
        }
    }

    /// Why an administrative debt increase is refused, or `None`.
    pub open spec fn spec_ledger_increase_error(self, loan_id: u64, amount: u128, now: Seconds) -> Option<Error> {
        match self.spec_borrow_target(loan_id, now) {
            None => Some(Error::LoanNotFound),
            Some(pre) => match self.spec_loan_factor(pre) {
                None => Some(Error::RateNotRegistered),
                Some(f) => pre.spec_increase_error(amount, f),
            },
        }
    }

    /// Why a repayment is refused, or `None`.
    pub open spec fn spec_ledger_repay_error(self, loan_id: u64, principal: u128, interest: u128, unscheduled: u128) -> Option<Error> {
        match self.spec_get_active(loan_id) {
            None => Some(Error::LoanNotFound),
            Some(pre) => match self.spec_loan_factor(pre) {
                None => Some(Error::RateNotRegistered),
                Some(f) => pre.spec_repay_error(principal, interest, unscheduled, f),
            },
        }
    }

    /// How a successful borrow-like operation places its result: the active
    /// entry is replaced in place, or the created loan is consumed and the
    /// new entry appended; everything else of the ledger but the dirty flag
    /// stays as it was.
    pub open spec fn borrowed_placement(self, post: PoolLedger, loan_id: u64, nl: ActiveLoan) -> bool {
        &&& if self.has_active(loan_id) {
            &&& post.active@ == self.active@.update(self.active_index(loan_id), nl)
            &&& post.created@ == self.created@
        } else {
            &&& post.created@ == self.created@.remove(self.created_index(loan_id))
            &&& post.active@ == self.active@.push(nl)
        }
        &&& post.pool_id == self.pool_id
        &&& post.min_change_delay == self.min_change_delay
        &&& post.last_loan_id == self.last_loan_id
        &&& post.policy == self.policy
        &&& post.rates@ == self.rates@
        &&& post.prices@ == self.prices@
        &&& post.changes@ == self.changes@
        &&& post.valuation == self.valuation
        &&& post.valuation_dirty
    }

    /// Draws `amount` more principal against the loan; the first borrow of a
    /// created loan activates it. The pool's cached valuation becomes dirty.
    pub fn borrow(&mut self, loan_id: u64, amount: u128, now: Seconds) -> (r: Result<(), Error>)
        requires
            old(self).wf(),
        ensures
            final(self).wf(),
            match r {
                Ok(()) => {
                    &&& old(self).spec_ledger_borrow_error(loan_id, amount, now) is None
                    &&& ({
                        let pre = old(self).spec_borrow_target(loan_id, now)->Some_0;
                        let f = old(self).spec_loan_factor(pre)->Some_0;
                        old(self).borrowed_placement(
                            *final(self),
                            loan_id,
                            pre.spec_borrowed(amount, f),
                        )
                    })
                },
                Err(e) => {
                    &&& *final(self) == *old(self)
                    &&& Some(e) == old(self).spec_ledger_borrow_error(loan_id, amount, now)
                },
            },
    {
        let ai_opt = self.find_active(loan_id);
        let pre: ActiveLoan;
        let ci: usize;
        match ai_opt {
            Some(ai) => {
                pre = self.active[ai];
                ci = 0;
            },
            None => match self.find_created(loan_id) {
                Some(c) => {
                    proof {
                        assert(self.created@[c as int].info.wf());
                    }
                    pre = ActiveLoan::activate(loan_id, self.created[c].info, now);
                    ci = c;
                },
                None => {
                    return Err(Error::LoanNotFound);
                },
            },
        }
        let factor = match pre.info.pricing {
            Pricing::Internal(_) => match self.lookup_factor(pre.accrual_rate()) {
                Some(f) => f,
                None => {
                    return Err(Error::RateNotRegistered);
                },
            },
            Pricing::External(_) => Rate::one(),
        };
        let nl = match pre.apply_borrow(amount, factor) {
            Ok(nl) => nl,
            Err(e) => {
                return Err(e);
            },
        };
        match ai_opt {
            Some(ai) => {
                self.active[ai] = nl;
                proof {
                    lemma_active_updated(*old(self), *self, ai as int, nl);
                }
            },
            None => {
                self.created.remove(ci);
                self.active.push(nl);
                proof {
                    lemma_loan_activated(*old(self), *self, ci as int, nl);
                }
            },
        }
        self.valuation_dirty = true;
        Ok(())
    }

    /// Increases the loan's principal without a max-borrow check, for
    /// administrative corrections; the first increase of a created loan
    /// activates it, as a borrow does.
    pub fn increase_debt(&mut self, loan_id: u64, amount: u128, now: Seconds) -> (r: Result<(), Error>)
        requires
            old(self).wf(),
        ensures
            final(self).wf(),
            match r {
                Ok(()) => {
                    &&& old(self).spec_ledger_increase_error(loan_id, amount, now) is None
                    &&& ({
                        let pre = old(self).spec_borrow_target(loan_id, now)->Some_0;
                        let f = old(self).spec_loan_factor(pre)->Some_0;
                        old(self).borrowed_placement(
                            *final(self),
                            loan_id,
                            pre.spec_borrowed(amount, f),
                        )
                    })
                },
                Err(e) => {
                    &&& *final(self) == *old(self)
                    &&& Some(e) == old(self).spec_ledger_increase_error(loan_id, amount, now)
                },
            },
    {
        let ai_opt = self.find_active(loan_id);
        let pre: ActiveLoan;
        let ci: usize;
        match ai_opt {
            Some(ai) => {
                pre = self.active[ai];
                ci = 0;
            },
            None => match self.find_created(loan_id) {
                Some(c) => {
                    proof {
                        assert(self.created@[c as int].info.wf());
                    }
                    pre = ActiveLoan::activate(loan_id, self.created[c].info, now);
                    ci = c;
                },
                None => {
                    return Err(Error::LoanNotFound);
                },
            },
        }
        let factor = match pre.info.pricing {
            Pricing::Internal(_) => match self.lookup_factor(pre.accrual_rate()) {
                Some(f) => f,
                None => {
                    return Err(Error::RateNotRegistered);
                },
            },
            Pricing::External(_) => Rate::one(),
        };
        let nl = match pre.apply_increase_debt(amount, factor) {
            Ok(nl) => nl,
            Err(e) => {
                return Err(e);
            },
        };
        match ai_opt {
            Some(ai) => {
                self.active[ai] = nl;
                proof {
                    lemma_active_updated(*old(self), *self, ai as int, nl);
                }
            },
            None => {
                self.created.remove(ci);
                self.active.push(nl);
                proof {
                    lemma_loan_activated(*old(self), *self, ci as int, nl);
                }
            },
        }
        self.valuation_dirty = true;
        Ok(())
    }

    /// Repays principal, interest and an unscheduled amount on an active
    /// loan; returns the effective amounts after clamping. The pool's
    /// cached valuation becomes dirty.
    pub fn repay(&mut self, loan_id: u64, principal: u128, interest: u128, unscheduled: u128)
        -> (r: Result<RepaidSummary, Error>)
        requires
            old(self).wf(),
        ensures
            final(self).wf(),
            match r {
                Ok(summary) => {
                    &&& old(self).spec_ledger_repay_error(loan_id, principal, interest, unscheduled) is None
                    &&& ({
                        let pre = old(self).spec_get_active(loan_id)->Some_0;
                        let f = old(self).spec_loan_factor(pre)->Some_0;
                        &&& summary == pre.spec_repaid_summary(
                            principal,
                            interest,
                            unscheduled,
                            pre.spec_repay_basis_debt(f),
                        )
                        &&& final(self).active@ == old(self).active@.update(
                            old(self).active_index(loan_id),
                            pre.spec_repaid(principal, interest, unscheduled, f),
                        )
                        &&& final(self).created@ == old(self).created@
                        &&& final(self).pool_id == old(self).pool_id
                        &&& final(self).min_change_delay == old(self).min_change_delay
                        &&& final(self).last_loan_id == old(self).last_loan_id
                        &&& final(self).policy == old(self).policy
                        &&& final(self).rates@ == old(self).rates@
                        &&& final(self).prices@ == old(self).prices@
                        &&& final(self).changes@ == old(self).changes@
                        &&& final(self).valuation == old(self).valuation
                        &&& final(self).valuation_dirty
                    })
                },
                Err(e) => {
                    &&& *final(self) == *old(self)
                    &&& Some(e) == old(self).spec_ledger_repay_error(
                        loan_id,
                        principal,
                        interest,
                        unscheduled,
                    )
                },
            },
    {
        let ai = match self.find_active(loan_id) {
            Some(ai) => ai,
            None => {
                return Err(Error::LoanNotFound);
            },
        };
        let pre = self.active[ai];
        let factor = match pre.info.pricing {
            Pricing::Internal(_) => match self.lookup_factor(pre.accrual_rate()) {
                Some(f) => f,
                None => {
                    return Err(Error::RateNotRegistered);
                },
            },
            Pricing::External(_) => Rate::one(),
        };
        let (nl, summary) = match pre.apply_repay(principal, interest, unscheduled, factor) {
            Ok(ok) => ok,
            Err(e) => {
                return Err(e);
            },
        };
        self.active[ai] = nl;
        self.valuation_dirty = true;
        proof {
            lemma_active_updated(*old(self), *self, ai as int, nl);
        }
        Ok(summary)
    }
}

impl PoolLedger {
    /// Why a permissionless write-off is refused, or `None`: the loan must
    /// be active, some rule of the pool's policy must be triggered by the
    /// loan's overdue duration, and the accrual references of the current
    /// rate and of the rate with the rule's penalty must be registered.
    pub open spec fn spec_ledger_write_off_error(self, loan_id: u64, now: Seconds) -> Option<Error> {
        match self.spec_get_active(loan_id) {
            None => Some(Error::LoanNotFound),
            Some(pre) => match crate::policy::spec_find_rule(
                self.policy.rules_seq(),
                pre.spec_overdue_days(now),
            ) {
                None => Some(Error::NoWriteOffRuleApplies),
                Some(rule) => self.spec_write_off_transition_error(
                    pre,
                    WriteOffState::WrittenOffByPolicy(rule.status),
                ),
            },
        }
    }

    /// The factor-resolution and re-normalization part of a write-off: the
    /// current accrual rate and the one with the new penalty must both have
    /// a consumed reference, and the re-normalization must not overflow.
    pub open spec fn spec_write_off_transition_error(self, pre: ActiveLoan, state: WriteOffState) -> Option<Error> {
        match self.spec_loan_factor(pre) {
            None => Some(Error::RateNotRegistered),
            Some(f_old) => match self.spec_loan_factor(ActiveLoan { write_off: state, ..pre }) {
                None => Some(Error::RateNotRegistered),
                Some(f_new) => pre.spec_write_off_error(f_old, f_new),
            },
        }
    }

    /// The entry a successful write-off leaves: the state is set and the
    /// debt re-normalized to the penalized rate.
    pub open spec fn spec_write_off_result(self, pre: ActiveLoan, state: WriteOffState) -> ActiveLoan {
        pre.spec_written_off(
            state,
            self.spec_loan_factor(pre)->Some_0,
            self.spec_loan_factor(ActiveLoan { write_off: state, ..pre })->Some_0,
        )
    }

    /// Writes off an active loan with the terms of the most punitive
    /// applicable rule of the pool's policy. Permissionless: no caller
    /// identity is involved; it fails when no rule applies.
    pub fn write_off(&mut self, loan_id: u64, now: Seconds) -> (r: Result<(), Error>)
        requires
            old(self).wf(),
        ensures
            final(self).wf(),
            match r {
                Ok(()) => {
                    &&& old(self).spec_ledger_write_off_error(loan_id, now) is None
                    &&& ({
                        let pre = old(self).spec_get_active(loan_id)->Some_0;
                        let rule = crate::policy::spec_find_rule(
                            old(self).policy.rules_seq(),
                            pre.spec_overdue_days(now),
                        )->Some_0;
                        let nl = old(self).spec_write_off_result(
                            pre,
                            WriteOffState::WrittenOffByPolicy(rule.status),
                        );
                        &&& final(self).active@ == old(self).active@.update(
                            old(self).active_index(loan_id),
                            nl,
                        )
                        &&& final(self).created@ == old(self).created@
                        &&& final(self).pool_id == old(self).pool_id
                        &&& final(self).min_change_delay == old(self).min_change_delay
                        &&& final(self).last_loan_id == old(self).last_loan_id
                        &&& final(self).policy == old(self).policy
                        &&& final(self).rates@ == old(self).rates@
                        &&& final(self).prices@ == old(self).prices@
                        &&& final(self).changes@ == old(self).changes@
                        &&& final(self).valuation == old(self).valuation
                        &&& final(self).valuation_dirty
                    })
                },
                Err(e) => {
                    &&& *final(self) == *old(self)
                    &&& Some(e) == old(self).spec_ledger_write_off_error(loan_id, now)
                },
            },
    {
        let ai = match self.find_active(loan_id) {
            Some(ai) => ai,
            None => {
                return Err(Error::LoanNotFound);
            },
        };
        let pre = self.active[ai];
        let rule = match self.policy.find_rule(pre.overdue_days(now)) {
            Some(r) => r,
            None => {
                return Err(Error::NoWriteOffRuleApplies);
            },
        };
        proof {
            crate::policy::lemma_find_rule_characterization(
                self.policy.rules_seq(),
                pre.spec_overdue_days(now),
            );
            let rules = self.policy.rules_seq();
            let overdue = pre.spec_overdue_days(now);
            let i = choose|i: int|
                0 <= i < rules.len() && rules[i] == rule
                    && crate::policy::rule_applies(#[trigger] rules[i], overdue);
            assert(rules[i].status.wf());
        }
        let state = WriteOffState::WrittenOffByPolicy(rule.status);
        let nl = match self.write_off_transition(pre, state) {
            Ok(nl) => nl,
            Err(e) => {
                return Err(e);
            },
        };
        self.active[ai] = nl;
        self.valuation_dirty = true;
        proof {
            lemma_active_updated(*old(self), *self, ai as int, nl);
        }
        Ok(())
    }

    /// Why an administrative write-off is refused, or `None`: the terms must
    /// lie in [0, 1] and must not be less punitive than what the policy
    /// would currently compute; the present value only shrinks when the
    /// percentage grows, so the comparison is term by term.
    pub open spec fn spec_ledger_admin_write_off_error(self, loan_id: u64, status: WriteOffStatus, now: Seconds) -> Option<Error> {
        match self.spec_get_active(loan_id) {
            None => Some(Error::LoanNotFound),
            Some(pre) => if !status.wf() {
                Some(Error::InvalidWriteOffRule)
            } else {
                match crate::policy::spec_find_rule(
                    self.policy.rules_seq(),
                    pre.spec_overdue_days(now),
                ) {
                    Some(rule) => if status.percentage.units < rule.status.percentage.units
                        || status.penalty.units < rule.status.penalty.units {
                        Some(Error::AdminWriteOffLessThanPolicy)
                    } else {
                        self.spec_write_off_transition_error(
                            pre,
                            WriteOffState::WrittenOffByAdmin(status),
                        )
                    },
                    None => self.spec_write_off_transition_error(
                        pre,
                        WriteOffState::WrittenOffByAdmin(status),
                    ),
                }
            },
        }
    }

    /// Writes off an active loan with administrator-chosen terms, never less
    /// punitive than what the policy would currently compute.
    pub fn admin_write_off(&mut self, loan_id: u64, status: WriteOffStatus, now: Seconds)
        -> (r: Result<(), Error>)
        requires
            old(self).wf(),
        ensures
            final(self).wf(),
            match r {
                Ok(()) => {
                    &&& old(self).spec_ledger_admin_write_off_error(loan_id, status, now) is None
                    &&& ({
                        let pre = old(self).spec_get_active(loan_id)->Some_0;
                        let nl = old(self).spec_write_off_result(
                            pre,
                            WriteOffState::WrittenOffByAdmin(status),
                        );
                        &&& final(self).active@ == old(self).active@.update(
                            old(self).active_index(loan_id),
                            nl,
                        )
                        &&& final(self).created@ == old(self).created@
                        &&& final(self).pool_id == old(self).pool_id
                        &&& final(self).min_change_delay == old(self).min_change_delay
                        &&& final(self).last_loan_id == old(self).last_loan_id
                        &&& final(self).policy == old(self).policy
                        &&& final(self).rates@ == old(self).rates@
                        &&& final(self).prices@ == old(self).prices@
                        &&& final(self).changes@ == old(self).changes@
                        &&& final(self).valuation == old(self).valuation
                        &&& final(self).valuation_dirty
                    })
                },
                Err(e) => {
                    &&& *final(self) == *old(self)
                    &&& Some(e) == old(self).spec_ledger_admin_write_off_error(loan_id, status, now)
                },
            },
    {
        let ai = match self.find_active(loan_id) {
            Some(ai) => ai,
            None => {
                return Err(Error::LoanNotFound);
            },
        };
        let pre = self.active[ai];
        if status.percentage.units > RATE_ONE || status.penalty.units > RATE_ONE {
            return Err(Error::InvalidWriteOffRule);
        }
        match self.policy.find_rule(pre.overdue_days(now)) {
            Some(rule) => if status.percentage.units < rule.status.percentage.units
                || status.penalty.units < rule.status.penalty.units {
                return Err(Error::AdminWriteOffLessThanPolicy);
            },
            None => {},
        }
        let state = WriteOffState::WrittenOffByAdmin(status);
        let nl = match self.write_off_transition(pre, state) {
            Ok(nl) => nl,
            Err(e) => {
                return Err(e);
            },
        };
        self.active[ai] = nl;
        self.valuation_dirty = true;
        proof {
            lemma_active_updated(*old(self), *self, ai as int, nl);
        }
        Ok(())
    }

    /// Resolves the two accrual factors of a write-off transition and
    /// re-normalizes the loan's debt to the penalized rate.
    fn write_off_transition(&self, pre: ActiveLoan, state: WriteOffState)
        -> (r: Result<ActiveLoan, Error>)
        requires
            self.wf(),
            pre.wf(),
            state.wf(),
        ensures
            match r {
                Ok(nl) => {
                    &&& self.spec_write_off_transition_error(pre, state) is None
                    &&& nl == self.spec_write_off_result(pre, state)
                    &&& nl.wf()
                    &&& nl.loan_id == pre.loan_id
                    &&& nl.info.collateral == pre.info.collateral
                },
                Err(e) => Some(e) == self.spec_write_off_transition_error(pre, state),
            },
    {
        let staged = ActiveLoan { write_off: state, ..pre };
        let (factor_old, factor_new): (Rate, Rate) = match pre.info.pricing {
            Pricing::Internal(_) => {
                let f_old = match self.lookup_factor(pre.accrual_rate()) {
                    Some(f) => f,
                    None => {
                        return Err(Error::RateNotRegistered);
                    },
                };
                let f_new = match self.lookup_factor(staged.accrual_rate()) {
                    Some(f) => f,
                    None => {
                        return Err(Error::RateNotRegistered);
                    },
                };
                (f_old, f_new)
            },
            Pricing::External(_) => (Rate::one(), Rate::one()),
        };
        pre.apply_write_off(state, factor_old, factor_new)
    }

    /// Why closing a loan is refused, or `None`: an active loan needs zero
    /// outstanding principal and zero debt at the current factor; a created,
    /// never borrowed against, loan can always be closed.
    pub open spec fn spec_ledger_close_error(self, loan_id: u64) -> Option<Error> {
        match self.spec_get_active(loan_id) {
            Some(pre) => match self.spec_loan_factor(pre) {
                None => Some(Error::RateNotRegistered),
                Some(f) => pre.spec_close_error(f),
            },
            None => if self.has_created(loan_id) {
                None
            } else {
                Some(Error::LoanNotFound)
            },
        }
    }

    /// Closes a loan: removes it from storage and thereby releases its
    /// collateral lock. An active loan must be fully repaid, with all
    /// accrued interest collected.
    pub fn close(&mut self, loan_id: u64) -> (r: Result<(), Error>)
        requires
            old(self).wf(),
        ensures
            final(self).wf(),
            match r {
                Ok(()) => {
                    &&& old(self).spec_ledger_close_error(loan_id) is None
                    &&& if old(self).has_active(loan_id) {
                        &&& final(self).active@ == old(self).active@.remove(
                            old(self).active_index(loan_id),
                        )
                        &&& final(self).created@ == old(self).created@
                        &&& final(self).valuation_dirty
                    } else {
                        &&& final(self).created@ == old(self).created@.remove(
                            old(self).created_index(loan_id),
                        )
                        &&& final(self).active@ == old(self).active@
                        &&& final(self).valuation_dirty == old(self).valuation_dirty
                    }
                    &&& final(self).pool_id == old(self).pool_id
                    &&& final(self).min_change_delay == old(self).min_change_delay
                    &&& final(self).last_loan_id == old(self).last_loan_id
                    &&& final(self).policy == old(self).policy
                    &&& final(self).rates@ == old(self).rates@
                    &&& final(self).prices@ == old(self).prices@
                    &&& final(self).changes@ == old(self).changes@
                    &&& final(self).valuation == old(self).valuation
                },
                Err(e) => {
                    &&& *final(self) == *old(self)
                    &&& Some(e) == old(self).spec_ledger_close_error(loan_id)
                },
            },
    {
        match self.find_active(loan_id) {
            Some(ai) => {
                let pre = self.active[ai];
                let factor = match pre.info.pricing {
                    Pricing::Internal(_) => match self.lookup_factor(pre.accrual_rate()) {
                        Some(f) => f,
                        None => {
                            return Err(Error::RateNotRegistered);
                        },
                    },
                    Pricing::External(_) => Rate::one(),
                };
                match pre.ensure_closable(factor) {
                    Ok(()) => {},
                    Err(e) => {
                        return Err(e);
                    },
                }
                self.active.remove(ai);
                self.valuation_dirty = true;
                proof {
                    lemma_active_removed(*old(self), *self, ai as int);
                }
                Ok(())
            },
            None => match self.find_created(loan_id) {
                Some(ci) => {
                    self.created.remove(ci);
                    proof {
                        lemma_created_removed(*old(self), *self, ci as int);
                    }
                    Ok(())
                },
                None => Err(Error::LoanNotFound),
            },
        }
    }
}

impl PoolLedger {
    /// The fields of the ledger that no gateway operation touches.
    pub open spec fn gateway_frame(self, post: PoolLedger) -> bool {
        &&& post.pool_id == self.pool_id
        &&& post.min_change_delay == self.min_change_delay
        &&& post.last_loan_id == self.last_loan_id
        &&& post.rates@ == self.rates@
        &&& post.prices@ == self.prices@
        &&& post.valuation == self.valuation
    }

    /// Proposes a mutation of an active loan; idempotent on content. The
    /// mutation takes effect only when the returned change id is applied
    /// after the pool's delay.
    pub fn propose_loan_mutation(&mut self, loan_id: u64, mutation: LoanMutation, now: Seconds)
        -> (r: Result<u64, Error>)
        requires
            old(self).wf(),
        ensures
            final(self).wf(),
            match r {
                Ok(id) => {
                    &&& old(self).has_active(loan_id)
                    &&& note_post(
                        old(self).changes@,
                        Change::Loan { loan_id, mutation },
                        now,
                        final(self).changes@,
                        id,
                    )
                    &&& old(self).gateway_frame(*final(self))
                    &&& final(self).created@ == old(self).created@
                    &&& final(self).active@ == old(self).active@
                    &&& final(self).policy == old(self).policy
                    &&& final(self).valuation_dirty == old(self).valuation_dirty
                },
                Err(e) => {
                    &&& *final(self) == *old(self)
                    &&& e == Error::LoanNotFound
                    &&& !old(self).has_active(loan_id)
                },
            },
    {
        match self.find_active(loan_id) {
            Some(_) => {},
            None => {
                return Err(Error::LoanNotFound);
            },
        }
        let change = Change::Loan { loan_id, mutation };
        let id = note(&mut self.changes, change, now);
        proof {
            lemma_changes_mutated_wf(*old(self), *self);
        }
        Ok(id)
    }

    /// Why proposing this policy is refused, or `None`.
    pub open spec fn spec_propose_policy_error(self, policy: WriteOffPolicy) -> Option<Error> {
        if policy.rules_seq().len() > crate::policy::MAX_WRITE_OFF_RULES {
            Some(Error::TooManyWriteOffRules)
        } else if !policy.wf() {
            Some(Error::InvalidWriteOffRule)
        } else {
            None
        }
    }

    /// Proposes replacing the pool's write-off policy; idempotent on
    /// content.
    pub fn propose_write_off_policy(&mut self, policy: WriteOffPolicy, now: Seconds)
        -> (r: Result<u64, Error>)
        requires
            old(self).wf(),
        ensures
            final(self).wf(),
            match r {
                Ok(id) => {
                    &&& old(self).spec_propose_policy_error(policy) is None
                    &&& note_post(
                        old(self).changes@,
                        Change::Policy(policy),
                        now,
                        final(self).changes@,
                        id,
                    )
                    &&& old(self).gateway_frame(*final(self))
                    &&& final(self).created@ == old(self).created@
                    &&& final(self).active@ == old(self).active@
                    &&& final(self).policy == old(self).policy
                    &&& final(self).valuation_dirty == old(self).valuation_dirty
                },
                Err(e) => {
                    &&& *final(self) == *old(self)
                    &&& Some(e) == old(self).spec_propose_policy_error(policy)
                },
            },
    {
        if policy.rules.len() > crate::policy::MAX_WRITE_OFF_RULES {
            return Err(Error::TooManyWriteOffRules);
        }
        if !policy.is_valid() {
            return Err(Error::InvalidWriteOffRule);
        }
        let id = note(&mut self.changes, Change::Policy(policy), now);
        proof {
            lemma_changes_mutated_wf(*old(self), *self);
        }
        Ok(id)
    }

    /// Why proposing this debt transfer is refused, or `None`: the two loans
    /// must differ, the source must be active and the target must exist (a
    /// created target is activated when the transfer is applied). The
    /// amounts are validated at application time against the state then.
    pub open spec fn spec_propose_transfer_error(self, from: u64, to: u64, now: Seconds) -> Option<Error> {
        if from == to {
            Some(Error::InvalidMutation)
        } else if self.spec_get_active(from) is None {
            Some(Error::LoanNotFound)
        } else if self.spec_borrow_target(to, now) is None {
            Some(Error::LoanNotFound)
        } else {
            None
        }
    }

    /// Proposes an atomic debt transfer: a repayment on the source loan and
    /// a borrow on the target loan as one unit; idempotent on content.
    pub fn propose_transfer_debt(
        &mut self,
        from: u64,
        to: u64,
        principal: u128,
        interest: u128,
        unscheduled: u128,
        borrow_amount: u128,
        now: Seconds,
    ) -> (r: Result<u64, Error>)
        requires
            old(self).wf(),
        ensures
            final(self).wf(),
            match r {
                Ok(id) => {
                    &&& old(self).spec_propose_transfer_error(from, to, now) is None
                    &&& note_post(
                        old(self).changes@,
                        Change::TransferDebt { from, to, principal, interest, unscheduled, borrow_amount },
                        now,
                        final(self).changes@,
                        id,
                    )
                    &&& old(self).gateway_frame(*final(self))
                    &&& final(self).created@ == old(self).created@
                    &&& final(self).active@ == old(self).active@
                    &&& final(self).policy == old(self).policy
                    &&& final(self).valuation_dirty == old(self).valuation_dirty
                },
                Err(e) => {
                    &&& *final(self) == *old(self)
                    &&& Some(e) == old(self).spec_propose_transfer_error(from, to, now)
                },
            },
    {
        if from == to {
            return Err(Error::InvalidMutation);
        }
        match self.find_active(from) {
            Some(_) => {},
            None => {
                return Err(Error::LoanNotFound);
            },
        }
        match self.find_active(to) {
            Some(_) => {},
            None => match self.find_created(to) {
                Some(_) => {},
                None => {
                    return Err(Error::LoanNotFound);
                },
            },
        }
        let change = Change::TransferDebt { from, to, principal, interest, unscheduled, borrow_amount };
        let id = note(&mut self.changes, change, now);
        proof {
            lemma_changes_mutated_wf(*old(self), *self);
        }
        Ok(id)
    }

    /// The two accrual factors a mutation uses: only a rate change of an
    /// internally priced loan reads the registry, at the old and at the new
    /// rate; every other mutation leaves the debt as it is.
    pub open spec fn spec_mutation_factors(self, pre: ActiveLoan, m: LoanMutation) -> Option<(Rate, Rate)> {
        match m {
            LoanMutation::InterestRate(r) => match pre.info.pricing {
                Pricing::Internal(_) => match self.factor_of(pre.spec_accrual_rate()) {
                    None => None,
                    Some(f_old) => match self.factor_of(
                        rate_changed(pre, r).spec_accrual_rate(),
                    ) {
                        None => None,
                        Some(f_new) => Some((f_old, f_new)),
                    },
                },
                Pricing::External(_) => Some((Rate::spec_one(), Rate::spec_one())),
            },
            _ => Some((Rate::spec_one(), Rate::spec_one())),
        }
    }

    /// Why applying the change named by `change_id` as a loan mutation is
    /// refused, or `None`.
    pub open spec fn spec_apply_mutation_error(self, change_id: u64, now: Seconds) -> Option<Error> {
        match release_error(self.changes@, change_id, now, self.min_change_delay) {
            Some(e) => Some(e),
            None => match self.changes@[change_id as int].change {
                Change::Loan { loan_id, mutation } => match self.spec_get_active(loan_id) {
                    None => Some(Error::LoanNotFound),
                    Some(pre) => match mutation {
                        LoanMutation::InterestRate(r) => if r.units > u128::MAX - RATE_ONE {
                            Some(Error::InvalidPricing)
                        } else {
                            match self.spec_mutation_factors(pre, mutation) {
                                None => Some(Error::RateNotRegistered),
                                Some(fs) => pre.spec_mutation_error(mutation, now, fs.0, fs.1),
                            }
                        },
                        _ => pre.spec_mutation_error(
                            mutation,
                            now,
                            Rate::spec_one(),
                            Rate::spec_one(),
                        ),
                    },
                },
                _ => Some(Error::UnrelatedChange),
            },
        }
    }

    /// Applies a previously proposed loan mutation. The change must be
    /// released and is spent by a successful application; the loan must
    /// still exist and be active.
    pub fn apply_loan_mutation(&mut self, change_id: u64, now: Seconds) -> (r: Result<(), Error>)
        requires
            old(self).wf(),
        ensures
            final(self).wf(),
            match r {
                Ok(()) => {
                    &&& old(self).spec_apply_mutation_error(change_id, now) is None
                    &&& ({
                        let rec = old(self).changes@[change_id as int];
                        match rec.change {
                            Change::Loan { loan_id, mutation } => {
                                let pre = old(self).spec_get_active(loan_id)->Some_0;
                                let fs = old(self).spec_mutation_factors(pre, mutation)->Some_0;
                                &&& final(self).active@ == old(self).active@.update(
                                    old(self).active_index(loan_id),
                                    pre.spec_mutated(mutation, fs.0, fs.1),
                                )
                                &&& final(self).changes@ == old(self).changes@.update(
                                    change_id as int,
                                    ChangeRecord { applied: true, ..rec },
                                )
                            },
                            _ => false,
                        }
                    })
                    &&& final(self).created@ == old(self).created@
                    &&& final(self).policy == old(self).policy
                    &&& old(self).gateway_frame(*final(self))
                    &&& final(self).valuation_dirty
                },
                Err(e) => {
                    &&& *final(self) == *old(self)
                    &&& Some(e) == old(self).spec_apply_mutation_error(change_id, now)
                },
            },
    {
        match ensure_released(&self.changes, change_id, now, self.min_change_delay) {
            Ok(()) => {},
            Err(e) => {
                return Err(e);
            },
        }
        let n: usize = self.changes.len();
        let idx: usize = change_id as usize;
        proof {
            assert(change_id < n);
            assert(idx as int == change_id as int);
        }
        let copied = clone_change(&self.changes[idx].change);
        proof {
            assert(change_matches(self.changes@[change_id as int].change, copied));
            crate::changes::lemma_matches_same_variant(
                self.changes@[change_id as int].change,
                copied,
            );
        }
        let (loan_id, mutation) = match copied {
            Change::Loan { loan_id, mutation } => (loan_id, mutation),
            _ => {
                return Err(Error::UnrelatedChange);
            },
        };
        let ai = match self.find_active(loan_id) {
            Some(ai) => ai,
            None => {
                return Err(Error::LoanNotFound);
            },
        };
        let pre = self.active[ai];
        let (factor_old, factor_new): (Rate, Rate) = match mutation {
            LoanMutation::InterestRate(r) => {
                if r.units > u128::MAX - RATE_ONE {
                    return Err(Error::InvalidPricing);
                }
                match pre.info.pricing {
                    Pricing::Internal(_) => {
                        let f_old = match self.lookup_factor(pre.accrual_rate()) {
                            Some(f) => f,
                            None => {
                                return Err(Error::RateNotRegistered);
                            },
                        };
                        let staged = ActiveLoan {
                            info: LoanInfo {
                                interest_rate: InterestRate {
                                    rate_per_year: r,
                                    ..pre.info.interest_rate
                                },
                                ..pre.info
                            },
                            ..pre
                        };
                        let f_new = match self.lookup_factor(staged.accrual_rate()) {
                            Some(f) => f,
                            None => {
                                return Err(Error::RateNotRegistered);
                            },
                        };
                        (f_old, f_new)
                    },
                    Pricing::External(_) => (Rate::one(), Rate::one()),
                }
            },
            _ => (Rate::one(), Rate::one()),
        };
        let nl = match pre.apply_mutation(mutation, now, factor_old, factor_new) {
            Ok(nl) => nl,
            Err(e) => {
                return Err(e);
            },
        };
        self.active[ai] = nl;
        proof {
            lemma_active_updated(*old(self), *self, ai as int, nl);
        }
        let ghost mid = *self;
        crate::changes::mark_applied(&mut self.changes, idx);
        self.valuation_dirty = true;
        proof {
            lemma_change_spent_wf(mid, *self, change_id as int);
        }
        Ok(())
    }

    /// Why applying the change named by `change_id` as a policy replacement
    /// is refused, or `None`: a policy change has no further precondition.
    pub open spec fn spec_apply_policy_error(self, change_id: u64, now: Seconds) -> Option<Error> {
        match release_error(self.changes@, change_id, now, self.min_change_delay) {
            Some(e) => Some(e),
            None => match self.changes@[change_id as int].change {
                Change::Policy(_) => None,
                _ => Some(Error::UnrelatedChange),
            },
        }
    }

    /// Applies a previously proposed write-off policy replacement.
    pub fn apply_write_off_policy(&mut self, change_id: u64, now: Seconds) -> (r: Result<(), Error>)
        requires
            old(self).wf(),
        ensures
            final(self).wf(),
            match r {
                Ok(()) => {
                    &&& old(self).spec_apply_policy_error(change_id, now) is None
                    &&& ({
                        let rec = old(self).changes@[change_id as int];
                        match rec.change {
                            Change::Policy(p) => {
                                &&& final(self).policy.rules_seq() == p.rules_seq()
                                &&& final(self).changes@ == old(self).changes@.update(
                                    change_id as int,
                                    ChangeRecord { applied: true, ..rec },
                                )
                            },
                            _ => false,
                        }
                    })
                    &&& final(self).created@ == old(self).created@
                    &&& final(self).active@ == old(self).active@
                    &&& old(self).gateway_frame(*final(self))
                    &&& final(self).valuation_dirty == old(self).valuation_dirty
                },
                Err(e) => {
                    &&& *final(self) == *old(self)
                    &&& Some(e) == old(self).spec_apply_policy_error(change_id, now)
                },
            },
    {
        match ensure_released(&self.changes, change_id, now, self.min_change_delay) {
            Ok(()) => {},
            Err(e) => {
                return Err(e);
            },
        }
        let n: usize = self.changes.len();
        let idx: usize = change_id as usize;
        proof {
            assert(change_id < n);
            assert(idx as int == change_id as int);
        }
        let copied = clone_change(&self.changes[idx].change);
        proof {
            assert(change_matches(self.changes@[change_id as int].change, copied));
            crate::changes::lemma_matches_same_variant(
                self.changes@[change_id as int].change,
                copied,
            );
        }
        let policy = match copied {
            Change::Policy(p) => p,
            _ => {
                return Err(Error::UnrelatedChange);
            },
        };
        proof {
            let stored = self.changes@[change_id as int].change;
            assert(match stored {
                Change::Policy(p) => p.wf(),
                _ => true,
            });
            assert(stored->Policy_0.rules_seq() == policy.rules_seq());
            assert(policy.wf());
        }
        self.policy = policy;
        let ghost mid = *self;
        proof {
            assert(mid.wf());
        }
        crate::changes::mark_applied(&mut self.changes, idx);
        proof {
            lemma_change_spent_wf(mid, *self, change_id as int);
        }
        Ok(())
    }

    /// Why applying the change named by `change_id` as a debt transfer is
    /// refused, or `None`: both legs are validated against the current
    /// state, and either failing refuses the whole transfer.
    pub open spec fn spec_apply_transfer_error(self, change_id: u64, now: Seconds) -> Option<Error> {
        match release_error(self.changes@, change_id, now, self.min_change_delay) {
            Some(e) => Some(e),
            None => match self.changes@[change_id as int].change {
                Change::TransferDebt { from, to, principal, interest, unscheduled, borrow_amount } => {
                    if from == to {
                        Some(Error::InvalidMutation)
                    } else {
                        match self.spec_get_active(from) {
                            None => Some(Error::LoanNotFound),
                            Some(src) => match self.spec_borrow_target(to, now) {
                                None => Some(Error::LoanNotFound),
                                Some(tgt) => match self.spec_loan_factor(src) {
                                    None => Some(Error::RateNotRegistered),
                                    Some(f_src) => match self.spec_loan_factor(tgt) {
                                        None => Some(Error::RateNotRegistered),
                                        Some(f_tgt) => match src.spec_repay_error(
                                            principal,
                                            interest,
                                            unscheduled,
                                            f_src,
                                        ) {
                                            Some(e) => Some(e),
                                            None => tgt.spec_borrow_error(borrow_amount, f_tgt),
                                        },
                                    },
                                },
                            },
                        }
                    }
                },
                _ => Some(Error::UnrelatedChange),
            },
        }
    }

    /// Applies a previously proposed debt transfer: repays on the source and
    /// borrows on the target as one atomic unit. When either leg fails, the
    /// whole transfer fails and neither loan changes.
    #[verifier::rlimit(50)]
    pub fn apply_transfer_debt(&mut self, change_id: u64, now: Seconds) -> (r: Result<(), Error>)
        requires
            old(self).wf(),
        ensures
            final(self).wf(),
            match r {
                Ok(()) => {
                    &&& old(self).spec_apply_transfer_error(change_id, now) is None
                    &&& ({
                        let rec = old(self).changes@[change_id as int];
                        match rec.change {
                            Change::TransferDebt { from, to, principal, interest, unscheduled, borrow_amount } => {
                                let src = old(self).spec_get_active(from)->Some_0;
                                let f_src = old(self).spec_loan_factor(src)->Some_0;
                                let src_after = src.spec_repaid(principal, interest, unscheduled, f_src);
                                let tgt = old(self).spec_borrow_target(to, now)->Some_0;
                                let f_tgt = old(self).spec_loan_factor(tgt)->Some_0;
                                let tgt_after = tgt.spec_borrowed(borrow_amount, f_tgt);
                                let si = old(self).active_index(from);
                                &&& if old(self).has_active(to) {
                                    &&& final(self).active@ == old(self).active@.update(si, src_after)
                                        .update(old(self).active_index(to), tgt_after)
                                    &&& final(self).created@ == old(self).created@
                                } else {
                                    &&& final(self).active@ == old(self).active@.update(si, src_after)
                                        .push(tgt_after)
                                    &&& final(self).created@ == old(self).created@.remove(
                                        old(self).created_index(to),
                                    )
                                }
                                &&& final(self).changes@ == old(self).changes@.update(
                                    change_id as int,
                                    ChangeRecord { applied: true, ..rec },
                                )
                            },
                            _ => false,
                        }
                    })
                    &&& final(self).policy == old(self).policy
                    &&& old(self).gateway_frame(*final(self))
                    &&& final(self).valuation_dirty
                },
                Err(e) => {
                    &&& *final(self) == *old(self)
                    &&& Some(e) == old(self).spec_apply_transfer_error(change_id, now)
                },
            },
    {
        match ensure_released(&self.changes, change_id, now, self.min_change_delay) {
            Ok(()) => {},
            Err(e) => {
                return Err(e);
            },
        }
        let n: usize = self.changes.len();
        let idx: usize = change_id as usize;
        proof {
            assert(change_id < n);
            assert(idx as int == change_id as int);
        }
        let copied = clone_change(&self.changes[idx].change);
        proof {
            assert(change_matches(self.changes@[change_id as int].change, copied));
            crate::changes::lemma_matches_same_variant(
                self.changes@[change_id as int].change,
                copied,
            );
        }
        let (from, to, principal, interest, unscheduled, borrow_amount) = match copied {
            Change::TransferDebt { from, to, principal, interest, unscheduled, borrow_amount } => {
                (from, to, principal, interest, unscheduled, borrow_amount)
            },
            _ => {
                return Err(Error::UnrelatedChange);
            },
        };
        if from == to {
            return Err(Error::InvalidMutation);
        }
        let si = match self.find_active(from) {
            Some(si) => si,
            None => {
                return Err(Error::LoanNotFound);
            },
        };
        let src = self.active[si];
        let tgt_ai = self.find_active(to);
        let tgt: ActiveLoan;
        let tgt_ci: usize;
        match tgt_ai {
            Some(ai) => {
                tgt = self.active[ai];
                tgt_ci = 0;
            },
            None => match self.find_created(to) {
                Some(c) => {
                    proof {
                        assert(self.created@[c as int].info.wf());
                    }
                    tgt = ActiveLoan::activate(to, self.created[c].info, now);
                    tgt_ci = c;
                },
                None => {
                    return Err(Error::LoanNotFound);
                },
            },
        }
        let f_src = match src.info.pricing {
            Pricing::Internal(_) => match self.lookup_factor(src.accrual_rate()) {
                Some(f) => f,
                None => {
                    return Err(Error::RateNotRegistered);
                },
            },
            Pricing::External(_) => Rate::one(),
        };
        let f_tgt = match tgt.info.pricing {
            Pricing::Internal(_) => match self.lookup_factor(tgt.accrual_rate()) {
                Some(f) => f,
                None => {
                    return Err(Error::RateNotRegistered);
                },
            },
            Pricing::External(_) => Rate::one(),
        };
        let (src_after, _summary) = match src.apply_repay(principal, interest, unscheduled, f_src) {
            Ok(ok) => ok,
            Err(e) => {
                return Err(e);
            },
        };
        let tgt_after = match tgt.apply_borrow(borrow_amount, f_tgt) {
            Ok(nl) => nl,
            Err(e) => {
                return Err(e);
            },
        };
        self.active[si] = src_after;
        proof {
            lemma_active_updated(*old(self), *self, si as int, src_after);
        }
        let ghost mid1 = *self;
        match tgt_ai {
            Some(ai) => {
                self.active[ai] = tgt_after;
                proof {
                    lemma_active_updated(mid1, *self, ai as int, tgt_after);
                }
            },
            None => {
                self.created.remove(tgt_ci);
                self.active.push(tgt_after);
                proof {
                    lemma_loan_activated(mid1, *self, tgt_ci as int, tgt_after);
                }
            },
        }
        let ghost mid2 = *self;
        crate::changes::mark_applied(&mut self.changes, idx);
        self.valuation_dirty = true;
        proof {
            lemma_change_spent_wf(mid2, *self, change_id as int);
        }
        Ok(())
    }
}

impl PoolLedger {
    /// The present value of one active loan at `now`, or why it cannot be
    /// computed: internal pricing needs the consumed accrual factor of the
    /// loan's rate, external pricing the latest price of its feed.
    pub open spec fn spec_loan_pv(self, loan: ActiveLoan, now: Seconds) -> Result<u128, Error> {
        match loan.info.pricing {
            Pricing::Internal(_) => match self.factor_of(loan.spec_accrual_rate()) {
                None => Err(Error::RateNotRegistered),
                Some(f) => match loan.spec_present_value_internal(f, now) {
                    None => Err(Error::ArithmeticOverflow),
                    Some(v) => Ok(v),
                },
            },
            Pricing::External(ep) => match self.price_of(ep.price_id) {
                None => Err(Error::PriceNotRegistered),
                Some(pe) => match loan.spec_present_value_external(pe.price) {
                    None => Err(Error::ArithmeticOverflow),
                    Some(v) => Ok(v),
                },
            },
        }
    }

    /// The sum of the present values of the given loans at `now`, or the
    /// first reason it cannot be computed.
    pub open spec fn spec_total_value(self, loans: Seq<ActiveLoan>, now: Seconds) -> Result<u128, Error>
        decreases loans.len(),
    {
        if loans.len() == 0 {
            Ok(0)
        } else {
            match self.spec_total_value(loans.drop_last(), now) {
                Err(e) => Err(e),
                Ok(acc) => match self.spec_loan_pv(loans.last(), now) {
                    Err(e) => Err(e),
                    Ok(pv) => if acc + pv > u128::MAX {
                        Err(Error::ArithmeticOverflow)
                    } else {
                        Ok((acc + pv) as u128)
                    },
                },
            }
        }
    }

    /// Exact twin of [`PoolLedger::spec_loan_pv`].
    pub fn loan_pv(&self, loan: &ActiveLoan, now: Seconds) -> (r: Result<u128, Error>)
        requires
            self.wf(),
            loan.wf(),
        ensures
            r == self.spec_loan_pv(*loan, now),
    {
        match loan.info.pricing {
            Pricing::Internal(_) => match self.lookup_factor(loan.accrual_rate()) {
                None => Err(Error::RateNotRegistered),
                Some(f) => match loan.present_value_internal(f, now) {
                    None => Err(Error::ArithmeticOverflow),
                    Some(v) => Ok(v),
                },
            },
            Pricing::External(ep) => match self.lookup_price(ep.price_id) {
                None => Err(Error::PriceNotRegistered),
                Some(pe) => match loan.present_value_external(pe.price) {
                    None => Err(Error::ArithmeticOverflow),
                    Some(v) => Ok(v),
                },
            },
        }
    }

    /// Recomputes the pool's cached valuation: the sum of the present values
    /// of all active loans at `now`. A pool without active loans has a valid
    /// total of zero. Pull-based: nothing recomputes the cache but this
    /// call, so a caller reading a time-sensitive valuation refreshes first.
    pub fn update_portfolio_valuation(&mut self, now: Seconds) -> (r: Result<u128, Error>)
        requires
            old(self).wf(),
        ensures
            final(self).wf(),
            match r {
                Ok(v) => {
                    &&& old(self).spec_total_value(old(self).active@, now) == Ok::<u128, Error>(v)
                    &&& final(self).valuation == (PortfolioValuation { value: v, last_updated: now })
                    &&& !final(self).valuation_dirty
                    &&& final(self).created@ == old(self).created@
                    &&& final(self).active@ == old(self).active@
                    &&& final(self).policy == old(self).policy
                    &&& final(self).changes@ == old(self).changes@
                    &&& final(self).pool_id == old(self).pool_id
                    &&& final(self).min_change_delay == old(self).min_change_delay
                    &&& final(self).last_loan_id == old(self).last_loan_id
                    &&& final(self).rates@ == old(self).rates@
                    &&& final(self).prices@ == old(self).prices@
                },
                Err(e) => {
                    &&& *final(self) == *old(self)
                    &&& old(self).spec_total_value(old(self).active@, now) == Err::<u128, Error>(e)
                },
            },
    {
        let mut total: u128 = 0;
        let mut i: usize = 0;
        while i < self.active.len()
            invariant
                0 <= i <= self.active@.len(),
                Ok::<u128, Error>(total) == self.spec_total_value(
                    self.active@.subrange(0, i as int),
                    now,
                ),
            decreases self.active@.len() - i,
        {
            let loan = self.active[i];
            proof {
                assert(self.active@[i as int].wf());
                assert(self.active@.subrange(0, i as int + 1).drop_last()
                    =~= self.active@.subrange(0, i as int));
                assert(self.active@.subrange(0, i as int + 1).last() == self.active@[i as int]);
            }
            let pv = match self.loan_pv(&loan, now) {
                Ok(pv) => pv,
                Err(e) => {
                    proof {
                        lemma_total_value_error_prefix(*self, self.active@, now, i as int + 1);
                    }
                    return Err(e);
                },
            };
            total = match total.checked_add(pv) {
                Some(t) => t,
                None => {
                    proof {
                        lemma_total_value_error_prefix(*self, self.active@, now, i as int + 1);
                    }
                    return Err(Error::ArithmeticOverflow);
                },
            };
            i = i + 1;
        }
        proof {
            assert(self.active@.subrange(0, self.active@.len() as int) =~= self.active@);
        }
        self.valuation = PortfolioValuation { value: total, last_updated: now };
        self.valuation_dirty = false;
        Ok(total)
    }

    /// The cached portfolio valuation and the instant it was computed.
    pub fn portfolio_valuation(&self) -> (v: PortfolioValuation)
        ensures
            v == self.valuation,
    {
        self.valuation
    }

    /// Whether a balance-affecting transition happened since the valuation
    /// was last recomputed.
    pub fn is_valuation_dirty(&self) -> (b: bool)
        ensures
            b == self.valuation_dirty,
    {
        self.valuation_dirty
    }

    /// Number of active loans in the pool.
    pub fn active_count(&self) -> (n: usize)
        ensures
            n == self.active@.len(),
    {
        self.active.len()
    }

    /// The active loan with this id, if any.
    pub fn get_active_loan(&self, loan_id: u64) -> (r: Option<ActiveLoan>)
        requires
            self.wf(),
        ensures
            r == self.spec_get_active(loan_id),
    {
        match self.find_active(loan_id) {
            Some(ai) => Some(self.active[ai]),
            None => None,
        }
    }

    /// The descriptor of the created, not yet active, loan with this id.
    pub fn get_created_info(&self, loan_id: u64) -> (r: Option<LoanInfo>)
        requires
            self.wf(),
        ensures
            r == match self.spec_get_created(loan_id) {
                Some(c) => Some(c.info),
                None => None::<LoanInfo>,
            },
    {
        match self.find_created(loan_id) {
            Some(ci) => Some(self.created[ci].info),
            None => None,
        }
    }

    /// The outstanding principal of the active loan with this id.
    pub fn outstanding_principal_of(&self, loan_id: u64) -> (r: Option<u128>)
        requires
            self.wf(),
        ensures
            r == match self.spec_get_active(loan_id) {
                Some(l) => Some(l.spec_outstanding_principal() as u128),
                None => None::<u128>,
            },
    {
        match self.find_active(loan_id) {
            Some(ai) => {
                proof {
                    assert(self.active@[ai as int].wf());
                }
                Some(self.active[ai].outstanding_principal())
            },
            None => None,
        }
    }

    /// The present value of the active loan with this id at `now`.
    pub fn present_value_of(&self, loan_id: u64, now: Seconds) -> (r: Result<u128, Error>)
        requires
            self.wf(),
        ensures
            r == match self.spec_get_active(loan_id) {
                Some(l) => self.spec_loan_pv(l, now),
                None => Err::<u128, Error>(Error::LoanNotFound),
            },
    {
        match self.find_active(loan_id) {
            Some(ai) => {
                let loan = self.active[ai];
                proof {
                    assert(self.active@[ai as int].wf());
                }
                self.loan_pv(&loan, now)
            },
            None => Err(Error::LoanNotFound),
        }
    }
}

/// Two ledgers with the same rate table resolve every rate descriptor to the
/// same factor.
proof fn lemma_factor_of_same_rates(a: PoolLedger, b: PoolLedger, r: InterestRate)
    requires
        a.wf(),
        a.rates@ == b.rates@,
    ensures
        a.factor_of(r) == b.factor_of(r),
{
    if a.has_rate(r) {
        let i = choose|i: int| 0 <= i < a.rates@.len() && (#[trigger] a.rates@[i]).rate == r;
        assert(b.rates@[i].rate == r);
        assert(b.has_rate(r));
        let j = choose|j: int| 0 <= j < b.rates@.len() && (#[trigger] b.rates@[j]).rate == r;
        assert(a.rates@[j].rate == r);
        assert(i == j);
    } else {
        assert(!b.has_rate(r));
    }
}

/// After a borrow-like placement, looking the loan up yields exactly the new
/// entry.
proof fn lemma_get_active_after_placement(pre: PoolLedger, post: PoolLedger, loan_id: u64, nl: ActiveLoan)
    requires
        pre.wf(),
        post.wf(),
        nl.loan_id == loan_id,
        pre.borrowed_placement(post, loan_id, nl),
        pre.has_active(loan_id) || pre.has_created(loan_id),
    ensures
        post.spec_get_active(loan_id) == Some(nl),
{
    if pre.has_active(loan_id) {
        let ai = pre.active_index(loan_id);
        assert(post.active@[ai] == nl);
        assert(post.has_active(loan_id));
        let w = post.active_index(loan_id);
        assert(post.active@[w].loan_id == loan_id);
        assert(w == ai);
    } else {
        let n = pre.active@.len() as int;
        assert(post.active@[n] == nl);
        assert(post.has_active(loan_id));
        let w = post.active_index(loan_id);
        assert(post.active@[w].loan_id == loan_id);
        if w < n {
            assert(pre.active@[w].loan_id == loan_id);
            assert(pre.has_active(loan_id));
        }
        assert(w == n);
    }
}

/// Round trip at the ledger: when a borrow succeeds on a pool, an immediate
/// repayment of the same amount — same instant, so the same accrual
/// references — is accepted, and it returns the loan's outstanding principal
/// to its value before the borrow. The one extra hypothesis is that reading
/// the debt right after the borrow does not overflow, which a borrow under
/// `UpToTotalBorrowed` does not itself check.
pub proof fn lemma_ledger_borrow_repay_round_trip(
    pre: PoolLedger,
    post: PoolLedger,
    loan_id: u64,
    amount: u128,
    now: Seconds,
    target: ActiveLoan,
    f: Rate,
)
    requires
        pre.wf(),
        post.wf(),
        pre.spec_borrow_target(loan_id, now) == Some(target),
        pre.spec_loan_factor(target) == Some(f),
        pre.spec_ledger_borrow_error(loan_id, amount, now) is None,
        pre.borrowed_placement(post, loan_id, target.spec_borrowed(amount, f)),
        target.spec_borrowed(amount, f).spec_debt(f) is Some,
    ensures
        post.spec_ledger_repay_error(loan_id, amount, 0, 0) is None,
        post.spec_get_active(loan_id) == Some(target.spec_borrowed(amount, f)),
        target.spec_borrowed(amount, f).spec_repaid(amount, 0, 0, f).spec_outstanding_principal()
            == target.spec_outstanding_principal(),
{
    let nl = target.spec_borrowed(amount, f);
    if pre.has_active(loan_id) {
        let ai = pre.active_index(loan_id);
        assert(pre.active@[ai].wf());
        assert(target.loan_id == loan_id);
    } else {
        assert(pre.has_created(loan_id));
        let ci = pre.created_index(loan_id);
        assert(pre.created@[ci].info.wf());
        assert(target.loan_id == loan_id);
    }
    assert(target.wf());
    crate::loan::lemma_borrow_repay_round_trip(target, amount, f);
    assert(nl.loan_id == loan_id);
    lemma_get_active_after_placement(pre, post, loan_id, nl);
    assert(nl.spec_accrual_rate() == target.spec_accrual_rate());
    match nl.info.pricing {
        Pricing::Internal(_) => {
            lemma_factor_of_same_rates(pre, post, nl.spec_accrual_rate());
            assert(post.spec_loan_factor(nl) == Some(f));
        },
        Pricing::External(_) => {
            assert(post.spec_loan_factor(nl) == Some(Rate::spec_one()));
            assert(f == Rate::spec_one());
        },
    }
}

/// No loan of a well-formed pool ever owes a negative principal: since every
/// operation keeps the ledger well-formed, the outstanding principal of any
/// active loan is non-negative after any sequence of borrows and repayments.
pub proof fn lemma_pool_outstanding_principal_nonnegative(l: PoolLedger, loan_id: u64)
    requires
        l.wf(),
        l.spec_get_active(loan_id) is Some,
    ensures
        l.spec_get_active(loan_id)->Some_0.spec_outstanding_principal() >= 0,
{
    let i = l.active_index(loan_id);
    assert(l.active@[i].wf());
}

/// A sum over a prefix that already failed decides the whole sum: the error
/// of the first failing loan is the aggregate's result.
proof fn lemma_total_value_error_prefix(l: PoolLedger, loans: Seq<ActiveLoan>, now: Seconds, i: int)
    requires
        0 <= i <= loans.len(),
        l.spec_total_value(loans.subrange(0, i), now) is Err,
    ensures
        l.spec_total_value(loans, now) == l.spec_total_value(loans.subrange(0, i), now),
    decreases loans.len() - i,
{
    if i == loans.len() {
        assert(loans.subrange(0, i) =~= loans);
    } else {
        assert(loans.subrange(0, i + 1).drop_last() =~= loans.subrange(0, i));
        lemma_total_value_error_prefix(l, loans, now, i + 1);
    }
}

/// The accrual-rate descriptor of a loan after its base rate is replaced.
pub open spec fn rate_changed(pre: ActiveLoan, r: Rate) -> ActiveLoan {
    ActiveLoan {
        info: LoanInfo {
            interest_rate: InterestRate { rate_per_year: r, ..pre.info.interest_rate },
            ..pre.info
        },
        ..pre
    }
}

/// An operation that only notes a change, or touches nothing else, keeps the
/// ledger well-formed, provided any policy payload it noted is well-formed.
proof fn lemma_changes_mutated_wf(pre: PoolLedger, post: PoolLedger)
    requires
        pre.wf(),
        post.created@ == pre.created@,
        post.active@ == pre.active@,
        post.rates@ == pre.rates@,
        post.prices@ == pre.prices@,
        post.policy == pre.policy,
        post.last_loan_id == pre.last_loan_id,
        post.changes@.len() >= pre.changes@.len(),
        forall|i: int| 0 <= i < pre.changes@.len()
            ==> #[trigger] post.changes@[i] == pre.changes@[i],
        forall|i: int| pre.changes@.len() <= i < post.changes@.len()
            ==> match (#[trigger] post.changes@[i]).change {
                Change::Policy(p) => p.wf(),
                _ => true,
            },
    ensures
        post.wf(),
{
    assert forall|i: int| 0 <= i < post.changes@.len() implies
        match (#[trigger] post.changes@[i]).change {
            Change::Policy(p) => p.wf(),
            _ => true,
        } by {
        if i < pre.changes@.len() {
            assert(post.changes@[i] == pre.changes@[i]);
            assert(match pre.changes@[i].change {
                Change::Policy(p) => p.wf(),
                _ => true,
            });
        }
    }
}

/// Marking one change record applied, possibly after replacing the pool's
/// policy by a well-formed one, keeps the ledger well-formed.
proof fn lemma_change_spent_wf(pre: PoolLedger, post: PoolLedger, cid: int)
    requires
        pre.wf(),
        0 <= cid < pre.changes@.len(),
        post.changes@ == pre.changes@.update(
            cid,
            ChangeRecord { applied: true, ..pre.changes@[cid] },
        ),
        post.created@ == pre.created@,
        post.active@ == pre.active@,
        post.rates@ == pre.rates@,
        post.prices@ == pre.prices@,
        post.policy.wf(),
        post.last_loan_id == pre.last_loan_id,
    ensures
        post.wf(),
{
    assert forall|i: int| 0 <= i < post.changes@.len() implies
        match (#[trigger] post.changes@[i]).change {
            Change::Policy(p) => p.wf(),
            _ => true,
        } by {
        if i != cid {
            assert(post.changes@[i] == pre.changes@[i]);
        }
        assert(match pre.changes@[i].change {
            Change::Policy(p) => p.wf(),
            _ => true,
        });
        assert(post.changes@[i].change == pre.changes@[i].change);
    }
}

/// Removing one active entry preserves the ledger's well-formedness.
proof fn lemma_active_removed(pre: PoolLedger, post: PoolLedger, ai: int)
    requires
        pre.wf(),
        0 <= ai < pre.active@.len(),
        post.active@ == pre.active@.remove(ai),
        post.created@ == pre.created@,
        post.rates@ == pre.rates@,
        post.prices@ == pre.prices@,
        post.changes@ == pre.changes@,
        post.policy == pre.policy,
        post.last_loan_id == pre.last_loan_id,
    ensures
        post.wf(),
{
    assert forall|i: int| 0 <= i < post.active@.len() implies
        (#[trigger] post.active@[i]).wf()
            && 0 < post.active@[i].loan_id <= post.last_loan_id by {
        let oi: int = if i < ai { i } else { i + 1 };
        assert(post.active@[i] == pre.active@[oi]);
    }
    assert forall|i: int, j: int| 0 <= i < j < post.active@.len() implies
        (#[trigger] post.active@[i]).loan_id != (#[trigger] post.active@[j]).loan_id
            && post.active@[i].info.collateral != post.active@[j].info.collateral by {
        let oi: int = if i < ai { i } else { i + 1 };
        let oj: int = if j < ai { j } else { j + 1 };
        assert(post.active@[i] == pre.active@[oi]);
        assert(post.active@[j] == pre.active@[oj]);
        assert(pre.active@[oi].loan_id != pre.active@[oj].loan_id);
        assert(pre.active@[oi].info.collateral != pre.active@[oj].info.collateral);
    }
    assert forall|i: int, j: int|
        0 <= i < post.created@.len() && 0 <= j < post.active@.len() implies
        (#[trigger] post.created@[i]).loan_id != (#[trigger] post.active@[j]).loan_id
            && post.created@[i].info.collateral != post.active@[j].info.collateral by {
        let oj: int = if j < ai { j } else { j + 1 };
        assert(post.active@[j] == pre.active@[oj]);
        assert(pre.created@[i].loan_id != pre.active@[oj].loan_id);
        assert(pre.created@[i].info.collateral != pre.active@[oj].info.collateral);
    }
}

/// Removing one created entry preserves the ledger's well-formedness.
proof fn lemma_created_removed(pre: PoolLedger, post: PoolLedger, ci: int)
    requires
        pre.wf(),
        0 <= ci < pre.created@.len(),
        post.created@ == pre.created@.remove(ci),
        post.active@ == pre.active@,
        post.rates@ == pre.rates@,
        post.prices@ == pre.prices@,
        post.changes@ == pre.changes@,
        post.policy == pre.policy,
        post.last_loan_id == pre.last_loan_id,
    ensures
        post.wf(),
{
    assert forall|i: int| 0 <= i < post.created@.len() implies
        (#[trigger] post.created@[i]).info.wf()
            && 0 < post.created@[i].loan_id <= post.last_loan_id by {
        let oi: int = if i < ci { i } else { i + 1 };
        assert(post.created@[i] == pre.created@[oi]);
    }
    assert forall|i: int, j: int| 0 <= i < j < post.created@.len() implies
        (#[trigger] post.created@[i]).loan_id != (#[trigger] post.created@[j]).loan_id
            && post.created@[i].info.collateral != post.created@[j].info.collateral by {
        let oi: int = if i < ci { i } else { i + 1 };
        let oj: int = if j < ci { j } else { j + 1 };
        assert(post.created@[i] == pre.created@[oi]);
        assert(post.created@[j] == pre.created@[oj]);
        assert(pre.created@[oi].loan_id != pre.created@[oj].loan_id);
        assert(pre.created@[oi].info.collateral != pre.created@[oj].info.collateral);
    }
    assert forall|i: int, j: int|
        0 <= i < post.created@.len() && 0 <= j < post.active@.len() implies
        (#[trigger] post.created@[i]).loan_id != (#[trigger] post.active@[j]).loan_id
            && post.created@[i].info.collateral != post.active@[j].info.collateral by {
        let oi: int = if i < ci { i } else { i + 1 };
        assert(post.created@[i] == pre.created@[oi]);
        assert(pre.created@[oi].loan_id != pre.active@[j].loan_id);
        assert(pre.created@[oi].info.collateral != pre.active@[j].info.collateral);
    }
}

/// Replacing one active entry by a well-formed entry with the same loan id
/// and collateral preserves the ledger's well-formedness.
proof fn lemma_active_updated(pre: PoolLedger, post: PoolLedger, ai: int, nl: ActiveLoan)
    requires
        pre.wf(),
        0 <= ai < pre.active@.len(),
        nl.wf(),
        nl.loan_id == pre.active@[ai].loan_id,
        nl.info.collateral == pre.active@[ai].info.collateral,
        post.active@ == pre.active@.update(ai, nl),
        post.created@ == pre.created@,
        post.rates@ == pre.rates@,
        post.prices@ == pre.prices@,
        post.changes@ == pre.changes@,
        post.policy == pre.policy,
        post.last_loan_id == pre.last_loan_id,
    ensures
        post.wf(),
{
    assert forall|i: int| 0 <= i < post.active@.len() implies
        (#[trigger] post.active@[i]).wf()
            && 0 < post.active@[i].loan_id <= post.last_loan_id by {
        assert(pre.active@[i].wf() && 0 < pre.active@[i].loan_id <= pre.last_loan_id);
    }
    assert forall|i: int, j: int| 0 <= i < j < post.active@.len() implies
        (#[trigger] post.active@[i]).loan_id != (#[trigger] post.active@[j]).loan_id
            && post.active@[i].info.collateral != post.active@[j].info.collateral by {
        assert(pre.active@[i].loan_id != pre.active@[j].loan_id);
        assert(pre.active@[i].info.collateral != pre.active@[j].info.collateral);
    }
    assert forall|i: int, j: int|
        0 <= i < post.created@.len() && 0 <= j < post.active@.len() implies
        (#[trigger] post.created@[i]).loan_id != (#[trigger] post.active@[j]).loan_id
            && post.created@[i].info.collateral != post.active@[j].info.collateral by {
        assert(pre.created@[i].loan_id != pre.active@[j].loan_id);
        assert(pre.created@[i].info.collateral != pre.active@[j].info.collateral);
    }
}

/// Consuming a created loan into a fresh well-formed active entry with the
/// same loan id and collateral preserves the ledger's well-formedness.
proof fn lemma_loan_activated(pre: PoolLedger, post: PoolLedger, ci: int, nl: ActiveLoan)
    requires
        pre.wf(),
        0 <= ci < pre.created@.len(),
        nl.wf(),
        nl.loan_id == pre.created@[ci].loan_id,
        nl.info.collateral == pre.created@[ci].info.collateral,
        !pre.has_active(nl.loan_id),
        post.created@ == pre.created@.remove(ci),
        post.active@ == pre.active@.push(nl),
        post.rates@ == pre.rates@,
        post.prices@ == pre.prices@,
        post.changes@ == pre.changes@,
        post.policy == pre.policy,
        post.last_loan_id == pre.last_loan_id,
    ensures
        post.wf(),
{
    let n = pre.active@.len() as int;
    assert forall|i: int| 0 <= i < post.created@.len() implies
        (#[trigger] post.created@[i]).info.wf()
            && 0 < post.created@[i].loan_id <= post.last_loan_id by {
        if i < ci {
            assert(post.created@[i] == pre.created@[i]);
        } else {
            assert(post.created@[i] == pre.created@[i + 1]);
        }
    }
    assert forall|i: int| 0 <= i < post.active@.len() implies
        (#[trigger] post.active@[i]).wf()
            && 0 < post.active@[i].loan_id <= post.last_loan_id by {
        if i < n {
            assert(pre.active@[i].wf() && 0 < pre.active@[i].loan_id <= pre.last_loan_id);
        } else {
            assert(post.active@[i] == nl);
            assert(0 < pre.created@[ci].loan_id <= pre.last_loan_id);
        }
    }
    assert forall|i: int, j: int| 0 <= i < j < post.created@.len() implies
        (#[trigger] post.created@[i]).loan_id != (#[trigger] post.created@[j]).loan_id
            && post.created@[i].info.collateral != post.created@[j].info.collateral by {
        let oi: int = if i < ci { i } else { i + 1 };
        let oj: int = if j < ci { j } else { j + 1 };
        assert(post.created@[i] == pre.created@[oi]);
        assert(post.created@[j] == pre.created@[oj]);
        assert(pre.created@[oi].loan_id != pre.created@[oj].loan_id);
        assert(pre.created@[oi].info.collateral != pre.created@[oj].info.collateral);
    }
    assert forall|i: int, j: int| 0 <= i < j < post.active@.len() implies
        (#[trigger] post.active@[i]).loan_id != (#[trigger] post.active@[j]).loan_id
            && post.active@[i].info.collateral != post.active@[j].info.collateral by {
        if j < n {
            assert(pre.active@[i].loan_id != pre.active@[j].loan_id);
            assert(pre.active@[i].info.collateral != pre.active@[j].info.collateral);
        } else {
            assert(post.active@[j] == nl);
            assert(pre.active@[i].loan_id != nl.loan_id);
            assert(pre.created@[ci].info.collateral != pre.active@[i].info.collateral);
        }
    }
    assert forall|i: int, j: int|
        0 <= i < post.created@.len() && 0 <= j < post.active@.len() implies
        (#[trigger] post.created@[i]).loan_id != (#[trigger] post.active@[j]).loan_id
            && post.created@[i].info.collateral != post.active@[j].info.collateral by {
        let oi: int = if i < ci { i } else { i + 1 };
        assert(post.created@[i] == pre.created@[oi]);
        if j < n {
            assert(pre.created@[oi].loan_id != pre.active@[j].loan_id);
            assert(pre.created@[oi].info.collateral != pre.active@[j].info.collateral);
        } else {
            assert(post.active@[j] == nl);
            if oi < ci {
                assert(pre.created@[oi].loan_id != pre.created@[ci].loan_id);
                assert(pre.created@[oi].info.collateral != pre.created@[ci].info.collateral);
            } else {
                assert(pre.created@[ci].loan_id != pre.created@[oi].loan_id);
                assert(pre.created@[ci].info.collateral != pre.created@[oi].info.collateral);
            }
        }
    }
}

proof fn lemma_rate_table_updated(pre: PoolLedger, post: PoolLedger, i: int, rate: InterestRate, factor: Rate)
    requires
        pre.wf(),
        0 <= i < pre.rates@.len(),
        pre.rates@[i].rate == rate,
        post.rates@ == pre.rates@.update(i, RateEntry { rate, factor }),
        post.created@ == pre.created@,
        post.active@ == pre.active@,
        post.prices@ == pre.prices@,
        post.changes@ == pre.changes@,
        post.policy == pre.policy,
        post.last_loan_id == pre.last_loan_id,
    ensures
        post.wf(),
        post.factor_of(rate) == Some(factor),
        forall|other: InterestRate| other != rate
            ==> #[trigger] post.factor_of(other) == pre.factor_of(other),
{
    assert forall|a: int, b: int| 0 <= a < b < post.rates@.len() implies
        (#[trigger] post.rates@[a]).rate != (#[trigger] post.rates@[b]).rate by {
        assert(pre.rates@[a].rate != pre.rates@[b].rate);
    }
    assert(post.rates@[i] == RateEntry { rate, factor });
    assert(post.has_rate(rate));
    let w = choose|k: int| 0 <= k < post.rates@.len() && (#[trigger] post.rates@[k]).rate == rate;
    assert(w == i);
    assert forall|other: InterestRate| other != rate implies
        #[trigger] post.factor_of(other) == pre.factor_of(other) by {
        assert forall|k: int| 0 <= k < post.rates@.len() implies
            ((#[trigger] post.rates@[k]).rate == other <==> pre.rates@[k].rate == other) by {
            if k == i {
                assert(pre.rates@[k].rate == rate);
            }
        }
        if pre.has_rate(other) {
            let k0 = choose|k: int|
                0 <= k < pre.rates@.len() && (#[trigger] pre.rates@[k]).rate == other;
            assert(post.rates@[k0].rate == other);
            assert(post.has_rate(other));
            let k1 = choose|k: int|
                0 <= k < post.rates@.len() && (#[trigger] post.rates@[k]).rate == other;
            assert(pre.rates@[k1].rate == other);
            assert(k0 == k1);
        } else {
            assert(!post.has_rate(other));
        }
    }
}

proof fn lemma_rate_table_pushed(pre: PoolLedger, post: PoolLedger, rate: InterestRate, factor: Rate)
    requires
        pre.wf(),
        !pre.has_rate(rate),
        post.rates@ == pre.rates@.push(RateEntry { rate, factor }),
        post.created@ == pre.created@,
        post.active@ == pre.active@,
        post.prices@ == pre.prices@,
        post.changes@ == pre.changes@,
        post.policy == pre.policy,
        post.last_loan_id == pre.last_loan_id,
    ensures
        post.wf(),
        post.factor_of(rate) == Some(factor),
        forall|other: InterestRate| other != rate
            ==> #[trigger] post.factor_of(other) == pre.factor_of(other),
{
    let n = pre.rates@.len() as int;
    assert forall|a: int, b: int| 0 <= a < b < post.rates@.len() implies
        (#[trigger] post.rates@[a]).rate != (#[trigger] post.rates@[b]).rate by {
        if b < n {
            assert(pre.rates@[a].rate != pre.rates@[b].rate);
        } else {
            assert(post.rates@[b].rate == rate);
            assert(pre.rates@[a].rate != rate);
        }
    }
    assert(post.rates@[n].rate == rate);
    assert(post.has_rate(rate));
    let w = choose|k: int| 0 <= k < post.rates@.len() && (#[trigger] post.rates@[k]).rate == rate;
    assert(w == n);
    assert forall|other: InterestRate| other != rate implies
        #[trigger] post.factor_of(other) == pre.factor_of(other) by {
        if pre.has_rate(other) {
            let k0 = choose|k: int|
                0 <= k < pre.rates@.len() && (#[trigger] pre.rates@[k]).rate == other;
            assert(post.rates@[k0].rate == other);
            assert(post.has_rate(other));
            let k1 = choose|k: int|
                0 <= k < post.rates@.len() && (#[trigger] post.rates@[k]).rate == other;
            assert(k1 != n);
            assert(pre.rates@[k1].rate == other);
            assert(k0 == k1);
        } else {
            assert(!post.has_rate(other));
        }
    }
}

proof fn lemma_price_table_updated(pre: PoolLedger, post: PoolLedger, i: int, price_id: u64, price: u128, at: Seconds)
    requires
        pre.wf(),
        0 <= i < pre.prices@.len(),
        pre.prices@[i].price_id == price_id,
        post.prices@ == pre.prices@.update(i, PriceEntry { price_id, price, at }),
        post.created@ == pre.created@,
        post.active@ == pre.active@,
        post.rates@ == pre.rates@,
        post.changes@ == pre.changes@,
        post.policy == pre.policy,
        post.last_loan_id == pre.last_loan_id,
    ensures
        post.wf(),
        post.price_of(price_id) == Some(PriceEntry { price_id, price, at }),
        forall|other: u64| other != price_id
            ==> #[trigger] post.price_of(other) == pre.price_of(other),
{
    assert forall|a: int, b: int| 0 <= a < b < post.prices@.len() implies
        (#[trigger] post.prices@[a]).price_id != (#[trigger] post.prices@[b]).price_id by {
        assert(pre.prices@[a].price_id != pre.prices@[b].price_id);
    }
    assert(post.prices@[i] == PriceEntry { price_id, price, at });
    assert(post.has_price(price_id));
    let w = choose|k: int|
        0 <= k < post.prices@.len() && (#[trigger] post.prices@[k]).price_id == price_id;
    assert(w == i);
    assert forall|other: u64| other != price_id implies
        #[trigger] post.price_of(other) == pre.price_of(other) by {
        assert forall|k: int| 0 <= k < post.prices@.len() implies
            ((#[trigger] post.prices@[k]).price_id == other <==> pre.prices@[k].price_id == other) by {
            if k == i {
                assert(pre.prices@[k].price_id == price_id);
            }
        }
        if pre.has_price(other) {
            let k0 = choose|k: int|
                0 <= k < pre.prices@.len() && (#[trigger] pre.prices@[k]).price_id == other;
            assert(post.prices@[k0].price_id == other);
            assert(post.has_price(other));
            let k1 = choose|k: int|
                0 <= k < post.prices@.len() && (#[trigger] post.prices@[k]).price_id == other;
            assert(pre.prices@[k1].price_id == other);
            assert(k0 == k1);
        } else {
            assert(!post.has_price(other));
        }
    }
}

proof fn lemma_price_table_pushed(pre: PoolLedger, post: PoolLedger, price_id: u64, price: u128, at: Seconds)
    requires
        pre.wf(),
        !pre.has_price(price_id),
        post.prices@ == pre.prices@.push(PriceEntry { price_id, price, at }),
        post.created@ == pre.created@,
        post.active@ == pre.active@,
        post.rates@ == pre.rates@,
        post.changes@ == pre.changes@,
        post.policy == pre.policy,
        post.last_loan_id == pre.last_loan_id,
    ensures
        post.wf(),
        post.price_of(price_id) == Some(PriceEntry { price_id, price, at }),
        forall|other: u64| other != price_id
            ==> #[trigger] post.price_of(other) == pre.price_of(other),
{
    let n = pre.prices@.len() as int;
    assert forall|a: int, b: int| 0 <= a < b < post.prices@.len() implies
        (#[trigger] post.prices@[a]).price_id != (#[trigger] post.prices@[b]).price_id by {
        if b < n {
            assert(pre.prices@[a].price_id != pre.prices@[b].price_id);
        } else {
            assert(post.prices@[b].price_id == price_id);
            assert(pre.prices@[a].price_id != price_id);
        }
    }
    assert(post.prices@[n].price_id == price_id);
    assert(post.has_price(price_id));
    let w = choose|k: int|
        0 <= k < post.prices@.len() && (#[trigger] post.prices@[k]).price_id == price_id;
    assert(w == n);
    assert forall|other: u64| other != price_id implies
        #[trigger] post.price_of(other) == pre.price_of(other) by {
        if pre.has_price(other) {
            let k0 = choose|k: int|
                0 <= k < pre.prices@.len() && (#[trigger] pre.prices@[k]).price_id == other;
            assert(post.prices@[k0].price_id == other);
            assert(post.has_price(other));
            let k1 = choose|k: int|
                0 <= k < post.prices@.len() && (#[trigger] post.prices@[k]).price_id == other;
            assert(k1 != n);
            assert(pre.prices@[k1].price_id == other);
            assert(k0 == k1);
        } else {
            assert(!post.has_price(other));
        }
    }
}

} // verus!
