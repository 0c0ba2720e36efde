//! End-to-end scenarios against the pool ledger: lifecycle, limits,
//! write-offs, the change gateway and portfolio valuation.

use pool_loans::Error;
use pool_loans::ledger::PoolLedger;
use pool_loans::loan::{BorrowRestrictions, CollateralRef, CompoundingSchedule, DiscountedCashFlow,
    InterestPayments, InterestRate, InternalPricing, ExternalPricing, LoanInfo, LoanMutation,
    LoanRestrictions, Maturity, MaxBorrowAmount, PayDownSchedule, Pricing, RepayRestrictions,
    RepaymentSchedule, ValuationMethod, WriteOffState};
use pool_loans::policy::{WriteOffPolicy, WriteOffRule, WriteOffStatus};
use pool_loans::rate::{Rate, RATE_ONE};

const NOW: u64 = 1_700_000_000;
const FORTY_YEARS: u64 = 40 * 365 * 24 * 3600;
const COLLATERAL_VALUE: u128 = 1_000_000;
const DAY: u64 = 86_400;

fn base_rate() -> InterestRate {
    InterestRate {
        rate_per_year: Rate::from_units(RATE_ONE / 5000),
        compounding: CompoundingSchedule::Secondly,
    }
}

fn internal_info(item: u64, advance_rate: Rate) -> LoanInfo {
    LoanInfo {
        schedule: RepaymentSchedule {
            maturity: Maturity::Fixed { date: NOW + FORTY_YEARS },
            interest_payments: InterestPayments::OnceAtMaturity,
            pay_down_schedule: PayDownSchedule::NoSchedule,
        },
        collateral: CollateralRef { collection: 42, item },
        interest_rate: base_rate(),
        pricing: Pricing::Internal(InternalPricing {
            collateral_value: COLLATERAL_VALUE,
            max_borrow_amount: MaxBorrowAmount::UpToOutstandingDebt { advance_rate },
            valuation_method: ValuationMethod::OutstandingDebt,
        }),
        restrictions: LoanRestrictions {
            borrows: BorrowRestrictions::NotWrittenOff,
            repayments: RepayRestrictions::Unrestricted,
        },
    }
}

fn fresh_ledger() -> PoolLedger {
    let mut ledger = PoolLedger::new(1, 0);
    ledger.reference_rate(base_rate(), Rate::one());
    ledger
}

#[test]
fn create_assigns_increasing_ids_and_locks_collateral() {
    let mut ledger = fresh_ledger();
    let id1 = ledger.create(internal_info(1, Rate::one()), NOW).unwrap();
    assert_eq!(id1, 1);
    let clash = ledger.create(internal_info(1, Rate::one()), NOW);
    assert_eq!(clash, Err(Error::CollateralAlreadyUsed));
    let id2 = ledger.create(internal_info(2, Rate::one()), NOW).unwrap();
    assert_eq!(id2, 2);
}

#[test]
fn create_rejects_past_maturity() {
    let mut ledger = fresh_ledger();
    let mut info = internal_info(1, Rate::one());
    info.schedule.maturity = Maturity::Fixed { date: NOW };
    assert_eq!(ledger.create(info, NOW), Err(Error::InvalidMaturity));
}

#[test]
fn create_rejects_advance_rate_above_one() {
    let mut ledger = fresh_ledger();
    let info = internal_info(1, Rate::from_units(RATE_ONE + 1));
    assert_eq!(ledger.create(info, NOW), Err(Error::InvalidPricing));
}

#[test]
fn borrow_limit_boundary() {
    let mut ledger = fresh_ledger();
    let id = ledger.create(internal_info(1, Rate::one()), NOW).unwrap();
    assert_eq!(ledger.borrow(id, 1_000_000, NOW), Ok(()));
    assert_eq!(ledger.outstanding_principal_of(id), Some(1_000_000));

    let other = ledger.create(internal_info(2, Rate::one()), NOW).unwrap();
    assert_eq!(ledger.borrow(other, 1_000_001, NOW), Err(Error::BorrowLimitExceeded));
    assert!(ledger.get_active_loan(other).is_none());
}

#[test]
fn outstanding_debt_cap_allows_reborrowing() {
    let mut ledger = fresh_ledger();
    let id = ledger.create(internal_info(1, Rate::one()), NOW).unwrap();
    ledger.borrow(id, 1_000_000, NOW).unwrap();
    assert_eq!(ledger.borrow(id, 1, NOW), Err(Error::BorrowLimitExceeded));
    ledger.repay(id, 400_000, 0, 0).unwrap();
    assert_eq!(ledger.borrow(id, 400_000, NOW), Ok(()));
    assert_eq!(ledger.outstanding_principal_of(id), Some(1_000_000));
}

#[test]
fn borrow_repay_round_trip_restores_principal() {
    let mut ledger = fresh_ledger();
    let id = ledger.create(internal_info(1, Rate::one()), NOW).unwrap();
    ledger.borrow(id, 100, NOW).unwrap();
    assert_eq!(ledger.outstanding_principal_of(id), Some(100));

    ledger.borrow(id, 10, NOW).unwrap();
    let summary = ledger.repay(id, 10, 0, 0).unwrap();
    assert_eq!(summary.principal, 10);
    assert_eq!(summary.interest, 0);
    assert_eq!(ledger.outstanding_principal_of(id), Some(100));
}

#[test]
fn principal_never_goes_negative() {
    let mut ledger = fresh_ledger();
    let id = ledger.create(internal_info(1, Rate::one()), NOW).unwrap();
    ledger.borrow(id, 10, NOW).unwrap();
    ledger.repay(id, 10, 0, 0).unwrap();
    // Excess principal is ignored under the unrestricted repay policy.
    let summary = ledger.repay(id, 5, 0, 0).unwrap();
    assert_eq!(summary.principal, 0);
    assert_eq!(ledger.outstanding_principal_of(id), Some(0));
}

#[test]
fn no_excess_restriction_rejects_overpayment() {
    let mut ledger = fresh_ledger();
    let mut info = internal_info(1, Rate::one());
    info.restrictions.repayments = RepayRestrictions::NoExcess;
    let id = ledger.create(info, NOW).unwrap();
    ledger.borrow(id, 10, NOW).unwrap();
    assert_eq!(ledger.repay(id, 11, 0, 0), Err(Error::RepayAmountTooHigh));
    assert_eq!(ledger.outstanding_principal_of(id), Some(10));
}

#[test]
fn full_repayment_then_close() {
    // Forty-year maturity, internal pricing by outstanding debt,
    // collateral one million at full advance: borrow ten, repay ten with
    // the interest input at its maximum, and the loan is closable.
    let mut ledger = fresh_ledger();
    let id = ledger.create(internal_info(1, Rate::one()), NOW).unwrap();
    ledger.borrow(id, 10, NOW).unwrap();
    let summary = ledger.repay(id, 10, u128::MAX, 0).unwrap();
    assert_eq!(summary.principal, 10);
    assert_eq!(summary.interest, 0);
    assert_eq!(ledger.outstanding_principal_of(id), Some(0));
    assert_eq!(ledger.close(id), Ok(()));
    assert!(ledger.get_active_loan(id).is_none());
    // The collateral lock is released with the loan.
    let reused = ledger.create(internal_info(1, Rate::one()), NOW).unwrap();
    assert_eq!(reused, 2);
}

#[test]
fn close_refuses_open_debt() {
    let mut ledger = fresh_ledger();
    let id = ledger.create(internal_info(1, Rate::one()), NOW).unwrap();
    ledger.borrow(id, 10, NOW).unwrap();
    assert_eq!(ledger.close(id), Err(Error::LoanNotFullyRepaid));
}

#[test]
fn interest_accrues_through_the_rate_reference() {
    let mut ledger = fresh_ledger();
    let id = ledger.create(internal_info(1, Rate::one()), NOW).unwrap();
    ledger.borrow(id, 10, NOW).unwrap();
    // The registry reports a ten-percent cumulative factor increase.
    ledger.reference_rate(base_rate(), Rate::from_units(RATE_ONE / 10 * 11));
    let summary = ledger.repay(id, 10, u128::MAX, 0).unwrap();
    assert_eq!(summary.principal, 10);
    assert_eq!(summary.interest, 1);
    assert_eq!(ledger.close(id), Ok(()));
}

#[test]
fn write_off_needs_an_applicable_rule() {
    let mut ledger = fresh_ledger();
    let id = ledger.create(internal_info(1, Rate::one()), NOW).unwrap();
    ledger.borrow(id, 10, NOW).unwrap();
    let overdue = NOW + FORTY_YEARS + 40 * DAY;
    assert_eq!(ledger.write_off(id, overdue), Err(Error::NoWriteOffRuleApplies));
}

fn two_rule_policy() -> WriteOffPolicy {
    WriteOffPolicy::new(vec![
        WriteOffRule {
            overdue_days: 1,
            status: WriteOffStatus {
                percentage: Rate::from_units(RATE_ONE / 10),
                penalty: Rate::from_units(RATE_ONE / 100),
            },
        },
        WriteOffRule {
            overdue_days: 30,
            status: WriteOffStatus {
                percentage: Rate::one(),
                penalty: Rate::from_units(RATE_ONE / 20),
            },
        },
    ])
    .unwrap()
}

fn install_policy(ledger: &mut PoolLedger, policy: WriteOffPolicy) {
    let change_id = ledger.propose_write_off_policy(policy, NOW).unwrap();
    ledger.apply_write_off_policy(change_id, NOW).unwrap();
}

#[test]
fn write_off_applies_most_punitive_rule() {
    let mut ledger = fresh_ledger();
    // Register the accrual references of both penalized rates.
    ledger.reference_rate(
        InterestRate {
            rate_per_year: Rate::from_units(RATE_ONE / 5000 + RATE_ONE / 100),
            compounding: CompoundingSchedule::Secondly,
        },
        Rate::one(),
    );
    ledger.reference_rate(
        InterestRate {
            rate_per_year: Rate::from_units(RATE_ONE / 5000 + RATE_ONE / 20),
            compounding: CompoundingSchedule::Secondly,
        },
        Rate::one(),
    );
    install_policy(&mut ledger, two_rule_policy());
    let id = ledger.create(internal_info(1, Rate::one()), NOW).unwrap();
    ledger.borrow(id, 10, NOW).unwrap();

    // Forty days overdue: both rules are satisfied, the thirty-day one wins.
    let overdue = NOW + FORTY_YEARS + 40 * DAY;
    assert_eq!(ledger.write_off(id, overdue), Ok(()));
    let loan = ledger.get_active_loan(id).unwrap();
    match loan.write_off {
        WriteOffState::WrittenOffByPolicy(status) => {
            assert_eq!(status.percentage.units, RATE_ONE);
            assert_eq!(status.penalty.units, RATE_ONE / 20);
        }
        _ => panic!("expected a policy write-off"),
    }
    // A fully written-off loan has zero present value.
    assert_eq!(ledger.present_value_of(id, overdue), Ok(0));
}

#[test]
fn written_off_loan_cannot_borrow() {
    let mut ledger = fresh_ledger();
    ledger.reference_rate(
        InterestRate {
            rate_per_year: Rate::from_units(RATE_ONE / 5000 + RATE_ONE / 100),
            compounding: CompoundingSchedule::Secondly,
        },
        Rate::one(),
    );
    install_policy(
        &mut ledger,
        WriteOffPolicy::new(vec![WriteOffRule {
            overdue_days: 1,
            status: WriteOffStatus {
                percentage: Rate::from_units(RATE_ONE / 10),
                penalty: Rate::from_units(RATE_ONE / 100),
            },
        }])
        .unwrap(),
    );
    let id = ledger.create(internal_info(1, Rate::one()), NOW).unwrap();
    ledger.borrow(id, 10, NOW).unwrap();
    let overdue = NOW + FORTY_YEARS + 2 * DAY;
    ledger.write_off(id, overdue).unwrap();
    assert_eq!(ledger.borrow(id, 1, overdue), Err(Error::LoanWrittenOff));
}

#[test]
fn admin_write_off_cannot_undercut_policy() {
    let mut ledger = fresh_ledger();
    ledger.reference_rate(
        InterestRate {
            rate_per_year: Rate::from_units(RATE_ONE / 5000 + RATE_ONE / 20),
            compounding: CompoundingSchedule::Secondly,
        },
        Rate::one(),
    );
    install_policy(&mut ledger, two_rule_policy());
    let id = ledger.create(internal_info(1, Rate::one()), NOW).unwrap();
    ledger.borrow(id, 10, NOW).unwrap();
    let overdue = NOW + FORTY_YEARS + 40 * DAY;
    // Less punitive than the applicable thirty-day rule.
    let too_mild = WriteOffStatus {
        percentage: Rate::from_units(RATE_ONE / 2),
        penalty: Rate::from_units(RATE_ONE / 20),
    };
    assert_eq!(
        ledger.admin_write_off(id, too_mild, overdue),
        Err(Error::AdminWriteOffLessThanPolicy)
    );
    // As punitive as the rule: accepted.
    let exact = WriteOffStatus {
        percentage: Rate::one(),
        penalty: Rate::from_units(RATE_ONE / 20),
    };
    assert_eq!(ledger.admin_write_off(id, exact, overdue), Ok(()));
    let loan = ledger.get_active_loan(id).unwrap();
    assert!(matches!(loan.write_off, WriteOffState::WrittenOffByAdmin(_)));
}

#[test]
fn proposing_the_same_change_twice_yields_the_same_id() {
    let mut ledger = fresh_ledger();
    let id = ledger.create(internal_info(1, Rate::one()), NOW).unwrap();
    ledger.borrow(id, 10, NOW).unwrap();
    let mutation = LoanMutation::InterestPayments(InterestPayments::OnceAtMaturity);
    let first = ledger.propose_loan_mutation(id, mutation, NOW).unwrap();
    let second = ledger.propose_loan_mutation(id, mutation, NOW + 5).unwrap();
    assert_eq!(first, second);
}

#[test]
fn change_is_single_use() {
    let mut ledger = fresh_ledger();
    let id = ledger.create(internal_info(1, Rate::one()), NOW).unwrap();
    ledger.borrow(id, 10, NOW).unwrap();
    let mutation = LoanMutation::Maturity(Maturity::Fixed { date: NOW + FORTY_YEARS + DAY });
    let change_id = ledger.propose_loan_mutation(id, mutation, NOW).unwrap();
    assert_eq!(ledger.apply_loan_mutation(change_id, NOW), Ok(()));
    let loan = ledger.get_active_loan(id).unwrap();
    assert_eq!(loan.info.schedule.maturity, Maturity::Fixed { date: NOW + FORTY_YEARS + DAY });
    assert_eq!(
        ledger.apply_loan_mutation(change_id, NOW),
        Err(Error::ChangeAlreadyApplied)
    );
}

#[test]
fn change_respects_the_governance_delay() {
    let mut ledger = PoolLedger::new(1, 1000);
    ledger.reference_rate(base_rate(), Rate::one());
    let id = ledger.create(internal_info(1, Rate::one()), NOW).unwrap();
    ledger.borrow(id, 10, NOW).unwrap();
    let mutation = LoanMutation::InterestPayments(InterestPayments::OnceAtMaturity);
    let change_id = ledger.propose_loan_mutation(id, mutation, NOW).unwrap();
    assert_eq!(ledger.apply_loan_mutation(change_id, NOW + 999), Err(Error::ChangeNotReady));
    assert_eq!(ledger.apply_loan_mutation(change_id, NOW + 1000), Ok(()));
}

#[test]
fn change_kinds_are_not_interchangeable() {
    let mut ledger = fresh_ledger();
    let id = ledger.create(internal_info(1, Rate::one()), NOW).unwrap();
    ledger.borrow(id, 10, NOW).unwrap();
    let mutation = LoanMutation::InterestPayments(InterestPayments::OnceAtMaturity);
    let change_id = ledger.propose_loan_mutation(id, mutation, NOW).unwrap();
    assert_eq!(ledger.apply_write_off_policy(change_id, NOW), Err(Error::UnrelatedChange));
    assert_eq!(ledger.apply_transfer_debt(change_id, NOW), Err(Error::UnrelatedChange));
    assert_eq!(ledger.apply_loan_mutation(77, NOW), Err(Error::ChangeNotFound));
}

#[test]
fn debt_transfer_moves_principal_atomically() {
    let mut ledger = fresh_ledger();
    let source = ledger.create(internal_info(1, Rate::one()), NOW).unwrap();
    ledger.borrow(source, 10, NOW).unwrap();
    let target = ledger.create(internal_info(2, Rate::one()), NOW).unwrap();
    let change_id = ledger
        .propose_transfer_debt(source, target, 10, 0, 0, 10, NOW)
        .unwrap();
    assert_eq!(ledger.apply_transfer_debt(change_id, NOW), Ok(()));
    assert_eq!(ledger.outstanding_principal_of(source), Some(0));
    assert_eq!(ledger.outstanding_principal_of(target), Some(10));
}

#[test]
fn failed_transfer_leaves_source_untouched() {
    let mut ledger = fresh_ledger();
    let source = ledger.create(internal_info(1, Rate::one()), NOW).unwrap();
    ledger.borrow(source, 10, NOW).unwrap();
    // The target's collateral is worth five: borrowing ten must fail.
    let mut small = internal_info(2, Rate::one());
    small.pricing = Pricing::Internal(InternalPricing {
        collateral_value: 5,
        max_borrow_amount: MaxBorrowAmount::UpToOutstandingDebt { advance_rate: Rate::one() },
        valuation_method: ValuationMethod::OutstandingDebt,
    });
    let target = ledger.create(small, NOW).unwrap();
    let change_id = ledger
        .propose_transfer_debt(source, target, 10, 0, 0, 10, NOW)
        .unwrap();
    assert_eq!(
        ledger.apply_transfer_debt(change_id, NOW),
        Err(Error::BorrowLimitExceeded)
    );
    // No partial repayment happened on the source; the target never
    // activated.
    assert_eq!(ledger.outstanding_principal_of(source), Some(10));
    assert!(ledger.get_active_loan(target).is_none());
    assert!(ledger.get_created_info(target).is_some());
}

#[test]
fn valuation_sums_present_values_and_clears_the_dirty_flag() {
    let mut ledger = fresh_ledger();
    let a = ledger.create(internal_info(1, Rate::one()), NOW).unwrap();
    ledger.borrow(a, 100, NOW).unwrap();
    let b = ledger.create(internal_info(2, Rate::one()), NOW).unwrap();
    ledger.borrow(b, 250, NOW).unwrap();
    assert!(ledger.is_valuation_dirty());
    assert_eq!(ledger.update_portfolio_valuation(NOW + 1), Ok(350));
    assert!(!ledger.is_valuation_dirty());
    let cached = ledger.portfolio_valuation();
    assert_eq!(cached.value, 350);
    assert_eq!(cached.last_updated, NOW + 1);
}

#[test]
fn empty_pool_has_zero_valuation() {
    let mut ledger = fresh_ledger();
    assert_eq!(ledger.update_portfolio_valuation(NOW), Ok(0));
}

#[test]
fn discounted_cash_flow_valuation_discounts_from_maturity() {
    let mut ledger = fresh_ledger();
    let mut info = internal_info(1, Rate::one());
    info.pricing = Pricing::Internal(InternalPricing {
        collateral_value: COLLATERAL_VALUE,
        max_borrow_amount: MaxBorrowAmount::UpToOutstandingDebt { advance_rate: Rate::one() },
        valuation_method: ValuationMethod::DiscountedCashFlow(DiscountedCashFlow {
            probability_of_default: Rate::zero(),
            loss_given_default: Rate::zero(),
            discount_rate: InterestRate {
                rate_per_year: Rate::zero(),
                compounding: CompoundingSchedule::Secondly,
            },
        }),
    });
    let id = ledger.create(info, NOW).unwrap();
    ledger.borrow(id, 1000, NOW).unwrap();
    // Zero default probability and a zero discount rate: the present value
    // is the debt itself.
    assert_eq!(ledger.present_value_of(id, NOW), Ok(1000));
    assert_eq!(ledger.update_portfolio_valuation(NOW), Ok(1000));
}

#[test]
fn discounted_cash_flow_applies_the_expected_loss() {
    let mut ledger = fresh_ledger();
    let mut info = internal_info(1, Rate::one());
    info.pricing = Pricing::Internal(InternalPricing {
        collateral_value: COLLATERAL_VALUE,
        max_borrow_amount: MaxBorrowAmount::UpToOutstandingDebt { advance_rate: Rate::one() },
        valuation_method: ValuationMethod::DiscountedCashFlow(DiscountedCashFlow {
            probability_of_default: Rate::from_units(RATE_ONE / 2),
            loss_given_default: Rate::from_units(RATE_ONE / 2),
            discount_rate: InterestRate {
                rate_per_year: Rate::zero(),
                compounding: CompoundingSchedule::Secondly,
            },
        }),
    });
    let id = ledger.create(info, NOW).unwrap();
    ledger.borrow(id, 1000, NOW).unwrap();
    // Expected loss is a quarter of the debt; no discounting at a zero rate.
    assert_eq!(ledger.present_value_of(id, NOW), Ok(750));
}

#[test]
fn discounted_cash_flow_discounts_one_second_to_maturity() {
    let mut ledger = fresh_ledger();
    let mut info = internal_info(1, Rate::one());
    info.schedule.maturity = Maturity::Fixed { date: NOW + 1 };
    info.pricing = Pricing::Internal(InternalPricing {
        collateral_value: COLLATERAL_VALUE,
        max_borrow_amount: MaxBorrowAmount::UpToOutstandingDebt { advance_rate: Rate::one() },
        valuation_method: ValuationMethod::DiscountedCashFlow(DiscountedCashFlow {
            probability_of_default: Rate::zero(),
            loss_given_default: Rate::zero(),
            // One billionth per second of the year: the per-second factor
            // becomes one plus a billionth.
            discount_rate: InterestRate {
                rate_per_year: Rate::from_units(31_536_000 * 1_000_000_000),
                compounding: CompoundingSchedule::Secondly,
            },
        }),
    });
    let id = ledger.create(info, NOW).unwrap();
    ledger.borrow(id, 1000, NOW).unwrap();
    // 1000 discounted for one second at 1e-9 per second, rounded down.
    assert_eq!(ledger.present_value_of(id, NOW), Ok(999));
    // At maturity nothing is discounted any more.
    assert_eq!(ledger.present_value_of(id, NOW + 1), Ok(1000));
}

#[test]
fn rate_mutation_renormalizes_and_failure_does_not_spend_the_change() {
    let mut ledger = fresh_ledger();
    let id = ledger.create(internal_info(1, Rate::one()), NOW).unwrap();
    ledger.borrow(id, 10, NOW).unwrap();
    let new_rate = Rate::from_units(RATE_ONE / 2500);
    let change_id = ledger
        .propose_loan_mutation(id, LoanMutation::InterestRate(new_rate), NOW)
        .unwrap();
    // The registry was never consulted for the new rate: the application
    // fails and the change stays pending.
    assert_eq!(ledger.apply_loan_mutation(change_id, NOW), Err(Error::RateNotRegistered));
    ledger.reference_rate(
        InterestRate { rate_per_year: new_rate, compounding: CompoundingSchedule::Secondly },
        Rate::one(),
    );
    assert_eq!(ledger.apply_loan_mutation(change_id, NOW), Ok(()));
    let loan = ledger.get_active_loan(id).unwrap();
    assert_eq!(loan.info.interest_rate.rate_per_year, new_rate);
    // The debt was carried over unchanged across the rate switch.
    assert_eq!(ledger.present_value_of(id, NOW), Ok(10));
    let summary = ledger.repay(id, 10, u128::MAX, 0).unwrap();
    assert_eq!(summary.interest, 0);
    assert_eq!(ledger.close(id), Ok(()));
}

#[test]
fn collateral_value_mutation_needs_internal_pricing() {
    let mut ledger = fresh_ledger();
    let info = LoanInfo {
        schedule: RepaymentSchedule {
            maturity: Maturity::Fixed { date: NOW + FORTY_YEARS },
            interest_payments: InterestPayments::OnceAtMaturity,
            pay_down_schedule: PayDownSchedule::NoSchedule,
        },
        collateral: CollateralRef { collection: 42, item: 9 },
        interest_rate: base_rate(),
        pricing: Pricing::External(ExternalPricing {
            price_id: 7,
            max_borrow_quantity: 100,
            max_borrow_amount: MaxBorrowAmount::UpToTotalBorrowed { advance_rate: Rate::one() },
        }),
        restrictions: LoanRestrictions {
            borrows: BorrowRestrictions::NotWrittenOff,
            repayments: RepayRestrictions::Unrestricted,
        },
    };
    let id = ledger.create(info, NOW).unwrap();
    ledger.borrow(id, 10, NOW).unwrap();
    let change_id = ledger
        .propose_loan_mutation(id, LoanMutation::CollateralValue(5), NOW)
        .unwrap();
    assert_eq!(ledger.apply_loan_mutation(change_id, NOW), Err(Error::InvalidMutation));
}

#[test]
fn transfer_to_the_same_loan_is_refused() {
    let mut ledger = fresh_ledger();
    let id = ledger.create(internal_info(1, Rate::one()), NOW).unwrap();
    ledger.borrow(id, 10, NOW).unwrap();
    assert_eq!(
        ledger.propose_transfer_debt(id, id, 1, 0, 0, 1, NOW),
        Err(Error::InvalidMutation)
    );
}

#[test]
fn external_pricing_values_quantity_at_latest_price() {
    let mut ledger = fresh_ledger();
    let info = LoanInfo {
        schedule: RepaymentSchedule {
            maturity: Maturity::Fixed { date: NOW + FORTY_YEARS },
            interest_payments: InterestPayments::OnceAtMaturity,
            pay_down_schedule: PayDownSchedule::NoSchedule,
        },
        collateral: CollateralRef { collection: 42, item: 9 },
        interest_rate: base_rate(),
        pricing: Pricing::External(ExternalPricing {
            price_id: 7,
            max_borrow_quantity: 100,
            max_borrow_amount: MaxBorrowAmount::UpToTotalBorrowed { advance_rate: Rate::one() },
        }),
        restrictions: LoanRestrictions {
            borrows: BorrowRestrictions::NotWrittenOff,
            repayments: RepayRestrictions::Unrestricted,
        },
    };
    let id = ledger.create(info, NOW).unwrap();
    ledger.borrow(id, 60, NOW).unwrap();
    assert_eq!(ledger.borrow(id, 50, NOW), Err(Error::BorrowLimitExceeded));
    // No price recorded yet: the valuation cannot be computed.
    assert_eq!(ledger.update_portfolio_valuation(NOW), Err(Error::PriceNotRegistered));
    ledger.set_price(7, 3, NOW);
    assert_eq!(ledger.update_portfolio_valuation(NOW), Ok(180));
    ledger.set_price(7, 5, NOW + 10);
    assert_eq!(ledger.update_portfolio_valuation(NOW + 10), Ok(300));
}

#[test]
fn operations_on_unknown_loans_fail() {
    let mut ledger = fresh_ledger();
    assert_eq!(ledger.borrow(9, 1, NOW), Err(Error::LoanNotFound));
    assert_eq!(ledger.repay(9, 1, 0, 0), Err(Error::LoanNotFound));
    assert_eq!(ledger.write_off(9, NOW), Err(Error::LoanNotFound));
    assert_eq!(ledger.close(9), Err(Error::LoanNotFound));
    let id = ledger.create(internal_info(1, Rate::one()), NOW).unwrap();
    // A created loan has no ledger entry yet: repaying it is refused.
    assert_eq!(ledger.repay(id, 1, 0, 0), Err(Error::LoanNotFound));
}

#[test]
fn borrow_requires_a_consumed_rate_reference() {
    let mut ledger = PoolLedger::new(1, 0);
    let id = ledger.create(internal_info(1, Rate::one()), NOW).unwrap();
    assert_eq!(ledger.borrow(id, 10, NOW), Err(Error::RateNotRegistered));
}

#[test]
fn increase_debt_skips_the_borrow_limit() {
    let mut ledger = fresh_ledger();
    let id = ledger.create(internal_info(1, Rate::one()), NOW).unwrap();
    assert_eq!(ledger.borrow(id, 1_000_001, NOW), Err(Error::BorrowLimitExceeded));
    assert_eq!(ledger.increase_debt(id, 1_000_001, NOW), Ok(()));
    assert_eq!(ledger.outstanding_principal_of(id), Some(1_000_001));
}
