//! Unit tests of the fixed-point arithmetic, the write-off policy
//! evaluator and the investment bookkeeping types.

use pool_loans::Error;
use pool_loans::investments::{CollectedAmount, InvestCollection, InvestmentPortfolio,
    RedeemCollection};
use pool_loans::policy::{WriteOffPolicy, WriteOffRule, WriteOffStatus, MAX_WRITE_OFF_RULES};
use pool_loans::rate::{div_rate, mul_rate, per_second_factor, rate_mul, rate_pow, Rate, RATE_ONE,
    SECONDS_PER_YEAR};

#[test]
fn fixed_point_multiplication_is_exact_on_round_values() {
    assert_eq!(mul_rate(1_000_000, Rate::one()), Some(1_000_000));
    assert_eq!(mul_rate(1_000_000, Rate::from_units(RATE_ONE / 2)), Some(500_000));
    assert_eq!(mul_rate(7, Rate::zero()), Some(0));
    // The intermediate product no longer fits in 128 bits.
    assert_eq!(mul_rate(u128::MAX, Rate::one()), None);
}

#[test]
fn fixed_point_division_checks_its_domain() {
    assert_eq!(div_rate(11, Rate::from_units(RATE_ONE / 10 * 11)), Some(10));
    assert_eq!(div_rate(5, Rate::zero()), None);
    assert_eq!(div_rate(u128::MAX, Rate::one()), None);
}

#[test]
fn rate_power_squares_exactly() {
    let two = Rate::from_units(2 * RATE_ONE);
    let result = rate_pow(two, 6).unwrap();
    assert_eq!(result.units, 64 * RATE_ONE);
    assert_eq!(rate_pow(two, 0).unwrap().units, RATE_ONE);
    assert_eq!(rate_pow(two, 1).unwrap().units, 2 * RATE_ONE);
    assert_eq!(rate_mul(two, two).unwrap().units, 4 * RATE_ONE);
    // An intermediate square that does not fit in 128 bits is refused
    // rather than wrapped.
    assert_eq!(rate_pow(Rate::from_units(u128::MAX / 2), 4), None);
}

#[test]
fn per_second_factor_divides_the_annual_rate() {
    let annual = Rate::from_units((SECONDS_PER_YEAR as u128) * 1_000_000_000);
    let per_second = per_second_factor(annual).unwrap();
    assert_eq!(per_second.units, RATE_ONE + 1_000_000_000);
}

#[test]
fn policy_evaluator_picks_the_largest_satisfied_threshold() {
    // One day overdue yields ten percent with a one-percent penalty;
    // thirty days yield a full write-off with a five-percent penalty.
    let policy = WriteOffPolicy::new(vec![
        WriteOffRule {
            overdue_days: 1,
            status: WriteOffStatus {
                percentage: Rate::from_units(RATE_ONE / 10),
                penalty: Rate::from_units(RATE_ONE / 100),
            },
        },
        WriteOffRule {
            overdue_days: 30,
            status: WriteOffStatus {
                percentage: Rate::one(),
                penalty: Rate::from_units(RATE_ONE / 20),
            },
        },
    ])
    .unwrap();
    let rule = policy.find_rule(40).unwrap();
    assert_eq!(rule.status.percentage.units, RATE_ONE);
    assert_eq!(rule.status.penalty.units, RATE_ONE / 20);

    let mild = policy.find_rule(5).unwrap();
    assert_eq!(mild.status.percentage.units, RATE_ONE / 10);
    assert!(policy.find_rule(0).is_none());
}

#[test]
fn policy_evaluator_breaks_ties_by_later_position() {
    let policy = WriteOffPolicy::new(vec![
        WriteOffRule {
            overdue_days: 3,
            status: WriteOffStatus {
                percentage: Rate::from_units(RATE_ONE / 10),
                penalty: Rate::zero(),
            },
        },
        WriteOffRule {
            overdue_days: 3,
            status: WriteOffStatus {
                percentage: Rate::from_units(RATE_ONE / 4),
                penalty: Rate::zero(),
            },
        },
    ])
    .unwrap();
    let rule = policy.find_rule(3).unwrap();
    assert_eq!(rule.status.percentage.units, RATE_ONE / 4);
}

#[test]
fn policy_construction_enforces_its_bounds() {
    let rule = WriteOffRule {
        overdue_days: 1,
        status: WriteOffStatus {
            percentage: Rate::one(),
            penalty: Rate::zero(),
        },
    };
    let too_many = vec![rule; MAX_WRITE_OFF_RULES + 1];
    assert!(matches!(
        WriteOffPolicy::new(too_many),
        Err(Error::TooManyWriteOffRules)
    ));
    let out_of_domain = vec![WriteOffRule {
        overdue_days: 1,
        status: WriteOffStatus {
            percentage: Rate::from_units(RATE_ONE + 1),
            penalty: Rate::zero(),
        },
    }];
    assert!(matches!(
        WriteOffPolicy::new(out_of_domain),
        Err(Error::InvalidWriteOffRule)
    ));
    assert_eq!(WriteOffPolicy::empty().len(), 0);
}

#[test]
fn portfolio_builders_set_their_fields() {
    let portfolio = InvestmentPortfolio::new(3)
        .with_pending_invest_currency(10)
        .with_free_tranche_tokens(20)
        .with_reserved_tranche_tokens(30)
        .with_claimable_tranche_tokens(40)
        .with_pending_redeem_tranche_tokens(50)
        .with_claimable_currency(60);
    assert_eq!(portfolio.pool_currency_id, 3);
    assert_eq!(portfolio.pending_invest_currency, 10);
    assert_eq!(portfolio.free_tranche_tokens, 20);
    assert_eq!(portfolio.reserved_tranche_tokens, 30);
    assert_eq!(portfolio.claimable_tranche_tokens, 40);
    assert_eq!(portfolio.pending_redeem_tranche_tokens, 50);
    assert_eq!(portfolio.claimable_currency, 60);

    let empty = InvestmentPortfolio::new(9);
    assert_eq!(empty.pending_invest_currency, 0);
    assert_eq!(empty.claimable_currency, 0);
}

#[test]
fn collections_start_empty() {
    let invest = InvestCollection::default();
    assert_eq!(invest.payout_investment_invest, 0);
    assert_eq!(invest.remaining_investment_invest, 0);
    let redeem = RedeemCollection::default();
    assert_eq!(redeem.payout_investment_redeem, 0);
    assert_eq!(redeem.remaining_investment_redeem, 0);
}

#[test]
fn collected_amounts_add_checked() {
    let mut total = CollectedAmount { amount_collected: 1, amount_payment: 2 };
    let more = CollectedAmount { amount_collected: 10, amount_payment: 20 };
    assert_eq!(total.increase(&more), Ok(()));
    assert_eq!(total.amount_collected, 11);
    assert_eq!(total.amount_payment, 22);

    let huge = CollectedAmount { amount_collected: u128::MAX, amount_payment: 0 };
    assert_eq!(total.increase(&huge), Err(Error::ArithmeticOverflow));
    // A failed increase changes nothing.
    assert_eq!(total.amount_collected, 11);
    assert_eq!(total.amount_payment, 22);
}
