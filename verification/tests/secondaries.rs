use corp_finance_core::dec::Dec;
use corp_finance_core::error::FinError;
use corp_finance_core::fund_of_funds::secondaries::{calculate_secondaries_pricing, SecondariesPricingInput};
use rust_decimal::Decimal;

fn d(s: &str) -> Dec {
    let x = Decimal::from_str_exact(s).unwrap();
    Dec::new(x.mantissa(), x.scale())
}

fn v(x: Dec) -> Decimal {
    Decimal::from_i128_with_scale(x.mantissa(), x.scale())
}

fn n(s: &str) -> Decimal {
    Decimal::from_str_exact(s).unwrap()
}

fn approx_eq(a: Decimal, b: Decimal, eps: Decimal) -> bool {
    (a - b).abs() < eps
}

fn default_input() -> SecondariesPricingInput {
    SecondariesPricingInput {
        fund_nav: d("50000000"),
        unfunded_commitment: d("10000000"),
        remaining_life_years: 5,
        expected_distribution_rate: d("0.15"),
        expected_growth_rate: d("0.10"),
        discount_rate: d("0.12"),
        management_fee_pct: d("0.02"),
        carry_pct: d("0.20"),
    }
}

#[test]
fn test_secondaries_basic_output() {
    let out = calculate_secondaries_pricing(&default_input()).unwrap();
    assert!(v(out.fair_value) > Decimal::ZERO, "Fair value should be positive");
}

#[test]
fn test_secondaries_fair_value_equals_components() {
    let out = calculate_secondaries_pricing(&default_input()).unwrap();
    let expected = v(out.distributions_pv) + v(out.terminal_value_pv) - v(out.unfunded_pv);
    assert!(approx_eq(v(out.fair_value), expected, n("1.0")));
}

#[test]
fn test_secondaries_nav_discount_range() {
    let out = calculate_secondaries_pricing(&default_input()).unwrap();
    let p = v(out.nav_discount_pct);
    assert!(p > n("-1.0") && p < Decimal::ONE, "NAV discount {} seems extreme", p);
}

#[test]
fn test_secondaries_unfunded_pv_positive() {
    let out = calculate_secondaries_pricing(&default_input()).unwrap();
    assert!(v(out.unfunded_pv) > Decimal::ZERO);
}

#[test]
fn test_secondaries_unfunded_pv_zero_when_no_unfunded() {
    let mut input = default_input();
    input.unfunded_commitment = d("0");
    let out = calculate_secondaries_pricing(&input).unwrap();
    assert_eq!(v(out.unfunded_pv), Decimal::ZERO);
}

#[test]
fn test_secondaries_distributions_pv_positive() {
    let out = calculate_secondaries_pricing(&default_input()).unwrap();
    assert!(v(out.distributions_pv) > Decimal::ZERO);
}

#[test]
fn test_secondaries_terminal_pv_positive() {
    let out = calculate_secondaries_pricing(&default_input()).unwrap();
    assert!(v(out.terminal_value_pv) > Decimal::ZERO);
}

#[test]
fn test_secondaries_irr_scenarios_count() {
    let out = calculate_secondaries_pricing(&default_input()).unwrap();
    assert_eq!(out.irr_scenarios.len(), 5);
}

#[test]
fn test_secondaries_irr_increases_with_multiple() {
    let out = calculate_secondaries_pricing(&default_input()).unwrap();
    for i in 1..out.irr_scenarios.len() {
        assert!(
            v(out.irr_scenarios[i].irr) >= v(out.irr_scenarios[i - 1].irr),
            "IRR should increase with exit multiple"
        );
    }
}

#[test]
fn test_secondaries_irr_at_discount_gt_nav() {
    let out = calculate_secondaries_pricing(&default_input()).unwrap();
    if v(out.nav_discount_pct) < Decimal::ZERO {
        assert!(v(out.irr_at_discount) >= v(out.irr_at_nav));
    }
}

#[test]
fn test_secondaries_breakeven_multiple_positive() {
    let out = calculate_secondaries_pricing(&default_input()).unwrap();
    assert!(v(out.breakeven_multiple) >= Decimal::ZERO);
}

#[test]
fn test_secondaries_higher_discount_rate_lower_fair_value() {
    let mut low_dr = default_input();
    low_dr.discount_rate = d("0.08");
    let mut high_dr = default_input();
    high_dr.discount_rate = d("0.18");
    let out_low = calculate_secondaries_pricing(&low_dr).unwrap();
    let out_high = calculate_secondaries_pricing(&high_dr).unwrap();
    assert!(v(out_low.fair_value) > v(out_high.fair_value));
}

#[test]
fn test_secondaries_higher_growth_higher_fair_value() {
    let mut low_g = default_input();
    low_g.expected_growth_rate = d("0.05");
    let mut high_g = default_input();
    high_g.expected_growth_rate = d("0.20");
    let out_low = calculate_secondaries_pricing(&low_g).unwrap();
    let out_high = calculate_secondaries_pricing(&high_g).unwrap();
    assert!(v(out_high.fair_value) > v(out_low.fair_value));
}

#[test]
fn test_secondaries_no_carry_higher_fair_value() {
    let with_carry = default_input();
    let mut no_carry = default_input();
    no_carry.carry_pct = d("0");
    let out_carry = calculate_secondaries_pricing(&with_carry).unwrap();
    let out_no = calculate_secondaries_pricing(&no_carry).unwrap();
    assert!(v(out_no.fair_value) >= v(out_carry.fair_value));
}

#[test]
fn test_reject_zero_nav() {
    let mut input = default_input();
    input.fund_nav = d("0");
    assert!(calculate_secondaries_pricing(&input).is_err());
}

#[test]
fn test_reject_negative_unfunded() {
    let mut input = default_input();
    input.unfunded_commitment = d("-1");
    assert!(calculate_secondaries_pricing(&input).is_err());
}

#[test]
fn test_reject_zero_remaining_life() {
    let mut input = default_input();
    input.remaining_life_years = 0;
    assert!(calculate_secondaries_pricing(&input).is_err());
}

#[test]
fn test_reject_negative_discount_rate() {
    let mut input = default_input();
    input.discount_rate = d("-0.01");
    assert!(calculate_secondaries_pricing(&input).is_err());
}

#[test]
fn test_reject_distribution_rate_over_one() {
    let mut input = default_input();
    input.expected_distribution_rate = d("1.5");
    assert!(calculate_secondaries_pricing(&input).is_err());
}

#[test]
fn secondaries_test_reject_excessive_management_fee() {
    let mut input = default_input();
    input.management_fee_pct = d("0.15");
    assert!(calculate_secondaries_pricing(&input).is_err());
}

#[test]
fn test_reject_carry_over_one() {
    let mut input = default_input();
    input.carry_pct = d("1.5");
    assert!(calculate_secondaries_pricing(&input).is_err());
}

#[test]
fn test_single_year_remaining() {
    let mut input = default_input();
    input.remaining_life_years = 1;
    let out = calculate_secondaries_pricing(&input).unwrap();
    assert!(v(out.fair_value) > Decimal::ZERO);
    assert_eq!(out.irr_scenarios.len(), 5);
}

#[test]
fn secondaries_rejection_names_the_field() {
    let mut input = default_input();
    input.carry_pct = d("1.5");
    match calculate_secondaries_pricing(&input) {
        Err(FinError::InvalidInput { field, .. }) => assert_eq!(field, "carry_pct"),
        _ => panic!("expected an invalid-input error"),
    }
}

#[test]
fn secondaries_one_year_exact_figures() {
    // One year, nothing unfunded, no fee, no carry, no growth, no discount:
    // the whole NAV is either distributed or kept, so the fair value is the NAV.
    let input = SecondariesPricingInput {
        fund_nav: d("100"),
        unfunded_commitment: d("0"),
        remaining_life_years: 1,
        expected_distribution_rate: d("0.5"),
        expected_growth_rate: d("0"),
        discount_rate: d("0"),
        management_fee_pct: d("0"),
        carry_pct: d("0"),
    };
    let out = calculate_secondaries_pricing(&input).unwrap();
    assert_eq!(v(out.distributions_pv), n("50"));
    assert_eq!(v(out.terminal_value_pv), n("50"));
    assert_eq!(v(out.fair_value), n("100"));
    assert_eq!(v(out.nav_discount_pct), Decimal::ZERO);
    assert_eq!(v(out.breakeven_multiple), Decimal::ONE);
}
