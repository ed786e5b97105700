use corp_finance_core::dec::Dec;
use corp_finance_core::error::FinError;
use corp_finance_core::fund_of_funds::commitment_pacing::{
    calculate_commitment_pacing, CommitmentPacingInput, ExistingFund,
};
use rust_decimal::Decimal;

fn d(s: &str) -> Dec {
    let x = Decimal::from_str_exact(s).unwrap();
    Dec::new(x.mantissa(), x.scale())
}

fn v(x: Dec) -> Decimal {
    Decimal::from_i128_with_scale(x.mantissa(), x.scale())
}

fn n(s: &str) -> Decimal {
    Decimal::from_str_exact(s).unwrap()
}

fn approx_eq(a: Decimal, b: Decimal, eps: Decimal) -> bool {
    (a - b).abs() < eps
}

fn fund(vintage: u32, c: &str, u: &str, nav: &str, dd: &str, dist: &str) -> ExistingFund {
    ExistingFund {
        vintage,
        commitment: d(c),
        unfunded: d(u),
        nav: d(nav),
        drawdown_rate: d(dd),
        distribution_rate: d(dist),
    }
}

fn default_input() -> CommitmentPacingInput {
    CommitmentPacingInput {
        existing_funds: vec![
            fund(2020, "50000000", "15000000", "40000000", "0.25", "0.10"),
            fund(2022, "30000000", "20000000", "12000000", "0.30", "0.05"),
        ],
        target_allocation_pct: d("0.15"),
        total_portfolio_value: d("500000000"),
        planning_years: 5,
        new_commitment_per_year: d("25000000"),
        drawdown_curve: vec![d("0.25"), d("0.30"), d("0.25"), d("0.15"), d("0.05")],
        distribution_curve: vec![d("0.0"), d("0.0"), d("0.05"), d("0.10"), d("0.15")],
    }
}

#[test]
fn test_pacing_basic_output_structure() {
    let out = calculate_commitment_pacing(&default_input()).unwrap();
    assert_eq!(out.yearly_projections.len(), 5);
}

#[test]
fn test_pacing_year_numbers_sequential() {
    let out = calculate_commitment_pacing(&default_input()).unwrap();
    for (i, p) in out.yearly_projections.iter().enumerate() {
        assert_eq!(p.year, (i + 1) as u32);
    }
}

#[test]
fn test_pacing_new_commitments_per_year() {
    let out = calculate_commitment_pacing(&default_input()).unwrap();
    for p in &out.yearly_projections {
        assert_eq!(v(p.new_commitments), n("25000000"));
    }
}

#[test]
fn test_pacing_projected_drawdowns_positive() {
    let out = calculate_commitment_pacing(&default_input()).unwrap();
    for p in &out.yearly_projections {
        assert!(v(p.projected_drawdowns) > Decimal::ZERO, "Year {}: drawdowns should be positive", p.year);
    }
}

#[test]
fn test_pacing_projected_nav_positive() {
    let out = calculate_commitment_pacing(&default_input()).unwrap();
    for p in &out.yearly_projections {
        assert!(v(p.projected_nav) >= Decimal::ZERO, "Year {}: NAV should be non-negative", p.year);
    }
}

#[test]
fn test_pacing_allocation_pct_in_range() {
    let out = calculate_commitment_pacing(&default_input()).unwrap();
    for p in &out.yearly_projections {
        let a = v(p.allocation_pct);
        assert!(a >= Decimal::ZERO && a <= Decimal::ONE, "Year {}: allocation {} out of range", p.year, a);
    }
}

#[test]
fn test_pacing_over_commitment_ratio_positive() {
    let out = calculate_commitment_pacing(&default_input()).unwrap();
    assert!(v(out.peak_over_commitment) > Decimal::ZERO, "Peak OC should be positive");
}

#[test]
fn test_pacing_net_cash_flow_equals_dist_minus_dd() {
    let out = calculate_commitment_pacing(&default_input()).unwrap();
    for p in &out.yearly_projections {
        let expected = v(p.projected_distributions) - v(p.projected_drawdowns);
        assert!(approx_eq(v(p.net_cash_flow), expected, n("0.01")), "Year {}: NCF mismatch", p.year);
    }
}

#[test]
fn test_pacing_recommended_pace_positive() {
    let out = calculate_commitment_pacing(&default_input()).unwrap();
    assert!(v(out.recommended_pace) > Decimal::ZERO, "Recommended pace should be positive when below target");
}

#[test]
fn test_pacing_years_to_target_bounded() {
    let input = default_input();
    let out = calculate_commitment_pacing(&input).unwrap();
    assert!(out.years_to_target <= input.planning_years);
}

#[test]
fn test_pacing_no_existing_funds() {
    let mut input = default_input();
    input.existing_funds = vec![];
    let out = calculate_commitment_pacing(&input).unwrap();
    assert_eq!(out.yearly_projections.len(), 5);
}

#[test]
fn test_pacing_zero_new_commitment() {
    let mut input = default_input();
    input.new_commitment_per_year = d("0");
    let out = calculate_commitment_pacing(&input).unwrap();
    for p in &out.yearly_projections {
        assert_eq!(v(p.new_commitments), Decimal::ZERO);
    }
}

#[test]
fn test_reject_zero_portfolio_value() {
    let mut input = default_input();
    input.total_portfolio_value = d("0");
    assert!(calculate_commitment_pacing(&input).is_err());
}

#[test]
fn test_reject_zero_target_allocation() {
    let mut input = default_input();
    input.target_allocation_pct = d("0");
    assert!(calculate_commitment_pacing(&input).is_err());
}

#[test]
fn test_reject_target_allocation_over_one() {
    let mut input = default_input();
    input.target_allocation_pct = d("1.5");
    assert!(calculate_commitment_pacing(&input).is_err());
}

#[test]
fn test_reject_zero_planning_years() {
    let mut input = default_input();
    input.planning_years = 0;
    assert!(calculate_commitment_pacing(&input).is_err());
}

#[test]
fn test_reject_negative_new_commitment() {
    let mut input = default_input();
    input.new_commitment_per_year = d("-1");
    assert!(calculate_commitment_pacing(&input).is_err());
}

#[test]
fn test_reject_empty_drawdown_curve() {
    let mut input = default_input();
    input.drawdown_curve = vec![];
    assert!(calculate_commitment_pacing(&input).is_err());
}

#[test]
fn test_reject_empty_distribution_curve() {
    let mut input = default_input();
    input.distribution_curve = vec![];
    assert!(calculate_commitment_pacing(&input).is_err());
}

#[test]
fn test_reject_negative_fund_nav() {
    let mut input = default_input();
    input.existing_funds[0].nav = d("-1");
    assert!(calculate_commitment_pacing(&input).is_err());
}

#[test]
fn test_single_year_projection() {
    let mut input = default_input();
    input.planning_years = 1;
    let out = calculate_commitment_pacing(&input).unwrap();
    assert_eq!(out.yearly_projections.len(), 1);
}

// --- further cases ---

#[test]
fn pacing_first_year_exact_figures() {
    let mut input = default_input();
    input.planning_years = 1;
    let out = calculate_commitment_pacing(&input).unwrap();
    let p = &out.yearly_projections[0];
    // Each existing fund at its own rates:
    // fund 1 (0.25, 0.10): dd 3.75M, nav 43.75M, dist 4.375M;
    // fund 2 (0.30, 0.05): dd 6M, nav 18M, dist 0.9M.
    // New commitment: dd 0.25 * 25M = 6.25M, no distribution in year one.
    assert_eq!(v(p.projected_drawdowns), n("16000000"));
    assert_eq!(v(p.projected_distributions), n("5275000"));
    assert_eq!(v(p.net_cash_flow), n("-10725000"));
    // NAV: 39.375M + 17.1M existing + 6.25M new = 62.725M
    assert_eq!(v(p.projected_nav), n("62725000"));
    // Recommended pace: (75M - 52M) * 1.4 / 1
    assert_eq!(v(out.recommended_pace), n("32200000"));
}

#[test]
fn pacing_curve_value_out_of_range_names_index() {
    let mut input = default_input();
    input.distribution_curve[3] = d("1.5");
    match calculate_commitment_pacing(&input) {
        Err(FinError::InvalidInput { field, reason }) => {
            assert_eq!(field, "distribution_curve[3]");
            assert_eq!(reason, "Distribution curve values must be in [0, 1].");
        }
        _ => panic!("expected InvalidInput"),
    }
}

#[test]
fn pacing_years_to_target_defaults_to_horizon() {
    let mut input = default_input();
    input.target_allocation_pct = d("1");
    let out = calculate_commitment_pacing(&input).unwrap();
    assert_eq!(out.years_to_target, 5);
}

#[test]
fn pacing_each_fund_draws_at_its_own_rate() {
    let mut input = default_input();
    input.existing_funds = vec![
        fund(2020, "100", "100", "0", "0.5", "0"),
        fund(2021, "100", "100", "0", "0.1", "0"),
    ];
    input.total_portfolio_value = d("1000");
    input.target_allocation_pct = d("0.5");
    input.planning_years = 1;
    input.new_commitment_per_year = d("0");
    input.drawdown_curve = vec![d("0")];
    input.distribution_curve = vec![d("0")];
    let out = calculate_commitment_pacing(&input).unwrap();
    let p = &out.yearly_projections[0];
    assert_eq!(v(p.projected_drawdowns), n("60"));
    assert_eq!(v(p.projected_nav), n("60"));
}

#[test]
fn pacing_refuses_any_fund_with_negative_unfunded() {
    let mut input = default_input();
    input.existing_funds[1].unfunded = d("-5");
    match calculate_commitment_pacing(&input) {
        Err(FinError::InvalidInput { field, .. }) => assert_eq!(field, "existing_funds.unfunded"),
        _ => panic!("expected InvalidInput"),
    }
}
