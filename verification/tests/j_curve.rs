use corp_finance_core::dec::Dec;
use corp_finance_core::error::FinError;
use corp_finance_core::fund_of_funds::j_curve::{calculate_j_curve, newton_irr, JCurveInput};
use rust_decimal::Decimal;

fn d(s: &str) -> Dec {
    let x = Decimal::from_str_exact(s).unwrap();
    Dec::new(x.mantissa(), x.scale())
}

fn v(x: Dec) -> Decimal {
    Decimal::from_i128_with_scale(x.mantissa(), x.scale())
}

fn n(s: &str) -> Decimal {
    Decimal::from_str_exact(s).unwrap()
}

fn approx_eq(a: Decimal, b: Decimal, eps: Decimal) -> bool {
    (a - b).abs() < eps
}

fn ds(xs: &[&str]) -> Vec<Dec> {
    xs.iter().map(|x| d(x)).collect()
}

fn default_input() -> JCurveInput {
    JCurveInput {
        total_commitment: d("100000000"),
        drawdown_schedule: ds(&["0.30", "0.30", "0.25", "0.15"]),
        distribution_schedule: ds(&["0.0", "0.0", "0.0", "0.05", "0.10", "0.15", "0.20", "0.25", "0.30", "0.40", "1.0"]),
        fund_life_years: 10,
        growth_rate: d("0.12"),
        management_fee_pct: d("0.02"),
        carry_pct: d("0.20"),
        preferred_return: d("0.08"),
        public_index_returns: ds(&["0.10", "0.08", "0.12", "0.05", "0.15", "0.07", "0.09", "0.11", "0.06", "0.10"]),
    }
}

#[test]
fn test_j_curve_basic_output_structure() {
    let out = calculate_j_curve(&default_input()).unwrap();
    assert_eq!(out.periods.len(), 11);
}

#[test]
fn test_j_curve_first_period_zero_distributions() {
    let out = calculate_j_curve(&default_input()).unwrap();
    assert_eq!(v(out.periods[0].distributions), Decimal::ZERO);
}

#[test]
fn test_j_curve_trough_in_early_years() {
    let out = calculate_j_curve(&default_input()).unwrap();
    assert!(out.j_curve_trough_year <= 5, "Trough at year {}", out.j_curve_trough_year);
}

#[test]
fn test_j_curve_trough_value_negative() {
    let out = calculate_j_curve(&default_input()).unwrap();
    assert!(v(out.j_curve_trough_value) < Decimal::ZERO, "Trough value {} should be negative", v(out.j_curve_trough_value));
}

#[test]
fn test_j_curve_final_tvpi_positive() {
    let out = calculate_j_curve(&default_input()).unwrap();
    assert!(v(out.final_tvpi) > Decimal::ZERO, "TVPI should be positive");
}

#[test]
fn test_j_curve_final_dpi_positive() {
    let out = calculate_j_curve(&default_input()).unwrap();
    assert!(v(out.final_dpi) > Decimal::ZERO, "DPI should be positive");
}

#[test]
fn test_j_curve_tvpi_equals_dpi_plus_rvpi() {
    let out = calculate_j_curve(&default_input()).unwrap();
    for p in &out.periods {
        let sum = v(p.dpi) + v(p.rvpi);
        assert!(approx_eq(v(p.tvpi), sum, n("0.01")), "Year {}: TVPI mismatch", p.year);
    }
}

#[test]
fn test_j_curve_net_cash_flow_is_dist_minus_contrib() {
    let out = calculate_j_curve(&default_input()).unwrap();
    for p in &out.periods {
        let expected = v(p.distributions) - v(p.contributions);
        assert_eq!(v(p.net_cash_flow), expected, "Year {}: NCF mismatch", p.year);
    }
}

#[test]
fn test_j_curve_gross_irr_gt_net_irr() {
    let out = calculate_j_curve(&default_input()).unwrap();
    assert!(v(out.gross_irr) >= v(out.net_irr), "Gross IRR {} should be >= Net IRR {}", v(out.gross_irr), v(out.net_irr));
}

#[test]
fn test_j_curve_pme_nonzero_with_index() {
    let out = calculate_j_curve(&default_input()).unwrap();
    assert!(v(out.pme_kaplan_schoar) > Decimal::ZERO, "PME should be positive when index returns provided");
}

#[test]
fn test_j_curve_pme_zero_without_index() {
    let mut input = default_input();
    input.public_index_returns = vec![];
    let out = calculate_j_curve(&input).unwrap();
    assert_eq!(v(out.pme_kaplan_schoar), Decimal::ZERO);
}

#[test]
fn test_j_curve_no_fees_higher_net_irr() {
    let with_fees = default_input();
    let mut no_fees = default_input();
    no_fees.management_fee_pct = d("0");
    no_fees.carry_pct = d("0");
    let out_fees = calculate_j_curve(&with_fees).unwrap();
    let out_nofees = calculate_j_curve(&no_fees).unwrap();
    assert!(v(out_nofees.net_irr) >= v(out_fees.net_irr));
}

#[test]
fn test_j_curve_contributions_positive() {
    let out = calculate_j_curve(&default_input()).unwrap();
    for p in &out.periods {
        assert!(v(p.contributions) >= Decimal::ZERO, "Year {}: contributions should be non-negative", p.year);
    }
}

#[test]
fn test_j_curve_nav_non_negative() {
    let out = calculate_j_curve(&default_input()).unwrap();
    for p in &out.periods {
        assert!(v(p.nav) >= Decimal::ZERO, "Year {}: NAV should be non-negative", p.year);
    }
}

#[test]
fn test_reject_zero_commitment() {
    let mut input = default_input();
    input.total_commitment = d("0");
    assert!(calculate_j_curve(&input).is_err());
}

#[test]
fn j_curve_test_reject_negative_commitment() {
    let mut input = default_input();
    input.total_commitment = d("-1");
    assert!(calculate_j_curve(&input).is_err());
}

#[test]
fn test_reject_zero_fund_life() {
    let mut input = default_input();
    input.fund_life_years = 0;
    assert!(calculate_j_curve(&input).is_err());
}

#[test]
fn test_reject_empty_drawdown_schedule() {
    let mut input = default_input();
    input.drawdown_schedule = vec![];
    assert!(calculate_j_curve(&input).is_err());
}

#[test]
fn test_reject_empty_distribution_schedule() {
    let mut input = default_input();
    input.distribution_schedule = vec![];
    assert!(calculate_j_curve(&input).is_err());
}

#[test]
fn test_reject_negative_drawdown() {
    let mut input = default_input();
    input.drawdown_schedule = ds(&["-0.1", "0.5"]);
    assert!(calculate_j_curve(&input).is_err());
}

#[test]
fn j_curve_test_reject_excessive_management_fee() {
    let mut input = default_input();
    input.management_fee_pct = d("0.15");
    assert!(calculate_j_curve(&input).is_err());
}

#[test]
fn test_reject_negative_carry() {
    let mut input = default_input();
    input.carry_pct = d("-0.01");
    assert!(calculate_j_curve(&input).is_err());
}

#[test]
fn test_reject_negative_preferred_return() {
    let mut input = default_input();
    input.preferred_return = d("-0.05");
    assert!(calculate_j_curve(&input).is_err());
}

#[test]
fn test_short_fund_life() {
    let mut input = default_input();
    input.fund_life_years = 3;
    let out = calculate_j_curve(&input).unwrap();
    assert_eq!(out.periods.len(), 4);
}

// --- further cases ---

#[test]
fn j_curve_first_year_figures() {
    let out = calculate_j_curve(&default_input()).unwrap();
    let p0 = &out.periods[0];
    assert_eq!(v(p0.contributions), n("30000000"));
    assert_eq!(v(p0.nav), n("30000000"));
    assert_eq!(v(p0.net_cash_flow), n("-30000000"));
    assert_eq!(v(p0.cumulative_irr), n("0"));
    // Year 1: drawdown 30M plus fee 2M; NAV grows 12% before the new drawdown.
    let p1 = &out.periods[1];
    assert_eq!(v(p1.contributions), n("32000000"));
    assert_eq!(v(p1.nav), n("63600000"));
}

#[test]
fn j_curve_negative_distribution_names_index() {
    let mut input = default_input();
    input.distribution_schedule[2] = d("-0.5");
    match calculate_j_curve(&input) {
        Err(FinError::InvalidInput { field, reason }) => {
            assert_eq!(field, "distribution_schedule[2]");
            assert_eq!(reason, "Distribution percentages cannot be negative.");
        }
        _ => panic!("expected InvalidInput"),
    }
}

#[test]
fn irr_of_a_simple_investment() {
    let cfs = ds(&["-100", "110"]);
    let irr = v(newton_irr(&cfs).unwrap());
    assert!(approx_eq(irr, n("0.10"), n("0.000001")), "irr={}", irr);
    assert_eq!(v(newton_irr(&ds(&["-100"])).unwrap()), n("0"));
}
