use corp_finance_core::dec::Dec;
use corp_finance_core::error::FinError;
use corp_finance_core::fund_of_funds::portfolio_construction::{analyze_fof_portfolio, FofPortfolioInput, PortfolioFund};
use rust_decimal::Decimal;

fn d(s: &str) -> Dec {
    let x = Decimal::from_str_exact(s).unwrap();
    Dec::new(x.mantissa(), x.scale())
}

fn v(x: Dec) -> Decimal {
    Decimal::from_i128_with_scale(x.mantissa(), x.scale())
}

fn n(s: &str) -> Decimal {
    Decimal::from_str_exact(s).unwrap()
}

fn approx_eq(a: Decimal, b: Decimal, eps: Decimal) -> bool {
    (a - b).abs() < eps
}

fn fund(name: &str, strategy: &str, vintage: u32, geo: &str, c: &str, nav: &str, irr: &str, tvpi: &str) -> PortfolioFund {
    PortfolioFund {
        name: name.to_string(),
        strategy: strategy.to_string(),
        vintage,
        geography: geo.to_string(),
        commitment: d(c),
        nav: d(nav),
        irr: d(irr),
        tvpi: d(tvpi),
    }
}

fn default_input() -> FofPortfolioInput {
    FofPortfolioInput {
        funds: vec![
            fund("Buyout Fund I", "Buyout", 2019, "North America", "30000000", "35000000", "0.18", "1.8"),
            fund("VC Fund III", "VC", 2020, "North America", "20000000", "28000000", "0.25", "2.2"),
            fund("Growth Fund II", "Growth", 2021, "Europe", "25000000", "22000000", "0.14", "1.4"),
            fund("RE Fund I", "Real Estate", 2019, "Asia", "15000000", "18000000", "0.12", "1.5"),
            fund("Credit Fund I", "Credit", 2022, "Europe", "10000000", "9500000", "0.09", "1.1"),
        ],
        strategy_correlations: None,
        max_strategy_pct: d("0.40"),
        max_vintage_pct: d("0.50"),
        max_geography_pct: d("0.60"),
    }
}

#[test]
fn test_portfolio_basic_output() {
    let out = analyze_fof_portfolio(&default_input()).unwrap();
    assert!(v(out.total_commitment) > Decimal::ZERO);
    assert!(v(out.total_nav) > Decimal::ZERO);
}

#[test]
fn test_portfolio_total_commitment() {
    let out = analyze_fof_portfolio(&default_input()).unwrap();
    assert_eq!(v(out.total_commitment), n("100000000"));
}

#[test]
fn test_portfolio_total_nav() {
    let out = analyze_fof_portfolio(&default_input()).unwrap();
    assert_eq!(v(out.total_nav), n("112500000"));
}

#[test]
fn test_portfolio_weighted_irr_in_range() {
    let out = analyze_fof_portfolio(&default_input()).unwrap();
    let w = v(out.weighted_avg_irr);
    assert!(w >= n("0.09") && w <= n("0.25"), "Weighted IRR {} out of range", w);
}

#[test]
fn test_portfolio_weighted_tvpi_in_range() {
    let out = analyze_fof_portfolio(&default_input()).unwrap();
    let w = v(out.weighted_avg_tvpi);
    assert!(w >= n("1.0") && w <= n("2.5"), "Weighted TVPI {} out of range", w);
}

#[test]
fn test_portfolio_strategy_allocation_sums_to_one() {
    let out = analyze_fof_portfolio(&default_input()).unwrap();
    let total: Decimal = out.strategy_allocation.iter().map(|a| v(a.pct)).sum();
    assert!(approx_eq(total, Decimal::ONE, n("0.001")));
}

#[test]
fn test_portfolio_vintage_allocation_sums_to_one() {
    let out = analyze_fof_portfolio(&default_input()).unwrap();
    let total: Decimal = out.vintage_allocation.iter().map(|a| v(a.pct)).sum();
    assert!(approx_eq(total, Decimal::ONE, n("0.001")));
}

#[test]
fn test_portfolio_geography_allocation_sums_to_one() {
    let out = analyze_fof_portfolio(&default_input()).unwrap();
    let total: Decimal = out.geography_allocation.iter().map(|a| v(a.pct)).sum();
    assert!(approx_eq(total, Decimal::ONE, n("0.001")));
}

#[test]
fn test_portfolio_five_strategies() {
    let out = analyze_fof_portfolio(&default_input()).unwrap();
    assert_eq!(out.strategy_allocation.len(), 5);
}

#[test]
fn test_portfolio_hhi_in_range() {
    let out = analyze_fof_portfolio(&default_input()).unwrap();
    let h = v(out.concentration_hhi);
    assert!(h > Decimal::ZERO && h <= Decimal::ONE, "HHI {} out of range", h);
}

#[test]
fn test_portfolio_diversification_score_in_range() {
    let out = analyze_fof_portfolio(&default_input()).unwrap();
    let s = v(out.diversification_score);
    assert!(s >= Decimal::ZERO && s <= n("100"));
}

#[test]
fn test_portfolio_no_constraint_violations_default() {
    let out = analyze_fof_portfolio(&default_input()).unwrap();
    assert!(out.constraint_violations.is_empty());
}

#[test]
fn test_portfolio_constraint_violation_detected() {
    let mut input = default_input();
    input.max_strategy_pct = d("0.10");
    let out = analyze_fof_portfolio(&input).unwrap();
    assert!(!out.constraint_violations.is_empty());
}

#[test]
fn test_portfolio_concentrated_single_strategy() {
    let input = FofPortfolioInput {
        funds: vec![
            fund("Fund A", "Buyout", 2020, "NA", "50000000", "60000000", "0.20", "2.0"),
            fund("Fund B", "Buyout", 2021, "NA", "50000000", "40000000", "0.15", "1.5"),
        ],
        strategy_correlations: None,
        max_strategy_pct: d("1"),
        max_vintage_pct: d("1"),
        max_geography_pct: d("1"),
    };
    let out = analyze_fof_portfolio(&input).unwrap();
    assert_eq!(v(out.concentration_hhi), Decimal::ONE);
    assert_eq!(v(out.diversification_score), Decimal::ZERO);
}

#[test]
fn test_portfolio_hhi_contribution_sums_to_hhi() {
    let out = analyze_fof_portfolio(&default_input()).unwrap();
    let hhi_sum: Decimal = out.strategy_allocation.iter().map(|a| v(a.hhi_contribution)).sum();
    assert!(approx_eq(hhi_sum, v(out.concentration_hhi), n("0.001")));
}

#[test]
fn test_portfolio_sorted_by_pct_descending() {
    let out = analyze_fof_portfolio(&default_input()).unwrap();
    for i in 1..out.strategy_allocation.len() {
        assert!(v(out.strategy_allocation[i - 1].pct) >= v(out.strategy_allocation[i].pct));
    }
}

#[test]
fn portfolio_construction_test_reject_empty_funds() {
    let mut input = default_input();
    input.funds = vec![];
    assert!(analyze_fof_portfolio(&input).is_err());
}

#[test]
fn portfolio_construction_test_reject_negative_commitment() {
    let mut input = default_input();
    input.funds[0].commitment = d("-1");
    assert!(analyze_fof_portfolio(&input).is_err());
}

#[test]
fn test_reject_negative_nav() {
    let mut input = default_input();
    input.funds[0].nav = d("-1");
    assert!(analyze_fof_portfolio(&input).is_err());
}

#[test]
fn portfolio_construction_test_reject_negative_tvpi() {
    let mut input = default_input();
    input.funds[0].tvpi = d("-1");
    assert!(analyze_fof_portfolio(&input).is_err());
}

#[test]
fn test_reject_zero_max_strategy_pct() {
    let mut input = default_input();
    input.max_strategy_pct = d("0");
    assert!(analyze_fof_portfolio(&input).is_err());
}

#[test]
fn test_reject_max_vintage_pct_over_one() {
    let mut input = default_input();
    input.max_vintage_pct = d("1.5");
    assert!(analyze_fof_portfolio(&input).is_err());
}

#[test]
fn test_reject_zero_max_geography_pct() {
    let mut input = default_input();
    input.max_geography_pct = d("0");
    assert!(analyze_fof_portfolio(&input).is_err());
}

#[test]
fn test_single_fund_portfolio() {
    let input = FofPortfolioInput {
        funds: vec![fund("Solo Fund", "Buyout", 2020, "NA", "10000000", "12000000", "0.15", "1.5")],
        strategy_correlations: None,
        max_strategy_pct: d("1"),
        max_vintage_pct: d("1"),
        max_geography_pct: d("1"),
    };
    let out = analyze_fof_portfolio(&input).unwrap();
    assert_eq!(v(out.total_nav), n("12000000"));
    assert_eq!(v(out.weighted_avg_irr), n("0.15"));
    assert_eq!(v(out.weighted_avg_tvpi), n("1.5"));
}

#[test]
fn portfolio_vintage_labels_and_merging() {
    // Two 2019 funds share a bucket: 35 + 18 = 53 of 112.5.
    let out = analyze_fof_portfolio(&default_input()).unwrap();
    let labels: Vec<&str> = out.vintage_allocation.iter().map(|a| a.label.as_str()).collect();
    assert_eq!(labels, vec!["2019", "2020", "2021", "2022"]);
    assert_eq!(v(out.vintage_allocation[0].pct), n("53") / n("112.5"));
}

#[test]
fn portfolio_violation_text() {
    let mut input = default_input();
    input.max_strategy_pct = d("0.30");
    let out = analyze_fof_portfolio(&input).unwrap();
    assert_eq!(out.constraint_violations.len(), 1);
    assert_eq!(out.constraint_violations[0].constraint, "Strategy 'Buyout' exceeds max");
    assert_eq!(v(out.constraint_violations[0].limit), n("0.30"));
}

#[test]
fn portfolio_negative_nav_names_the_fund() {
    let mut input = default_input();
    input.funds[1].nav = d("-5");
    match analyze_fof_portfolio(&input) {
        Err(FinError::InvalidInput { field, reason }) => {
            assert_eq!(field, "funds.VC Fund III.nav");
            assert_eq!(reason, "NAV cannot be negative.");
        }
        _ => panic!("expected an invalid-input error"),
    }
}

#[test]
fn portfolio_zero_nav_gives_zero_weights() {
    let input = FofPortfolioInput {
        funds: vec![fund("A", "Buyout", 2020, "NA", "10", "0", "0.15", "1.5")],
        strategy_correlations: None,
        max_strategy_pct: d("1"),
        max_vintage_pct: d("1"),
        max_geography_pct: d("1"),
    };
    let out = analyze_fof_portfolio(&input).unwrap();
    assert_eq!(v(out.weighted_avg_irr), Decimal::ZERO);
    assert_eq!(v(out.strategy_allocation[0].pct), Decimal::ZERO);
}
