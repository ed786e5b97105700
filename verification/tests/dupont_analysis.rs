use corp_finance_core::dec::Dec;
use corp_finance_core::error::FinError;
use corp_finance_core::financial_forensics::dupont_analysis::{calculate_dupont, DupontInput};
use rust_decimal::Decimal;

fn d(s: &str) -> Dec {
    let x = Decimal::from_str_exact(s).unwrap();
    Dec::new(x.mantissa(), x.scale())
}

fn v(x: Dec) -> Decimal {
    Decimal::from_i128_with_scale(x.mantissa(), x.scale())
}

fn n(s: &str) -> Decimal {
    Decimal::from_str_exact(s).unwrap()
}

fn approx_eq(a: Decimal, b: Decimal, eps: Decimal) -> bool {
    (a - b).abs() < eps
}

fn base_input() -> DupontInput {
    DupontInput {
        net_income: d("100"),
        revenue: d("1000"),
        total_assets: d("2000"),
        shareholders_equity: d("800"),
        ebt: d("130"),
        ebit: d("150"),
        interest_expense: d("20"),
        tax_expense: d("30"),
        prior_net_income: None,
        prior_revenue: None,
        prior_total_assets: None,
        prior_equity: None,
    }
}

#[test]
fn test_roe_calculation() {
    let out = calculate_dupont(&base_input()).unwrap();
    assert_eq!(v(out.roe), n("100") / n("800"));
}

#[test]
fn test_net_profit_margin() {
    let out = calculate_dupont(&base_input()).unwrap();
    assert_eq!(v(out.net_profit_margin), n("100") / n("1000"));
}

#[test]
fn test_asset_turnover() {
    let out = calculate_dupont(&base_input()).unwrap();
    assert_eq!(v(out.asset_turnover), n("1000") / n("2000"));
}

#[test]
fn test_equity_multiplier() {
    let out = calculate_dupont(&base_input()).unwrap();
    assert_eq!(v(out.equity_multiplier), n("2000") / n("800"));
}

#[test]
fn test_three_way_identity() {
    let out = calculate_dupont(&base_input()).unwrap();
    assert!(approx_eq(v(out.roe), v(out.roe_check), n("0.0001")));
}

#[test]
fn test_tax_burden() {
    let out = calculate_dupont(&base_input()).unwrap();
    assert_eq!(v(out.tax_burden), n("100") / n("130"));
}

#[test]
fn test_interest_burden() {
    let out = calculate_dupont(&base_input()).unwrap();
    assert_eq!(v(out.interest_burden), n("130") / n("150"));
}

#[test]
fn test_operating_margin() {
    let out = calculate_dupont(&base_input()).unwrap();
    assert_eq!(v(out.operating_margin), n("150") / n("1000"));
}

#[test]
fn test_five_way_identity() {
    let out = calculate_dupont(&base_input()).unwrap();
    assert!(approx_eq(v(out.roe), v(out.roe_check_5), n("0.0001")));
}

#[test]
fn test_high_margin_low_turnover() {
    let mut input = base_input();
    input.net_income = d("300");
    input.revenue = d("1000");
    input.total_assets = d("5000");
    input.shareholders_equity = d("3000");
    input.ebt = d("400");
    input.ebit = d("450");
    let out = calculate_dupont(&input).unwrap();
    assert!(v(out.net_profit_margin) > n("0.2"));
    assert!(v(out.asset_turnover) < n("0.5"));
}

#[test]
fn dupont_analysis_test_high_leverage() {
    let mut input = base_input();
    input.shareholders_equity = d("200");
    let out = calculate_dupont(&input).unwrap();
    assert!(v(out.equity_multiplier) > n("5.0"));
}

#[test]
fn test_trend_analysis_with_prior() {
    let mut input = base_input();
    input.prior_net_income = Some(d("80"));
    input.prior_revenue = Some(d("900"));
    input.prior_total_assets = Some(d("1800"));
    input.prior_equity = Some(d("750"));
    let out = calculate_dupont(&input).unwrap();
    assert!(out.roe_change.is_some());
    assert!(out.margin_change.is_some());
    assert!(out.turnover_change.is_some());
    assert!(out.leverage_change.is_some());
    assert!(out.primary_driver.is_some());
}

#[test]
fn test_no_trend_without_prior() {
    let out = calculate_dupont(&base_input()).unwrap();
    assert!(out.roe_change.is_none());
    assert!(out.primary_driver.is_none());
}

#[test]
fn test_primary_driver_margin() {
    let mut input = base_input();
    input.prior_net_income = Some(d("20"));
    input.prior_revenue = Some(d("1000"));
    input.prior_total_assets = Some(d("2000"));
    input.prior_equity = Some(d("800"));
    let out = calculate_dupont(&input).unwrap();
    assert_eq!(out.primary_driver.as_deref(), Some("Profit margin"));
}

#[test]
fn test_zero_revenue_error() {
    let mut input = base_input();
    input.revenue = d("0");
    assert!(calculate_dupont(&input).is_err());
}

#[test]
fn dupont_analysis_test_zero_total_assets_error() {
    let mut input = base_input();
    input.total_assets = d("0");
    assert!(calculate_dupont(&input).is_err());
}

#[test]
fn test_zero_equity_error() {
    let mut input = base_input();
    input.shareholders_equity = d("0");
    assert!(calculate_dupont(&input).is_err());
}

#[test]
fn test_diagnosis_contains_text() {
    let out = calculate_dupont(&base_input()).unwrap();
    assert!(!out.diagnosis.is_empty());
}

#[test]
fn test_diagnosis_high_leverage() {
    let mut input = base_input();
    input.shareholders_equity = d("100");
    let out = calculate_dupont(&input).unwrap();
    assert!(out.diagnosis.contains("leverage"));
}

#[test]
fn test_zero_ebt_zero_ni_ok() {
    let mut input = base_input();
    input.net_income = d("0");
    input.ebt = d("0");
    input.ebit = d("0");
    let out = calculate_dupont(&input).unwrap();
    assert_eq!(v(out.tax_burden), Decimal::ZERO);
    assert_eq!(v(out.interest_burden), Decimal::ZERO);
}

#[test]
fn dupont_base_diagnosis_exact() {
    // margin 0.1 and turnover 0.5 raise nothing; multiplier 2.5 is moderate; tax burden
    // 0.769 and interest burden 0.867 are fine.
    let out = calculate_dupont(&base_input()).unwrap();
    assert_eq!(out.diagnosis, "Balanced DuPont profile with no notable concerns");
}

#[test]
fn dupont_diagnosis_joins_sentences() {
    let mut input = base_input();
    input.shareholders_equity = d("100");
    input.net_income = d("10");
    let out = calculate_dupont(&input).unwrap();
    assert_eq!(
        out.diagnosis,
        "Low profit margins indicate pricing pressure or cost issues. Very high financial leverage increases financial risk significantly. High effective tax rate reduces returns."
    );
}

#[test]
fn dupont_ebt_zero_with_income_rejected() {
    let mut input = base_input();
    input.ebt = d("0");
    match calculate_dupont(&input) {
        Err(FinError::DivisionByZero { context }) => {
            assert_eq!(context, "EBT cannot be zero when net income is non-zero.")
        }
        _ => panic!("expected a division-by-zero error"),
    }
}

#[test]
fn dupont_ebit_zero_with_ebt_rejected() {
    let mut input = base_input();
    input.ebit = d("0");
    match calculate_dupont(&input) {
        Err(FinError::DivisionByZero { context }) => {
            assert_eq!(context, "EBIT cannot be zero when EBT is non-zero.")
        }
        _ => panic!("expected a division-by-zero error"),
    }
}

#[test]
fn dupont_driver_tie_goes_to_leverage() {
    // No change at all: every component ties, and the last one is named.
    let mut input = base_input();
    input.prior_net_income = Some(d("100"));
    input.prior_revenue = Some(d("1000"));
    input.prior_total_assets = Some(d("2000"));
    input.prior_equity = Some(d("800"));
    let out = calculate_dupont(&input).unwrap();
    assert_eq!(out.primary_driver.as_deref(), Some("Financial leverage"));
    assert_eq!(v(out.margin_change.unwrap()), Decimal::ZERO);
}
