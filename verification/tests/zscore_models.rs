use corp_finance_core::dec::Dec;
use corp_finance_core::error::FinError;
use corp_finance_core::financial_forensics::zscore_models::{
    calculate_zscore_models, decimal_exp, ZScoreModelsInput,
};
use rust_decimal::Decimal;

fn d(s: &str) -> Dec {
    let x = Decimal::from_str_exact(s).unwrap();
    Dec::new(x.mantissa(), x.scale())
}

fn v(x: Dec) -> Decimal {
    Decimal::from_i128_with_scale(x.mantissa(), x.scale())
}

fn n(s: &str) -> Decimal {
    Decimal::from_str_exact(s).unwrap()
}

fn approx_eq(a: Decimal, b: Decimal, eps: Decimal) -> bool {
    (a - b).abs() < eps
}

fn healthy_input() -> ZScoreModelsInput {
    ZScoreModelsInput {
        working_capital: d("500"),
        total_assets: d("2000"),
        retained_earnings: d("800"),
        ebit: d("300"),
        market_cap: d("3000"),
        book_equity: d("1000"),
        total_liabilities: d("1000"),
        revenue: d("4000"),
        net_income: d("200"),
        total_debt: d("600"),
        current_assets: d("900"),
        current_liabilities: d("400"),
        cash_flow_operations: d("250"),
        is_public: true,
        is_manufacturing: true,
    }
}

fn distressed_input() -> ZScoreModelsInput {
    ZScoreModelsInput {
        working_capital: d("-200"),
        total_assets: d("1000"),
        retained_earnings: d("-500"),
        ebit: d("-100"),
        market_cap: d("100"),
        book_equity: d("50"),
        total_liabilities: d("950"),
        revenue: d("500"),
        net_income: d("-150"),
        total_debt: d("800"),
        current_assets: d("200"),
        current_liabilities: d("400"),
        cash_flow_operations: d("-50"),
        is_public: true,
        is_manufacturing: true,
    }
}

#[test]
fn test_healthy_company_altman_safe() {
    let out = calculate_zscore_models(&healthy_input()).unwrap();
    assert_eq!(out.altman_z.zone, "Safe");
    assert!(v(out.altman_z.z_score) > n("2.99"));
}

#[test]
fn test_distressed_company_altman_distress() {
    let out = calculate_zscore_models(&distressed_input()).unwrap();
    assert_eq!(out.altman_z.zone, "Distress");
    assert!(v(out.altman_z.z_score) < n("1.81"));
}

#[test]
fn test_altman_z_formula() {
    let out = calculate_zscore_models(&healthy_input()).unwrap();
    let expected = n("1.2") * (n("500") / n("2000"))
        + n("1.4") * (n("800") / n("2000"))
        + n("3.3") * (n("300") / n("2000"))
        + n("0.6") * (n("3000") / n("1000"))
        + n("4000") / n("2000");
    assert!(approx_eq(v(out.altman_z.z_score), expected, n("0.0001")));
}

#[test]
fn test_altman_z_prime_uses_book_equity() {
    let out = calculate_zscore_models(&healthy_input()).unwrap();
    let x4 = n("1000") / n("1000");
    assert!(approx_eq(v(out.altman_z_prime.x4), x4, n("0.0001")));
}

#[test]
fn test_altman_z_prime_safe() {
    let out = calculate_zscore_models(&healthy_input()).unwrap();
    assert_eq!(out.altman_z_prime.zone, "Safe");
}

#[test]
fn test_altman_z_prime_distress() {
    let out = calculate_zscore_models(&distressed_input()).unwrap();
    assert_eq!(out.altman_z_prime.zone, "Distress");
}

#[test]
fn test_altman_z_double_prime_no_x5() {
    let out = calculate_zscore_models(&healthy_input()).unwrap();
    assert!(out.altman_z_double_prime.x5.is_none());
}

#[test]
fn test_altman_z_double_prime_formula() {
    let out = calculate_zscore_models(&healthy_input()).unwrap();
    let expected = n("6.56") * (n("500") / n("2000"))
        + n("3.26") * (n("800") / n("2000"))
        + n("6.72") * (n("300") / n("2000"))
        + n("1.05") * (n("1000") / n("1000"));
    assert!(approx_eq(v(out.altman_z_double_prime.z_score), expected, n("0.0001")));
}

#[test]
fn test_altman_z_double_prime_safe() {
    let out = calculate_zscore_models(&healthy_input()).unwrap();
    assert_eq!(out.altman_z_double_prime.zone, "Safe");
}

#[test]
fn test_springate_healthy_not_bankrupt() {
    let out = calculate_zscore_models(&healthy_input()).unwrap();
    assert!(!out.springate_s.bankrupt);
    assert!(v(out.springate_s.s_score) >= n("0.862"));
}

#[test]
fn test_springate_distressed_bankrupt() {
    let out = calculate_zscore_models(&distressed_input()).unwrap();
    assert!(out.springate_s.bankrupt);
}

#[test]
fn test_springate_formula() {
    let out = calculate_zscore_models(&healthy_input()).unwrap();
    let a = n("500") / n("2000");
    let b = n("300") / n("2000");
    let c = n("300") / n("400");
    let dd = n("4000") / n("2000");
    let expected = n("1.03") * a + n("3.07") * b + n("0.66") * c + n("0.40") * dd;
    assert!(approx_eq(v(out.springate_s.s_score), expected, n("0.0001")));
}

#[test]
fn test_zmijewski_healthy_low_probability() {
    let out = calculate_zscore_models(&healthy_input()).unwrap();
    assert!(!out.zmijewski_x.bankrupt);
    assert!(v(out.zmijewski_x.probability) < n("0.5"));
}

#[test]
fn test_zmijewski_distressed_high_probability() {
    let out = calculate_zscore_models(&distressed_input()).unwrap();
    assert!(out.zmijewski_x.bankrupt);
    assert!(v(out.zmijewski_x.probability) > n("0.5"));
}

#[test]
fn test_zmijewski_probability_between_0_and_1() {
    let out = calculate_zscore_models(&healthy_input()).unwrap();
    assert!(v(out.zmijewski_x.probability) >= Decimal::ZERO);
    assert!(v(out.zmijewski_x.probability) <= Decimal::ONE);
}

#[test]
fn test_composite_risk_low_for_healthy() {
    let out = calculate_zscore_models(&healthy_input()).unwrap();
    assert_eq!(out.composite_risk, "Low");
}

#[test]
fn test_composite_risk_critical_for_distressed() {
    let out = calculate_zscore_models(&distressed_input()).unwrap();
    assert!(
        out.composite_risk == "Critical" || out.composite_risk == "High",
        "Got {}",
        out.composite_risk
    );
}

#[test]
fn zscore_models_test_zero_total_assets_error() {
    let mut input = healthy_input();
    input.total_assets = d("0");
    assert!(calculate_zscore_models(&input).is_err());
}

#[test]
fn test_negative_total_liabilities_error() {
    let mut input = healthy_input();
    input.total_liabilities = d("-100");
    assert!(calculate_zscore_models(&input).is_err());
}

#[test]
fn test_grey_zone() {
    let mut input = healthy_input();
    input.working_capital = d("100");
    input.retained_earnings = d("200");
    input.ebit = d("50");
    input.market_cap = d("500");
    input.revenue = d("1500");
    let out = calculate_zscore_models(&input).unwrap();
    let z = v(out.altman_z.z_score);
    assert!(z > n("1.0") && z < n("5.0"), "z={}", z);
}

#[test]
fn test_decimal_exp_at_zero() {
    let result = decimal_exp(d("0")).unwrap();
    assert!(approx_eq(v(result), Decimal::ONE, n("0.0001")));
}

#[test]
fn test_decimal_exp_at_one() {
    let result = decimal_exp(d("1")).unwrap();
    assert!(approx_eq(v(result), n("2.71828"), n("0.001")));
}

#[test]
fn test_zero_current_liabilities_springate() {
    let mut input = healthy_input();
    input.current_liabilities = d("0");
    input.working_capital = input.current_assets;
    let out = calculate_zscore_models(&input).unwrap();
    assert_eq!(v(out.springate_s.c), Decimal::ZERO);
}

#[test]
fn test_altman_components_sum_correctly() {
    let out = calculate_zscore_models(&healthy_input()).unwrap();
    let recomputed = n("1.2") * v(out.altman_z.x1)
        + n("1.4") * v(out.altman_z.x2)
        + n("3.3") * v(out.altman_z.x3)
        + n("0.6") * v(out.altman_z.x4)
        + v(out.altman_z.x5.unwrap());
    assert!(approx_eq(v(out.altman_z.z_score), recomputed, n("0.0001")));
}

// --- further cases ---

#[test]
fn zscore_zero_liabilities_is_division_by_zero() {
    let mut input = healthy_input();
    input.total_liabilities = d("0");
    match calculate_zscore_models(&input) {
        Err(FinError::DivisionByZero { context }) => assert_eq!(context, "X4 MV/TL"),
        _ => panic!("expected DivisionByZero"),
    }
}

#[test]
fn zscore_negative_current_liabilities_rejected() {
    let mut input = healthy_input();
    input.current_liabilities = d("-1");
    match calculate_zscore_models(&input) {
        Err(FinError::InvalidInput { field, reason }) => {
            assert_eq!(field, "current_liabilities");
            assert_eq!(reason, "Cannot be negative.");
        }
        _ => panic!("expected InvalidInput"),
    }
}

#[test]
fn zscore_exact_ratios() {
    let out = calculate_zscore_models(&healthy_input()).unwrap();
    assert_eq!(v(out.altman_z.x1), n("0.25"));
    assert_eq!(v(out.altman_z.x2), n("0.4"));
    assert_eq!(v(out.altman_z.x3), n("0.15"));
    assert_eq!(v(out.altman_z.z_score), n("5.155"));
}
