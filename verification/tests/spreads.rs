use corp_finance_core::dec::Dec;
use corp_finance_core::error::FinError;
use corp_finance_core::fixed_income::spreads::{
    calculate_credit_spreads, classify_credit_quality, interpolate_rate, BenchmarkPoint, CreditSpreadInput,
};
use rust_decimal::Decimal;

fn d(s: &str) -> Dec {
    let x = Decimal::from_str_exact(s).unwrap();
    Dec::new(x.mantissa(), x.scale())
}

fn v(x: Dec) -> Decimal {
    Decimal::from_i128_with_scale(x.mantissa(), x.scale())
}

fn n(s: &str) -> Decimal {
    Decimal::from_str_exact(s).unwrap()
}

fn pt(m: &str, r: &str) -> BenchmarkPoint {
    BenchmarkPoint { maturity: d(m), rate: d(r) }
}

fn flat_curve(rate: &str) -> Vec<BenchmarkPoint> {
    vec![pt("1", rate), pt("5", rate), pt("10", rate), pt("30", rate)]
}

fn sample_curve() -> Vec<BenchmarkPoint> {
    vec![pt("1", "0.03"), pt("2", "0.035"), pt("5", "0.04"), pt("10", "0.045"), pt("30", "0.05")]
}

fn input(coupon: &str, freq: u8, price: &str, years: &str, curve: Vec<BenchmarkPoint>) -> CreditSpreadInput {
    CreditSpreadInput {
        face_value: d("1000"),
        coupon_rate: d(coupon),
        coupon_frequency: freq,
        market_price: d(price),
        years_to_maturity: d(years),
        benchmark_curve: curve,
        recovery_rate: None,
        default_probability: None,
    }
}

fn par_bond_input(rate: &str) -> CreditSpreadInput {
    input(rate, 2, "1000", "5", flat_curve(rate))
}

#[test]
fn test_par_bond_zero_spread() {
    let result = calculate_credit_spreads(&par_bond_input("0.05")).unwrap();
    let out = &result.result;
    assert!((v(out.ytm) - n("0.05")).abs() < n("0.001"), "YTM {}", v(out.ytm));
    assert!(v(out.i_spread).abs() < n("0.001"));
    assert!(v(out.z_spread).abs() < n("0.002"));
}

#[test]
fn test_i_spread_positive() {
    let result = calculate_credit_spreads(&input("0.04", 2, "950", "5", flat_curve("0.03"))).unwrap();
    assert!(v(result.result.i_spread) > Decimal::ZERO);
}

#[test]
fn test_z_spread_positive() {
    let result = calculate_credit_spreads(&input("0.04", 2, "950", "5", flat_curve("0.03"))).unwrap();
    assert!(v(result.result.z_spread) > Decimal::ZERO);
}

#[test]
fn test_z_spread_vs_i_spread() {
    let result = calculate_credit_spreads(&input("0.05", 2, "960", "7", sample_curve())).unwrap();
    let out = &result.result;
    assert!(v(out.i_spread) > Decimal::ZERO);
    assert!(v(out.z_spread) > Decimal::ZERO);
    assert!((v(out.z_spread) - v(out.i_spread)).abs() < n("0.01"));
}

#[test]
fn test_z_spread_flat_curve_equals_i_spread() {
    let result = calculate_credit_spreads(&input("0.06", 2, "970", "5", flat_curve("0.04"))).unwrap();
    let out = &result.result;
    assert!((v(out.z_spread) - v(out.i_spread)).abs() < n("0.002"));
}

#[test]
fn test_spread_duration_positive() {
    let result = calculate_credit_spreads(&input("0.05", 2, "980", "5", flat_curve("0.04"))).unwrap();
    let sd = v(result.result.spread_duration);
    assert!(sd > Decimal::ZERO);
    assert!(sd < n("10"));
}

#[test]
fn test_cds_spread_calculation() {
    let mut i = input("0.05", 2, "1000", "5", flat_curve("0.05"));
    i.recovery_rate = Some(d("0.40"));
    i.default_probability = Some(d("0.02"));
    let result = calculate_credit_spreads(&i).unwrap();
    assert_eq!(v(result.result.cds_spread.unwrap()), n("0.012"));
}

#[test]
fn test_investment_grade_indicator() {
    let result = calculate_credit_spreads(&input("0.045", 2, "995", "5", flat_curve("0.04"))).unwrap();
    assert_eq!(result.result.credit_quality_indicator, "investment_grade");
}

#[test]
fn test_high_yield_indicator() {
    let result = calculate_credit_spreads(&input("0.05", 2, "850", "5", flat_curve("0.03"))).unwrap();
    let z = v(result.result.z_spread);
    assert!(z >= n("0.0200") && z < n("0.1000"), "z {}", z);
    assert_eq!(result.result.credit_quality_indicator, "high_yield");
}

#[test]
fn test_distressed_indicator() {
    let result = calculate_credit_spreads(&input("0.05", 2, "600", "5", flat_curve("0.03"))).unwrap();
    assert_eq!(result.result.credit_quality_indicator, "distressed");
}

#[test]
fn test_benchmark_interpolation() {
    let curve = sample_curve();
    let rate = v(interpolate_rate(&curve, d("3")).unwrap());
    let expected = n("0.035") + (n("1") / n("3")) * n("0.005");
    assert!((rate - expected).abs() < n("0.0001"));
    let exact = v(interpolate_rate(&curve, d("5")).unwrap());
    assert!((exact - n("0.04")).abs() < n("0.0001"));
}

#[test]
fn test_ytm_solve_accuracy() {
    let result = calculate_credit_spreads(&input("0.05", 2, "1000", "5", flat_curve("0.05"))).unwrap();
    assert!((v(result.result.ytm) - n("0.05")).abs() < n("0.001"));
    let result2 = calculate_credit_spreads(&input("0.06", 1, "950", "2", flat_curve("0.04"))).unwrap();
    assert!(v(result2.result.ytm) > n("0.06"));
}

#[test]
fn spreads_test_invalid_face_value_error() {
    let mut i = par_bond_input("0.05");
    i.face_value = d("-100");
    match calculate_credit_spreads(&i) {
        Err(FinError::InvalidInput { field, .. }) => assert_eq!(field, "face_value"),
        _ => panic!("Expected InvalidInput for face_value"),
    }
}

#[test]
fn test_insufficient_benchmark_points_error() {
    let i = input("0.05", 2, "1000", "5", vec![pt("5", "0.04")]);
    match calculate_credit_spreads(&i) {
        Err(FinError::InsufficientData(_)) => {}
        _ => panic!("Expected InsufficientData"),
    }
}

#[test]
fn test_recovery_rate_bounds_error() {
    let mut i = par_bond_input("0.05");
    i.recovery_rate = Some(d("1.5"));
    i.default_probability = Some(d("0.01"));
    match calculate_credit_spreads(&i) {
        Err(FinError::InvalidInput { field, .. }) => assert_eq!(field, "recovery_rate"),
        _ => panic!("Expected InvalidInput for recovery_rate"),
    }
}

#[test]
fn spreads_test_metadata_populated() {
    let result = calculate_credit_spreads(&par_bond_input("0.05")).unwrap();
    assert_eq!(result.methodology, "Credit Spreads (I-spread, G-spread, Z-spread, CDS)");
}

#[test]
fn test_cds_spread_default_recovery() {
    let mut i = par_bond_input("0.05");
    i.default_probability = Some(d("0.03"));
    let result = calculate_credit_spreads(&i).unwrap();
    assert_eq!(v(result.result.cds_spread.unwrap()), n("0.018"));
}

#[test]
fn test_no_default_probability_no_cds() {
    let result = calculate_credit_spreads(&par_bond_input("0.05")).unwrap();
    assert!(result.result.cds_spread.is_none());
}

#[test]
fn spreads_test_invalid_coupon_frequency_error() {
    let i = input("0.05", 3, "1000", "5", flat_curve("0.05"));
    match calculate_credit_spreads(&i) {
        Err(FinError::InvalidInput { field, .. }) => assert_eq!(field, "coupon_frequency"),
        _ => panic!("Expected InvalidInput for coupon_frequency"),
    }
}

#[test]
fn test_default_probability_bounds_error() {
    let mut i = par_bond_input("0.05");
    i.recovery_rate = Some(d("0.40"));
    i.default_probability = Some(d("1.5"));
    match calculate_credit_spreads(&i) {
        Err(FinError::InvalidInput { field, .. }) => assert_eq!(field, "default_probability"),
        _ => panic!("Expected InvalidInput for default_probability"),
    }
}

#[test]
fn spreads_unsorted_curve_rejected() {
    let i = input("0.05", 2, "1000", "5", vec![pt("5", "0.04"), pt("1", "0.03")]);
    match calculate_credit_spreads(&i) {
        Err(FinError::InvalidInput { field, .. }) => assert_eq!(field, "benchmark_curve"),
        _ => panic!("Expected InvalidInput for benchmark_curve"),
    }
}

#[test]
fn spreads_interpolation_extends_beyond_the_ends() {
    // Below the first point the first two points are extended: at 0 years,
    // 0.03 - (1/1) * 0.005 = 0.025.
    let curve = sample_curve();
    assert_eq!(v(interpolate_rate(&curve, d("0")).unwrap()), n("0.025"));
}

#[test]
fn spreads_quality_buckets() {
    assert_eq!(classify_credit_quality(d("0.0199")), "investment_grade");
    assert_eq!(classify_credit_quality(d("0.02")), "high_yield");
    assert_eq!(classify_credit_quality(d("0.10")), "high_yield");
    assert_eq!(classify_credit_quality(d("0.1001")), "distressed");
}
