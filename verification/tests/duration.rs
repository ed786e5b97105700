use corp_finance_core::dec::Dec;
use corp_finance_core::error::FinError;
use corp_finance_core::fixed_income::duration::{calculate_duration, DurationInput};
use rust_decimal::Decimal;

fn d(s: &str) -> Dec {
    let x = Decimal::from_str_exact(s).unwrap();
    Dec::new(x.mantissa(), x.scale())
}

fn v(x: Dec) -> Decimal {
    Decimal::from_i128_with_scale(x.mantissa(), x.scale())
}

fn n(s: &str) -> Decimal {
    Decimal::from_str_exact(s).unwrap()
}

fn par_bond_input() -> DurationInput {
    DurationInput {
        face_value: d("1000"),
        coupon_rate: d("0.05"),
        coupon_frequency: 2,
        ytm: d("0.05"),
        years_to_maturity: d("10"),
        yield_shift_bps: None,
        key_rate_tenors: None,
    }
}

fn zero_coupon_input() -> DurationInput {
    DurationInput { coupon_rate: d("0.0"), ..par_bond_input() }
}

fn assert_close(actual: Decimal, expected: Decimal, tolerance: Decimal, label: &str) {
    let diff = (actual - expected).abs();
    assert!(diff <= tolerance, "{label}: expected ~{expected}, got {actual}");
}

#[test]
fn test_zero_coupon_macaulay_equals_maturity() {
    let result = calculate_duration(&zero_coupon_input()).unwrap();
    assert_close(v(result.result.macaulay_duration), n("10"), n("0.0001"), "zero coupon");
}

#[test]
fn test_coupon_bond_macaulay_less_than_maturity() {
    let result = calculate_duration(&par_bond_input()).unwrap();
    let m = v(result.result.macaulay_duration);
    assert!(m < n("10"));
    assert!(m > Decimal::ZERO);
}

#[test]
fn test_modified_duration_relationship() {
    let result = calculate_duration(&par_bond_input()).unwrap();
    let out = &result.result;
    let expected = v(out.macaulay_duration) / (Decimal::ONE + n("0.05") / n("2"));
    assert_close(v(out.modified_duration), expected, n("0.000001"), "modified");
}

#[test]
fn test_effective_vs_modified_close() {
    let result = calculate_duration(&par_bond_input()).unwrap();
    let out = &result.result;
    assert_close(v(out.effective_duration), v(out.modified_duration), n("0.05"), "effective");
}

#[test]
fn test_higher_coupon_lower_duration() {
    let low = calculate_duration(&par_bond_input()).unwrap();
    let mut hi_in = par_bond_input();
    hi_in.coupon_rate = d("0.08");
    let high = calculate_duration(&hi_in).unwrap();
    assert!(v(high.result.macaulay_duration) < v(low.result.macaulay_duration));
}

#[test]
fn test_higher_ytm_lower_duration() {
    let mut low_ytm = par_bond_input();
    low_ytm.ytm = d("0.03");
    let mut high_ytm = par_bond_input();
    high_ytm.ytm = d("0.08");
    let low = calculate_duration(&low_ytm).unwrap();
    let high = calculate_duration(&high_ytm).unwrap();
    assert!(v(high.result.macaulay_duration) < v(low.result.macaulay_duration));
}

#[test]
fn test_longer_maturity_higher_duration() {
    let short = DurationInput { years_to_maturity: d("5"), ..par_bond_input() };
    let long = DurationInput { years_to_maturity: d("30"), ..par_bond_input() };
    let s = calculate_duration(&short).unwrap();
    let l = calculate_duration(&long).unwrap();
    assert!(v(l.result.macaulay_duration) > v(s.result.macaulay_duration));
}

#[test]
fn test_convexity_positive() {
    let result = calculate_duration(&par_bond_input()).unwrap();
    assert!(v(result.result.convexity) > Decimal::ZERO);
}

#[test]
fn test_dv01_calculation() {
    let result = calculate_duration(&par_bond_input()).unwrap();
    let out = &result.result;
    let expected = v(out.modified_duration) * v(out.price) * n("0.0001");
    assert_close(v(out.dv01), expected, n("0.000001"), "dv01");
    assert!(v(out.dv01) > n("0.5") && v(out.dv01) < n("1.5"));
}

#[test]
fn test_price_change_estimate() {
    let result = calculate_duration(&par_bond_input()).unwrap();
    let out = &result.result;
    let dy = n("0.01");
    let expected = -v(out.modified_duration) * dy + n("0.5") * v(out.convexity) * dy * dy;
    assert_close(v(out.price_change_estimate), expected, n("0.000001"), "estimate");
    assert!(v(out.price_change_estimate) < Decimal::ZERO);
}

#[test]
fn test_zero_coupon_convexity() {
    let result = calculate_duration(&zero_coupon_input()).unwrap();
    let c = v(result.result.convexity);
    assert!(c > Decimal::ZERO);
    assert!(c > n("90") && c < n("110"), "got {}", c);
}

#[test]
fn test_semiannual_vs_annual_duration() {
    let semi = calculate_duration(&par_bond_input()).unwrap();
    let annual = calculate_duration(&DurationInput { coupon_frequency: 1, ..par_bond_input() }).unwrap();
    assert!(v(semi.result.macaulay_duration) < v(annual.result.macaulay_duration));
}

#[test]
fn test_key_rate_durations_sum() {
    let input = DurationInput {
        key_rate_tenors: Some(vec![d("1"), d("2"), d("5"), d("10")]),
        ..par_bond_input()
    };
    let result = calculate_duration(&input).unwrap();
    let out = &result.result;
    let krds = out.key_rate_durations.as_ref().expect("key_rate_durations should be Some");
    assert_eq!(krds.len(), 4);
    let krd_sum: Decimal = krds.iter().map(|k| v(k.duration)).sum();
    assert_close(krd_sum, v(out.effective_duration), n("1.0"), "krd sum");
    let contrib: Decimal = krds.iter().map(|k| v(k.contribution_pct)).sum();
    assert_close(contrib, Decimal::ONE, n("0.01"), "contributions");
}

#[test]
fn duration_test_invalid_face_value_error() {
    let mut input = par_bond_input();
    input.face_value = d("-1000");
    match calculate_duration(&input) {
        Err(FinError::InvalidInput { field, .. }) => assert_eq!(field, "face_value"),
        _ => panic!("Expected InvalidInput for face_value"),
    }
}

#[test]
fn test_negative_ytm_works() {
    let input = DurationInput { ytm: d("-0.005"), ..par_bond_input() };
    let result = calculate_duration(&input).unwrap();
    assert!(v(result.result.macaulay_duration) > Decimal::ZERO);
    assert!(v(result.result.price) > v(input.face_value));
}

#[test]
fn duration_test_metadata_populated() {
    let result = calculate_duration(&par_bond_input()).unwrap();
    assert!(!result.methodology.is_empty());
    assert!(result.methodology.contains("Duration"));
}

#[test]
fn test_par_bond_price() {
    let result = calculate_duration(&par_bond_input()).unwrap();
    assert_close(v(result.result.price), n("1000"), n("0.01"), "par price");
}

#[test]
fn duration_test_invalid_coupon_frequency_error() {
    let mut input = par_bond_input();
    input.coupon_frequency = 3;
    match calculate_duration(&input) {
        Err(FinError::InvalidInput { field, .. }) => assert_eq!(field, "coupon_frequency"),
        _ => panic!("Expected InvalidInput for coupon_frequency"),
    }
}

#[test]
fn test_zero_maturity_rejected() {
    let mut input = par_bond_input();
    input.years_to_maturity = d("0");
    match calculate_duration(&input) {
        Err(FinError::InvalidInput { field, .. }) => assert_eq!(field, "years_to_maturity"),
        _ => panic!("Expected InvalidInput for years_to_maturity"),
    }
}

#[test]
fn test_monthly_frequency() {
    let monthly = calculate_duration(&DurationInput { coupon_frequency: 12, ..par_bond_input() }).unwrap();
    let semi = calculate_duration(&par_bond_input()).unwrap();
    assert!(v(monthly.result.macaulay_duration) < v(semi.result.macaulay_duration));
}

#[test]
fn test_price_shift_ordering() {
    let result = calculate_duration(&par_bond_input()).unwrap();
    let out = &result.result;
    assert!(v(out.price_up) < v(out.price));
    assert!(v(out.price_down) > v(out.price));
}

#[test]
fn duration_one_period_exact_price() {
    // One annual period at 10%: (100 + 1000) / 1.1 = 1000.
    let input = DurationInput {
        face_value: d("1000"),
        coupon_rate: d("0.1"),
        coupon_frequency: 1,
        ytm: d("0.1"),
        years_to_maturity: d("1"),
        yield_shift_bps: None,
        key_rate_tenors: None,
    };
    let result = calculate_duration(&input).unwrap();
    assert_eq!(v(result.result.price), n("1000"));
    assert_eq!(v(result.result.macaulay_duration), Decimal::ONE);
}

#[test]
fn duration_too_short_for_a_period_is_rejected() {
    // 0.1 years of semi-annual coupons rounds to no period: the price is zero.
    let input = DurationInput { years_to_maturity: d("0.1"), ..par_bond_input() };
    match calculate_duration(&input) {
        Err(FinError::DivisionByZero { context }) => assert_eq!(context, "Macaulay duration: bond price is zero"),
        _ => panic!("expected a division-by-zero error"),
    }
}
