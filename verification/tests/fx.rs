use corp_finance_core::dec::Dec;
use corp_finance_core::error::FinError;
use corp_finance_core::fx_commodities::fx::{
    calculate_cross_rate, compound_power, parse_pair, price_fx_forward, CrossRateInput, FxForwardInput,
    FxForwardType,
};
use rust_decimal::Decimal;

fn d(s: &str) -> Dec {
    let x = Decimal::from_str_exact(s).unwrap();
    Dec::new(x.mantissa(), x.scale())
}

fn v(x: Dec) -> Decimal {
    Decimal::from_i128_with_scale(x.mantissa(), x.scale())
}

fn n(s: &str) -> Decimal {
    Decimal::from_str_exact(s).unwrap()
}

fn tol() -> Decimal {
    n("0.01")
}

fn tight_tol() -> Decimal {
    n("0.001")
}

fn assert_approx(actual: Decimal, expected: Decimal, tolerance: Decimal, label: &str) {
    let diff = (actual - expected).abs();
    assert!(
        diff <= tolerance,
        "{label}: expected ~{expected}, got {actual} (diff={diff}, tol={tolerance})"
    );
}

fn fwd(s: &str, rd: &str, rf: &str, t: &str, notional: &str, ft: FxForwardType) -> FxForwardInput {
    FxForwardInput {
        spot_rate: d(s),
        domestic_rate: d(rd),
        foreign_rate: d(rf),
        time_to_expiry: d(t),
        notional_foreign: d(notional),
        forward_type: ft,
    }
}

fn cross(r1: &str, p1: &str, r2: &str, p2: &str, t: &str) -> CrossRateInput {
    CrossRateInput {
        rate1: d(r1),
        rate1_pair: p1.to_string(),
        rate2: d(r2),
        rate2_pair: p2.to_string(),
        target_pair: t.to_string(),
    }
}

#[test]
fn test_usd_eur_forward_basic() {
    let input = fwd("1.10", "0.05", "0.03", "1", "1000000", FxForwardType::Deliverable);
    let result = price_fx_forward(&input).unwrap();
    let out = &result.result;
    let expected_fwd = n("1.10") * (n("1.05") / n("1.03"));
    assert_approx(v(out.forward_rate), expected_fwd, tight_tol(), "USD/EUR fwd");
    assert!(v(out.forward_rate) > n("1.10"), "USD at premium vs EUR");
    assert!(out.covered_interest_parity_check, "CIP should hold");
}

#[test]
fn test_forward_points() {
    let input = fwd("1.10", "0.05", "0.03", "1", "1000000", FxForwardType::Deliverable);
    let result = price_fx_forward(&input).unwrap();
    let out = &result.result;
    let expected_points = v(out.forward_rate) - n("1.10");
    assert_eq!(v(out.forward_points), expected_points);
    assert!(v(out.forward_points) > Decimal::ZERO);
    let expected_pips = expected_points * n("10000");
    assert_approx(v(out.forward_points_pips), expected_pips, n("0.0001"), "pips");
}

#[test]
fn test_ndf_forward() {
    let input = fwd("7.25", "0.04", "0.02", "0.5", "5000000", FxForwardType::NonDeliverable);
    let result = price_fx_forward(&input).unwrap();
    let out = &result.result;
    assert!(v(out.forward_rate) > n("7.25"));
    assert_eq!(input.forward_type, FxForwardType::NonDeliverable);
}

#[test]
fn test_forward_premium_discount() {
    let input = fwd("1.10", "0.05", "0.03", "0.25", "1000000", FxForwardType::Deliverable);
    let result = price_fx_forward(&input).unwrap();
    let out = &result.result;
    assert_approx(v(out.forward_premium_discount), n("0.02"), n("0.005"), "annualised premium");
}

#[test]
fn test_negative_interest_rates() {
    let input = fwd("0.85", "-0.005", "0.02", "1", "1000000", FxForwardType::Deliverable);
    let result = price_fx_forward(&input).unwrap();
    let out = &result.result;
    assert!(v(out.forward_rate) < n("0.85"), "EUR at discount when r_d < r_f");
    assert!(v(out.forward_points) < Decimal::ZERO);
    assert!(out.covered_interest_parity_check);
}

#[test]
fn test_cip_check_holds() {
    let input = fwd("150.0", "0.005", "0.04", "2", "10000000", FxForwardType::Deliverable);
    let result = price_fx_forward(&input).unwrap();
    assert!(result.result.covered_interest_parity_check, "CIP must hold for a fair-value forward");
}

#[test]
fn test_notional_domestic() {
    let input = fwd("1.10", "0.05", "0.03", "1", "1000000", FxForwardType::Deliverable);
    let result = price_fx_forward(&input).unwrap();
    let out = &result.result;
    let expected_notional = n("1000000") * v(out.forward_rate);
    assert_eq!(v(out.notional_domestic), expected_notional);
}

#[test]
fn test_pv_at_inception_zero() {
    let input = fwd("1.10", "0.05", "0.03", "1", "1000000", FxForwardType::Deliverable);
    let result = price_fx_forward(&input).unwrap();
    assert_eq!(v(result.result.present_value), Decimal::ZERO);
}

#[test]
fn test_large_rate_differential_warning() {
    let input = fwd("15.0", "0.10", "0.02", "1", "1000000", FxForwardType::Deliverable);
    let result = price_fx_forward(&input).unwrap();
    assert!(
        result.warnings.iter().any(|w| w.contains("bps")),
        "Should warn about large rate differential"
    );
}

#[test]
fn test_large_premium_warning() {
    let input = fwd("1.0", "0.20", "0.01", "2", "1000000", FxForwardType::Deliverable);
    let result = price_fx_forward(&input).unwrap();
    assert!(
        result.warnings.iter().any(|w| w.contains("premium")),
        "Should warn about large annualised premium"
    );
}

#[test]
fn test_cross_rate_eur_jpy() {
    let input = cross("1.10", "USD/EUR", "150.0", "JPY/USD", "JPY/EUR");
    let result = calculate_cross_rate(&input).unwrap();
    assert_approx(v(result.result.cross_rate), n("165.0"), tol(), "EUR/JPY cross");
}

#[test]
fn test_cross_rate_inverse() {
    let input = cross("1.25", "GBP/USD", "150.0", "JPY/USD", "USD/GBP");
    let result = calculate_cross_rate(&input).unwrap();
    assert_approx(v(result.result.cross_rate), n("0.80"), tol(), "USD/GBP inverse");
}

#[test]
fn test_cross_rate_chf() {
    let input = cross("0.92", "USD/CHF", "1.10", "USD/EUR", "CHF/EUR");
    let result = calculate_cross_rate(&input).unwrap();
    let expected = n("1.10") / n("0.92");
    assert_approx(v(result.result.cross_rate), expected, tol(), "CHF/EUR cross");
}

#[test]
fn test_validation_spot_rate_positive() {
    let input = fwd("0", "0.05", "0.03", "1", "1000000", FxForwardType::Deliverable);
    match price_fx_forward(&input) {
        Err(FinError::InvalidInput { field, .. }) => assert_eq!(field, "spot_rate"),
        _ => panic!("Expected InvalidInput for spot_rate"),
    }
}

#[test]
fn fx_test_validation_time_positive() {
    let input = fwd("1.10", "0.05", "0.03", "0", "1000000", FxForwardType::Deliverable);
    match price_fx_forward(&input) {
        Err(FinError::InvalidInput { field, .. }) => assert_eq!(field, "time_to_expiry"),
        _ => panic!("Expected InvalidInput for time_to_expiry"),
    }
}

#[test]
fn test_cross_rate_validation() {
    let input = cross("0", "USD/EUR", "150.0", "USD/JPY", "EUR/JPY");
    match calculate_cross_rate(&input) {
        Err(FinError::InvalidInput { field, .. }) => assert_eq!(field, "rate1"),
        _ => panic!("Expected InvalidInput for rate1"),
    }
}

#[test]
fn test_cross_rate_invalid_pair_format() {
    let input = cross("1.10", "USDEUR", "150.0", "USD/JPY", "EUR/JPY");
    assert!(calculate_cross_rate(&input).is_err());
}

#[test]
fn test_implied_rate_differential() {
    let input = fwd("1.10", "0.05", "0.03", "1", "1000000", FxForwardType::Deliverable);
    let result = price_fx_forward(&input).unwrap();
    assert_approx(v(result.result.implied_rate_differential), n("0.02"), n("0.005"), "implied rate diff");
}

#[test]
fn fx_test_metadata_populated() {
    let input = fwd("1.10", "0.05", "0.03", "1", "1000000", FxForwardType::Deliverable);
    let result = price_fx_forward(&input).unwrap();
    assert!(result.methodology.contains("FX Forward"));
}

#[test]
fn test_multi_year_fractional() {
    let input = fwd("1.10", "0.04", "0.02", "2.5", "1000000", FxForwardType::Deliverable);
    let result = price_fx_forward(&input).unwrap();
    let out = &result.result;
    assert!(v(out.forward_rate) > n("1.15"));
    assert!(v(out.forward_rate) < n("1.16"));
    assert!(out.covered_interest_parity_check);
}

#[test]
fn test_cross_rate_no_common_currency() {
    let input = cross("1.10", "USD/EUR", "0.85", "GBP/CHF", "AUD/NZD");
    assert!(calculate_cross_rate(&input).is_err());
}

// --- further cases ---

#[test]
fn parse_pair_trims_and_upper_cases() {
    let (b, q) = parse_pair(" usd / eur ").unwrap();
    assert_eq!(b, "USD");
    assert_eq!(q, "EUR");
}

#[test]
fn parse_pair_rejects_two_slashes() {
    match parse_pair("USD/EUR/JPY") {
        Err(FinError::InvalidInput { field, reason }) => {
            assert_eq!(field, "currency_pair");
            assert_eq!(reason, "Expected format 'CCY1/CCY2', got 'USD/EUR/JPY'");
        }
        _ => panic!("expected InvalidInput"),
    }
}

#[test]
fn cross_rate_direct_derivation_text() {
    let input = cross("1.10", "USD/EUR", "150.0", "JPY/USD", "USD/EUR");
    let result = calculate_cross_rate(&input).unwrap();
    assert_eq!(v(result.result.cross_rate), n("1.10"));
    assert_eq!(result.result.derivation, "USD/EUR obtained directly from USD/EUR = 1.10");
}

#[test]
fn cross_rate_no_path_message() {
    let input = cross("1.10", "USD/EUR", "0.85", "GBP/CHF", "AUD/NZD");
    match calculate_cross_rate(&input) {
        Err(FinError::InvalidInput { field, reason }) => {
            assert_eq!(field, "target_pair");
            assert_eq!(
                reason,
                "Cannot derive AUD/NZD from USD/EUR and GBP/CHF: no common currency path found"
            );
        }
        _ => panic!("expected InvalidInput"),
    }
}

#[test]
fn forward_rejects_non_positive_growth_factors() {
    let input = fwd("1.10", "0.05", "-1", "1", "1000000", FxForwardType::Deliverable);
    match price_fx_forward(&input) {
        Err(FinError::InvalidInput { field, .. }) => assert_eq!(field, "foreign_rate"),
        _ => panic!("expected InvalidInput"),
    }
    let input = fwd("1.10", "-1.5", "0.03", "1", "1000000", FxForwardType::Deliverable);
    match price_fx_forward(&input) {
        Err(FinError::InvalidInput { field, .. }) => assert_eq!(field, "domestic_rate"),
        _ => panic!("expected InvalidInput"),
    }
}

#[test]
fn compound_power_reads_whole_exponent_whatever_its_places() {
    assert_eq!(v(compound_power(d("1.05"), d("1.0")).unwrap()), n("1.05"));
    assert_eq!(v(compound_power(d("1.1"), d("2.00")).unwrap()), n("1.21"));
    assert_eq!(v(compound_power(d("1.1"), d("0.0")).unwrap()), n("1"));
}

#[test]
fn parse_pair_trims_tabs_and_unicode_spaces() {
    let (b, q) = parse_pair("\tgbp\u{A0}/\u{3000}jpy\n").unwrap();
    assert_eq!(b, "GBP");
    assert_eq!(q, "JPY");
}
