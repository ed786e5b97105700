use corp_finance_core::dec::Dec;
use corp_finance_core::error::FinError;
use corp_finance_core::fx_commodities::commodities::{
    analyze_commodity_curve, decimal_power, price_commodity_forward, CommodityCurveInput,
    CommodityForwardInput, CommodityType, FuturesContract,
};
use rust_decimal::Decimal;

fn d(s: &str) -> Dec {
    let x = Decimal::from_str_exact(s).unwrap();
    Dec::new(x.mantissa(), x.scale())
}

fn v(x: Dec) -> Decimal {
    Decimal::from_i128_with_scale(x.mantissa(), x.scale())
}

fn n(s: &str) -> Decimal {
    Decimal::from_str_exact(s).unwrap()
}

fn tol() -> Decimal {
    n("0.01")
}

fn tight_tol() -> Decimal {
    n("0.001")
}

fn assert_approx(actual: Decimal, expected: Decimal, tolerance: Decimal, label: &str) {
    let diff = (actual - expected).abs();
    assert!(
        diff <= tolerance,
        "{label}: expected ~{expected}, got {actual} (diff={diff}, tol={tolerance})"
    );
}

fn fwd(s: &str, r: &str, c: &str, y: &str, t: &str, ct: CommodityType) -> CommodityForwardInput {
    CommodityForwardInput {
        spot_price: d(s),
        risk_free_rate: d(r),
        storage_cost_rate: d(c),
        convenience_yield: d(y),
        time_to_expiry: d(t),
        commodity_type: ct,
    }
}

fn fc(m: u32, p: &str, oi: Option<u64>) -> FuturesContract {
    FuturesContract { expiry_months: m, price: d(p), open_interest: oi }
}

fn curve(spot: &str, fs: Vec<FuturesContract>, r: &str, c: &str) -> CommodityCurveInput {
    CommodityCurveInput {
        spot_price: d(spot),
        futures_prices: fs,
        risk_free_rate: d(r),
        storage_cost_rate: d(c),
    }
}

#[test]
fn test_gold_forward() {
    let input = fwd("1900", "0.05", "0.005", "0", "1", CommodityType::Precious);
    let result = price_commodity_forward(&input).unwrap();
    let out = &result.result;
    assert_approx(v(out.forward_price), n("2004.50"), tol(), "gold forward");
    assert_approx(v(out.cost_of_carry), n("0.055"), tight_tol(), "gold carry");
    assert_eq!(out.contango_backwardation, "Contango");
}

#[test]
fn test_oil_forward() {
    let input = fwd("80", "0.05", "0.03", "0.02", "0.5", CommodityType::Energy);
    let result = price_commodity_forward(&input).unwrap();
    let out = &result.result;
    assert_approx(v(out.cost_of_carry), n("0.06"), tight_tol(), "oil carry");
    let expected_fwd = n("80") * n("1.02956");
    assert_approx(v(out.forward_price), expected_fwd, n("0.1"), "oil forward");
    assert_eq!(out.contango_backwardation, "Contango");
}

#[test]
fn test_backwardation_high_convenience_yield() {
    let input = fwd("80", "0.03", "0.01", "0.10", "1", CommodityType::Energy);
    let result = price_commodity_forward(&input).unwrap();
    let out = &result.result;
    assert_approx(v(out.forward_price), n("75.20"), tol(), "backwardation fwd");
    assert_eq!(out.contango_backwardation, "Backwardation");
    assert!(v(out.basis) < Decimal::ZERO);
}

#[test]
fn test_contango_detection() {
    let input = fwd("100", "0.08", "0.02", "0.01", "1", CommodityType::Metals);
    let result = price_commodity_forward(&input).unwrap();
    assert_eq!(result.result.contango_backwardation, "Contango");
    assert!(v(result.result.forward_price) > n("100"));
}

#[test]
fn test_flat_market() {
    let input = fwd("100", "0.05", "0.01", "0.06", "1", CommodityType::Agriculture);
    let result = price_commodity_forward(&input).unwrap();
    let out = &result.result;
    assert_approx(v(out.forward_price), n("100"), tol(), "flat market");
    assert_eq!(out.contango_backwardation, "Flat");
}

#[test]
fn test_basis_percentage() {
    let input = fwd("100", "0.05", "0.01", "0", "1", CommodityType::Metals);
    let result = price_commodity_forward(&input).unwrap();
    let out = &result.result;
    let expected_basis_pct = (v(out.forward_price) - n("100")) / n("100");
    assert_approx(v(out.basis_pct), expected_basis_pct, n("0.0001"), "basis pct");
}

#[test]
fn test_roll_yield() {
    let input = fwd("100", "0.05", "0.02", "0", "1", CommodityType::Energy);
    let result = price_commodity_forward(&input).unwrap();
    assert!(v(result.result.roll_yield) < Decimal::ZERO, "Contango => negative roll yield");
    let input_back = CommodityForwardInput { convenience_yield: d("0.15"), ..input };
    let result_back = price_commodity_forward(&input_back).unwrap();
    assert!(v(result_back.result.roll_yield) > Decimal::ZERO, "Backwardation => positive roll yield");
}

#[test]
fn test_term_structure_contango() {
    let input = curve(
        "100",
        vec![fc(3, "101.5", Some(50000)), fc(6, "103", Some(30000)), fc(12, "106", Some(20000))],
        "0.05",
        "0.01",
    );
    let result = analyze_commodity_curve(&input).unwrap();
    let out = &result.result;
    assert_eq!(out.curve_shape, "Contango");
    assert_eq!(out.term_structure.len(), 3);
    for pt in &out.term_structure {
        assert!(v(pt.basis) > Decimal::ZERO);
    }
    assert!(v(out.term_structure[2].basis) > v(out.term_structure[0].basis));
}

#[test]
fn test_term_structure_backwardation() {
    let input = curve("100", vec![fc(3, "98", None), fc(6, "96", None), fc(12, "93", None)], "0.03", "0.01");
    let result = analyze_commodity_curve(&input).unwrap();
    let out = &result.result;
    assert_eq!(out.curve_shape, "Backwardation");
    for pt in &out.term_structure {
        assert!(v(pt.basis) < Decimal::ZERO);
    }
}

#[test]
fn test_calendar_spreads() {
    let input = curve("100", vec![fc(3, "102", None), fc(6, "104", None), fc(12, "108", None)], "0.05", "0.01");
    let result = analyze_commodity_curve(&input).unwrap();
    let out = &result.result;
    assert_eq!(out.calendar_spreads.len(), 2);
    let sp1 = &out.calendar_spreads[0];
    assert_eq!(sp1.near_month, 3);
    assert_eq!(sp1.far_month, 6);
    assert_approx(v(sp1.spread), n("2"), n("0.001"), "spread 3-6m");
    let sp2 = &out.calendar_spreads[1];
    assert_eq!(sp2.near_month, 6);
    assert_eq!(sp2.far_month, 12);
    assert_approx(v(sp2.spread), n("4"), n("0.001"), "spread 6-12m");
}

#[test]
fn test_implied_convenience_yield() {
    let input = curve("100", vec![fc(12, "100", None)], "0.05", "0.01");
    let result = analyze_commodity_curve(&input).unwrap();
    let out = &result.result;
    assert_eq!(out.implied_convenience_yields.len(), 1);
    assert_approx(v(out.implied_convenience_yields[0]), n("0.06"), tol(), "implied CY");
}

#[test]
fn test_avg_roll_yield() {
    let input = curve("100", vec![fc(3, "102", None), fc(6, "104", None)], "0.05", "0.01");
    let result = analyze_commodity_curve(&input).unwrap();
    let out = &result.result;
    let expected_roll = (n("102") - n("104")) / n("102") / n("0.25");
    assert_approx(v(out.avg_roll_yield), expected_roll, tol(), "avg roll yield");
    assert!(v(out.avg_roll_yield) < Decimal::ZERO, "Contango => negative roll");
}

#[test]
fn test_mixed_curve() {
    let input = curve("100", vec![fc(3, "101", None), fc(6, "99", None)], "0.05", "0.01");
    let result = analyze_commodity_curve(&input).unwrap();
    assert_eq!(result.result.curve_shape, "Mixed");
    assert!(result.warnings.iter().any(|w| w.contains("Mixed")));
}

#[test]
fn test_validation_spot_positive() {
    let input = fwd("0", "0.05", "0.01", "0", "1", CommodityType::Energy);
    match price_commodity_forward(&input) {
        Err(FinError::InvalidInput { field, .. }) => assert_eq!(field, "spot_price"),
        _ => panic!("Expected InvalidInput for spot_price"),
    }
}

#[test]
fn test_validation_storage_cost_nonneg() {
    let input = fwd("100", "0.05", "-0.01", "0", "1", CommodityType::Energy);
    match price_commodity_forward(&input) {
        Err(FinError::InvalidInput { field, .. }) => assert_eq!(field, "storage_cost_rate"),
        _ => panic!("Expected InvalidInput for storage_cost_rate"),
    }
}

#[test]
fn test_validation_convenience_yield_nonneg() {
    let input = fwd("100", "0.05", "0.01", "-0.01", "1", CommodityType::Energy);
    match price_commodity_forward(&input) {
        Err(FinError::InvalidInput { field, .. }) => assert_eq!(field, "convenience_yield"),
        _ => panic!("Expected InvalidInput for convenience_yield"),
    }
}

#[test]
fn commodities_test_validation_time_positive() {
    let input = fwd("100", "0.05", "0.01", "0", "0", CommodityType::Energy);
    match price_commodity_forward(&input) {
        Err(FinError::InvalidInput { field, .. }) => assert_eq!(field, "time_to_expiry"),
        _ => panic!("Expected InvalidInput for time_to_expiry"),
    }
}

#[test]
fn test_curve_empty_contracts_error() {
    let input = curve("100", vec![], "0.05", "0.01");
    match analyze_commodity_curve(&input) {
        Err(FinError::InsufficientData(_)) => {}
        _ => panic!("Expected InsufficientData"),
    }
}

#[test]
fn test_convenience_yield_warning() {
    let input = fwd("80", "0.03", "0.01", "0.10", "1", CommodityType::Energy);
    let result = price_commodity_forward(&input).unwrap();
    assert!(
        result.warnings.iter().any(|w| w.contains("Convenience yield")),
        "Should warn when CY > r_f"
    );
}

#[test]
fn test_agriculture_forward_multi_year() {
    let input = fwd("500", "0.04", "0.02", "0", "3", CommodityType::Agriculture);
    let result = price_commodity_forward(&input).unwrap();
    let out = &result.result;
    let expected = n("500") * n("1.06") * n("1.06") * n("1.06");
    assert_approx(v(out.forward_price), expected, tol(), "agri multi-year");
}

#[test]
fn commodities_test_metadata_populated() {
    let input = fwd("100", "0.05", "0.01", "0", "1", CommodityType::Precious);
    let result = price_commodity_forward(&input).unwrap();
    assert!(result.methodology.contains("Commodity Forward"));
}

#[test]
fn test_curve_metadata() {
    let input = curve("100", vec![fc(6, "103", None)], "0.05", "0.01");
    let result = analyze_commodity_curve(&input).unwrap();
    assert!(result.methodology.contains("Term Structure"));
}

#[test]
fn test_single_contract_curve() {
    let input = curve("100", vec![fc(6, "103", Some(100000))], "0.05", "0.01");
    let result = analyze_commodity_curve(&input).unwrap();
    let out = &result.result;
    assert_eq!(out.term_structure.len(), 1);
    assert!(out.calendar_spreads.is_empty());
    assert_eq!(v(out.avg_roll_yield), Decimal::ZERO);
    assert_eq!(out.curve_shape, "Contango");
}

// --- further cases ---

#[test]
fn forward_non_positive_carry_base_is_impossible() {
    let input = fwd("100", "-1.5", "0", "0", "1", CommodityType::Energy);
    match price_commodity_forward(&input) {
        Err(FinError::FinancialImpossibility(m)) => assert_eq!(
            m,
            "Cost of carry base (1 + r + c - y) = -0.5 is non-positive; cannot compute discrete compounding"
        ),
        _ => panic!("expected FinancialImpossibility"),
    }
}

#[test]
fn forward_large_basis_warns_with_four_places() {
    let input = fwd("100", "0.30", "0", "0", "1", CommodityType::Energy);
    let result = price_commodity_forward(&input).unwrap();
    assert!(result.warnings.iter().any(|w| w == "Annualised basis of 0.3000 exceeds 20%"));
}

#[test]
fn power_of_whole_exponent_multiplies() {
    assert_eq!(v(decimal_power(d("1.1"), d("2")).unwrap()), n("1.21"));
    assert_eq!(v(decimal_power(d("5"), d("0")).unwrap()), n("1"));
}

#[test]
fn power_of_whole_exponent_with_places_multiplies() {
    assert_eq!(v(decimal_power(d("1.1"), d("2.0")).unwrap()), n("1.21"));
    assert_eq!(v(decimal_power(d("1.055"), d("1.0")).unwrap()), n("1.055"));
}

#[test]
fn curve_rejects_zero_expiry() {
    let input = curve("100", vec![fc(3, "101", None), fc(0, "102", None)], "0.05", "0.01");
    match analyze_commodity_curve(&input) {
        Err(FinError::InvalidInput { field, reason }) => {
            assert_eq!(field, "expiry_months");
            assert_eq!(reason, "Expiry months must be positive");
        }
        _ => panic!("expected InvalidInput"),
    }
}

#[test]
fn curve_rejects_non_positive_price() {
    let input = curve("100", vec![fc(3, "0", None)], "0.05", "0.01");
    match analyze_commodity_curve(&input) {
        Err(FinError::InvalidInput { field, .. }) => assert_eq!(field, "price"),
        _ => panic!("expected InvalidInput"),
    }
}

#[test]
fn curve_convenience_yield_warning_text() {
    let input = curve("100", vec![fc(12, "100", None)], "0.05", "0.01");
    let result = analyze_commodity_curve(&input).unwrap();
    assert_eq!(result.warnings.len(), 1);
    assert!(result.warnings[0].starts_with("Contract 1 (12m): implied convenience yield 0.06"));
    assert!(result.warnings[0].ends_with("exceeds risk-free rate 0.0500"));
}
