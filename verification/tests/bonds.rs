use corp_finance_core::dec::Dec;
use corp_finance_core::error::FinError;
use corp_finance_core::fixed_income::bonds::{price_bond, BondPricingInput, Date, DayCountConvention};
use rust_decimal::Decimal;

fn d(s: &str) -> Dec {
    let x = Decimal::from_str_exact(s).unwrap();
    Dec::new(x.mantissa(), x.scale())
}

fn v(x: Dec) -> Decimal {
    Decimal::from_i128_with_scale(x.mantissa(), x.scale())
}

fn n(s: &str) -> Decimal {
    Decimal::from_str_exact(s).unwrap()
}

fn ymd(y: i32, m: u32, day: u32) -> Date {
    Date::from_ymd_opt(y, m, day).unwrap()
}

fn bond(coupon: &str, ytm: &str, freq: u8, settle: Date, maturity: Date, dc: DayCountConvention) -> BondPricingInput {
    BondPricingInput {
        face_value: d("1000"),
        coupon_rate: d(coupon),
        coupon_frequency: freq,
        ytm: d(ytm),
        settlement_date: settle,
        maturity_date: maturity,
        day_count: dc,
        call_price: None,
        call_date: None,
    }
}

fn semi_annual_bond(coupon: &str, ytm: &str) -> BondPricingInput {
    bond(coupon, ytm, 2, ymd(2024, 1, 15), ymd(2029, 1, 15), DayCountConvention::Thirty360)
}

#[test]
fn test_par_bond_price_at_par() {
    let result = price_bond(&semi_annual_bond("0.05", "0.05")).unwrap();
    let diff = (v(result.result.clean_price) - n("1000")).abs();
    assert!(diff < n("1.0"), "got {}", v(result.result.clean_price));
}

#[test]
fn test_premium_bond() {
    let result = price_bond(&semi_annual_bond("0.05", "0.03")).unwrap();
    assert!(v(result.result.clean_price) > n("1000"));
}

#[test]
fn test_discount_bond() {
    let result = price_bond(&semi_annual_bond("0.05", "0.07")).unwrap();
    assert!(v(result.result.clean_price) < n("1000"));
}

#[test]
fn test_zero_coupon_bond() {
    let input = bond("0", "0.06", 2, ymd(2024, 1, 15), ymd(2029, 1, 15), DayCountConvention::Thirty360);
    let result = price_bond(&input).unwrap();
    let mut factor = Decimal::ONE;
    for _ in 0..10 {
        factor *= n("1.03");
    }
    let expected = n("1000") / factor;
    let diff = (v(result.result.clean_price) - expected).abs();
    assert!(diff < n("2.0"), "expected ~{}, got {}", expected, v(result.result.clean_price));
}

#[test]
fn test_accrued_interest_30_360() {
    let input = bond("0.06", "0.06", 2, ymd(2024, 4, 15), ymd(2029, 1, 15), DayCountConvention::Thirty360);
    let result = price_bond(&input).unwrap();
    let out = &result.result;
    assert_eq!(v(out.coupon_amount), n("30"));
    let diff = (v(out.accrued_interest) - n("15")).abs();
    assert!(diff < n("0.50"), "got {}", v(out.accrued_interest));
}

#[test]
fn test_accrued_interest_actual_actual() {
    let input = bond("0.06", "0.06", 2, ymd(2024, 4, 15), ymd(2029, 1, 15), DayCountConvention::ActualActual);
    let result = price_bond(&input).unwrap();
    let diff = (v(result.result.accrued_interest) - n("15")).abs();
    assert!(diff < n("1.0"), "got {}", v(result.result.accrued_interest));
}

#[test]
fn test_dirty_vs_clean_relationship() {
    let input = bond("0.05", "0.04", 2, ymd(2024, 3, 15), ymd(2029, 1, 15), DayCountConvention::Thirty360);
    let result = price_bond(&input).unwrap();
    let out = &result.result;
    let diff = (v(out.dirty_price) - (v(out.clean_price) + v(out.accrued_interest))).abs();
    assert!(diff < n("0.01"));
}

#[test]
fn test_current_yield_calculation() {
    let result = price_bond(&semi_annual_bond("0.06", "0.06")).unwrap();
    let diff = (v(result.result.current_yield) - n("0.06")).abs();
    assert!(diff < n("0.005"));
}

fn callable() -> BondPricingInput {
    BondPricingInput {
        face_value: d("1000"),
        coupon_rate: d("0.06"),
        coupon_frequency: 2,
        ytm: d("0.05"),
        settlement_date: ymd(2024, 1, 15),
        maturity_date: ymd(2034, 1, 15),
        day_count: DayCountConvention::Thirty360,
        call_price: Some(d("1020")),
        call_date: Some(ymd(2029, 1, 15)),
    }
}

#[test]
fn test_callable_bond_ytc() {
    let result = price_bond(&callable()).unwrap();
    let ytc = v(result.result.ytc.expect("YTC should be computed"));
    assert!(ytc > n("0.01") && ytc < n("0.20"), "got {}", ytc);
}

#[test]
fn test_ytw_is_minimum() {
    let input = callable();
    let result = price_bond(&input).unwrap();
    let ytw = v(result.result.ytw.unwrap());
    let ytc = v(result.result.ytc.unwrap());
    let ytm = v(input.ytm);
    let expected = if ytm < ytc { ytm } else { ytc };
    assert_eq!(ytw, expected);
}

#[test]
fn test_semiannual_coupon() {
    let result = price_bond(&semi_annual_bond("0.05", "0.05")).unwrap();
    assert_eq!(result.result.num_remaining_coupons, 10);
    assert_eq!(v(result.result.coupon_amount), n("25"));
}

#[test]
fn test_quarterly_coupon() {
    let input = bond("0.08", "0.08", 4, ymd(2024, 1, 15), ymd(2027, 1, 15), DayCountConvention::Thirty360);
    let result = price_bond(&input).unwrap();
    let out = &result.result;
    assert_eq!(out.num_remaining_coupons, 12);
    assert_eq!(v(out.coupon_amount), n("20"));
    assert!((v(out.clean_price) - n("1000")).abs() < n("2.0"));
}

#[test]
fn bonds_test_cashflow_schedule() {
    let input = bond("0.06", "0.06", 2, ymd(2024, 1, 15), ymd(2026, 1, 15), DayCountConvention::Thirty360);
    let result = price_bond(&input).unwrap();
    let out = &result.result;
    assert_eq!(out.total_cashflows.len(), 4);
    for cf in &out.total_cashflows[..3] {
        assert_eq!(cf.cashflow_type, "coupon");
        assert_eq!(v(cf.amount), n("30"));
    }
    let last = &out.total_cashflows[3];
    assert_eq!(last.cashflow_type, "coupon+principal");
    assert_eq!(v(last.amount), n("1030"));
    for w in out.total_cashflows.windows(2) {
        assert!(w[0].date < w[1].date);
    }
    assert_eq!(out.total_cashflows[0].date, ymd(2024, 7, 15));
    assert_eq!(out.total_cashflows[3].date, ymd(2026, 1, 15));
}

#[test]
fn bonds_test_invalid_face_value_error() {
    let mut input = semi_annual_bond("0.05", "0.05");
    input.face_value = d("-100");
    match price_bond(&input) {
        Err(FinError::InvalidInput { field, .. }) => assert_eq!(field, "face_value"),
        _ => panic!("Expected InvalidInput"),
    }
}

#[test]
fn test_maturity_before_settlement_error() {
    let mut input = semi_annual_bond("0.05", "0.05");
    input.maturity_date = ymd(2023, 1, 15);
    match price_bond(&input) {
        Err(FinError::InvalidInput { field, .. }) => assert_eq!(field, "maturity_date"),
        _ => panic!("Expected InvalidInput"),
    }
}

#[test]
fn bonds_test_metadata_populated() {
    let result = price_bond(&semi_annual_bond("0.05", "0.05")).unwrap();
    assert!(!result.methodology.is_empty());
    assert!(result.methodology.contains("Bond Pricing"));
}

#[test]
fn test_invalid_coupon_frequency() {
    let mut input = semi_annual_bond("0.05", "0.05");
    input.coupon_frequency = 3;
    match price_bond(&input) {
        Err(FinError::InvalidInput { field, .. }) => assert_eq!(field, "coupon_frequency"),
        _ => panic!("Expected InvalidInput"),
    }
}

#[test]
fn test_call_date_after_maturity_error() {
    let mut input = semi_annual_bond("0.05", "0.05");
    input.call_price = Some(d("1050"));
    input.call_date = Some(ymd(2030, 1, 15));
    match price_bond(&input) {
        Err(FinError::InvalidInput { field, .. }) => assert_eq!(field, "call_date"),
        _ => panic!("Expected InvalidInput"),
    }
}

#[test]
fn test_annual_coupon_bond() {
    let input = bond("0.04", "0.04", 1, ymd(2024, 1, 15), ymd(2027, 1, 15), DayCountConvention::Actual365);
    let result = price_bond(&input).unwrap();
    let out = &result.result;
    assert_eq!(out.num_remaining_coupons, 3);
    assert_eq!(v(out.coupon_amount), n("40"));
    assert!((v(out.clean_price) - n("1000")).abs() < n("2.0"), "got {}", v(out.clean_price));
}

#[test]
fn test_years_to_maturity() {
    let result = price_bond(&semi_annual_bond("0.05", "0.05")).unwrap();
    let diff = (v(result.result.years_to_maturity) - n("5.0")).abs();
    assert!(diff < n("0.02"));
}

#[test]
fn bonds_years_to_maturity_exact_day_count() {
    // 2024-01-15 to 2029-01-15 spans 1827 days (two leap days).
    let result = price_bond(&semi_annual_bond("0.05", "0.05")).unwrap();
    assert_eq!(v(result.result.years_to_maturity), n("1827") / n("365.25"));
}

#[test]
fn bonds_date_rejects_impossible_day() {
    assert!(Date::from_ymd_opt(2023, 2, 29).is_none());
    assert!(Date::from_ymd_opt(2024, 2, 29).is_some());
    assert!(Date::from_ymd_opt(2024, 13, 1).is_none());
}

#[test]
fn bonds_call_price_without_date_rejected() {
    let mut input = semi_annual_bond("0.05", "0.05");
    input.call_price = Some(d("1050"));
    match price_bond(&input) {
        Err(FinError::InvalidInput { field, .. }) => assert_eq!(field, "call_price/call_date"),
        _ => panic!("Expected InvalidInput"),
    }
}

#[test]
fn bonds_month_end_schedule_clamps_days() {
    // Walking back from 31 August by quarters: 31 May, then 29 February (the day capped),
    // then 29 November (the capped day carries on).
    let input = bond("0.04", "0.04", 4, ymd(2023, 10, 1), ymd(2024, 8, 31), DayCountConvention::Thirty360);
    let result = price_bond(&input).unwrap();
    let dates: Vec<Date> = result.result.total_cashflows.iter().map(|c| c.date).collect();
    assert_eq!(dates, vec![ymd(2023, 11, 29), ymd(2024, 2, 29), ymd(2024, 5, 31), ymd(2024, 8, 31)]);
}
