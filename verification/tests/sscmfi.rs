use corp_finance_core::dec::Dec;
use corp_finance_core::error::FinError;
use corp_finance_core::fixed_income::sscmfi::{
    calculate_sscmfi_bond, estimate_years, generate_cashflows, parse_date_parts,
    price_from_yield_periodic, CallRedemption, SscmfiBondInput, SscmfiFrequency,
    SscmfiPaymentType, SscmfiSecurityType, StepSchedule,
};
use rust_decimal::Decimal;

fn d(s: &str) -> Dec {
    let x = Decimal::from_str_exact(s).unwrap();
    Dec::new(x.mantissa(), x.scale())
}

fn v(x: Dec) -> Decimal {
    Decimal::from_i128_with_scale(x.mantissa(), x.scale())
}

fn n(s: &str) -> Decimal {
    Decimal::from_str_exact(s).unwrap()
}

fn hundred() -> Decimal {
    Decimal::from(100)
}

fn base(security_type: SscmfiSecurityType, payment_type: SscmfiPaymentType, maturity: &str, coupon: &str, given_type: &str, given: &str) -> SscmfiBondInput {
    SscmfiBondInput {
        security_type,
        payment_type,
        maturity_date: maturity.to_string(),
        coupon_rate: d(coupon),
        given_type: given_type.to_string(),
        given_value: d(given),
        settlement_date: Some("02/22/2026".to_string()),
        redemption_value: None,
        day_count: None,
        eom_rule: None,
        frequency: None,
        call_schedule: None,
        step_schedule: None,
        pik_rate: None,
        cash_rate: None,
        calc_analytics: Some(true),
        calc_cashflows: Some(false),
    }
}

fn treasury_bond_yield_input() -> SscmfiBondInput {
    base(SscmfiSecurityType::Treasury, SscmfiPaymentType::Periodic, "06/15/2036", "5.0", "Yield", "5.0")
}

fn corporate_bond_input() -> SscmfiBondInput {
    base(SscmfiSecurityType::Corporate, SscmfiPaymentType::Periodic, "03/01/2030", "6.0", "Yield", "6.5")
}

#[test]
fn test_treasury_par_bond() {
    let result = calculate_sscmfi_bond(&treasury_bond_yield_input()).unwrap();
    let diff = (v(result.result.price) - hundred()).abs();
    assert!(diff < n("2.0"), "Treasury par bond price should be near 100, got {}", v(result.result.price));
}

#[test]
fn test_corporate_price_to_yield() {
    let result = calculate_sscmfi_bond(&corporate_bond_input()).unwrap();
    let price = result.result.price;
    let mut reverse = corporate_bond_input();
    reverse.given_type = "Price".to_string();
    reverse.given_value = price;
    let result2 = calculate_sscmfi_bond(&reverse).unwrap();
    let yield_back = v(result2.result.yield_value);
    assert!((yield_back - n("6.5")).abs() < n("0.1"), "Round-trip yield should be ~6.5%, got {}", yield_back);
}

#[test]
fn test_corporate_yield_to_price() {
    let result = calculate_sscmfi_bond(&corporate_bond_input()).unwrap();
    assert!(v(result.result.price) < hundred());
}

#[test]
fn test_callable_municipal_ytw() {
    let mut input = base(SscmfiSecurityType::Municipal, SscmfiPaymentType::Periodic, "01/01/2035", "4.0", "Price", "102.5");
    input.call_schedule = Some(vec![
        CallRedemption { date: "01/01/2028".to_string(), price: d("102") },
        CallRedemption { date: "01/01/2030".to_string(), price: d("101") },
        CallRedemption { date: "01/01/2032".to_string(), price: d("100") },
    ]);
    let result = calculate_sscmfi_bond(&input).unwrap();
    assert!(result.result.redemption_info.worst_yield.is_some());
}

#[test]
fn test_zero_coupon_discount() {
    let mut input = base(SscmfiSecurityType::Treasury, SscmfiPaymentType::Discount, "03/15/2028", "0", "Yield", "4.75");
    input.calc_cashflows = Some(true);
    let out = calculate_sscmfi_bond(&input).unwrap().result;
    assert!(v(out.price) > Decimal::ZERO);
    assert!(v(out.price) < hundred());
    assert_eq!(v(out.accrued_interest), Decimal::ZERO);
}

#[test]
fn test_iam_bond() {
    let mut input = base(SscmfiSecurityType::CD, SscmfiPaymentType::IAM, "02/22/2027", "5.0", "Yield", "5.5");
    input.calc_cashflows = Some(true);
    let out = calculate_sscmfi_bond(&input).unwrap().result;
    assert!(v(out.price) > Decimal::ZERO);
    assert!(out.cashflow_schedule.as_ref().unwrap().len() == 1);
}

#[test]
fn test_stepped_coupon() {
    let mut input = base(SscmfiSecurityType::Corporate, SscmfiPaymentType::Stepped, "09/01/2030", "3.5", "Yield", "5.0");
    input.step_schedule = Some(vec![StepSchedule { date: "09/01/2028".to_string(), coupon_rate: d("5.0") }]);
    let out = calculate_sscmfi_bond(&input).unwrap().result;
    assert!(v(out.price) > Decimal::ZERO);
}

#[test]
fn test_pik_bond() {
    let mut input = base(SscmfiSecurityType::Corporate, SscmfiPaymentType::PIK, "12/01/2029", "8.0", "Yield", "9.5");
    input.pik_rate = Some(d("8.0"));
    input.calc_cashflows = Some(true);
    let out = calculate_sscmfi_bond(&input).unwrap().result;
    assert!(v(out.price) > Decimal::ZERO);
    assert_eq!(v(out.accrued_interest), Decimal::ZERO);
    assert!(v(out.redemption_info.redemption_price) > hundred());
}

#[test]
fn test_analytics_duration_convexity() {
    let a = calculate_sscmfi_bond(&treasury_bond_yield_input()).unwrap().result.analytics.unwrap();
    assert!(v(a.macaulay_duration) > Decimal::ZERO);
    assert!(v(a.modified_duration) > Decimal::ZERO);
    assert!(v(a.macaulay_duration) > v(a.modified_duration));
    assert!(v(a.convexity) > Decimal::ZERO);
}

#[test]
fn test_pv01() {
    let a = calculate_sscmfi_bond(&treasury_bond_yield_input()).unwrap().result.analytics.unwrap();
    assert!(v(a.pv01) > Decimal::ZERO);
    assert!(v(a.pv01) < n("0.15"));
}

#[test]
fn test_yv32() {
    let a = calculate_sscmfi_bond(&treasury_bond_yield_input()).unwrap().result.analytics.unwrap();
    assert!(v(a.yv32) > Decimal::ZERO);
}

#[test]
fn test_accrued_interest() {
    let out = calculate_sscmfi_bond(&corporate_bond_input()).unwrap().result;
    assert!(v(out.accrued_interest) > Decimal::ZERO);
    assert!(v(out.accrued_interest) < n("5.0"));
}

#[test]
fn test_dirty_price() {
    let out = calculate_sscmfi_bond(&corporate_bond_input()).unwrap().result;
    let expected_dirty = v(out.price) + v(out.accrued_interest);
    assert!((v(out.trading_price) - expected_dirty).abs() < n("0.0001"));
}

#[test]
fn test_security_type_defaults() {
    let result = calculate_sscmfi_bond(&treasury_bond_yield_input()).unwrap();
    assert!(result.result.conventions.day_count.contains("ActualActual"));
    assert!(result.result.conventions.frequency.contains("Semiannual"));
    let mut cd_input = treasury_bond_yield_input();
    cd_input.security_type = SscmfiSecurityType::CD;
    let result2 = calculate_sscmfi_bond(&cd_input).unwrap();
    assert!(result2.result.conventions.day_count.contains("Actual360"));
    assert!(result2.result.conventions.frequency.contains("Monthly"));
}

#[test]
fn test_invalid_date_error() {
    let mut input = treasury_bond_yield_input();
    input.maturity_date = "2030-06-15".to_string();
    assert!(calculate_sscmfi_bond(&input).is_err());
}

#[test]
fn test_settlement_after_maturity() {
    let mut input = treasury_bond_yield_input();
    input.settlement_date = Some("01/01/2040".to_string());
    assert!(calculate_sscmfi_bond(&input).is_err());
}

#[test]
fn sscmfi_test_cashflow_schedule() {
    let mut input = treasury_bond_yield_input();
    input.calc_cashflows = Some(true);
    let cfs = calculate_sscmfi_bond(&input).unwrap().result.cashflow_schedule.unwrap();
    assert!(!cfs.is_empty());
    let last = cfs.last().unwrap();
    assert!(last.cashflow_type.contains("Redemption"));
    assert!(v(last.amount) > n("100"));
}

#[test]
fn test_partpik_bond() {
    let mut input = base(SscmfiSecurityType::Corporate, SscmfiPaymentType::PartPIK, "06/15/2028", "10.0", "Yield", "11.0");
    input.pik_rate = Some(d("4.0"));
    input.cash_rate = Some(d("6.0"));
    input.calc_analytics = Some(false);
    let out = calculate_sscmfi_bond(&input).unwrap().result;
    assert!(v(out.price) > Decimal::ZERO);
    assert!(v(out.redemption_info.redemption_price) > hundred());
}

#[test]
fn test_invalid_given_type() {
    let mut input = treasury_bond_yield_input();
    input.given_type = "Spread".to_string();
    assert!(calculate_sscmfi_bond(&input).is_err());
}

#[test]
fn sscmfi_test_metadata_populated() {
    let result = calculate_sscmfi_bond(&treasury_bond_yield_input()).unwrap();
    assert!(!result.methodology.is_empty());
}

#[test]
fn test_multistep_coupon() {
    let mut input = base(SscmfiSecurityType::Corporate, SscmfiPaymentType::Multistep, "01/01/2032", "3.0", "Yield", "5.0");
    input.step_schedule = Some(vec![
        StepSchedule { date: "01/01/2028".to_string(), coupon_rate: d("4.0") },
        StepSchedule { date: "01/01/2030".to_string(), coupon_rate: d("5.0") },
    ]);
    input.calc_analytics = Some(false);
    let result = calculate_sscmfi_bond(&input).unwrap();
    assert!(v(result.result.price) > Decimal::ZERO);
}

// ---------------------------------------------------------------------------
// Further cases
// ---------------------------------------------------------------------------

#[test]
fn dates_are_read_month_day_year() {
    assert_eq!(parse_date_parts("06/15/2036").unwrap(), (2036, 6, 15));
    match parse_date_parts("2030-06-15") {
        Err(FinError::InvalidInput { field, reason }) => {
            assert_eq!(field, "date");
            assert_eq!(reason, "Date must be in MM/DD/YYYY format, got '2030-06-15'");
        }
        _ => panic!("expected a format error"),
    }
    match parse_date_parts("13/01/2030") {
        Err(FinError::InvalidInput { reason, .. }) => assert_eq!(reason, "Invalid date values in '13/01/2030'"),
        _ => panic!("expected a range error"),
    }
    match parse_date_parts("xx/01/2030") {
        Err(FinError::InvalidInput { reason, .. }) => assert_eq!(reason, "Invalid month in date 'xx/01/2030'"),
        _ => panic!("expected a month error"),
    }
    match parse_date_parts("01/01/") {
        Err(FinError::InvalidInput { reason, .. }) => assert_eq!(reason, "Invalid year in date '01/01/'"),
        _ => panic!("expected a year error"),
    }
}

#[test]
fn years_between_dates() {
    // One calendar year apart on the same month and day: exactly one year.
    assert_eq!(v(estimate_years("02/22/2026", "02/22/2027").unwrap()), Decimal::ONE);
    // Six months: 6 * 30.4375 / 365.25 = 0.5.
    assert_eq!(v(estimate_years("01/01/2026", "07/01/2026").unwrap()), n("0.5"));
}

#[test]
fn level_coupon_price_at_par() {
    // A 2-period bond paying 5 per period at 5% per period is worth 100.
    let p = v(price_from_yield_periodic(d("5"), d("100"), d("0.05"), 2).unwrap());
    assert!((p - hundred()).abs() < n("0.0000001"));
    // No period: coupon plus redemption.
    assert_eq!(v(price_from_yield_periodic(d("5"), d("100"), d("0.05"), 0).unwrap()), n("105"));
}

#[test]
fn cashflow_rows() {
    let cfs = generate_cashflows(d("2.5"), d("100"), 3).unwrap();
    assert_eq!(cfs.len(), 3);
    assert_eq!((cfs[0].period, v(cfs[0].amount), cfs[0].cashflow_type.as_str()), (1, n("2.5"), "Coupon"));
    assert_eq!((cfs[2].period, v(cfs[2].amount), cfs[2].cashflow_type.as_str()), (3, n("102.5"), "Coupon + Redemption"));
    assert!(generate_cashflows(d("2.5"), d("100"), 0).unwrap().is_empty());
}

#[test]
fn validation_errors_name_the_field() {
    let mut input = treasury_bond_yield_input();
    input.given_type = "Price".to_string();
    input.given_value = d("0");
    match calculate_sscmfi_bond(&input) {
        Err(FinError::InvalidInput { field, .. }) => assert_eq!(field, "given_value"),
        _ => panic!("expected a price error"),
    }
    let input = base(SscmfiSecurityType::Corporate, SscmfiPaymentType::Stepped, "09/01/2030", "3.5", "Yield", "5.0");
    match calculate_sscmfi_bond(&input) {
        Err(FinError::InvalidInput { field, .. }) => assert_eq!(field, "step_schedule"),
        _ => panic!("expected a schedule error"),
    }
    let input = base(SscmfiSecurityType::Corporate, SscmfiPaymentType::PIK, "09/01/2030", "3.5", "Yield", "5.0");
    match calculate_sscmfi_bond(&input) {
        Err(FinError::InvalidInput { field, .. }) => assert_eq!(field, "pik_rate"),
        _ => panic!("expected a pik error"),
    }
    let mut input = base(SscmfiSecurityType::Corporate, SscmfiPaymentType::PartPIK, "09/01/2030", "3.5", "Yield", "5.0");
    input.pik_rate = Some(d("2"));
    match calculate_sscmfi_bond(&input) {
        Err(FinError::InvalidInput { field, .. }) => assert_eq!(field, "pik_rate/cash_rate"),
        _ => panic!("expected a part-pik error"),
    }
    let mut input = treasury_bond_yield_input();
    input.settlement_date = Some("01/01/2040".to_string());
    match calculate_sscmfi_bond(&input) {
        Err(FinError::InvalidInput { field, .. }) => assert_eq!(field, "maturity_date"),
        _ => panic!("expected a maturity error"),
    }
}

#[test]
fn worst_yield_not_above_maturity_yield() {
    let mut input = base(SscmfiSecurityType::Corporate, SscmfiPaymentType::Periodic, "01/01/2035", "6.0", "Price", "106");
    let no_calls = calculate_sscmfi_bond(&input).unwrap().result;
    input.call_schedule = Some(vec![CallRedemption { date: "01/01/2028".to_string(), price: d("100") }]);
    let called = calculate_sscmfi_bond(&input).unwrap().result;
    assert!(no_calls.redemption_info.worst_yield.is_none());
    assert_eq!(no_calls.redemption_info.redemption_type, "Maturity");
    assert!(v(called.yield_value) <= v(no_calls.yield_value));
    assert_eq!(called.redemption_info.redemption_type, "Call");
    assert_eq!(called.redemption_info.redemption_date, "01/01/2028");
}

#[test]
fn defaults_and_explicit_frequency() {
    let out = calculate_sscmfi_bond(&corporate_bond_input()).unwrap().result;
    assert_eq!(out.conventions.day_count, "SSCM30_360");
    assert_eq!(out.conventions.eom_rule, "Adjust");
    assert_eq!(out.conventions.settlement_date, "02/22/2026");
    // Semiannual 6% on 100: periodic coupon 3, accrued half of it.
    assert_eq!(v(out.accrued_interest), n("1.5"));
    let mut input = corporate_bond_input();
    input.frequency = Some(SscmfiFrequency::Annual);
    input.settlement_date = None;
    let out = calculate_sscmfi_bond(&input).unwrap().result;
    assert_eq!(out.conventions.frequency, "Annual");
    assert_eq!(v(out.accrued_interest), n("3"));
}

#[test]
fn zero_coupon_price_from_yield_exact() {
    // Two years to maturity at 4% annual, annual frequency: 100 / 1.04^2.
    let mut input = base(SscmfiSecurityType::Corporate, SscmfiPaymentType::Discount, "02/22/2028", "0", "Yield", "4");
    input.frequency = Some(SscmfiFrequency::Annual);
    let out = calculate_sscmfi_bond(&input).unwrap().result;
    assert!((v(out.price) - n("92.455621301775147928994082840")).abs() < n("0.000001"));
    assert_eq!(v(out.trading_price), v(out.price));
}
