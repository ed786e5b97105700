use corp_finance_core::dec::Dec;
use corp_finance_core::error::FinError;
use corp_finance_core::fixed_income::yields::{
    bootstrap_spot_curve, calculate_bond_yield, exp_decimal, fit_nelson_siegel, iterative_pow, ln_decimal,
    nelson_siegel_rate, sqrt_decimal, BondYieldInput, BootstrapInput, NelsonSiegelInput, ObservedRate,
    ParInstrument,
};
use rust_decimal::Decimal;

fn d(s: &str) -> Dec {
    let x = Decimal::from_str_exact(s).unwrap();
    Dec::new(x.mantissa(), x.scale())
}

fn v(x: Dec) -> Decimal {
    Decimal::from_i128_with_scale(x.mantissa(), x.scale())
}

fn n(s: &str) -> Decimal {
    Decimal::from_str_exact(s).unwrap()
}

fn par_bond_input() -> BondYieldInput {
    BondYieldInput {
        face_value: d("1000"),
        coupon_rate: d("0.05"),
        coupon_frequency: 2,
        market_price: d("1000"),
        years_to_maturity: d("10"),
        current_yield_only: false,
    }
}

fn inst(m: &str, r: &str, f: u8) -> ParInstrument {
    ParInstrument { maturity_years: d(m), par_rate: d(r), coupon_frequency: f }
}

fn sample_bootstrap_input() -> BootstrapInput {
    BootstrapInput { par_instruments: vec![inst("1", "0.03", 2), inst("2", "0.035", 2)] }
}

fn obs(m: &str, r: Dec) -> ObservedRate {
    ObservedRate { maturity: d(m), rate: r }
}

#[test]
fn test_ytm_par_bond() {
    let result = calculate_bond_yield(&par_bond_input()).unwrap();
    let out = &result.result;
    let diff = (v(out.ytm) - n("0.05")).abs();
    assert!(diff < n("0.001"), "Par bond YTM should be ~5%, got {}", v(out.ytm));
    assert_eq!(out.discount_or_premium, "par");
}

#[test]
fn test_ytm_premium_bond() {
    let mut input = par_bond_input();
    input.market_price = d("1100");
    let result = calculate_bond_yield(&input).unwrap();
    let out = &result.result;
    assert!(v(out.ytm) < v(input.coupon_rate));
    assert_eq!(out.discount_or_premium, "premium");
}

#[test]
fn test_ytm_discount_bond() {
    let mut input = par_bond_input();
    input.market_price = d("900");
    let result = calculate_bond_yield(&input).unwrap();
    let out = &result.result;
    assert!(v(out.ytm) > v(input.coupon_rate));
    assert_eq!(out.discount_or_premium, "discount");
}

#[test]
fn test_current_yield() {
    let result = calculate_bond_yield(&par_bond_input()).unwrap();
    let expected = n("1000") * n("0.05") / n("1000");
    assert_eq!(v(result.result.current_yield), expected);
}

#[test]
fn test_bey_calculation() {
    let result = calculate_bond_yield(&par_bond_input()).unwrap();
    let out = &result.result;
    let diff = (v(out.bey) - v(out.ytm)).abs();
    assert!(diff < n("0.0001"));
}

#[test]
fn test_bey_quarterly_bond() {
    let mut input = par_bond_input();
    input.coupon_frequency = 4;
    let result = calculate_bond_yield(&input).unwrap();
    assert!((v(result.result.bey) - n("0.05")).abs() < n("0.002"), "got {}", v(result.result.bey));
}

#[test]
fn test_effective_annual_yield() {
    let result = calculate_bond_yield(&par_bond_input()).unwrap();
    let diff = (v(result.result.effective_annual_yield) - n("0.050625")).abs();
    assert!(diff < n("0.002"));
}

#[test]
fn test_bootstrap_two_instruments() {
    let result = bootstrap_spot_curve(&sample_bootstrap_input()).unwrap();
    let out = &result.result;
    assert_eq!(out.spot_rates.len(), 2);
    assert_eq!(out.discount_factors.len(), 2);
    assert_eq!(v(out.spot_rates[0].rate), n("0.03"));
    assert!(v(out.spot_rates[1].rate) >= n("0.035") - n("0.001"));
}

#[test]
fn test_bootstrap_five_instruments() {
    let input = BootstrapInput {
        par_instruments: vec![
            inst("1", "0.02", 1),
            inst("2", "0.025", 1),
            inst("3", "0.03", 1),
            inst("5", "0.035", 1),
            inst("10", "0.04", 1),
        ],
    };
    let result = bootstrap_spot_curve(&input).unwrap();
    let out = &result.result;
    assert_eq!(out.spot_rates.len(), 5);
    assert_eq!(out.forward_rates.len(), 4);
    assert_eq!(out.discount_factors.len(), 5);
    assert_eq!(v(out.spot_rates[0].rate), n("0.02"));
}

#[test]
fn test_spot_rates_monotonic() {
    let input = BootstrapInput {
        par_instruments: vec![inst("1", "0.02", 1), inst("2", "0.025", 1), inst("3", "0.03", 1)],
    };
    let result = bootstrap_spot_curve(&input).unwrap();
    let spots = &result.result.spot_rates;
    for i in 1..spots.len() {
        assert!(v(spots[i].rate) >= v(spots[i - 1].rate));
    }
}

#[test]
fn test_forward_rates_derived() {
    let input = BootstrapInput { par_instruments: vec![inst("1", "0.03", 1), inst("2", "0.04", 1)] };
    let result = bootstrap_spot_curve(&input).unwrap();
    let fwds = &result.result.forward_rates;
    assert_eq!(fwds.len(), 1);
    assert_eq!(v(fwds[0].start), n("1"));
    assert_eq!(v(fwds[0].end), n("2"));
    assert!(v(fwds[0].rate) > Decimal::ZERO);
    let s2 = v(result.result.spot_rates[1].rate);
    assert!(v(fwds[0].rate) > s2 - n("0.005"));
}

#[test]
fn test_discount_factors_decreasing() {
    let input = BootstrapInput {
        par_instruments: vec![inst("1", "0.03", 1), inst("2", "0.035", 1), inst("3", "0.04", 1)],
    };
    let result = bootstrap_spot_curve(&input).unwrap();
    let dfs = &result.result.discount_factors;
    for df in dfs {
        assert!(v(df.factor) > Decimal::ZERO);
        assert!(v(df.factor) < Decimal::ONE);
    }
    for i in 1..dfs.len() {
        assert!(v(dfs[i].factor) < v(dfs[i - 1].factor));
    }
}

#[test]
fn test_nelson_siegel_flat_curve() {
    let flat = d("0.05");
    let input = NelsonSiegelInput {
        observed_rates: vec![obs("1", flat), obs("3", flat), obs("5", flat), obs("10", flat)],
        initial_lambda: Some(d("1.5")),
    };
    let result = fit_nelson_siegel(&input).unwrap();
    let out = &result.result;
    assert!(v(out.rmse) < n("0.002"), "got {}", v(out.rmse));
    for fr in &out.fitted_rates {
        assert!((v(fr.fitted) - n("0.05")).abs() < n("0.002"));
    }
}

#[test]
fn test_nelson_siegel_fit_quality() {
    let (b0, b1, b2, lambda) = (d("0.06"), d("-0.02"), d("0.01"), d("1.5"));
    let maturities = ["0.5", "1", "2", "3", "5", "7", "10", "15", "20", "30"];
    let observed: Vec<ObservedRate> = maturities
        .iter()
        .map(|t| {
            let rate = nelson_siegel_rate(d(t), b0, b1, b2, lambda).unwrap();
            obs(t, rate)
        })
        .collect();
    let input = NelsonSiegelInput { observed_rates: observed, initial_lambda: Some(lambda) };
    let result = fit_nelson_siegel(&input).unwrap();
    assert!(v(result.result.rmse) < n("0.001"), "got {}", v(result.result.rmse));
}

#[test]
fn test_insufficient_par_instruments_error() {
    let input = BootstrapInput { par_instruments: vec![inst("1", "0.03", 2)] };
    match bootstrap_spot_curve(&input) {
        Err(FinError::InsufficientData(msg)) => assert!(msg.contains("at least 2")),
        _ => panic!("Expected InsufficientData"),
    }
}

#[test]
fn test_invalid_market_price_error() {
    let mut input = par_bond_input();
    input.market_price = d("-50");
    match calculate_bond_yield(&input) {
        Err(FinError::InvalidInput { field, .. }) => assert_eq!(field, "market_price"),
        _ => panic!("Expected InvalidInput for market_price"),
    }
}

#[test]
fn yields_test_invalid_face_value_error() {
    let mut input = par_bond_input();
    input.face_value = d("0");
    assert!(calculate_bond_yield(&input).is_err());
}

#[test]
fn yields_test_invalid_coupon_frequency_error() {
    let mut input = par_bond_input();
    input.coupon_frequency = 3;
    match calculate_bond_yield(&input) {
        Err(FinError::InvalidInput { field, .. }) => assert_eq!(field, "coupon_frequency"),
        _ => panic!("Expected InvalidInput for coupon_frequency"),
    }
}

#[test]
fn test_insufficient_observed_rates_error() {
    let input = NelsonSiegelInput {
        observed_rates: vec![obs("1", d("0.03")), obs("2", d("0.04"))],
        initial_lambda: None,
    };
    match fit_nelson_siegel(&input) {
        Err(FinError::InsufficientData(msg)) => assert!(msg.contains("at least 3")),
        _ => panic!("Expected InsufficientData"),
    }
}

#[test]
fn yields_test_metadata_populated() {
    let result = calculate_bond_yield(&par_bond_input()).unwrap();
    assert!(!result.methodology.is_empty());
}

#[test]
fn test_exp_decimal_zero() {
    assert_eq!(v(exp_decimal(d("0")).unwrap()), Decimal::ONE);
}

#[test]
fn test_exp_decimal_one() {
    let r = v(exp_decimal(d("1")).unwrap());
    assert!((r - n("2.71828")).abs() < n("0.001"), "got {}", r);
}

#[test]
fn test_sqrt_decimal_four() {
    let r = v(sqrt_decimal(d("4")).unwrap());
    assert!((r - n("2")).abs() < n("0.0000001"), "got {}", r);
}

#[test]
fn test_ln_decimal_e() {
    let r = v(ln_decimal(d("2.71828182845904")).unwrap());
    assert!((r - Decimal::ONE).abs() < n("0.001"), "got {}", r);
}

#[test]
fn test_current_yield_only_skips_newton() {
    let mut input = par_bond_input();
    input.current_yield_only = true;
    input.market_price = d("950");
    let result = calculate_bond_yield(&input).unwrap();
    assert_eq!(v(result.result.current_yield), n("50") / n("950"));
}

#[test]
fn test_bootstrap_unsorted_rejected() {
    let input = BootstrapInput { par_instruments: vec![inst("2", "0.04", 2), inst("1", "0.03", 2)] };
    assert!(bootstrap_spot_curve(&input).is_err());
}

#[test]
fn yields_sqrt_of_non_positive_is_zero() {
    assert_eq!(v(sqrt_decimal(d("-4")).unwrap()), Decimal::ZERO);
    assert_eq!(v(sqrt_decimal(d("1")).unwrap()), Decimal::ONE);
}

#[test]
fn yields_iterative_pow_integer_exponent() {
    assert_eq!(v(iterative_pow(d("1.1"), d("2")).unwrap()), n("1.21"));
    assert_eq!(v(iterative_pow(d("5"), d("0")).unwrap()), Decimal::ONE);
}

#[test]
fn yields_current_yield_only_periodic_rate() {
    // With current_yield_only the periodic yield is the current yield over the frequency,
    // so the annual yield is the current yield itself.
    let mut input = par_bond_input();
    input.current_yield_only = true;
    let result = calculate_bond_yield(&input).unwrap();
    assert_eq!(v(result.result.ytm), n("0.05"));
    assert!(result.warnings.is_empty());
}

#[test]
fn yields_zero_periods_rejected() {
    // 0.1 years of semi-annual coupons rounds to zero periods.
    let mut input = par_bond_input();
    input.years_to_maturity = d("0.1");
    match calculate_bond_yield(&input) {
        Err(FinError::InvalidInput { field, reason }) => {
            assert_eq!(field, "years_to_maturity");
            assert_eq!(reason, "Computed number of periods is zero");
        }
        _ => panic!("expected an invalid-input error"),
    }
}

#[test]
fn yields_nelson_siegel_rejects_non_positive_maturity() {
    let input = NelsonSiegelInput {
        observed_rates: vec![obs("1", d("0.03")), obs("0", d("0.04")), obs("3", d("0.05"))],
        initial_lambda: None,
    };
    match fit_nelson_siegel(&input) {
        Err(FinError::InvalidInput { field, .. }) => assert_eq!(field, "maturity"),
        _ => panic!("expected an invalid-input error"),
    }
}
