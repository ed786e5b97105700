use corp_finance_core::dec::Dec;
use corp_finance_core::error::FinError;
use corp_finance_core::financial_forensics::benfords_law::{
    analyze_benfords_law, benford_first_digit, benford_first_two_digits, benford_second_digit,
    chi_squared_critical, decimal_ln, decimal_log10, decimal_sqrt, digit_after_first_nonzero,
    first_digit, first_nonzero_digit, first_two_digits, second_digit, BenfordsLawInput,
};
use rust_decimal::Decimal;

fn from(x: Decimal) -> Dec {
    Dec::new(x.mantissa(), x.scale())
}

fn d(s: &str) -> Dec {
    from(Decimal::from_str_exact(s).unwrap())
}

fn v(x: Dec) -> Decimal {
    Decimal::from_i128_with_scale(x.mantissa(), x.scale())
}

fn n(s: &str) -> Decimal {
    Decimal::from_str_exact(s).unwrap()
}

fn approx_eq(a: Decimal, b: Decimal, eps: Decimal) -> bool {
    (a - b).abs() < eps
}

fn benford_data() -> Vec<Dec> {
    let mut data = Vec::new();
    let mut x = Decimal::from(2);
    for _ in 0..60 {
        data.push(from(x));
        x *= Decimal::from(2);
    }
    x = Decimal::from(3);
    for _ in 0..38 {
        data.push(from(x));
        x *= Decimal::from(3);
    }
    let (mut a, mut b) = (Decimal::ONE, Decimal::ONE);
    for _ in 0..60 {
        data.push(from(a));
        let c = a + b;
        a = b;
        b = c;
    }
    for i in 1u32..=50 {
        data.push(from(Decimal::from(i) * Decimal::from(137)));
    }
    data
}

fn uniform_data() -> Vec<Dec> {
    (1u32..=9)
        .flat_map(|k| std::iter::repeat(from(Decimal::from(k) * Decimal::from(100))).take(50))
        .collect()
}

fn input(data: Vec<Dec>, test_type: &str) -> BenfordsLawInput {
    BenfordsLawInput {
        data_points: data,
        test_type: test_type.to_string(),
        significance_level: d("0.05"),
    }
}

fn fd_input(data: Vec<Dec>) -> BenfordsLawInput {
    input(data, "first_digit")
}

#[test]
fn test_benford_data_conforms() {
    let out = analyze_benfords_law(&fd_input(benford_data())).unwrap();
    assert!(out.conforms, "chi2={}", v(out.chi_squared));
}

#[test]
fn test_uniform_does_not_conform() {
    assert!(!analyze_benfords_law(&fd_input(uniform_data())).unwrap().conforms);
}

#[test]
fn test_first_digit_nine_freqs() {
    assert_eq!(analyze_benfords_law(&fd_input(benford_data())).unwrap().digit_frequencies.len(), 9);
}

#[test]
fn test_first_digit_df_8() {
    assert_eq!(analyze_benfords_law(&fd_input(benford_data())).unwrap().degrees_of_freedom, 8);
}

#[test]
fn test_benford_p1() {
    assert!(approx_eq(v(benford_first_digit(1).unwrap()), n("0.30103"), n("0.001")));
}

#[test]
fn test_benford_p9() {
    assert!(approx_eq(v(benford_first_digit(9).unwrap()), n("0.04576"), n("0.001")));
}

#[test]
fn test_first_digit_sums_one() {
    let t: Decimal = (1u32..=9).map(|k| v(benford_first_digit(k).unwrap())).sum();
    assert!(approx_eq(t, Decimal::ONE, n("0.001")));
}

#[test]
fn test_second_digit_sums_one() {
    let t: Decimal = (0u32..=9).map(|k| v(benford_second_digit(k).unwrap())).sum();
    assert!(approx_eq(t, Decimal::ONE, n("0.001")));
}

#[test]
fn test_second_digit_df_9() {
    let out = analyze_benfords_law(&input(benford_data(), "second_digit")).unwrap();
    assert_eq!(out.degrees_of_freedom, 9);
}

#[test]
fn test_second_digit_ten_freqs() {
    let out = analyze_benfords_law(&input(benford_data(), "second_digit")).unwrap();
    assert_eq!(out.digit_frequencies.len(), 10);
}

#[test]
fn test_chi_squared_non_negative() {
    let out = analyze_benfords_law(&fd_input(benford_data())).unwrap();
    assert!(v(out.chi_squared) >= Decimal::ZERO);
}

#[test]
fn test_cv_df8_a005() {
    assert!(approx_eq(v(chi_squared_critical(8, d("0.05")).unwrap()), n("15.507"), n("0.001")));
}

#[test]
fn test_cv_df9_a001() {
    assert!(approx_eq(v(chi_squared_critical(9, d("0.01")).unwrap()), n("21.666"), n("0.001")));
}

#[test]
fn test_max_dev_digit() {
    assert_eq!(analyze_benfords_law(&fd_input(uniform_data())).unwrap().max_deviation_digit, 1);
}

#[test]
fn test_mad_positive() {
    let out = analyze_benfords_law(&fd_input(uniform_data())).unwrap();
    assert!(v(out.mean_absolute_deviation) > Decimal::ZERO);
}

#[test]
fn test_suspect_digits() {
    assert!(!analyze_benfords_law(&fd_input(uniform_data())).unwrap().suspect_digits.is_empty());
}

#[test]
fn test_empty_data() {
    assert!(analyze_benfords_law(&fd_input(vec![])).is_err());
}

#[test]
fn test_alpha_zero() {
    let mut inp = fd_input(vec![d("100")]);
    inp.significance_level = d("0");
    assert!(analyze_benfords_law(&inp).is_err());
}

#[test]
fn test_alpha_one() {
    let mut inp = fd_input(vec![d("100")]);
    inp.significance_level = d("1");
    assert!(analyze_benfords_law(&inp).is_err());
}

#[test]
fn test_bad_type() {
    assert!(analyze_benfords_law(&input(vec![d("100")], "third_digit")).is_err());
}

#[test]
fn test_single_point() {
    let out = analyze_benfords_law(&fd_input(vec![d("123")])).unwrap();
    assert_eq!(out.digit_frequencies[0].observed_count, 1);
    assert_eq!(out.digit_frequencies[0].digit, 1);
}

#[test]
fn test_first_two_digits_df_89() {
    let out = analyze_benfords_law(&input(benford_data(), "first_two_digits")).unwrap();
    assert_eq!(out.degrees_of_freedom, 89);
    assert_eq!(out.digit_frequencies.len(), 90);
}

#[test]
fn test_first_two_sums_one() {
    let t: Decimal = (10u32..=99).map(|k| v(benford_first_two_digits(k).unwrap())).sum();
    assert!(approx_eq(t, Decimal::ONE, n("0.001")));
}

#[test]
fn test_counts_sum() {
    let data = benford_data();
    let exp = data.iter().filter(|x| first_digit(**x).is_some()).count() as u32;
    let out = analyze_benfords_law(&fd_input(data)).unwrap();
    let total: u32 = out.digit_frequencies.iter().map(|f| f.observed_count).sum();
    assert_eq!(total, exp);
}

#[test]
fn test_negatives() {
    let data = vec![d("-123"), d("-456"), d("-789"), d("-234"), d("-567")];
    let out = analyze_benfords_law(&fd_input(data)).unwrap();
    let total: u32 = out.digit_frequencies.iter().map(|f| f.observed_count).sum();
    assert_eq!(total, 5);
}

#[test]
fn test_log10_ten() {
    assert!(approx_eq(v(decimal_log10(d("10")).unwrap()), Decimal::ONE, n("0.001")));
}

// ---------------------------------------------------------------------------
// Further cases
// ---------------------------------------------------------------------------

#[test]
fn digits_of_figures() {
    assert_eq!(first_digit(d("0.0042")), Some(4));
    assert_eq!(second_digit(d("0.0042")), Some(2));
    assert_eq!(first_digit(d("-987.5")), Some(9));
    assert_eq!(second_digit(d("-987.5")), Some(8));
    assert_eq!(second_digit(d("7")), Some(0));
    assert_eq!(second_digit(d("1.05")), Some(0));
    assert_eq!(first_two_digits(d("31.4")), Some(31));
    assert_eq!(first_digit(d("0")), None);
    assert_eq!(second_digit(d("0.000")), None);
    assert_eq!(first_two_digits(d("0")), None);
}

#[test]
fn digits_of_texts() {
    assert_eq!(first_nonzero_digit("0.0305"), Some(3));
    assert_eq!(first_nonzero_digit("0.000"), None);
    assert_eq!(digit_after_first_nonzero("0.0305"), Some(0));
    assert_eq!(digit_after_first_nonzero("2.5"), Some(5));
    assert_eq!(digit_after_first_nonzero("9"), Some(0));
    assert_eq!(digit_after_first_nonzero("0.0"), None);
}

#[test]
fn logarithm_and_root_values() {
    assert!(approx_eq(v(decimal_ln(d("1")).unwrap()), Decimal::ZERO, n("0.000001")));
    assert!(approx_eq(v(decimal_ln(d("2.718281828459045")).unwrap()), Decimal::ONE, n("0.000001")));
    assert!(approx_eq(v(decimal_ln(d("0.001")).unwrap()), n("-6.907755278982137"), n("0.000001")));
    assert_eq!(v(decimal_ln(d("-3")).unwrap()), Decimal::ZERO);
    assert!(approx_eq(v(decimal_sqrt(d("2")).unwrap()), n("1.414213562373095"), n("0.000001")));
    assert!(approx_eq(v(decimal_sqrt(d("0.25")).unwrap()), n("0.5"), n("0.000001")));
    assert_eq!(v(decimal_sqrt(d("0")).unwrap()), Decimal::ZERO);
}

#[test]
fn critical_values_from_table_and_approximation() {
    assert_eq!(v(chi_squared_critical(89, d("0.10")).unwrap()), n("106.469"));
    assert_eq!(v(chi_squared_critical(8, d("0.5")).unwrap()), n("11.030"));
    // Wilson-Hilferty for 20 degrees of freedom at 5%: about 31.41.
    assert!(approx_eq(v(chi_squared_critical(20, d("0.05")).unwrap()), n("31.41"), n("0.05")));
}

#[test]
fn errors_name_the_field() {
    let mut inp = fd_input(vec![d("100")]);
    inp.significance_level = d("1.5");
    match analyze_benfords_law(&inp) {
        Err(FinError::InvalidInput { field, .. }) => assert_eq!(field, "significance_level"),
        _ => panic!("expected an invalid significance level"),
    }
    match analyze_benfords_law(&input(vec![d("100")], "digits")) {
        Err(FinError::InvalidInput { field, .. }) => assert_eq!(field, "test_type"),
        _ => panic!("expected an invalid test type"),
    }
    match analyze_benfords_law(&fd_input(vec![d("0"), d("0.00")])) {
        Err(FinError::InsufficientData(m)) => assert_eq!(m, "No valid extractable digits."),
        _ => panic!("expected no extractable digits"),
    }
    match analyze_benfords_law(&fd_input(vec![])) {
        Err(FinError::InsufficientData(m)) => assert_eq!(m, "At least one data point is required."),
        _ => panic!("expected no data"),
    }
}

#[test]
fn rows_follow_the_digits() {
    let out = analyze_benfords_law(&input(benford_data(), "first_two_digits")).unwrap();
    for (k, row) in out.digit_frequencies.iter().enumerate() {
        assert_eq!(row.digit, 10 + k as u32);
    }
    let out = analyze_benfords_law(&input(benford_data(), "second_digit")).unwrap();
    let total: u32 = out.digit_frequencies.iter().map(|f| f.observed_count).sum();
    assert_eq!(total, benford_data().len() as u32);
    assert_eq!(v(out.critical_value), n("16.919"));
    assert_eq!(out.conforms, v(out.chi_squared) < v(out.critical_value));
}
