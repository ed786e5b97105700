use corp_finance_core::dec::Dec;
use corp_finance_core::error::FinError;
use corp_finance_core::fund_of_funds::manager_selection::{
    analyze_manager_selection, BenchmarkQuartile, FundRecord, ManagerSelectionInput, QualitativeFactor,
    Recommendation,
};
use rust_decimal::Decimal;

fn d(s: &str) -> Dec {
    let x = Decimal::from_str_exact(s).unwrap();
    Dec::new(x.mantissa(), x.scale())
}

fn v(x: Dec) -> Decimal {
    Decimal::from_i128_with_scale(x.mantissa(), x.scale())
}

fn n(s: &str) -> Decimal {
    Decimal::from_str_exact(s).unwrap()
}

fn approx_eq(a: Decimal, b: Decimal, eps: Decimal) -> bool {
    (a - b).abs() < eps
}

fn fund(name: &str, vintage: u32, irr: &str, tvpi: &str, dpi: &str, pme: &str) -> FundRecord {
    FundRecord { name: name.to_string(), vintage, irr: d(irr), tvpi: d(tvpi), dpi: d(dpi), pme: d(pme) }
}

fn factor(name: &str, weight: &str, score: &str) -> QualitativeFactor {
    QualitativeFactor { factor: name.to_string(), weight: d(weight), score: d(score) }
}

fn bench(metric: &str, q1: &str, median: &str, q3: &str) -> BenchmarkQuartile {
    BenchmarkQuartile { metric: metric.to_string(), q1: d(q1), median: d(median), q3: d(q3) }
}

fn default_input() -> ManagerSelectionInput {
    ManagerSelectionInput {
        manager_name: "Test Capital Partners".to_string(),
        funds: vec![
            fund("Fund I", 2012, "0.18", "2.1", "1.9", "0.12"),
            fund("Fund II", 2015, "0.22", "2.5", "2.0", "0.14"),
            fund("Fund III", 2018, "0.15", "1.8", "1.2", "0.10"),
            fund("Fund IV", 2021, "0.20", "1.6", "0.8", "0.11"),
        ],
        qualitative_scores: vec![
            factor("Team", "0.30", "4"),
            factor("Strategy", "0.25", "4"),
            factor("Track Record", "0.20", "5"),
            factor("Operations", "0.15", "3"),
            factor("Terms", "0.10", "3"),
        ],
        benchmark_quartiles: vec![
            bench("irr", "0.20", "0.14", "0.08"),
            bench("tvpi", "2.0", "1.5", "1.2"),
            bench("dpi", "1.5", "1.0", "0.5"),
        ],
    }
}

#[test]
fn test_manager_basic_output() {
    let out = analyze_manager_selection(&default_input()).unwrap();
    assert!(v(out.quantitative_score) > Decimal::ZERO);
    assert!(v(out.qualitative_score) > Decimal::ZERO);
    assert!(v(out.overall_score) > Decimal::ZERO);
}

#[test]
fn test_manager_quartile_rankings_count() {
    let out = analyze_manager_selection(&default_input()).unwrap();
    assert_eq!(out.fund_quartiles.len(), 12);
}

#[test]
fn test_manager_quartile_values_1_to_4() {
    let out = analyze_manager_selection(&default_input()).unwrap();
    for r in &out.fund_quartiles {
        assert!(r.quartile >= 1 && r.quartile <= 4);
    }
}

#[test]
fn test_manager_top_quartile_for_strong_irr() {
    let out = analyze_manager_selection(&default_input()).unwrap();
    let r = out.fund_quartiles.iter().find(|r| r.fund == "Fund II" && r.metric == "irr").unwrap();
    assert_eq!(r.quartile, 1);
}

#[test]
fn test_manager_quantitative_score_in_range() {
    let out = analyze_manager_selection(&default_input()).unwrap();
    let q = v(out.quantitative_score);
    assert!(q >= Decimal::ZERO && q <= n("100"));
}

#[test]
fn test_manager_qualitative_score_in_range() {
    let out = analyze_manager_selection(&default_input()).unwrap();
    let q = v(out.qualitative_score);
    assert!(q >= Decimal::ZERO && q <= n("100"));
}

#[test]
fn test_manager_overall_score_is_blend() {
    let out = analyze_manager_selection(&default_input()).unwrap();
    let expected = n("0.60") * v(out.quantitative_score) + n("0.40") * v(out.qualitative_score);
    assert!(approx_eq(v(out.overall_score), expected, n("0.01")));
}

#[test]
fn test_manager_average_alpha_positive() {
    let out = analyze_manager_selection(&default_input()).unwrap();
    assert!(v(out.average_alpha) > Decimal::ZERO);
}

#[test]
fn test_manager_average_alpha_calculation() {
    let out = analyze_manager_selection(&default_input()).unwrap();
    assert!(approx_eq(v(out.average_alpha), n("0.07"), n("0.001")));
}

#[test]
fn test_manager_persistence_with_enough_funds() {
    let out = analyze_manager_selection(&default_input()).unwrap();
    let p = v(out.persistence_correlation);
    assert!(p >= n("-1") && p <= Decimal::ONE);
}

#[test]
fn test_manager_return_consistency_in_range() {
    let out = analyze_manager_selection(&default_input()).unwrap();
    let c = v(out.return_consistency);
    assert!(c >= Decimal::ZERO && c <= Decimal::ONE);
}

#[test]
fn test_manager_recommendation_strong_buy() {
    let mut input = default_input();
    input.funds = vec![fund("Fund I", 2018, "0.30", "3.0", "2.5", "0.10")];
    input.qualitative_scores = vec![factor("Team", "1.0", "5")];
    let out = analyze_manager_selection(&input).unwrap();
    assert_eq!(out.recommendation, Recommendation::StrongBuy);
}

#[test]
fn test_manager_recommendation_pass() {
    let mut input = default_input();
    input.funds = vec![fund("Fund I", 2018, "0.02", "0.9", "0.3", "0.10")];
    input.qualitative_scores = vec![factor("Team", "1.0", "1")];
    let out = analyze_manager_selection(&input).unwrap();
    assert_eq!(out.recommendation, Recommendation::Pass);
}

#[test]
fn test_manager_single_fund_persistence_zero() {
    let mut input = default_input();
    input.funds = vec![fund("Fund I", 2012, "0.18", "2.1", "1.9", "0.12")];
    let out = analyze_manager_selection(&input).unwrap();
    assert_eq!(v(out.persistence_correlation), Decimal::ZERO);
}

#[test]
fn manager_selection_test_reject_empty_funds() {
    let mut input = default_input();
    input.funds = vec![];
    assert!(analyze_manager_selection(&input).is_err());
}

#[test]
fn manager_selection_test_reject_negative_tvpi() {
    let mut input = default_input();
    input.funds[0].tvpi = d("-1");
    assert!(analyze_manager_selection(&input).is_err());
}

#[test]
fn test_reject_score_out_of_range() {
    let mut input = default_input();
    input.qualitative_scores[0].score = d("6");
    assert!(analyze_manager_selection(&input).is_err());
}

#[test]
fn test_reject_score_below_one() {
    let mut input = default_input();
    input.qualitative_scores[0].score = d("0");
    assert!(analyze_manager_selection(&input).is_err());
}

#[test]
fn test_reject_empty_benchmarks() {
    let mut input = default_input();
    input.benchmark_quartiles = vec![];
    assert!(analyze_manager_selection(&input).is_err());
}

#[test]
fn test_reject_negative_weight() {
    let mut input = default_input();
    input.qualitative_scores[0].weight = d("-0.1");
    assert!(analyze_manager_selection(&input).is_err());
}

#[test]
fn manager_selection_exact_scores() {
    // Qualitative: weighted average 3.95 of 1-5 -> (3.95 - 1) / 4 * 100 = 73.75.
    let out = analyze_manager_selection(&default_input()).unwrap();
    assert_eq!(v(out.qualitative_score), n("73.75"));
    // Average alpha: 0.28 / 4.
    assert_eq!(v(out.average_alpha), n("0.07"));
}

#[test]
fn manager_selection_unknown_metric_is_skipped() {
    let mut input = default_input();
    input.benchmark_quartiles.push(bench("moic", "2", "1.5", "1"));
    let out = analyze_manager_selection(&input).unwrap();
    assert_eq!(out.fund_quartiles.len(), 12);
}

#[test]
fn manager_selection_factor_error_names_the_factor() {
    let mut input = default_input();
    input.qualitative_scores[1].weight = d("-0.5");
    match analyze_manager_selection(&input) {
        Err(FinError::InvalidInput { field, .. }) => assert_eq!(field, "qualitative_scores.Strategy.weight"),
        _ => panic!("expected an invalid-input error"),
    }
}

#[test]
fn manager_selection_recommendation_labels() {
    assert_eq!(Recommendation::StrongBuy.to_string(), "Strong Buy");
    assert_eq!(Recommendation::Pass.to_string(), "Pass");
}
