use corp_finance_core::dec::Dec;
use corp_finance_core::error::FinError;
use corp_finance_core::fpa::working_capital::{
    analyze_working_capital, build_rolling_forecast, ForecastDrivers, ForecastPeriod,
    IndustryBenchmarks, RollingForecastInput, WcPeriod, WorkingCapitalInput,
};
use rust_decimal::Decimal;

fn d(s: &str) -> Dec {
    let x = Decimal::from_str_exact(s).unwrap();
    Dec::new(x.mantissa(), x.scale())
}

fn v(x: Dec) -> Decimal {
    Decimal::from_i128_with_scale(x.mantissa(), x.scale())
}

fn n(s: &str) -> Decimal {
    Decimal::from_str_exact(s).unwrap()
}

fn sample_period(name: &str) -> WcPeriod {
    WcPeriod {
        period_name: name.to_string(),
        revenue: d("1000000"),
        cogs: d("600000"),
        accounts_receivable: d("150000"),
        inventory: d("100000"),
        accounts_payable: d("80000"),
        other_current_assets: d("50000"),
        other_current_liabilities: d("30000"),
        days_in_period: 365,
    }
}

fn sample_wc_input() -> WorkingCapitalInput {
    WorkingCapitalInput {
        company_name: "TestCo".to_string(),
        periods: vec![sample_period("FY2023")],
        industry_benchmarks: None,
        cost_of_capital: d("0.10"),
    }
}

fn multi_period_input(periods: Vec<WcPeriod>) -> WorkingCapitalInput {
    WorkingCapitalInput {
        company_name: "TrendCo".to_string(),
        periods,
        industry_benchmarks: None,
        cost_of_capital: d("0.08"),
    }
}

fn fp(name: &str, rev: &str, cogs: &str, opex: &str, capex: &str, dep: &str) -> ForecastPeriod {
    ForecastPeriod {
        period_name: name.to_string(),
        revenue: d(rev),
        cogs: d(cogs),
        operating_expenses: d(opex),
        capex: d(capex),
        depreciation: d(dep),
    }
}

fn sample_forecast_input() -> RollingForecastInput {
    RollingForecastInput {
        company_name: "ForecastCo".to_string(),
        historical_periods: vec![
            fp("Y1", "1000000", "600000", "200000", "50000", "30000"),
            fp("Y2", "1100000", "660000", "220000", "55000", "33000"),
            fp("Y3", "1200000", "720000", "240000", "60000", "36000"),
            fp("Y4", "1300000", "780000", "260000", "65000", "39000"),
        ],
        forecast_periods: 3,
        revenue_growth_rate: d("0.10"),
        drivers: ForecastDrivers {
            cogs_pct_revenue: None,
            opex_pct_revenue: None,
            capex_pct_revenue: None,
            depreciation_pct_ppe: None,
            tax_rate: d("0.25"),
        },
    }
}

#[test]
fn test_dso_calculation() {
    let result = analyze_working_capital(&sample_wc_input()).unwrap();
    let m = &result.result.period_metrics[0];
    let expected_dso = n("150000") / (n("1000000") / n("365"));
    assert_eq!(v(m.dso), expected_dso, "DSO mismatch");
}

#[test]
fn test_dio_calculation() {
    let result = analyze_working_capital(&sample_wc_input()).unwrap();
    let m = &result.result.period_metrics[0];
    let expected_dio = n("100000") / (n("600000") / n("365"));
    assert_eq!(v(m.dio), expected_dio, "DIO mismatch");
}

#[test]
fn test_dpo_calculation() {
    let result = analyze_working_capital(&sample_wc_input()).unwrap();
    let m = &result.result.period_metrics[0];
    let expected_dpo = n("80000") / (n("600000") / n("365"));
    assert_eq!(v(m.dpo), expected_dpo, "DPO mismatch");
}

#[test]
fn test_ccc_equals_dso_plus_dio_minus_dpo() {
    let result = analyze_working_capital(&sample_wc_input()).unwrap();
    let m = &result.result.period_metrics[0];
    let expected_ccc = v(m.dso) + v(m.dio) - v(m.dpo);
    assert_eq!(v(m.ccc), expected_ccc, "CCC should equal DSO + DIO - DPO");
}

#[test]
fn test_nwc_calculation() {
    let result = analyze_working_capital(&sample_wc_input()).unwrap();
    let m = &result.result.period_metrics[0];
    assert_eq!(v(m.net_working_capital), n("190000"), "NWC = current assets - current liabilities");
}

#[test]
fn test_current_ratio_and_quick_ratio() {
    let result = analyze_working_capital(&sample_wc_input()).unwrap();
    let m = &result.result.period_metrics[0];
    assert_eq!(v(m.current_ratio), n("300000") / n("110000"), "Current ratio mismatch");
    assert_eq!(v(m.quick_ratio), n("200000") / n("110000"), "Quick ratio mismatch");
}

#[test]
fn test_multi_period_trend_improving_dso() {
    let mut p1 = sample_period("Q1");
    let mut p2 = sample_period("Q2");
    p1.accounts_receivable = d("150000");
    p2.accounts_receivable = d("100000");
    let result = analyze_working_capital(&multi_period_input(vec![p1, p2])).unwrap();
    assert_eq!(result.result.trend_analysis.dso_trend, "Improving");
    assert!(v(result.result.trend_analysis.dso_change) < Decimal::ZERO);
}

#[test]
fn test_multi_period_trend_deteriorating_ccc() {
    let p1 = sample_period("Q1");
    let mut p2 = sample_period("Q2");
    p2.accounts_receivable = d("250000");
    p2.inventory = d("200000");
    let result = analyze_working_capital(&multi_period_input(vec![p1, p2])).unwrap();
    assert_eq!(result.result.trend_analysis.ccc_trend, "Deteriorating");
}

#[test]
fn test_optimization_cash_freed_from_dso_reduction() {
    let result = analyze_working_capital(&sample_wc_input()).unwrap();
    let opt = &result.result.optimization;
    let expected = n("1000000") / n("365") * n("5");
    assert_eq!(v(opt.cash_freed_if_dso_reduced_5d), expected);
}

#[test]
fn test_annual_financing_savings() {
    let result = analyze_working_capital(&sample_wc_input()).unwrap();
    let opt = &result.result.optimization;
    let expected = v(opt.total_optimization_opportunity) * n("0.10");
    assert_eq!(v(opt.annual_financing_savings), expected);
}

#[test]
fn test_benchmark_better_than_peers() {
    let mut input = sample_wc_input();
    input.industry_benchmarks = Some(IndustryBenchmarks {
        dso_median: d("70"),
        dio_median: d("80"),
        dpo_median: d("40"),
        ccc_median: d("90"),
    });
    let result = analyze_working_capital(&input).unwrap();
    let bench = result.result.benchmark_comparison.as_ref().unwrap();
    assert_eq!(bench.overall_position, "Better than peers");
}

#[test]
fn test_benchmark_worse_than_peers() {
    let mut input = sample_wc_input();
    input.industry_benchmarks = Some(IndustryBenchmarks {
        dso_median: d("30"),
        dio_median: d("30"),
        dpo_median: d("70"),
        ccc_median: d("20"),
    });
    let result = analyze_working_capital(&input).unwrap();
    let bench = result.result.benchmark_comparison.as_ref().unwrap();
    assert_eq!(bench.overall_position, "Worse than peers");
}

#[test]
fn test_recommendations_generated() {
    let mut input = sample_wc_input();
    input.periods[0].accounts_receivable = d("200000");
    input.periods[0].inventory = d("200000");
    input.periods[0].accounts_payable = d("40000");
    let result = analyze_working_capital(&input).unwrap();
    let recs = &result.result.optimization.recommendations;
    assert!(recs.len() >= 3, "Got: {:?}", recs);
}

#[test]
fn test_forecast_revenue_growth_applied() {
    let result = build_rolling_forecast(&sample_forecast_input()).unwrap();
    let forecast = &result.result.forecast;
    assert_eq!(forecast.len(), 3, "Should have 3 forecast periods");
    let expected_rev1 = n("1300000") * n("1.10");
    assert_eq!(v(forecast[0].revenue), expected_rev1, "Revenue growth mismatch");
    let expected_rev2 = expected_rev1 * n("1.10");
    assert_eq!(v(forecast[1].revenue), expected_rev2, "Compounding revenue growth mismatch");
}

#[test]
fn test_forecast_cogs_from_historical_average() {
    let result = build_rolling_forecast(&sample_forecast_input()).unwrap();
    assert_eq!(v(result.result.driver_assumptions.cogs_pct), n("0.6"));
    assert!(result.result.driver_assumptions.source.contains("Historical average"));
    let rev1 = v(result.result.forecast[0].revenue);
    let cogs1 = v(result.result.forecast[0].cogs);
    assert_eq!(cogs1, rev1 * n("0.6"), "COGS should be 60% of revenue");
}

#[test]
fn test_forecast_user_driver_override() {
    let mut input = sample_forecast_input();
    input.drivers.cogs_pct_revenue = Some(d("0.55"));
    input.drivers.opex_pct_revenue = Some(d("0.15"));
    input.drivers.capex_pct_revenue = Some(d("0.04"));
    let result = build_rolling_forecast(&input).unwrap();
    assert_eq!(v(result.result.driver_assumptions.cogs_pct), n("0.55"));
    assert_eq!(v(result.result.driver_assumptions.opex_pct), n("0.15"));
    assert_eq!(result.result.driver_assumptions.source, "User override");
    let rev1 = v(result.result.forecast[0].revenue);
    let cogs1 = v(result.result.forecast[0].cogs);
    assert_eq!(cogs1, rev1 * n("0.55"));
}

#[test]
fn test_fcf_calculation_in_forecast() {
    let result = build_rolling_forecast(&sample_forecast_input()).unwrap();
    for row in &result.result.forecast {
        let expected_fcf = v(row.net_income) + v(row.depreciation) - v(row.capex);
        assert_eq!(v(row.free_cash_flow), expected_fcf, "period '{}'", row.period_name);
    }
}

#[test]
fn test_cumulative_fcf_over_forecast() {
    let result = build_rolling_forecast(&sample_forecast_input()).unwrap();
    let manual_sum: Decimal = result.result.forecast.iter().map(|r| v(r.free_cash_flow)).sum();
    assert_eq!(v(result.result.summary.cumulative_fcf), manual_sum);
}

#[test]
fn test_ebitda_margin_consistency() {
    let result = build_rolling_forecast(&sample_forecast_input()).unwrap();
    for row in &result.result.forecast {
        if !row.revenue.is_zero() {
            let expected_margin = v(row.ebitda) / v(row.revenue);
            assert_eq!(v(row.ebitda_margin), expected_margin, "period '{}'", row.period_name);
        }
    }
}

#[test]
fn test_edge_zero_cogs_dio_dpo() {
    let mut input = sample_wc_input();
    input.periods[0].cogs = Dec::zero();
    let result = analyze_working_capital(&input).unwrap();
    let m = &result.result.period_metrics[0];
    assert_eq!(v(m.dio), Decimal::ZERO);
    assert_eq!(v(m.dpo), Decimal::ZERO);
    assert_eq!(result.warnings.len(), 2);
}

#[test]
fn test_edge_single_period_no_trend() {
    let result = analyze_working_capital(&sample_wc_input()).unwrap();
    let trend = &result.result.trend_analysis;
    assert_eq!(trend.dso_trend, "Stable");
    assert_eq!(trend.dio_trend, "Stable");
    assert_eq!(trend.dpo_trend, "Stable");
    assert_eq!(trend.ccc_trend, "Stable");
    assert_eq!(v(trend.dso_change), Decimal::ZERO);
    assert_eq!(v(trend.ccc_change), Decimal::ZERO);
}

#[test]
fn test_nwc_as_pct_revenue() {
    let result = analyze_working_capital(&sample_wc_input()).unwrap();
    let m = &result.result.period_metrics[0];
    assert_eq!(v(m.nwc_as_pct_revenue), n("190000") / n("1000000"));
}

#[test]
fn test_historical_rows_marked_not_forecast() {
    let result = build_rolling_forecast(&sample_forecast_input()).unwrap();
    for row in &result.result.historical {
        assert!(!row.is_forecast);
    }
    for row in &result.result.forecast {
        assert!(row.is_forecast);
    }
}

#[test]
fn test_terminal_revenue() {
    let result = build_rolling_forecast(&sample_forecast_input()).unwrap();
    let terminal = v(result.result.summary.terminal_revenue);
    let last_forecast_rev = v(result.result.forecast.last().unwrap().revenue);
    assert_eq!(terminal, last_forecast_rev);
}

#[test]
fn test_methodology_string_wc() {
    let result = analyze_working_capital(&sample_wc_input()).unwrap();
    assert_eq!(result.methodology, "Working Capital Analysis (DSO/DIO/DPO/CCC)");
}

#[test]
fn test_methodology_string_forecast() {
    let result = build_rolling_forecast(&sample_forecast_input()).unwrap();
    assert_eq!(result.methodology, "Rolling Financial Forecast");
}

#[test]
fn wc_rejects_empty_and_negative_inputs() {
    let mut input = sample_wc_input();
    input.periods.clear();
    assert!(analyze_working_capital(&input).is_err());
    let mut input = sample_wc_input();
    input.cost_of_capital = d("-0.01");
    assert!(analyze_working_capital(&input).is_err());
    let mut input = sample_wc_input();
    input.periods[0].days_in_period = 0;
    match analyze_working_capital(&input) {
        Err(corp_finance_core::error::FinError::InvalidInput { field, reason }) => {
            assert_eq!(field, "days_in_period");
            assert_eq!(reason, "Days in period must be positive in period 'FY2023'.");
        }
        _ => panic!("expected invalid input"),
    }
}

#[test]
fn forecast_labels_and_exact_first_row() {
    let result = build_rolling_forecast(&sample_forecast_input()).unwrap();
    let f = &result.result.forecast;
    assert_eq!(f[0].period_name, "Forecast 1");
    assert_eq!(f[2].period_name, "Forecast 3");
    // revenue 1,430,000; COGS 60%; opex 20%; depreciation 3% of revenue; tax 25%
    assert_eq!(v(f[0].revenue), n("1430000"));
    assert_eq!(v(f[0].gross_profit), n("572000"));
    assert_eq!(v(f[0].ebitda), n("286000"));
    assert_eq!(v(f[0].depreciation), n("42900"));
    assert_eq!(v(f[0].ebit), n("243100"));
    assert_eq!(v(f[0].tax), n("60775"));
    assert!(result.warnings.is_empty());
    let mut input = sample_forecast_input();
    input.forecast_periods = 0;
    assert!(build_rolling_forecast(&input).is_err());
    let mut input = sample_forecast_input();
    input.drivers.tax_rate = d("1.5");
    assert!(build_rolling_forecast(&input).is_err());
}

#[test]
fn forecast_needs_four_historical_periods() {
    let mut input = sample_forecast_input();
    input.historical_periods.truncate(3);
    match build_rolling_forecast(&input) {
        Err(FinError::InsufficientData(m)) => {
            assert_eq!(m, "At least 4 historical periods are required for a rolling forecast.")
        }
        _ => panic!("expected too few historical periods"),
    }
}
