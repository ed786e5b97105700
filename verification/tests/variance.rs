use corp_finance_core::dec::Dec;
use corp_finance_core::error::FinError;
use corp_finance_core::fpa::variance::{
    analyze_breakeven, analyze_variance, BreakevenInput, CostLine, CostType, PriorPeriod,
    RevenueLine, ScenarioOverride, VarianceInput,
};
use rust_decimal::Decimal;

fn d(s: &str) -> Dec {
    let x = Decimal::from_str_exact(s).unwrap();
    Dec::new(x.mantissa(), x.scale())
}

fn v(x: Dec) -> Decimal {
    Decimal::from_i128_with_scale(x.mantissa(), x.scale())
}

fn n(s: &str) -> Decimal {
    Decimal::from_str_exact(s).unwrap()
}

fn rl(name: &str, bu: &str, bp: &str, au: &str, ap: &str) -> RevenueLine {
    RevenueLine {
        name: name.to_string(),
        budget_units: d(bu),
        budget_price: d(bp),
        actual_units: d(au),
        actual_price: d(ap),
    }
}

fn cl(name: &str, b: &str, a: &str, t: CostType, vc: Option<&str>) -> CostLine {
    CostLine {
        name: name.to_string(),
        budget_amount: d(b),
        actual_amount: d(a),
        cost_type: t,
        variable_cost_per_unit: vc.map(d),
    }
}

fn basic_variance_input() -> VarianceInput {
    VarianceInput {
        period_name: "Q1 2024".to_string(),
        revenue_lines: vec![
            rl("Product A", "100", "10", "110", "11"),
            rl("Product B", "200", "5", "190", "5"),
        ],
        cost_lines: vec![
            cl("COGS", "800", "750", CostType::Variable, Some("3")),
            cl("SGA", "300", "320", CostType::Fixed, None),
        ],
        budget_total_revenue: d("2000"),
        budget_total_costs: d("1100"),
        prior_period: None,
    }
}

fn basic_breakeven_input() -> BreakevenInput {
    BreakevenInput {
        product_name: "Widget".to_string(),
        selling_price: d("50"),
        variable_cost_per_unit: d("30"),
        fixed_costs: d("10000"),
        current_volume: d("1000"),
        target_profit: None,
        scenarios: None,
    }
}

#[test]
fn test_revenue_variance_favorable() {
    let input = basic_variance_input();
    let result = analyze_variance(&input).unwrap();
    assert_eq!(v(result.result.revenue_variance.actual_revenue), n("2160"));
    assert_eq!(v(result.result.revenue_variance.total_variance), n("160"));
    assert!(result.result.revenue_variance.favorable);
}

#[test]
fn test_revenue_variance_unfavorable() {
    let mut input = basic_variance_input();
    input.revenue_lines[0].actual_units = d("80");
    input.revenue_lines[0].actual_price = d("9");
    input.revenue_lines[1].actual_units = d("180");
    input.revenue_lines[1].actual_price = d("4");
    let result = analyze_variance(&input).unwrap();
    assert_eq!(v(result.result.revenue_variance.actual_revenue), n("1440"));
    assert!(v(result.result.revenue_variance.total_variance) < n("0"));
    assert!(!result.result.revenue_variance.favorable);
}

#[test]
fn test_price_volume_mix_decomposition_sums_to_total() {
    let input = basic_variance_input();
    let result = analyze_variance(&input).unwrap();
    let rv = &result.result.revenue_variance;
    let reconstructed = v(rv.price_variance) + v(rv.volume_variance) + v(rv.mix_variance);
    assert_eq!(reconstructed, v(rv.total_variance));
}

#[test]
fn test_price_variance_calculation() {
    let input = basic_variance_input();
    let result = analyze_variance(&input).unwrap();
    assert_eq!(v(result.result.revenue_variance.price_variance), n("110"));
}

#[test]
fn test_volume_variance_calculation() {
    let input = basic_variance_input();
    let result = analyze_variance(&input).unwrap();
    assert_eq!(v(result.result.revenue_variance.volume_variance), n("50"));
}

#[test]
fn test_cost_variance_favorable() {
    let input = basic_variance_input();
    let result = analyze_variance(&input).unwrap();
    assert_eq!(v(result.result.cost_variance.actual_costs), n("1070"));
    assert_eq!(v(result.result.cost_variance.total_variance), n("-30"));
    assert!(result.result.cost_variance.favorable);
}

#[test]
fn test_cost_variance_unfavorable() {
    let mut input = basic_variance_input();
    input.cost_lines[0].actual_amount = d("900");
    input.cost_lines[1].actual_amount = d("350");
    let result = analyze_variance(&input).unwrap();
    assert_eq!(v(result.result.cost_variance.actual_costs), n("1250"));
    assert!(v(result.result.cost_variance.total_variance) > n("0"));
    assert!(!result.result.cost_variance.favorable);
}

#[test]
fn test_profit_variance_with_margins() {
    let input = basic_variance_input();
    let result = analyze_variance(&input).unwrap();
    let pv = &result.result.profit_variance;
    assert_eq!(v(pv.budget_profit), n("900"));
    assert_eq!(v(pv.actual_profit), n("1090"));
    assert_eq!(v(pv.total_variance), n("190"));
    assert_eq!(v(pv.margin_budget), n("0.45"));
    assert!(v(pv.margin_actual) > n("0.50"));
}

#[test]
fn test_yoy_comparison_growth_rates() {
    let mut input = basic_variance_input();
    input.prior_period = Some(PriorPeriod { revenue: d("1800"), costs: d("1000"), profit: d("800") });
    let result = analyze_variance(&input).unwrap();
    let yoy = result.result.yoy_comparison.as_ref().unwrap();
    assert_eq!(v(yoy.prior_revenue), n("1800"));
    assert_eq!(v(yoy.current_revenue), n("2160"));
    assert_eq!(v(yoy.revenue_growth_pct), n("0.2"));
}

#[test]
fn test_margin_expansion_calculation() {
    let mut input = basic_variance_input();
    input.prior_period = Some(PriorPeriod { revenue: d("1800"), costs: d("1000"), profit: d("800") });
    let result = analyze_variance(&input).unwrap();
    let yoy = result.result.yoy_comparison.as_ref().unwrap();
    assert!(v(yoy.margin_expansion_bps) > n("500"));
    assert!(v(yoy.margin_expansion_bps) < n("700"));
}

#[test]
fn test_line_by_line_detail() {
    let input = basic_variance_input();
    let result = analyze_variance(&input).unwrap();
    assert_eq!(result.result.line_detail.len(), 4);
    assert_eq!(result.result.line_detail[0].line_type, "Revenue");
    assert_eq!(result.result.line_detail[0].name, "Product A");
    assert_eq!(result.result.line_detail[2].line_type, "Cost");
    assert_eq!(result.result.line_detail[2].name, "COGS");
}

#[test]
fn test_breakeven_basic_calculation() {
    let input = basic_breakeven_input();
    let result = analyze_breakeven(&input).unwrap();
    assert_eq!(v(result.result.breakeven_units), n("500"));
    assert_eq!(v(result.result.breakeven_revenue), n("25000"));
}

#[test]
fn test_breakeven_high_fixed_costs() {
    let mut input = basic_breakeven_input();
    input.fixed_costs = d("30000");
    let result = analyze_breakeven(&input).unwrap();
    assert_eq!(v(result.result.breakeven_units), n("1500"));
}

#[test]
fn test_contribution_margin_calculation() {
    let input = basic_breakeven_input();
    let result = analyze_breakeven(&input).unwrap();
    assert_eq!(v(result.result.contribution_margin), n("20"));
    assert_eq!(v(result.result.contribution_margin_pct), n("0.4"));
}

#[test]
fn test_margin_of_safety_positive() {
    let input = basic_breakeven_input();
    let result = analyze_breakeven(&input).unwrap();
    assert_eq!(v(result.result.margin_of_safety_units), n("500"));
    assert_eq!(v(result.result.margin_of_safety_pct), n("0.5"));
}

#[test]
fn test_margin_of_safety_negative() {
    let mut input = basic_breakeven_input();
    input.current_volume = d("300");
    let result = analyze_breakeven(&input).unwrap();
    assert!(v(result.result.margin_of_safety_units) < n("0"));
    assert!(v(result.result.margin_of_safety_pct) < n("0"));
}

#[test]
fn test_operating_leverage_dol() {
    let input = basic_breakeven_input();
    let result = analyze_breakeven(&input).unwrap();
    assert_eq!(v(result.result.operating_leverage), n("2"));
}

#[test]
fn test_target_volume_with_profit_target() {
    let mut input = basic_breakeven_input();
    input.target_profit = Some(d("20000"));
    let result = analyze_breakeven(&input).unwrap();
    assert_eq!(result.result.target_volume.map(v), Some(n("1500")));
}

#[test]
fn test_scenario_price_increase_lowers_breakeven() {
    let mut input = basic_breakeven_input();
    input.scenarios = Some(vec![ScenarioOverride {
        name: "Price +10%".to_string(),
        price_change_pct: Some(d("0.10")),
        variable_cost_change_pct: None,
        fixed_cost_change_pct: None,
    }]);
    let result = analyze_breakeven(&input).unwrap();
    let scenario = &result.result.scenario_results[0];
    assert_eq!(v(scenario.breakeven_units), n("400"));
    assert!(v(scenario.breakeven_units) < v(result.result.breakeven_units));
}

#[test]
fn test_scenario_cost_increase_raises_breakeven() {
    let mut input = basic_breakeven_input();
    input.scenarios = Some(vec![ScenarioOverride {
        name: "VC +25%".to_string(),
        price_change_pct: None,
        variable_cost_change_pct: Some(d("0.25")),
        fixed_cost_change_pct: None,
    }]);
    let result = analyze_breakeven(&input).unwrap();
    let scenario = &result.result.scenario_results[0];
    assert_eq!(v(scenario.breakeven_units), n("800"));
    assert!(v(scenario.breakeven_units) > v(result.result.breakeven_units));
}

#[test]
fn test_edge_zero_volume_breakeven() {
    let mut input = basic_breakeven_input();
    input.current_volume = d("0");
    let result = analyze_breakeven(&input).unwrap();
    assert_eq!(v(result.result.margin_of_safety_pct), n("0"));
    assert_eq!(v(result.result.current_profit), n("-10000"));
    assert_eq!(v(result.result.operating_leverage), n("0"));
}

#[test]
fn test_multiple_revenue_lines_different_variances() {
    let input = VarianceInput {
        period_name: "FY 2024".to_string(),
        revenue_lines: vec![
            rl("Premium", "50", "100", "60", "105"),
            rl("Standard", "200", "20", "180", "18"),
            rl("Economy", "500", "5", "520", "5"),
        ],
        cost_lines: vec![cl("Total COGS", "5000", "4800", CostType::Variable, None)],
        budget_total_revenue: d("11500"),
        budget_total_costs: d("5000"),
        prior_period: None,
    };
    let result = analyze_variance(&input).unwrap();
    assert_eq!(v(result.result.revenue_variance.actual_revenue), n("12140"));
    assert_eq!(v(result.result.revenue_variance.total_variance), n("640"));
    assert!(result.result.revenue_variance.favorable);
    let rv = &result.result.revenue_variance;
    assert_eq!(
        v(rv.price_variance) + v(rv.volume_variance) + v(rv.mix_variance),
        v(rv.total_variance)
    );
    assert_eq!(result.result.line_detail.len(), 4);
    assert!(result.result.line_detail[0].favorable);
    assert!(!result.result.line_detail[1].favorable);
}

#[test]
fn test_zero_contribution_margin_error() {
    let mut input = basic_breakeven_input();
    input.variable_cost_per_unit = d("50");
    let result = analyze_breakeven(&input);
    assert!(result.is_err());
    match result.err().unwrap() {
        FinError::FinancialImpossibility(msg) => {
            assert!(msg.contains("Contribution margin"));
        }
        other => panic!("Expected FinancialImpossibility, got {:?}", other),
    }
}

#[test]
fn test_variance_percentage_calculation() {
    let input = basic_variance_input();
    let result = analyze_variance(&input).unwrap();
    assert_eq!(v(result.result.revenue_variance.total_variance_pct), n("0.08"));
}

#[test]
fn test_breakeven_zero_fixed_costs() {
    let mut input = basic_breakeven_input();
    input.fixed_costs = d("0");
    let result = analyze_breakeven(&input).unwrap();
    assert_eq!(v(result.result.breakeven_units), n("0"));
    assert_eq!(v(result.result.breakeven_revenue), n("0"));
    assert_eq!(v(result.result.current_profit), n("20000"));
}

#[test]
fn test_yoy_no_prior_period() {
    let input = basic_variance_input();
    let result = analyze_variance(&input).unwrap();
    assert!(result.result.yoy_comparison.is_none());
}

#[test]
fn test_breakeven_scenario_fixed_cost_change() {
    let mut input = basic_breakeven_input();
    input.scenarios = Some(vec![ScenarioOverride {
        name: "FC +50%".to_string(),
        price_change_pct: None,
        variable_cost_change_pct: None,
        fixed_cost_change_pct: Some(d("0.50")),
    }]);
    let result = analyze_breakeven(&input).unwrap();
    let scenario = &result.result.scenario_results[0];
    assert_eq!(v(scenario.breakeven_units), n("750"));
}

// --- further cases ---

#[test]
fn variance_budget_mismatch_warns() {
    let mut input = basic_variance_input();
    input.budget_total_revenue = d("2100");
    let result = analyze_variance(&input).unwrap();
    assert_eq!(result.warnings.len(), 1);
    assert_eq!(
        result.warnings[0],
        "Sum of budget revenue lines (2000) differs from stated budget_total_revenue (2100)"
    );
}

#[test]
fn breakeven_rejects_non_positive_price() {
    let mut input = basic_breakeven_input();
    input.selling_price = d("0");
    match analyze_breakeven(&input) {
        Err(FinError::InvalidInput { field, reason }) => {
            assert_eq!(field, "selling_price");
            assert_eq!(reason, "Selling price must be positive");
        }
        _ => panic!("expected InvalidInput"),
    }
}

#[test]
fn breakeven_rejects_negative_variable_cost() {
    let mut input = basic_breakeven_input();
    input.variable_cost_per_unit = d("-1");
    match analyze_breakeven(&input) {
        Err(FinError::InvalidInput { field, .. }) => assert_eq!(field, "variable_cost_per_unit"),
        _ => panic!("expected InvalidInput"),
    }
}

#[test]
fn breakeven_rejects_negative_fixed_costs() {
    let mut input = basic_breakeven_input();
    input.fixed_costs = d("-1");
    match analyze_breakeven(&input) {
        Err(FinError::InvalidInput { field, .. }) => assert_eq!(field, "fixed_costs"),
        _ => panic!("expected InvalidInput"),
    }
}

#[test]
fn breakeven_scenario_without_margin_names_the_scenario() {
    let mut input = basic_breakeven_input();
    input.scenarios = Some(vec![ScenarioOverride {
        name: "Crash".to_string(),
        price_change_pct: Some(d("-0.5")),
        variable_cost_change_pct: None,
        fixed_cost_change_pct: None,
    }]);
    match analyze_breakeven(&input) {
        Err(FinError::FinancialImpossibility(msg)) => assert_eq!(
            msg,
            "Scenario 'Crash': contribution margin is zero or negative after overrides"
        ),
        _ => panic!("expected FinancialImpossibility"),
    }
}

#[test]
fn breakeven_zero_volume_warns() {
    let mut input = basic_breakeven_input();
    input.current_volume = d("0");
    let result = analyze_breakeven(&input).unwrap();
    assert_eq!(result.warnings[0], "Current volume is zero; margin of safety is undefined");
}

#[test]
fn breakeven_zero_profit_warns() {
    let mut input = basic_breakeven_input();
    input.current_volume = d("500");
    let result = analyze_breakeven(&input).unwrap();
    assert_eq!(v(result.result.operating_leverage), n("0"));
    assert_eq!(
        result.warnings[0],
        "Current profit is zero; operating leverage is undefined (set to 0)"
    );
}
