use corp_finance_core::dec::Dec;
use corp_finance_core::financial_forensics::red_flag_scoring::{
    calculate_red_flag_scoring, RedFlagScoringInput,
};
use rust_decimal::Decimal;

fn d(s: &str) -> Dec {
    let x = Decimal::from_str_exact(s).unwrap();
    Dec::new(x.mantissa(), x.scale())
}

fn v(x: Dec) -> Decimal {
    Decimal::from_i128_with_scale(x.mantissa(), x.scale())
}

fn n(s: &str) -> Decimal {
    Decimal::from_str_exact(s).unwrap()
}

fn clean_input() -> RedFlagScoringInput {
    RedFlagScoringInput {
        beneish_m_score: Some(d("-2.5")),
        altman_z_score: Some(d("3.5")),
        piotroski_f_score: Some(7),
        cfo_to_net_income: d("1.2"),
        revenue_growth: d("0.10"),
        receivables_growth: d("0.08"),
        inventory_growth: d("0.05"),
        sga_to_revenue_change: d("-0.01"),
        debt_to_equity: d("1.5"),
        interest_coverage: d("5.0"),
        audit_opinion: "clean".into(),
        auditor_change: false,
        related_party_transactions: false,
        restatement_history: false,
    }
}

fn distressed_input() -> RedFlagScoringInput {
    RedFlagScoringInput {
        beneish_m_score: Some(d("-1.0")),
        altman_z_score: Some(d("1.2")),
        piotroski_f_score: Some(2),
        cfo_to_net_income: d("-0.5"),
        revenue_growth: d("0.60"),
        receivables_growth: d("0.80"),
        inventory_growth: d("0.70"),
        sga_to_revenue_change: d("0.05"),
        debt_to_equity: d("6.0"),
        interest_coverage: d("0.8"),
        audit_opinion: "adverse".into(),
        auditor_change: true,
        related_party_transactions: true,
        restatement_history: true,
    }
}

#[test]
fn test_clean_company_score() {
    let out = calculate_red_flag_scoring(&clean_input()).unwrap();
    assert_eq!(v(out.composite_score), Decimal::ZERO);
    assert_eq!(out.risk_level, "Clean");
}

#[test]
fn test_clean_company_no_flags() {
    let out = calculate_red_flag_scoring(&clean_input()).unwrap();
    assert_eq!(out.total_flags, 0);
    assert_eq!(out.critical_flags, 0);
}

#[test]
fn test_distressed_high_score() {
    let out = calculate_red_flag_scoring(&distressed_input()).unwrap();
    assert!(v(out.composite_score) > n("50"), "score={}", v(out.composite_score));
}

#[test]
fn test_distressed_critical_or_high() {
    let out = calculate_red_flag_scoring(&distressed_input()).unwrap();
    assert!(out.risk_level == "Critical" || out.risk_level == "High Risk");
}

#[test]
fn test_distressed_many_flags() {
    let out = calculate_red_flag_scoring(&distressed_input()).unwrap();
    assert!(out.total_flags >= 8);
}

#[test]
fn test_distressed_critical_flags() {
    assert!(calculate_red_flag_scoring(&distressed_input()).unwrap().critical_flags >= 3);
}

#[test]
fn test_beneish_flag() {
    let mut i = clean_input();
    i.beneish_m_score = Some(d("-1.5"));
    let out = calculate_red_flag_scoring(&i).unwrap();
    assert!(v(out.category_scores.earnings_quality) >= n("15"));
    assert!(out.flags.iter().any(|f| f.flag.contains("Beneish")));
}

#[test]
fn test_no_beneish_when_none() {
    let mut i = clean_input();
    i.beneish_m_score = None;
    assert!(!calculate_red_flag_scoring(&i).unwrap().flags.iter().any(|f| f.flag.contains("Beneish")));
}

#[test]
fn test_low_cfo() {
    let mut i = clean_input();
    i.cfo_to_net_income = d("0.3");
    assert!(v(calculate_red_flag_scoring(&i).unwrap().category_scores.earnings_quality) >= n("5"));
}

#[test]
fn test_negative_cfo() {
    let mut i = clean_input();
    i.cfo_to_net_income = d("-0.5");
    assert!(v(calculate_red_flag_scoring(&i).unwrap().category_scores.earnings_quality) >= n("10"));
}

#[test]
fn test_piotroski() {
    let mut i = clean_input();
    i.piotroski_f_score = Some(1);
    assert!(v(calculate_red_flag_scoring(&i).unwrap().category_scores.earnings_quality) >= n("5"));
}

#[test]
fn test_receivables_growth() {
    let mut i = clean_input();
    i.receivables_growth = d("0.20");
    i.revenue_growth = d("0.05");
    assert!(v(calculate_red_flag_scoring(&i).unwrap().category_scores.growth_quality) >= n("8"));
}

#[test]
fn test_inventory_growth() {
    let mut i = clean_input();
    i.inventory_growth = d("0.20");
    i.revenue_growth = d("0.05");
    assert!(v(calculate_red_flag_scoring(&i).unwrap().category_scores.growth_quality) >= n("7"));
}

#[test]
fn test_aggressive_revenue() {
    let mut i = clean_input();
    i.revenue_growth = d("0.55");
    assert!(calculate_red_flag_scoring(&i).unwrap().flags.iter().any(|f| f.flag.contains("50%")));
}

#[test]
fn test_altman_distress() {
    let mut i = clean_input();
    i.altman_z_score = Some(d("1.5"));
    assert!(v(calculate_red_flag_scoring(&i).unwrap().category_scores.financial_health) >= n("15"));
}

#[test]
fn test_no_altman_when_none() {
    let mut i = clean_input();
    i.altman_z_score = None;
    assert!(!calculate_red_flag_scoring(&i).unwrap().flags.iter().any(|f| f.flag.contains("Altman")));
}

#[test]
fn red_flag_scoring_test_high_leverage() {
    let mut i = clean_input();
    i.debt_to_equity = d("6.0");
    assert!(v(calculate_red_flag_scoring(&i).unwrap().category_scores.financial_health) >= n("10"));
}

#[test]
fn test_moderate_leverage() {
    let mut i = clean_input();
    i.debt_to_equity = d("4.0");
    assert!(v(calculate_red_flag_scoring(&i).unwrap().category_scores.financial_health) >= n("5"));
}

#[test]
fn test_qualified_audit() {
    let mut i = clean_input();
    i.audit_opinion = "qualified".into();
    assert!(v(calculate_red_flag_scoring(&i).unwrap().category_scores.governance) >= n("10"));
}

#[test]
fn test_adverse_audit() {
    let mut i = clean_input();
    i.audit_opinion = "adverse".into();
    assert!(v(calculate_red_flag_scoring(&i).unwrap().category_scores.governance) >= n("15"));
}

#[test]
fn test_governance_only() {
    let mut i = clean_input();
    i.auditor_change = true;
    i.related_party_transactions = true;
    i.restatement_history = true;
    let out = calculate_red_flag_scoring(&i).unwrap();
    assert!(v(out.category_scores.governance) >= n("20"));
    assert_eq!(v(out.category_scores.earnings_quality), Decimal::ZERO);
}

#[test]
fn test_score_capped_100() {
    assert!(v(calculate_red_flag_scoring(&distressed_input()).unwrap().composite_score) <= n("100"));
}

#[test]
fn test_categories_capped_25() {
    let out = calculate_red_flag_scoring(&distressed_input()).unwrap();
    assert!(v(out.category_scores.earnings_quality) <= n("25"));
    assert!(v(out.category_scores.growth_quality) <= n("25"));
    assert!(v(out.category_scores.financial_health) <= n("25"));
    assert!(v(out.category_scores.governance) <= n("25"));
}

#[test]
fn test_invalid_audit() {
    let mut i = clean_input();
    i.audit_opinion = "unknown".into();
    assert!(calculate_red_flag_scoring(&i).is_err());
}

#[test]
fn test_risk_clean() {
    assert_eq!(calculate_red_flag_scoring(&clean_input()).unwrap().risk_level, "Clean");
}

#[test]
fn test_risk_low() {
    let mut i = clean_input();
    i.sga_to_revenue_change = d("0.02");
    i.revenue_growth = d("0.55");
    i.receivables_growth = d("0.60");
    assert_eq!(calculate_red_flag_scoring(&i).unwrap().risk_level, "Low Risk");
}

#[test]
fn test_all_optional_none() {
    let mut i = clean_input();
    i.beneish_m_score = None;
    i.altman_z_score = None;
    i.piotroski_f_score = None;
    assert_eq!(v(calculate_red_flag_scoring(&i).unwrap().composite_score), Decimal::ZERO);
}

#[test]
fn red_flag_messages_carry_scores() {
    let out = calculate_red_flag_scoring(&distressed_input()).unwrap();
    let msgs: Vec<&str> = out.flags.iter().map(|f| f.flag.as_str()).collect();
    assert_eq!(msgs[0], "Beneish M-Score -1.0 exceeds -1.78 threshold (manipulation likely)");
    assert!(msgs.contains(&"Piotroski F-Score 2 indicates weak financial position"));
    assert!(msgs.contains(&"Altman Z-Score 1.2 in distress zone (below 1.81)"));
    assert_eq!(v(out.composite_score), n("100"));
    assert_eq!(out.risk_level, "Critical");
    assert_eq!(out.total_flags as usize, out.flags.len());
}

#[test]
fn red_flag_exact_category_points() {
    // 8 (receivables) + 5 (growth > 50%) + 5 (SG&A up) = 18 growth points
    let mut i = clean_input();
    i.sga_to_revenue_change = d("0.02");
    i.revenue_growth = d("0.55");
    i.receivables_growth = d("0.60");
    let out = calculate_red_flag_scoring(&i).unwrap();
    assert_eq!(v(out.category_scores.growth_quality), n("18"));
    assert_eq!(v(out.composite_score), n("18"));
}
