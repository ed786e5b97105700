use corp_finance_core::dec::Dec;
use corp_finance_core::error::FinError;
use corp_finance_core::financial_forensics::peer_benchmarking::{
    calculate_peer_benchmarking, decimal_sqrt, CompanyMetrics, MetricValue, PeerBenchmarkingInput,
};
use rust_decimal::Decimal;

fn d(s: &str) -> Dec {
    let x = Decimal::from_str_exact(s).unwrap();
    Dec::new(x.mantissa(), x.scale())
}

fn v(x: Dec) -> Decimal {
    Decimal::from_i128_with_scale(x.mantissa(), x.scale())
}

fn n(s: &str) -> Decimal {
    Decimal::from_str_exact(s).unwrap()
}

fn approx_eq(a: Decimal, b: Decimal, eps: Decimal) -> bool {
    (a - b).abs() < eps
}

fn make_company(name: &str, metrics: Vec<(&str, &str)>) -> CompanyMetrics {
    CompanyMetrics {
        name: name.to_string(),
        metrics: metrics
            .into_iter()
            .map(|(m, x)| MetricValue { metric_name: m.to_string(), value: d(x) })
            .collect(),
    }
}

fn leader_input() -> PeerBenchmarkingInput {
    PeerBenchmarkingInput {
        company: make_company("Target", vec![("roe", "0.25"), ("pe_ratio", "10")]),
        peers: vec![
            make_company("Peer1", vec![("roe", "0.10"), ("pe_ratio", "20")]),
            make_company("Peer2", vec![("roe", "0.12"), ("pe_ratio", "25")]),
            make_company("Peer3", vec![("roe", "0.08"), ("pe_ratio", "30")]),
            make_company("Peer4", vec![("roe", "0.15"), ("pe_ratio", "22")]),
        ],
        higher_is_better: vec!["roe".to_string()],
        lower_is_better: vec!["pe_ratio".to_string()],
    }
}

fn laggard_input() -> PeerBenchmarkingInput {
    PeerBenchmarkingInput {
        company: make_company("Target", vec![("roe", "0.02"), ("pe_ratio", "50")]),
        peers: vec![
            make_company("Peer1", vec![("roe", "0.10"), ("pe_ratio", "15")]),
            make_company("Peer2", vec![("roe", "0.15"), ("pe_ratio", "12")]),
            make_company("Peer3", vec![("roe", "0.20"), ("pe_ratio", "18")]),
            make_company("Peer4", vec![("roe", "0.12"), ("pe_ratio", "14")]),
        ],
        higher_is_better: vec!["roe".to_string()],
        lower_is_better: vec!["pe_ratio".to_string()],
    }
}

#[test]
fn test_leader_high_composite() {
    let out = calculate_peer_benchmarking(&leader_input()).unwrap();
    assert!(v(out.composite_percentile) >= n("75"), "got {}", v(out.composite_percentile));
}

#[test]
fn test_leader_rating() {
    let out = calculate_peer_benchmarking(&leader_input()).unwrap();
    assert!(
        out.composite_rating == "Leader" || out.composite_rating == "Above Average",
        "got {}",
        out.composite_rating
    );
}

#[test]
fn test_laggard_low_composite() {
    let out = calculate_peer_benchmarking(&laggard_input()).unwrap();
    assert!(v(out.composite_percentile) < n("30"), "got {}", v(out.composite_percentile));
}

#[test]
fn test_laggard_has_weaknesses() {
    let out = calculate_peer_benchmarking(&laggard_input()).unwrap();
    assert!(!out.weaknesses.is_empty());
}

#[test]
fn test_leader_has_strengths() {
    let out = calculate_peer_benchmarking(&leader_input()).unwrap();
    assert!(!out.strengths.is_empty());
}

#[test]
fn test_metric_ranking_count() {
    let out = calculate_peer_benchmarking(&leader_input()).unwrap();
    assert_eq!(out.metric_rankings.len(), 2);
}

#[test]
fn test_peer_median_calculation() {
    let out = calculate_peer_benchmarking(&leader_input()).unwrap();
    let roe_rank = out.metric_rankings.iter().find(|r| r.metric_name == "roe").unwrap();
    assert!(approx_eq(v(roe_rank.peer_median), n("0.11"), n("0.001")));
}

#[test]
fn test_peer_mean_calculation() {
    let out = calculate_peer_benchmarking(&leader_input()).unwrap();
    let roe_rank = out.metric_rankings.iter().find(|r| r.metric_name == "roe").unwrap();
    assert!(approx_eq(v(roe_rank.peer_mean), n("0.1125"), n("0.001")));
}

#[test]
fn test_peer_min_max() {
    let out = calculate_peer_benchmarking(&leader_input()).unwrap();
    let roe_rank = out.metric_rankings.iter().find(|r| r.metric_name == "roe").unwrap();
    assert_eq!(v(roe_rank.peer_min), n("0.08"));
    assert_eq!(v(roe_rank.peer_max), n("0.15"));
}

#[test]
fn test_z_score_positive_for_above_mean() {
    let out = calculate_peer_benchmarking(&leader_input()).unwrap();
    let roe_rank = out.metric_rankings.iter().find(|r| r.metric_name == "roe").unwrap();
    assert!(v(roe_rank.z_score) > Decimal::ZERO);
}

#[test]
fn test_z_score_negative_for_below_mean() {
    let out = calculate_peer_benchmarking(&laggard_input()).unwrap();
    let roe_rank = out.metric_rankings.iter().find(|r| r.metric_name == "roe").unwrap();
    assert!(v(roe_rank.z_score) < Decimal::ZERO);
}

#[test]
fn test_lower_is_better_inverts_percentile() {
    let out = calculate_peer_benchmarking(&leader_input()).unwrap();
    let pe_rank = out.metric_rankings.iter().find(|r| r.metric_name == "pe_ratio").unwrap();
    assert!(v(pe_rank.percentile) > n("50"));
}

#[test]
fn test_relative_position_top_quartile() {
    let out = calculate_peer_benchmarking(&leader_input()).unwrap();
    let roe_rank = out.metric_rankings.iter().find(|r| r.metric_name == "roe").unwrap();
    assert_eq!(roe_rank.relative_position, "Top Quartile");
}

#[test]
fn test_relative_position_bottom_quartile() {
    let out = calculate_peer_benchmarking(&laggard_input()).unwrap();
    let roe_rank = out.metric_rankings.iter().find(|r| r.metric_name == "roe").unwrap();
    assert_eq!(roe_rank.relative_position, "Bottom Quartile");
}

#[test]
fn test_single_peer() {
    let input = PeerBenchmarkingInput {
        company: make_company("Target", vec![("roe", "0.15")]),
        peers: vec![make_company("Peer1", vec![("roe", "0.10")])],
        higher_is_better: vec!["roe".to_string()],
        lower_is_better: vec![],
    };
    let out = calculate_peer_benchmarking(&input).unwrap();
    assert_eq!(out.metric_rankings.len(), 1);
}

#[test]
fn test_single_metric() {
    let input = PeerBenchmarkingInput {
        company: make_company("Target", vec![("margin", "0.20")]),
        peers: vec![make_company("P1", vec![("margin", "0.10")]), make_company("P2", vec![("margin", "0.30")])],
        higher_is_better: vec!["margin".to_string()],
        lower_is_better: vec![],
    };
    let out = calculate_peer_benchmarking(&input).unwrap();
    assert_eq!(out.metric_rankings.len(), 1);
    assert_eq!(v(out.metric_rankings[0].company_value), n("0.20"));
}

#[test]
fn test_empty_peers_error() {
    let input = PeerBenchmarkingInput {
        company: make_company("Target", vec![("roe", "0.15")]),
        peers: vec![],
        higher_is_better: vec![],
        lower_is_better: vec![],
    };
    assert!(calculate_peer_benchmarking(&input).is_err());
}

#[test]
fn test_empty_company_metrics_error() {
    let input = PeerBenchmarkingInput {
        company: CompanyMetrics { name: "Target".to_string(), metrics: vec![] },
        peers: vec![make_company("P1", vec![("roe", "0.10")])],
        higher_is_better: vec![],
        lower_is_better: vec![],
    };
    assert!(calculate_peer_benchmarking(&input).is_err());
}

#[test]
fn test_percentile_between_0_and_100() {
    let out = calculate_peer_benchmarking(&leader_input()).unwrap();
    for rank in &out.metric_rankings {
        assert!(v(rank.percentile) >= Decimal::ZERO && v(rank.percentile) <= n("100"));
    }
}

#[test]
fn test_composite_percentile_between_0_and_100() {
    let out = calculate_peer_benchmarking(&leader_input()).unwrap();
    assert!(v(out.composite_percentile) >= Decimal::ZERO);
    assert!(v(out.composite_percentile) <= n("100"));
}

#[test]
fn test_median_company_near_50_percentile() {
    let input = PeerBenchmarkingInput {
        company: make_company("Target", vec![("roe", "0.12")]),
        peers: vec![
            make_company("P1", vec![("roe", "0.08")]),
            make_company("P2", vec![("roe", "0.10")]),
            make_company("P3", vec![("roe", "0.14")]),
            make_company("P4", vec![("roe", "0.16")]),
        ],
        higher_is_better: vec!["roe".to_string()],
        lower_is_better: vec![],
    };
    let out = calculate_peer_benchmarking(&input).unwrap();
    let p = v(out.metric_rankings[0].percentile);
    assert!(p > n("30") && p < n("70"), "percentile={}", p);
}

// --- further cases ---

#[test]
fn peer_exact_percentile_of_top_value() {
    let out = calculate_peer_benchmarking(&leader_input()).unwrap();
    // rank 5 of 5 values: 5 / 6 * 100
    assert_eq!(v(out.metric_rankings[0].percentile), n("5") / n("6") * n("100"));
}

#[test]
fn peer_ties_take_the_average_rank() {
    let input = PeerBenchmarkingInput {
        company: make_company("Target", vec![("m", "1")]),
        peers: vec![make_company("P1", vec![("m", "1.0")]), make_company("P2", vec![("m", "2")])],
        higher_is_better: vec![],
        lower_is_better: vec![],
    };
    let out = calculate_peer_benchmarking(&input).unwrap();
    // company ties with P1 at ranks 1 and 2: average 1.5, over 4
    assert_eq!(v(out.metric_rankings[0].percentile), n("1.5") / n("4") * n("100"));
}

#[test]
fn peer_no_matching_metric_is_insufficient_data() {
    let input = PeerBenchmarkingInput {
        company: make_company("Target", vec![("roe", "0.1")]),
        peers: vec![make_company("P1", vec![("margin", "0.2")])],
        higher_is_better: vec![],
        lower_is_better: vec![],
    };
    match calculate_peer_benchmarking(&input) {
        Err(FinError::InsufficientData(m)) => {
            assert_eq!(m, "No matching metrics found between company and peers.")
        }
        _ => panic!("expected InsufficientData"),
    }
}

#[test]
fn sqrt_of_four_is_two() {
    let r = v(decimal_sqrt(d("4")).unwrap());
    assert!(approx_eq(r, n("2"), n("0.0000001")));
    assert_eq!(v(decimal_sqrt(d("-1")).unwrap()), n("0"));
}
