//! Manager selection and due diligence: quantitative scoring of a manager's track record
//! blended with a weighted qualitative assessment.
use vstd::prelude::*;

use crate::dec::{dzero, group_dec, lift, oadd, odiv, omul, osub, sum_opt, sum_seq, Dec};
use crate::error::{err_view, insufficient_data, invalid_input, overflow, ErrView, FinError, FinResult};
use crate::fixed_income::yields::one;

verus! {

broadcast use group_dec;

/// A fund of the manager's track record.
pub struct FundRecord {
    pub name: String,
    pub vintage: u32,
    /// Net IRR to LPs.
    pub irr: Dec,
    pub tvpi: Dec,
    pub dpi: Dec,
    /// Public market equivalent.
    pub pme: Dec,
}

/// A qualitative factor: weight and a score from 1 to 5.
pub struct QualitativeFactor {
    pub factor: String,
    pub weight: Dec,
    pub score: Dec,
}

/// Quartile thresholds of a metric ("irr", "tvpi" or "dpi").
pub struct BenchmarkQuartile {
    pub metric: String,
    /// Threshold of the top quartile.
    pub q1: Dec,
    pub median: Dec,
    /// Threshold of the third quartile.
    pub q3: Dec,
}

pub struct ManagerSelectionInput {
    pub manager_name: String,
    pub funds: Vec<FundRecord>,
    pub qualitative_scores: Vec<QualitativeFactor>,
    pub benchmark_quartiles: Vec<BenchmarkQuartile>,
}

/// The quartile (1 = top, 4 = bottom) of one fund on one metric.
pub struct FundQuartileRanking {
    pub fund: String,
    pub metric: String,
    pub value: Dec,
    pub quartile: u32,
}

pub struct ManagerSelectionOutput {
    /// Average of 100, 75, 50 or 25 points per quartile ranking.
    pub quantitative_score: Dec,
    /// Weighted factor score mapped from 1-5 onto 0-100.
    pub qualitative_score: Dec,
    /// 60% quantitative + 40% qualitative.
    pub overall_score: Dec,
    pub fund_quartiles: Vec<FundQuartileRanking>,
    /// Correlation of consecutive funds' IRRs, in vintage order.
    pub persistence_correlation: Dec,
    /// Average of IRR - PME.
    pub average_alpha: Dec,
    /// 1 - coefficient of variation of the IRRs, within [0, 1].
    pub return_consistency: Dec,
    pub recommendation: Recommendation,
}

/// Recommendation rating.
#[derive(Debug, Clone, Copy, PartialEq, Eq, Structural)]
pub enum Recommendation {
    StrongBuy,
    Buy,
    Hold,
    Pass,
}

impl Recommendation {
    /// The rating as it is displayed.
    pub open spec fn label(self) -> Seq<char> {
        match self {
            Recommendation::StrongBuy => "Strong Buy"@,
            Recommendation::Buy => "Buy"@,
            Recommendation::Hold => "Hold"@,
            Recommendation::Pass => "Pass"@,
        }
    }

    /// The rating as it is displayed.
    pub fn to_string(&self) -> (r: String)
        ensures
            r@ == self.label(),
    {
        match self {
            Recommendation::StrongBuy => String::from_str("Strong Buy"),
            Recommendation::Buy => String::from_str("Buy"),
            Recommendation::Hold => String::from_str("Hold"),
            Recommendation::Pass => String::from_str("Pass"),
        }
    }
}


/// A quartile ranking as values.
pub struct RankView {
    pub fund: Seq<char>,
    pub metric: Seq<char>,
    pub value: Dec,
    pub quartile: u32,
}

/// The analysis as values.
pub struct ManagerFigures {
    pub quant: Dec,
    pub qual: Dec,
    pub overall: Dec,
    pub rankings: Seq<RankView>,
    pub persistence: Dec,
    pub alpha: Dec,
    pub consistency: Dec,
    pub recommendation: Recommendation,
}

// ---------------------------------------------------------------------------
// Specification
// ---------------------------------------------------------------------------

pub open spec fn factor_error(f: QualitativeFactor) -> Option<ErrView> {
    if f.score.lt_spec(one()) || f.score.gt_spec(Dec::lit(5, 0)) {
        Some(invalid_input("qualitative_scores."@ + f.factor@, "Qualitative scores must be in [1, 5]."@))
    } else if f.weight.lt_spec(dzero()) {
        Some(invalid_input("qualitative_scores."@ + f.factor@ + ".weight"@, "Weights cannot be negative."@))
    } else {
        None
    }
}

pub open spec fn record_error(f: FundRecord) -> Option<ErrView> {
    if f.tvpi.lt_spec(dzero()) {
        Some(invalid_input("funds.tvpi"@, "TVPI cannot be negative."@))
    } else if f.dpi.lt_spec(dzero()) {
        Some(invalid_input("funds.dpi"@, "DPI cannot be negative."@))
    } else {
        None
    }
}

/// The first error among the funds from index `k` on.
pub open spec fn records_error(s: Seq<FundRecord>, k: nat) -> Option<ErrView>
    decreases s.len() - k,
{
    if k >= s.len() {
        None
    } else if record_error(s[k as int]) is Some {
        record_error(s[k as int])
    } else {
        records_error(s, k + 1)
    }
}

/// The first error among the factors from index `k` on.
pub open spec fn factors_error(s: Seq<QualitativeFactor>, k: nat) -> Option<ErrView>
    decreases s.len() - k,
{
    if k >= s.len() {
        None
    } else if factor_error(s[k as int]) is Some {
        factor_error(s[k as int])
    } else {
        factors_error(s, k + 1)
    }
}

pub open spec fn manager_validation(i: ManagerSelectionInput) -> Option<ErrView> {
    if i.funds@.len() == 0 {
        Some(insufficient_data("At least one fund record is required."@))
    } else if records_error(i.funds@, 0) is Some {
        records_error(i.funds@, 0)
    } else if factors_error(i.qualitative_scores@, 0) is Some {
        factors_error(i.qualitative_scores@, 0)
    } else if i.benchmark_quartiles@.len() == 0 {
        Some(insufficient_data("At least one benchmark quartile definition is required."@))
    } else {
        None
    }
}

/// The fund's value of a metric named "irr", "tvpi" or "dpi".
pub open spec fn metric_value(f: FundRecord, metric: Seq<char>) -> Option<Dec> {
    if metric == "irr"@ {
        Some(f.irr)
    } else if metric == "tvpi"@ {
        Some(f.tvpi)
    } else if metric == "dpi"@ {
        Some(f.dpi)
    } else {
        None
    }
}

/// 1 at or above q1, 2 at or above the median, 3 at or above q3, else 4.
pub open spec fn quartile_of(v: Dec, b: BenchmarkQuartile) -> u32 {
    if v.ge_spec(b.q1) {
        1
    } else if v.ge_spec(b.median) {
        2
    } else if v.ge_spec(b.q3) {
        3
    } else {
        4
    }
}

/// The fund's rankings against the first `k` benchmarks it has a metric for.
pub open spec fn fund_rankings(f: FundRecord, bms: Seq<BenchmarkQuartile>, k: nat) -> Seq<RankView>
    decreases k,
{
    if k == 0 {
        Seq::empty()
    } else {
        let acc = fund_rankings(f, bms, (k - 1) as nat);
        let b = bms[k - 1];
        match metric_value(f, b.metric@) {
            None => acc,
            Some(v) => acc.push(RankView { fund: f.name@, metric: b.metric@, value: v, quartile: quartile_of(v, b) }),
        }
    }
}

/// The rankings of the first `k` funds, fund by fund.
pub open spec fn rankings_spec(funds: Seq<FundRecord>, bms: Seq<BenchmarkQuartile>, k: nat) -> Seq<RankView>
    decreases k,
{
    if k == 0 {
        Seq::empty()
    } else {
        rankings_spec(funds, bms, (k - 1) as nat) + fund_rankings(funds[k - 1], bms, bms.len())
    }
}

pub open spec fn quartile_points(q: u32) -> Dec {
    if q == 1 {
        Dec::lit(100, 0)
    } else if q == 2 {
        Dec::lit(75, 0)
    } else if q == 3 {
        Dec::lit(50, 0)
    } else {
        Dec::lit(25, 0)
    }
}

/// Average quartile points; zero without rankings.
pub open spec fn quant_spec(r: Seq<RankView>) -> Option<Dec> {
    if r.len() == 0 {
        Some(dzero())
    } else {
        odiv(sum_seq(r.map_values(|x: RankView| quartile_points(x.quartile))), Some(Dec::lit((r.len() as u32) as int, 0)))
    }
}

/// (weighted average score - 1) / 4 * 100; zero without factors or weight.
pub open spec fn qual_spec(f: Seq<QualitativeFactor>) -> Option<Dec> {
    if f.len() == 0 {
        Some(dzero())
    } else {
        match sum_seq(f.map_values(|x: QualitativeFactor| x.weight)) {
            None => None,
            Some(tw) => if tw.is_zero_spec() {
                Some(dzero())
            } else {
                match odiv(sum_opt(f.map_values(|x: QualitativeFactor| x.weight.mul_spec(x.score))), Some(tw)) {
                    None => None,
                    Some(avg) => omul(odiv(avg.sub_spec(one()), Some(Dec::lit(4, 0))), Some(Dec::lit(100, 0))),
                }
            },
        }
    }
}

/// Where a stable sort by vintage puts `x`: before the first later vintage.
pub open spec fn vintage_pos(s: Seq<(u32, Dec)>, x: (u32, Dec)) -> nat
    decreases s.len(),
{
    if s.len() == 0 {
        0
    } else if s[0].0 > x.0 {
        0
    } else {
        1 + vintage_pos(s.drop_first(), x)
    }
}

/// (vintage, IRR) pairs by vintage, equal vintages in their input order.
pub open spec fn vintage_sort(s: Seq<(u32, Dec)>) -> Seq<(u32, Dec)>
    decreases s.len(),
{
    if s.len() == 0 {
        s
    } else {
        let t = vintage_sort(s.drop_last());
        let k = vintage_pos(t, s.last()) as int;
        t.take(k).push(s.last()) + t.skip(k)
    }
}

/// Square root by Newton's method from x / 2 (one when that is zero), at most twenty steps,
/// stopping once a step moves less than 1e-10; zero for x <= 0.
pub open spec fn ms_sqrt_iter(x: Dec, guess: Dec, it: nat) -> Option<Dec>
    decreases 20 - it,
{
    if it >= 20 {
        Some(guess)
    } else {
        match odiv(oadd(Some(guess), x.div_spec(guess)), Some(Dec::lit(2, 0))) {
            None => None,
            Some(next) => match next.sub_spec(guess) {
                None => None,
                Some(step) => if step.abs_spec().lt_spec(Dec::lit(1, 10)) {
                    Some(next)
                } else {
                    ms_sqrt_iter(x, next, it + 1)
                },
            },
        }
    }
}

pub open spec fn ms_sqrt(x: Dec) -> Option<Dec> {
    if x.le_spec(dzero()) {
        Some(dzero())
    } else {
        match x.div_spec(Dec::lit(2, 0)) {
            None => None,
            Some(g) => ms_sqrt_iter(
                x,
                if g.is_zero_spec() {
                    one()
                } else {
                    g
                },
                0,
            ),
        }
    }
}

/// Entries `k..` of the co-moment sums (covariance, x variance, y variance) about the means.
pub open spec fn moments(xs: Seq<Dec>, ys: Seq<Dec>, mx: Dec, my: Dec, k: nat, acc: (Dec, Dec, Dec)) -> Option<(Dec, Dec, Dec)>
    decreases xs.len() - k,
{
    if k >= xs.len() {
        Some(acc)
    } else {
        match (xs[k as int].sub_spec(mx), ys[k as int].sub_spec(my)) {
            (Some(dx), Some(dy)) => match (
                oadd(Some(acc.0), dx.mul_spec(dy)),
                oadd(Some(acc.1), dx.mul_spec(dx)),
                oadd(Some(acc.2), dy.mul_spec(dy)),
            ) {
                (Some(c), Some(vx), Some(vy)) => moments(xs, ys, mx, my, k + 1, (c, vx, vy)),
                _ => None,
            },
            _ => None,
        }
    }
}

/// Pearson correlation; zero for no pairs or no variation.
pub open spec fn pearson_spec(xs: Seq<Dec>, ys: Seq<Dec>) -> Option<Dec> {
    let n = xs.len();
    if n == 0 {
        Some(dzero())
    } else {
        let nd = Dec::lit((n as u32) as int, 0);
        match (odiv(sum_seq(xs), Some(nd)), odiv(sum_seq(ys), Some(nd))) {
            (Some(mx), Some(my)) => match moments(xs, ys, mx, my, 0, (dzero(), dzero(), dzero())) {
                None => None,
                Some(m) => match m.1.mul_spec(m.2) {
                    None => None,
                    Some(dsq) => if dsq.is_zero_spec() {
                        Some(dzero())
                    } else {
                        match ms_sqrt(dsq) {
                            None => None,
                            Some(den) => if den.is_zero_spec() {
                                Some(dzero())
                            } else {
                                m.0.div_spec(den)
                            },
                        }
                    },
                }
            },
            _ => None,
        }
    }
}

/// Correlation of each fund's IRR with the next one's, in vintage order; zero for fewer
/// than three funds.
pub open spec fn persistence_spec(funds: Seq<FundRecord>) -> Option<Dec> {
    if funds.len() < 3 {
        Some(dzero())
    } else {
        let irrs = vintage_sort(funds.map_values(|f: FundRecord| (f.vintage, f.irr))).map_values(
            |p: (u32, Dec)| p.1,
        );
        pearson_spec(irrs.take(irrs.len() - 1), irrs.skip(1))
    }
}

/// Average of IRR - PME.
pub open spec fn alpha_spec(funds: Seq<FundRecord>) -> Option<Dec> {
    if funds.len() == 0 {
        Some(dzero())
    } else {
        odiv(sum_opt(funds.map_values(|f: FundRecord| f.irr.sub_spec(f.pme))), Some(Dec::lit((funds.len() as u32) as int, 0)))
    }
}

/// 1 - standard deviation / |mean| of the IRRs, kept within [0, 1]; one for fewer than two
/// funds, zero for a zero mean.
pub open spec fn consistency_spec(funds: Seq<FundRecord>) -> Option<Dec> {
    if funds.len() < 2 {
        Some(one())
    } else {
        let n = Dec::lit((funds.len() as u32) as int, 0);
        match odiv(sum_seq(funds.map_values(|f: FundRecord| f.irr)), Some(n)) {
            None => None,
            Some(mean) => if mean.is_zero_spec() {
                Some(dzero())
            } else {
                match odiv(
                    sum_opt(funds.map_values(|f: FundRecord| omul(f.irr.sub_spec(mean), f.irr.sub_spec(mean)))),
                    Some(n),
                ) {
                    None => None,
                    Some(var) => match odiv(ms_sqrt(var), Some(mean.abs_spec())) {
                        None => None,
                        Some(cv) => match one().sub_spec(cv) {
                            None => None,
                            Some(c) => Some(
                                if c.lt_spec(dzero()) {
                                    dzero()
                                } else if c.gt_spec(one()) {
                                    one()
                                } else {
                                    c
                                },
                            ),
                        },
                    },
                }
            },
        }
    }
}

pub open spec fn recommendation_spec(overall: Dec) -> Recommendation {
    if overall.ge_spec(Dec::lit(80, 0)) {
        Recommendation::StrongBuy
    } else if overall.ge_spec(Dec::lit(60, 0)) {
        Recommendation::Buy
    } else if overall.ge_spec(Dec::lit(40, 0)) {
        Recommendation::Hold
    } else {
        Recommendation::Pass
    }
}

pub open spec fn manager_spec(i: ManagerSelectionInput) -> Result<ManagerFigures, ErrView> {
    match manager_validation(i) {
        Some(e) => Err(e),
        None => {
            let f = i.funds@;
            let r = rankings_spec(f, i.benchmark_quartiles@, f.len());
            match (
                quant_spec(r),
                qual_spec(i.qualitative_scores@),
                persistence_spec(f),
                alpha_spec(f),
                consistency_spec(f),
            ) {
                (Some(qn), Some(ql), Some(p), Some(a), Some(c)) => match oadd(
                    Dec::lit(60, 2).mul_spec(qn),
                    Dec::lit(40, 2).mul_spec(ql),
                ) {
                    None => Err(overflow()),
                    Some(o) => Ok(
                        ManagerFigures {
                            quant: qn,
                            qual: ql,
                            overall: o,
                            rankings: r,
                            persistence: p,
                            alpha: a,
                            consistency: c,
                            recommendation: recommendation_spec(o),
                        },
                    ),
                },
                _ => Err(overflow()),
            }
        },
    }
}


// ---------------------------------------------------------------------------
// Implementation
// ---------------------------------------------------------------------------

fn str_of(s: &str) -> (r: String)
    ensures
        r@ == s@,
{
    String::from_str(s)
}

fn validate_manager_input(input: &ManagerSelectionInput) -> (r: FinResult<()>)
    ensures
        r is Err <==> manager_validation(*input) is Some,
        r matches Err(e) ==> manager_validation(*input) == Some(err_view(e)),
{
    let funds = &input.funds;
    if funds.len() == 0 {
        return Err(FinError::InsufficientData(str_of("At least one fund record is required.")));
    }
    let zero = Dec::zero();
    let mut k: usize = 0;
    while k < funds.len()
        invariant
            k <= funds@.len(),
            funds@ == input.funds@,
            funds@.len() > 0,
            zero == dzero(),
            records_error(funds@, 0) == records_error(funds@, k as nat),
        decreases funds@.len() - k,
    {
        if funds[k].tvpi.lt(&zero) {
            return Err(FinError::InvalidInput { field: str_of("funds.tvpi"), reason: str_of("TVPI cannot be negative.") });
        }
        if funds[k].dpi.lt(&zero) {
            return Err(FinError::InvalidInput { field: str_of("funds.dpi"), reason: str_of("DPI cannot be negative.") });
        }
        k = k + 1;
    }
    let fs = &input.qualitative_scores;
    let one = Dec::one();
    let five = Dec::new(5, 0);
    let mut j: usize = 0;
    while j < fs.len()
        invariant
            j <= fs@.len(),
            fs@ == input.qualitative_scores@,
            input.funds@.len() > 0,
            records_error(input.funds@, 0) is None,
            zero == dzero(),
            one == Dec::lit(1, 0),
            five == Dec::lit(5, 0),
            factors_error(fs@, 0) == factors_error(fs@, j as nat),
        decreases fs@.len() - j,
    {
        let f = &fs[j];
        if f.score.lt(&one) || f.score.gt(&five) {
            return Err(
                FinError::InvalidInput {
                    field: str_of("qualitative_scores.").concat(f.factor.as_str()),
                    reason: str_of("Qualitative scores must be in [1, 5]."),
                },
            );
        }
        if f.weight.lt(&zero) {
            return Err(
                FinError::InvalidInput {
                    field: str_of("qualitative_scores.").concat(f.factor.as_str()).concat(".weight"),
                    reason: str_of("Weights cannot be negative."),
                },
            );
        }
        j = j + 1;
    }
    if input.benchmark_quartiles.len() == 0 {
        return Err(FinError::InsufficientData(str_of("At least one benchmark quartile definition is required.")));
    }
    Ok(())
}

pub open spec fn rank_view(r: FundQuartileRanking) -> RankView {
    RankView { fund: r.fund@, metric: r.metric@, value: r.value, quartile: r.quartile }
}

/// Quartile rankings of every fund on every benchmark metric it has ("irr", "tvpi",
/// "dpi"), fund by fund.
fn compute_quartile_rankings(funds: &Vec<FundRecord>, bms: &Vec<BenchmarkQuartile>) -> (r: Vec<FundQuartileRanking>)
    ensures
        r@.map_values(|x: FundQuartileRanking| rank_view(x)) == rankings_spec(funds@, bms@, funds@.len()),
        forall|q: int| 0 <= q < r@.len() ==> 1 <= (#[trigger] r@[q]).quartile <= 4,
{
    let irr = str_of("irr");
    let tvpi = str_of("tvpi");
    let dpi = str_of("dpi");
    let mut out: Vec<FundQuartileRanking> = Vec::new();
    let mut k: usize = 0;
    while k < funds.len()
        invariant
            k <= funds@.len(),
            irr@ == "irr"@,
            tvpi@ == "tvpi"@,
            dpi@ == "dpi"@,
            out@.map_values(|x: FundQuartileRanking| rank_view(x)) == rankings_spec(funds@, bms@, k as nat),
            forall|q: int| 0 <= q < out@.len() ==> 1 <= (#[trigger] out@[q]).quartile <= 4,
        decreases funds@.len() - k,
    {
        let f = &funds[k];
        let ghost base = out@.map_values(|x: FundQuartileRanking| rank_view(x));
        let mut j: usize = 0;
        while j < bms.len()
            invariant
                j <= bms@.len(),
                k < funds@.len(),
                f == funds@[k as int],
                irr@ == "irr"@,
                tvpi@ == "tvpi"@,
                dpi@ == "dpi"@,
                out@.map_values(|x: FundQuartileRanking| rank_view(x)) == base + fund_rankings(*f, bms@, j as nat),
                forall|q: int| 0 <= q < out@.len() ==> 1 <= (#[trigger] out@[q]).quartile <= 4,
            decreases bms@.len() - j,
        {
            let b = &bms[j];
            let value = if b.metric == irr {
                Some(f.irr)
            } else if b.metric == tvpi {
                Some(f.tvpi)
            } else if b.metric == dpi {
                Some(f.dpi)
            } else {
                None
            };
            match value {
                Some(v) => {
                    let quartile: u32 = if v.ge(&b.q1) {
                        1
                    } else if v.ge(&b.median) {
                        2
                    } else if v.ge(&b.q3) {
                        3
                    } else {
                        4
                    };
                    let ghost before = out@.map_values(|x: FundQuartileRanking| rank_view(x));
                    out.push(FundQuartileRanking { fund: f.name.clone(), metric: b.metric.clone(), value: v, quartile });
                    proof {
                        assert(out@.map_values(|x: FundQuartileRanking| rank_view(x)) =~= before.push(
                            RankView { fund: f.name@, metric: b.metric@, value: v, quartile },
                        ));
                        assert(base + fund_rankings(*f, bms@, (j + 1) as nat) =~= (base + fund_rankings(
                            *f,
                            bms@,
                            j as nat,
                        )).push(RankView { fund: f.name@, metric: b.metric@, value: v, quartile }));
                    }
                },
                None => {},
            }
            j = j + 1;
        }
        k = k + 1;
    }
    out
}

/// Average quartile points (100, 75, 50, 25); zero without rankings.
fn compute_quantitative_score(r: &Vec<FundQuartileRanking>) -> (res: FinResult<Dec>)
    ensures
        res == lift(quant_spec(r@.map_values(|x: FundQuartileRanking| rank_view(x)))),
{
    let ghost rv = r@.map_values(|x: FundQuartileRanking| rank_view(x));
    if r.len() == 0 {
        return Ok(Dec::zero());
    }
    let mut pts: Vec<Dec> = Vec::new();
    let mut k: usize = 0;
    while k < r.len()
        invariant
            k <= r@.len(),
            rv == r@.map_values(|x: FundQuartileRanking| rank_view(x)),
            pts@.len() == k,
            forall|q: int| 0 <= q < k ==> #[trigger] pts@[q] == quartile_points(rv[q].quartile),
        decreases r@.len() - k,
    {
        let q = r[k].quartile;
        pts.push(
            if q == 1 {
                Dec::new(100, 0)
            } else if q == 2 {
                Dec::new(75, 0)
            } else if q == 3 {
                Dec::new(50, 0)
            } else {
                Dec::new(25, 0)
            },
        );
        k = k + 1;
    }
    proof {
        assert(pts@ =~= rv.map_values(|x: RankView| quartile_points(x.quartile)));
    }
    let count: u32 = #[verifier::truncate] (r.len() as u32);
    crate::dec::sum_vec(&pts)?.div(&Dec::from_u64(count as u64))
}

fn factor_sums(fs: &Vec<QualitativeFactor>, weighted: bool) -> (r: FinResult<Dec>)
    ensures
        weighted ==> r == lift(sum_opt(fs@.map_values(|x: QualitativeFactor| x.weight.mul_spec(x.score)))),
        !weighted ==> r == lift(sum_seq(fs@.map_values(|x: QualitativeFactor| x.weight))),
{
    let ghost s = if weighted {
        fs@.map_values(|x: QualitativeFactor| x.weight.mul_spec(x.score))
    } else {
        fs@.map_values(|x: QualitativeFactor| x.weight).map_values(|d: Dec| Some(d))
    };
    let mut acc = Dec::zero();
    let mut k: usize = 0;
    while k < fs.len()
        invariant
            k <= fs@.len(),
            s.len() == fs@.len(),
            weighted ==> s == fs@.map_values(|x: QualitativeFactor| x.weight.mul_spec(x.score)),
            !weighted ==> s == fs@.map_values(|x: QualitativeFactor| x.weight).map_values(|d: Dec| Some(d)),
            sum_opt(s.take(k as int)) == Some(acc),
        decreases fs@.len() - k,
    {
        proof {
            assert(s.take(k + 1).drop_last() =~= s.take(k as int));
        }
        let term = if weighted {
            fs[k].weight.mul(&fs[k].score)
        } else {
            Ok(fs[k].weight)
        };
        let step = match term {
            Ok(t) => acc.add(&t),
            Err(e) => Err(e),
        };
        acc = match step {
            Ok(x) => x,
            Err(e) => {
                proof {
                    crate::dec::lemma_sum_opt_none(s, k as int);
                }
                return Err(e);
            },
        };
        k = k + 1;
    }
    proof {
        assert(s.take(fs@.len() as int) =~= s);
    }
    Ok(acc)
}

/// (weighted average score - 1) / 4 * 100; zero without factors or without weight.
fn compute_qualitative_score(fs: &Vec<QualitativeFactor>) -> (r: FinResult<Dec>)
    ensures
        r == lift(qual_spec(fs@)),
{
    if fs.len() == 0 {
        return Ok(Dec::zero());
    }
    let tw = factor_sums(fs, false)?;
    if tw.is_zero() {
        return Ok(Dec::zero());
    }
    let avg = factor_sums(fs, true)?.div(&tw)?;
    avg.sub(&Dec::one())?.div(&Dec::new(4, 0))?.mul(&Dec::new(100, 0))
}

/// Square root by Newton's method (at most twenty steps).
fn decimal_sqrt(x: Dec) -> (r: FinResult<Dec>)
    ensures
        r == lift(ms_sqrt(x)),
{
    if x.le(&Dec::zero()) {
        return Ok(Dec::zero());
    }
    let two = Dec::new(2, 0);
    let mut guess = x.div(&two)?;
    if guess.is_zero() {
        guess = Dec::one();
    }
    let tol = Dec::new(1, 10);
    let mut it: u32 = 0;
    while it < 20
        invariant
            it <= 20,
            two == Dec::lit(2, 0),
            tol == Dec::lit(1, 10),
            ms_sqrt(x) == ms_sqrt_iter(x, guess, it as nat),
        decreases 20 - it,
    {
        let next = guess.add(&x.div(&guess)?)?.div(&two)?;
        if next.sub(&guess)?.abs().lt(&tol) {
            return Ok(next);
        }
        guess = next;
        it = it + 1;
    }
    Ok(guess)
}

/// Pearson correlation of paired values; zero without pairs or without variation.
fn pearson_correlation(xs: &Vec<Dec>, ys: &Vec<Dec>) -> (r: FinResult<Dec>)
    requires
        xs@.len() == ys@.len(),
        xs@.len() <= u32::MAX,
    ensures
        r == lift(pearson_spec(xs@, ys@)),
{
    let n = xs.len();
    if n == 0 {
        return Ok(Dec::zero());
    }
    let nd = Dec::from_u64(n as u64);
    let mx = crate::dec::sum_vec(xs)?.div(&nd)?;
    let my = crate::dec::sum_vec(ys)?.div(&nd)?;
    let mut cov = Dec::zero();
    let mut vx = Dec::zero();
    let mut vy = Dec::zero();
    let mut k: usize = 0;
    while k < n
        invariant
            k <= n,
            n == xs@.len(),
            n == ys@.len(),
            0 < n <= u32::MAX,
            nd == Dec::lit(n as int, 0),
            odiv(sum_seq(xs@), Some(nd)) == Some(mx),
            odiv(sum_seq(ys@), Some(nd)) == Some(my),
            moments(xs@, ys@, mx, my, 0, (dzero(), dzero(), dzero())) == moments(xs@, ys@, mx, my, k as nat, (cov, vx, vy)),
        decreases n - k,
    {
        let dx = xs[k].sub(&mx)?;
        let dy = ys[k].sub(&my)?;
        cov = cov.add(&dx.mul(&dy)?)?;
        vx = vx.add(&dx.mul(&dx)?)?;
        vy = vy.add(&dy.mul(&dy)?)?;
        k = k + 1;
    }
    let dsq = vx.mul(&vy)?;
    if dsq.is_zero() {
        return Ok(Dec::zero());
    }
    let den = decimal_sqrt(dsq)?;
    if den.is_zero() {
        return Ok(Dec::zero());
    }
    cov.div(&den)
}

proof fn lemma_vintage_pos(s: Seq<(u32, Dec)>, x: (u32, Dec), k: int)
    requires
        0 <= k <= s.len(),
        forall|q: int| 0 <= q < k ==> (#[trigger] s[q]).0 <= x.0,
        k < s.len() ==> s[k].0 > x.0,
    ensures
        vintage_pos(s, x) == k,
    decreases k,
{
    if k > 0 {
        assert forall|q: int| 0 <= q < k - 1 implies (#[trigger] s.drop_first()[q]).0 <= x.0 by {
            assert(s.drop_first()[q] == s[q + 1]);
        }
        lemma_vintage_pos(s.drop_first(), x, k - 1);
    }
}

/// The funds' (vintage, IRR) pairs by vintage, equal vintages in their input order.
fn sort_by_vintage(funds: &Vec<FundRecord>) -> (r: Vec<(u32, Dec)>)
    ensures
        r@ == vintage_sort(funds@.map_values(|f: FundRecord| (f.vintage, f.irr))),
{
    let ghost v = funds@.map_values(|f: FundRecord| (f.vintage, f.irr));
    let mut out: Vec<(u32, Dec)> = Vec::new();
    let mut j: usize = 0;
    while j < funds.len()
        invariant
            j <= funds@.len(),
            v == funds@.map_values(|f: FundRecord| (f.vintage, f.irr)),
            out@ == vintage_sort(v.take(j as int)),
            out@.len() == j,
        decreases funds@.len() - j,
    {
        let x = (funds[j].vintage, funds[j].irr);
        let mut k: usize = 0;
        while k < out.len() && out[k].0 <= x.0
            invariant
                k <= out@.len(),
                forall|q: int| 0 <= q < k ==> (#[trigger] out@[q]).0 <= x.0,
            decreases out@.len() - k,
        {
            k = k + 1;
        }
        proof {
            lemma_vintage_pos(out@, x, k as int);
            assert(v.take(j + 1).drop_last() =~= v.take(j as int));
            assert(v.take(j + 1).last() == x);
        }
        let ghost before = out@;
        out.insert(k, x);
        proof {
            assert(out@ =~= before.take(k as int).push(x) + before.skip(k as int));
        }
        j = j + 1;
    }
    proof {
        assert(v.take(funds@.len() as int) =~= v);
    }
    out
}

proof fn lemma_vintage_sort_len(s: Seq<(u32, Dec)>)
    ensures
        vintage_sort(s).len() == s.len(),
    decreases s.len(),
{
    if s.len() > 0 {
        lemma_vintage_sort_len(s.drop_last());
        lemma_vintage_pos_le(vintage_sort(s.drop_last()), s.last());
    }
}

proof fn lemma_vintage_pos_le(s: Seq<(u32, Dec)>, x: (u32, Dec))
    ensures
        vintage_pos(s, x) <= s.len(),
    decreases s.len(),
{
    if s.len() > 0 {
        lemma_vintage_pos_le(s.drop_first(), x);
    }
}

/// Correlation of each fund's IRR with the next fund's, in vintage order; zero for fewer
/// than three funds.
fn compute_persistence(funds: &Vec<FundRecord>) -> (r: FinResult<Dec>)
    requires
        funds@.len() <= u32::MAX,
    ensures
        r == lift(persistence_spec(funds@)),
{
    if funds.len() < 3 {
        return Ok(Dec::zero());
    }
    let sorted = sort_by_vintage(funds);
    proof {
        lemma_vintage_sort_len(funds@.map_values(|f: FundRecord| (f.vintage, f.irr)));
    }
    let n = sorted.len() - 1;
    let mut xs: Vec<Dec> = Vec::new();
    let mut ys: Vec<Dec> = Vec::new();
    let mut k: usize = 0;
    while k < n
        invariant
            k <= n,
            n + 1 == sorted@.len(),
            xs@.len() == k,
            ys@.len() == k,
            forall|q: int| 0 <= q < k ==> #[trigger] xs@[q] == sorted@[q].1,
            forall|q: int| 0 <= q < k ==> #[trigger] ys@[q] == sorted@[q + 1].1,
        decreases n - k,
    {
        xs.push(sorted[k].1);
        ys.push(sorted[k + 1].1);
        k = k + 1;
    }
    proof {
        let irrs = sorted@.map_values(|p: (u32, Dec)| p.1);
        assert(xs@ =~= irrs.take(irrs.len() - 1));
        assert(ys@ =~= irrs.skip(1));
    }
    pearson_correlation(&xs, &ys)
}

/// Average of IRR - PME over the funds.
fn compute_average_alpha(funds: &Vec<FundRecord>) -> (r: FinResult<Dec>)
    ensures
        r == lift(alpha_spec(funds@)),
{
    if funds.len() == 0 {
        return Ok(Dec::zero());
    }
    let ghost s = funds@.map_values(|f: FundRecord| f.irr.sub_spec(f.pme));
    let mut acc = Dec::zero();
    let mut k: usize = 0;
    while k < funds.len()
        invariant
            k <= funds@.len(),
            s == funds@.map_values(|f: FundRecord| f.irr.sub_spec(f.pme)),
            sum_opt(s.take(k as int)) == Some(acc),
        decreases funds@.len() - k,
    {
        proof {
            assert(s.take(k + 1).drop_last() =~= s.take(k as int));
        }
        let step = match funds[k].irr.sub(&funds[k].pme) {
            Ok(t) => acc.add(&t),
            Err(e) => Err(e),
        };
        acc = match step {
            Ok(x) => x,
            Err(e) => {
                proof {
                    crate::dec::lemma_sum_opt_none(s, k as int);
                }
                return Err(e);
            },
        };
        k = k + 1;
    }
    proof {
        assert(s.take(funds@.len() as int) =~= s);
    }
    let count: u32 = #[verifier::truncate] (funds.len() as u32);
    acc.div(&Dec::from_u64(count as u64))
}

/// 1 - standard deviation / |mean| of the IRRs, kept within [0, 1].
fn compute_return_consistency(funds: &Vec<FundRecord>) -> (r: FinResult<Dec>)
    ensures
        r == lift(consistency_spec(funds@)),
        r matches Ok(c) ==> !c.lt_spec(dzero()) && !c.gt_spec(one()),
{
    let one = Dec::one();
    if funds.len() < 2 {
        return Ok(one);
    }
    let count: u32 = #[verifier::truncate] (funds.len() as u32);
    let n = Dec::from_u64(count as u64);
    let mut irrs: Vec<Dec> = Vec::new();
    let mut k: usize = 0;
    while k < funds.len()
        invariant
            k <= funds@.len(),
            irrs@.len() == k,
            forall|q: int| 0 <= q < k ==> #[trigger] irrs@[q] == funds@[q].irr,
        decreases funds@.len() - k,
    {
        irrs.push(funds[k].irr);
        k = k + 1;
    }
    proof {
        assert(irrs@ =~= funds@.map_values(|f: FundRecord| f.irr));
    }
    let mean = crate::dec::sum_vec(&irrs)?.div(&n)?;
    if mean.is_zero() {
        return Ok(Dec::zero());
    }
    let ghost s = funds@.map_values(|f: FundRecord| omul(f.irr.sub_spec(mean), f.irr.sub_spec(mean)));
    let mut acc = Dec::zero();
    let mut j: usize = 0;
    while j < funds.len()
        invariant
            j <= funds@.len(),
            funds@.len() >= 2,
            n == Dec::lit((funds@.len() as u32) as int, 0),
            odiv(sum_seq(funds@.map_values(|f: FundRecord| f.irr)), Some(n)) == Some(mean),
            !mean.is_zero_spec(),
            s == funds@.map_values(|f: FundRecord| omul(f.irr.sub_spec(mean), f.irr.sub_spec(mean))),
            sum_opt(s.take(j as int)) == Some(acc),
        decreases funds@.len() - j,
    {
        proof {
            assert(s.take(j + 1).drop_last() =~= s.take(j as int));
        }
        let step = match funds[j].irr.sub(&mean) {
            Ok(d) => match d.mul(&d) {
                Ok(sq) => acc.add(&sq),
                Err(e) => Err(e),
            },
            Err(e) => Err(e),
        };
        acc = match step {
            Ok(x) => x,
            Err(e) => {
                proof {
                    crate::dec::lemma_sum_opt_none(s, j as int);
                }
                return Err(e);
            },
        };
        j = j + 1;
    }
    proof {
        assert(s.take(funds@.len() as int) =~= s);
    }
    let var = acc.div(&n)?;
    let sd = decimal_sqrt(var)?;
    let cv = sd.div(&mean.abs())?;
    let c = one.sub(&cv)?;
    if c.lt(&Dec::zero()) {
        Ok(Dec::zero())
    } else if c.gt(&one) {
        Ok(one)
    } else {
        Ok(c)
    }
}

/// Score a manager: quartile rankings of the track record against the benchmarks, a
/// quantitative and a qualitative score blended 60/40, persistence, average alpha, return
/// consistency and a recommendation.
pub fn analyze_manager_selection(input: &ManagerSelectionInput) -> (r: FinResult<ManagerSelectionOutput>)
    requires
        input.funds@.len() <= u32::MAX,
    ensures
        r is Err <==> manager_spec(*input) is Err,
        r matches Err(e) ==> manager_spec(*input) == Err::<ManagerFigures, ErrView>(err_view(e)),
        r matches Ok(o) ==> {
            let m = manager_spec(*input)->Ok_0;
            &&& o.quantitative_score == m.quant
            &&& o.qualitative_score == m.qual
            &&& o.overall_score == m.overall
            &&& o.fund_quartiles@.map_values(|x: FundQuartileRanking| rank_view(x)) == m.rankings
            &&& o.persistence_correlation == m.persistence
            &&& o.average_alpha == m.alpha
            &&& o.return_consistency == m.consistency
            &&& o.recommendation == m.recommendation
            &&& forall|q: int| 0 <= q < o.fund_quartiles@.len() ==> 1 <= (#[trigger] o.fund_quartiles@[q]).quartile <= 4
            &&& !o.return_consistency.lt_spec(dzero()) && !o.return_consistency.gt_spec(one())
        },
{
    validate_manager_input(input)?;
    let rankings = compute_quartile_rankings(&input.funds, &input.benchmark_quartiles);
    let quant = compute_quantitative_score(&rankings)?;
    let qual = compute_qualitative_score(&input.qualitative_scores)?;
    let persistence = compute_persistence(&input.funds)?;
    let alpha = compute_average_alpha(&input.funds)?;
    let consistency = compute_return_consistency(&input.funds)?;
    let overall = Dec::new(60, 2).mul(&quant)?.add(&Dec::new(40, 2).mul(&qual)?)?;
    let recommendation = if overall.ge(&Dec::new(80, 0)) {
        Recommendation::StrongBuy
    } else if overall.ge(&Dec::new(60, 0)) {
        Recommendation::Buy
    } else if overall.ge(&Dec::new(40, 0)) {
        Recommendation::Hold
    } else {
        Recommendation::Pass
    };
    Ok(
        ManagerSelectionOutput {
            quantitative_score: quant,
            qualitative_score: qual,
            overall_score: overall,
            fund_quartiles: rankings,
            persistence_correlation: persistence,
            average_alpha: alpha,
            return_consistency: consistency,
            recommendation,
        },
    )
}

} // verus!
