//! Peer benchmarking: a company's metrics ranked against its peers by percentile, with
//! the peers' median, mean, range and standard deviation, and a composite rating.
use vstd::prelude::*;

use crate::dec::{dzero, group_dec, lemma_sum_opt_none, lift, oadd, odiv, omul, osub, sum_opt, Dec};
use crate::error::{err_view, insufficient_data, overflow, ErrView, FinError, FinResult};

verus! {

broadcast use group_dec;

pub struct MetricValue {
    pub metric_name: String,
    pub value: Dec,
}

pub struct CompanyMetrics {
    pub name: String,
    pub metrics: Vec<MetricValue>,
}

pub struct PeerBenchmarkingInput {
    pub company: CompanyMetrics,
    pub peers: Vec<CompanyMetrics>,
    pub higher_is_better: Vec<String>,
    pub lower_is_better: Vec<String>,
}

/// Ranking of one metric.
pub struct MetricRanking {
    pub metric_name: String,
    pub company_value: Dec,
    pub peer_median: Dec,
    pub peer_mean: Dec,
    pub peer_min: Dec,
    pub peer_max: Dec,
    /// Percentile of the company among peers and itself (inverted for lower-is-better).
    pub percentile: Dec,
    /// (company - mean) / standard deviation, negated for lower-is-better.
    pub z_score: Dec,
    /// "Top Quartile", "Above Median", "Below Median" or "Bottom Quartile".
    pub relative_position: String,
}

pub struct PeerBenchmarkingOutput {
    pub metric_rankings: Vec<MetricRanking>,
    /// Mean percentile over the ranked metrics.
    pub composite_percentile: Dec,
    /// "Leader", "Above Average", "Average", "Below Average" or "Laggard".
    pub composite_rating: String,
    /// Metrics in the top quartile.
    pub strengths: Vec<String>,
    /// Metrics in the bottom quartile.
    pub weaknesses: Vec<String>,
}

// ---------------------------------------------------------------------------
// Specification: statistics
// ---------------------------------------------------------------------------

/// Newton steps `guess := (guess + x / guess) / 2` from step `k` of 30.
pub open spec fn sqrt_iter(x: Dec, guess: Dec, k: nat) -> Option<Dec>
    decreases 30 - k,
{
    if k >= 30 {
        Some(guess)
    } else {
        match odiv(oadd(Some(guess), x.div_spec(guess)), Some(Dec::lit(2, 0))) {
            Some(g) => sqrt_iter(x, g, k + 1),
            None => None,
        }
    }
}

/// Square root by 30 Newton steps from x / 2 (from 1 when that is zero); zero for x <= 0.
pub open spec fn sqrt_spec(x: Dec) -> Option<Dec> {
    if x.le_spec(dzero()) {
        Some(dzero())
    } else {
        match x.div_spec(Dec::lit(2, 0)) {
            Some(g) => sqrt_iter(
                x,
                if g.eq_spec(dzero()) {
                    Dec::lit(1, 0)
                } else {
                    g
                },
                0,
            ),
            None => None,
        }
    }
}

/// Position at which a stable sort inserts `x`: before the first value greater than it.
pub open spec fn insert_pos(s: Seq<Dec>, x: Dec) -> nat
    decreases s.len(),
{
    if s.len() == 0 {
        0
    } else if s[0].gt_spec(x) {
        0
    } else {
        1 + insert_pos(s.drop_first(), x)
    }
}

pub open spec fn insert_sorted(s: Seq<Dec>, x: Dec) -> Seq<Dec> {
    let k = insert_pos(s, x) as int;
    s.take(k).push(x) + s.skip(k)
}

/// The values in ascending order, equal values in their input order (a stable sort).
pub open spec fn sort_spec(s: Seq<Dec>) -> Seq<Dec>
    decreases s.len(),
{
    if s.len() == 0 {
        s
    } else {
        insert_sorted(sort_spec(s.drop_last()), s.last())
    }
}

/// The first minimum (as `Iterator::min` picks).
pub open spec fn min_of(s: Seq<Dec>) -> Dec
    decreases s.len(),
{
    if s.len() <= 1 {
        if s.len() == 1 {
            s[0]
        } else {
            dzero()
        }
    } else {
        let m = min_of(s.drop_last());
        if s.last().lt_spec(m) {
            s.last()
        } else {
            m
        }
    }
}

/// The last maximum (as `Iterator::max` picks).
pub open spec fn max_of(s: Seq<Dec>) -> Dec
    decreases s.len(),
{
    if s.len() <= 1 {
        if s.len() == 1 {
            s[0]
        } else {
            dzero()
        }
    } else {
        let m = max_of(s.drop_last());
        if s.last().ge_spec(m) {
            s.last()
        } else {
            m
        }
    }
}

pub open spec fn somes(s: Seq<Dec>) -> Seq<Option<Dec>> {
    s.map_values(|d: Dec| Some(d))
}

pub open spec fn sq_devs(s: Seq<Dec>, mean: Dec) -> Seq<Option<Dec>> {
    s.map_values(|v: Dec| omul(v.sub_spec(mean), v.sub_spec(mean)))
}

/// Sum of the 1-based positions of the values equal to `x`, and their number.
pub open spec fn rank_fold(s: Seq<Dec>, x: Dec) -> Option<(Dec, nat)>
    decreases s.len(),
{
    if s.len() == 0 {
        Some((dzero(), 0))
    } else {
        match rank_fold(s.drop_last(), x) {
            Some(p) => if s.last().eq_spec(x) {
                match p.0.add_spec(Dec::lit(s.len() as int, 0)) {
                    Some(t) => Some((t, p.1 + 1)),
                    None => None,
                }
            } else {
                Some(p)
            },
            None => None,
        }
    }
}

// ---------------------------------------------------------------------------
// Specification: ranking
// ---------------------------------------------------------------------------

/// Value of the first metric with the given name.
pub open spec fn find_metric(ms: Seq<MetricValue>, name: Seq<char>) -> Option<Dec>
    decreases ms.len(),
{
    if ms.len() == 0 {
        None
    } else if ms[0].metric_name@ == name {
        Some(ms[0].value)
    } else {
        find_metric(ms.drop_first(), name)
    }
}

/// The values of the metric among the peers that report it, in peer order.
pub open spec fn peer_values(peers: Seq<CompanyMetrics>, name: Seq<char>) -> Seq<Dec>
    decreases peers.len(),
{
    if peers.len() == 0 {
        Seq::empty()
    } else {
        peer_values(peers.drop_last(), name) + match find_metric(peers.last().metrics@, name) {
            Some(v) => seq![v],
            None => Seq::empty(),
        }
    }
}

pub open spec fn names(v: Seq<String>) -> Seq<Seq<char>> {
    v.map_values(|s: String| s@)
}

/// The figures of a ranked metric.
pub struct RankFigures {
    pub median: Dec,
    pub mean: Dec,
    pub min: Dec,
    pub max: Dec,
    pub percentile: Dec,
    pub z_score: Dec,
}

/// The median of sorted values: the middle one, or the mean of the two middle ones.
pub open spec fn median_spec(sorted: Seq<Dec>) -> Option<Dec> {
    let n = sorted.len();
    if n % 2 == 1 {
        Some(sorted[(n / 2) as int])
    } else {
        odiv(sorted[n / 2 - 1].add_spec(sorted[(n / 2) as int]), Some(Dec::lit(2, 0)))
    }
}

/// The ranking of a metric against peer values `pv` (at least one).
pub open spec fn rank_spec(pv: Seq<Dec>, x: Dec, lower_better: bool) -> Option<RankFigures> {
    let n = pv.len();
    let nd = Dec::lit(n as int, 0);
    let mean = odiv(sum_opt(somes(pv)), Some(nd));
    let median = median_spec(sort_spec(pv));
    match (mean, median) {
        (Some(mean), Some(median)) => {
            let var = odiv(sum_opt(sq_devs(pv, mean)), Some(nd));
            let sd = match var {
                Some(v) => sqrt_spec(v),
                None => None,
            };
            let z = match sd {
                Some(s) => if s.eq_spec(dzero()) {
                    Some(dzero())
                } else {
                    odiv(x.sub_spec(mean), Some(s))
                },
                None => None,
            };
            let all = sort_spec(pv.push(x));
            let avg_rank = match rank_fold(all, x) {
                Some(p) => if p.1 > 0 {
                    p.0.div_spec(Dec::lit(p.1 as int, 0))
                } else {
                    Some(Dec::lit(1, 0))
                },
                None => None,
            };
            let raw = omul(odiv(avg_rank, Some(Dec::lit(n as int + 2, 0))), Some(Dec::lit(100, 0)));
            let pct = if lower_better {
                osub(Some(Dec::lit(100, 0)), raw)
            } else {
                raw
            };
            if z is Some && pct is Some {
                Some(
                    RankFigures {
                        median,
                        mean,
                        min: min_of(pv),
                        max: max_of(pv),
                        percentile: pct.unwrap(),
                        z_score: if lower_better {
                            z.unwrap().neg_spec()
                        } else {
                            z.unwrap()
                        },
                    },
                )
            } else {
                None
            }
        },
        _ => None,
    }
}

/// The ranking of a company metric: `None` on overflow, `Some(None)` when no peer reports
/// the metric.
pub open spec fn metric_spec(i: PeerBenchmarkingInput, m: MetricValue) -> Option<Option<RankFigures>> {
    let pv = peer_values(i.peers@, m.metric_name@);
    if pv.len() == 0 {
        Some(None)
    } else {
        match rank_spec(pv, m.value, names(i.lower_is_better@).contains(m.metric_name@)) {
            Some(f) => Some(Some(f)),
            None => None,
        }
    }
}

pub open spec fn position_spec(p: Dec) -> Seq<char> {
    if p.ge_spec(Dec::lit(75, 0)) {
        "Top Quartile"@
    } else if p.ge_spec(Dec::lit(50, 0)) {
        "Above Median"@
    } else if p.ge_spec(Dec::lit(25, 0)) {
        "Below Median"@
    } else {
        "Bottom Quartile"@
    }
}

/// Ranked metrics of the first `k` company metrics, as (name, value, figures), and the
/// running sum of their percentiles.
pub open spec fn ranked(i: PeerBenchmarkingInput, k: nat) -> Option<(Seq<(Seq<char>, Dec, RankFigures)>, Dec)>
    decreases k,
{
    if k == 0 {
        Some((Seq::empty(), dzero()))
    } else {
        match ranked(i, (k - 1) as nat) {
            None => None,
            Some(p) => {
                let m = i.company.metrics@[k - 1];
                match metric_spec(i, m) {
                    None => None,
                    Some(None) => Some(p),
                    Some(Some(f)) => match p.1.add_spec(f.percentile) {
                        Some(s) => Some((p.0.push((m.metric_name@, m.value, f)), s)),
                        None => None,
                    },
                }
            },
        }
    }
}

pub open spec fn all_ranked(i: PeerBenchmarkingInput) -> Option<(Seq<(Seq<char>, Dec, RankFigures)>, Dec)> {
    ranked(i, i.company.metrics@.len())
}

pub open spec fn composite_spec(i: PeerBenchmarkingInput) -> Option<Dec> {
    match all_ranked(i) {
        Some(r) => r.1.div_spec(Dec::lit(r.0.len() as int, 0)),
        None => None,
    }
}

pub open spec fn peer_error(i: PeerBenchmarkingInput) -> Option<ErrView> {
    if i.peers@.len() == 0 {
        Some(insufficient_data("At least one peer company is required."@))
    } else if i.company.metrics@.len() == 0 {
        Some(insufficient_data("Company must have at least one metric."@))
    } else {
        match all_ranked(i) {
            None => Some(overflow()),
            Some(r) => if r.0.len() == 0 {
                Some(insufficient_data("No matching metrics found between company and peers."@))
            } else if composite_spec(i) is None {
                Some(overflow())
            } else {
                None
            },
        }
    }
}

pub open spec fn rating_spec(c: Dec) -> Seq<char> {
    if c.ge_spec(Dec::lit(80, 0)) {
        "Leader"@
    } else if c.ge_spec(Dec::lit(60, 0)) {
        "Above Average"@
    } else if c.ge_spec(Dec::lit(40, 0)) {
        "Average"@
    } else if c.ge_spec(Dec::lit(20, 0)) {
        "Below Average"@
    } else {
        "Laggard"@
    }
}

pub open spec fn ranking_view(r: MetricRanking) -> (Seq<char>, Dec, RankFigures) {
    (
        r.metric_name@,
        r.company_value,
        RankFigures {
            median: r.peer_median,
            mean: r.peer_mean,
            min: r.peer_min,
            max: r.peer_max,
            percentile: r.percentile,
            z_score: r.z_score,
        },
    )
}

pub open spec fn strengths_spec(rs: Seq<(Seq<char>, Dec, RankFigures)>) -> Seq<Seq<char>>
    decreases rs.len(),
{
    if rs.len() == 0 {
        Seq::empty()
    } else {
        strengths_spec(rs.drop_last()) + if rs.last().2.percentile.ge_spec(Dec::lit(75, 0)) {
            seq![rs.last().0]
        } else {
            Seq::empty()
        }
    }
}

pub open spec fn weaknesses_spec(rs: Seq<(Seq<char>, Dec, RankFigures)>) -> Seq<Seq<char>>
    decreases rs.len(),
{
    if rs.len() == 0 {
        Seq::empty()
    } else {
        weaknesses_spec(rs.drop_last()) + if !rs.last().2.percentile.ge_spec(Dec::lit(75, 0))
            && rs.last().2.percentile.lt_spec(Dec::lit(25, 0)) {
            seq![rs.last().0]
        } else {
            Seq::empty()
        }
    }
}

// ---------------------------------------------------------------------------
// Implementation
// ---------------------------------------------------------------------------

fn str_of(s: &str) -> (r: String)
    ensures
        r@ == s@,
{
    String::from_str(s)
}

/// Square root by 30 Newton steps from x / 2; zero for x <= 0.
pub fn decimal_sqrt(x: Dec) -> (r: FinResult<Dec>)
    ensures
        r == lift(sqrt_spec(x)),
{
    let two = Dec::new(2, 0);
    if x.le(&Dec::zero()) {
        return Ok(Dec::zero());
    }
    let mut guess = x.div(&two)?;
    if guess.eq(&Dec::zero()) {
        guess = Dec::one();
    }
    let mut k: u32 = 0;
    while k < 30
        invariant
            k <= 30,
            two == Dec::lit(2, 0),
            sqrt_spec(x) == sqrt_iter(x, guess, k as nat),
        decreases 30 - k,
    {
        guess = guess.add(&x.div(&guess)?)?.div(&two)?;
        k = k + 1;
    }
    Ok(guess)
}

proof fn lemma_insert_pos(s: Seq<Dec>, x: Dec, j: int)
    requires
        0 <= j <= s.len(),
        forall|q: int| 0 <= q < j ==> !(#[trigger] s[q]).gt_spec(x),
    ensures
        j < s.len() && s[j].gt_spec(x) ==> insert_pos(s, x) == j,
        j == s.len() ==> insert_pos(s, x) == j,
    decreases j,
{
    if j > 0 {
        assert forall|q: int| 0 <= q < j - 1 implies !(#[trigger] s.drop_first()[q]).gt_spec(x) by {
            assert(s.drop_first()[q] == s[q + 1]);
        }
        lemma_insert_pos(s.drop_first(), x, j - 1);
        if j < s.len() {
            assert(s.drop_first()[j - 1] == s[j]);
        }
    }
}

/// A stable insertion sort by value.
fn sort_values(v: &Vec<Dec>) -> (r: Vec<Dec>)
    ensures
        r@ == sort_spec(v@),
{
    let mut out: Vec<Dec> = Vec::new();
    let mut j: usize = 0;
    while j < v.len()
        invariant
            j <= v@.len(),
            out@ == sort_spec(v@.take(j as int)),
            out@.len() == j,
        decreases v@.len() - j,
    {
        let x = v[j];
        let mut k: usize = 0;
        while k < out.len() && !out[k].gt(&x)
            invariant
                k <= out@.len(),
                forall|q: int| 0 <= q < k ==> !(#[trigger] out@[q]).gt_spec(x),
            decreases out@.len() - k,
        {
            k = k + 1;
        }
        proof {
            lemma_insert_pos(out@, x, k as int);
            assert(v@.take(j + 1).drop_last() =~= v@.take(j as int));
            assert(v@.take(j + 1).last() == x);
        }
        let ghost before = out@;
        out.insert(k, x);
        proof {
            assert(out@ =~= insert_sorted(before, x));
        }
        j = j + 1;
    }
    proof {
        assert(v@.take(v@.len() as int) =~= v@);
    }
    out
}

fn min_exec(v: &Vec<Dec>) -> (r: Dec)
    requires
        v@.len() > 0,
    ensures
        r == min_of(v@),
{
    let mut m = v[0];
    let mut j: usize = 1;
    while j < v.len()
        invariant
            1 <= j <= v@.len(),
            m == min_of(v@.take(j as int)),
        decreases v@.len() - j,
    {
        proof {
            assert(v@.take(j + 1).drop_last() =~= v@.take(j as int));
        }
        if v[j].lt(&m) {
            m = v[j];
        }
        j = j + 1;
    }
    proof {
        assert(v@.take(v@.len() as int) =~= v@);
    }
    m
}

fn max_exec(v: &Vec<Dec>) -> (r: Dec)
    requires
        v@.len() > 0,
    ensures
        r == max_of(v@),
{
    let mut m = v[0];
    let mut j: usize = 1;
    while j < v.len()
        invariant
            1 <= j <= v@.len(),
            m == max_of(v@.take(j as int)),
        decreases v@.len() - j,
    {
        proof {
            assert(v@.take(j + 1).drop_last() =~= v@.take(j as int));
        }
        if v[j].ge(&m) {
            m = v[j];
        }
        j = j + 1;
    }
    proof {
        assert(v@.take(v@.len() as int) =~= v@);
    }
    m
}

fn sum_exec(terms_of: &Vec<Dec>, mean: Option<Dec>) -> (r: FinResult<Dec>)
    ensures
        mean is None ==> r == lift(sum_opt(somes(terms_of@))),
        mean matches Some(mu) ==> r == lift(sum_opt(sq_devs(terms_of@, mu))),
{
    let ghost terms = match mean {
        Some(mu) => sq_devs(terms_of@, mu),
        None => somes(terms_of@),
    };
    let mut acc = Dec::zero();
    let mut j: usize = 0;
    while j < terms_of.len()
        invariant
            j <= terms_of@.len(),
            terms == match mean {
                Some(mu) => sq_devs(terms_of@, mu),
                None => somes(terms_of@),
            },
            sum_opt(terms.take(j as int)) == Some(acc),
        decreases terms_of@.len() - j,
    {
        proof {
            assert(terms.take(j + 1).drop_last() =~= terms.take(j as int));
        }
        let v = terms_of[j];
        let t = match mean {
            Some(mu) => match v.sub(&mu) {
                Ok(d) => d.mul(&d),
                Err(e) => Err(e),
            },
            None => Ok(v),
        };
        let t = match t {
            Ok(t) => t,
            Err(e) => {
                proof {
                    lemma_sum_opt_none(terms, j as int);
                }
                return Err(e);
            },
        };
        acc = match acc.add(&t) {
            Ok(x) => x,
            Err(e) => {
                proof {
                    lemma_sum_opt_none(terms, j as int);
                }
                return Err(e);
            },
        };
        j = j + 1;
    }
    proof {
        assert(terms.take(terms.len() as int) =~= terms);
    }
    Ok(acc)
}

fn rank_exec(all: &Vec<Dec>, x: Dec) -> (r: FinResult<(Dec, u64)>)
    requires
        all@.len() < u64::MAX,
    ensures
        r is Err <==> rank_fold(all@, x) is None,
        r is Err ==> r == Err::<(Dec, u64), FinError>(FinError::ArithmeticOverflow),
        r matches Ok(t) ==> rank_fold(all@, x) == Some((t.0, t.1 as nat)),
{
    let mut sum = Dec::zero();
    let mut count: u64 = 0;
    let mut j: usize = 0;
    while j < all.len()
        invariant
            j <= all@.len(),
            all@.len() < u64::MAX,
            count <= j,
            rank_fold(all@.take(j as int), x) == Some((sum, count as nat)),
        decreases all@.len() - j,
    {
        proof {
            assert(all@.take(j + 1).drop_last() =~= all@.take(j as int));
        }
        if all[j].eq(&x) {
            sum = match sum.add(&Dec::from_u64((j + 1) as u64)) {
                Ok(s) => s,
                Err(e) => {
                    proof {
                        lemma_rank_none(all@, x, (j + 1) as nat);
                    }
                    return Err(e);
                },
            };
            count = count + 1;
        }
        j = j + 1;
    }
    proof {
        assert(all@.take(all@.len() as int) =~= all@);
    }
    Ok((sum, count))
}

proof fn lemma_rank_none(s: Seq<Dec>, x: Dec, k: nat)
    requires
        k <= s.len(),
        rank_fold(s.take(k as int), x) is None,
    ensures
        rank_fold(s, x) is None,
    decreases s.len() - k,
{
    if k == s.len() {
        assert(s.take(k as int) =~= s);
    } else {
        assert(s.take((k + 1) as int).drop_last() =~= s.take(k as int));
        lemma_rank_none(s, x, k + 1);
    }
}

fn rank_metric(pv: &Vec<Dec>, x: Dec, lower_better: bool) -> (r: FinResult<RankFigures>)
    requires
        pv@.len() > 0,
        pv@.len() < u64::MAX - 2,
    ensures
        r is Err <==> rank_spec(pv@, x, lower_better) is None,
        r is Err ==> r == Err::<RankFigures, FinError>(FinError::ArithmeticOverflow),
        r matches Ok(f) ==> rank_spec(pv@, x, lower_better) == Some(f),
{
    let n = pv.len();
    let nd = Dec::from_u64(n as u64);
    let mean = sum_exec(pv, None)?.div(&nd)?;
    let sorted = sort_values(pv);
    proof {
        lemma_sort_len(pv@);
    }
    let two = Dec::new(2, 0);
    let median = if n % 2 == 1 {
        sorted[n / 2]
    } else {
        sorted[n / 2 - 1].add(&sorted[n / 2])?.div(&two)?
    };
    let var = sum_exec(pv, Some(mean))?.div(&nd)?;
    let sd = decimal_sqrt(var)?;
    let z = if sd.eq(&Dec::zero()) {
        Dec::zero()
    } else {
        x.sub(&mean)?.div(&sd)?
    };
    let mut with_x = pv.clone();
    with_x.push(x);
    let all = sort_values(&with_x);
    proof {
        lemma_sort_len(with_x@);
    }
    let (rank_sum, rank_count) = rank_exec(&all, x)?;
    let avg_rank = if rank_count > 0 {
        rank_sum.div(&Dec::from_u64(rank_count))?
    } else {
        Dec::one()
    };
    let hundred = Dec::new(100, 0);
    let raw = avg_rank.div(&Dec::from_u64(n as u64 + 2))?.mul(&hundred)?;
    let pct = if lower_better {
        hundred.sub(&raw)?
    } else {
        raw
    };
    Ok(
        RankFigures {
            median,
            mean,
            min: min_exec(pv),
            max: max_exec(pv),
            percentile: pct,
            z_score: if lower_better {
                z.neg()
            } else {
                z
            },
        },
    )
}

proof fn lemma_sort_len(s: Seq<Dec>)
    ensures
        sort_spec(s).len() == s.len(),
    decreases s.len(),
{
    if s.len() > 0 {
        lemma_sort_len(s.drop_last());
        lemma_insert_pos_le(sort_spec(s.drop_last()), s.last());
    }
}

proof fn lemma_insert_pos_le(s: Seq<Dec>, x: Dec)
    ensures
        insert_pos(s, x) <= s.len(),
    decreases s.len(),
{
    if s.len() > 0 && !s[0].gt_spec(x) {
        lemma_insert_pos_le(s.drop_first(), x);
    }
}

/// Value of the first metric with the given name.
fn find_metric_exec(ms: &Vec<MetricValue>, name: &String) -> (r: Option<Dec>)
    ensures
        r == find_metric(ms@, name@),
{
    let mut j: usize = 0;
    proof {
        assert(ms@.skip(0) =~= ms@);
    }
    while j < ms.len()
        invariant
            j <= ms@.len(),
            find_metric(ms@, name@) == find_metric(ms@.skip(j as int), name@),
        decreases ms@.len() - j,
    {
        proof {
            assert(ms@.skip(j as int)[0] == ms@[j as int]);
            assert(ms@.skip(j as int).drop_first() =~= ms@.skip(j + 1));
        }
        if ms[j].metric_name == *name {
            return Some(ms[j].value);
        }
        j = j + 1;
    }
    None
}

fn peer_values_exec(peers: &Vec<CompanyMetrics>, name: &String) -> (r: Vec<Dec>)
    ensures
        r@ == peer_values(peers@, name@),
        r@.len() <= peers@.len(),
{
    let mut out: Vec<Dec> = Vec::new();
    let mut j: usize = 0;
    while j < peers.len()
        invariant
            j <= peers@.len(),
            out@ == peer_values(peers@.take(j as int), name@),
            out@.len() <= j,
        decreases peers@.len() - j,
    {
        proof {
            assert(peers@.take(j + 1).drop_last() =~= peers@.take(j as int));
        }
        match find_metric_exec(&peers[j].metrics, name) {
            Some(v) => {
                out.push(v);
            },
            None => {},
        }
        proof {
            assert(out@ =~= peer_values(peers@.take(j + 1), name@));
        }
        j = j + 1;
    }
    proof {
        assert(peers@.take(peers@.len() as int) =~= peers@);
    }
    out
}

fn contains_name(v: &Vec<String>, name: &String) -> (r: bool)
    ensures
        r == names(v@).contains(name@),
{
    let mut j: usize = 0;
    while j < v.len()
        invariant
            j <= v@.len(),
            forall|q: int| 0 <= q < j ==> (#[trigger] v@[q])@ != name@,
        decreases v@.len() - j,
    {
        if v[j] == *name {
            proof {
                assert(names(v@)[j as int] == name@);
            }
            return true;
        }
        j = j + 1;
    }
    proof {
        if names(v@).contains(name@) {
            let q = choose|q: int| 0 <= q < names(v@).len() && names(v@)[q] == name@;
            assert(v@[q]@ == name@);
        }
    }
    false
}

fn position(p: Dec) -> (r: String)
    ensures
        r@ == position_spec(p),
{
    if p.ge(&Dec::new(75, 0)) {
        str_of("Top Quartile")
    } else if p.ge(&Dec::new(50, 0)) {
        str_of("Above Median")
    } else if p.ge(&Dec::new(25, 0)) {
        str_of("Below Median")
    } else {
        str_of("Bottom Quartile")
    }
}

proof fn lemma_ranked_none(i: PeerBenchmarkingInput, k: nat, n: nat)
    requires
        k <= n,
        ranked(i, k) is None,
    ensures
        ranked(i, n) is None,
    decreases n - k,
{
    if k < n {
        lemma_ranked_none(i, k + 1, n);
    }
}

/// Rank each of the company's metrics against the peers that report it: peer median,
/// mean, minimum, maximum, percentile, z-score and relative position; then the composite
/// percentile and rating, and the metrics in the top and bottom quartiles.
pub fn calculate_peer_benchmarking(input: &PeerBenchmarkingInput) -> (r: FinResult<PeerBenchmarkingOutput>)
    requires
        input.peers@.len() < u64::MAX - 2,
        input.company.metrics@.len() < u64::MAX,
    ensures
        r is Err <==> peer_error(*input) is Some,
        r matches Err(e) ==> Some(err_view(e)) == peer_error(*input),
        r matches Ok(out) ==> {
            let rs = all_ranked(*input).unwrap().0;
            let c = composite_spec(*input).unwrap();
            &&& out.metric_rankings@.map_values(|m: MetricRanking| ranking_view(m)) == rs
            &&& forall|k: int|
                0 <= k < rs.len() ==> (#[trigger] out.metric_rankings@[k]).relative_position@
                    == position_spec(rs[k].2.percentile)
            &&& out.composite_percentile == c
            &&& out.composite_rating@ == rating_spec(c)
            &&& names(out.strengths@) == strengths_spec(rs)
            &&& names(out.weaknesses@) == weaknesses_spec(rs)
        },
{
    if input.peers.len() == 0 {
        return Err(FinError::InsufficientData(str_of("At least one peer company is required.")));
    }
    if input.company.metrics.len() == 0 {
        return Err(FinError::InsufficientData(str_of("Company must have at least one metric.")));
    }
    let ms = &input.company.metrics;
    let mut rankings: Vec<MetricRanking> = Vec::new();
    let mut sum = Dec::zero();
    let mut count: u64 = 0;
    let mut strengths: Vec<String> = Vec::new();
    let mut weaknesses: Vec<String> = Vec::new();
    let seventy_five = Dec::new(75, 0);
    let twenty_five = Dec::new(25, 0);
    let mut j: usize = 0;
    while j < ms.len()
        invariant
            j <= ms@.len(),
            ms@ == input.company.metrics@,
            ms@.len() < u64::MAX,
            input.peers@.len() < u64::MAX - 2,
            input.peers@.len() > 0,
            seventy_five == Dec::lit(75, 0),
            twenty_five == Dec::lit(25, 0),
            ranked(*input, j as nat) matches Some(p) && rankings@.map_values(
                |m: MetricRanking| ranking_view(m),
            ) == p.0 && sum == p.1,
            count == rankings@.len(),
            count <= j,
            forall|k: int|
                0 <= k < rankings@.len() ==> (#[trigger] rankings@[k]).relative_position@
                    == position_spec(rankings@[k].percentile),
            names(strengths@) == strengths_spec(ranked(*input, j as nat).unwrap().0),
            names(weaknesses@) == weaknesses_spec(ranked(*input, j as nat).unwrap().0),
        decreases ms@.len() - j,
    {
        let m = &ms[j];
        let pv = peer_values_exec(&input.peers, &m.metric_name);
        let ghost prev = ranked(*input, j as nat).unwrap();
        if pv.len() > 0 {
            let lower = contains_name(&input.lower_is_better, &m.metric_name);
            let f = match rank_metric(&pv, m.value, lower) {
                Ok(f) => f,
                Err(e) => {
                    proof {
                        assert(ranked(*input, (j + 1) as nat) is None);
                        lemma_ranked_none(*input, (j + 1) as nat, ms@.len() as nat);
                    }
                    return Err(e);
                },
            };
            sum = match sum.add(&f.percentile) {
                Ok(s) => s,
                Err(e) => {
                    proof {
                        assert(ranked(*input, (j + 1) as nat) is None);
                        lemma_ranked_none(*input, (j + 1) as nat, ms@.len() as nat);
                    }
                    return Err(e);
                },
            };
            let pct = f.percentile;
            let ghost s0 = strengths@;
            let ghost w0 = weaknesses@;
            if pct.ge(&seventy_five) {
                strengths.push(m.metric_name.clone());
                proof {
                    assert(names(strengths@) =~= names(s0).push(m.metric_name@));
                }
            } else if pct.lt(&twenty_five) {
                weaknesses.push(m.metric_name.clone());
                proof {
                    assert(names(weaknesses@) =~= names(w0).push(m.metric_name@));
                }
            }
            count = count + 1;
            let ghost r0 = rankings@;
            let mr = MetricRanking {
                metric_name: m.metric_name.clone(),
                company_value: m.value,
                peer_median: f.median,
                peer_mean: f.mean,
                peer_min: f.min,
                peer_max: f.max,
                percentile: pct,
                z_score: f.z_score,
                relative_position: position(pct),
            };
            rankings.push(mr);
            proof {
                let cur = ranked(*input, (j + 1) as nat).unwrap();
                assert(cur.0 == prev.0.push((m.metric_name@, m.value, f)));
                assert(rankings@.map_values(|q: MetricRanking| ranking_view(q)) =~= r0.map_values(
                    |q: MetricRanking| ranking_view(q),
                ).push(ranking_view(mr)));
                assert(cur.0.drop_last() =~= prev.0);
                assert(names(strengths@) =~= strengths_spec(cur.0));
                assert(names(weaknesses@) =~= weaknesses_spec(cur.0));
            }
        }
        j = j + 1;
    }
    proof {
        assert(ranked(*input, ms@.len() as nat) == all_ranked(*input));
    }
    if count == 0 {
        return Err(
            FinError::InsufficientData(
                str_of("No matching metrics found between company and peers."),
            ),
        );
    }
    let composite = sum.div(&Dec::from_u64(count))?;
    let rating = if composite.ge(&Dec::new(80, 0)) {
        str_of("Leader")
    } else if composite.ge(&Dec::new(60, 0)) {
        str_of("Above Average")
    } else if composite.ge(&Dec::new(40, 0)) {
        str_of("Average")
    } else if composite.ge(&Dec::new(20, 0)) {
        str_of("Below Average")
    } else {
        str_of("Laggard")
    };
    Ok(
        PeerBenchmarkingOutput {
            metric_rankings: rankings,
            composite_percentile: composite,
            composite_rating: rating,
            strengths,
            weaknesses,
        },
    )
}

/// The values are in ascending order.
pub open spec fn ascending(s: Seq<Dec>) -> bool {
    forall|a: int, b: int| 0 <= a < b < s.len() ==> (#[trigger] s[a]).le_spec(#[trigger] s[b])
}

proof fn lemma_insert_pos_bounds(s: Seq<Dec>, x: Dec)
    ensures
        insert_pos(s, x) <= s.len(),
        forall|a: int| 0 <= a < insert_pos(s, x) ==> !(#[trigger] s[a]).gt_spec(x),
        insert_pos(s, x) < s.len() ==> s[insert_pos(s, x) as int].gt_spec(x),
    decreases s.len(),
{
    if s.len() > 0 && !s[0].gt_spec(x) {
        let t = s.drop_first();
        lemma_insert_pos_bounds(t, x);
        assert forall|a: int| 0 <= a < insert_pos(s, x) implies !(#[trigger] s[a]).gt_spec(x) by {
            if a > 0 {
                assert(s[a] == t[a - 1]);
            }
        }
    }
}

proof fn lemma_insert_sorted(s: Seq<Dec>, x: Dec)
    requires
        ascending(s),
    ensures
        ascending(insert_sorted(s, x)),
        insert_sorted(s, x).to_multiset() == s.to_multiset().insert(x),
{
    let k = insert_pos(s, x) as int;
    lemma_insert_pos_bounds(s, x);
    let r = insert_sorted(s, x);
    assert(r =~= s.insert(k, x));
    vstd::seq_lib::to_multiset_insert(s, k, x);
    assert forall|a: int, b: int| 0 <= a < b < r.len() implies (#[trigger] r[a]).le_spec(#[trigger] r[b]) by {
        if b < k {
            assert(r[a] == s[a] && r[b] == s[b]);
        } else if b == k {
            assert(r[a] == s[a] && r[b] == x);
            Dec::lemma_not_lt(x, s[a]);
        } else if a < k {
            assert(r[a] == s[a] && r[b] == s[b - 1]);
        } else if a == k {
            assert(r[a] == x && r[b] == s[b - 1]);
            if b - 1 > k {
                assert(s[k].le_spec(s[b - 1]));
            } else {
                assert(s[k].le_spec(s[k]));
            }
            Dec::lemma_lt_le_trans(x, s[k], s[b - 1]);
        } else {
            assert(r[a] == s[a - 1] && r[b] == s[b - 1]);
        }
    }
}

proof fn lemma_sort_spec(s: Seq<Dec>)
    ensures
        ascending(sort_spec(s)),
        sort_spec(s).to_multiset() == s.to_multiset(),
    decreases s.len(),
{
    if s.len() > 0 {
        lemma_sort_spec(s.drop_last());
        lemma_insert_sorted(sort_spec(s.drop_last()), s.last());
        assert(s.drop_last().push(s.last()) =~= s);
        vstd::seq_lib::to_multiset_build(s.drop_last(), s.last());
    }
}

proof fn lemma_min_max(s: Seq<Dec>)
    requires
        s.len() > 0,
    ensures
        s.contains(min_of(s)),
        s.contains(max_of(s)),
        forall|j: int| 0 <= j < s.len() ==> min_of(s).le_spec(#[trigger] s[j]) && s[j].le_spec(max_of(s)),
    decreases s.len(),
{
    if s.len() == 1 {
        assert(s[0] == s[0]);
        assert(s[0].le_spec(s[0]));
    } else {
        let t = s.drop_last();
        lemma_min_max(t);
        let (m0, x0) = (min_of(t), max_of(t));
        let last = s.last();
        assert(s[s.len() - 1] == last);
        let ti = choose|j: int| 0 <= j < t.len() && t[j] == m0;
        assert(s[ti] == t[ti]);
        let tj = choose|j: int| 0 <= j < t.len() && t[j] == x0;
        assert(s[tj] == t[tj]);
        Dec::lemma_not_lt(last, m0);
        Dec::lemma_not_lt(x0, last);
        assert(last.le_spec(last));
        assert forall|j: int| 0 <= j < s.len() implies min_of(s).le_spec(#[trigger] s[j]) && s[j].le_spec(
            max_of(s),
        ) by {
            if j < s.len() - 1 {
                assert(s[j] == t[j]);
                if last.lt_spec(m0) {
                    Dec::lemma_lt_le_trans(last, m0, s[j]);
                }
                if !last.ge_spec(x0) {
                    assert(x0.lt_spec(last) || !x0.lt_spec(last));
                } else {
                    Dec::lemma_le_trans(s[j], x0, last);
                }
            }
        }
    }
}

proof fn lemma_rank_fold(s: Seq<Dec>, x: Dec)
    requires
        rank_fold(s, x) is Some,
    ensures
        rank_fold(s, x)->Some_0.1 <= s.len(),
        (exists|j: int| 0 <= j < s.len() && (#[trigger] s[j]).eq_spec(x)) ==> rank_fold(s, x)->Some_0.1 >= 1,
    decreases s.len(),
{
    if s.len() > 0 {
        let t = s.drop_last();
        lemma_rank_fold(t, x);
        if exists|j: int| 0 <= j < s.len() && (#[trigger] s[j]).eq_spec(x) {
            let j = choose|j: int| 0 <= j < s.len() && (#[trigger] s[j]).eq_spec(x);
            if j < s.len() - 1 {
                assert(t[j] == s[j]);
            } else {
                assert(s.last() == s[j]);
            }
        }
    }
}

/// The order a ranking rests on: sorting puts the values in ascending order and keeps each
/// of them as often as it occurs; the minimum and maximum are values of the list, at most
/// and at least every value of it; and among the peer values with the company's value
/// added, the company's value occurs at least once and at most once per value, so its
/// average rank is taken over one to n + 1 positions.
pub proof fn lemma_ranking_order(pv: Seq<Dec>, x: Dec)
    requires
        pv.len() > 0,
    ensures
        ascending(sort_spec(pv)),
        sort_spec(pv).to_multiset() == pv.to_multiset(),
        pv.contains(min_of(pv)),
        pv.contains(max_of(pv)),
        forall|j: int| 0 <= j < pv.len() ==> min_of(pv).le_spec(#[trigger] pv[j]) && pv[j].le_spec(max_of(pv)),
        rank_fold(sort_spec(pv.push(x)), x) matches Some(p) ==> 1 <= p.1 <= pv.len() + 1,
{
    lemma_sort_spec(pv);
    lemma_min_max(pv);
    let all = sort_spec(pv.push(x));
    lemma_sort_spec(pv.push(x));
    vstd::seq_lib::to_multiset_build(pv, x);
    vstd::seq_lib::to_multiset_len(all);
    vstd::seq_lib::to_multiset_len(pv.push(x));
    vstd::seq_lib::to_multiset_contains(all, x);
    assert(all.to_multiset().count(x) > 0);
    assert(all.contains(x));
    let j = choose|j: int| 0 <= j < all.len() && all[j] == x;
    assert(all[j].eq_spec(x));
    if rank_fold(all, x) is Some {
        lemma_rank_fold(all, x);
    }
}

} // verus!
