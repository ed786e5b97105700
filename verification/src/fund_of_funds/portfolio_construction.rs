//! Fund-of-funds portfolio construction: totals, NAV-weighted IRR and TVPI, allocation by
//! strategy, vintage and geography with Herfindahl-Hirschman concentration, a
//! diversification score, and the allocation limits that are exceeded.
use vstd::prelude::*;

use std::collections::HashMap;

use crate::dec::{
    dzero, group_dec, lift, nat_digits, odiv, ratio_or_zero, ratio_or_zero_exec, sum_opt, sum_seq, sum_vec, u32_to_string,
    Dec,
};
use crate::error::{err_view, insufficient_data, invalid_input, overflow, ErrView, FinError, FinResult};

verus! {

broadcast use group_dec;

pub struct PortfolioFund {
    pub name: String,
    /// Investment strategy ("Buyout", "VC", ...).
    pub strategy: String,
    pub vintage: u32,
    /// Geographic focus.
    pub geography: String,
    pub commitment: Dec,
    pub nav: Dec,
    pub irr: Dec,
    pub tvpi: Dec,
}

pub struct FofPortfolioInput {
    pub funds: Vec<PortfolioFund>,
    /// Strategy correlations keyed "Strategy1:Strategy2"; carried, not used by the analysis.
    pub strategy_correlations: Option<HashMap<String, Dec>>,
    /// Largest share of NAV allowed in one strategy.
    pub max_strategy_pct: Dec,
    /// Largest share of NAV allowed in one vintage.
    pub max_vintage_pct: Dec,
    /// Largest share of NAV allowed in one geography.
    pub max_geography_pct: Dec,
}

/// One bucket of an allocation.
pub struct AllocationBreakdown {
    pub label: String,
    /// Share of total NAV.
    pub pct: Dec,
    /// pct squared.
    pub hhi_contribution: Dec,
}

/// An allocation limit that is exceeded.
pub struct ConstraintViolation {
    pub constraint: String,
    pub actual: Dec,
    pub limit: Dec,
}

pub struct FofPortfolioOutput {
    pub total_commitment: Dec,
    pub total_nav: Dec,
    /// NAV-weighted average IRR.
    pub weighted_avg_irr: Dec,
    /// NAV-weighted average TVPI.
    pub weighted_avg_tvpi: Dec,
    pub strategy_allocation: Vec<AllocationBreakdown>,
    pub vintage_allocation: Vec<AllocationBreakdown>,
    pub geography_allocation: Vec<AllocationBreakdown>,
    /// Herfindahl-Hirschman index of the strategy allocation.
    pub concentration_hhi: Dec,
    /// 0 to 100; higher is more diversified.
    pub diversification_score: Dec,
    pub constraint_violations: Vec<ConstraintViolation>,
}

/// An allocation bucket as values.
pub struct AllocView {
    pub label: Seq<char>,
    pub pct: Dec,
    pub hhi: Dec,
}

/// A violation as values.
pub struct ViolationView {
    pub constraint: Seq<char>,
    pub actual: Dec,
    pub limit: Dec,
}

/// The analysis as values.
pub struct FofFigures {
    pub total_commitment: Dec,
    pub total_nav: Dec,
    pub weighted_irr: Dec,
    pub weighted_tvpi: Dec,
    pub strategy: Seq<AllocView>,
    pub vintage: Seq<AllocView>,
    pub geography: Seq<AllocView>,
    pub hhi: Dec,
    pub score: Dec,
    pub violations: Seq<ViolationView>,
}

// ---------------------------------------------------------------------------
// Specification
// ---------------------------------------------------------------------------

pub open spec fn fund_error(f: PortfolioFund) -> Option<ErrView> {
    if f.commitment.lt_spec(dzero()) {
        Some(invalid_input("funds."@ + f.name@ + ".commitment"@, "Commitment cannot be negative."@))
    } else if f.nav.lt_spec(dzero()) {
        Some(invalid_input("funds."@ + f.name@ + ".nav"@, "NAV cannot be negative."@))
    } else if f.tvpi.lt_spec(dzero()) {
        Some(invalid_input("funds."@ + f.name@ + ".tvpi"@, "TVPI cannot be negative."@))
    } else {
        None
    }
}

/// The error of the first fund that raises one, from index `k` on.
pub open spec fn funds_error(s: Seq<PortfolioFund>, k: nat) -> Option<ErrView>
    decreases s.len() - k,
{
    if k >= s.len() {
        None
    } else if fund_error(s[k as int]) is Some {
        fund_error(s[k as int])
    } else {
        funds_error(s, k + 1)
    }
}

/// A limit must lie in (0, 1].
pub open spec fn limit_ok(x: Dec) -> bool {
    !(x.le_spec(dzero()) || x.gt_spec(Dec::lit(1, 0)))
}

pub open spec fn fof_validation(i: FofPortfolioInput) -> Option<ErrView> {
    if i.funds@.len() == 0 {
        Some(insufficient_data("At least one fund is required for portfolio analysis."@))
    } else if funds_error(i.funds@, 0) is Some {
        funds_error(i.funds@, 0)
    } else if !limit_ok(i.max_strategy_pct) {
        Some(invalid_input("max_strategy_pct"@, "Max strategy allocation must be in (0, 1]."@))
    } else if !limit_ok(i.max_vintage_pct) {
        Some(invalid_input("max_vintage_pct"@, "Max vintage allocation must be in (0, 1]."@))
    } else if !limit_ok(i.max_geography_pct) {
        Some(invalid_input("max_geography_pct"@, "Max geography allocation must be in (0, 1]."@))
    } else {
        None
    }
}

/// Index of the bucket labelled `key`, from index `k` on.
pub open spec fn bucket_index(b: Seq<(Seq<char>, Dec)>, key: Seq<char>, k: nat) -> Option<nat>
    decreases b.len() - k,
{
    if k >= b.len() {
        None
    } else if b[k as int].0 == key {
        Some(k)
    } else {
        bucket_index(b, key, k + 1)
    }
}

/// NAV per label over the first `k` funds, labels in order of first appearance.
pub open spec fn group_navs(keys: Seq<Seq<char>>, navs: Seq<Dec>, k: nat) -> Option<Seq<(Seq<char>, Dec)>>
    decreases k,
{
    if k == 0 {
        Some(Seq::empty())
    } else {
        match group_navs(keys, navs, (k - 1) as nat) {
            None => None,
            Some(b) => {
                let key = keys[k - 1];
                match bucket_index(b, key, 0) {
                    Some(j) => match b[j as int].1.add_spec(navs[k - 1]) {
                        None => None,
                        Some(s) => Some(b.update(j as int, (key, s))),
                    },
                    None => match dzero().add_spec(navs[k - 1]) {
                        None => None,
                        Some(s) => Some(b.push((key, s))),
                    },
                }
            },
        }
    }
}

/// The first `k` buckets as shares of `total` (zero when `total` is zero), with their squares.
pub open spec fn alloc_entries(b: Seq<(Seq<char>, Dec)>, total: Dec, k: nat) -> Option<Seq<AllocView>>
    decreases k,
{
    if k == 0 {
        Some(Seq::empty())
    } else {
        match alloc_entries(b, total, (k - 1) as nat) {
            None => None,
            Some(acc) => match ratio_or_zero(b[k - 1].1, total) {
                None => None,
                Some(p) => match p.mul_spec(p) {
                    None => None,
                    Some(h) => Some(acc.push(AllocView { label: b[k - 1].0, pct: p, hhi: h })),
                },
            },
        }
    }
}

/// Where a stable sort by descending share puts `x`: before the first smaller share.
pub open spec fn alloc_insert_pos(s: Seq<AllocView>, x: AllocView) -> nat
    decreases s.len(),
{
    if s.len() == 0 {
        0
    } else if s[0].pct.lt_spec(x.pct) {
        0
    } else {
        1 + alloc_insert_pos(s.drop_first(), x)
    }
}

/// The buckets by descending share, equal shares in their input order.
pub open spec fn alloc_sort(s: Seq<AllocView>) -> Seq<AllocView>
    decreases s.len(),
{
    if s.len() == 0 {
        s
    } else {
        let t = alloc_sort(s.drop_last());
        let k = alloc_insert_pos(t, s.last()) as int;
        t.take(k).push(s.last()) + t.skip(k)
    }
}

/// Allocation by the funds' labels: NAV per label as a share of `total`, largest first.
pub open spec fn allocation_spec(keys: Seq<Seq<char>>, navs: Seq<Dec>, total: Dec) -> Option<Seq<AllocView>> {
    match group_navs(keys, navs, keys.len()) {
        None => None,
        Some(b) => match alloc_entries(b, total, b.len()) {
            None => None,
            Some(e) => Some(alloc_sort(e)),
        },
    }
}

/// Descending by share.
pub open spec fn sorted_desc(s: Seq<AllocView>) -> bool {
    forall|i: int, j: int| 0 <= i < j < s.len() ==> !(#[trigger] s[i]).pct.lt_spec(#[trigger] s[j].pct)
}

/// The violations of `limit` among the first `k` buckets, in order.
pub open spec fn violations_of(a: Seq<AllocView>, limit: Dec, kind: Seq<char>, k: nat) -> Seq<ViolationView>
    decreases k,
{
    if k == 0 {
        Seq::empty()
    } else {
        let acc = violations_of(a, limit, kind, (k - 1) as nat);
        let x = a[k - 1];
        if x.pct.gt_spec(limit) {
            acc.push(ViolationView { constraint: kind + " '"@ + x.label + "' exceeds max"@, actual: x.pct, limit })
        } else {
            acc
        }
    }
}

/// 100 * (1 - hhi) / (1 - 1/n), clamped to [0, 100]; zero for at most one strategy.
pub open spec fn diversification_spec(n: u32, hhi: Dec) -> Option<Dec> {
    if n <= 1 {
        Some(dzero())
    } else {
        let one = Dec::lit(1, 0);
        match one.div_spec(Dec::lit(n as int, 0)) {
            None => None,
            Some(min_hhi) => match odiv(one.sub_spec(hhi), one.sub_spec(min_hhi)) {
                None => None,
                Some(raw) => {
                    let c = if raw.lt_spec(dzero()) {
                        dzero()
                    } else if raw.gt_spec(one) {
                        one
                    } else {
                        raw
                    };
                    c.mul_spec(Dec::lit(100, 0))
                },
            },
        }
    }
}

pub open spec fn fof_spec(i: FofPortfolioInput) -> Result<FofFigures, ErrView> {
    match fof_validation(i) {
        Some(e) => Err(e),
        None => {
            let f = i.funds@;
            let navs = f.map_values(|x: PortfolioFund| x.nav);
            match (sum_seq(f.map_values(|x: PortfolioFund| x.commitment)), sum_seq(navs)) {
                (Some(tc), Some(tn)) => {
                    let w = if tn.is_zero_spec() {
                        Some((dzero(), dzero()))
                    } else {
                        match (
                            odiv(sum_opt(f.map_values(|x: PortfolioFund| x.nav.mul_spec(x.irr))), Some(tn)),
                            odiv(sum_opt(f.map_values(|x: PortfolioFund| x.nav.mul_spec(x.tvpi))), Some(tn)),
                        ) {
                            (Some(a), Some(b)) => Some((a, b)),
                            _ => None,
                        }
                    };
                    match (
                        w,
                        allocation_spec(f.map_values(|x: PortfolioFund| x.strategy@), navs, tn),
                        allocation_spec(f.map_values(|x: PortfolioFund| nat_digits(x.vintage as nat)), navs, tn),
                        allocation_spec(f.map_values(|x: PortfolioFund| x.geography@), navs, tn),
                    ) {
                        (Some(w), Some(sa), Some(va), Some(ga)) => match sum_opt(
                            sa.map_values(|a: AllocView| a.pct.mul_spec(a.pct)),
                        ) {
                            None => Err(overflow()),
                            Some(hhi) => match diversification_spec(sa.len() as u32, hhi) {
                                None => Err(overflow()),
                                Some(score) => Ok(
                                    FofFigures {
                                        total_commitment: tc,
                                        total_nav: tn,
                                        weighted_irr: w.0,
                                        weighted_tvpi: w.1,
                                        strategy: sa,
                                        vintage: va,
                                        geography: ga,
                                        hhi,
                                        score,
                                        violations: violations_of(sa, i.max_strategy_pct, "Strategy"@, sa.len())
                                            + violations_of(va, i.max_vintage_pct, "Vintage"@, va.len())
                                            + violations_of(ga, i.max_geography_pct, "Geography"@, ga.len()),
                                    },
                                ),
                            },
                        },
                        _ => Err(overflow()),
                    }
                },
                _ => Err(overflow()),
            }
        },
    }
}

pub open spec fn alloc_view(a: AllocationBreakdown) -> AllocView {
    AllocView { label: a.label@, pct: a.pct, hhi: a.hhi_contribution }
}

pub open spec fn violation_view(v: ConstraintViolation) -> ViolationView {
    ViolationView { constraint: v.constraint@, actual: v.actual, limit: v.limit }
}

// ---------------------------------------------------------------------------
// Implementation
// ---------------------------------------------------------------------------

fn str_of(s: &str) -> (r: String)
    ensures
        r@ == s@,
{
    String::from_str(s)
}

fn validate_portfolio_input(input: &FofPortfolioInput) -> (r: FinResult<()>)
    ensures
        r is Err <==> fof_validation(*input) is Some,
        r matches Err(e) ==> fof_validation(*input) == Some(err_view(e)),
{
    let funds = &input.funds;
    if funds.len() == 0 {
        return Err(FinError::InsufficientData(str_of("At least one fund is required for portfolio analysis.")));
    }
    let zero = Dec::zero();
    let mut k: usize = 0;
    while k < funds.len()
        invariant
            k <= funds@.len(),
            funds@ == input.funds@,
            funds@.len() > 0,
            zero == dzero(),
            funds_error(funds@, 0) == funds_error(funds@, k as nat),
        decreases funds@.len() - k,
    {
        let f = &funds[k];
        if f.commitment.lt(&zero) {
            return Err(
                FinError::InvalidInput {
                    field: str_of("funds.").concat(f.name.as_str()).concat(".commitment"),
                    reason: str_of("Commitment cannot be negative."),
                },
            );
        }
        if f.nav.lt(&zero) {
            return Err(
                FinError::InvalidInput {
                    field: str_of("funds.").concat(f.name.as_str()).concat(".nav"),
                    reason: str_of("NAV cannot be negative."),
                },
            );
        }
        if f.tvpi.lt(&zero) {
            return Err(
                FinError::InvalidInput {
                    field: str_of("funds.").concat(f.name.as_str()).concat(".tvpi"),
                    reason: str_of("TVPI cannot be negative."),
                },
            );
        }
        k = k + 1;
    }
    let one = Dec::one();
    if input.max_strategy_pct.le(&zero) || input.max_strategy_pct.gt(&one) {
        return Err(
            FinError::InvalidInput {
                field: str_of("max_strategy_pct"),
                reason: str_of("Max strategy allocation must be in (0, 1]."),
            },
        );
    }
    if input.max_vintage_pct.le(&zero) || input.max_vintage_pct.gt(&one) {
        return Err(
            FinError::InvalidInput {
                field: str_of("max_vintage_pct"),
                reason: str_of("Max vintage allocation must be in (0, 1]."),
            },
        );
    }
    if input.max_geography_pct.le(&zero) || input.max_geography_pct.gt(&one) {
        return Err(
            FinError::InvalidInput {
                field: str_of("max_geography_pct"),
                reason: str_of("Max geography allocation must be in (0, 1]."),
            },
        );
    }
    Ok(())
}

/// The running total of `f(fund)` over the funds, as `Decimal`'s `Sum` folds the mapped
/// values; `irr` selects nav * irr, otherwise nav * tvpi.
fn weighted_sum(funds: &Vec<PortfolioFund>, irr: bool) -> (r: FinResult<Dec>)
    ensures
        irr ==> r == lift(sum_opt(funds@.map_values(|x: PortfolioFund| x.nav.mul_spec(x.irr)))),
        !irr ==> r == lift(sum_opt(funds@.map_values(|x: PortfolioFund| x.nav.mul_spec(x.tvpi)))),
{
    let ghost s = if irr {
        funds@.map_values(|x: PortfolioFund| x.nav.mul_spec(x.irr))
    } else {
        funds@.map_values(|x: PortfolioFund| x.nav.mul_spec(x.tvpi))
    };
    let mut acc = Dec::zero();
    let mut k: usize = 0;
    while k < funds.len()
        invariant
            k <= funds@.len(),
            s.len() == funds@.len(),
            irr ==> s == funds@.map_values(|x: PortfolioFund| x.nav.mul_spec(x.irr)),
            !irr ==> s == funds@.map_values(|x: PortfolioFund| x.nav.mul_spec(x.tvpi)),
            sum_opt(s.take(k as int)) == Some(acc),
        decreases funds@.len() - k,
    {
        proof {
            assert(s.take(k + 1).drop_last() =~= s.take(k as int));
        }
        let f = &funds[k];
        let other = if irr {
            f.irr
        } else {
            f.tvpi
        };
        let step = match f.nav.mul(&other) {
            Ok(p) => acc.add(&p),
            Err(e) => Err(e),
        };
        acc = match step {
            Ok(x) => x,
            Err(e) => {
                proof {
                    lemma_sum_none(s, k as int);
                }
                return Err(e);
            },
        };
        k = k + 1;
    }
    proof {
        assert(s.take(funds@.len() as int) =~= s);
    }
    Ok(acc)
}

proof fn lemma_sum_none(s: Seq<Option<Dec>>, k: int)
    requires
        0 <= k < s.len(),
        sum_opt(s.take(k + 1)) is None,
    ensures
        sum_opt(s) is None,
{
    crate::dec::lemma_sum_opt_none(s, k);
}

proof fn lemma_group_none(keys: Seq<Seq<char>>, navs: Seq<Dec>, k: nat, n: nat)
    requires
        k <= n,
        group_navs(keys, navs, k) is None,
    ensures
        group_navs(keys, navs, n) is None,
    decreases n - k,
{
    if k < n {
        lemma_group_none(keys, navs, k + 1, n);
    }
}

proof fn lemma_entries_none(b: Seq<(Seq<char>, Dec)>, total: Dec, k: nat, n: nat)
    requires
        k <= n,
        alloc_entries(b, total, k) is None,
    ensures
        alloc_entries(b, total, n) is None,
    decreases n - k,
{
    if k < n {
        lemma_entries_none(b, total, k + 1, n);
    }
}

proof fn lemma_bucket_index(b: Seq<(Seq<char>, Dec)>, key: Seq<char>, k: nat, j: nat)
    requires
        k <= j <= b.len(),
        forall|q: int| k <= q < j ==> (#[trigger] b[q]).0 != key,
    ensures
        j < b.len() && b[j as int].0 == key ==> bucket_index(b, key, k) == Some(j),
        j == b.len() ==> bucket_index(b, key, k) is None,
    decreases j - k,
{
    if k < j {
        lemma_bucket_index(b, key, k + 1, j);
    }
}

/// NAV per label, labels in order of first appearance.
fn group_by_label(keys: &Vec<String>, funds: &Vec<PortfolioFund>) -> (r: FinResult<(Vec<String>, Vec<Dec>)>)
    requires
        keys@.len() == funds@.len(),
    ensures
        ({
            let kv = keys@.map_values(|s: String| s@);
            let nv = funds@.map_values(|x: PortfolioFund| x.nav);
            &&& r is Err <==> group_navs(kv, nv, kv.len()) is None
            &&& r is Err ==> r == Err::<(Vec<String>, Vec<Dec>), FinError>(FinError::ArithmeticOverflow)
            &&& r matches Ok(p) ==> p.0@.len() == p.1@.len() && group_navs(kv, nv, kv.len()) == Some(
                Seq::new(p.0@.len(), |q: int| (p.0@[q]@, p.1@[q])),
            )
        }),
{
    let ghost kv = keys@.map_values(|s: String| s@);
    let ghost nv = funds@.map_values(|x: PortfolioFund| x.nav);
    let mut labels: Vec<String> = Vec::new();
    let mut sums: Vec<Dec> = Vec::new();
    let mut k: usize = 0;
    while k < keys.len()
        invariant
            k <= keys@.len(),
            keys@.len() == funds@.len(),
            kv == keys@.map_values(|s: String| s@),
            nv == funds@.map_values(|x: PortfolioFund| x.nav),
            labels@.len() == sums@.len(),
            group_navs(kv, nv, k as nat) == Some(Seq::new(labels@.len(), |q: int| (labels@[q]@, sums@[q]))),
        decreases keys@.len() - k,
    {
        let ghost b = Seq::new(labels@.len(), |q: int| (labels@[q]@, sums@[q]));
        let key = &keys[k];
        let nav = funds[k].nav;
        let mut j: usize = 0;
        while j < labels.len() && labels[j] != *key
            invariant
                j <= labels@.len(),
                labels@.len() == sums@.len(),
                b == Seq::new(labels@.len(), |q: int| (labels@[q]@, sums@[q])),
                forall|q: int| 0 <= q < j ==> (#[trigger] b[q]).0 != key@,
            decreases labels@.len() - j,
        {
            j = j + 1;
        }
        proof {
            lemma_bucket_index(b, key@, 0, j as nat);
        }
        if j < labels.len() {
            let s = match sums[j].add(&nav) {
                Ok(s) => s,
                Err(e) => {
                    proof {
                        lemma_group_none(kv, nv, (k + 1) as nat, kv.len());
                    }
                    return Err(e);
                },
            };
            sums.set(j, s);
            proof {
                assert(Seq::new(labels@.len(), |q: int| (labels@[q]@, sums@[q])) =~= b.update(j as int, (key@, s)));
            }
        } else {
            let s = match Dec::zero().add(&nav) {
                Ok(s) => s,
                Err(e) => {
                    proof {
                        lemma_group_none(kv, nv, (k + 1) as nat, kv.len());
                    }
                    return Err(e);
                },
            };
            labels.push(key.clone());
            sums.push(s);
            proof {
                assert(Seq::new(labels@.len(), |q: int| (labels@[q]@, sums@[q])) =~= b.push((key@, s)));
            }
        }
        k = k + 1;
    }
    Ok((labels, sums))
}

/// Allocation by label: NAV per label as a share of `total`, largest share first, equal
/// shares in order of first appearance.
fn compute_allocation_by(keys: &Vec<String>, funds: &Vec<PortfolioFund>, total: Dec) -> (r: FinResult<Vec<AllocationBreakdown>>)
    requires
        keys@.len() == funds@.len(),
    ensures
        ({
            let spec = allocation_spec(
                keys@.map_values(|s: String| s@),
                funds@.map_values(|x: PortfolioFund| x.nav),
                total,
            );
            &&& r is Err <==> spec is None
            &&& r is Err ==> r == Err::<Vec<AllocationBreakdown>, FinError>(FinError::ArithmeticOverflow)
            &&& r matches Ok(v) ==> v@.map_values(|a: AllocationBreakdown| alloc_view(a)) == spec->Some_0
            &&& r matches Ok(v) ==> sorted_desc(v@.map_values(|a: AllocationBreakdown| alloc_view(a)))
        }),
{
    let (labels, sums) = group_by_label(keys, funds)?;
    let ghost b = Seq::new(labels@.len(), |q: int| (labels@[q]@, sums@[q]));
    let mut entries: Vec<AllocationBreakdown> = Vec::new();
    let mut k: usize = 0;
    while k < labels.len()
        invariant
            k <= labels@.len(),
            labels@.len() == sums@.len(),
            b == Seq::new(labels@.len(), |q: int| (labels@[q]@, sums@[q])),
            group_navs(
                keys@.map_values(|s: String| s@),
                funds@.map_values(|x: PortfolioFund| x.nav),
                keys@.len() as nat,
            ) == Some(b),
            alloc_entries(b, total, k as nat) == Some(entries@.map_values(|a: AllocationBreakdown| alloc_view(a))),
        decreases labels@.len() - k,
    {
        let step = match ratio_or_zero_exec(&sums[k], &total) {
            Ok(p) => match p.mul(&p) {
                Ok(h) => Ok((p, h)),
                Err(e) => Err(e),
            },
            Err(e) => Err(e),
        };
        match step {
            Ok(t) => {
                let ghost before = entries@.map_values(|a: AllocationBreakdown| alloc_view(a));
                entries.push(AllocationBreakdown { label: labels[k].clone(), pct: t.0, hhi_contribution: t.1 });
                proof {
                    assert(entries@.map_values(|a: AllocationBreakdown| alloc_view(a)) =~= before.push(
                        AllocView { label: b[k as int].0, pct: t.0, hhi: t.1 },
                    ));
                }
            },
            Err(e) => {
                proof {
                    lemma_entries_none(b, total, (k + 1) as nat, b.len());
                }
                return Err(e);
            },
        }
        k = k + 1;
    }
    Ok(sort_allocations(entries))
}

proof fn lemma_alloc_insert_pos(s: Seq<AllocView>, x: AllocView, k: int)
    requires
        0 <= k <= s.len(),
        forall|q: int| 0 <= q < k ==> !(#[trigger] s[q]).pct.lt_spec(x.pct),
        k < s.len() ==> s[k].pct.lt_spec(x.pct),
    ensures
        alloc_insert_pos(s, x) == k,
    decreases k,
{
    if k > 0 {
        assert forall|q: int| 0 <= q < k - 1 implies !(#[trigger] s.drop_first()[q]).pct.lt_spec(x.pct) by {
            assert(s.drop_first()[q] == s[q + 1]);
        }
        lemma_alloc_insert_pos(s.drop_first(), x, k - 1);
    }
}

/// A stable insertion sort by descending share.
fn sort_allocations(v: Vec<AllocationBreakdown>) -> (r: Vec<AllocationBreakdown>)
    ensures
        r@.map_values(|a: AllocationBreakdown| alloc_view(a)) == alloc_sort(
            v@.map_values(|a: AllocationBreakdown| alloc_view(a)),
        ),
        sorted_desc(r@.map_values(|a: AllocationBreakdown| alloc_view(a))),
{
    let ghost vv = v@.map_values(|a: AllocationBreakdown| alloc_view(a));
    let mut src = v;
    let mut out: Vec<AllocationBreakdown> = Vec::new();
    let n = src.len();
    let mut rev: Vec<AllocationBreakdown> = Vec::new();
    // Move the entries out in reverse so that each can be popped in input order.
    while src.len() > 0
        invariant
            src@.len() + rev@.len() == n,
            vv.len() == n,
            forall|q: int| 0 <= q < src@.len() ==> alloc_view(#[trigger] src@[q]) == vv[q],
            forall|q: int| 0 <= q < rev@.len() ==> alloc_view(#[trigger] rev@[q]) == vv[n - 1 - q],
        decreases src@.len(),
    {
        let x = src.pop().unwrap();
        rev.push(x);
    }
    let mut j: usize = 0;
    while j < n
        invariant
            j <= n,
            rev@.len() == n - j,
            vv.len() == n,
            forall|q: int| 0 <= q < rev@.len() ==> alloc_view(#[trigger] rev@[q]) == vv[n - 1 - q],
            out@.map_values(|a: AllocationBreakdown| alloc_view(a)) == alloc_sort(vv.take(j as int)),
            sorted_desc(out@.map_values(|a: AllocationBreakdown| alloc_view(a))),
            out@.len() == j,
        decreases n - j,
    {
        let x = rev.pop().unwrap();
        let ghost xv = alloc_view(x);
        let ghost ov = out@.map_values(|a: AllocationBreakdown| alloc_view(a));
        assert(xv == vv[j as int]);
        let mut k: usize = 0;
        while k < out.len() && !out[k].pct.lt(&x.pct)
            invariant
                k <= out@.len(),
                ov == out@.map_values(|a: AllocationBreakdown| alloc_view(a)),
                xv == alloc_view(x),
                forall|q: int| 0 <= q < k ==> !(#[trigger] ov[q]).pct.lt_spec(xv.pct),
            decreases out@.len() - k,
        {
            k = k + 1;
        }
        proof {
            lemma_alloc_insert_pos(ov, xv, k as int);
            assert(vv.take(j + 1).drop_last() =~= vv.take(j as int));
            assert(vv.take(j + 1).last() == xv);
        }
        out.insert(k, x);
        proof {
            let nv = out@.map_values(|a: AllocationBreakdown| alloc_view(a));
            assert(nv =~= ov.take(k as int).push(xv) + ov.skip(k as int));
            assert forall|a: int, b: int| 0 <= a < b < nv.len() implies !(#[trigger] nv[a]).pct.lt_spec(
                #[trigger] nv[b].pct,
            ) by {
                lemma_order_facts(ov, xv, k as int, a, b);
            }
        }
        j = j + 1;
    }
    proof {
        assert(vv.take(n as int) =~= vv);
    }
    out
}

proof fn lemma_order_facts(ov: Seq<AllocView>, xv: AllocView, k: int, a: int, b: int)
    requires
        0 <= k <= ov.len(),
        sorted_desc(ov),
        forall|q: int| 0 <= q < k ==> !(#[trigger] ov[q]).pct.lt_spec(xv.pct),
        k < ov.len() ==> ov[k].pct.lt_spec(xv.pct),
        0 <= a < b < ov.len() + 1,
    ensures
        ({
            let nv = ov.take(k).push(xv) + ov.skip(k);
            !nv[a].pct.lt_spec(nv[b].pct)
        }),
{
    let nv = ov.take(k).push(xv) + ov.skip(k);
    if a < k && b < k {
        assert(nv[a] == ov[a] && nv[b] == ov[b]);
    } else if a < k && b == k {
        assert(nv[a] == ov[a] && nv[b] == xv);
    } else if a < k {
        assert(nv[a] == ov[a] && nv[b] == ov[b - 1]);
    } else if a == k {
        assert(nv[a] == xv && nv[b] == ov[b - 1]);
        if xv.pct.lt_spec(ov[b - 1].pct) {
            Dec::lemma_lt_trans(ov[k].pct, xv.pct, ov[b - 1].pct);
        }
    } else {
        assert(nv[a] == ov[a - 1] && nv[b] == ov[b - 1]);
    }
}


/// Each bucket's contribution is its share squared.
pub open spec fn squares_ok(s: Seq<AllocView>) -> bool {
    forall|q: int| 0 <= q < s.len() ==> (#[trigger] s[q]).pct.mul_spec(s[q].pct) == Some(s[q].hhi)
}

proof fn lemma_entries_squares(b: Seq<(Seq<char>, Dec)>, total: Dec, k: nat)
    requires
        alloc_entries(b, total, k) is Some,
    ensures
        squares_ok(alloc_entries(b, total, k)->Some_0),
    decreases k,
{
    if k > 0 {
        lemma_entries_squares(b, total, (k - 1) as nat);
    }
}

proof fn lemma_sort_squares(s: Seq<AllocView>)
    requires
        squares_ok(s),
    ensures
        squares_ok(alloc_sort(s)),
    decreases s.len(),
{
    if s.len() > 0 {
        let t = alloc_sort(s.drop_last());
        lemma_sort_squares(s.drop_last());
        let k = alloc_insert_pos(t, s.last()) as int;
        lemma_alloc_insert_pos_le(t, s.last());
        let r = t.take(k).push(s.last()) + t.skip(k);
        assert forall|q: int| 0 <= q < r.len() implies (#[trigger] r[q]).pct.mul_spec(r[q].pct) == Some(r[q].hhi) by {
            if q < k {
                assert(r[q] == t[q]);
            } else if q > k {
                assert(r[q] == t[q - 1]);
            }
        }
    }
}

proof fn lemma_alloc_insert_pos_le(s: Seq<AllocView>, x: AllocView)
    ensures
        alloc_insert_pos(s, x) <= s.len(),
    decreases s.len(),
{
    if s.len() > 0 {
        lemma_alloc_insert_pos_le(s.drop_first(), x);
    }
}

/// The allocation's contributions, as a sum, are the index.
proof fn lemma_hhi_is_sum(s: Seq<AllocView>)
    requires
        squares_ok(s),
    ensures
        s.map_values(|a: AllocView| a.pct.mul_spec(a.pct)) == s.map_values(|a: AllocView| a.hhi).map_values(
            |d: Dec| Some(d),
        ),
{
    assert(s.map_values(|a: AllocView| a.pct.mul_spec(a.pct)) =~= s.map_values(|a: AllocView| a.hhi).map_values(
        |d: Dec| Some(d),
    ));
}

fn keys_of(funds: &Vec<PortfolioFund>, which: u8) -> (r: Vec<String>)
    ensures
        r@.len() == funds@.len(),
        which == 0 ==> r@.map_values(|s: String| s@) == funds@.map_values(|x: PortfolioFund| x.strategy@),
        which == 1 ==> r@.map_values(|s: String| s@) == funds@.map_values(
            |x: PortfolioFund| nat_digits(x.vintage as nat),
        ),
        which >= 2 ==> r@.map_values(|s: String| s@) == funds@.map_values(|x: PortfolioFund| x.geography@),
{
    let mut r: Vec<String> = Vec::new();
    let mut k: usize = 0;
    while k < funds.len()
        invariant
            k <= funds@.len(),
            r@.len() == k,
            forall|q: int|
                0 <= q < k ==> (#[trigger] r@[q])@ == (if which == 0 {
                    funds@[q].strategy@
                } else if which == 1 {
                    nat_digits(funds@[q].vintage as nat)
                } else {
                    funds@[q].geography@
                }),
        decreases funds@.len() - k,
    {
        let f = &funds[k];
        let key = if which == 0 {
            f.strategy.clone()
        } else if which == 1 {
            u32_to_string(f.vintage)
        } else {
            f.geography.clone()
        };
        r.push(key);
        k = k + 1;
    }
    proof {
        if which == 0 {
            assert(r@.map_values(|s: String| s@) =~= funds@.map_values(|x: PortfolioFund| x.strategy@));
        } else if which == 1 {
            assert(r@.map_values(|s: String| s@) =~= funds@.map_values(
                |x: PortfolioFund| nat_digits(x.vintage as nat),
            ));
        } else {
            assert(r@.map_values(|s: String| s@) =~= funds@.map_values(|x: PortfolioFund| x.geography@));
        }
    }
    r
}

fn field_sum(funds: &Vec<PortfolioFund>, navs: bool) -> (r: FinResult<Dec>)
    ensures
        navs ==> r == lift(sum_seq(funds@.map_values(|x: PortfolioFund| x.nav))),
        !navs ==> r == lift(sum_seq(funds@.map_values(|x: PortfolioFund| x.commitment))),
{
    let mut v: Vec<Dec> = Vec::new();
    let mut k: usize = 0;
    while k < funds.len()
        invariant
            k <= funds@.len(),
            v@.len() == k,
            forall|q: int|
                0 <= q < k ==> #[trigger] v@[q] == (if navs {
                    funds@[q].nav
                } else {
                    funds@[q].commitment
                }),
        decreases funds@.len() - k,
    {
        v.push(
            if navs {
                funds[k].nav
            } else {
                funds[k].commitment
            },
        );
        k = k + 1;
    }
    proof {
        if navs {
            assert(v@ =~= funds@.map_values(|x: PortfolioFund| x.nav));
        } else {
            assert(v@ =~= funds@.map_values(|x: PortfolioFund| x.commitment));
        }
    }
    sum_vec(&v)
}

fn hhi_of(a: &Vec<AllocationBreakdown>) -> (r: FinResult<Dec>)
    ensures
        r == lift(
            sum_opt(
                a@.map_values(|x: AllocationBreakdown| alloc_view(x)).map_values(
                    |x: AllocView| x.pct.mul_spec(x.pct),
                ),
            ),
        ),
{
    let ghost s = a@.map_values(|x: AllocationBreakdown| alloc_view(x)).map_values(
        |x: AllocView| x.pct.mul_spec(x.pct),
    );
    let mut acc = Dec::zero();
    let mut k: usize = 0;
    while k < a.len()
        invariant
            k <= a@.len(),
            s == a@.map_values(|x: AllocationBreakdown| alloc_view(x)).map_values(
                |x: AllocView| x.pct.mul_spec(x.pct),
            ),
            sum_opt(s.take(k as int)) == Some(acc),
        decreases a@.len() - k,
    {
        proof {
            assert(s.take(k + 1).drop_last() =~= s.take(k as int));
        }
        let step = match a[k].pct.mul(&a[k].pct) {
            Ok(p) => acc.add(&p),
            Err(e) => Err(e),
        };
        acc = match step {
            Ok(x) => x,
            Err(e) => {
                proof {
                    lemma_sum_none(s, k as int);
                }
                return Err(e);
            },
        };
        k = k + 1;
    }
    proof {
        assert(s.take(a@.len() as int) =~= s);
    }
    Ok(acc)
}

fn diversification(n: u32, hhi: Dec) -> (r: FinResult<Dec>)
    ensures
        r == lift(diversification_spec(n, hhi)),
{
    if n <= 1 {
        return Ok(Dec::zero());
    }
    let one = Dec::one();
    let min_hhi = one.div(&Dec::from_u64(n as u64))?;
    let raw = one.sub(&hhi)?.div(&one.sub(&min_hhi)?)?;
    let c = if raw.lt(&Dec::zero()) {
        Dec::zero()
    } else if raw.gt(&one) {
        one
    } else {
        raw
    };
    c.mul(&Dec::new(100, 0))
}

fn push_violations(a: &Vec<AllocationBreakdown>, limit: Dec, kind: &str, out: &mut Vec<ConstraintViolation>)
    ensures
        final(out)@.map_values(|v: ConstraintViolation| violation_view(v)) == old(out)@.map_values(
            |v: ConstraintViolation| violation_view(v),
        ) + violations_of(a@.map_values(|x: AllocationBreakdown| alloc_view(x)), limit, kind@, a@.len()),
{
    let ghost av = a@.map_values(|x: AllocationBreakdown| alloc_view(x));
    let ghost start = out@.map_values(|v: ConstraintViolation| violation_view(v));
    let mut k: usize = 0;
    while k < a.len()
        invariant
            k <= a@.len(),
            av == a@.map_values(|x: AllocationBreakdown| alloc_view(x)),
            out@.map_values(|v: ConstraintViolation| violation_view(v)) == start + violations_of(av, limit, kind@, k as nat),
        decreases a@.len() - k,
    {
        let x = &a[k];
        if x.pct.gt(&limit) {
            let ghost before = out@.map_values(|v: ConstraintViolation| violation_view(v));
            let text = str_of(kind).concat(" '").concat(x.label.as_str()).concat("' exceeds max");
            out.push(ConstraintViolation { constraint: text, actual: x.pct, limit });
            proof {
                assert(out@.map_values(|v: ConstraintViolation| violation_view(v)) =~= before.push(
                    ViolationView { constraint: kind@ + " '"@ + x.label@ + "' exceeds max"@, actual: x.pct, limit },
                ));
                assert(start + violations_of(av, limit, kind@, (k + 1) as nat) =~= (start + violations_of(
                    av,
                    limit,
                    kind@,
                    k as nat,
                )).push(
                    ViolationView { constraint: kind@ + " '"@ + x.label@ + "' exceeds max"@, actual: x.pct, limit },
                ));
            }
        }
        k = k + 1;
    }
}

/// Portfolio totals, NAV-weighted IRR and TVPI (zero when the NAV is zero), allocation by
/// strategy, vintage and geography (largest share first), the strategy HHI, a 0-100
/// diversification score and the allocation limits exceeded.
pub fn analyze_fof_portfolio(input: &FofPortfolioInput) -> (r: FinResult<FofPortfolioOutput>)
    ensures
        r is Err <==> fof_spec(*input) is Err,
        r matches Err(e) ==> fof_spec(*input) == Err::<FofFigures, ErrView>(err_view(e)),
        r matches Ok(o) ==> {
            let f = fof_spec(*input)->Ok_0;
            &&& o.total_commitment == f.total_commitment
            &&& o.total_nav == f.total_nav
            &&& o.weighted_avg_irr == f.weighted_irr
            &&& o.weighted_avg_tvpi == f.weighted_tvpi
            &&& o.strategy_allocation@.map_values(|a: AllocationBreakdown| alloc_view(a)) == f.strategy
            &&& o.vintage_allocation@.map_values(|a: AllocationBreakdown| alloc_view(a)) == f.vintage
            &&& o.geography_allocation@.map_values(|a: AllocationBreakdown| alloc_view(a)) == f.geography
            &&& o.concentration_hhi == f.hhi
            &&& o.diversification_score == f.score
            &&& o.constraint_violations@.map_values(|v: ConstraintViolation| violation_view(v)) == f.violations
            &&& sorted_desc(f.strategy) && sorted_desc(f.vintage) && sorted_desc(f.geography)
            &&& sum_seq(f.strategy.map_values(|a: AllocView| a.hhi)) == Some(o.concentration_hhi)
        },
{
    validate_portfolio_input(input)?;
    let funds = &input.funds;
    let total_commitment = field_sum(funds, false)?;
    let total_nav = field_sum(funds, true)?;
    let (w_irr, w_tvpi) = if total_nav.is_zero() {
        (Dec::zero(), Dec::zero())
    } else {
        let a = weighted_sum(funds, true)?.div(&total_nav)?;
        let b = weighted_sum(funds, false)?.div(&total_nav)?;
        (a, b)
    };
    let sk = keys_of(funds, 0);
    let vk = keys_of(funds, 1);
    let gk = keys_of(funds, 2);
    let sa = compute_allocation_by(&sk, funds, total_nav)?;
    let va = compute_allocation_by(&vk, funds, total_nav)?;
    let ga = compute_allocation_by(&gk, funds, total_nav)?;
    let hhi = hhi_of(&sa)?;
    let n: u32 = #[verifier::truncate] (sa.len() as u32);
    let score = diversification(n, hhi)?;
    let mut violations: Vec<ConstraintViolation> = Vec::new();
    push_violations(&sa, input.max_strategy_pct, "Strategy", &mut violations);
    push_violations(&va, input.max_vintage_pct, "Vintage", &mut violations);
    push_violations(&ga, input.max_geography_pct, "Geography", &mut violations);
    proof {
        let navs = funds@.map_values(|x: PortfolioFund| x.nav);
        let g = group_navs(
            funds@.map_values(|x: PortfolioFund| x.strategy@),
            navs,
            funds@.len() as nat,
        )->Some_0;
        lemma_entries_squares(g, total_nav, g.len());
        let sv = sa@.map_values(|a: AllocationBreakdown| alloc_view(a));
        lemma_sort_squares(alloc_entries(g, total_nav, g.len())->Some_0);
        lemma_hhi_is_sum(sv);
        assert(violations@.map_values(|v: ConstraintViolation| violation_view(v)) =~= violations_of(
            sv,
            input.max_strategy_pct,
            "Strategy"@,
            sv.len(),
        ) + violations_of(
            va@.map_values(|a: AllocationBreakdown| alloc_view(a)),
            input.max_vintage_pct,
            "Vintage"@,
            va@.len(),
        ) + violations_of(
            ga@.map_values(|a: AllocationBreakdown| alloc_view(a)),
            input.max_geography_pct,
            "Geography"@,
            ga@.len(),
        ));
    }
    Ok(
        FofPortfolioOutput {
            total_commitment,
            total_nav,
            weighted_avg_irr: w_irr,
            weighted_avg_tvpi: w_tvpi,
            strategy_allocation: sa,
            vintage_allocation: va,
            geography_allocation: ga,
            concentration_hhi: hhi,
            diversification_score: score,
            constraint_violations: violations,
        },
    )
}

} // verus!
