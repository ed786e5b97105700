//! J-curve model of a private equity fund's life: drawdowns, fees, NAV growth,
//! distributions net of carry, TVPI/DPI/RVPI, IRR by Newton's method, the trough of
//! cumulative net cash flow and the Kaplan-Schoar PME.
use vstd::prelude::*;

use crate::dec::{dzero, group_dec, lift, oadd, odiv, omul, osub, nat_digits, usize_to_string, Dec};
use crate::error::{err_view, insufficient_data, invalid_input, ErrView, FinError, FinResult};

verus! {

broadcast use group_dec;

pub struct JCurveInput {
    pub total_commitment: Dec,
    /// Fraction of the commitment drawn each year.
    pub drawdown_schedule: Vec<Dec>,
    /// Fraction of NAV distributed each year.
    pub distribution_schedule: Vec<Dec>,
    pub fund_life_years: u32,
    /// Annual growth rate of the portfolio.
    pub growth_rate: Dec,
    /// Management fee as a fraction of commitment.
    pub management_fee_pct: Dec,
    pub carry_pct: Dec,
    /// Preferred return (hurdle rate).
    pub preferred_return: Dec,
    /// Public market index return of each year, for the PME.
    pub public_index_returns: Vec<Dec>,
}

pub struct JCurvePeriod {
    /// Year number (0 = inception).
    pub year: u32,
    /// Drawdown plus management fee.
    pub contributions: Dec,
    /// Distributions net of carry.
    pub distributions: Dec,
    pub nav: Dec,
    /// distributions - contributions
    pub net_cash_flow: Dec,
    pub tvpi: Dec,
    pub dpi: Dec,
    pub rvpi: Dec,
    pub cumulative_irr: Dec,
}

pub struct JCurveOutput {
    pub periods: Vec<JCurvePeriod>,
    pub final_tvpi: Dec,
    pub final_dpi: Dec,
    pub pme_kaplan_schoar: Dec,
    pub net_irr: Dec,
    pub gross_irr: Dec,
    /// Year of the lowest cumulative net cash flow.
    pub j_curve_trough_year: u32,
    /// Lowest cumulative net cash flow (zero at most).
    pub j_curve_trough_value: Dec,
}

/// Running totals carried from one year of the model to the next.
pub struct JRunning {
    pub nav: Dec,
    pub cum_contributions: Dec,
    pub cum_distributions: Dec,
    pub cum_net_cf: Dec,
    pub total_contributed: Dec,
    pub trough_year: u32,
    pub trough_value: Dec,
}

// ---------------------------------------------------------------------------
// Specification: IRR
// ---------------------------------------------------------------------------

/// NPV, its derivative and the discount factor after the first `t` cash flows.
pub open spec fn npv_fold(cfs: Seq<Dec>, denom: Dec, t: nat) -> Option<(Dec, Dec, Dec)>
    decreases t,
{
    if t == 0 {
        Some((dzero(), dzero(), Dec::lit(1, 0)))
    } else {
        match npv_fold(cfs, denom, (t - 1) as nat) {
            Some(p) => {
                let k = (t - 1) as nat;
                let cf = cfs[k as int];
                if k == 0 {
                    match p.0.add_spec(cf) {
                        Some(npv) => Some((npv, p.1, p.2)),
                        None => None,
                    }
                } else {
                    match p.2.div_spec(denom) {
                        Some(df) => {
                            let npv = oadd(Some(p.0), cf.mul_spec(df));
                            let term = odiv(
                                omul(Dec::lit(k as int, 0).neg_spec().mul_spec(cf), Some(df)),
                                Some(denom),
                            );
                            let dnpv = oadd(Some(p.1), term);
                            if npv is Some && dnpv is Some {
                                Some((npv.unwrap(), dnpv.unwrap(), df))
                            } else {
                                None
                            }
                        },
                        None => None,
                    }
                }
            },
            None => None,
        }
    }
}

/// `rate` clamped to [-0.99, 10].
pub open spec fn clamp_rate(rate: Dec) -> Dec {
    let r1 = if rate.lt_spec(Dec::lit(-99, 2)) {
        Dec::lit(-99, 2)
    } else {
        rate
    };
    if r1.gt_spec(Dec::lit(100, 1)) {
        Dec::lit(100, 1)
    } else {
        r1
    }
}

/// Newton steps from step `it` of 30: a zero `1 + rate` restarts from 0.05, a zero
/// derivative or a step below 1e-7 stops.
pub open spec fn irr_iter(cfs: Seq<Dec>, rate: Dec, it: nat) -> Option<Dec>
    decreases 30 - it,
{
    if it >= 30 {
        Some(rate)
    } else {
        match Dec::lit(1, 0).add_spec(rate) {
            None => None,
            Some(denom) => if denom.is_zero_spec() {
                irr_iter(cfs, Dec::lit(5, 2), it + 1)
            } else {
                match npv_fold(cfs, denom, cfs.len()) {
                    None => None,
                    Some(p) => if p.1.is_zero_spec() {
                        Some(rate)
                    } else {
                        match p.0.div_spec(p.1) {
                            None => None,
                            Some(delta) => match rate.sub_spec(delta) {
                                None => None,
                                Some(r) => if delta.abs_spec().lt_spec(Dec::lit(1, 7)) {
                                    Some(clamp_rate(r))
                                } else {
                                    irr_iter(cfs, clamp_rate(r), it + 1)
                                },
                            },
                        }
                    },
                }
            },
        }
    }
}

/// IRR by Newton's method from 0.10; zero for fewer than two cash flows.
pub open spec fn irr_spec(cfs: Seq<Dec>) -> Option<Dec> {
    if cfs.len() < 2 {
        Some(dzero())
    } else {
        irr_iter(cfs, Dec::lit(10, 2), 0)
    }
}

// ---------------------------------------------------------------------------
// Specification: validation
// ---------------------------------------------------------------------------

/// Index of the first negative value.
pub open spec fn first_negative(s: Seq<Dec>) -> Option<nat>
    decreases s.len(),
{
    if s.len() == 0 {
        None
    } else {
        match first_negative(s.drop_last()) {
            Some(k) => Some(k),
            None => if s.last().lt_spec(dzero()) {
                Some((s.len() - 1) as nat)
            } else {
                None
            },
        }
    }
}

pub open spec fn indexed_field(name: Seq<char>, k: nat) -> Seq<char> {
    name + "["@ + nat_digits(k) + "]"@
}

pub open spec fn j_validation(i: JCurveInput) -> Option<ErrView> {
    if i.total_commitment.le_spec(dzero()) {
        Some(invalid_input("total_commitment"@, "Total commitment must be positive."@))
    } else if i.fund_life_years == 0 {
        Some(invalid_input("fund_life_years"@, "Fund life must be at least 1 year."@))
    } else if i.drawdown_schedule@.len() == 0 {
        Some(insufficient_data("Drawdown schedule must have at least one entry."@))
    } else if i.distribution_schedule@.len() == 0 {
        Some(insufficient_data("Distribution schedule must have at least one entry."@))
    } else if first_negative(i.drawdown_schedule@) is Some {
        Some(
            invalid_input(
                indexed_field("drawdown_schedule"@, first_negative(i.drawdown_schedule@).unwrap()),
                "Drawdown percentages cannot be negative."@,
            ),
        )
    } else if first_negative(i.distribution_schedule@) is Some {
        Some(
            invalid_input(
                indexed_field(
                    "distribution_schedule"@,
                    first_negative(i.distribution_schedule@).unwrap(),
                ),
                "Distribution percentages cannot be negative."@,
            ),
        )
    } else if i.management_fee_pct.lt_spec(dzero()) || i.management_fee_pct.gt_spec(
        Dec::lit(10, 2),
    ) {
        Some(invalid_input("management_fee_pct"@, "Management fee must be in [0, 0.10]."@))
    } else if i.carry_pct.lt_spec(dzero()) || i.carry_pct.gt_spec(Dec::lit(1, 0)) {
        Some(invalid_input("carry_pct"@, "Carry percentage must be in [0, 1]."@))
    } else if i.preferred_return.lt_spec(dzero()) {
        Some(invalid_input("preferred_return"@, "Preferred return cannot be negative."@))
    } else {
        None
    }
}

// ---------------------------------------------------------------------------
// Specification: the yearly model
// ---------------------------------------------------------------------------

/// A schedule's rate for a year, zero past its end.
pub open spec fn rate_at(s: Seq<Dec>, yr: nat) -> Dec {
    if yr < s.len() {
        s[yr as int]
    } else {
        dzero()
    }
}

pub open spec fn initial_running() -> JRunning {
    JRunning {
        nav: dzero(),
        cum_contributions: dzero(),
        cum_distributions: dzero(),
        cum_net_cf: dzero(),
        total_contributed: dzero(),
        trough_year: 0,
        trough_value: dzero(),
    }
}

/// Carry on a year's distribution: the carry rate on the cumulative profit above the
/// hurdle, at most the distribution; none without excess profit or distribution.
pub open spec fn carry_spec(profit: Dec, hurdle: Dec, gross_dist: Dec, carry_pct: Dec) -> Option<Dec> {
    if profit.gt_spec(hurdle) && gross_dist.gt_spec(dzero()) {
        match omul(profit.sub_spec(hurdle), Some(carry_pct)) {
            Some(ca) => if ca.gt_spec(gross_dist) {
                Some(gross_dist)
            } else {
                Some(ca)
            },
            None => None,
        }
    } else {
        Some(dzero())
    }
}

pub open spec fn multiple(num: Option<Dec>, cc: Dec) -> Option<Dec> {
    if cc.is_zero_spec() {
        Some(dzero())
    } else {
        odiv(num, Some(cc))
    }
}

/// The cash flows the interim IRR of year `yr` is taken on: the net cash flows so far,
/// the last one with the NAV added when `0 < yr < n`.
pub open spec fn interim_cfs(net: Seq<Dec>, nav: Dec, yr: nat, n: nat) -> Option<Seq<Dec>> {
    if yr < n && yr > 0 {
        match net.last().add_spec(nav) {
            Some(v) => Some(net.update(net.len() - 1, v)),
            None => None,
        }
    } else {
        Some(net)
    }
}

/// Year `yr` of the model: the new running totals, the net and gross cash flows for the
/// IRRs, and the period.
pub open spec fn jyear(i: JCurveInput, s: JRunning, net: Seq<Dec>, yr: nat) -> Option<(JRunning, Dec, Dec, JCurvePeriod)> {
    let n = i.fund_life_years as nat;
    let c = i.total_commitment;
    let drawdown = c.mul_spec(rate_at(i.drawdown_schedule@, yr));
    let fee = if yr == 0 {
        Some(dzero())
    } else {
        c.mul_spec(i.management_fee_pct)
    };
    if drawdown is None || fee is None {
        None
    } else {
        let dd = drawdown.unwrap();
        let contribution = dd.add_spec(fee.unwrap());
        let tc = s.total_contributed.add_spec(dd);
        let nav1 = if yr > 0 {
            omul(Some(s.nav), Dec::lit(1, 0).add_spec(i.growth_rate))
        } else {
            Some(s.nav)
        };
        let nav2 = oadd(nav1, Some(dd));
        let gross = omul(nav2, Some(rate_at(i.distribution_schedule@, yr)));
        let nav3 = osub(nav2, gross);
        if contribution is None || tc is None || gross is None || nav3 is None {
            None
        } else {
            let (contribution, tc, gross, nav) = (
                contribution.unwrap(),
                tc.unwrap(),
                gross.unwrap(),
                nav3.unwrap(),
            );
            let profit = osub(oadd(s.cum_distributions.add_spec(gross), Some(nav)), Some(tc));
            let hurdle = omul(tc.mul_spec(i.preferred_return), Some(Dec::lit(yr as int, 0)));
            if profit is None || hurdle is None {
                None
            } else {
                match carry_spec(profit.unwrap(), hurdle.unwrap(), gross, i.carry_pct) {
                    None => None,
                    Some(carry) => {
                        let net_dist = gross.sub_spec(carry);
                        let cc = s.cum_contributions.add_spec(contribution);
                        let cd = oadd(Some(s.cum_distributions), net_dist);
                        let ncf = osub(net_dist, Some(contribution));
                        let cnet = oadd(Some(s.cum_net_cf), ncf);
                        if net_dist is None || cc is None || cd is None || ncf is None || cnet
                            is None {
                            None
                        } else {
                            let (net_dist, cc, cd, ncf, cnet) = (
                                net_dist.unwrap(),
                                cc.unwrap(),
                                cd.unwrap(),
                                ncf.unwrap(),
                                cnet.unwrap(),
                            );
                            let tvpi = multiple(cd.add_spec(nav), cc);
                            let dpi = multiple(Some(cd), cc);
                            let rvpi = multiple(Some(nav), cc);
                            let net_cf = if yr == n {
                                osub(net_dist.add_spec(nav), Some(contribution))
                            } else {
                                net_dist.sub_spec(contribution)
                            };
                            let gross_cf = if yr == n {
                                osub(gross.add_spec(nav), Some(dd))
                            } else {
                                gross.sub_spec(dd)
                            };
                            if tvpi is None || dpi is None || rvpi is None || net_cf is None
                                || gross_cf is None {
                                None
                            } else {
                                let net2 = net.push(net_cf.unwrap());
                                let cirr = if yr == 0 {
                                    Some(dzero())
                                } else {
                                    match interim_cfs(net2, nav, yr, n) {
                                        Some(cfs) => irr_spec(cfs),
                                        None => None,
                                    }
                                };
                                match cirr {
                                    None => None,
                                    Some(cirr) => {
                                        let lower = cnet.lt_spec(s.trough_value);
                                        Some(
                                            (
                                                JRunning {
                                                    nav,
                                                    cum_contributions: cc,
                                                    cum_distributions: cd,
                                                    cum_net_cf: cnet,
                                                    total_contributed: tc,
                                                    trough_year: if lower {
                                                        yr as u32
                                                    } else {
                                                        s.trough_year
                                                    },
                                                    trough_value: if lower {
                                                        cnet
                                                    } else {
                                                        s.trough_value
                                                    },
                                                },
                                                net_cf.unwrap(),
                                                gross_cf.unwrap(),
                                                JCurvePeriod {
                                                    year: yr as u32,
                                                    contributions: contribution,
                                                    distributions: net_dist,
                                                    nav,
                                                    net_cash_flow: ncf,
                                                    tvpi: tvpi.unwrap(),
                                                    dpi: dpi.unwrap(),
                                                    rvpi: rvpi.unwrap(),
                                                    cumulative_irr: cirr,
                                                },
                                            ),
                                        )
                                    },
                                }
                            }
                        }
                    },
                }
            }
        }
    }
}

/// The first `k` years: running totals, net and gross cash flows, and periods.
pub open spec fn jrun(i: JCurveInput, k: nat) -> Option<(JRunning, Seq<Dec>, Seq<Dec>, Seq<JCurvePeriod>)>
    decreases k,
{
    if k == 0 {
        Some((initial_running(), Seq::empty(), Seq::empty(), Seq::empty()))
    } else {
        match jrun(i, (k - 1) as nat) {
            Some(p) => match jyear(i, p.0, p.1, (k - 1) as nat) {
                Some(y) => Some((y.0, p.1.push(y.1), p.2.push(y.2), p.3.push(y.3))),
                None => None,
            },
            None => None,
        }
    }
}

// ---------------------------------------------------------------------------
// Specification: PME
// ---------------------------------------------------------------------------

/// Index level after `k` returns, from 1.
pub open spec fn index_level(rets: Seq<Dec>, k: nat) -> Option<Dec>
    decreases k,
{
    if k == 0 {
        Some(Dec::lit(1, 0))
    } else {
        omul(index_level(rets, (k - 1) as nat), Dec::lit(1, 0).add_spec(rets[k - 1]))
    }
}

/// Index level of period `p`: the level after `p` returns, the final level past them.
pub open spec fn period_level(rets: Seq<Dec>, p: nat) -> Option<Dec> {
    if p <= rets.len() {
        index_level(rets, p)
    } else {
        index_level(rets, rets.len())
    }
}

/// Future-valued distributions (with the terminal NAV) and contributions over the first
/// `k` periods; periods whose index level is zero are skipped.
pub open spec fn pme_fold(rets: Seq<Dec>, ps: Seq<JCurvePeriod>, end: Dec, k: nat) -> Option<(Dec, Dec)>
    decreases k,
{
    if k == 0 {
        Some((dzero(), dzero()))
    } else {
        match pme_fold(rets, ps, end, (k - 1) as nat) {
            None => None,
            Some(acc) => {
                let j = (k - 1) as nat;
                match period_level(rets, j) {
                    None => None,
                    Some(idx) => if idx.is_zero_spec() {
                        Some(acc)
                    } else {
                        match end.div_spec(idx) {
                            None => None,
                            Some(fv) => {
                                let p = ps[j as int];
                                let d1 = oadd(Some(acc.0), p.distributions.mul_spec(fv));
                                let c1 = oadd(Some(acc.1), p.contributions.mul_spec(fv));
                                let d2 = if j == ps.len() - 1 {
                                    oadd(d1, p.nav.mul_spec(fv))
                                } else {
                                    d1
                                };
                                if d2 is Some && c1 is Some {
                                    Some((d2.unwrap(), c1.unwrap()))
                                } else {
                                    None
                                }
                            },
                        }
                    },
                }
            },
        }
    }
}

/// Kaplan-Schoar PME: future-valued distributions and final NAV over future-valued
/// contributions; zero without index returns or contributions.
pub open spec fn pme_spec(rets: Seq<Dec>, ps: Seq<JCurvePeriod>) -> Option<Dec> {
    if rets.len() == 0 {
        Some(dzero())
    } else {
        match index_level(rets, rets.len()) {
            None => None,
            Some(last) => {
                let end = if last.is_zero_spec() {
                    Dec::lit(1, 0)
                } else {
                    last
                };
                match pme_fold(rets, ps, end, ps.len()) {
                    None => None,
                    Some(acc) => if acc.1.is_zero_spec() {
                        Some(dzero())
                    } else {
                        acc.0.div_spec(acc.1)
                    },
                }
            },
        }
    }
}

pub open spec fn j_defined(i: JCurveInput) -> bool {
    match jrun(i, i.fund_life_years as nat + 1) {
        Some(r) => irr_spec(r.1) is Some && irr_spec(r.2) is Some && pme_spec(
            i.public_index_returns@,
            r.3,
        ) is Some,
        None => false,
    }
}

// ---------------------------------------------------------------------------
// Implementation: IRR
// ---------------------------------------------------------------------------

fn npv_exec(cfs: &Vec<Dec>, denom: Dec) -> (r: FinResult<(Dec, Dec)>)
    requires
        cfs@.len() <= 0x1_0000_0000,
    ensures
        r is Err <==> npv_fold(cfs@, denom, cfs@.len()) is None,
        r is Err ==> r == Err::<(Dec, Dec), FinError>(FinError::ArithmeticOverflow),
        r matches Ok(t) ==> npv_fold(cfs@, denom, cfs@.len()) matches Some(p) && p.0 == t.0
            && p.1 == t.1,
{
    let mut npv = Dec::zero();
    let mut dnpv = Dec::zero();
    let mut df = Dec::one();
    let mut t: usize = 0;
    while t < cfs.len()
        invariant
            t <= cfs@.len(),
            cfs@.len() <= 0x1_0000_0000,
            npv_fold(cfs@, denom, t as nat) == Some((npv, dnpv, df)),
        decreases cfs@.len() - t,
    {
        let cf = cfs[t];
        if t == 0 {
            npv = match npv.add(&cf) {
                Ok(x) => x,
                Err(e) => {
                    proof {
                        lemma_npv_none(cfs@, denom, 1, cfs@.len());
                    }
                    return Err(e);
                },
            };
        } else {
            let step: FinResult<(Dec, Dec, Dec)> = (|| -> (rr: FinResult<(Dec, Dec, Dec)>)
                ensures
                    rr is Err <==> npv_fold(cfs@, denom, (t + 1) as nat) is None,
                    rr is Err ==> rr == Err::<(Dec, Dec, Dec), FinError>(
                        FinError::ArithmeticOverflow,
                    ),
                    rr matches Ok(v) ==> npv_fold(cfs@, denom, (t + 1) as nat) == Some(v),
                {
                    let df2 = df.div(&denom)?;
                    let npv2 = npv.add(&cf.mul(&df2)?)?;
                    let td = Dec::from_u64(t as u64);
                    let term = td.neg().mul(&cf)?.mul(&df2)?.div(&denom)?;
                    let dnpv2 = dnpv.add(&term)?;
                    Ok((npv2, dnpv2, df2))
                })();
            match step {
                Ok(v) => {
                    npv = v.0;
                    dnpv = v.1;
                    df = v.2;
                },
                Err(e) => {
                    proof {
                        lemma_npv_none(cfs@, denom, (t + 1) as nat, cfs@.len());
                    }
                    return Err(e);
                },
            }
        }
        t = t + 1;
    }
    Ok((npv, dnpv))
}

proof fn lemma_npv_none(cfs: Seq<Dec>, denom: Dec, k: nat, n: nat)
    requires
        k <= n,
        npv_fold(cfs, denom, k) is None,
    ensures
        npv_fold(cfs, denom, n) is None,
    decreases n - k,
{
    if k < n {
        lemma_npv_none(cfs, denom, k + 1, n);
    }
}

fn clamp_exec(rate: Dec) -> (r: Dec)
    ensures
        r == clamp_rate(rate),
{
    let lo = Dec::new(-99, 2);
    let hi = Dec::new(100, 1);
    let r1 = if rate.lt(&lo) {
        lo
    } else {
        rate
    };
    if r1.gt(&hi) {
        hi
    } else {
        r1
    }
}

/// IRR by Newton's method: 30 steps from 0.10, a step restarting from 0.05 when
/// `1 + rate` is zero, stopping on a zero derivative or a step below 1e-7, the rate
/// clamped to [-0.99, 10]. Zero for fewer than two cash flows.
pub fn newton_irr(cash_flows: &Vec<Dec>) -> (r: FinResult<Dec>)
    requires
        cash_flows@.len() <= 0x1_0000_0000,
    ensures
        r == lift(irr_spec(cash_flows@)),
{
    if cash_flows.len() < 2 {
        return Ok(Dec::zero());
    }
    let one = Dec::one();
    let eps = Dec::new(1, 7);
    let mut rate = Dec::new(10, 2);
    let mut it: u32 = 0;
    while it < 30
        invariant
            it <= 30,
            cash_flows@.len() >= 2,
            cash_flows@.len() <= 0x1_0000_0000,
            one == Dec::lit(1, 0),
            eps == Dec::lit(1, 7),
            irr_spec(cash_flows@) == irr_iter(cash_flows@, rate, it as nat),
        decreases 30 - it,
    {
        let denom = one.add(&rate)?;
        if denom.is_zero() {
            rate = Dec::new(5, 2);
        } else {
            let (npv, dnpv) = npv_exec(cash_flows, denom)?;
            if dnpv.is_zero() {
                return Ok(rate);
            }
            let delta = npv.div(&dnpv)?;
            let r = rate.sub(&delta)?;
            rate = clamp_exec(r);
            if delta.abs().lt(&eps) {
                return Ok(rate);
            }
        }
        it = it + 1;
    }
    Ok(rate)
}

// ---------------------------------------------------------------------------
// Implementation: validation
// ---------------------------------------------------------------------------

fn str_of(s: &str) -> (r: String)
    ensures
        r@ == s@,
{
    String::from_str(s)
}

fn invalid(field: &str, reason: &str) -> (e: FinError)
    ensures
        err_view(e) == invalid_input(field@, reason@),
{
    FinError::InvalidInput { field: str_of(field), reason: str_of(reason) }
}

proof fn lemma_first_negative_some(s: Seq<Dec>, k: int)
    requires
        0 <= k <= s.len(),
        first_negative(s.take(k)) is Some,
    ensures
        first_negative(s) == first_negative(s.take(k)),
    decreases s.len() - k,
{
    if k == s.len() {
        assert(s.take(k) =~= s);
    } else {
        assert(s.take(k + 1).drop_last() =~= s.take(k));
        lemma_first_negative_some(s, k + 1);
    }
}

fn find_negative(v: &Vec<Dec>) -> (r: Option<usize>)
    ensures
        r matches Some(k) ==> first_negative(v@) == Some(k as nat),
        r is None ==> first_negative(v@) is None,
{
    let zero = Dec::zero();
    let mut j: usize = 0;
    while j < v.len()
        invariant
            j <= v@.len(),
            zero == dzero(),
            first_negative(v@.take(j as int)) is None,
        decreases v@.len() - j,
    {
        proof {
            assert(v@.take(j + 1).drop_last() =~= v@.take(j as int));
        }
        if v[j].lt(&zero) {
            proof {
                lemma_first_negative_some(v@, j + 1);
            }
            return Some(j);
        }
        j = j + 1;
    }
    proof {
        assert(v@.take(v@.len() as int) =~= v@);
    }
    None
}

fn indexed(name: &str, k: usize) -> (r: String)
    ensures
        r@ == indexed_field(name@, k as nat),
{
    let r = str_of(name).concat("[").concat(usize_to_string(k).as_str()).concat("]");
    proof {
        assert(r@ =~= indexed_field(name@, k as nat));
    }
    r
}

fn validate_j_curve_input(input: &JCurveInput) -> (r: FinResult<()>)
    ensures
        r is Err <==> j_validation(*input) is Some,
        r matches Err(e) ==> Some(err_view(e)) == j_validation(*input),
{
    let zero = Dec::zero();
    if input.total_commitment.le(&zero) {
        return Err(invalid("total_commitment", "Total commitment must be positive."));
    }
    if input.fund_life_years == 0 {
        return Err(invalid("fund_life_years", "Fund life must be at least 1 year."));
    }
    if input.drawdown_schedule.len() == 0 {
        return Err(
            FinError::InsufficientData(str_of("Drawdown schedule must have at least one entry.")),
        );
    }
    if input.distribution_schedule.len() == 0 {
        return Err(
            FinError::InsufficientData(
                str_of("Distribution schedule must have at least one entry."),
            ),
        );
    }
    match find_negative(&input.drawdown_schedule) {
        Some(k) => {
            return Err(
                FinError::InvalidInput {
                    field: indexed("drawdown_schedule", k),
                    reason: str_of("Drawdown percentages cannot be negative."),
                },
            );
        },
        None => {},
    }
    match find_negative(&input.distribution_schedule) {
        Some(k) => {
            return Err(
                FinError::InvalidInput {
                    field: indexed("distribution_schedule", k),
                    reason: str_of("Distribution percentages cannot be negative."),
                },
            );
        },
        None => {},
    }
    if input.management_fee_pct.lt(&zero) || input.management_fee_pct.gt(&Dec::new(10, 2)) {
        return Err(invalid("management_fee_pct", "Management fee must be in [0, 0.10]."));
    }
    if input.carry_pct.lt(&zero) || input.carry_pct.gt(&Dec::one()) {
        return Err(invalid("carry_pct", "Carry percentage must be in [0, 1]."));
    }
    if input.preferred_return.lt(&zero) {
        return Err(invalid("preferred_return", "Preferred return cannot be negative."));
    }
    Ok(())
}

// ---------------------------------------------------------------------------
// Implementation: the yearly model
// ---------------------------------------------------------------------------

fn rate_at_exec(s: &Vec<Dec>, yr: usize) -> (r: Dec)
    ensures
        r == rate_at(s@, yr as nat),
{
    if yr < s.len() {
        s[yr]
    } else {
        Dec::zero()
    }
}

fn multiple_exec(num: Dec, cc: Dec) -> (r: FinResult<Dec>)
    ensures
        r == lift(multiple(Some(num), cc)),
{
    if cc.is_zero() {
        Ok(Dec::zero())
    } else {
        num.div(&cc)
    }
}

fn year_exec(input: &JCurveInput, s: &JRunning, net: &Vec<Dec>, yr: usize) -> (r: FinResult<(JRunning, Dec, Dec, JCurvePeriod)>)
    requires
        yr <= input.fund_life_years,
        net@.len() == yr,
    ensures
        r is Err <==> jyear(*input, *s, net@, yr as nat) is None,
        r is Err ==> r == Err::<(JRunning, Dec, Dec, JCurvePeriod), FinError>(
            FinError::ArithmeticOverflow,
        ),
        r matches Ok(t) ==> jyear(*input, *s, net@, yr as nat) == Some(t),
{
    let n = input.fund_life_years as usize;
    let c = input.total_commitment;
    let zero = Dec::zero();
    let drawdown = c.mul(&rate_at_exec(&input.drawdown_schedule, yr))?;
    let fee = if yr == 0 {
        Dec::zero()
    } else {
        c.mul(&input.management_fee_pct)?
    };
    let contribution = drawdown.add(&fee)?;
    let tc = s.total_contributed.add(&drawdown)?;
    let nav1 = if yr > 0 {
        s.nav.mul(&Dec::one().add(&input.growth_rate)?)?
    } else {
        s.nav
    };
    let nav2 = nav1.add(&drawdown)?;
    let gross = nav2.mul(&rate_at_exec(&input.distribution_schedule, yr))?;
    let nav = nav2.sub(&gross)?;
    let profit = s.cum_distributions.add(&gross)?.add(&nav)?.sub(&tc)?;
    let hurdle = tc.mul(&input.preferred_return)?.mul(&Dec::from_u64(yr as u64))?;
    let carry = if profit.gt(&hurdle) && gross.gt(&zero) {
        let ca = profit.sub(&hurdle)?.mul(&input.carry_pct)?;
        if ca.gt(&gross) {
            gross
        } else {
            ca
        }
    } else {
        Dec::zero()
    };
    let net_dist = gross.sub(&carry)?;
    let cc = s.cum_contributions.add(&contribution)?;
    let cd = s.cum_distributions.add(&net_dist)?;
    let ncf = net_dist.sub(&contribution)?;
    let cnet = s.cum_net_cf.add(&ncf)?;
    let tvpi = if cc.is_zero() {
        Dec::zero()
    } else {
        cd.add(&nav)?.div(&cc)?
    };
    let dpi = multiple_exec(cd, cc)?;
    let rvpi = multiple_exec(nav, cc)?;
    let net_cf = if yr == n {
        net_dist.add(&nav)?.sub(&contribution)?
    } else {
        net_dist.sub(&contribution)?
    };
    let gross_cf = if yr == n {
        gross.add(&nav)?.sub(&drawdown)?
    } else {
        gross.sub(&drawdown)?
    };
    let cirr = if yr == 0 {
        Dec::zero()
    } else {
        let mut cfs = net.clone();
        cfs.push(net_cf);
        proof {
            assert(cfs@ == net@.push(net_cf));
        }
        if yr < n {
            let last = cfs.len() - 1;
            let v = cfs[last].add(&nav)?;
            cfs.set(last, v);
        }
        newton_irr(&cfs)?
    };
    let lower = cnet.lt(&s.trough_value);
    Ok(
        (
            JRunning {
                nav,
                cum_contributions: cc,
                cum_distributions: cd,
                cum_net_cf: cnet,
                total_contributed: tc,
                trough_year: if lower {
                    yr as u32
                } else {
                    s.trough_year
                },
                trough_value: if lower {
                    cnet
                } else {
                    s.trough_value
                },
            },
            net_cf,
            gross_cf,
            JCurvePeriod {
                year: yr as u32,
                contributions: contribution,
                distributions: net_dist,
                nav,
                net_cash_flow: ncf,
                tvpi,
                dpi,
                rvpi,
                cumulative_irr: cirr,
            },
        ),
    )
}

fn calculate_pme(rets: &Vec<Dec>, ps: &Vec<JCurvePeriod>) -> (r: FinResult<Dec>)
    ensures
        r == lift(pme_spec(rets@, ps@)),
{
    if rets.len() == 0 {
        return Ok(Dec::zero());
    }
    let one = Dec::one();
    let mut levels: Vec<Dec> = Vec::new();
    let mut level = Dec::one();
    levels.push(level);
    let mut k: usize = 0;
    while k < rets.len()
        invariant
            k <= rets@.len(),
            one == Dec::lit(1, 0),
            index_level(rets@, k as nat) == Some(level),
            levels@.len() == k + 1,
            forall|q: int| 0 <= q <= k ==> index_level(rets@, q as nat) == Some(#[trigger] levels@[q]),
        decreases rets@.len() - k,
    {
        let step = match one.add(&rets[k]) {
            Ok(f) => level.mul(&f),
            Err(e) => Err(e),
        };
        level = match step {
            Ok(x) => x,
            Err(e) => {
                proof {
                    lemma_index_none(rets@, (k + 1) as nat, rets@.len());
                }
                return Err(e);
            },
        };
        levels.push(level);
        k = k + 1;
    }
    let end = if level.is_zero() {
        Dec::one()
    } else {
        level
    };
    let mut pvd = Dec::zero();
    let mut pvc = Dec::zero();
    let mut j: usize = 0;
    while j < ps.len()
        invariant
            j <= ps@.len(),
            rets@.len() > 0,
            levels@.len() == rets@.len() + 1,
            forall|q: int|
                0 <= q <= rets@.len() ==> index_level(rets@, q as nat) == Some(#[trigger] levels@[q]),
            end == if levels@[rets@.len() as int].is_zero_spec() {
                Dec::lit(1, 0)
            } else {
                levels@[rets@.len() as int]
            },
            pme_fold(rets@, ps@, end, j as nat) == Some((pvd, pvc)),
        decreases ps@.len() - j,
    {
        let idx = if j <= rets.len() {
            levels[j]
        } else {
            levels[rets.len()]
        };
        if !idx.is_zero() {
            let p = &ps[j];
            let step: FinResult<(Dec, Dec)> = (|| -> (rr: FinResult<(Dec, Dec)>)
                ensures
                    rr is Err <==> pme_fold(rets@, ps@, end, (j + 1) as nat) is None,
                    rr is Err ==> rr == Err::<(Dec, Dec), FinError>(FinError::ArithmeticOverflow),
                    rr matches Ok(v) ==> pme_fold(rets@, ps@, end, (j + 1) as nat) == Some(v),
                {
                    let fv = end.div(&idx)?;
                    let d1 = pvd.add(&p.distributions.mul(&fv)?)?;
                    let c1 = pvc.add(&p.contributions.mul(&fv)?)?;
                    let d2 = if j == ps.len() - 1 {
                        d1.add(&p.nav.mul(&fv)?)?
                    } else {
                        d1
                    };
                    Ok((d2, c1))
                })();
            match step {
                Ok(v) => {
                    pvd = v.0;
                    pvc = v.1;
                },
                Err(e) => {
                    proof {
                        lemma_pme_none(rets@, ps@, end, (j + 1) as nat, ps@.len());
                    }
                    return Err(e);
                },
            }
        }
        j = j + 1;
    }
    if pvc.is_zero() {
        Ok(Dec::zero())
    } else {
        pvd.div(&pvc)
    }
}

proof fn lemma_index_none(rets: Seq<Dec>, k: nat, n: nat)
    requires
        k <= n,
        index_level(rets, k) is None,
    ensures
        index_level(rets, n) is None,
    decreases n - k,
{
    if k < n {
        lemma_index_none(rets, k + 1, n);
    }
}

proof fn lemma_pme_none(rets: Seq<Dec>, ps: Seq<JCurvePeriod>, end: Dec, k: nat, n: nat)
    requires
        k <= n,
        pme_fold(rets, ps, end, k) is None,
    ensures
        pme_fold(rets, ps, end, n) is None,
    decreases n - k,
{
    if k < n {
        lemma_pme_none(rets, ps, end, k + 1, n);
    }
}

proof fn lemma_jrun_none(i: JCurveInput, k: nat, n: nat)
    requires
        k <= n,
        jrun(i, k) is None,
    ensures
        jrun(i, n) is None,
    decreases n - k,
{
    if k < n {
        lemma_jrun_none(i, k + 1, n);
    }
}

/// The J-curve of a fund over its life, year 0 to the final year: contributions, net
/// distributions, NAV, multiples and interim IRR of each year, final multiples, net and
/// gross IRR, the trough of cumulative net cash flow and the Kaplan-Schoar PME.
pub fn calculate_j_curve(input: &JCurveInput) -> (r: FinResult<JCurveOutput>)
    requires
        input.fund_life_years < u32::MAX,
    ensures
        j_validation(*input) is Some ==> (r matches Err(e) && Some(err_view(e)) == j_validation(
            *input,
        )),
        j_validation(*input) is None ==> (r is Ok <==> j_defined(*input)),
        j_validation(*input) is None && !j_defined(*input) ==> r == Err::<JCurveOutput, FinError>(
            FinError::ArithmeticOverflow,
        ),
        r matches Ok(out) ==> {
            let run = jrun(*input, input.fund_life_years as nat + 1).unwrap();
            &&& out.periods@ == run.3
            &&& out.final_tvpi == run.3.last().tvpi
            &&& out.final_dpi == run.3.last().dpi
            &&& Some(out.net_irr) == irr_spec(run.1)
            &&& Some(out.gross_irr) == irr_spec(run.2)
            &&& Some(out.pme_kaplan_schoar) == pme_spec(input.public_index_returns@, run.3)
            &&& out.j_curve_trough_year == run.0.trough_year
            &&& out.j_curve_trough_value == run.0.trough_value
            &&& jrun_consistent(run, input.fund_life_years as nat + 1)
        },
{
    validate_j_curve_input(input)?;
    let n = input.fund_life_years as usize;
    let zero = Dec::zero();
    let mut s = JRunning {
        nav: zero,
        cum_contributions: zero,
        cum_distributions: zero,
        cum_net_cf: zero,
        total_contributed: zero,
        trough_year: 0,
        trough_value: zero,
    };
    let mut net: Vec<Dec> = Vec::new();
    let mut gross: Vec<Dec> = Vec::new();
    let mut periods: Vec<JCurvePeriod> = Vec::new();
    let mut yr: usize = 0;
    while yr <= n
        invariant
            yr <= n + 1,
            n == input.fund_life_years,
            n < u32::MAX,
            j_validation(*input) is None,
            jrun(*input, yr as nat) == Some((s, net@, gross@, periods@)),
            net@.len() == yr,
            gross@.len() == yr,
            periods@.len() == yr,
        decreases n + 1 - yr,
    {
        let y = match year_exec(input, &s, &net, yr) {
            Ok(y) => y,
            Err(e) => {
                proof {
                    assert(jrun(*input, (yr + 1) as nat) is None);
                    lemma_jrun_none(*input, (yr + 1) as nat, n as nat + 1);
                }
                return Err(e);
            },
        };
        s = y.0;
        net.push(y.1);
        gross.push(y.2);
        periods.push(y.3);
        yr = yr + 1;
    }
    let last = periods.len() - 1;
    let final_tvpi = periods[last].tvpi;
    let final_dpi = periods[last].dpi;
    let net_irr = newton_irr(&net)?;
    let gross_irr = newton_irr(&gross)?;
    let pme = calculate_pme(&input.public_index_returns, &periods)?;
    proof {
        lemma_jrun_consistent(*input, n as nat + 1);
    }
    Ok(
        JCurveOutput {
            periods,
            final_tvpi,
            final_dpi,
            pme_kaplan_schoar: pme,
            net_irr,
            gross_irr,
            j_curve_trough_year: s.trough_year,
            j_curve_trough_value: s.trough_value,
        },
    )
}

/// Cumulative net cash flow after the first `k` periods, from zero.
pub open spec fn cum_net(ps: Seq<JCurvePeriod>, k: nat) -> Option<Dec>
    decreases k,
{
    if k == 0 {
        Some(dzero())
    } else {
        oadd(cum_net(ps, (k - 1) as nat), Some(ps[k - 1].net_cash_flow))
    }
}

/// What the first `k` years of the model keep: one period per year numbered from 0, each
/// period's net cash flow its distributions less its contributions, the running cumulative
/// net cash flow, and the trough as the first strictly lowest cumulative value below zero
/// (zero in year 0 when none falls below zero).
pub open spec fn jrun_consistent(run: (JRunning, Seq<Dec>, Seq<Dec>, Seq<JCurvePeriod>), k: nat) -> bool {
    let (st, ps) = (run.0, run.3);
    let t = st.trough_value;
    let y = st.trough_year as int;
    &&& ps.len() == k
    &&& forall|j: int| 0 <= j < k ==> (#[trigger] ps[j]).year == j
    &&& forall|j: int|
        0 <= j < k ==> Some((#[trigger] ps[j]).net_cash_flow) == ps[j].distributions.sub_spec(
            ps[j].contributions,
        )
    &&& forall|j: int| 0 <= j <= k ==> (#[trigger] cum_net(ps, j as nat)) is Some
    &&& cum_net(ps, k) == Some(st.cum_net_cf)
    &&& t.le_spec(dzero())
    &&& forall|j: int| 0 <= j < k ==> t.le_spec((#[trigger] cum_net(ps, (j + 1) as nat)).unwrap())
    &&& if t.lt_spec(dzero()) {
        &&& 0 <= y < k
        &&& cum_net(ps, (y + 1) as nat) == Some(t)
        &&& forall|j: int| 0 <= j < y ==> t.lt_spec((#[trigger] cum_net(ps, (j + 1) as nat)).unwrap())
    } else {
        &&& t == dzero()
        &&& y == 0
    }
}

proof fn lemma_cum_net_prefix(ps: Seq<JCurvePeriod>, p: JCurvePeriod, k: nat)
    requires
        k <= ps.len(),
    ensures
        cum_net(ps.push(p), k) == cum_net(ps, k),
    decreases k,
{
    if k > 0 {
        lemma_cum_net_prefix(ps, p, (k - 1) as nat);
        assert(ps.push(p)[k - 1] == ps[k - 1]);
    }
}

proof fn lemma_jyear_facts(i: JCurveInput, s: JRunning, net: Seq<Dec>, yr: nat)
    requires
        jyear(i, s, net, yr) is Some,
    ensures
        ({
            let y = jyear(i, s, net, yr).unwrap();
            let p = y.3;
            let lower = y.0.cum_net_cf.lt_spec(s.trough_value);
            &&& p.year == yr as u32
            &&& Some(p.net_cash_flow) == p.distributions.sub_spec(p.contributions)
            &&& Some(y.0.cum_net_cf) == s.cum_net_cf.add_spec(p.net_cash_flow)
            &&& y.0.trough_year == if lower {
                yr as u32
            } else {
                s.trough_year
            }
            &&& y.0.trough_value == if lower {
                y.0.cum_net_cf
            } else {
                s.trough_value
            }
        }),
{
}

proof fn lemma_jrun_consistent(i: JCurveInput, k: nat)
    requires
        jrun(i, k) is Some,
        k <= u32::MAX,
    ensures
        jrun_consistent(jrun(i, k).unwrap(), k),
    decreases k,
{
    if k == 0 {
        assert(dzero().le_spec(dzero()));
        assert(!dzero().lt_spec(dzero()));
    } else {
        let k1 = (k - 1) as nat;
        let prev = jrun(i, k1).unwrap();
        lemma_jrun_consistent(i, k1);
        let y = jyear(i, prev.0, prev.1, k1).unwrap();
        let run = jrun(i, k).unwrap();
        let (s0, ps0) = (prev.0, prev.3);
        let (s1, ps1) = (run.0, run.3);
        assert(ps1 == ps0.push(y.3));
        assert forall|j: int| 0 <= j <= k1 implies #[trigger] cum_net(ps1, j as nat) == cum_net(ps0, j as nat) by {
            lemma_cum_net_prefix(ps0, y.3, j as nat);
        }
        assert(ps1[k1 as int] == y.3);
        lemma_jyear_facts(i, s0, prev.1, k1);
        assert(cum_net(ps1, k1) == cum_net(ps0, k1));
        assert(cum_net(ps1, k) == oadd(cum_net(ps1, k1), Some(ps1[k1 as int].net_cash_flow)));
        assert(cum_net(ps1, k) == Some(s1.cum_net_cf));
        assert forall|j: int| 0 <= j < k implies (#[trigger] ps1[j]).year == j by {
            if j < k1 {
                assert(ps1[j] == ps0[j]);
            }
        }
        assert forall|j: int|
            0 <= j < k implies Some((#[trigger] ps1[j]).net_cash_flow) == ps1[j].distributions.sub_spec(
                ps1[j].contributions,
            ) by {
            if j < k1 {
                assert(ps1[j] == ps0[j]);
            }
        }
        assert forall|j: int| 0 <= j <= k implies (#[trigger] cum_net(ps1, j as nat)) is Some by {
            if j <= k1 {
                assert(cum_net(ps0, j as nat) is Some);
            }
        }
        let c = s1.cum_net_cf;
        let t0 = s0.trough_value;
        let t1 = s1.trough_value;
        if c.lt_spec(t0) {
            assert(t1 == c);
            Dec::lemma_lt_le_trans(c, t0, dzero());
            assert(t1.le_spec(t1));
            assert forall|j: int| 0 <= j < k1 implies t1.lt_spec(
                (#[trigger] cum_net(ps1, (j + 1) as nat)).unwrap(),
            ) by {
                assert(cum_net(ps1, (j + 1) as nat) == cum_net(ps0, (j + 1) as nat));
                Dec::lemma_lt_le_trans(c, t0, cum_net(ps0, (j + 1) as nat).unwrap());
            }
            assert forall|j: int| 0 <= j < k implies t1.le_spec(
                (#[trigger] cum_net(ps1, (j + 1) as nat)).unwrap(),
            ) by {
                if j < k1 {
                    assert(cum_net(ps1, (j + 1) as nat) == cum_net(ps0, (j + 1) as nat));
                    Dec::lemma_lt_le_trans(c, t0, cum_net(ps0, (j + 1) as nat).unwrap());
                }
            }
        } else {
            assert(t1 == t0);
            Dec::lemma_not_lt(c, t0);
            assert forall|j: int| 0 <= j < k implies t1.le_spec(
                (#[trigger] cum_net(ps1, (j + 1) as nat)).unwrap(),
            ) by {
                if j < k1 {
                    assert(cum_net(ps1, (j + 1) as nat) == cum_net(ps0, (j + 1) as nat));
                }
            }
            if t1.lt_spec(dzero()) {
                let yy = s0.trough_year as int;
                assert(cum_net(ps1, (yy + 1) as nat) == cum_net(ps0, (yy + 1) as nat));
                assert forall|j: int| 0 <= j < yy implies t1.lt_spec(
                    (#[trigger] cum_net(ps1, (j + 1) as nat)).unwrap(),
                ) by {
                    assert(cum_net(ps1, (j + 1) as nat) == cum_net(ps0, (j + 1) as nat));
                }
            }
        }
    }
}

/// The J-curve has one period per year from year 0 to the final year, numbered by year;
/// each period's net cash flow is its distributions less its contributions; the final
/// TVPI and DPI are those of the last period; the PME is zero without index returns. The
/// trough value is at most zero and at most every cumulative net cash flow; below zero it
/// is the cumulative net cash flow of the trough year, and every earlier year's is higher;
/// otherwise it is zero, in year 0.
pub proof fn lemma_j_curve_periods(i: JCurveInput)
    requires
        j_validation(i) is None,
        j_defined(i),
        i.fund_life_years < u32::MAX,
    ensures
        ({
            let run = jrun(i, i.fund_life_years as nat + 1).unwrap();
            &&& jrun_consistent(run, i.fund_life_years as nat + 1)
            &&& i.public_index_returns@.len() == 0 ==> pme_spec(i.public_index_returns@, run.3)
                == Some(dzero())
        }),
{
    lemma_jrun_consistent(i, i.fund_life_years as nat + 1);
}

} // verus!
