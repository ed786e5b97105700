//! Pricing of secondary fund interests: projected distributions and capital calls,
//! present values, fair value against NAV, IRRs at several prices and exit multiples,
//! and the breakeven exit multiple.
use vstd::prelude::*;

use crate::dec::{dzero, group_dec, lemma_sum_opt_none, lift, oadd, odiv, omul, osub, sum_opt, Dec};
use crate::error::{err_view, invalid_input, ErrView, FinError, FinResult};
use crate::fund_of_funds::j_curve::{irr_spec, newton_irr};

verus! {

broadcast use group_dec;

pub struct SecondariesPricingInput {
    pub fund_nav: Dec,
    pub unfunded_commitment: Dec,
    pub remaining_life_years: u32,
    /// Expected annual distribution rate on NAV.
    pub expected_distribution_rate: Dec,
    /// Expected annual NAV growth rate.
    pub expected_growth_rate: Dec,
    /// Buyer's discount rate.
    pub discount_rate: Dec,
    pub management_fee_pct: Dec,
    pub carry_pct: Dec,
}

/// IRR at an exit multiple of the terminal NAV.
pub struct IrrScenario {
    pub multiple: Dec,
    pub irr: Dec,
}

pub struct SecondariesPricingOutput {
    /// PV of distributions + PV of terminal NAV - PV of capital calls.
    pub fair_value: Dec,
    /// fair value / NAV - 1
    pub nav_discount_pct: Dec,
    pub unfunded_pv: Dec,
    pub distributions_pv: Dec,
    pub terminal_value_pv: Dec,
    pub irr_at_nav: Dec,
    pub irr_at_discount: Dec,
    pub irr_scenarios: Vec<IrrScenario>,
    /// Exit multiple of the terminal NAV at which the IRR is zero.
    pub breakeven_multiple: Dec,
}

// ---------------------------------------------------------------------------
// Specification
// ---------------------------------------------------------------------------

pub open spec fn sec_validation(i: SecondariesPricingInput) -> Option<ErrView> {
    let zero = dzero();
    let one = Dec::lit(1, 0);
    if i.fund_nav.le_spec(zero) {
        Some(invalid_input("fund_nav"@, "Fund NAV must be positive."@))
    } else if i.unfunded_commitment.lt_spec(zero) {
        Some(invalid_input("unfunded_commitment"@, "Unfunded commitment cannot be negative."@))
    } else if i.remaining_life_years == 0 {
        Some(invalid_input("remaining_life_years"@, "Remaining life must be at least 1 year."@))
    } else if i.expected_distribution_rate.lt_spec(zero) || i.expected_distribution_rate.gt_spec(one) {
        Some(invalid_input("expected_distribution_rate"@, "Distribution rate must be in [0, 1]."@))
    } else if i.discount_rate.lt_spec(zero) {
        Some(invalid_input("discount_rate"@, "Discount rate cannot be negative."@))
    } else if i.management_fee_pct.lt_spec(zero) || i.management_fee_pct.gt_spec(Dec::lit(10, 2)) {
        Some(invalid_input("management_fee_pct"@, "Management fee must be in [0, 0.10]."@))
    } else if i.carry_pct.lt_spec(zero) || i.carry_pct.gt_spec(one) {
        Some(invalid_input("carry_pct"@, "Carry percentage must be in [0, 1]."@))
    } else {
        None
    }
}

/// One projected year: the capital call (the annual call, at most what is unfunded) is
/// added to NAV after growth, the fee is deducted, then a distribution is paid. The new
/// NAV and unfunded amount, the call and the distribution.
pub open spec fn sec_year(i: SecondariesPricingInput, nav: Dec, unf: Dec, annual: Dec) -> Option<(Dec, Dec, Dec, Dec)> {
    let call = annual.min_spec(unf);
    let unf2 = unf.sub_spec(call);
    let nav1 = omul(Some(nav), Dec::lit(1, 0).add_spec(i.expected_growth_rate));
    let nav2 = oadd(nav1, Some(call));
    let fee = omul(nav2, Some(i.management_fee_pct));
    let nav3 = osub(nav2, fee);
    let dist = omul(nav3, Some(i.expected_distribution_rate));
    let nav4 = osub(nav3, dist);
    if unf2 is Some && nav4 is Some && dist is Some {
        Some((nav4.unwrap(), unf2.unwrap(), call, dist.unwrap()))
    } else {
        None
    }
}

pub open spec fn annual_call(i: SecondariesPricingInput) -> Option<Dec> {
    i.unfunded_commitment.div_spec(Dec::lit(i.remaining_life_years as int, 0))
}

/// NAV, unfunded amount, distributions and capital calls after `k` years.
pub open spec fn sec_project(i: SecondariesPricingInput, annual: Dec, k: nat) -> Option<(Dec, Dec, Seq<Dec>, Seq<Dec>)>
    decreases k,
{
    if k == 0 {
        Some((i.fund_nav, i.unfunded_commitment, Seq::empty(), Seq::empty()))
    } else {
        match sec_project(i, annual, (k - 1) as nat) {
            None => None,
            Some(p) => match sec_year(i, p.0, p.1, annual) {
                None => None,
                Some(y) => Some((y.0, y.1, p.2.push(y.3), p.3.push(y.2))),
            },
        }
    }
}

/// The terminal NAV after carry on the gain over NAV plus unfunded commitment.
pub open spec fn terminal_spec(i: SecondariesPricingInput, nav: Dec) -> Option<Dec> {
    match i.fund_nav.add_spec(i.unfunded_commitment) {
        None => None,
        Some(ti) => if nav.gt_spec(ti) {
            osub(Some(nav), omul(nav.sub_spec(ti), Some(i.carry_pct)))
        } else {
            Some(nav)
        },
    }
}

/// The terminal NAV after carry, where the projection does not overflow.
pub open spec fn sec_terminal(i: SecondariesPricingInput) -> Option<Dec> {
    match annual_call(i) {
        None => None,
        Some(annual) => match sec_project(i, annual, i.remaining_life_years as nat) {
            None => None,
            Some(p) => terminal_spec(i, p.0),
        },
    }
}

/// Present value of the first `k` amounts, each discounted one more period, with the
/// discount factor reached.
pub open spec fn pv_fold(xs: Seq<Dec>, denom: Dec, k: nat) -> Option<(Dec, Dec)>
    decreases k,
{
    if k == 0 {
        Some((dzero(), Dec::lit(1, 0)))
    } else {
        match pv_fold(xs, denom, (k - 1) as nat) {
            None => None,
            Some(p) => match p.1.div_spec(denom) {
                None => None,
                Some(df) => match oadd(Some(p.0), xs[k - 1].mul_spec(df)) {
                    None => None,
                    Some(pv) => Some((pv, df)),
                },
            },
        }
    }
}

/// One divided by `denom` `k` times.
pub open spec fn div_times(d: Dec, denom: Dec, k: nat) -> Option<Dec>
    decreases k,
{
    if k == 0 {
        Some(d)
    } else {
        match d.div_spec(denom) {
            Some(d2) => div_times(d2, denom, (k - 1) as nat),
            None => None,
        }
    }
}

/// Cash flows of a purchase at `price`: -price, then distribution less call each year,
/// the terminal value added in the last year. The first `k + 1` of them.
pub open spec fn purchase_cfs(price: Dec, dists: Seq<Dec>, terminal: Dec, calls: Seq<Dec>, k: nat) -> Option<Seq<Dec>>
    decreases k,
{
    if k == 0 {
        Some(seq![price.neg_spec()])
    } else {
        match purchase_cfs(price, dists, terminal, calls, (k - 1) as nat) {
            None => None,
            Some(cfs) => {
                let j = k - 1;
                let call = if j < calls.len() {
                    calls[j]
                } else {
                    dzero()
                };
                let cf = if j == dists.len() - 1 {
                    oadd(dists[j].sub_spec(call), Some(terminal))
                } else {
                    dists[j].sub_spec(call)
                };
                match cf {
                    Some(c) => Some(cfs.push(c)),
                    None => None,
                }
            },
        }
    }
}

pub open spec fn irr_for_price(price: Dec, dists: Seq<Dec>, terminal: Dec, calls: Seq<Dec>) -> Option<Dec> {
    match purchase_cfs(price, dists, terminal, calls, dists.len()) {
        Some(cfs) => irr_spec(cfs),
        None => None,
    }
}

pub open spec fn scenario_multiples() -> Seq<Dec> {
    seq![Dec::lit(8, 1), Dec::lit(10, 1), Dec::lit(12, 1), Dec::lit(15, 1), Dec::lit(20, 1)]
}

pub open spec fn scenario_irr(fair: Dec, dists: Seq<Dec>, terminal: Dec, calls: Seq<Dec>, m: Dec) -> Option<Dec> {
    match terminal.mul_spec(m) {
        Some(t) => irr_for_price(fair, dists, t, calls),
        None => None,
    }
}

pub open spec fn somes(s: Seq<Dec>) -> Seq<Option<Dec>> {
    s.map_values(|d: Dec| Some(d))
}

/// The model's figures: fair value, NAV discount, PVs of calls, distributions and
/// terminal value, IRR at NAV and at fair value, the scenario IRRs and breakeven multiple.
pub struct SecFigures {
    pub fair_value: Dec,
    pub nav_discount_pct: Dec,
    pub unfunded_pv: Dec,
    pub distributions_pv: Dec,
    pub terminal_value_pv: Dec,
    pub irr_at_nav: Dec,
    pub irr_at_discount: Dec,
    pub scenario_irrs: Seq<Dec>,
    pub breakeven_multiple: Dec,
}

pub open spec fn sec_figures(i: SecondariesPricingInput) -> Option<SecFigures> {
    let n = i.remaining_life_years as nat;
    match annual_call(i) {
        None => None,
        Some(annual) => match sec_project(i, annual, n) {
            None => None,
            Some(p) => {
                let (nav, dists, calls) = (p.0, p.2, p.3);
                let terminal = terminal_spec(i, nav);
                let denom = Dec::lit(1, 0).add_spec(i.discount_rate);
                match (terminal, denom) {
                    (Some(terminal), Some(denom)) => {
                        let dpv = pv_fold(dists, denom, n);
                        let upv = pv_fold(calls, denom, n);
                        let tpv = omul(Some(terminal), div_times(Dec::lit(1, 0), denom, n));
                        match (dpv, upv, tpv) {
                            (Some(dpv), Some(upv), Some(tpv)) => {
                                let fair = osub(dpv.0.add_spec(tpv), Some(upv.0));
                                match fair {
                                    None => None,
                                    Some(fair) => {
                                        let disc = if i.fund_nav.is_zero_spec() {
                                            Some(dzero())
                                        } else {
                                            osub(fair.div_spec(i.fund_nav), Some(Dec::lit(1, 0)))
                                        };
                                        let at_nav = irr_for_price(i.fund_nav, dists, terminal, calls);
                                        let at_fair = irr_for_price(fair, dists, terminal, calls);
                                        let ms = scenario_multiples();
                                        let s0 = scenario_irr(fair, dists, terminal, calls, ms[0]);
                                        let s1 = scenario_irr(fair, dists, terminal, calls, ms[1]);
                                        let s2 = scenario_irr(fair, dists, terminal, calls, ms[2]);
                                        let s3 = scenario_irr(fair, dists, terminal, calls, ms[3]);
                                        let s4 = scenario_irr(fair, dists, terminal, calls, ms[4]);
                                        let td = sum_opt(somes(dists));
                                        let tc = sum_opt(somes(calls));
                                        let be = if terminal.is_zero_spec() {
                                            Some(dzero())
                                        } else {
                                            match osub(oadd(Some(fair), tc), td) {
                                                None => None,
                                                Some(needed) => if needed.le_spec(dzero()) {
                                                    Some(dzero())
                                                } else {
                                                    needed.div_spec(terminal)
                                                },
                                            }
                                        };
                                        if disc is Some && at_nav is Some && at_fair is Some && s0 is Some
                                            && s1 is Some && s2 is Some && s3 is Some && s4 is Some
                                            && td is Some && tc is Some && be is Some {
                                            Some(
                                                SecFigures {
                                                    fair_value: fair,
                                                    nav_discount_pct: disc.unwrap(),
                                                    unfunded_pv: upv.0,
                                                    distributions_pv: dpv.0,
                                                    terminal_value_pv: tpv,
                                                    irr_at_nav: at_nav.unwrap(),
                                                    irr_at_discount: at_fair.unwrap(),
                                                    scenario_irrs: seq![
                                                        s0.unwrap(),
                                                        s1.unwrap(),
                                                        s2.unwrap(),
                                                        s3.unwrap(),
                                                        s4.unwrap(),
                                                    ],
                                                    breakeven_multiple: be.unwrap(),
                                                },
                                            )
                                        } else {
                                            None
                                        }
                                    },
                                }
                            },
                            _ => None,
                        }
                    },
                    _ => None,
                }
            },
        },
    }
}

// ---------------------------------------------------------------------------
// Implementation
// ---------------------------------------------------------------------------

fn str_of(s: &str) -> (r: String)
    ensures
        r@ == s@,
{
    String::from_str(s)
}

fn invalid(field: &str, reason: &str) -> (e: FinError)
    ensures
        err_view(e) == invalid_input(field@, reason@),
{
    FinError::InvalidInput { field: str_of(field), reason: str_of(reason) }
}

fn validate_secondaries_input(i: &SecondariesPricingInput) -> (r: FinResult<()>)
    ensures
        r is Err <==> sec_validation(*i) is Some,
        r matches Err(e) ==> Some(err_view(e)) == sec_validation(*i),
{
    let zero = Dec::zero();
    let one = Dec::one();
    if i.fund_nav.le(&zero) {
        return Err(invalid("fund_nav", "Fund NAV must be positive."));
    }
    if i.unfunded_commitment.lt(&zero) {
        return Err(invalid("unfunded_commitment", "Unfunded commitment cannot be negative."));
    }
    if i.remaining_life_years == 0 {
        return Err(invalid("remaining_life_years", "Remaining life must be at least 1 year."));
    }
    if i.expected_distribution_rate.lt(&zero) || i.expected_distribution_rate.gt(&one) {
        return Err(invalid("expected_distribution_rate", "Distribution rate must be in [0, 1]."));
    }
    if i.discount_rate.lt(&zero) {
        return Err(invalid("discount_rate", "Discount rate cannot be negative."));
    }
    if i.management_fee_pct.lt(&zero) || i.management_fee_pct.gt(&Dec::new(10, 2)) {
        return Err(invalid("management_fee_pct", "Management fee must be in [0, 0.10]."));
    }
    if i.carry_pct.lt(&zero) || i.carry_pct.gt(&one) {
        return Err(invalid("carry_pct", "Carry percentage must be in [0, 1]."));
    }
    Ok(())
}

fn pv_exec(xs: &Vec<Dec>, denom: Dec) -> (r: FinResult<Dec>)
    ensures
        r is Err <==> pv_fold(xs@, denom, xs@.len()) is None,
        r is Err ==> r == Err::<Dec, FinError>(FinError::ArithmeticOverflow),
        r matches Ok(v) ==> pv_fold(xs@, denom, xs@.len()) matches Some(p) && p.0 == v,
        (forall|j: int| 0 <= j < xs@.len() ==> (#[trigger] xs@[j]).m() >= 0) && denom.m() > 0 ==> (
        r matches Ok(v) ==> v.m() >= 0),
{
    let mut pv = Dec::zero();
    let mut df = Dec::one();
    let mut k: usize = 0;
    let ghost signed = (forall|j: int| 0 <= j < xs@.len() ==> (#[trigger] xs@[j]).m() >= 0)
        && denom.m() > 0;
    while k < xs.len()
        invariant
            k <= xs@.len(),
            pv_fold(xs@, denom, k as nat) == Some((pv, df)),
            signed == ((forall|j: int| 0 <= j < xs@.len() ==> (#[trigger] xs@[j]).m() >= 0)
                && denom.m() > 0),
            signed ==> pv.m() >= 0 && df.m() >= 0,
        decreases xs@.len() - k,
    {
        let step: FinResult<(Dec, Dec)> = (|| -> (rr: FinResult<(Dec, Dec)>)
            ensures
                rr is Err <==> pv_fold(xs@, denom, (k + 1) as nat) is None,
                rr is Err ==> rr == Err::<(Dec, Dec), FinError>(FinError::ArithmeticOverflow),
                rr matches Ok(v) ==> pv_fold(xs@, denom, (k + 1) as nat) == Some(v),
                rr matches Ok(v) ==> (signed ==> v.0.m() >= 0 && v.1.m() >= 0),
            {
                let df2 = df.div(&denom)?;
                let pv2 = pv.add(&xs[k].mul(&df2)?)?;
                Ok((pv2, df2))
            })();
        match step {
            Ok(v) => {
                pv = v.0;
                df = v.1;
            },
            Err(e) => {
                proof {
                    lemma_pv_none(xs@, denom, (k + 1) as nat, xs@.len());
                }
                return Err(e);
            },
        }
        k = k + 1;
    }
    Ok(pv)
}

proof fn lemma_pv_none(xs: Seq<Dec>, denom: Dec, k: nat, n: nat)
    requires
        k <= n,
        pv_fold(xs, denom, k) is None,
    ensures
        pv_fold(xs, denom, n) is None,
    decreases n - k,
{
    if k < n {
        lemma_pv_none(xs, denom, k + 1, n);
    }
}

proof fn lemma_cfs_none(p: Dec, d: Seq<Dec>, t: Dec, c: Seq<Dec>, k: nat, n: nat)
    requires
        k <= n,
        purchase_cfs(p, d, t, c, k) is None,
    ensures
        purchase_cfs(p, d, t, c, n) is None,
    decreases n - k,
{
    if k < n {
        lemma_cfs_none(p, d, t, c, k + 1, n);
    }
}

proof fn lemma_cfs_len(p: Dec, d: Seq<Dec>, t: Dec, c: Seq<Dec>, k: nat)
    ensures
        purchase_cfs(p, d, t, c, k) matches Some(cfs) ==> cfs.len() == k + 1,
    decreases k,
{
    if k > 0 {
        lemma_cfs_len(p, d, t, c, (k - 1) as nat);
    }
}

/// IRR of a purchase at `price` of the projected distributions, calls and terminal value.
fn compute_irr_for_price(price: Dec, dists: &Vec<Dec>, terminal: Dec, calls: &Vec<Dec>) -> (r: FinResult<Dec>)
    requires
        dists@.len() < 0x1_0000_0000,
    ensures
        r == lift(irr_for_price(price, dists@, terminal, calls@)),
{
    let n = dists.len();
    let mut cfs: Vec<Dec> = Vec::new();
    cfs.push(price.neg());
    let mut k: usize = 0;
    while k < n
        invariant
            k <= n,
            n == dists@.len(),
            n < 0x1_0000_0000,
            purchase_cfs(price, dists@, terminal, calls@, k as nat) == Some(cfs@),
            cfs@.len() == k + 1,
        decreases n - k,
    {
        let call = if k < calls.len() {
            calls[k]
        } else {
            Dec::zero()
        };
        let cf = if k == n - 1 {
            match dists[k].sub(&call) {
                Ok(x) => x.add(&terminal),
                Err(e) => Err(e),
            }
        } else {
            dists[k].sub(&call)
        };
        match cf {
            Ok(c) => {
                cfs.push(c);
            },
            Err(e) => {
                proof {
                    lemma_cfs_none(price, dists@, terminal, calls@, (k + 1) as nat, n as nat);
                }
                return Err(e);
            },
        }
        k = k + 1;
    }
    newton_irr(&cfs)
}

fn sum_exec(v: &Vec<Dec>) -> (r: FinResult<Dec>)
    ensures
        r == lift(sum_opt(somes(v@))),
{
    let ghost terms = somes(v@);
    let mut acc = Dec::zero();
    let mut j: usize = 0;
    while j < v.len()
        invariant
            j <= v@.len(),
            terms == somes(v@),
            sum_opt(terms.take(j as int)) == Some(acc),
        decreases v@.len() - j,
    {
        proof {
            assert(terms.take(j + 1).drop_last() =~= terms.take(j as int));
        }
        acc = match acc.add(&v[j]) {
            Ok(x) => x,
            Err(e) => {
                proof {
                    lemma_sum_opt_none(terms, j as int);
                }
                return Err(e);
            },
        };
        j = j + 1;
    }
    proof {
        assert(terms.take(terms.len() as int) =~= terms);
    }
    Ok(acc)
}

proof fn lemma_project_none(i: SecondariesPricingInput, a: Dec, k: nat, n: nat)
    requires
        k <= n,
        sec_project(i, a, k) is None,
    ensures
        sec_project(i, a, n) is None,
    decreases n - k,
{
    if k < n {
        lemma_project_none(i, a, k + 1, n);
    }
}

/// Price a secondary fund interest: project calls and distributions over the remaining
/// life, discount them and the terminal NAV (after carry) at the buyer's rate, and report
/// the fair value, its discount to NAV, IRRs at NAV, at fair value and at exit multiples
/// 0.8, 1.0, 1.2, 1.5 and 2.0, and the breakeven exit multiple.
pub fn calculate_secondaries_pricing(input: &SecondariesPricingInput) -> (r: FinResult<SecondariesPricingOutput>)
    requires
        input.remaining_life_years < u32::MAX,
    ensures
        sec_validation(*input) is Some ==> (r matches Err(e) && Some(err_view(e)) == sec_validation(
            *input,
        )),
        sec_validation(*input) is None ==> (r is Ok <==> sec_figures(*input) is Some),
        sec_validation(*input) is None && sec_figures(*input) is None ==> r == Err::<
            SecondariesPricingOutput,
            FinError,
        >(FinError::ArithmeticOverflow),
        r matches Ok(out) ==> {
            let f = sec_figures(*input).unwrap();
            &&& out.fair_value == f.fair_value
            &&& out.nav_discount_pct == f.nav_discount_pct
            &&& out.unfunded_pv == f.unfunded_pv
            &&& out.distributions_pv == f.distributions_pv
            &&& out.terminal_value_pv == f.terminal_value_pv
            &&& out.irr_at_nav == f.irr_at_nav
            &&& out.irr_at_discount == f.irr_at_discount
            &&& out.irr_scenarios@.len() == 5
            &&& forall|k: int|
                0 <= k < 5 ==> (#[trigger] out.irr_scenarios@[k]).multiple == scenario_multiples()[k]
                    && out.irr_scenarios@[k].irr == f.scenario_irrs[k]
            &&& out.breakeven_multiple == f.breakeven_multiple
            &&& out.distributions_pv.add_spec(out.terminal_value_pv) matches Some(gross)
                && gross.sub_spec(out.unfunded_pv) == Some(out.fair_value)
            &&& out.fair_value.div_spec(input.fund_nav) matches Some(q) && q.sub_spec(Dec::lit(1, 0))
                == Some(out.nav_discount_pct)
            &&& out.unfunded_pv.ge_spec(dzero())
            &&& sec_terminal(*input) matches Some(t) && (t.ge_spec(dzero())
                ==> out.breakeven_multiple.ge_spec(dzero()))
        },
{
    validate_secondaries_input(input)?;
    let ghost i = *input;
    let res: FinResult<SecondariesPricingOutput> = (|| -> (rr: FinResult<SecondariesPricingOutput>)
        ensures
            rr is Err <==> sec_figures(i) is None,
            rr is Err ==> rr == Err::<SecondariesPricingOutput, FinError>(FinError::ArithmeticOverflow),
            rr matches Ok(out) ==> {
                let f = sec_figures(i).unwrap();
                &&& out.fair_value == f.fair_value
                &&& out.nav_discount_pct == f.nav_discount_pct
                &&& out.unfunded_pv == f.unfunded_pv
                &&& out.distributions_pv == f.distributions_pv
                &&& out.terminal_value_pv == f.terminal_value_pv
                &&& out.irr_at_nav == f.irr_at_nav
                &&& out.irr_at_discount == f.irr_at_discount
                &&& out.irr_scenarios@.len() == 5
                &&& forall|k: int|
                    0 <= k < 5 ==> (#[trigger] out.irr_scenarios@[k]).multiple
                        == scenario_multiples()[k] && out.irr_scenarios@[k].irr == f.scenario_irrs[k]
                &&& out.breakeven_multiple == f.breakeven_multiple
                &&& out.unfunded_pv.ge_spec(dzero())
                &&& sec_terminal(i) matches Some(t) && (t.ge_spec(dzero())
                    ==> out.breakeven_multiple.ge_spec(dzero()))
            },
        {
            let one = Dec::one();
            let n = input.remaining_life_years as usize;
            proof {
                Dec::lemma_nonneg(input.unfunded_commitment);
                Dec::lemma_nonneg(input.discount_rate);
            }
            let annual = input.unfunded_commitment.div(&Dec::from_u64(n as u64))?;
            let mut nav = input.fund_nav;
            let mut unf = input.unfunded_commitment;
            let mut dists: Vec<Dec> = Vec::new();
            let mut calls: Vec<Dec> = Vec::new();
            let mut yr: usize = 0;
            while yr < n
                invariant
                    yr <= n,
                    n == i.remaining_life_years,
                    i == *input,
                    annual_call(i) == Some(annual),
                    one == Dec::lit(1, 0),
                    sec_project(i, annual, yr as nat) == Some((nav, unf, dists@, calls@)),
                    annual.m() >= 0,
                    unf.m() >= 0,
                    forall|j: int| 0 <= j < calls@.len() ==> (#[trigger] calls@[j]).m() >= 0,
                decreases n - yr,
            {
                let step: FinResult<(Dec, Dec, Dec, Dec)> = (|| -> (rr: FinResult<(Dec, Dec, Dec, Dec)>)
                    ensures
                        rr is Err <==> sec_year(i, nav, unf, annual) is None,
                        rr is Err ==> rr == Err::<(Dec, Dec, Dec, Dec), FinError>(
                            FinError::ArithmeticOverflow,
                        ),
                        rr matches Ok(v) ==> sec_year(i, nav, unf, annual) == Some(v),
                        rr matches Ok(v) ==> v.1.m() >= 0 && v.2.m() >= 0,
                    {
                        let call = annual.min(&unf);
                        proof {
                            assert(!unf.lt_spec(unf));
                        }
                        let unf2 = unf.sub(&call)?;
                        let nav1 = nav.mul(&one.add(&input.expected_growth_rate)?)?;
                        let nav2 = nav1.add(&call)?;
                        let fee = nav2.mul(&input.management_fee_pct)?;
                        let nav3 = nav2.sub(&fee)?;
                        let dist = nav3.mul(&input.expected_distribution_rate)?;
                        let nav4 = nav3.sub(&dist)?;
                        Ok((nav4, unf2, call, dist))
                    })();
                match step {
                    Ok(v) => {
                        nav = v.0;
                        unf = v.1;
                        calls.push(v.2);
                        dists.push(v.3);
                    },
                    Err(e) => {
                        proof {
                            lemma_project_none(i, annual, (yr + 1) as nat, n as nat);
                        }
                        return Err(e);
                    },
                }
                yr = yr + 1;
            }
            proof {
                lemma_project_len(i, annual, n as nat);
            }
            let ti = input.fund_nav.add(&input.unfunded_commitment)?;
            let terminal = if nav.gt(&ti) {
                nav.sub(&nav.sub(&ti)?.mul(&input.carry_pct)?)?
            } else {
                nav
            };
            let denom = one.add(&input.discount_rate)?;
            let dpv = pv_exec(&dists, denom)?;
            let upv = pv_exec(&calls, denom)?;
            let tdf = div_times_exec(denom, n)?;
            let tpv = terminal.mul(&tdf)?;
            let fair = dpv.add(&tpv)?.sub(&upv)?;
            let disc = if input.fund_nav.is_zero() {
                Dec::zero()
            } else {
                fair.div(&input.fund_nav)?.sub(&one)?
            };
            let at_nav = compute_irr_for_price(input.fund_nav, &dists, terminal, &calls)?;
            let at_fair = compute_irr_for_price(fair, &dists, terminal, &calls)?;
            let scenarios = scenarios_exec(fair, &dists, terminal, &calls)?;
            let td = sum_exec(&dists)?;
            let tc = sum_exec(&calls)?;
            let be = if terminal.is_zero() {
                Dec::zero()
            } else {
                let needed = fair.add(&tc)?.sub(&td)?;
                if needed.le(&Dec::zero()) {
                    Dec::zero()
                } else {
                    proof {
                        Dec::lemma_nonneg(needed);
                        Dec::lemma_nonneg(terminal);
                    }
                    needed.div(&terminal)?
                }
            };
            Ok(
                SecondariesPricingOutput {
                    fair_value: fair,
                    nav_discount_pct: disc,
                    unfunded_pv: upv,
                    distributions_pv: dpv,
                    terminal_value_pv: tpv,
                    irr_at_nav: at_nav,
                    irr_at_discount: at_fair,
                    irr_scenarios: scenarios,
                    breakeven_multiple: be,
                },
            )
        })();
    res
}

fn div_times_exec(denom: Dec, n: usize) -> (r: FinResult<Dec>)
    ensures
        r == lift(div_times(Dec::lit(1, 0), denom, n as nat)),
{
    let mut tdf = Dec::one();
    let mut k: usize = 0;
    while k < n
        invariant
            k <= n,
            div_times(Dec::lit(1, 0), denom, n as nat) == div_times(tdf, denom, (n - k) as nat),
        decreases n - k,
    {
        tdf = tdf.div(&denom)?;
        k = k + 1;
    }
    Ok(tdf)
}

fn scenario_exec(fair: Dec, dists: &Vec<Dec>, terminal: Dec, calls: &Vec<Dec>, m: Dec) -> (r: FinResult<IrrScenario>)
    requires
        dists@.len() < 0x1_0000_0000,
    ensures
        r is Err <==> scenario_irr(fair, dists@, terminal, calls@, m) is None,
        r is Err ==> r == Err::<IrrScenario, FinError>(FinError::ArithmeticOverflow),
        r matches Ok(sc) ==> sc.multiple == m && Some(sc.irr) == scenario_irr(fair, dists@, terminal, calls@, m),
{
    let t = terminal.mul(&m)?;
    let irr = compute_irr_for_price(fair, dists, t, calls)?;
    Ok(IrrScenario { multiple: m, irr })
}

/// The IRRs at exit multiples 0.8, 1.0, 1.2, 1.5 and 2.0 of the terminal NAV.
fn scenarios_exec(fair: Dec, dists: &Vec<Dec>, terminal: Dec, calls: &Vec<Dec>) -> (r: FinResult<Vec<IrrScenario>>)
    requires
        dists@.len() < 0x1_0000_0000,
    ensures
        r is Err <==> !(forall|k: int| 0 <= k < 5 ==> #[trigger] scenario_irr(fair, dists@, terminal, calls@, scenario_multiples()[k]) is Some),
        r is Err ==> r == Err::<Vec<IrrScenario>, FinError>(FinError::ArithmeticOverflow),
        r matches Ok(v) ==> v@.len() == 5 && forall|k: int|
            0 <= k < 5 ==> (#[trigger] v@[k]).multiple == scenario_multiples()[k] && Some(v@[k].irr)
                == scenario_irr(fair, dists@, terminal, calls@, scenario_multiples()[k]),
{
    let ghost ms = scenario_multiples();
    let s0 = scenario_exec(fair, dists, terminal, calls, Dec::new(8, 1))?;
    let s1 = scenario_exec(fair, dists, terminal, calls, Dec::new(10, 1))?;
    let s2 = scenario_exec(fair, dists, terminal, calls, Dec::new(12, 1))?;
    let s3 = scenario_exec(fair, dists, terminal, calls, Dec::new(15, 1))?;
    let s4 = scenario_exec(fair, dists, terminal, calls, Dec::new(20, 1))?;
    let v = vec![s0, s1, s2, s3, s4];
    proof {
        assert(ms[0] == Dec::lit(8, 1) && ms[1] == Dec::lit(10, 1) && ms[2] == Dec::lit(12, 1)
            && ms[3] == Dec::lit(15, 1) && ms[4] == Dec::lit(20, 1));
        assert forall|k: int| 0 <= k < 5 implies (#[trigger] v@[k]).multiple == ms[k] && Some(v@[k].irr)
            == scenario_irr(fair, dists@, terminal, calls@, ms[k]) by {
            if k == 0 {} else if k == 1 {} else if k == 2 {} else if k == 3 {} else {}
        }
    }
    Ok(v)
}

proof fn lemma_project_len(i: SecondariesPricingInput, a: Dec, k: nat)
    ensures
        sec_project(i, a, k) matches Some(p) ==> p.2.len() == k && p.3.len() == k,
    decreases k,
{
    if k > 0 {
        lemma_project_len(i, a, (k - 1) as nat);
    }
}

} // verus!
