//! Budget-vs-actual variance analysis with price/volume/mix decomposition, and
//! break-even analysis with operating leverage and what-if scenarios.
use vstd::prelude::*;

use crate::dec::{
    dzero, group_dec, lemma_sum_opt_none, lift, oadd, odiv, omul, osub, ratio_or_zero,
    ratio_or_zero_exec, sum_opt, abs_int, aligned_fits, lemma_at_scale_lift, lemma_pow10_pos,
    max_nat, pow10, Dec, MAX_MANTISSA, MAX_SCALE,
};
use crate::error::{
    err_view, financial_impossibility, invalid_input, overflow, ErrView, FinError, FinResult,
};
use crate::types::{all_some, unwrap_all, ComputationOutput};

verus! {

broadcast use group_dec;

/// Cost behaviour classification.
pub enum CostType {
    Fixed,
    Variable,
    SemiVariable,
}

/// A revenue line with budget and actual volume and price.
pub struct RevenueLine {
    pub name: String,
    pub budget_units: Dec,
    pub budget_price: Dec,
    pub actual_units: Dec,
    pub actual_price: Dec,
}

/// A cost line with budget and actual amounts.
pub struct CostLine {
    pub name: String,
    pub budget_amount: Dec,
    pub actual_amount: Dec,
    pub cost_type: CostType,
    pub variable_cost_per_unit: Option<Dec>,
}

/// Prior-period figures for the year-over-year comparison.
pub struct PriorPeriod {
    pub revenue: Dec,
    pub costs: Dec,
    pub profit: Dec,
}

pub struct VarianceInput {
    pub period_name: String,
    pub revenue_lines: Vec<RevenueLine>,
    pub cost_lines: Vec<CostLine>,
    pub budget_total_revenue: Dec,
    pub budget_total_costs: Dec,
    pub prior_period: Option<PriorPeriod>,
}

/// Revenue variance with price/volume/mix decomposition.
pub struct RevenueVariance {
    pub budget_revenue: Dec,
    pub actual_revenue: Dec,
    /// actual - budget
    pub total_variance: Dec,
    pub total_variance_pct: Dec,
    /// Sum of (actual price - budget price) * actual units.
    pub price_variance: Dec,
    /// Sum of (actual units - budget units) * budget price.
    pub volume_variance: Dec,
    /// total - price - volume
    pub mix_variance: Dec,
    /// actual > budget
    pub favorable: bool,
}

pub struct CostVariance {
    pub budget_costs: Dec,
    pub actual_costs: Dec,
    pub total_variance: Dec,
    pub total_variance_pct: Dec,
    /// actual < budget
    pub favorable: bool,
}

pub struct ProfitVariance {
    pub budget_profit: Dec,
    pub actual_profit: Dec,
    pub total_variance: Dec,
    pub total_variance_pct: Dec,
    pub margin_budget: Dec,
    pub margin_actual: Dec,
}

/// Variance of one line.
pub struct LineVariance {
    pub name: String,
    /// "Revenue" or "Cost"
    pub line_type: String,
    pub budget: Dec,
    pub actual: Dec,
    pub variance: Dec,
    pub variance_pct: Dec,
    pub favorable: bool,
}

pub struct YoyComparison {
    pub prior_revenue: Dec,
    pub current_revenue: Dec,
    pub revenue_growth_pct: Dec,
    pub prior_profit: Dec,
    pub current_profit: Dec,
    pub profit_growth_pct: Dec,
    /// (current margin - prior margin) * 10000
    pub margin_expansion_bps: Dec,
}

pub struct VarianceOutput {
    pub revenue_variance: RevenueVariance,
    pub cost_variance: CostVariance,
    pub profit_variance: ProfitVariance,
    pub line_detail: Vec<LineVariance>,
    pub yoy_comparison: Option<YoyComparison>,
}

/// A what-if override for break-even analysis.
pub struct ScenarioOverride {
    pub name: String,
    pub price_change_pct: Option<Dec>,
    pub variable_cost_change_pct: Option<Dec>,
    pub fixed_cost_change_pct: Option<Dec>,
}

pub struct BreakevenInput {
    pub product_name: String,
    pub selling_price: Dec,
    pub variable_cost_per_unit: Dec,
    pub fixed_costs: Dec,
    pub current_volume: Dec,
    pub target_profit: Option<Dec>,
    pub scenarios: Option<Vec<ScenarioOverride>>,
}

pub struct ScenarioResult {
    pub name: String,
    pub breakeven_units: Dec,
    pub breakeven_revenue: Dec,
    pub profit_at_current_volume: Dec,
    pub margin_of_safety_pct: Dec,
}

pub struct BreakevenOutput {
    /// price - variable cost per unit
    pub contribution_margin: Dec,
    pub contribution_margin_pct: Dec,
    /// fixed costs / contribution margin
    pub breakeven_units: Dec,
    pub breakeven_revenue: Dec,
    /// contribution margin * volume - fixed costs
    pub current_profit: Dec,
    pub margin_of_safety_units: Dec,
    pub margin_of_safety_pct: Dec,
    /// contribution margin * volume / profit
    pub operating_leverage: Dec,
    /// (fixed costs + target profit) / contribution margin
    pub target_volume: Option<Dec>,
    pub scenario_results: Vec<ScenarioResult>,
}

// ---------------------------------------------------------------------------
// Specification: variance analysis
// ---------------------------------------------------------------------------

pub open spec fn rev_actual(r: RevenueLine) -> Option<Dec> {
    r.actual_units.mul_spec(r.actual_price)
}

pub open spec fn rev_budget(r: RevenueLine) -> Option<Dec> {
    r.budget_units.mul_spec(r.budget_price)
}

pub open spec fn rev_price_var(r: RevenueLine) -> Option<Dec> {
    omul(r.actual_price.sub_spec(r.budget_price), Some(r.actual_units))
}

pub open spec fn rev_volume_var(r: RevenueLine) -> Option<Dec> {
    omul(r.actual_units.sub_spec(r.budget_units), Some(r.budget_price))
}

pub open spec fn actuals(ls: Seq<RevenueLine>) -> Seq<Option<Dec>> {
    ls.map_values(|r: RevenueLine| rev_actual(r))
}

pub open spec fn budgets(ls: Seq<RevenueLine>) -> Seq<Option<Dec>> {
    ls.map_values(|r: RevenueLine| rev_budget(r))
}

pub open spec fn price_vars(ls: Seq<RevenueLine>) -> Seq<Option<Dec>> {
    ls.map_values(|r: RevenueLine| rev_price_var(r))
}

pub open spec fn volume_vars(ls: Seq<RevenueLine>) -> Seq<Option<Dec>> {
    ls.map_values(|r: RevenueLine| rev_volume_var(r))
}

pub open spec fn cost_actuals(ls: Seq<CostLine>) -> Seq<Option<Dec>> {
    ls.map_values(|c: CostLine| Some(c.actual_amount))
}

pub open spec fn cost_budgets(ls: Seq<CostLine>) -> Seq<Option<Dec>> {
    ls.map_values(|c: CostLine| Some(c.budget_amount))
}

/// The variance figures of one line: budget, actual, variance, percentage, favourable.
pub struct LineFigures {
    pub budget: Dec,
    pub actual: Dec,
    pub variance: Dec,
    pub variance_pct: Dec,
    pub favorable: bool,
}

pub open spec fn line_figures(l: LineVariance) -> LineFigures {
    LineFigures {
        budget: l.budget,
        actual: l.actual,
        variance: l.variance,
        variance_pct: l.variance_pct,
        favorable: l.favorable,
    }
}

pub open spec fn rev_line_figures(r: RevenueLine) -> Option<LineFigures> {
    match (rev_budget(r), rev_actual(r)) {
        (Some(b), Some(a)) => match a.sub_spec(b) {
            Some(v) => match ratio_or_zero(v, b) {
                Some(p) => Some(
                    LineFigures {
                        budget: b,
                        actual: a,
                        variance: v,
                        variance_pct: p,
                        favorable: b.lt_spec(a),
                    },
                ),
                None => None,
            },
            None => None,
        },
        _ => None,
    }
}

pub open spec fn cost_line_figures(c: CostLine) -> Option<LineFigures> {
    match c.actual_amount.sub_spec(c.budget_amount) {
        Some(v) => match ratio_or_zero(v, c.budget_amount) {
            Some(p) => Some(
                LineFigures {
                    budget: c.budget_amount,
                    actual: c.actual_amount,
                    variance: v,
                    variance_pct: p,
                    favorable: c.actual_amount.lt_spec(c.budget_amount),
                },
            ),
            None => None,
        },
        None => None,
    }
}

pub open spec fn rev_line_seq(ls: Seq<RevenueLine>) -> Seq<Option<LineFigures>> {
    ls.map_values(|r: RevenueLine| rev_line_figures(r))
}

pub open spec fn cost_line_seq(ls: Seq<CostLine>) -> Seq<Option<LineFigures>> {
    ls.map_values(|c: CostLine| cost_line_figures(c))
}

/// The headline figures: actual revenue, budget revenue from lines, price variance,
/// volume variance, actual costs and budget costs from lines.
pub struct VarianceTotals {
    pub actual_revenue: Dec,
    pub budget_revenue_lines: Dec,
    pub price_variance: Dec,
    pub volume_variance: Dec,
    pub actual_costs: Dec,
    pub budget_costs_lines: Dec,
}

pub open spec fn totals_spec(i: VarianceInput) -> Option<VarianceTotals> {
    let a = sum_opt(actuals(i.revenue_lines@));
    let b = sum_opt(budgets(i.revenue_lines@));
    let p = sum_opt(price_vars(i.revenue_lines@));
    let v = sum_opt(volume_vars(i.revenue_lines@));
    let ca = sum_opt(cost_actuals(i.cost_lines@));
    let cb = sum_opt(cost_budgets(i.cost_lines@));
    if a is Some && b is Some && p is Some && v is Some && ca is Some && cb is Some {
        Some(
            VarianceTotals {
                actual_revenue: a.unwrap(),
                budget_revenue_lines: b.unwrap(),
                price_variance: p.unwrap(),
                volume_variance: v.unwrap(),
                actual_costs: ca.unwrap(),
                budget_costs_lines: cb.unwrap(),
            },
        )
    } else {
        None
    }
}

/// A share `num / den`, zero when `den` is zero.
pub open spec fn share_of(num: Dec, den: Dec) -> Option<Dec> {
    if den.is_zero_spec() {
        Some(dzero())
    } else {
        num.div_spec(den)
    }
}

/// The running sum of the given amounts, from zero.
pub open spec fn running_sum(s: Seq<Option<Dec>>) -> Option<Dec>
    decreases s.len(),
{
    if s.len() == 0 {
        Some(dzero())
    } else {
        match (running_sum(s.drop_last()), s.last()) {
            (Some(a), Some(b)) => a.add_spec(b),
            _ => None,
        }
    }
}

/// What a variance analysis reports, read off the input: actual revenue is the sum of
/// actual units times actual price; the price variance sums (actual price - budget price) x
/// actual units and the volume variance (actual units - budget units) x budget price; the
/// revenue variance is actual less budget revenue, favourable when actual is higher, and
/// the mix variance is what the price and volume variances leave of it; actual costs sum
/// the cost lines, the cost variance is actual less budget, favourable when actual is
/// lower; budget and actual profit are revenue less costs and the profit variance their
/// difference; each percentage is its variance over its base (zero on a zero base).
pub open spec fn variance_reads_inputs(i: VarianceInput, o: VarianceOutput) -> bool {
    let rl = i.revenue_lines@;
    let cl = i.cost_lines@;
    let rv = o.revenue_variance;
    let cv = o.cost_variance;
    let pv = o.profit_variance;
    &&& Some(rv.actual_revenue) == running_sum(
        Seq::new(rl.len(), |k: int| rl[k].actual_units.mul_spec(rl[k].actual_price)),
    )
    &&& Some(rv.price_variance) == running_sum(
        Seq::new(
            rl.len(),
            |k: int|
                match rl[k].actual_price.sub_spec(rl[k].budget_price) {
                    Some(d) => d.mul_spec(rl[k].actual_units),
                    None => None,
                },
        ),
    )
    &&& Some(rv.volume_variance) == running_sum(
        Seq::new(
            rl.len(),
            |k: int|
                match rl[k].actual_units.sub_spec(rl[k].budget_units) {
                    Some(d) => d.mul_spec(rl[k].budget_price),
                    None => None,
                },
        ),
    )
    &&& rv.budget_revenue == i.budget_total_revenue
    &&& Some(rv.total_variance) == rv.actual_revenue.sub_spec(i.budget_total_revenue)
    &&& rv.favorable == i.budget_total_revenue.lt_spec(rv.actual_revenue)
    &&& Some(rv.total_variance_pct) == share_of(rv.total_variance, i.budget_total_revenue)
    &&& rv.total_variance.sub_spec(rv.price_variance) matches Some(rest) && Some(rv.mix_variance)
        == rest.sub_spec(rv.volume_variance)
    &&& Some(cv.actual_costs) == running_sum(Seq::new(cl.len(), |k: int| Some(cl[k].actual_amount)))
    &&& cv.budget_costs == i.budget_total_costs
    &&& Some(cv.total_variance) == cv.actual_costs.sub_spec(i.budget_total_costs)
    &&& cv.favorable == cv.actual_costs.lt_spec(i.budget_total_costs)
    &&& Some(cv.total_variance_pct) == share_of(cv.total_variance, i.budget_total_costs)
    &&& Some(pv.budget_profit) == i.budget_total_revenue.sub_spec(i.budget_total_costs)
    &&& Some(pv.actual_profit) == rv.actual_revenue.sub_spec(cv.actual_costs)
    &&& Some(pv.total_variance) == pv.actual_profit.sub_spec(pv.budget_profit)
    &&& Some(pv.total_variance_pct) == share_of(pv.total_variance, pv.budget_profit)
    &&& Some(pv.margin_budget) == share_of(pv.budget_profit, i.budget_total_revenue)
    &&& Some(pv.margin_actual) == share_of(pv.actual_profit, rv.actual_revenue)
}

proof fn lemma_running_sum(s: Seq<Option<Dec>>)
    ensures
        running_sum(s) == sum_opt(s),
    decreases s.len(),
{
    if s.len() > 0 {
        lemma_running_sum(s.drop_last());
    }
}

/// The figures of a variance analysis follow from its input (`variance_reads_inputs`).
pub proof fn lemma_variance_reads_inputs(i: VarianceInput)
    requires
        variance_defined(i),
    ensures
        ({
            let t = totals_spec(i).unwrap();
            &&& Some(t.actual_revenue) == running_sum(
                Seq::new(
                    i.revenue_lines@.len(),
                    |k: int| i.revenue_lines@[k].actual_units.mul_spec(i.revenue_lines@[k].actual_price),
                ),
            )
            &&& Some(t.price_variance) == running_sum(
                Seq::new(
                    i.revenue_lines@.len(),
                    |k: int|
                        match i.revenue_lines@[k].actual_price.sub_spec(i.revenue_lines@[k].budget_price) {
                            Some(d) => d.mul_spec(i.revenue_lines@[k].actual_units),
                            None => None,
                        },
                ),
            )
            &&& Some(t.volume_variance) == running_sum(
                Seq::new(
                    i.revenue_lines@.len(),
                    |k: int|
                        match i.revenue_lines@[k].actual_units.sub_spec(i.revenue_lines@[k].budget_units) {
                            Some(d) => d.mul_spec(i.revenue_lines@[k].budget_price),
                            None => None,
                        },
                ),
            )
            &&& Some(t.actual_costs) == running_sum(
                Seq::new(i.cost_lines@.len(), |k: int| Some(i.cost_lines@[k].actual_amount)),
            )
        }),
{
    let rl = i.revenue_lines@;
    let cl = i.cost_lines@;
    let s1 = Seq::new(rl.len(), |k: int| rl[k].actual_units.mul_spec(rl[k].actual_price));
    let s2 = Seq::new(
        rl.len(),
        |k: int|
            match rl[k].actual_price.sub_spec(rl[k].budget_price) {
                Some(d) => d.mul_spec(rl[k].actual_units),
                None => None,
            },
    );
    let s3 = Seq::new(
        rl.len(),
        |k: int|
            match rl[k].actual_units.sub_spec(rl[k].budget_units) {
                Some(d) => d.mul_spec(rl[k].budget_price),
                None => None,
            },
    );
    let s4 = Seq::new(cl.len(), |k: int| Some(cl[k].actual_amount));
    assert(s1 =~= actuals(rl));
    assert(s2 =~= price_vars(rl));
    assert(s3 =~= volume_vars(rl));
    assert(s4 =~= cost_actuals(cl));
    lemma_running_sum(s1);
    lemma_running_sum(s2);
    lemma_running_sum(s3);
    lemma_running_sum(s4);
}

/// The largest scale among the total, price and volume variances.
pub open spec fn common_scale(total: Dec, price: Dec, volume: Dec) -> nat {
    max_nat(max_nat(total.s(), price.s()), volume.s())
}

/// Total, price and volume variances small enough that the mix variance is computed
/// without rounding: written at their common scale, each mantissa is at most a third of
/// the largest one a decimal holds.
pub open spec fn decomposition_fits(total: Dec, price: Dec, volume: Dec) -> bool {
    let t = common_scale(total, price, volume);
    &&& 3 * abs_int(total.at(t)) <= MAX_MANTISSA
    &&& 3 * abs_int(price.at(t)) <= MAX_MANTISSA
    &&& 3 * abs_int(volume.at(t)) <= MAX_MANTISSA
}

/// Operands whose values and difference fit at a scale `t` at least theirs fit, with their
/// difference, at the larger of their own scales.
proof fn lemma_sub_fits_at(a: Dec, b: Dec, t: nat)
    requires
        a.s() <= t <= MAX_SCALE,
        b.s() <= t,
        abs_int(a.at(t)) <= MAX_MANTISSA,
        abs_int(b.at(t)) <= MAX_MANTISSA,
        abs_int(a.at(t) - b.at(t)) <= MAX_MANTISSA,
    ensures
        aligned_fits(a.m(), a.s(), b.m(), b.s(), true),
{
    let u = max_nat(a.s(), b.s());
    lemma_at_scale_lift(a.m(), a.s(), u, t);
    lemma_at_scale_lift(b.m(), b.s(), u, t);
    let p = pow10((t - u) as nat);
    lemma_pow10_pos((t - u) as nat);
    let (x, y) = (a.at(u), b.at(u));
    assert(a.at(t) - b.at(t) == (x - y) * p) by (nonlinear_arith)
        requires
            a.at(t) == x * p,
            b.at(t) == y * p,
    ;
    assert(abs_int(x - y) <= abs_int((x - y) * p)) by (nonlinear_arith)
        requires
            p >= 1,
    ;
}

/// A difference exact at the larger of the operands' scales is exact at any larger one.
proof fn lemma_diff_lift(r: Dec, a: Dec, b: Dec, t: nat)
    requires
        a.s() <= t,
        b.s() <= t,
        r.s() <= max_nat(a.s(), b.s()),
        r.at(max_nat(a.s(), b.s())) == a.at(max_nat(a.s(), b.s())) - b.at(max_nat(a.s(), b.s())),
    ensures
        r.at(t) == a.at(t) - b.at(t),
{
    let u = max_nat(a.s(), b.s());
    lemma_at_scale_lift(a.m(), a.s(), u, t);
    lemma_at_scale_lift(b.m(), b.s(), u, t);
    lemma_at_scale_lift(r.m(), r.s(), u, t);
    let p = pow10((t - u) as nat);
    assert((a.at(u) - b.at(u)) * p == a.at(u) * p - b.at(u) * p) by (nonlinear_arith);
}

/// Revenue total variance, mix variance, percentage; cost variance and percentage;
/// budget and actual profit, profit variance and percentage, budget and actual margins.
pub struct VarianceDerived {
    pub rev_total: Dec,
    pub mix: Dec,
    pub rev_pct: Dec,
    pub cost_total: Dec,
    pub cost_pct: Dec,
    pub budget_profit: Dec,
    pub actual_profit: Dec,
    pub profit_total: Dec,
    pub profit_pct: Dec,
    pub margin_budget: Dec,
    pub margin_actual: Dec,
}

pub open spec fn derived_spec(i: VarianceInput, t: VarianceTotals) -> Option<VarianceDerived> {
    let rev_total = t.actual_revenue.sub_spec(i.budget_total_revenue);
    let mix = osub(osub(rev_total, Some(t.price_variance)), Some(t.volume_variance));
    let rev_pct = ratio_opt(rev_total, i.budget_total_revenue);
    let cost_total = t.actual_costs.sub_spec(i.budget_total_costs);
    let cost_pct = ratio_opt(cost_total, i.budget_total_costs);
    let bp = i.budget_total_revenue.sub_spec(i.budget_total_costs);
    let ap = t.actual_revenue.sub_spec(t.actual_costs);
    let pt = osub(ap, bp);
    let ppct = match bp {
        Some(b) => ratio_opt(pt, b),
        None => None,
    };
    let mb = ratio_opt(bp, i.budget_total_revenue);
    let ma = ratio_opt(ap, t.actual_revenue);
    if rev_total is Some && mix is Some && rev_pct is Some && cost_total is Some && cost_pct is Some
        && bp is Some && ap is Some && pt is Some && ppct is Some && mb is Some && ma is Some {
        Some(
            VarianceDerived {
                rev_total: rev_total.unwrap(),
                mix: mix.unwrap(),
                rev_pct: rev_pct.unwrap(),
                cost_total: cost_total.unwrap(),
                cost_pct: cost_pct.unwrap(),
                budget_profit: bp.unwrap(),
                actual_profit: ap.unwrap(),
                profit_total: pt.unwrap(),
                profit_pct: ppct.unwrap(),
                margin_budget: mb.unwrap(),
                margin_actual: ma.unwrap(),
            },
        )
    } else {
        None
    }
}

pub open spec fn ratio_opt(num: Option<Dec>, den: Dec) -> Option<Dec> {
    match num {
        Some(n) => ratio_or_zero(n, den),
        None => None,
    }
}

/// Year-over-year figures: revenue growth, profit growth and margin expansion in bps.
pub open spec fn yoy_spec(pp: PriorPeriod, actual_revenue: Dec, actual_profit: Dec) -> Option<
    (Dec, Dec, Dec),
> {
    let cm = ratio_or_zero(actual_profit, actual_revenue);
    let pm = ratio_or_zero(pp.profit, pp.revenue);
    let rg = ratio_opt(actual_revenue.sub_spec(pp.revenue), pp.revenue);
    let pg = ratio_opt(actual_profit.sub_spec(pp.profit), pp.profit);
    let bps = omul(osub(cm, pm), Some(Dec::lit(10000, 0)));
    if rg is Some && pg is Some && bps is Some {
        Some((rg.unwrap(), pg.unwrap(), bps.unwrap()))
    } else {
        None
    }
}

pub open spec fn variance_defined(i: VarianceInput) -> bool {
    &&& totals_spec(i) is Some
    &&& derived_spec(i, totals_spec(i).unwrap()) is Some
    &&& all_some(rev_line_seq(i.revenue_lines@))
    &&& all_some(cost_line_seq(i.cost_lines@))
    &&& (i.prior_period matches Some(pp) ==> yoy_spec(
        pp,
        totals_spec(i).unwrap().actual_revenue,
        derived_spec(i, totals_spec(i).unwrap()).unwrap().actual_profit,
    ) is Some)
}

/// "Sum of budget <what> lines (<lines>) differs from stated <name> (<stated>)".
pub open spec fn mismatch_text(what: Seq<char>, lines: Dec, stated_name: Seq<char>, stated: Dec) -> Seq<char> {
    "Sum of budget "@ + what + " lines ("@ + lines.display_spec() + ") differs from stated "@
        + stated_name + " ("@ + stated.display_spec() + ")"@
}

pub open spec fn variance_warnings(i: VarianceInput, t: VarianceTotals) -> Seq<Seq<char>> {
    (if !t.budget_revenue_lines.eq_spec(i.budget_total_revenue) && i.revenue_lines@.len() > 0 {
        seq![
            mismatch_text(
                "revenue"@,
                t.budget_revenue_lines,
                "budget_total_revenue"@,
                i.budget_total_revenue,
            ),
        ]
    } else {
        seq![]
    }) + (if !t.budget_costs_lines.eq_spec(i.budget_total_costs) && i.cost_lines@.len() > 0 {
        seq![
            mismatch_text(
                "cost"@,
                t.budget_costs_lines,
                "budget_total_costs"@,
                i.budget_total_costs,
            ),
        ]
    } else {
        seq![]
    })
}

// ---------------------------------------------------------------------------
// Implementation: variance analysis
// ---------------------------------------------------------------------------

fn str_of(s: &str) -> (r: String)
    ensures
        r@ == s@,
{
    String::from_str(s)
}

proof fn lemma_step(s: Seq<Option<Dec>>, j: int)
    requires
        0 <= j < s.len(),
    ensures
        s.take(j + 1).drop_last() == s.take(j),
        s.take(j + 1).last() == s[j],
{
    assert(s.take(j + 1).drop_last() =~= s.take(j));
}

proof fn lemma_full(s: Seq<Option<Dec>>)
    ensures
        s.take(s.len() as int) == s,
{
    assert(s.take(s.len() as int) =~= s);
}

/// The four revenue-line sums: actual, budget, price variance, volume variance.
fn revenue_sums(ls: &Vec<RevenueLine>) -> (r: FinResult<(Dec, Dec, Dec, Dec)>)
    ensures
        r is Err <==> !(sum_opt(actuals(ls@)) is Some && sum_opt(budgets(ls@)) is Some && sum_opt(
            price_vars(ls@),
        ) is Some && sum_opt(volume_vars(ls@)) is Some),
        r is Err ==> r == Err::<(Dec, Dec, Dec, Dec), FinError>(FinError::ArithmeticOverflow),
        r matches Ok(t) ==> Some(t.0) == sum_opt(actuals(ls@)) && Some(t.1) == sum_opt(
            budgets(ls@),
        ) && Some(t.2) == sum_opt(price_vars(ls@)) && Some(t.3) == sum_opt(volume_vars(ls@)),
{
    let ghost sa = actuals(ls@);
    let ghost sb = budgets(ls@);
    let ghost sp = price_vars(ls@);
    let ghost sv = volume_vars(ls@);
    let mut a = Dec::zero();
    let mut b = Dec::zero();
    let mut p = Dec::zero();
    let mut v = Dec::zero();
    let mut j: usize = 0;
    while j < ls.len()
        invariant
            j <= ls@.len(),
            sa == actuals(ls@),
            sb == budgets(ls@),
            sp == price_vars(ls@),
            sv == volume_vars(ls@),
            sum_opt(sa.take(j as int)) == Some(a),
            sum_opt(sb.take(j as int)) == Some(b),
            sum_opt(sp.take(j as int)) == Some(p),
            sum_opt(sv.take(j as int)) == Some(v),
        decreases ls@.len() - j,
    {
        let l = &ls[j];
        proof {
            lemma_step(sa, j as int);
            lemma_step(sb, j as int);
            lemma_step(sp, j as int);
            lemma_step(sv, j as int);
        }
        let step: FinResult<(Dec, Dec, Dec, Dec)> = (|| -> (rr: FinResult<(Dec, Dec, Dec, Dec)>)
            ensures
                rr is Err <==> (oadd(Some(a), sa[j as int]) is None || oadd(Some(b), sb[j as int])
                    is None || oadd(Some(p), sp[j as int]) is None || oadd(Some(v), sv[j as int])
                    is None),
                rr is Err ==> rr == Err::<(Dec, Dec, Dec, Dec), FinError>(
                    FinError::ArithmeticOverflow,
                ),
                rr matches Ok(t) ==> Some(t.0) == oadd(Some(a), sa[j as int]) && Some(t.1) == oadd(
                    Some(b),
                    sb[j as int],
                ) && Some(t.2) == oadd(Some(p), sp[j as int]) && Some(t.3) == oadd(
                    Some(v),
                    sv[j as int],
                ),
            {
                let na = a.add(&l.actual_units.mul(&l.actual_price)?)?;
                let nb = b.add(&l.budget_units.mul(&l.budget_price)?)?;
                let np = p.add(&l.actual_price.sub(&l.budget_price)?.mul(&l.actual_units)?)?;
                let nv = v.add(&l.actual_units.sub(&l.budget_units)?.mul(&l.budget_price)?)?;
                Ok((na, nb, np, nv))
            })();
        match step {
            Ok(t) => {
                a = t.0;
                b = t.1;
                p = t.2;
                v = t.3;
            },
            Err(e) => {
                proof {
                    if oadd(Some(a), sa[j as int]) is None {
                        lemma_sum_opt_none(sa, j as int);
                    } else if oadd(Some(b), sb[j as int]) is None {
                        lemma_sum_opt_none(sb, j as int);
                    } else if oadd(Some(p), sp[j as int]) is None {
                        lemma_sum_opt_none(sp, j as int);
                    } else {
                        lemma_sum_opt_none(sv, j as int);
                    }
                }
                return Err(e);
            },
        }
        j = j + 1;
    }
    proof {
        lemma_full(sa);
        lemma_full(sb);
        lemma_full(sp);
        lemma_full(sv);
    }
    Ok((a, b, p, v))
}

/// The two cost-line sums: actual and budget.
fn cost_sums(ls: &Vec<CostLine>) -> (r: FinResult<(Dec, Dec)>)
    ensures
        r is Err <==> !(sum_opt(cost_actuals(ls@)) is Some && sum_opt(cost_budgets(ls@)) is Some),
        r is Err ==> r == Err::<(Dec, Dec), FinError>(FinError::ArithmeticOverflow),
        r matches Ok(t) ==> Some(t.0) == sum_opt(cost_actuals(ls@)) && Some(t.1) == sum_opt(
            cost_budgets(ls@),
        ),
{
    let ghost sa = cost_actuals(ls@);
    let ghost sb = cost_budgets(ls@);
    let mut a = Dec::zero();
    let mut b = Dec::zero();
    let mut j: usize = 0;
    while j < ls.len()
        invariant
            j <= ls@.len(),
            sa == cost_actuals(ls@),
            sb == cost_budgets(ls@),
            sum_opt(sa.take(j as int)) == Some(a),
            sum_opt(sb.take(j as int)) == Some(b),
        decreases ls@.len() - j,
    {
        proof {
            lemma_step(sa, j as int);
            lemma_step(sb, j as int);
        }
        match a.add(&ls[j].actual_amount) {
            Ok(x) => {
                a = x;
            },
            Err(e) => {
                proof {
                    lemma_sum_opt_none(sa, j as int);
                }
                return Err(e);
            },
        }
        match b.add(&ls[j].budget_amount) {
            Ok(x) => {
                b = x;
            },
            Err(e) => {
                proof {
                    lemma_sum_opt_none(sb, j as int);
                }
                return Err(e);
            },
        }
        j = j + 1;
    }
    proof {
        lemma_full(sa);
        lemma_full(sb);
    }
    Ok((a, b))
}

fn mismatch_warning(what: &str, lines: Dec, stated_name: &str, stated: Dec) -> (r: String)
    ensures
        r@ == mismatch_text(what@, lines, stated_name@, stated),
{
    let s = str_of("Sum of budget ").concat(what).concat(" lines (").concat(
        lines.to_string().as_str(),
    ).concat(") differs from stated ").concat(stated_name).concat(" (").concat(
        stated.to_string().as_str(),
    ).concat(")");
    proof {
        assert(s@ =~= "Sum of budget "@ + what@ + " lines ("@ + lines.display_spec()
            + ") differs from stated "@ + stated_name@ + " ("@ + stated.display_spec() + ")"@);
    }
    s
}

pub open spec fn line_views(ls: Seq<LineVariance>) -> Seq<LineFigures> {
    ls.map_values(|l: LineVariance| line_figures(l))
}

pub open spec fn line_names(ls: Seq<LineVariance>) -> Seq<(String, Seq<char>)> {
    ls.map_values(|l: LineVariance| (l.name, l.line_type@))
}

proof fn lemma_all_some_prefix<T>(s: Seq<Option<T>>, j: int)
    requires
        0 <= j < s.len(),
        s[j] is None,
    ensures
        !all_some(s),
{
}

/// The line detail: revenue lines, then cost lines.
fn line_detail(i: &VarianceInput) -> (r: FinResult<Vec<LineVariance>>)
    ensures
        r is Err <==> !(all_some(rev_line_seq(i.revenue_lines@)) && all_some(
            cost_line_seq(i.cost_lines@),
        )),
        r is Err ==> r == Err::<Vec<LineVariance>, FinError>(FinError::ArithmeticOverflow),
        r matches Ok(v) ==> line_views(v@) == unwrap_all(rev_line_seq(i.revenue_lines@))
            + unwrap_all(cost_line_seq(i.cost_lines@)) && line_names(v@) == i.revenue_lines@.map_values(
            |l: RevenueLine| (l.name, "Revenue"@),
        ) + i.cost_lines@.map_values(|c: CostLine| (c.name, "Cost"@)),
{
    let ghost rs = rev_line_seq(i.revenue_lines@);
    let ghost cs = cost_line_seq(i.cost_lines@);
    let ghost rn = i.revenue_lines@.map_values(|l: RevenueLine| (l.name, "Revenue"@));
    let ghost cn = i.cost_lines@.map_values(|c: CostLine| (c.name, "Cost"@));
    let mut out: Vec<LineVariance> = Vec::new();
    let mut j: usize = 0;
    while j < i.revenue_lines.len()
        invariant
            j <= i.revenue_lines@.len(),
            rs == rev_line_seq(i.revenue_lines@),
            rn == i.revenue_lines@.map_values(|l: RevenueLine| (l.name, "Revenue"@)),
            forall|k: int| 0 <= k < j ==> (#[trigger] rs[k]) is Some,
            line_views(out@) == unwrap_all(rs.take(j as int)),
            line_names(out@) == rn.take(j as int),
        decreases i.revenue_lines@.len() - j,
    {
        let r = &i.revenue_lines[j];
        let res: FinResult<LineVariance> = (|| -> (rr: FinResult<LineVariance>)
            ensures
                rr is Err <==> rev_line_figures(*r) is None,
                rr is Err ==> rr == Err::<LineVariance, FinError>(FinError::ArithmeticOverflow),
                rr matches Ok(lv) ==> Some(line_figures(lv)) == rev_line_figures(*r) && lv.name
                    == r.name && lv.line_type@ == "Revenue"@,
            {
                let budget = r.budget_units.mul(&r.budget_price)?;
                let actual = r.actual_units.mul(&r.actual_price)?;
                let variance = actual.sub(&budget)?;
                let variance_pct = ratio_or_zero_exec(&variance, &budget)?;
                Ok(
                    LineVariance {
                        name: r.name.clone(),
                        line_type: str_of("Revenue"),
                        budget,
                        actual,
                        variance,
                        variance_pct,
                        favorable: budget.lt(&actual),
                    },
                )
            })();
        let lv = match res {
            Ok(lv) => lv,
            Err(e) => {
                proof {
                    lemma_all_some_prefix(rs, j as int);
                }
                return Err(e);
            },
        };
        let ghost v0 = out@;
        let ghost f = line_figures(lv);
        let ghost nm = (lv.name, lv.line_type@);
        out.push(lv);
        proof {
            assert(rs[j as int] == Some(f));
            assert(line_views(out@) =~= line_views(v0).push(f));
            assert(line_names(out@) =~= line_names(v0).push(nm));
            assert(unwrap_all(rs.take(j + 1)) =~= unwrap_all(rs.take(j as int)).push(f));
            assert(rn.take(j + 1) =~= rn.take(j as int).push(nm));
            assert(line_views(out@) =~= unwrap_all(rs.take(j + 1)));
            assert(line_names(out@) =~= rn.take(j + 1));
        }
        j = j + 1;
    }
    proof {
        assert(rs.take(rs.len() as int) =~= rs);
        assert(rn.take(rn.len() as int) =~= rn);
    }
    let mut k: usize = 0;
    while k < i.cost_lines.len()
        invariant
            k <= i.cost_lines@.len(),
            cs == cost_line_seq(i.cost_lines@),
            cn == i.cost_lines@.map_values(|c: CostLine| (c.name, "Cost"@)),
            all_some(rs),
            forall|q: int| 0 <= q < k ==> (#[trigger] cs[q]) is Some,
            line_views(out@) == unwrap_all(rs) + unwrap_all(cs.take(k as int)),
            line_names(out@) == rn + cn.take(k as int),
        decreases i.cost_lines@.len() - k,
    {
        let c = &i.cost_lines[k];
        let res: FinResult<LineVariance> = (|| -> (rr: FinResult<LineVariance>)
            ensures
                rr is Err <==> cost_line_figures(*c) is None,
                rr is Err ==> rr == Err::<LineVariance, FinError>(FinError::ArithmeticOverflow),
                rr matches Ok(lv) ==> Some(line_figures(lv)) == cost_line_figures(*c) && lv.name
                    == c.name && lv.line_type@ == "Cost"@,
            {
                let variance = c.actual_amount.sub(&c.budget_amount)?;
                let variance_pct = ratio_or_zero_exec(&variance, &c.budget_amount)?;
                Ok(
                    LineVariance {
                        name: c.name.clone(),
                        line_type: str_of("Cost"),
                        budget: c.budget_amount,
                        actual: c.actual_amount,
                        variance,
                        variance_pct,
                        favorable: c.actual_amount.lt(&c.budget_amount),
                    },
                )
            })();
        let lv = match res {
            Ok(lv) => lv,
            Err(e) => {
                proof {
                    lemma_all_some_prefix(cs, k as int);
                }
                return Err(e);
            },
        };
        let ghost v0 = out@;
        let ghost f = line_figures(lv);
        let ghost nm = (lv.name, lv.line_type@);
        out.push(lv);
        proof {
            assert(cs[k as int] == Some(f));
            assert(line_views(out@) =~= line_views(v0).push(f));
            assert(line_names(out@) =~= line_names(v0).push(nm));
            assert(unwrap_all(cs.take(k + 1)) =~= unwrap_all(cs.take(k as int)).push(
                cs[k as int].unwrap(),
            ));
            assert(cn.take(k + 1) =~= cn.take(k as int).push(cn[k as int]));
            assert(line_views(out@) =~= unwrap_all(rs) + unwrap_all(cs.take(k + 1)));
            assert(line_names(out@) =~= rn + cn.take(k + 1));
        }
        k = k + 1;
    }
    proof {
        assert(cs.take(cs.len() as int) =~= cs);
        assert(cn.take(cn.len() as int) =~= cn);
    }
    Ok(out)
}

/// Budget-vs-actual variance analysis with price/volume/mix decomposition, cost and
/// profit variance, line-level detail and an optional year-over-year comparison.
pub fn analyze_variance(input: &VarianceInput) -> (r: FinResult<ComputationOutput<VarianceOutput>>)
    ensures
        r is Ok <==> variance_defined(*input),
        r is Err ==> r == Err::<ComputationOutput<VarianceOutput>, FinError>(
            FinError::ArithmeticOverflow,
        ),
        r matches Ok(o) ==> {
            let out = o.result;
            let t = totals_spec(*input).unwrap();
            let dv = derived_spec(*input, t).unwrap();
            &&& o.methodology@
                == "Budget vs Actual Variance Analysis with Price/Volume/Mix Decomposition"@
            &&& o.warnings@.map_values(|s: String| s@) == variance_warnings(*input, t)
            &&& out.revenue_variance.budget_revenue == input.budget_total_revenue
            &&& out.revenue_variance.actual_revenue == t.actual_revenue
            &&& out.revenue_variance.total_variance == dv.rev_total
            &&& out.revenue_variance.total_variance_pct == dv.rev_pct
            &&& out.revenue_variance.price_variance == t.price_variance
            &&& out.revenue_variance.volume_variance == t.volume_variance
            &&& out.revenue_variance.mix_variance == dv.mix
            &&& variance_reads_inputs(*input, out)
            &&& (decomposition_fits(
                out.revenue_variance.total_variance,
                out.revenue_variance.price_variance,
                out.revenue_variance.volume_variance,
            ) ==> {
                let rv = out.revenue_variance;
                let t = common_scale(rv.total_variance, rv.price_variance, rv.volume_variance);
                rv.price_variance.at(t) + rv.volume_variance.at(t) + rv.mix_variance.at(t)
                    == rv.total_variance.at(t)
            })
            &&& out.revenue_variance.favorable == input.budget_total_revenue.lt_spec(
                t.actual_revenue,
            )
            &&& out.cost_variance.budget_costs == input.budget_total_costs
            &&& out.cost_variance.actual_costs == t.actual_costs
            &&& out.cost_variance.total_variance == dv.cost_total
            &&& out.cost_variance.total_variance_pct == dv.cost_pct
            &&& out.cost_variance.favorable == t.actual_costs.lt_spec(input.budget_total_costs)
            &&& out.profit_variance.budget_profit == dv.budget_profit
            &&& out.profit_variance.actual_profit == dv.actual_profit
            &&& out.profit_variance.total_variance == dv.profit_total
            &&& out.profit_variance.total_variance_pct == dv.profit_pct
            &&& out.profit_variance.margin_budget == dv.margin_budget
            &&& out.profit_variance.margin_actual == dv.margin_actual
            &&& line_views(out.line_detail@) == unwrap_all(rev_line_seq(input.revenue_lines@))
                + unwrap_all(cost_line_seq(input.cost_lines@))
            &&& line_names(out.line_detail@) == input.revenue_lines@.map_values(
                |l: RevenueLine| (l.name, "Revenue"@),
            ) + input.cost_lines@.map_values(|c: CostLine| (c.name, "Cost"@))
            &&& (out.yoy_comparison is Some <==> input.prior_period is Some)
            &&& (out.yoy_comparison matches Some(y) ==> {
                let pp = input.prior_period.unwrap();
                let g = yoy_spec(pp, t.actual_revenue, dv.actual_profit).unwrap();
                &&& y.prior_revenue == pp.revenue
                &&& y.current_revenue == t.actual_revenue
                &&& y.prior_profit == pp.profit
                &&& y.current_profit == dv.actual_profit
                &&& y.revenue_growth_pct == g.0
                &&& y.profit_growth_pct == g.1
                &&& y.margin_expansion_bps == g.2
            })
        },
{
    let ghost i = *input;
    let (actual_revenue, budget_revenue_lines, price_variance, volume_variance) = revenue_sums(
        &input.revenue_lines,
    )?;
    let (actual_costs, budget_costs_lines) = cost_sums(&input.cost_lines)?;
    let ghost t = VarianceTotals {
        actual_revenue,
        budget_revenue_lines,
        price_variance,
        volume_variance,
        actual_costs,
        budget_costs_lines,
    };
    proof {
        assert(totals_spec(i) == Some(t));
    }
    let mut warnings: Vec<String> = Vec::new();
    if !budget_revenue_lines.eq(&input.budget_total_revenue) && input.revenue_lines.len() > 0 {
        warnings.push(
            mismatch_warning(
                "revenue",
                budget_revenue_lines,
                "budget_total_revenue",
                input.budget_total_revenue,
            ),
        );
    }
    if !budget_costs_lines.eq(&input.budget_total_costs) && input.cost_lines.len() > 0 {
        warnings.push(
            mismatch_warning("cost", budget_costs_lines, "budget_total_costs", input.budget_total_costs),
        );
    }
    proof {
        assert(warnings@.map_values(|s: String| s@) =~= variance_warnings(i, t));
    }

    // --- Revenue, cost and profit variance ---
    let derived: FinResult<VarianceDerived> = (|| -> (rr: FinResult<VarianceDerived>)
        ensures
            rr is Err <==> derived_spec(i, t) is None,
            rr is Err ==> rr == Err::<VarianceDerived, FinError>(FinError::ArithmeticOverflow),
            rr matches Ok(dv) ==> derived_spec(i, t) == Some(dv),
            rr matches Ok(dv) ==> (decomposition_fits(dv.rev_total, price_variance, volume_variance)
                ==> {
                let t = common_scale(dv.rev_total, price_variance, volume_variance);
                dv.mix.at(t) + price_variance.at(t) + volume_variance.at(t) == dv.rev_total.at(t)
            }),
        {
            let rev_total = actual_revenue.sub(&input.budget_total_revenue)?;
            let ghost t = common_scale(rev_total, price_variance, volume_variance);
            proof {
                use_type_invariant(&rev_total);
                use_type_invariant(&price_variance);
                use_type_invariant(&volume_variance);
                Dec::lemma_bounds(rev_total);
                Dec::lemma_bounds(price_variance);
                Dec::lemma_bounds(volume_variance);
                if decomposition_fits(rev_total, price_variance, volume_variance) {
                    lemma_sub_fits_at(rev_total, price_variance, t);
                }
            }
            let rest = rev_total.sub(&price_variance)?;
            proof {
                if decomposition_fits(rev_total, price_variance, volume_variance) {
                    lemma_diff_lift(rest, rev_total, price_variance, t);
                    lemma_sub_fits_at(rest, volume_variance, t);
                }
            }
            let mix = rest.sub(&volume_variance)?;
            proof {
                if decomposition_fits(rev_total, price_variance, volume_variance) {
                    lemma_diff_lift(mix, rest, volume_variance, t);
                }
            }
            let rev_pct = ratio_or_zero_exec(&rev_total, &input.budget_total_revenue)?;
            let cost_total = actual_costs.sub(&input.budget_total_costs)?;
            let cost_pct = ratio_or_zero_exec(&cost_total, &input.budget_total_costs)?;
            let budget_profit = input.budget_total_revenue.sub(&input.budget_total_costs)?;
            let actual_profit = actual_revenue.sub(&actual_costs)?;
            let profit_total = actual_profit.sub(&budget_profit)?;
            let profit_pct = ratio_or_zero_exec(&profit_total, &budget_profit)?;
            let margin_budget = ratio_or_zero_exec(&budget_profit, &input.budget_total_revenue)?;
            let margin_actual = ratio_or_zero_exec(&actual_profit, &actual_revenue)?;
            Ok(
                VarianceDerived {
                    rev_total,
                    mix,
                    rev_pct,
                    cost_total,
                    cost_pct,
                    budget_profit,
                    actual_profit,
                    profit_total,
                    profit_pct,
                    margin_budget,
                    margin_actual,
                },
            )
        })();
    let dv = derived?;
    let lines = line_detail(input)?;

    // --- Year-over-year comparison ---
    let yoy_comparison = match &input.prior_period {
        Some(pp) => {
            let res: FinResult<YoyComparison> = (|| -> (rr: FinResult<YoyComparison>)
                ensures
                    rr is Err <==> yoy_spec(*pp, actual_revenue, dv.actual_profit) is None,
                    rr is Err ==> rr == Err::<YoyComparison, FinError>(FinError::ArithmeticOverflow),
                    rr matches Ok(y) ==> {
                        let g = yoy_spec(*pp, actual_revenue, dv.actual_profit).unwrap();
                        &&& y.prior_revenue == pp.revenue
                        &&& y.current_revenue == actual_revenue
                        &&& y.prior_profit == pp.profit
                        &&& y.current_profit == dv.actual_profit
                        &&& y.revenue_growth_pct == g.0
                        &&& y.profit_growth_pct == g.1
                        &&& y.margin_expansion_bps == g.2
                    },
                {
                    let cm = ratio_or_zero_exec(&dv.actual_profit, &actual_revenue)?;
                    let pm = ratio_or_zero_exec(&pp.profit, &pp.revenue)?;
                    let rg = ratio_or_zero_exec(&actual_revenue.sub(&pp.revenue)?, &pp.revenue)?;
                    let pg = ratio_or_zero_exec(&dv.actual_profit.sub(&pp.profit)?, &pp.profit)?;
                    let bps = cm.sub(&pm)?.mul(&Dec::new(10000, 0))?;
                    Ok(
                        YoyComparison {
                            prior_revenue: pp.revenue,
                            current_revenue: actual_revenue,
                            revenue_growth_pct: rg,
                            prior_profit: pp.profit,
                            current_profit: dv.actual_profit,
                            profit_growth_pct: pg,
                            margin_expansion_bps: bps,
                        },
                    )
                })();
            Some(res?)
        },
        None => None,
    };

    let out = VarianceOutput {
        revenue_variance: RevenueVariance {
            budget_revenue: input.budget_total_revenue,
            actual_revenue,
            total_variance: dv.rev_total,
            total_variance_pct: dv.rev_pct,
            price_variance,
            volume_variance,
            mix_variance: dv.mix,
            favorable: input.budget_total_revenue.lt(&actual_revenue),
        },
        cost_variance: CostVariance {
            budget_costs: input.budget_total_costs,
            actual_costs,
            total_variance: dv.cost_total,
            total_variance_pct: dv.cost_pct,
            favorable: actual_costs.lt(&input.budget_total_costs),
        },
        profit_variance: ProfitVariance {
            budget_profit: dv.budget_profit,
            actual_profit: dv.actual_profit,
            total_variance: dv.profit_total,
            total_variance_pct: dv.profit_pct,
            margin_budget: dv.margin_budget,
            margin_actual: dv.margin_actual,
        },
        line_detail: lines,
        yoy_comparison,
    };
    proof {
        lemma_variance_reads_inputs(i);
    }
    Ok(
        ComputationOutput {
            methodology: str_of(
                "Budget vs Actual Variance Analysis with Price/Volume/Mix Decomposition",
            ),
            warnings,
            result: out,
        },
    )
}

// ---------------------------------------------------------------------------
// Specification: break-even analysis
// ---------------------------------------------------------------------------

/// `base * (1 + pct)`, or `base` when no change is given.
pub open spec fn apply_pct_spec(base: Dec, change: Option<Dec>) -> Option<Dec> {
    match change {
        Some(pct) => omul(Some(base), Dec::lit(1, 0).add_spec(pct)),
        None => Some(base),
    }
}

/// Price, variable cost, fixed costs and contribution margin of a scenario.
pub open spec fn scen_inputs(b: BreakevenInput, o: ScenarioOverride) -> Option<(Dec, Dec, Dec, Dec)> {
    let price = apply_pct_spec(b.selling_price, o.price_change_pct);
    let vc = apply_pct_spec(b.variable_cost_per_unit, o.variable_cost_change_pct);
    let fc = apply_pct_spec(b.fixed_costs, o.fixed_cost_change_pct);
    let cm = osub(price, vc);
    if price is Some && vc is Some && fc is Some && cm is Some {
        Some((price.unwrap(), vc.unwrap(), fc.unwrap(), cm.unwrap()))
    } else {
        None
    }
}

/// Break-even units, break-even revenue, profit at the current volume and margin of
/// safety of a scenario whose contribution margin is positive.
pub struct ScenarioFigures {
    pub breakeven_units: Dec,
    pub breakeven_revenue: Dec,
    pub profit_at_current_volume: Dec,
    pub margin_of_safety_pct: Dec,
}

pub open spec fn scen_figures(b: BreakevenInput, price: Dec, fc: Dec, cm: Dec) -> Option<ScenarioFigures> {
    let vol = b.current_volume;
    let be = fc.div_spec(cm);
    let rev = omul(be, Some(price));
    let profit = osub(cm.mul_spec(vol), Some(fc));
    let mos = if vol.is_zero_spec() {
        Some(dzero())
    } else {
        odiv(osub(Some(vol), be), Some(vol))
    };
    if be is Some && rev is Some && profit is Some && mos is Some {
        Some(
            ScenarioFigures {
                breakeven_units: be.unwrap(),
                breakeven_revenue: rev.unwrap(),
                profit_at_current_volume: profit.unwrap(),
                margin_of_safety_pct: mos.unwrap(),
            },
        )
    } else {
        None
    }
}

pub open spec fn scenario_message(name: Seq<char>) -> Seq<char> {
    "Scenario '"@ + name + "': contribution margin is zero or negative after overrides"@
}

/// The error a scenario raises, if any.
pub open spec fn scen_error(b: BreakevenInput, o: ScenarioOverride) -> Option<ErrView> {
    match scen_inputs(b, o) {
        None => Some(overflow()),
        Some(q) => if q.3.le_spec(dzero()) {
            Some(financial_impossibility(scenario_message(o.name@)))
        } else if scen_figures(b, q.0, q.2, q.3) is None {
            Some(overflow())
        } else {
            None
        },
    }
}

/// The figures of a scenario that raises no error.
pub open spec fn scen_result(b: BreakevenInput, o: ScenarioOverride) -> ScenarioFigures {
    let q = scen_inputs(b, o).unwrap();
    scen_figures(b, q.0, q.2, q.3).unwrap()
}

/// The error of the first scenario that raises one.
pub open spec fn scenarios_error(b: BreakevenInput, ss: Seq<ScenarioOverride>) -> Option<ErrView>
    decreases ss.len(),
{
    if ss.len() == 0 {
        None
    } else {
        match scenarios_error(b, ss.drop_last()) {
            Some(e) => Some(e),
            None => scen_error(b, ss.last()),
        }
    }
}

pub open spec fn scenario_view(s: ScenarioResult) -> ScenarioFigures {
    ScenarioFigures {
        breakeven_units: s.breakeven_units,
        breakeven_revenue: s.breakeven_revenue,
        profit_at_current_volume: s.profit_at_current_volume,
        margin_of_safety_pct: s.margin_of_safety_pct,
    }
}

pub open spec fn scenario_views(rs: Seq<ScenarioResult>) -> Seq<ScenarioFigures> {
    rs.map_values(|s: ScenarioResult| scenario_view(s))
}

pub open spec fn scenario_results_spec(b: BreakevenInput, ss: Seq<ScenarioOverride>) -> Seq<ScenarioFigures> {
    ss.map_values(|o: ScenarioOverride| scen_result(b, o))
}

/// The base-case figures of break-even analysis.
pub struct BreakevenFigures {
    pub contribution_margin: Dec,
    pub contribution_margin_pct: Dec,
    pub breakeven_units: Dec,
    pub breakeven_revenue: Dec,
    pub current_profit: Dec,
    pub margin_of_safety_units: Dec,
    pub margin_of_safety_pct: Dec,
    pub operating_leverage: Dec,
    pub target_volume: Option<Dec>,
}

pub open spec fn breakeven_figures(i: BreakevenInput, cm: Dec) -> Option<BreakevenFigures> {
    let vol = i.current_volume;
    let cm_pct = cm.div_spec(i.selling_price);
    let be = i.fixed_costs.div_spec(cm);
    let rev = omul(be, Some(i.selling_price));
    let profit = osub(cm.mul_spec(vol), Some(i.fixed_costs));
    let mos_units = osub(Some(vol), be);
    let mos_pct = if vol.is_zero_spec() {
        Some(dzero())
    } else {
        odiv(mos_units, Some(vol))
    };
    let total_cm = cm.mul_spec(vol);
    let lev = match profit {
        Some(p) => if p.is_zero_spec() {
            Some(dzero())
        } else {
            odiv(total_cm, Some(p))
        },
        None => None,
    };
    let target = match i.target_profit {
        Some(tp) => odiv(i.fixed_costs.add_spec(tp), Some(cm)),
        None => Some(dzero()),
    };
    if cm_pct is Some && be is Some && rev is Some && profit is Some && mos_units is Some
        && mos_pct is Some && total_cm is Some && lev is Some && target is Some {
        Some(
            BreakevenFigures {
                contribution_margin: cm,
                contribution_margin_pct: cm_pct.unwrap(),
                breakeven_units: be.unwrap(),
                breakeven_revenue: rev.unwrap(),
                current_profit: profit.unwrap(),
                margin_of_safety_units: mos_units.unwrap(),
                margin_of_safety_pct: mos_pct.unwrap(),
                operating_leverage: lev.unwrap(),
                target_volume: match i.target_profit {
                    Some(_) => Some(target.unwrap()),
                    None => None,
                },
            },
        )
    } else {
        None
    }
}

/// The error break-even analysis raises, if any, in the order the checks run.
pub open spec fn breakeven_error(i: BreakevenInput) -> Option<ErrView> {
    if i.selling_price.le_spec(dzero()) {
        Some(invalid_input("selling_price"@, "Selling price must be positive"@))
    } else if i.variable_cost_per_unit.lt_spec(dzero()) {
        Some(invalid_input("variable_cost_per_unit"@, "Variable cost per unit cannot be negative"@))
    } else if i.fixed_costs.lt_spec(dzero()) {
        Some(invalid_input("fixed_costs"@, "Fixed costs cannot be negative"@))
    } else {
        match i.selling_price.sub_spec(i.variable_cost_per_unit) {
            None => Some(overflow()),
            Some(cm) => if cm.le_spec(dzero()) {
                Some(
                    financial_impossibility(
                        "Contribution margin is zero or negative — break-even is unreachable"@,
                    ),
                )
            } else if breakeven_figures(i, cm) is None {
                Some(overflow())
            } else {
                match i.scenarios {
                    Some(ss) => scenarios_error(i, ss@),
                    None => None,
                }
            },
        }
    }
}

pub open spec fn breakeven_warnings(i: BreakevenInput, f: BreakevenFigures) -> Seq<Seq<char>> {
    (if i.current_volume.is_zero_spec() {
        seq!["Current volume is zero; margin of safety is undefined"@]
    } else {
        seq![]
    }) + (if f.current_profit.is_zero_spec() {
        seq!["Current profit is zero; operating leverage is undefined (set to 0)"@]
    } else {
        seq![]
    })
}

// ---------------------------------------------------------------------------
// Implementation: break-even analysis
// ---------------------------------------------------------------------------

/// `base * (1 + change)`, or `base` when no change is given.
fn apply_pct_change(base: Dec, change_pct: Option<Dec>) -> (r: FinResult<Dec>)
    ensures
        r == lift(apply_pct_spec(base, change_pct)),
{
    match change_pct {
        Some(pct) => {
            let f = Dec::one().add(&pct)?;
            base.mul(&f)
        },
        None => Ok(base),
    }
}

/// One what-if scenario of break-even analysis.
/// What a break-even analysis reports, read off the input: the contribution margin is price
/// less variable cost and its share of price; break-even units are fixed costs over the
/// margin and break-even revenue those units times price; profit is the margin times the
/// current volume less fixed costs; the margin of safety is the volume above break-even,
/// and its share of volume (zero at zero volume); operating leverage is the total margin
/// over profit (zero at zero profit); the target volume, when a target profit is given,
/// is fixed costs plus that profit over the margin.
pub open spec fn breakeven_reads_inputs(i: BreakevenInput, o: BreakevenOutput) -> bool {
    let cm = o.contribution_margin;
    let vol = i.current_volume;
    &&& Some(cm) == i.selling_price.sub_spec(i.variable_cost_per_unit)
    &&& cm.gt_spec(dzero())
    &&& Some(o.contribution_margin_pct) == cm.div_spec(i.selling_price)
    &&& Some(o.breakeven_units) == i.fixed_costs.div_spec(cm)
    &&& Some(o.breakeven_revenue) == o.breakeven_units.mul_spec(i.selling_price)
    &&& Some(o.current_profit) == osub(cm.mul_spec(vol), Some(i.fixed_costs))
    &&& Some(o.margin_of_safety_units) == vol.sub_spec(o.breakeven_units)
    &&& Some(o.margin_of_safety_pct) == (if vol.is_zero_spec() {
        Some(dzero())
    } else {
        o.margin_of_safety_units.div_spec(vol)
    })
    &&& Some(o.operating_leverage) == (if o.current_profit.is_zero_spec() {
        Some(dzero())
    } else {
        match cm.mul_spec(vol) {
            Some(total) => total.div_spec(o.current_profit),
            None => None,
        }
    })
    &&& o.target_volume is Some <==> i.target_profit is Some
    &&& i.target_profit matches Some(tp) ==> o.target_volume == match i.fixed_costs.add_spec(tp) {
        Some(need) => need.div_spec(cm),
        None => None,
    }
}

/// A figure after an optional percentage change: `base * (1 + pct)`, or `base` unchanged.
pub open spec fn changed_by(base: Dec, pct: Option<Dec>) -> Option<Dec> {
    match pct {
        None => Some(base),
        Some(p) => match Dec::lit(1, 0).add_spec(p) {
            Some(f) => base.mul_spec(f),
            None => None,
        },
    }
}

/// What a scenario's figures mean: with the scenario's own price, variable cost and
/// fixed costs (the base ones after the scenario's changes) and its positive contribution
/// margin (price less variable cost), the break-even units are the scenario's fixed costs
/// over that margin, the break-even revenue is those units times the scenario's price, and
/// the profit at the current volume is the margin times the volume less the scenario's
/// fixed costs.
pub open spec fn scenario_consistent(b: BreakevenInput, o: ScenarioOverride, r: ScenarioFigures) -> bool {
    let price = changed_by(b.selling_price, o.price_change_pct);
    let vc = changed_by(b.variable_cost_per_unit, o.variable_cost_change_pct);
    let fc = changed_by(b.fixed_costs, o.fixed_cost_change_pct);
    &&& price is Some && vc is Some && fc is Some
    &&& price.unwrap().sub_spec(vc.unwrap()) matches Some(cm) && {
        &&& cm.gt_spec(dzero())
        &&& Some(r.breakeven_units) == fc.unwrap().div_spec(cm)
        &&& Some(r.breakeven_revenue) == r.breakeven_units.mul_spec(price.unwrap())
        &&& Some(r.profit_at_current_volume) == osub(cm.mul_spec(b.current_volume), fc)
    }
}

/// Every scenario that break-even analysis accepts is priced with its own changed price,
/// variable cost and fixed costs (`scenario_consistent`).
pub proof fn lemma_scenario_consistent(b: BreakevenInput, o: ScenarioOverride)
    requires
        scen_error(b, o) is None,
    ensures
        scenario_consistent(b, o, scen_result(b, o)),
{
    assert(changed_by(b.selling_price, o.price_change_pct) == apply_pct_spec(b.selling_price, o.price_change_pct));
    assert(changed_by(b.variable_cost_per_unit, o.variable_cost_change_pct) == apply_pct_spec(
        b.variable_cost_per_unit,
        o.variable_cost_change_pct,
    ));
    assert(changed_by(b.fixed_costs, o.fixed_cost_change_pct) == apply_pct_spec(b.fixed_costs, o.fixed_cost_change_pct));
    Dec::lemma_not_lt(dzero(), dzero());
}

/// A scenario that changes nothing gives the base case's break-even units, break-even
/// revenue, profit and margin of safety.
pub proof fn lemma_neutral_scenario(b: BreakevenInput, o: ScenarioOverride)
    requires
        o.price_change_pct is None,
        o.variable_cost_change_pct is None,
        o.fixed_cost_change_pct is None,
        scen_error(b, o) is None,
        b.selling_price.sub_spec(b.variable_cost_per_unit) is Some,
        breakeven_figures(b, b.selling_price.sub_spec(b.variable_cost_per_unit).unwrap()) is Some,
    ensures
        ({
            let r = scen_result(b, o);
            let f = breakeven_figures(b, b.selling_price.sub_spec(b.variable_cost_per_unit).unwrap()).unwrap();
            &&& r.breakeven_units == f.breakeven_units
            &&& r.breakeven_revenue == f.breakeven_revenue
            &&& r.profit_at_current_volume == f.current_profit
            &&& r.margin_of_safety_pct == f.margin_of_safety_pct
        }),
{
}

fn compute_scenario(base: &BreakevenInput, overrides: &ScenarioOverride) -> (r: FinResult<ScenarioResult>)
    ensures
        r is Err <==> scen_error(*base, *overrides) is Some,
        r matches Err(e) ==> Some(err_view(e)) == scen_error(*base, *overrides),
        r matches Ok(s) ==> scenario_view(s) == scen_result(*base, *overrides) && s.name
            == overrides.name,
        r matches Ok(s) ==> scenario_consistent(*base, *overrides, scenario_view(s)),
{
    let price = apply_pct_change(base.selling_price, overrides.price_change_pct)?;
    let vc = apply_pct_change(base.variable_cost_per_unit, overrides.variable_cost_change_pct)?;
    let fc = apply_pct_change(base.fixed_costs, overrides.fixed_cost_change_pct)?;
    let cm = price.sub(&vc)?;
    if cm.le(&Dec::zero()) {
        let msg = str_of("Scenario '").concat(overrides.name.as_str()).concat(
            "': contribution margin is zero or negative after overrides",
        );
        proof {
            assert(msg@ =~= scenario_message(overrides.name@));
        }
        return Err(FinError::FinancialImpossibility(msg));
    }
    let vol = base.current_volume;
    let figs: FinResult<ScenarioFigures> = (|| -> (rr: FinResult<ScenarioFigures>)
        ensures
            rr is Err <==> scen_figures(*base, price, fc, cm) is None,
            rr is Err ==> rr == Err::<ScenarioFigures, FinError>(FinError::ArithmeticOverflow),
            rr matches Ok(f) ==> scen_figures(*base, price, fc, cm) == Some(f),
        {
            let be_units = fc.div(&cm)?;
            let be_revenue = be_units.mul(&price)?;
            let profit = cm.mul(&vol)?.sub(&fc)?;
            let mos_pct = if vol.is_zero() {
                Dec::zero()
            } else {
                vol.sub(&be_units)?.div(&vol)?
            };
            Ok(
                ScenarioFigures {
                    breakeven_units: be_units,
                    breakeven_revenue: be_revenue,
                    profit_at_current_volume: profit,
                    margin_of_safety_pct: mos_pct,
                },
            )
        })();
    let f = figs?;
    proof {
        lemma_scenario_consistent(*base, *overrides);
    }
    Ok(
        ScenarioResult {
            name: overrides.name.clone(),
            breakeven_units: f.breakeven_units,
            breakeven_revenue: f.breakeven_revenue,
            profit_at_current_volume: f.profit_at_current_volume,
            margin_of_safety_pct: f.margin_of_safety_pct,
        },
    )
}

proof fn lemma_scenarios_error_prefix(b: BreakevenInput, ss: Seq<ScenarioOverride>, k: int)
    requires
        0 <= k < ss.len(),
        scenarios_error(b, ss.take(k)) is None,
        scen_error(b, ss[k]) is Some,
    ensures
        scenarios_error(b, ss) == scen_error(b, ss[k]),
    decreases ss.len() - k,
{
    assert(ss.take(k + 1).drop_last() =~= ss.take(k));
    assert(ss.take(k + 1).last() == ss[k]);
    lemma_scenarios_error_some(b, ss, k + 1);
}

/// Once a prefix raises an error, the whole list raises the same one.
proof fn lemma_scenarios_error_some(b: BreakevenInput, ss: Seq<ScenarioOverride>, k: int)
    requires
        0 <= k <= ss.len(),
        scenarios_error(b, ss.take(k)) is Some,
    ensures
        scenarios_error(b, ss) == scenarios_error(b, ss.take(k)),
    decreases ss.len() - k,
{
    if k == ss.len() {
        assert(ss.take(k) =~= ss);
    } else {
        assert(ss.take(k + 1).drop_last() =~= ss.take(k));
        lemma_scenarios_error_some(b, ss, k + 1);
    }
}

/// All scenarios, in order; the first one that fails decides the error.
fn run_scenarios(base: &BreakevenInput, ss: &Vec<ScenarioOverride>) -> (r: FinResult<Vec<ScenarioResult>>)
    ensures
        r is Err <==> scenarios_error(*base, ss@) is Some,
        r matches Err(e) ==> Some(err_view(e)) == scenarios_error(*base, ss@),
        r matches Ok(v) ==> scenario_views(v@) == scenario_results_spec(*base, ss@) && v@.len()
            == ss@.len() && forall|k: int| 0 <= k < v@.len() ==> (#[trigger] v@[k]).name
            == ss@[k].name,
        r matches Ok(v) ==> forall|k: int|
            0 <= k < v@.len() ==> scenario_consistent(*base, ss@[k], scenario_view(#[trigger] v@[k])),
{
    let mut out: Vec<ScenarioResult> = Vec::new();
    let mut j: usize = 0;
    while j < ss.len()
        invariant
            j <= ss@.len(),
            scenarios_error(*base, ss@.take(j as int)) is None,
            scenario_views(out@) == scenario_results_spec(*base, ss@.take(j as int)),
            out@.len() == j,
            forall|k: int| 0 <= k < j ==> (#[trigger] out@[k]).name == ss@[k].name,
            forall|k: int| 0 <= k < j ==> scenario_consistent(*base, ss@[k], scenario_view(#[trigger] out@[k])),
        decreases ss@.len() - j,
    {
        let res = compute_scenario(base, &ss[j]);
        proof {
            assert(ss@.take(j + 1).drop_last() =~= ss@.take(j as int));
            assert(ss@.take(j + 1).last() == ss@[j as int]);
        }
        match res {
            Ok(sr) => {
                let ghost v0 = out@;
                out.push(sr);
                proof {
                    assert(scenario_views(out@) =~= scenario_views(v0).push(scenario_view(sr)));
                    assert(scenario_results_spec(*base, ss@.take(j + 1)) =~= scenario_results_spec(
                        *base,
                        ss@.take(j as int),
                    ).push(scen_result(*base, ss@[j as int])));
                }
            },
            Err(e) => {
                proof {
                    lemma_scenarios_error_prefix(*base, ss@, j as int);
                }
                return Err(e);
            },
        }
        j = j + 1;
    }
    proof {
        assert(ss@.take(ss@.len() as int) =~= ss@);
    }
    Ok(out)
}

/// Break-even analysis: contribution margin, break-even volume and revenue, margin of
/// safety, operating leverage, the volume for a target profit and what-if scenarios.
pub fn analyze_breakeven(input: &BreakevenInput) -> (r: FinResult<ComputationOutput<BreakevenOutput>>)
    ensures
        r is Err <==> breakeven_error(*input) is Some,
        r matches Err(e) ==> Some(err_view(e)) == breakeven_error(*input),
        r matches Ok(o) ==> {
            let out = o.result;
            let cm = input.selling_price.sub_spec(input.variable_cost_per_unit).unwrap();
            let f = breakeven_figures(*input, cm).unwrap();
            &&& o.methodology@ == "Break-even Analysis with Operating Leverage and Scenario Modelling"@
            &&& o.warnings@.map_values(|s: String| s@) == breakeven_warnings(*input, f)
            &&& out.contribution_margin == f.contribution_margin
            &&& out.contribution_margin_pct == f.contribution_margin_pct
            &&& out.breakeven_units == f.breakeven_units
            &&& out.breakeven_revenue == f.breakeven_revenue
            &&& out.current_profit == f.current_profit
            &&& out.margin_of_safety_units == f.margin_of_safety_units
            &&& out.margin_of_safety_pct == f.margin_of_safety_pct
            &&& out.operating_leverage == f.operating_leverage
            &&& out.target_volume == f.target_volume
            &&& scenario_views(out.scenario_results@) == match input.scenarios {
                Some(ss) => scenario_results_spec(*input, ss@),
                None => Seq::empty(),
            }
            &&& forall|k: int|
                0 <= k < out.scenario_results@.len() ==> (#[trigger] out.scenario_results@[k]).name
                    == input.scenarios.unwrap()@[k].name
            &&& breakeven_reads_inputs(*input, out)
            &&& forall|k: int|
                0 <= k < out.scenario_results@.len() ==> scenario_consistent(
                    *input,
                    input.scenarios.unwrap()@[k],
                    scenario_view(#[trigger] out.scenario_results@[k]),
                )
        },
{
    let zero = Dec::zero();
    if input.selling_price.le(&zero) {
        return Err(
            FinError::InvalidInput {
                field: str_of("selling_price"),
                reason: str_of("Selling price must be positive"),
            },
        );
    }
    if input.variable_cost_per_unit.lt(&zero) {
        return Err(
            FinError::InvalidInput {
                field: str_of("variable_cost_per_unit"),
                reason: str_of("Variable cost per unit cannot be negative"),
            },
        );
    }
    if input.fixed_costs.lt(&zero) {
        return Err(
            FinError::InvalidInput {
                field: str_of("fixed_costs"),
                reason: str_of("Fixed costs cannot be negative"),
            },
        );
    }
    let cm = input.selling_price.sub(&input.variable_cost_per_unit)?;
    if cm.le(&zero) {
        return Err(
            FinError::FinancialImpossibility(
                str_of("Contribution margin is zero or negative — break-even is unreachable"),
            ),
        );
    }
    let ghost i = *input;
    let figs: FinResult<BreakevenFigures> = (|| -> (rr: FinResult<BreakevenFigures>)
        ensures
            rr is Err <==> breakeven_figures(i, cm) is None,
            rr is Err ==> rr == Err::<BreakevenFigures, FinError>(FinError::ArithmeticOverflow),
            rr matches Ok(f) ==> breakeven_figures(i, cm) == Some(f),
        {
            let vol = input.current_volume;
            let cm_pct = cm.div(&input.selling_price)?;
            let be = input.fixed_costs.div(&cm)?;
            let rev = be.mul(&input.selling_price)?;
            let total_cm = cm.mul(&vol)?;
            let profit = total_cm.sub(&input.fixed_costs)?;
            let mos_units = vol.sub(&be)?;
            let mos_pct = if vol.is_zero() {
                Dec::zero()
            } else {
                mos_units.div(&vol)?
            };
            let lev = if profit.is_zero() {
                Dec::zero()
            } else {
                total_cm.div(&profit)?
            };
            let target = match input.target_profit {
                Some(tp) => Some(input.fixed_costs.add(&tp)?.div(&cm)?),
                None => None,
            };
            Ok(
                BreakevenFigures {
                    contribution_margin: cm,
                    contribution_margin_pct: cm_pct,
                    breakeven_units: be,
                    breakeven_revenue: rev,
                    current_profit: profit,
                    margin_of_safety_units: mos_units,
                    margin_of_safety_pct: mos_pct,
                    operating_leverage: lev,
                    target_volume: target,
                },
            )
        })();
    let f = figs?;
    let mut warnings: Vec<String> = Vec::new();
    if input.current_volume.is_zero() {
        warnings.push(str_of("Current volume is zero; margin of safety is undefined"));
    }
    if f.current_profit.is_zero() {
        warnings.push(str_of("Current profit is zero; operating leverage is undefined (set to 0)"));
    }
    proof {
        assert(warnings@.map_values(|s: String| s@) =~= breakeven_warnings(i, f));
    }
    let scenario_results = match &input.scenarios {
        Some(ss) => run_scenarios(input, ss)?,
        None => Vec::new(),
    };
    proof {
        if input.scenarios is None {
            assert(scenario_views(scenario_results@) =~= Seq::<ScenarioFigures>::empty());
        }
    }
    Ok(
        ComputationOutput {
            methodology: str_of("Break-even Analysis with Operating Leverage and Scenario Modelling"),
            warnings,
            result: BreakevenOutput {
                contribution_margin: cm,
                contribution_margin_pct: f.contribution_margin_pct,
                breakeven_units: f.breakeven_units,
                breakeven_revenue: f.breakeven_revenue,
                current_profit: f.current_profit,
                margin_of_safety_units: f.margin_of_safety_units,
                margin_of_safety_pct: f.margin_of_safety_pct,
                operating_leverage: f.operating_leverage,
                target_volume: f.target_volume,
                scenario_results,
            },
        },
    )
}

} // verus!
