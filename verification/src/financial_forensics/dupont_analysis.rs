//! DuPont decomposition of return on equity: three-way (margin x turnover x leverage) and
//! five-way (tax burden x interest burden x operating margin x turnover x leverage), with the
//! change against a prior period and a short diagnosis.
use vstd::prelude::*;

use crate::dec::{dzero, group_dec, lift, omul, osub, Dec};
use crate::error::{division_by_zero, err_view, overflow, ErrView, FinError, FinResult};

verus! {

broadcast use group_dec;

pub struct DupontInput {
    pub net_income: Dec,
    pub revenue: Dec,
    pub total_assets: Dec,
    pub shareholders_equity: Dec,
    pub ebt: Dec,
    pub ebit: Dec,
    pub interest_expense: Dec,
    pub tax_expense: Dec,
    /// Prior period, for the trend; used only when all four are present.
    pub prior_net_income: Option<Dec>,
    pub prior_revenue: Option<Dec>,
    pub prior_total_assets: Option<Dec>,
    pub prior_equity: Option<Dec>,
}

pub struct DupontOutput {
    pub roe: Dec,
    pub net_profit_margin: Dec,
    pub asset_turnover: Dec,
    pub equity_multiplier: Dec,
    /// margin x turnover x multiplier.
    pub roe_check: Dec,
    pub tax_burden: Dec,
    pub interest_burden: Dec,
    pub operating_margin: Dec,
    pub asset_turnover_5: Dec,
    pub equity_multiplier_5: Dec,
    /// tax burden x interest burden x operating margin x turnover x multiplier.
    pub roe_check_5: Dec,
    pub roe_change: Option<Dec>,
    pub margin_change: Option<Dec>,
    pub turnover_change: Option<Dec>,
    pub leverage_change: Option<Dec>,
    /// The component whose change is largest in absolute value.
    pub primary_driver: Option<String>,
    pub diagnosis: String,
}

/// The change against the prior period.
pub struct DupontTrend {
    pub roe_change: Dec,
    pub margin_change: Dec,
    pub turnover_change: Dec,
    pub leverage_change: Dec,
    pub driver: Seq<char>,
}

/// The decomposition as values.
pub struct DupontFigures {
    pub roe: Dec,
    pub margin: Dec,
    pub turnover: Dec,
    pub multiplier: Dec,
    pub roe_check: Dec,
    pub tax_burden: Dec,
    pub interest_burden: Dec,
    pub operating_margin: Dec,
    pub roe_check_5: Dec,
    pub trend: Option<DupontTrend>,
    pub diagnosis: Seq<char>,
}

// ---------------------------------------------------------------------------
// Specification
// ---------------------------------------------------------------------------

pub open spec fn dupont_validation(i: DupontInput) -> Option<ErrView> {
    if i.revenue.is_zero_spec() {
        Some(division_by_zero("Revenue cannot be zero for DuPont analysis."@))
    } else if i.total_assets.is_zero_spec() {
        Some(division_by_zero("Total assets cannot be zero for DuPont analysis."@))
    } else if i.shareholders_equity.is_zero_spec() {
        Some(division_by_zero("Shareholders equity cannot be zero for DuPont analysis."@))
    } else if i.ebt.is_zero_spec() && !i.net_income.is_zero_spec() {
        Some(division_by_zero("EBT cannot be zero when net income is non-zero."@))
    } else if i.ebit.is_zero_spec() && !i.ebt.is_zero_spec() {
        Some(division_by_zero("EBIT cannot be zero when EBT is non-zero."@))
    } else {
        None
    }
}

/// The diagnosis sentences that apply, in order.
pub open spec fn diagnosis_parts(margin: Dec, turnover: Dec, mult: Dec, tax: Dec, interest: Dec) -> Seq<Seq<char>> {
    let p0: Seq<Seq<char>> = Seq::empty();
    let p1 = if margin.lt_spec(Dec::lit(5, 2)) {
        p0.push("Low profit margins indicate pricing pressure or cost issues"@)
    } else if margin.gt_spec(Dec::lit(20, 2)) {
        p0.push("Strong profit margins suggest competitive advantage"@)
    } else {
        p0
    };
    let p2 = if turnover.lt_spec(Dec::lit(5, 1)) {
        p1.push("Low asset turnover suggests capital-intensive operations or underutilized assets"@)
    } else if turnover.gt_spec(Dec::lit(20, 1)) {
        p1.push("High asset turnover indicates efficient asset utilization"@)
    } else {
        p1
    };
    let p3 = if mult.gt_spec(Dec::lit(50, 1)) {
        p2.push("Very high financial leverage increases financial risk significantly"@)
    } else if mult.gt_spec(Dec::lit(30, 1)) {
        p2.push("Elevated financial leverage increases risk"@)
    } else if mult.lt_spec(Dec::lit(15, 1)) {
        p2.push("Conservative leverage with low financial risk"@)
    } else {
        p2
    };
    let p4 = if tax.lt_spec(Dec::lit(6, 1)) {
        p3.push("High effective tax rate reduces returns"@)
    } else {
        p3
    };
    if interest.lt_spec(Dec::lit(7, 1)) {
        p4.push("Interest expense significantly erodes pre-tax profits"@)
    } else {
        p4
    }
}

/// The texts joined with ". ".
pub open spec fn join_sentences(ps: Seq<Seq<char>>) -> Seq<char>
    decreases ps.len(),
{
    if ps.len() == 0 {
        Seq::empty()
    } else if ps.len() == 1 {
        ps[0]
    } else {
        join_sentences(ps.drop_last()) + ". "@ + ps.last()
    }
}

pub open spec fn diagnosis_spec(margin: Dec, turnover: Dec, mult: Dec, tax: Dec, interest: Dec) -> Seq<char> {
    let ps = diagnosis_parts(margin, turnover, mult, tax, interest);
    if ps.len() == 0 {
        "Balanced DuPont profile with no notable concerns"@
    } else {
        join_sentences(ps) + "."@
    }
}

/// The component with the largest absolute change; the later one on a tie.
pub open spec fn driver_spec(margin_chg: Dec, turnover_chg: Dec, leverage_chg: Dec) -> Seq<char> {
    let (n1, b1) = if margin_chg.abs_spec().gt_spec(turnover_chg.abs_spec()) {
        ("Profit margin"@, margin_chg.abs_spec())
    } else {
        ("Asset turnover"@, turnover_chg.abs_spec())
    };
    if b1.gt_spec(leverage_chg.abs_spec()) {
        n1
    } else {
        "Financial leverage"@
    }
}

/// The change against the prior period: `Some(None)` when a prior figure is missing or a
/// prior denominator is zero; `None` on overflow.
pub open spec fn trend_spec(i: DupontInput, m: Dec, t: Dec, mult: Dec) -> Option<Option<DupontTrend>> {
    match (i.prior_net_income, i.prior_revenue, i.prior_total_assets, i.prior_equity) {
        (Some(ni), Some(rev), Some(ta), Some(eq)) => if rev.is_zero_spec() || ta.is_zero_spec() || eq.is_zero_spec() {
            Some(None)
        } else {
            match (ni.div_spec(eq), ni.div_spec(rev), rev.div_spec(ta), ta.div_spec(eq)) {
                (Some(proe), Some(pm), Some(pt), Some(pmult)) => match (
                    osub(omul(m.mul_spec(t), Some(mult)), Some(proe)),
                    m.sub_spec(pm),
                    t.sub_spec(pt),
                    mult.sub_spec(pmult),
                ) {
                    (Some(rc), Some(mc), Some(tc), Some(lc)) => Some(
                        Some(
                            DupontTrend {
                                roe_change: rc,
                                margin_change: mc,
                                turnover_change: tc,
                                leverage_change: lc,
                                driver: driver_spec(mc, tc, lc),
                            },
                        ),
                    ),
                    _ => None,
                },
                _ => None,
            }
        },
        _ => Some(None),
    }
}

/// `num / den` where `den` is known not to be zero; zero for the burdens whose denominator is.
pub open spec fn burden(num: Dec, den: Dec) -> Option<Dec> {
    if den.is_zero_spec() {
        Some(dzero())
    } else {
        num.div_spec(den)
    }
}

pub open spec fn dupont_spec(i: DupontInput) -> Result<DupontFigures, ErrView> {
    match dupont_validation(i) {
        Some(e) => Err(e),
        None => match (
            i.net_income.div_spec(i.shareholders_equity),
            i.net_income.div_spec(i.revenue),
            i.revenue.div_spec(i.total_assets),
            i.total_assets.div_spec(i.shareholders_equity),
        ) {
            (Some(roe), Some(m), Some(t), Some(mult)) => match (
                omul(m.mul_spec(t), Some(mult)),
                burden(i.net_income, i.ebt),
                burden(i.ebt, i.ebit),
                i.ebit.div_spec(i.revenue),
            ) {
                (Some(check), Some(tax), Some(interest), Some(om)) => match (
                    omul(omul(omul(tax.mul_spec(interest), Some(om)), Some(t)), Some(mult)),
                    trend_spec(i, m, t, mult),
                ) {
                    (Some(check5), Some(trend)) => Ok(
                        DupontFigures {
                            roe,
                            margin: m,
                            turnover: t,
                            multiplier: mult,
                            roe_check: check,
                            tax_burden: tax,
                            interest_burden: interest,
                            operating_margin: om,
                            roe_check_5: check5,
                            trend,
                            diagnosis: diagnosis_spec(m, t, mult, tax, interest),
                        },
                    ),
                    _ => Err(overflow()),
                },
                _ => Err(overflow()),
            },
            _ => Err(overflow()),
        },
    }
}

// ---------------------------------------------------------------------------
// Implementation
// ---------------------------------------------------------------------------

fn str_of(s: &str) -> (r: String)
    ensures
        r@ == s@,
{
    String::from_str(s)
}

fn join_parts(parts: &Vec<String>) -> (r: String)
    ensures
        r@ == join_sentences(parts@.map_values(|p: String| p@)),
{
    let ghost ps = parts@.map_values(|p: String| p@);
    let mut r = String::new();
    let mut j: usize = 0;
    while j < parts.len()
        invariant
            j <= parts@.len(),
            ps == parts@.map_values(|p: String| p@),
            r@ == join_sentences(ps.take(j as int)),
        decreases parts@.len() - j,
    {
        proof {
            assert(ps.take(j + 1).drop_last() =~= ps.take(j as int));
        }
        if j == 0 {
            r = parts[0].clone();
            proof {
                assert(ps.take(1).len() == 1);
            }
        } else {
            r = r.concat(". ").concat(parts[j].as_str());
        }
        j = j + 1;
    }
    proof {
        assert(ps.take(ps.len() as int) =~= ps);
    }
    r
}

/// One or two sentences on each driver that stands out, or a note that none does.
fn diagnose(margin: Dec, turnover: Dec, mult: Dec, tax: Dec, interest: Dec) -> (r: String)
    ensures
        r@ == diagnosis_spec(margin, turnover, mult, tax, interest),
{
    let mut parts: Vec<String> = Vec::new();
    if margin.lt(&Dec::new(5, 2)) {
        parts.push(str_of("Low profit margins indicate pricing pressure or cost issues"));
    } else if margin.gt(&Dec::new(20, 2)) {
        parts.push(str_of("Strong profit margins suggest competitive advantage"));
    }
    if turnover.lt(&Dec::new(5, 1)) {
        parts.push(str_of("Low asset turnover suggests capital-intensive operations or underutilized assets"));
    } else if turnover.gt(&Dec::new(20, 1)) {
        parts.push(str_of("High asset turnover indicates efficient asset utilization"));
    }
    if mult.gt(&Dec::new(50, 1)) {
        parts.push(str_of("Very high financial leverage increases financial risk significantly"));
    } else if mult.gt(&Dec::new(30, 1)) {
        parts.push(str_of("Elevated financial leverage increases risk"));
    } else if mult.lt(&Dec::new(15, 1)) {
        parts.push(str_of("Conservative leverage with low financial risk"));
    }
    if tax.lt(&Dec::new(6, 1)) {
        parts.push(str_of("High effective tax rate reduces returns"));
    }
    if interest.lt(&Dec::new(7, 1)) {
        parts.push(str_of("Interest expense significantly erodes pre-tax profits"));
    }
    proof {
        assert(parts@.map_values(|p: String| p@) =~= diagnosis_parts(margin, turnover, mult, tax, interest));
    }
    if parts.len() == 0 {
        str_of("Balanced DuPont profile with no notable concerns")
    } else {
        join_parts(&parts).concat(".")
    }
}

/// `num / den`, or a division-by-zero error naming `ctx`.
fn safe_div(num: Dec, den: Dec, ctx: &str) -> (r: FinResult<Dec>)
    ensures
        den.is_zero_spec() ==> (r matches Err(FinError::DivisionByZero { context }) && context@ == ctx@),
        !den.is_zero_spec() ==> r == lift(num.div_spec(den)),
{
    if den.is_zero() {
        return Err(FinError::DivisionByZero { context: str_of(ctx) });
    }
    num.div(&den)
}

fn compute_trend(input: &DupontInput, m: Dec, t: Dec, mult: Dec) -> (r: FinResult<(Option<Dec>, Option<Dec>, Option<Dec>, Option<Dec>, Option<String>)>)
    ensures
        r is Err <==> trend_spec(*input, m, t, mult) is None,
        r is Err ==> r == Err::<(Option<Dec>, Option<Dec>, Option<Dec>, Option<Dec>, Option<String>), FinError>(
            FinError::ArithmeticOverflow,
        ),
        r matches Ok(v) ==> match trend_spec(*input, m, t, mult)->Some_0 {
            None => v.0 is None && v.1 is None && v.2 is None && v.3 is None && v.4 is None,
            Some(tr) => {
                &&& v.0 == Some(tr.roe_change)
                &&& v.1 == Some(tr.margin_change)
                &&& v.2 == Some(tr.turnover_change)
                &&& v.3 == Some(tr.leverage_change)
                &&& v.4 matches Some(d) && d@ == tr.driver
            },
        },
{
    let (ni, rev, ta, eq) = match (input.prior_net_income, input.prior_revenue, input.prior_total_assets, input.prior_equity) {
        (Some(ni), Some(rev), Some(ta), Some(eq)) => (ni, rev, ta, eq),
        _ => {
            return Ok((None, None, None, None, None));
        },
    };
    if rev.is_zero() || ta.is_zero() || eq.is_zero() {
        return Ok((None, None, None, None, None));
    }
    let proe = ni.div(&eq)?;
    let pm = ni.div(&rev)?;
    let pt = rev.div(&ta)?;
    let pmult = ta.div(&eq)?;
    let rc = m.mul(&t)?.mul(&mult)?.sub(&proe)?;
    let mc = m.sub(&pm)?;
    let tc = t.sub(&pt)?;
    let lc = mult.sub(&pmult)?;
    let (mut name, best) = if mc.abs().gt(&tc.abs()) {
        (str_of("Profit margin"), mc.abs())
    } else {
        (str_of("Asset turnover"), tc.abs())
    };
    if !best.gt(&lc.abs()) {
        name = str_of("Financial leverage");
    }
    Ok((Some(rc), Some(mc), Some(tc), Some(lc), Some(name)))
}

/// DuPont decomposition (three-way and five-way), with the change against the prior period
/// when all four prior figures are given, and a diagnosis.
pub fn calculate_dupont(input: &DupontInput) -> (r: FinResult<DupontOutput>)
    ensures
        r is Err <==> dupont_spec(*input) is Err,
        r matches Err(e) ==> dupont_spec(*input) == Err::<DupontFigures, ErrView>(err_view(e)),
        r matches Ok(o) ==> {
            let f = dupont_spec(*input)->Ok_0;
            &&& o.roe == f.roe
            &&& o.net_profit_margin == f.margin
            &&& o.asset_turnover == f.turnover
            &&& o.equity_multiplier == f.multiplier
            &&& o.roe_check == f.roe_check
            &&& o.tax_burden == f.tax_burden
            &&& o.interest_burden == f.interest_burden
            &&& o.operating_margin == f.operating_margin
            &&& o.asset_turnover_5 == f.turnover
            &&& o.equity_multiplier_5 == f.multiplier
            &&& o.roe_check_5 == f.roe_check_5
            &&& o.diagnosis@ == f.diagnosis
            &&& match f.trend {
                None => o.roe_change is None && o.margin_change is None && o.turnover_change is None
                    && o.leverage_change is None && o.primary_driver is None,
                Some(tr) => {
                    &&& o.roe_change == Some(tr.roe_change)
                    &&& o.margin_change == Some(tr.margin_change)
                    &&& o.turnover_change == Some(tr.turnover_change)
                    &&& o.leverage_change == Some(tr.leverage_change)
                    &&& o.primary_driver matches Some(d) && d@ == tr.driver
                        && driver_is_largest(tr.margin_change, tr.turnover_change, tr.leverage_change, d@)
                },
            }
            &&& dupont_reads_inputs(*input, o)
        },
{
    let zero = Dec::zero();
    if input.revenue.is_zero() {
        return Err(FinError::DivisionByZero { context: str_of("Revenue cannot be zero for DuPont analysis.") });
    }
    if input.total_assets.is_zero() {
        return Err(FinError::DivisionByZero { context: str_of("Total assets cannot be zero for DuPont analysis.") });
    }
    if input.shareholders_equity.is_zero() {
        return Err(
            FinError::DivisionByZero { context: str_of("Shareholders equity cannot be zero for DuPont analysis.") },
        );
    }
    if input.ebt.is_zero() && !input.net_income.is_zero() {
        return Err(FinError::DivisionByZero { context: str_of("EBT cannot be zero when net income is non-zero.") });
    }
    if input.ebit.is_zero() && !input.ebt.is_zero() {
        return Err(FinError::DivisionByZero { context: str_of("EBIT cannot be zero when EBT is non-zero.") });
    }
    let roe = safe_div(input.net_income, input.shareholders_equity, "ROE")?;
    let margin = safe_div(input.net_income, input.revenue, "Net profit margin")?;
    let turnover = safe_div(input.revenue, input.total_assets, "Asset turnover")?;
    let mult = safe_div(input.total_assets, input.shareholders_equity, "Equity multiplier")?;
    let check = margin.mul(&turnover)?.mul(&mult)?;
    let tax = if input.ebt.is_zero() {
        zero
    } else {
        safe_div(input.net_income, input.ebt, "Tax burden")?
    };
    let interest = if input.ebit.is_zero() {
        zero
    } else {
        safe_div(input.ebt, input.ebit, "Interest burden")?
    };
    let om = safe_div(input.ebit, input.revenue, "Operating margin")?;
    let check5 = tax.mul(&interest)?.mul(&om)?.mul(&turnover)?.mul(&mult)?;
    let trend = compute_trend(input, margin, turnover, mult)?;
    let diagnosis = diagnose(margin, turnover, mult, tax, interest);
    proof {
        if dupont_spec(*input) is Ok && dupont_spec(*input)->Ok_0.trend is Some {
            lemma_primary_driver_largest(*input);
        }
    }
    Ok(
        DupontOutput {
            roe,
            net_profit_margin: margin,
            asset_turnover: turnover,
            equity_multiplier: mult,
            roe_check: check,
            tax_burden: tax,
            interest_burden: interest,
            operating_margin: om,
            asset_turnover_5: turnover,
            equity_multiplier_5: mult,
            roe_check_5: check5,
            roe_change: trend.0,
            margin_change: trend.1,
            turnover_change: trend.2,
            leverage_change: trend.3,
            primary_driver: trend.4,
            diagnosis,
        },
    )
}

/// The driver named by a trend is the component whose change is largest in absolute
/// value: it is one of the three components, and no other component's change is larger in
/// absolute value than the named one's.
pub open spec fn driver_is_largest(margin_chg: Dec, turnover_chg: Dec, leverage_chg: Dec, driver: Seq<char>) -> bool {
    let (m, t, l) = (margin_chg.abs_spec(), turnover_chg.abs_spec(), leverage_chg.abs_spec());
    &&& driver == "Profit margin"@ || driver == "Asset turnover"@ || driver == "Financial leverage"@
    &&& driver == "Profit margin"@ ==> !m.lt_spec(t) && !m.lt_spec(l)
    &&& driver == "Asset turnover"@ ==> !t.lt_spec(m) && !t.lt_spec(l)
    &&& driver == "Financial leverage"@ ==> !l.lt_spec(m) && !l.lt_spec(t)
}

proof fn lemma_trend_driver(i: DupontInput)
    requires
        dupont_spec(i) is Ok,
        dupont_spec(i)->Ok_0.trend is Some,
    ensures
        ({
            let tr = dupont_spec(i)->Ok_0.trend.unwrap();
            tr.driver == driver_spec(tr.margin_change, tr.turnover_change, tr.leverage_change)
        }),
{
    let f = dupont_spec(i)->Ok_0;
    let m = i.net_income.div_spec(i.revenue).unwrap();
    let t = i.revenue.div_spec(i.total_assets).unwrap();
    let mult = i.total_assets.div_spec(i.shareholders_equity).unwrap();
    assert(Some(f.trend) == trend_spec(i, m, t, mult));
}

/// What each DuPont figure is, read off the inputs and the other reported figures: ROE is
/// net income over equity; the margin, turnover and multiplier are net income over revenue,
/// revenue over assets and assets over equity, and their product checks ROE; the tax and
/// interest burdens are net income over EBT and EBT over EBIT (zero over a zero
/// denominator), the operating margin EBIT over revenue, and the five factors' product
/// checks ROE again. A trend is reported exactly when all four prior figures are given and
/// the prior revenue, assets and equity are not zero; each change is then the current ratio
/// less the same ratio of the prior figures.
pub open spec fn dupont_reads_inputs(i: DupontInput, o: DupontOutput) -> bool {
    &&& Some(o.roe) == i.net_income.div_spec(i.shareholders_equity)
    &&& Some(o.net_profit_margin) == i.net_income.div_spec(i.revenue)
    &&& Some(o.asset_turnover) == i.revenue.div_spec(i.total_assets)
    &&& Some(o.equity_multiplier) == i.total_assets.div_spec(i.shareholders_equity)
    &&& Some(o.roe_check) == omul(o.net_profit_margin.mul_spec(o.asset_turnover), Some(o.equity_multiplier))
    &&& Some(o.tax_burden) == (if i.ebt.is_zero_spec() {
        Some(dzero())
    } else {
        i.net_income.div_spec(i.ebt)
    })
    &&& Some(o.interest_burden) == (if i.ebit.is_zero_spec() {
        Some(dzero())
    } else {
        i.ebt.div_spec(i.ebit)
    })
    &&& Some(o.operating_margin) == i.ebit.div_spec(i.revenue)
    &&& o.asset_turnover_5 == o.asset_turnover && o.equity_multiplier_5 == o.equity_multiplier
    &&& Some(o.roe_check_5) == omul(
        omul(omul(o.tax_burden.mul_spec(o.interest_burden), Some(o.operating_margin)), Some(o.asset_turnover)),
        Some(o.equity_multiplier),
    )
    &&& (o.margin_change is Some <==> (i.prior_net_income is Some && i.prior_revenue is Some
        && i.prior_total_assets is Some && i.prior_equity is Some
        && !i.prior_revenue.unwrap().is_zero_spec() && !i.prior_total_assets.unwrap().is_zero_spec()
        && !i.prior_equity.unwrap().is_zero_spec()))
    &&& (o.roe_change is Some <==> o.margin_change is Some) && (o.turnover_change is Some
        <==> o.margin_change is Some) && (o.leverage_change is Some <==> o.margin_change is Some)
        && (o.primary_driver is Some <==> o.margin_change is Some)
    &&& o.margin_change is Some ==> {
        let (pni, prev, pta, peq) = (
            i.prior_net_income.unwrap(),
            i.prior_revenue.unwrap(),
            i.prior_total_assets.unwrap(),
            i.prior_equity.unwrap(),
        );
        &&& o.roe_change == osub(Some(o.roe_check), pni.div_spec(peq))
        &&& o.margin_change == osub(Some(o.net_profit_margin), pni.div_spec(prev))
        &&& o.turnover_change == osub(Some(o.asset_turnover), prev.div_spec(pta))
        &&& o.leverage_change == osub(Some(o.equity_multiplier), pta.div_spec(peq))
    }
}

/// Whenever DuPont analysis reports a trend, its primary driver is the component (profit
/// margin, asset turnover or financial leverage) whose change against the prior period is
/// largest in absolute value.
pub proof fn lemma_primary_driver_largest(i: DupontInput)
    requires
        dupont_spec(i) is Ok,
        dupont_spec(i)->Ok_0.trend is Some,
    ensures
        ({
            let tr = dupont_spec(i)->Ok_0.trend.unwrap();
            driver_is_largest(tr.margin_change, tr.turnover_change, tr.leverage_change, tr.driver)
        }),
{
    let tr = dupont_spec(i)->Ok_0.trend.unwrap();
    lemma_trend_driver(i);
    reveal_strlit("Profit margin");
    reveal_strlit("Asset turnover");
    reveal_strlit("Financial leverage");
    let (m, t, l) = (
        tr.margin_change.abs_spec(),
        tr.turnover_change.abs_spec(),
        tr.leverage_change.abs_spec(),
    );
    Dec::lemma_not_lt(m, t);
    Dec::lemma_not_lt(t, m);
    Dec::lemma_not_lt(m, l);
    Dec::lemma_not_lt(l, m);
    Dec::lemma_not_lt(t, l);
    Dec::lemma_not_lt(l, t);
    let d = driver_spec(tr.margin_change, tr.turnover_change, tr.leverage_change);
    assert(tr.driver == d);
    if m.gt_spec(t) {
        if !m.gt_spec(l) {
            Dec::lemma_lt_le_trans(t, m, l);
            assert(d == "Financial leverage"@);
        } else {
            assert(d == "Profit margin"@);
        }
    } else {
        if !t.gt_spec(l) {
            Dec::lemma_le_trans(m, t, l);
            assert(d == "Financial leverage"@);
        } else {
            assert(d == "Asset turnover"@);
        }
    }
    assert(driver_is_largest(tr.margin_change, tr.turnover_change, tr.leverage_change, d));
}

} // verus!
