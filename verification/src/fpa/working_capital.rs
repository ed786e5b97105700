//! Working capital analysis (DSO/DIO/DPO/CCC) and rolling financial forecasts.
//!
//! The rolling forecast projects revenue, margins and free cash flow from
//! historical periods, a growth rate and driver percentages.
use vstd::prelude::*;

use crate::dec::{
    dzero, group_dec, lift, nat_digits, oadd, odiv, omul, osub, ratio_or_zero,
    ratio_or_zero_exec, sum_opt, u32_to_string, Dec,
};
use crate::error::{
    err_view, insufficient_data, invalid_input, ErrView, FinError, FinResult,
};
use crate::types::ComputationOutput;

verus! {

broadcast use group_dec;

/// Input for building a rolling financial forecast.
pub struct RollingForecastInput {
    pub company_name: String,
    /// Historical periods, oldest first; at least four.
    pub historical_periods: Vec<ForecastPeriod>,
    /// Number of periods to forecast forward.
    pub forecast_periods: u32,
    /// Revenue growth rate per period.
    pub revenue_growth_rate: Dec,
    pub drivers: ForecastDrivers,
}

/// A single historical period.
pub struct ForecastPeriod {
    pub period_name: String,
    pub revenue: Dec,
    pub cogs: Dec,
    pub operating_expenses: Dec,
    pub capex: Dec,
    pub depreciation: Dec,
}

/// Driver assumptions; a missing percentage is derived from history.
pub struct ForecastDrivers {
    pub cogs_pct_revenue: Option<Dec>,
    pub opex_pct_revenue: Option<Dec>,
    pub capex_pct_revenue: Option<Dec>,
    pub depreciation_pct_ppe: Option<Dec>,
    pub tax_rate: Dec,
}

pub struct RollingForecastOutput {
    pub historical: Vec<ForecastRow>,
    pub forecast: Vec<ForecastRow>,
    pub driver_assumptions: DriverAssumptions,
    pub summary: ForecastSummary,
}

/// One row of the forecast, historical or projected.
pub struct ForecastRow {
    pub period_name: String,
    pub revenue: Dec,
    pub cogs: Dec,
    pub gross_profit: Dec,
    pub gross_margin: Dec,
    pub operating_expenses: Dec,
    pub ebitda: Dec,
    pub ebitda_margin: Dec,
    pub depreciation: Dec,
    pub ebit: Dec,
    pub tax: Dec,
    pub net_income: Dec,
    pub capex: Dec,
    pub free_cash_flow: Dec,
    pub is_forecast: bool,
}

/// The driver percentages actually used.
pub struct DriverAssumptions {
    pub cogs_pct: Dec,
    pub opex_pct: Dec,
    pub capex_pct: Dec,
    pub source: String,
}

pub struct ForecastSummary {
    pub forecast_revenue_cagr: Dec,
    pub avg_forecast_ebitda_margin: Dec,
    pub cumulative_fcf: Dec,
    pub terminal_revenue: Dec,
}

/// The figures of a row, without its label.
pub struct RowFigures {
    pub revenue: Dec,
    pub cogs: Dec,
    pub gross_profit: Dec,
    pub gross_margin: Dec,
    pub operating_expenses: Dec,
    pub ebitda: Dec,
    pub ebitda_margin: Dec,
    pub depreciation: Dec,
    pub ebit: Dec,
    pub tax: Dec,
    pub net_income: Dec,
    pub capex: Dec,
    pub free_cash_flow: Dec,
}

pub open spec fn figures(r: ForecastRow) -> RowFigures {
    RowFigures {
        revenue: r.revenue,
        cogs: r.cogs,
        gross_profit: r.gross_profit,
        gross_margin: r.gross_margin,
        operating_expenses: r.operating_expenses,
        ebitda: r.ebitda,
        ebitda_margin: r.ebitda_margin,
        depreciation: r.depreciation,
        ebit: r.ebit,
        tax: r.tax,
        net_income: r.net_income,
        capex: r.capex,
        free_cash_flow: r.free_cash_flow,
    }
}

/// Which historical ratio to revenue a driver is derived from.
pub enum DriverKind {
    Cogs,
    Opex,
    Capex,
    Depreciation,
}

// ---------------------------------------------------------------------------
// Specification
// ---------------------------------------------------------------------------

pub open spec fn validation_error(i: RollingForecastInput) -> Option<ErrView> {
    if i.historical_periods@.len() < 4 {
        Some(insufficient_data("At least 4 historical periods are required for a rolling forecast."@))
    } else if i.forecast_periods == 0 {
        Some(invalid_input("forecast_periods"@, "Must forecast at least one period."@))
    } else if i.drivers.tax_rate.lt_spec(dzero()) || Dec::lit(1, 0).lt_spec(i.drivers.tax_rate) {
        Some(invalid_input("tax_rate"@, "Tax rate must be between 0 and 1."@))
    } else {
        None
    }
}

pub open spec fn driver_numer(p: ForecastPeriod, k: DriverKind) -> Dec {
    match k {
        DriverKind::Cogs => p.cogs,
        DriverKind::Opex => p.operating_expenses,
        DriverKind::Capex => p.capex,
        DriverKind::Depreciation => p.depreciation,
    }
}

/// The simple average over the periods of `driver / revenue` (zero for zero revenue).
pub open spec fn hist_avg(ps: Seq<ForecastPeriod>, k: DriverKind) -> Option<Dec> {
    if ps.len() == 0 {
        Some(dzero())
    } else {
        odiv(
            sum_opt(ps.map_values(|p: ForecastPeriod| ratio_or_zero(driver_numer(p, k), p.revenue))),
            Some(Dec::lit(ps.len() as int, 0)),
        )
    }
}

/// The override when given, otherwise the historical average.
pub open spec fn driver_pct(ov: Option<Dec>, ps: Seq<ForecastPeriod>, k: DriverKind) -> Option<
    Dec,
> {
    match ov {
        Some(v) => Some(v),
        None => hist_avg(ps, k),
    }
}

pub open spec fn source_label(ov: Option<Dec>) -> Seq<char> {
    if ov is Some {
        "User override"@
    } else {
        "Historical average"@
    }
}

pub open spec fn source_spec(d: ForecastDrivers) -> Seq<char> {
    if d.cogs_pct_revenue is Some && d.opex_pct_revenue is Some && d.capex_pct_revenue is Some {
        "User override"@
    } else if d.cogs_pct_revenue is None && d.opex_pct_revenue is None && d.capex_pct_revenue is None {
        "Historical average"@
    } else {
        "Mixed (COGS: "@ + source_label(d.cogs_pct_revenue) + ", OpEx: "@ + source_label(
            d.opex_pct_revenue,
        ) + ", CapEx: "@ + source_label(d.capex_pct_revenue) + ")"@
    }
}

/// Tax: the rate on a positive EBIT, otherwise zero.
pub open spec fn tax_on(ebit: Option<Dec>, rate: Dec) -> Option<Dec> {
    match ebit {
        Some(e) => if dzero().lt_spec(e) {
            e.mul_spec(rate)
        } else {
            Some(dzero())
        },
        None => None,
    }
}

pub open spec fn ratio_opt(num: Option<Dec>, den: Dec) -> Option<Dec> {
    match num {
        Some(n) => ratio_or_zero(n, den),
        None => None,
    }
}

/// The figures of a row with the given revenue, COGS, opex, depreciation and capex.
pub open spec fn row_figures(
    revenue: Dec,
    cogs: Option<Dec>,
    opex: Option<Dec>,
    dep: Option<Dec>,
    capex: Option<Dec>,
    tax_rate: Dec,
) -> Option<RowFigures> {
    let gross_profit = osub(Some(revenue), cogs);
    let gross_margin = ratio_opt(gross_profit, revenue);
    let ebitda = osub(gross_profit, opex);
    let ebitda_margin = ratio_opt(ebitda, revenue);
    let ebit = osub(ebitda, dep);
    let tax = tax_on(ebit, tax_rate);
    let net_income = osub(ebit, tax);
    let fcf = osub(oadd(net_income, dep), capex);
    if cogs is Some && opex is Some && dep is Some && capex is Some && gross_profit is Some
        && gross_margin is Some && ebitda is Some && ebitda_margin is Some && ebit is Some
        && tax is Some && net_income is Some && fcf is Some {
        Some(
            RowFigures {
                revenue,
                cogs: cogs.unwrap(),
                gross_profit: gross_profit.unwrap(),
                gross_margin: gross_margin.unwrap(),
                operating_expenses: opex.unwrap(),
                ebitda: ebitda.unwrap(),
                ebitda_margin: ebitda_margin.unwrap(),
                depreciation: dep.unwrap(),
                ebit: ebit.unwrap(),
                tax: tax.unwrap(),
                net_income: net_income.unwrap(),
                capex: capex.unwrap(),
                free_cash_flow: fcf.unwrap(),
            },
        )
    } else {
        None
    }
}

/// The figures of a historical row.
pub open spec fn hist_figures(p: ForecastPeriod, tax_rate: Dec) -> Option<RowFigures> {
    row_figures(
        p.revenue,
        Some(p.cogs),
        Some(p.operating_expenses),
        Some(p.depreciation),
        Some(p.capex),
        tax_rate,
    )
}

/// The drivers in force: COGS, opex and capex percentages.
pub open spec fn drivers_spec(i: RollingForecastInput) -> Option<(Dec, Dec, Dec)> {
    let ps = i.historical_periods@;
    let c = driver_pct(i.drivers.cogs_pct_revenue, ps, DriverKind::Cogs);
    let o = driver_pct(i.drivers.opex_pct_revenue, ps, DriverKind::Opex);
    let x = driver_pct(i.drivers.capex_pct_revenue, ps, DriverKind::Capex);
    if c is Some && o is Some && x is Some {
        Some((c.unwrap(), o.unwrap(), x.unwrap()))
    } else {
        None
    }
}

/// Forecast depreciation after a period with depreciation `prev_dep` and revenue growing
/// to `revenue`.
pub open spec fn forecast_dep(
    i: RollingForecastInput,
    prev_dep: Dec,
    revenue: Dec,
    growth: Option<Dec>,
) -> Option<Dec> {
    match i.drivers.depreciation_pct_ppe {
        Some(dp) => odiv(
            omul(omul(Some(prev_dep), growth), Some(dp)),
            Some(dp.max_spec(Dec::lit(1, 2))),
        ),
        None => omul(Some(revenue), hist_avg(i.historical_periods@, DriverKind::Depreciation)),
    }
}

/// One forecast period from the previous revenue and depreciation.
pub open spec fn forecast_figures(
    i: RollingForecastInput,
    drv: (Dec, Dec, Dec),
    prev_rev: Dec,
    prev_dep: Dec,
) -> Option<RowFigures> {
    let growth = Dec::lit(1, 0).add_spec(i.revenue_growth_rate);
    let revenue = omul(Some(prev_rev), growth);
    match revenue {
        Some(rev) => if growth is Some {
            row_figures(
                rev,
                rev.mul_spec(drv.0),
                rev.mul_spec(drv.1),
                forecast_dep(i, prev_dep, rev, growth),
                rev.mul_spec(drv.2),
                i.drivers.tax_rate,
            )
        } else {
            None
        },
        None => None,
    }
}

/// The first `n` forecast periods.
pub open spec fn forecast_seq(i: RollingForecastInput, drv: (Dec, Dec, Dec), n: nat) -> Option<
    Seq<RowFigures>,
>
    decreases n,
{
    if n == 0 {
        Some(Seq::empty())
    } else {
        match forecast_seq(i, drv, (n - 1) as nat) {
            Some(rows) => {
                let last = i.historical_periods@.last();
                let prev_rev = if n == 1 {
                    last.revenue
                } else {
                    rows.last().revenue
                };
                let prev_dep = if n == 1 {
                    last.depreciation
                } else {
                    rows.last().depreciation
                };
                match forecast_figures(i, drv, prev_rev, prev_dep) {
                    Some(r) => Some(rows.push(r)),
                    None => None,
                }
            },
            None => None,
        }
    }
}

/// All historical rows.
pub open spec fn hist_seq(ps: Seq<ForecastPeriod>, tax_rate: Dec) -> Option<Seq<RowFigures>>
    decreases ps.len(),
{
    if ps.len() == 0 {
        Some(Seq::empty())
    } else {
        match (hist_seq(ps.drop_last(), tax_rate), hist_figures(ps.last(), tax_rate)) {
            (Some(rows), Some(r)) => Some(rows.push(r)),
            _ => None,
        }
    }
}

pub open spec fn margins(rows: Seq<RowFigures>) -> Seq<Option<Dec>> {
    rows.map_values(|r: RowFigures| Some(r.ebitda_margin))
}

pub open spec fn fcfs(rows: Seq<RowFigures>) -> Seq<Option<Dec>> {
    rows.map_values(|r: RowFigures| Some(r.free_cash_flow))
}

/// The summary figures: average EBITDA margin and cumulative free cash flow.
pub open spec fn summary_spec(rows: Seq<RowFigures>) -> Option<(Dec, Dec)> {
    let avg = odiv(sum_opt(margins(rows)), Some(Dec::lit(rows.len() as int, 0)));
    let cum = sum_opt(fcfs(rows));
    if avg is Some && cum is Some {
        Some((avg.unwrap(), cum.unwrap()))
    } else {
        None
    }
}

/// Every figure of the forecast is defined.
pub open spec fn forecast_defined(i: RollingForecastInput) -> bool {
    &&& drivers_spec(i) is Some
    &&& hist_seq(i.historical_periods@, i.drivers.tax_rate) is Some
    &&& forecast_seq(i, drivers_spec(i).unwrap(), i.forecast_periods as nat) is Some
    &&& summary_spec(forecast_seq(i, drivers_spec(i).unwrap(), i.forecast_periods as nat).unwrap())
        is Some
}

pub open spec fn forecast_label(k: int) -> Seq<char> {
    "Forecast "@ + nat_digits((k + 1) as nat)
}

// ---------------------------------------------------------------------------
// Helpers
// ---------------------------------------------------------------------------

fn str_of(s: &str) -> (r: String)
    ensures
        r@ == s@,
{
    String::from_str(s)
}

fn validate_forecast_input(input: &RollingForecastInput) -> (r: FinResult<()>)
    ensures
        r is Err <==> validation_error(*input) is Some,
        r matches Err(e) ==> Some(err_view(e)) == validation_error(*input),
{
    if input.historical_periods.len() < 4 {
        return Err(
            FinError::InsufficientData(
                str_of("At least 4 historical periods are required for a rolling forecast."),
            ),
        );
    }
    if input.forecast_periods == 0 {
        return Err(
            FinError::InvalidInput {
                field: str_of("forecast_periods"),
                reason: str_of("Must forecast at least one period."),
            },
        );
    }
    if input.drivers.tax_rate.lt(&Dec::zero()) || Dec::one().lt(&input.drivers.tax_rate) {
        return Err(
            FinError::InvalidInput {
                field: str_of("tax_rate"),
                reason: str_of("Tax rate must be between 0 and 1."),
            },
        );
    }
    Ok(())
}

fn driver_numer_exec(p: &ForecastPeriod, k: &DriverKind) -> (r: Dec)
    ensures
        r == driver_numer(*p, *k),
{
    match k {
        DriverKind::Cogs => p.cogs,
        DriverKind::Opex => p.operating_expenses,
        DriverKind::Capex => p.capex,
        DriverKind::Depreciation => p.depreciation,
    }
}

/// Average ratio of a driver to revenue over the historical periods.
fn compute_avg(periods: &Vec<ForecastPeriod>, k: &DriverKind) -> (r: FinResult<Dec>)
    ensures
        r == lift(hist_avg(periods@, *k)),
{
    if periods.len() == 0 {
        return Ok(Dec::zero());
    }
    let ghost s = periods@.map_values(
        |p: ForecastPeriod| ratio_or_zero(driver_numer(p, *k), p.revenue),
    );
    let mut acc = Dec::zero();
    let mut j: usize = 0;
    while j < periods.len()
        invariant
            j <= periods@.len(),
            s == periods@.map_values(
                |p: ForecastPeriod| ratio_or_zero(driver_numer(p, *k), p.revenue),
            ),
            sum_opt(s.take(j as int)) == Some(acc),
        decreases periods@.len() - j,
    {
        proof {
            assert(s.take(j + 1).drop_last() =~= s.take(j as int));
        }
        let p = &periods[j];
        let term = ratio_or_zero_exec(&driver_numer_exec(p, k), &p.revenue);
        let next = match term {
            Ok(t) => acc.add(&t),
            Err(e) => Err(e),
        };
        match next {
            Ok(x) => {
                acc = x;
            },
            Err(e) => {
                proof {
                    crate::dec::lemma_sum_opt_none(s, j as int);
                }
                return Err(e);
            },
        }
        j = j + 1;
    }
    proof {
        assert(s.take(periods@.len() as int) =~= s);
    }
    let n = Dec::from_u64(periods.len() as u64);
    acc.div(&n)
}

fn derive_driver(ov: Option<Dec>, periods: &Vec<ForecastPeriod>, k: &DriverKind) -> (r: FinResult<
    (Dec, bool),
>)
    ensures
        r matches Ok(v) ==> Some(v.0) == driver_pct(ov, periods@, *k) && v.1 == ov is Some,
        r is Err ==> driver_pct(ov, periods@, *k) is None && r == Err::<(Dec, bool), FinError>(
            FinError::ArithmeticOverflow,
        ),
        driver_pct(ov, periods@, *k) is None ==> r is Err,
{
    match ov {
        Some(v) => Ok((v, true)),
        None => {
            let avg = compute_avg(periods, k)?;
            Ok((avg, false))
        },
    }
}

fn label_of(user: bool) -> (r: &'static str)
    ensures
        r@ == (if user {
            "User override"@
        } else {
            "Historical average"@
        }),
{
    if user {
        "User override"
    } else {
        "Historical average"
    }
}

/// Tax on a positive EBIT.
fn tax_exec(ebit: &Dec, rate: &Dec) -> (r: FinResult<Dec>)
    ensures
        r == lift(tax_on(Some(*ebit), *rate)),
{
    if Dec::zero().lt(ebit) {
        ebit.mul(rate)
    } else {
        Ok(Dec::zero())
    }
}

/// A row from its revenue and cost lines.
fn make_row(
    name: String,
    revenue: Dec,
    cogs: Dec,
    opex: Dec,
    dep: Dec,
    capex: Dec,
    tax_rate: &Dec,
    is_forecast: bool,
) -> (r: FinResult<ForecastRow>)
    ensures
        r is Err <==> row_figures(revenue, Some(cogs), Some(opex), Some(dep), Some(capex), *tax_rate)
            is None,
        r is Err ==> r == Err::<ForecastRow, FinError>(FinError::ArithmeticOverflow),
        r matches Ok(row) ==> Some(figures(row)) == row_figures(
            revenue,
            Some(cogs),
            Some(opex),
            Some(dep),
            Some(capex),
            *tax_rate,
        ) && row.period_name == name && row.is_forecast == is_forecast,
{
    let gross_profit = revenue.sub(&cogs)?;
    let gross_margin = ratio_or_zero_exec(&gross_profit, &revenue)?;
    let ebitda = gross_profit.sub(&opex)?;
    let ebitda_margin = ratio_or_zero_exec(&ebitda, &revenue)?;
    let ebit = ebitda.sub(&dep)?;
    let tax = tax_exec(&ebit, tax_rate)?;
    let net_income = ebit.sub(&tax)?;
    let fcf = net_income.add(&dep)?.sub(&capex)?;
    Ok(
        ForecastRow {
            period_name: name,
            revenue,
            cogs,
            gross_profit,
            gross_margin,
            operating_expenses: opex,
            ebitda,
            ebitda_margin,
            depreciation: dep,
            ebit,
            tax,
            net_income,
            capex,
            free_cash_flow: fcf,
            is_forecast,
        },
    )
}

pub open spec fn row_figs(rows: Seq<ForecastRow>) -> Seq<RowFigures> {
    rows.map_values(|r: ForecastRow| figures(r))
}

proof fn lemma_hist_seq_none(ps: Seq<ForecastPeriod>, tax: Dec, k: int)
    requires
        0 <= k < ps.len(),
        hist_figures(ps[k], tax) is None,
    ensures
        hist_seq(ps, tax) is None,
    decreases ps.len(),
{
    if k < ps.len() - 1 {
        lemma_hist_seq_none(ps.drop_last(), tax, k);
    }
}

/// The historical rows.
fn build_historical(periods: &Vec<ForecastPeriod>, tax_rate: &Dec) -> (r: FinResult<
    Vec<ForecastRow>,
>)
    ensures
        r is Err <==> hist_seq(periods@, *tax_rate) is None,
        r is Err ==> r == Err::<Vec<ForecastRow>, FinError>(FinError::ArithmeticOverflow),
        r matches Ok(rows) ==> Some(row_figs(rows@)) == hist_seq(periods@, *tax_rate) && rows@.len()
            == periods@.len() && forall|k: int|
            0 <= k < rows@.len() ==> (#[trigger] rows@[k]).period_name == periods@[k].period_name
                && !rows@[k].is_forecast,
{
    let mut rows: Vec<ForecastRow> = Vec::new();
    let mut j: usize = 0;
    while j < periods.len()
        invariant
            j <= periods@.len(),
            rows@.len() == j,
            hist_seq(periods@.take(j as int), *tax_rate) == Some(row_figs(rows@)),
            forall|k: int|
                0 <= k < j ==> (#[trigger] rows@[k]).period_name == periods@[k].period_name
                    && !rows@[k].is_forecast,
        decreases periods@.len() - j,
    {
        let p = &periods[j];
        proof {
            assert(periods@.take(j + 1).drop_last() =~= periods@.take(j as int));
            assert(periods@.take(j + 1).last() == periods@[j as int]);
        }
        let row = match make_row(
            p.period_name.clone(),
            p.revenue,
            p.cogs,
            p.operating_expenses,
            p.depreciation,
            p.capex,
            tax_rate,
            false,
        ) {
            Ok(row) => row,
            Err(e) => {
                proof {
                    lemma_hist_seq_none(periods@, *tax_rate, j as int);
                }
                return Err(e);
            },
        };
        let ghost before = rows@;
        rows.push(row);
        proof {
            assert(row_figs(rows@) =~= row_figs(before).push(figures(row)));
        }
        j = j + 1;
    }
    proof {
        assert(periods@.take(periods@.len() as int) =~= periods@);
    }
    Ok(rows)
}

proof fn lemma_forecast_seq_none(i: RollingForecastInput, drv: (Dec, Dec, Dec), k: nat, n: nat)
    requires
        k <= n,
        forecast_seq(i, drv, k) is None,
    ensures
        forecast_seq(i, drv, n) is None,
    decreases n - k,
{
    if k < n {
        lemma_forecast_seq_none(i, drv, k, (n - 1) as nat);
    }
}

/// The forecast rows, each grown from the previous one.
fn build_forecast(input: &RollingForecastInput, drv: (Dec, Dec, Dec)) -> (r: FinResult<
    Vec<ForecastRow>,
>)
    requires
        input.historical_periods@.len() > 0,
    ensures
        r is Err <==> forecast_seq(*input, drv, input.forecast_periods as nat) is None,
        r is Err ==> r == Err::<Vec<ForecastRow>, FinError>(FinError::ArithmeticOverflow),
        r matches Ok(rows) ==> Some(row_figs(rows@)) == forecast_seq(
            *input,
            drv,
            input.forecast_periods as nat,
        ) && rows@.len() == input.forecast_periods && forall|k: int|
            0 <= k < rows@.len() ==> (#[trigger] rows@[k]).period_name@ == forecast_label(k)
                && rows@[k].is_forecast,
{
    let last = &input.historical_periods[input.historical_periods.len() - 1];
    let mut prev_revenue = last.revenue;
    let mut prev_depreciation = last.depreciation;
    let mut rows: Vec<ForecastRow> = Vec::new();
    let mut j: u32 = 0;
    while j < input.forecast_periods
        invariant
            j <= input.forecast_periods,
            rows@.len() == j,
            input.historical_periods@.len() > 0,
            *last == input.historical_periods@.last(),
            forecast_seq(*input, drv, j as nat) == Some(row_figs(rows@)),
            j == 0 ==> prev_revenue == last.revenue && prev_depreciation == last.depreciation,
            j > 0 ==> prev_revenue == rows@.last().revenue && prev_depreciation
                == rows@.last().depreciation,
            forall|k: int|
                0 <= k < j ==> (#[trigger] rows@[k]).period_name@ == forecast_label(k)
                    && rows@[k].is_forecast,
        decreases input.forecast_periods - j,
    {
        let ghost figs_before = row_figs(rows@);
        let res: FinResult<ForecastRow> = (|| -> (rr: FinResult<ForecastRow>)
            ensures
                rr is Err <==> forecast_figures(*input, drv, prev_revenue, prev_depreciation)
                    is None,
                rr is Err ==> rr == Err::<ForecastRow, FinError>(FinError::ArithmeticOverflow),
                rr matches Ok(row) ==> Some(figures(row)) == forecast_figures(
                    *input,
                    drv,
                    prev_revenue,
                    prev_depreciation,
                ) && row.period_name@ == forecast_label(j as int) && row.is_forecast,
            {
                let growth = Dec::one().add(&input.revenue_growth_rate)?;
                let revenue = prev_revenue.mul(&growth)?;
                let cogs = revenue.mul(&drv.0)?;
                let opex = revenue.mul(&drv.1)?;
                let dep = match input.drivers.depreciation_pct_ppe {
                    Some(dp) => {
                        let floor = dp.max(&Dec::new(1, 2));
                        prev_depreciation.mul(&growth)?.mul(&dp)?.div(&floor)?
                    },
                    None => {
                        let avg = compute_avg(&input.historical_periods, &DriverKind::Depreciation)?;
                        revenue.mul(&avg)?
                    },
                };
                let capex = revenue.mul(&drv.2)?;
                let name = String::from_str("Forecast ").concat(u32_to_string(j + 1).as_str());
                make_row(name, revenue, cogs, opex, dep, capex, &input.drivers.tax_rate, true)
            })();
        let row = match res {
            Ok(row) => row,
            Err(e) => {
                proof {
                    lemma_forecast_seq_none(*input, drv, (j + 1) as nat, input.forecast_periods as nat);
                }
                return Err(e);
            },
        };
        prev_revenue = row.revenue;
        prev_depreciation = row.depreciation;
        rows.push(row);
        proof {
            assert(row_figs(rows@) =~= figs_before.push(figures(row)));
        }
        j = j + 1;
    }
    Ok(rows)
}

fn sum_margins(rows: &Vec<ForecastRow>, fcf: bool) -> (r: FinResult<Dec>)
    ensures
        r == lift(
            sum_opt(
                if fcf {
                    fcfs(row_figs(rows@))
                } else {
                    margins(row_figs(rows@))
                },
            ),
        ),
{
    let ghost s = if fcf {
        fcfs(row_figs(rows@))
    } else {
        margins(row_figs(rows@))
    };
    let mut acc = Dec::zero();
    let mut j: usize = 0;
    while j < rows.len()
        invariant
            j <= rows@.len(),
            s == (if fcf {
                fcfs(row_figs(rows@))
            } else {
                margins(row_figs(rows@))
            }),
            sum_opt(s.take(j as int)) == Some(acc),
        decreases rows@.len() - j,
    {
        proof {
            assert(s.take(j + 1).drop_last() =~= s.take(j as int));
        }
        let term = if fcf {
            rows[j].free_cash_flow
        } else {
            rows[j].ebitda_margin
        };
        match acc.add(&term) {
            Ok(x) => {
                acc = x;
            },
            Err(e) => {
                proof {
                    crate::dec::lemma_sum_opt_none(s, j as int);
                }
                return Err(e);
            },
        }
        j = j + 1;
    }
    proof {
        assert(s.take(rows@.len() as int) =~= s);
    }
    Ok(acc)
}

// ---------------------------------------------------------------------------
// Public API
// ---------------------------------------------------------------------------

/// Build a rolling financial forecast from historical data and growth assumptions,
/// projecting revenue, margins and free cash flow.
pub fn build_rolling_forecast(input: &RollingForecastInput) -> (r: FinResult<
    ComputationOutput<RollingForecastOutput>,
>)
    ensures
        validation_error(*input) is Some ==> (r matches Err(e) && Some(err_view(e))
            == validation_error(*input)),
        validation_error(*input) is None ==> (r is Ok <==> forecast_defined(*input)),
        validation_error(*input) is None && !forecast_defined(*input) ==> r == Err::<
            ComputationOutput<RollingForecastOutput>,
            FinError,
        >(FinError::ArithmeticOverflow),
        r matches Ok(o) ==> {
            let out = o.result;
            let drv = drivers_spec(*input).unwrap();
            let fc = forecast_seq(*input, drv, input.forecast_periods as nat).unwrap();
            let sm = summary_spec(fc).unwrap();
            &&& o.methodology@ == "Rolling Financial Forecast"@
            &&& out.driver_assumptions.cogs_pct == drv.0
            &&& out.driver_assumptions.opex_pct == drv.1
            &&& out.driver_assumptions.capex_pct == drv.2
            &&& out.driver_assumptions.source@ == source_spec(input.drivers)
            &&& row_figs(out.historical@) == hist_seq(
                input.historical_periods@,
                input.drivers.tax_rate,
            ).unwrap()
            &&& out.historical@.len() == input.historical_periods@.len()
            &&& forall|k: int|
                0 <= k < out.historical@.len() ==> (#[trigger] out.historical@[k]).period_name
                    == input.historical_periods@[k].period_name && !out.historical@[k].is_forecast
            &&& row_figs(out.forecast@) == fc
            &&& out.forecast@.len() == input.forecast_periods
            &&& forall|k: int|
                0 <= k < out.forecast@.len() ==> (#[trigger] out.forecast@[k]).period_name@
                    == forecast_label(k) && out.forecast@[k].is_forecast
            &&& out.summary.forecast_revenue_cagr == input.revenue_growth_rate
            &&& out.summary.terminal_revenue == fc.last().revenue
            &&& out.summary.avg_forecast_ebitda_margin == sm.0
            &&& out.summary.cumulative_fcf == sm.1
            &&& forecast_output_consistent(*input, out.historical@, out.forecast@, out.summary.cumulative_fcf)
            &&& o.warnings@.len() == (if sm.1.lt_spec(dzero()) {
                1int
            } else {
                0
            })
            &&& sm.1.lt_spec(dzero()) ==> o.warnings@[0]@
                == "Cumulative free cash flow is negative over the forecast horizon."@
        },
{
    validate_forecast_input(input)?;
    let ghost i = *input;
    let ps = &input.historical_periods;
    let (cogs_pct, cogs_user) = derive_driver(input.drivers.cogs_pct_revenue, ps, &DriverKind::Cogs)?;
    let (opex_pct, opex_user) = derive_driver(input.drivers.opex_pct_revenue, ps, &DriverKind::Opex)?;
    let (capex_pct, capex_user) = derive_driver(
        input.drivers.capex_pct_revenue,
        ps,
        &DriverKind::Capex,
    )?;
    let source = if cogs_user && opex_user && capex_user {
        str_of("User override")
    } else if !cogs_user && !opex_user && !capex_user {
        str_of("Historical average")
    } else {
        str_of("Mixed (COGS: ").concat(label_of(cogs_user)).concat(", OpEx: ").concat(
            label_of(opex_user),
        ).concat(", CapEx: ").concat(label_of(capex_user)).concat(")")
    };
    let drv = (cogs_pct, opex_pct, capex_pct);
    proof {
        assert(drivers_spec(i) == Some(drv));
    }
    let historical = build_historical(ps, &input.drivers.tax_rate)?;
    let forecast = build_forecast(input, drv)?;
    proof {
        let fc = row_figs(forecast@);
        assert(forecast_seq(i, drivers_spec(i).unwrap(), i.forecast_periods as nat).unwrap() == fc);
        assert(fc.len() == forecast@.len());
        assert(fc.last() == figures(forecast@.last()));
    }
    let terminal_revenue = forecast[forecast.len() - 1].revenue;
    let margin_sum = sum_margins(&forecast, false)?;
    let avg_forecast_ebitda_margin = margin_sum.div(&Dec::from_u64(forecast.len() as u64))?;
    let cumulative_fcf = sum_margins(&forecast, true)?;
    let mut warnings: Vec<String> = Vec::new();
    if cumulative_fcf.lt(&Dec::zero()) {
        warnings.push(str_of("Cumulative free cash flow is negative over the forecast horizon."));
    }
    let out = RollingForecastOutput {
        historical,
        forecast,
        driver_assumptions: DriverAssumptions {
            cogs_pct,
            opex_pct,
            capex_pct,
            source,
        },
        summary: ForecastSummary {
            forecast_revenue_cagr: input.revenue_growth_rate,
            avg_forecast_ebitda_margin,
            cumulative_fcf,
            terminal_revenue,
        },
    };
    proof {
        lemma_forecast_output(i, out.historical@, out.forecast@, out.summary.cumulative_fcf);
    }
    Ok(ComputationOutput { methodology: str_of("Rolling Financial Forecast"), warnings, result: out })
}

// ===========================================================================
// Working capital analysis
// ===========================================================================

/// Input for working capital analysis across periods, oldest first.
pub struct WorkingCapitalInput {
    pub company_name: String,
    pub periods: Vec<WcPeriod>,
    pub industry_benchmarks: Option<IndustryBenchmarks>,
    /// Cost of capital for the financing savings.
    pub cost_of_capital: Dec,
}

/// One period of working capital data.
pub struct WcPeriod {
    pub period_name: String,
    pub revenue: Dec,
    pub cogs: Dec,
    pub accounts_receivable: Dec,
    pub inventory: Dec,
    pub accounts_payable: Dec,
    pub other_current_assets: Dec,
    pub other_current_liabilities: Dec,
    /// Days in the period (90 for a quarter, 365 for a year).
    pub days_in_period: u32,
}

pub struct IndustryBenchmarks {
    pub dso_median: Dec,
    pub dio_median: Dec,
    pub dpo_median: Dec,
    pub ccc_median: Dec,
}

pub struct WorkingCapitalOutput {
    pub period_metrics: Vec<WcMetrics>,
    pub trend_analysis: TrendAnalysis,
    pub optimization: WcOptimization,
    pub benchmark_comparison: Option<BenchmarkComparison>,
}

/// Metrics of one period.
pub struct WcMetrics {
    pub period_name: String,
    /// Days sales outstanding = AR / (revenue / days).
    pub dso: Dec,
    /// Days inventory outstanding = inventory / (COGS / days).
    pub dio: Dec,
    /// Days payable outstanding = AP / (COGS / days).
    pub dpo: Dec,
    /// Cash conversion cycle = DSO + DIO - DPO.
    pub ccc: Dec,
    pub net_working_capital: Dec,
    pub nwc_as_pct_revenue: Dec,
    pub current_ratio: Dec,
    pub quick_ratio: Dec,
}

/// Trend from the first to the last period.
pub struct TrendAnalysis {
    pub dso_trend: String,
    pub dio_trend: String,
    pub dpo_trend: String,
    pub ccc_trend: String,
    pub dso_change: Dec,
    pub dio_change: Dec,
    pub dpo_change: Dec,
    pub ccc_change: Dec,
}

pub struct WcOptimization {
    pub cash_freed_if_dso_reduced_5d: Dec,
    pub cash_freed_if_dio_reduced_5d: Dec,
    pub cash_cost_if_dpo_reduced_5d: Dec,
    pub total_optimization_opportunity: Dec,
    pub annual_financing_savings: Dec,
    pub recommendations: Vec<String>,
}

pub struct BenchmarkComparison {
    pub dso_vs_median: Dec,
    pub dio_vs_median: Dec,
    pub dpo_vs_median: Dec,
    pub ccc_vs_median: Dec,
    pub overall_position: String,
}

/// The figures of a period's metrics, without its label.
pub struct WcFigures {
    pub dso: Dec,
    pub dio: Dec,
    pub dpo: Dec,
    pub ccc: Dec,
    pub net_working_capital: Dec,
    pub nwc_as_pct_revenue: Dec,
    pub current_ratio: Dec,
    pub quick_ratio: Dec,
}

pub open spec fn wc_figures(m: WcMetrics) -> WcFigures {
    WcFigures {
        dso: m.dso,
        dio: m.dio,
        dpo: m.dpo,
        ccc: m.ccc,
        net_working_capital: m.net_working_capital,
        nwc_as_pct_revenue: m.nwc_as_pct_revenue,
        current_ratio: m.current_ratio,
        quick_ratio: m.quick_ratio,
    }
}

pub open spec fn wc_figs(ms: Seq<WcMetrics>) -> Seq<WcFigures> {
    ms.map_values(|m: WcMetrics| wc_figures(m))
}

// ---------------------------------------------------------------------------
// Specification
// ---------------------------------------------------------------------------

pub open spec fn quoted(name: Seq<char>) -> Seq<char> {
    "'"@ + name + "'"@
}

/// The first problem of one period, if any.
pub open spec fn period_error(p: WcPeriod) -> Option<ErrView> {
    if p.revenue.lt_spec(dzero()) {
        Some(
            invalid_input(
                "revenue"@,
                "Revenue cannot be negative in period "@ + quoted(p.period_name@) + "."@,
            ),
        )
    } else if p.days_in_period == 0 {
        Some(
            invalid_input(
                "days_in_period"@,
                "Days in period must be positive in period "@ + quoted(p.period_name@) + "."@,
            ),
        )
    } else {
        None
    }
}

/// The first problem among the periods, in order.
pub open spec fn periods_error(ps: Seq<WcPeriod>) -> Option<ErrView>
    decreases ps.len(),
{
    if ps.len() == 0 {
        None
    } else {
        match period_error(ps[0]) {
            Some(e) => Some(e),
            None => periods_error(ps.drop_first()),
        }
    }
}

pub open spec fn wc_validation_error(i: WorkingCapitalInput) -> Option<ErrView> {
    if i.periods@.len() == 0 {
        Some(insufficient_data("At least one period is required for working capital analysis."@))
    } else if i.cost_of_capital.lt_spec(dzero()) {
        Some(invalid_input("cost_of_capital"@, "Cost of capital cannot be negative."@))
    } else {
        periods_error(i.periods@)
    }
}

/// `bal / (flow / days)`, or zero when the flow is zero.
pub open spec fn days_metric(bal: Dec, flow: Dec, days: Dec) -> Option<Dec> {
    if flow.is_zero_spec() {
        Some(dzero())
    } else {
        odiv(Some(bal), flow.div_spec(days))
    }
}

pub open spec fn ratio_of_opt(num: Option<Dec>, den: Option<Dec>) -> Option<Dec> {
    match den {
        Some(d) => ratio_opt(num, d),
        None => None,
    }
}

/// The metrics of one period.
pub open spec fn period_figures(p: WcPeriod) -> Option<WcFigures> {
    let days = Dec::lit(p.days_in_period as int, 0);
    let dso = days_metric(p.accounts_receivable, p.revenue, days);
    let dio = days_metric(p.inventory, p.cogs, days);
    let dpo = days_metric(p.accounts_payable, p.cogs, days);
    let ccc = osub(oadd(dso, dio), dpo);
    let ca = oadd(p.accounts_receivable.add_spec(p.inventory), Some(p.other_current_assets));
    let cl = p.accounts_payable.add_spec(p.other_current_liabilities);
    let nwc = osub(ca, cl);
    let nwc_pct = ratio_opt(nwc, p.revenue);
    let cr = ratio_of_opt(ca, cl);
    let quick = osub(ca, Some(p.inventory));
    let qr = ratio_of_opt(quick, cl);
    if dso is Some && dio is Some && dpo is Some && ccc is Some && ca is Some && cl is Some
        && nwc is Some && nwc_pct is Some && cr is Some && quick is Some && qr is Some {
        Some(
            WcFigures {
                dso: dso.unwrap(),
                dio: dio.unwrap(),
                dpo: dpo.unwrap(),
                ccc: ccc.unwrap(),
                net_working_capital: nwc.unwrap(),
                nwc_as_pct_revenue: nwc_pct.unwrap(),
                current_ratio: cr.unwrap(),
                quick_ratio: qr.unwrap(),
            },
        )
    } else {
        None
    }
}

/// The metrics of every period.
pub open spec fn all_figures(ps: Seq<WcPeriod>) -> Option<Seq<WcFigures>>
    decreases ps.len(),
{
    if ps.len() == 0 {
        Some(Seq::empty())
    } else {
        match (all_figures(ps.drop_last()), period_figures(ps.last())) {
            (Some(fs), Some(f)) => Some(fs.push(f)),
            _ => None,
        }
    }
}

/// The warnings one period raises about zero flows with non-zero balances.
pub open spec fn period_warnings(p: WcPeriod) -> Seq<Seq<char>> {
    (if p.revenue.is_zero_spec() && !p.accounts_receivable.is_zero_spec() {
        seq![
            "Period "@ + quoted(p.period_name@)
                + ": revenue is zero but AR is non-zero; DSO set to 0."@,
        ]
    } else {
        seq![]
    }) + (if p.cogs.is_zero_spec() && !p.inventory.is_zero_spec() {
        seq![
            "Period "@ + quoted(p.period_name@)
                + ": COGS is zero but inventory is non-zero; DIO set to 0."@,
        ]
    } else {
        seq![]
    }) + (if p.cogs.is_zero_spec() && !p.accounts_payable.is_zero_spec() {
        seq![
            "Period "@ + quoted(p.period_name@)
                + ": COGS is zero but AP is non-zero; DPO set to 0."@,
        ]
    } else {
        seq![]
    })
}

pub open spec fn all_warnings(ps: Seq<WcPeriod>) -> Seq<Seq<char>>
    decreases ps.len(),
{
    if ps.len() == 0 {
        seq![]
    } else {
        all_warnings(ps.drop_last()) + period_warnings(ps.last())
    }
}

/// Trend label where a lower value is better.
pub open spec fn trend_lower_better(change: Dec, threshold: Dec) -> Seq<char> {
    if change.lt_spec(threshold.neg_spec()) {
        "Improving"@
    } else if threshold.lt_spec(change) {
        "Deteriorating"@
    } else {
        "Stable"@
    }
}

/// Trend label where a higher value is better.
pub open spec fn trend_higher_better(change: Dec, threshold: Dec) -> Seq<char> {
    if threshold.lt_spec(change) {
        "Improving"@
    } else if change.lt_spec(threshold.neg_spec()) {
        "Deteriorating"@
    } else {
        "Stable"@
    }
}

/// How a label reads a change in a figure where higher is better (DPO): a rise of more
/// than five days is "Improving", a fall of more than five days "Deteriorating", anything
/// within five days "Stable".
pub open spec fn reads_higher_better(c: Dec, label: Seq<char>) -> bool {
    let (up, down) = (Dec::lit(5, 0), Dec::lit(-5, 0));
    &&& up.lt_spec(c) ==> label == "Improving"@
    &&& c.lt_spec(down) ==> label == "Deteriorating"@
    &&& !up.lt_spec(c) && !c.lt_spec(down) ==> label == "Stable"@
}

/// How a label reads a change in a figure where lower is better (DSO, DIO, CCC): a fall
/// of more than five days is "Improving", a rise of more than five days "Deteriorating",
/// anything within five days "Stable".
pub open spec fn reads_lower_better(c: Dec, label: Seq<char>) -> bool {
    let (up, down) = (Dec::lit(5, 0), Dec::lit(-5, 0));
    &&& c.lt_spec(down) ==> label == "Improving"@
    &&& up.lt_spec(c) ==> label == "Deteriorating"@
    &&& !up.lt_spec(c) && !c.lt_spec(down) ==> label == "Stable"@
}

/// What a trend analysis reports over the periods' metrics: each change is the last
/// period's figure less the first's (zero with fewer than two periods), DPO is labelled as
/// a figure where higher is better and DSO, DIO and CCC as figures where lower is better.
pub open spec fn trend_reads_metrics(pm: Seq<WcMetrics>, t: TrendAnalysis) -> bool {
    &&& pm.len() >= 2 ==> {
        &&& Some(t.dso_change) == pm.last().dso.sub_spec(pm[0].dso)
        &&& Some(t.dio_change) == pm.last().dio.sub_spec(pm[0].dio)
        &&& Some(t.dpo_change) == pm.last().dpo.sub_spec(pm[0].dpo)
        &&& Some(t.ccc_change) == pm.last().ccc.sub_spec(pm[0].ccc)
    }
    &&& pm.len() < 2 ==> t.dso_change == dzero() && t.dio_change == dzero() && t.dpo_change
        == dzero() && t.ccc_change == dzero()
    &&& reads_higher_better(t.dpo_change, t.dpo_trend@)
    &&& reads_lower_better(t.dso_change, t.dso_trend@)
    &&& reads_lower_better(t.dio_change, t.dio_trend@)
    &&& reads_lower_better(t.ccc_change, t.ccc_trend@)
}

/// Days of a balance against a flow over the period: the balance over the daily flow
/// (flow / days), zero when there is no flow.
pub open spec fn days_of(balance: Dec, flow: Dec, days: u32) -> Option<Dec> {
    if flow.is_zero_spec() {
        Some(dzero())
    } else {
        match flow.div_spec(Dec::lit(days as int, 0)) {
            Some(daily) => balance.div_spec(daily),
            None => None,
        }
    }
}

/// A period's metrics, read off the period: DSO is receivables over daily revenue, DIO
/// inventory over daily COGS, DPO payables over daily COGS, the cash conversion cycle is
/// DSO + DIO - DPO, and net working capital is receivables, inventory and other current
/// assets less payables and other current liabilities.
pub open spec fn metrics_read_period(p: WcPeriod, m: WcMetrics) -> bool {
    &&& Some(m.dso) == days_of(p.accounts_receivable, p.revenue, p.days_in_period)
    &&& Some(m.dio) == days_of(p.inventory, p.cogs, p.days_in_period)
    &&& Some(m.dpo) == days_of(p.accounts_payable, p.cogs, p.days_in_period)
    &&& m.dso.add_spec(m.dio) matches Some(sum) && Some(m.ccc) == sum.sub_spec(m.dpo)
    &&& match (
        p.accounts_receivable.add_spec(p.inventory),
        p.accounts_payable.add_spec(p.other_current_liabilities),
    ) {
        (Some(ar_inv), Some(cl)) => match ar_inv.add_spec(p.other_current_assets) {
            Some(ca) => Some(m.net_working_capital) == ca.sub_spec(cl),
            None => false,
        },
        _ => false,
    }
}

proof fn lemma_all_figures_each(ps: Seq<WcPeriod>)
    requires
        all_figures(ps) is Some,
    ensures
        all_figures(ps).unwrap().len() == ps.len(),
        forall|k: int| 0 <= k < ps.len() ==> Some(all_figures(ps).unwrap()[k]) == period_figures(#[trigger] ps[k]),
    decreases ps.len(),
{
    if ps.len() > 0 {
        lemma_all_figures_each(ps.drop_last());
        assert forall|k: int| 0 <= k < ps.len() implies Some(all_figures(ps).unwrap()[k]) == period_figures(
            #[trigger] ps[k],
        ) by {
            if k < ps.len() - 1 {
                assert(ps.drop_last()[k] == ps[k]);
            }
        }
    }
}

/// Every period's reported metrics follow from that period (`metrics_read_period`).
pub proof fn lemma_metrics_read_periods(ps: Seq<WcPeriod>, ms: Seq<WcMetrics>)
    requires
        all_figures(ps) == Some(wc_figs(ms)),
    ensures
        ms.len() == ps.len(),
        forall|k: int| 0 <= k < ps.len() ==> metrics_read_period(#[trigger] ps[k], ms[k]),
{
    lemma_all_figures_each(ps);
    assert forall|k: int| 0 <= k < ps.len() implies metrics_read_period(#[trigger] ps[k], ms[k]) by {
        assert(wc_figs(ms)[k] == wc_figures(ms[k]));
    }
}

/// The trend labels read a change in the direction their figure calls for: for DPO a rise
/// beyond five days improves, for DSO, DIO and CCC a fall beyond five days does.
pub proof fn lemma_trend_directions(c: Dec)
    ensures
        reads_higher_better(c, trend_higher_better(c, Dec::lit(5, 0))),
        reads_lower_better(c, trend_lower_better(c, Dec::lit(5, 0))),
{
    let five = Dec::lit(5, 0);
    Dec::lemma_neg(five);
    assert(five.neg_spec().m() == Dec::lit(-5, 0).m() && five.neg_spec().s() == Dec::lit(-5, 0).s());
    assert(c.lt_spec(five.neg_spec()) == c.lt_spec(Dec::lit(-5, 0)));
    reveal_strlit("Improving");
    reveal_strlit("Deteriorating");
    reveal_strlit("Stable");
    if five.lt_spec(c) {
        assert(!c.lt_spec(Dec::lit(-5, 0))) by {
            if c.lt_spec(Dec::lit(-5, 0)) {
                Dec::lemma_lt_trans(five, c, Dec::lit(-5, 0));
            }
        }
    }
}

/// Changes in DSO, DIO, DPO and CCC from the first to the last period.
pub open spec fn trend_changes(fs: Seq<WcFigures>) -> Option<(Dec, Dec, Dec, Dec)> {
    if fs.len() < 2 {
        Some((dzero(), dzero(), dzero(), dzero()))
    } else {
        let a = fs[0];
        let b = fs.last();
        let c1 = b.dso.sub_spec(a.dso);
        let c2 = b.dio.sub_spec(a.dio);
        let c3 = b.dpo.sub_spec(a.dpo);
        let c4 = b.ccc.sub_spec(a.ccc);
        if c1 is Some && c2 is Some && c3 is Some && c4 is Some {
            Some((c1.unwrap(), c2.unwrap(), c3.unwrap(), c4.unwrap()))
        } else {
            None
        }
    }
}

/// Cash amounts of the optimization: DSO, DIO, DPO effects, total and financing savings.
pub open spec fn optimization_spec(p: WcPeriod, coc: Dec) -> Option<(Dec, Dec, Dec, Dec, Dec)> {
    let five = Dec::lit(5, 0);
    let dso = omul(p.revenue.div_spec(Dec::lit(365, 0)), Some(five));
    let dio = omul(p.cogs.div_spec(Dec::lit(365, 0)), Some(five));
    let total = oadd(dso, dio);
    let savings = omul(total, Some(coc));
    if dso is Some && dio is Some && total is Some && savings is Some {
        Some((dso.unwrap(), dio.unwrap(), dio.unwrap(), total.unwrap(), savings.unwrap()))
    } else {
        None
    }
}

pub open spec fn recommendations_spec(f: WcFigures) -> Seq<Seq<char>> {
    let r = (if Dec::lit(45, 0).lt_spec(f.dso) {
        seq![
            "DSO exceeds 45 days. Consider tightening credit terms, offering early-payment discounts, or improving collections processes."@,
        ]
    } else {
        seq![]
    }) + (if Dec::lit(60, 0).lt_spec(f.dio) {
        seq![
            "DIO exceeds 60 days. Evaluate inventory management practices, consider JIT procurement or SKU rationalization."@,
        ]
    } else {
        seq![]
    }) + (if f.dpo.lt_spec(Dec::lit(30, 0)) {
        seq![
            "DPO is below 30 days. Negotiate extended payment terms with suppliers to improve cash flow."@,
        ]
    } else {
        seq![]
    }) + (if Dec::lit(60, 0).lt_spec(f.ccc) {
        seq![
            "Cash conversion cycle exceeds 60 days. Prioritize a holistic working capital programme addressing receivables, inventory, and payables."@,
        ]
    } else {
        seq![]
    });
    if r.len() == 0 {
        seq![
            "Working capital metrics are within acceptable ranges. Continue monitoring for seasonal variations."@,
        ]
    } else {
        r
    }
}

/// Differences to the benchmark medians: DSO, DIO, DPO (median minus company) and CCC.
pub open spec fn benchmark_spec(f: WcFigures, b: IndustryBenchmarks) -> Option<(Dec, Dec, Dec, Dec)> {
    let d1 = f.dso.sub_spec(b.dso_median);
    let d2 = f.dio.sub_spec(b.dio_median);
    let d3 = b.dpo_median.sub_spec(f.dpo);
    let d4 = f.ccc.sub_spec(b.ccc_median);
    if d1 is Some && d2 is Some && d3 is Some && d4 is Some {
        Some((d1.unwrap(), d2.unwrap(), d3.unwrap(), d4.unwrap()))
    } else {
        None
    }
}

pub open spec fn cnt(c: bool) -> int {
    if c {
        1
    } else {
        0
    }
}

pub open spec fn position_spec(d: (Dec, Dec, Dec, Dec)) -> Seq<char> {
    let five = Dec::lit(5, 0);
    let m5 = Dec::lit(-5, 0);
    let worse = cnt(five.lt_spec(d.0)) + cnt(five.lt_spec(d.1)) + cnt(five.lt_spec(d.2)) + cnt(
        five.lt_spec(d.3),
    );
    let better = cnt(d.0.lt_spec(m5)) + cnt(d.1.lt_spec(m5)) + cnt(d.2.lt_spec(m5)) + cnt(
        d.3.lt_spec(m5),
    );
    if better >= 3 {
        "Better than peers"@
    } else if worse >= 3 {
        "Worse than peers"@
    } else {
        "In-line"@
    }
}

/// Every figure of the analysis is defined.
pub open spec fn wc_defined(i: WorkingCapitalInput) -> bool {
    &&& all_figures(i.periods@) is Some
    &&& trend_changes(all_figures(i.periods@).unwrap()) is Some
    &&& optimization_spec(i.periods@.last(), i.cost_of_capital) is Some
    &&& (i.industry_benchmarks matches Some(b) ==> benchmark_spec(
        all_figures(i.periods@).unwrap().last(),
        b,
    ) is Some)
}

// ---------------------------------------------------------------------------
// Implementation
// ---------------------------------------------------------------------------

proof fn lemma_periods_error_prefix(ps: Seq<WcPeriod>, j: int)
    requires
        0 <= j <= ps.len(),
        forall|k: int| 0 <= k < j ==> period_error(#[trigger] ps[k]) is None,
    ensures
        periods_error(ps) == periods_error(ps.skip(j)),
    decreases j,
{
    if j > 0 {
        assert(ps.drop_first().skip(j - 1) =~= ps.skip(j));
        assert forall|k: int| 0 <= k < j - 1 implies period_error(
            #[trigger] ps.drop_first()[k],
        ) is None by {
            assert(ps.drop_first()[k] == ps[k + 1]);
        }
        lemma_periods_error_prefix(ps.drop_first(), j - 1);
    } else {
        assert(ps.skip(0) =~= ps);
    }
}

fn quoted_exec(prefix: &str, name: &String, suffix: &str) -> (r: String)
    ensures
        r@ == prefix@ + quoted(name@) + suffix@,
{
    let s = String::from_str(prefix).concat("'").concat(name.as_str()).concat("'").concat(suffix);
    proof {
        assert(s@ =~= prefix@ + quoted(name@) + suffix@);
    }
    s
}

fn validate_wc_input(input: &WorkingCapitalInput) -> (r: FinResult<()>)
    ensures
        r is Err <==> wc_validation_error(*input) is Some,
        r matches Err(e) ==> Some(err_view(e)) == wc_validation_error(*input),
{
    if input.periods.len() == 0 {
        return Err(
            FinError::InsufficientData(
                str_of("At least one period is required for working capital analysis."),
            ),
        );
    }
    if input.cost_of_capital.lt(&Dec::zero()) {
        return Err(
            FinError::InvalidInput {
                field: str_of("cost_of_capital"),
                reason: str_of("Cost of capital cannot be negative."),
            },
        );
    }
    let ps = &input.periods;
    let mut j: usize = 0;
    while j < ps.len()
        invariant
            j <= ps@.len(),
            ps@ == input.periods@,
            input.periods@.len() > 0,
            !input.cost_of_capital.lt_spec(dzero()),
            forall|k: int| 0 <= k < j ==> period_error(#[trigger] ps@[k]) is None,
        decreases ps@.len() - j,
    {
        let p = &ps[j];
        if p.revenue.lt(&Dec::zero()) {
            proof {
                lemma_periods_error_prefix(ps@, j as int);
                assert(ps@.skip(j as int)[0] == ps@[j as int]);
                assert(periods_error(ps@.skip(j as int)) == period_error(ps@[j as int]));
            }
            return Err(
                FinError::InvalidInput {
                    field: str_of("revenue"),
                    reason: quoted_exec("Revenue cannot be negative in period ", &p.period_name, "."),
                },
            );
        }
        if p.days_in_period == 0 {
            proof {
                lemma_periods_error_prefix(ps@, j as int);
                assert(ps@.skip(j as int)[0] == ps@[j as int]);
                assert(periods_error(ps@.skip(j as int)) == period_error(ps@[j as int]));
            }
            return Err(
                FinError::InvalidInput {
                    field: str_of("days_in_period"),
                    reason: quoted_exec(
                        "Days in period must be positive in period ",
                        &p.period_name,
                        ".",
                    ),
                },
            );
        }
        j = j + 1;
    }
    proof {
        lemma_periods_error_prefix(ps@, ps@.len() as int);
        assert(ps@.skip(ps@.len() as int) =~= Seq::<WcPeriod>::empty());
    }
    Ok(())
}

fn days_metric_exec(bal: &Dec, flow: &Dec, days: &Dec) -> (r: FinResult<Dec>)
    ensures
        r == lift(days_metric(*bal, *flow, *days)),
{
    if flow.is_zero() {
        Ok(Dec::zero())
    } else {
        let per_day = flow.div(days)?;
        bal.div(&per_day)
    }
}

/// The metrics of one period; warnings about zero flows are appended to `warnings`.
fn compute_period_metrics(p: &WcPeriod, warnings: &mut Vec<String>) -> (r: FinResult<WcMetrics>)
    ensures
        r is Err <==> period_figures(*p) is None,
        r is Err ==> r == Err::<WcMetrics, FinError>(FinError::ArithmeticOverflow),
        r matches Ok(m) ==> Some(wc_figures(m)) == period_figures(*p) && m.period_name
            == p.period_name,
        final(warnings)@.map_values(|s: String| s@) == old(warnings)@.map_values(|s: String| s@)
            + period_warnings(*p),
{
    let ghost w0 = warnings@.map_values(|s: String| s@);
    if p.revenue.is_zero() && !p.accounts_receivable.is_zero() {
        warnings.push(
            quoted_exec("Period ", &p.period_name, ": revenue is zero but AR is non-zero; DSO set to 0."),
        );
    }
    if p.cogs.is_zero() && !p.inventory.is_zero() {
        warnings.push(
            quoted_exec(
                "Period ",
                &p.period_name,
                ": COGS is zero but inventory is non-zero; DIO set to 0.",
            ),
        );
    }
    if p.cogs.is_zero() && !p.accounts_payable.is_zero() {
        warnings.push(
            quoted_exec("Period ", &p.period_name, ": COGS is zero but AP is non-zero; DPO set to 0."),
        );
    }
    proof {
        assert(warnings@.map_values(|s: String| s@) =~= w0 + period_warnings(*p));
    }
    let days = Dec::from_u64(p.days_in_period as u64);
    let dso = days_metric_exec(&p.accounts_receivable, &p.revenue, &days)?;
    let dio = days_metric_exec(&p.inventory, &p.cogs, &days)?;
    let dpo = days_metric_exec(&p.accounts_payable, &p.cogs, &days)?;
    let ccc = dso.add(&dio)?.sub(&dpo)?;
    let current_assets = p.accounts_receivable.add(&p.inventory)?.add(&p.other_current_assets)?;
    let current_liabilities = p.accounts_payable.add(&p.other_current_liabilities)?;
    let net_working_capital = current_assets.sub(&current_liabilities)?;
    let nwc_as_pct_revenue = ratio_or_zero_exec(&net_working_capital, &p.revenue)?;
    let current_ratio = ratio_or_zero_exec(&current_assets, &current_liabilities)?;
    let quick_assets = current_assets.sub(&p.inventory)?;
    let quick_ratio = ratio_or_zero_exec(&quick_assets, &current_liabilities)?;
    Ok(
        WcMetrics {
            period_name: p.period_name.clone(),
            dso,
            dio,
            dpo,
            ccc,
            net_working_capital,
            nwc_as_pct_revenue,
            current_ratio,
            quick_ratio,
        },
    )
}

proof fn lemma_all_figures_none(ps: Seq<WcPeriod>, k: int)
    requires
        0 <= k < ps.len(),
        period_figures(ps[k]) is None,
    ensures
        all_figures(ps) is None,
    decreases ps.len(),
{
    if k < ps.len() - 1 {
        lemma_all_figures_none(ps.drop_last(), k);
    }
}

fn trend_lower_exec(change: &Dec, threshold: &Dec) -> (r: String)
    ensures
        r@ == trend_lower_better(*change, *threshold),
{
    if change.lt(&threshold.neg()) {
        str_of("Improving")
    } else if threshold.lt(change) {
        str_of("Deteriorating")
    } else {
        str_of("Stable")
    }
}

fn trend_higher_exec(change: &Dec, threshold: &Dec) -> (r: String)
    ensures
        r@ == trend_higher_better(*change, *threshold),
{
    if threshold.lt(change) {
        str_of("Improving")
    } else if change.lt(&threshold.neg()) {
        str_of("Deteriorating")
    } else {
        str_of("Stable")
    }
}

fn compute_trend(metrics: &Vec<WcMetrics>) -> (r: FinResult<TrendAnalysis>)
    ensures
        r is Err <==> trend_changes(wc_figs(metrics@)) is None,
        r is Err ==> r == Err::<TrendAnalysis, FinError>(FinError::ArithmeticOverflow),
        r matches Ok(t) ==> {
            let c = trend_changes(wc_figs(metrics@)).unwrap();
            let five = Dec::lit(5, 0);
            &&& t.dso_change == c.0
            &&& t.dio_change == c.1
            &&& t.dpo_change == c.2
            &&& t.ccc_change == c.3
            &&& t.dso_trend@ == trend_lower_better(c.0, five)
            &&& t.dio_trend@ == trend_lower_better(c.1, five)
            &&& t.dpo_trend@ == trend_higher_better(c.2, five)
            &&& t.ccc_trend@ == trend_lower_better(c.3, five)
        },
{
    let five = Dec::new(5, 0);
    if metrics.len() < 2 {
        let zero = Dec::zero();
        proof {
            Dec::lemma_neg(five);
            Dec::lemma_order_same_scale(zero, five);
            Dec::lemma_order_same_scale(five, zero);
            Dec::lemma_order_same_scale(zero, five.neg_spec());
        }
        return Ok(
            TrendAnalysis {
                dso_trend: str_of("Stable"),
                dio_trend: str_of("Stable"),
                dpo_trend: str_of("Stable"),
                ccc_trend: str_of("Stable"),
                dso_change: zero,
                dio_change: zero,
                dpo_change: zero,
                ccc_change: zero,
            },
        );
    }
    let first = &metrics[0];
    let last = &metrics[metrics.len() - 1];
    proof {
        assert(wc_figs(metrics@)[0] == wc_figures(metrics@[0]));
        assert(wc_figs(metrics@).last() == wc_figures(metrics@.last()));
    }
    let dso_change = last.dso.sub(&first.dso)?;
    let dio_change = last.dio.sub(&first.dio)?;
    let dpo_change = last.dpo.sub(&first.dpo)?;
    let ccc_change = last.ccc.sub(&first.ccc)?;
    Ok(
        TrendAnalysis {
            dso_trend: trend_lower_exec(&dso_change, &five),
            dio_trend: trend_lower_exec(&dio_change, &five),
            dpo_trend: trend_higher_exec(&dpo_change, &five),
            ccc_trend: trend_lower_exec(&ccc_change, &five),
            dso_change,
            dio_change,
            dpo_change,
            ccc_change,
        },
    )
}

fn push_if(v: &mut Vec<String>, c: bool, s: &str)
    ensures
        final(v)@.map_values(|x: String| x@) == old(v)@.map_values(|x: String| x@) + (if c {
            seq![s@]
        } else {
            seq![]
        }),
{
    let ghost v0 = v@.map_values(|x: String| x@);
    if c {
        v.push(str_of(s));
    }
    proof {
        assert(v@.map_values(|x: String| x@) =~= v0 + (if c {
            seq![s@]
        } else {
            seq![]
        }));
    }
}

fn compute_optimization(period: &WcPeriod, metrics: &WcMetrics, coc: &Dec) -> (r: FinResult<
    WcOptimization,
>)
    ensures
        r is Err <==> optimization_spec(*period, *coc) is None,
        r is Err ==> r == Err::<WcOptimization, FinError>(FinError::ArithmeticOverflow),
        r matches Ok(o) ==> {
            let c = optimization_spec(*period, *coc).unwrap();
            &&& o.cash_freed_if_dso_reduced_5d == c.0
            &&& o.cash_freed_if_dio_reduced_5d == c.1
            &&& o.cash_cost_if_dpo_reduced_5d == c.2
            &&& o.total_optimization_opportunity == c.3
            &&& o.annual_financing_savings == c.4
            &&& o.recommendations@.map_values(|x: String| x@) == recommendations_spec(
                wc_figures(*metrics),
            )
        },
{
    let days_365 = Dec::new(365, 0);
    let five = Dec::new(5, 0);
    let daily_revenue = period.revenue.div(&days_365)?;
    let cash_freed_dso = daily_revenue.mul(&five)?;
    let daily_cogs = period.cogs.div(&days_365)?;
    let cash_freed_dio = daily_cogs.mul(&five)?;
    let cash_cost_dpo = cash_freed_dio;
    let total = cash_freed_dso.add(&cash_freed_dio)?;
    let savings = total.mul(coc)?;
    let mut recs: Vec<String> = Vec::new();
    proof {
        assert(recs@.map_values(|x: String| x@) =~= Seq::<Seq<char>>::empty());
    }
    push_if(
        &mut recs,
        Dec::new(45, 0).lt(&metrics.dso),
        "DSO exceeds 45 days. Consider tightening credit terms, offering early-payment discounts, or improving collections processes.",
    );
    push_if(
        &mut recs,
        Dec::new(60, 0).lt(&metrics.dio),
        "DIO exceeds 60 days. Evaluate inventory management practices, consider JIT procurement or SKU rationalization.",
    );
    push_if(
        &mut recs,
        metrics.dpo.lt(&Dec::new(30, 0)),
        "DPO is below 30 days. Negotiate extended payment terms with suppliers to improve cash flow.",
    );
    push_if(
        &mut recs,
        Dec::new(60, 0).lt(&metrics.ccc),
        "Cash conversion cycle exceeds 60 days. Prioritize a holistic working capital programme addressing receivables, inventory, and payables.",
    );
    if recs.len() == 0 {
        push_if(
            &mut recs,
            true,
            "Working capital metrics are within acceptable ranges. Continue monitoring for seasonal variations.",
        );
    }
    Ok(
        WcOptimization {
            cash_freed_if_dso_reduced_5d: cash_freed_dso,
            cash_freed_if_dio_reduced_5d: cash_freed_dio,
            cash_cost_if_dpo_reduced_5d: cash_cost_dpo,
            total_optimization_opportunity: total,
            annual_financing_savings: savings,
            recommendations: recs,
        },
    )
}

fn compute_benchmark(metrics: &WcMetrics, bench: &IndustryBenchmarks) -> (r: FinResult<
    BenchmarkComparison,
>)
    ensures
        r is Err <==> benchmark_spec(wc_figures(*metrics), *bench) is None,
        r is Err ==> r == Err::<BenchmarkComparison, FinError>(FinError::ArithmeticOverflow),
        r matches Ok(b) ==> {
            let d = benchmark_spec(wc_figures(*metrics), *bench).unwrap();
            &&& b.dso_vs_median == d.0
            &&& b.dio_vs_median == d.1
            &&& b.dpo_vs_median == d.2
            &&& b.ccc_vs_median == d.3
            &&& b.overall_position@ == position_spec(d)
        },
{
    let dso_vs = metrics.dso.sub(&bench.dso_median)?;
    let dio_vs = metrics.dio.sub(&bench.dio_median)?;
    let dpo_vs = bench.dpo_median.sub(&metrics.dpo)?;
    let ccc_vs = metrics.ccc.sub(&bench.ccc_median)?;
    let five = Dec::new(5, 0);
    let m5 = Dec::new(-5, 0);
    let worse: u32 = (if five.lt(&dso_vs) {
        1u32
    } else {
        0
    }) + (if five.lt(&dio_vs) {
        1u32
    } else {
        0
    }) + (if five.lt(&dpo_vs) {
        1u32
    } else {
        0
    }) + (if five.lt(&ccc_vs) {
        1u32
    } else {
        0
    });
    let better: u32 = (if dso_vs.lt(&m5) {
        1u32
    } else {
        0
    }) + (if dio_vs.lt(&m5) {
        1u32
    } else {
        0
    }) + (if dpo_vs.lt(&m5) {
        1u32
    } else {
        0
    }) + (if ccc_vs.lt(&m5) {
        1u32
    } else {
        0
    });
    let overall_position = if better >= 3 {
        str_of("Better than peers")
    } else if worse >= 3 {
        str_of("Worse than peers")
    } else {
        str_of("In-line")
    };
    Ok(
        BenchmarkComparison {
            dso_vs_median: dso_vs,
            dio_vs_median: dio_vs,
            dpo_vs_median: dpo_vs,
            ccc_vs_median: ccc_vs,
            overall_position,
        },
    )
}

/// Analyse working capital efficiency across periods: DSO/DIO/DPO/CCC per period, the
/// trend from the first to the last period, optimisation opportunities of the last
/// period and an optional comparison with industry medians.
pub fn analyze_working_capital(input: &WorkingCapitalInput) -> (r: FinResult<
    ComputationOutput<WorkingCapitalOutput>,
>)
    ensures
        wc_validation_error(*input) is Some ==> (r matches Err(e) && Some(err_view(e))
            == wc_validation_error(*input)),
        wc_validation_error(*input) is None ==> (r is Ok <==> wc_defined(*input)),
        wc_validation_error(*input) is None && !wc_defined(*input) ==> r == Err::<
            ComputationOutput<WorkingCapitalOutput>,
            FinError,
        >(FinError::ArithmeticOverflow),
        r matches Ok(o) ==> {
            let out = o.result;
            let fs = all_figures(input.periods@).unwrap();
            let c = trend_changes(fs).unwrap();
            let opt = optimization_spec(input.periods@.last(), input.cost_of_capital).unwrap();
            let five = Dec::lit(5, 0);
            &&& o.methodology@ == "Working Capital Analysis (DSO/DIO/DPO/CCC)"@
            &&& o.warnings@.map_values(|s: String| s@) == all_warnings(input.periods@)
            &&& wc_figs(out.period_metrics@) == fs
            &&& out.period_metrics@.len() == input.periods@.len()
            &&& forall|k: int|
                0 <= k < out.period_metrics@.len() ==> (#[trigger] out.period_metrics@[k]).period_name
                    == input.periods@[k].period_name
            &&& out.trend_analysis.dso_change == c.0
            &&& out.trend_analysis.dio_change == c.1
            &&& out.trend_analysis.dpo_change == c.2
            &&& out.trend_analysis.ccc_change == c.3
            &&& out.trend_analysis.dso_trend@ == trend_lower_better(c.0, five)
            &&& out.trend_analysis.dio_trend@ == trend_lower_better(c.1, five)
            &&& out.trend_analysis.dpo_trend@ == trend_higher_better(c.2, five)
            &&& out.trend_analysis.ccc_trend@ == trend_lower_better(c.3, five)
            &&& trend_reads_metrics(out.period_metrics@, out.trend_analysis)
            &&& forall|k: int|
                0 <= k < input.periods@.len() ==> metrics_read_period(
                    #[trigger] input.periods@[k],
                    out.period_metrics@[k],
                )
            &&& out.optimization.cash_freed_if_dso_reduced_5d == opt.0
            &&& out.optimization.cash_freed_if_dio_reduced_5d == opt.1
            &&& out.optimization.cash_cost_if_dpo_reduced_5d == opt.2
            &&& out.optimization.total_optimization_opportunity == opt.3
            &&& out.optimization.annual_financing_savings == opt.4
            &&& out.optimization.recommendations@.map_values(|x: String| x@)
                == recommendations_spec(fs.last())
            &&& (out.benchmark_comparison is Some <==> input.industry_benchmarks is Some)
            &&& (out.benchmark_comparison matches Some(b) ==> {
                let d = benchmark_spec(fs.last(), input.industry_benchmarks.unwrap()).unwrap();
                &&& b.dso_vs_median == d.0
                &&& b.dio_vs_median == d.1
                &&& b.dpo_vs_median == d.2
                &&& b.ccc_vs_median == d.3
                &&& b.overall_position@ == position_spec(d)
            })
        },
{
    validate_wc_input(input)?;
    let ps = &input.periods;
    let mut warnings: Vec<String> = Vec::new();
    let mut metrics: Vec<WcMetrics> = Vec::new();
    let mut j: usize = 0;
    proof {
        assert(warnings@.map_values(|s: String| s@) =~= all_warnings(ps@.take(0)));
    }
    while j < ps.len()
        invariant
            j <= ps@.len(),
            ps@ == input.periods@,
            wc_validation_error(*input) is None,
            metrics@.len() == j,
            all_figures(ps@.take(j as int)) == Some(wc_figs(metrics@)),
            warnings@.map_values(|s: String| s@) == all_warnings(ps@.take(j as int)),
            forall|k: int|
                0 <= k < j ==> (#[trigger] metrics@[k]).period_name == ps@[k].period_name,
        decreases ps@.len() - j,
    {
        proof {
            assert(ps@.take(j + 1).drop_last() =~= ps@.take(j as int));
            assert(ps@.take(j + 1).last() == ps@[j as int]);
        }
        let m = match compute_period_metrics(&ps[j], &mut warnings) {
            Ok(m) => m,
            Err(e) => {
                proof {
                    lemma_all_figures_none(ps@, j as int);
                }
                return Err(e);
            },
        };
        let ghost before = wc_figs(metrics@);
        metrics.push(m);
        proof {
            assert(wc_figs(metrics@) =~= before.push(wc_figures(m)));
        }
        j = j + 1;
    }
    proof {
        assert(ps@.take(ps@.len() as int) =~= ps@);
    }
    let trend_analysis = compute_trend(&metrics)?;
    let last_period = &ps[ps.len() - 1];
    let last_metrics = &metrics[metrics.len() - 1];
    proof {
        assert(wc_figs(metrics@).last() == wc_figures(*last_metrics));
    }
    let optimization = compute_optimization(last_period, last_metrics, &input.cost_of_capital)?;
    let benchmark_comparison = match &input.industry_benchmarks {
        Some(b) => Some(compute_benchmark(last_metrics, b)?),
        None => None,
    };
    proof {
        lemma_trend_directions(trend_analysis.dso_change);
        lemma_trend_directions(trend_analysis.dio_change);
        lemma_trend_directions(trend_analysis.dpo_change);
        lemma_trend_directions(trend_analysis.ccc_change);
        lemma_metrics_read_periods(input.periods@, metrics@);
        if metrics@.len() >= 2 {
            assert(wc_figs(metrics@)[0] == wc_figures(metrics@[0]));
            assert(wc_figs(metrics@).last() == wc_figures(metrics@.last()));
        }
    }
    let out = WorkingCapitalOutput {
        period_metrics: metrics,
        trend_analysis,
        optimization,
        benchmark_comparison,
    };
    Ok(
        ComputationOutput {
            methodology: str_of("Working Capital Analysis (DSO/DIO/DPO/CCC)"),
            warnings,
            result: out,
        },
    )
}

/// A row's figures hang together: gross profit = revenue - COGS, EBITDA = gross profit -
/// opex, EBIT = EBITDA - depreciation, tax = EBIT * rate on a positive EBIT (else zero), net
/// income = EBIT - tax, free cash flow = net income + depreciation - capex.
pub open spec fn row_consistent(r: RowFigures, rate: Dec) -> bool {
    &&& Some(r.gross_profit) == r.revenue.sub_spec(r.cogs)
    &&& Some(r.ebitda) == r.gross_profit.sub_spec(r.operating_expenses)
    &&& Some(r.ebit) == r.ebitda.sub_spec(r.depreciation)
    &&& Some(r.tax) == (if dzero().lt_spec(r.ebit) {
        r.ebit.mul_spec(rate)
    } else {
        Some(dzero())
    })
    &&& Some(r.net_income) == r.ebit.sub_spec(r.tax)
    &&& Some(r.free_cash_flow) == osub(r.net_income.add_spec(r.depreciation), Some(r.capex))
}

proof fn lemma_hist_rows(ps: Seq<ForecastPeriod>, rate: Dec)
    requires
        hist_seq(ps, rate) is Some,
    ensures
        ({
            let rows = hist_seq(ps, rate)->Some_0;
            &&& rows.len() == ps.len()
            &&& forall|k: int| 0 <= k < rows.len() ==> #[trigger] row_consistent(rows[k], rate)
                && rows[k].revenue == ps[k].revenue
        }),
    decreases ps.len(),
{
    if ps.len() > 0 {
        lemma_hist_rows(ps.drop_last(), rate);
        let rows = hist_seq(ps, rate)->Some_0;
        let prev = hist_seq(ps.drop_last(), rate)->Some_0;
        assert forall|k: int| 0 <= k < rows.len() implies #[trigger] row_consistent(rows[k], rate)
            && rows[k].revenue == ps[k].revenue by {
            if k < prev.len() {
                assert(rows[k] == prev[k]);
                assert(row_consistent(prev[k], rate));
            }
        }
    }
}

proof fn lemma_forecast_rows(i: RollingForecastInput, drv: (Dec, Dec, Dec), n: nat)
    requires
        forecast_seq(i, drv, n) is Some,
    ensures
        ({
            let rows = forecast_seq(i, drv, n)->Some_0;
            &&& rows.len() == n
            &&& forall|k: int|
                0 <= k < rows.len() ==> #[trigger] row_consistent(rows[k], i.drivers.tax_rate)
                    && Some(rows[k].revenue) == omul(
                    Some(
                        if k == 0 {
                            i.historical_periods@.last().revenue
                        } else {
                            rows[k - 1].revenue
                        },
                    ),
                    Dec::lit(1, 0).add_spec(i.revenue_growth_rate),
                )
        }),
    decreases n,
{
    if n > 0 {
        lemma_forecast_rows(i, drv, (n - 1) as nat);
        let rows = forecast_seq(i, drv, n)->Some_0;
        let prev = forecast_seq(i, drv, (n - 1) as nat)->Some_0;
        assert forall|k: int| 0 <= k < rows.len() implies #[trigger] row_consistent(rows[k], i.drivers.tax_rate)
            && Some(rows[k].revenue) == omul(
            Some(
                if k == 0 {
                    i.historical_periods@.last().revenue
                } else {
                    rows[k - 1].revenue
                },
            ),
            Dec::lit(1, 0).add_spec(i.revenue_growth_rate),
        ) by {
            if k < prev.len() {
                assert(rows[k] == prev[k]);
                assert(row_consistent(prev[k], i.drivers.tax_rate));
                if k > 0 {
                    assert(rows[k - 1] == prev[k - 1]);
                }
            } else {
                if k > 0 {
                    assert(rows[k - 1] == prev[k - 1]);
                }
            }
        }
    }
}

/// The rows and summary of a rolling forecast as reported: every row hangs together
/// (`row_consistent`), each forecast revenue is the one before it (the last historical
/// revenue for the first) times 1 + growth, and the cumulative free cash flow is the sum
/// of the forecast rows' free cash flow.
pub open spec fn forecast_output_consistent(i: RollingForecastInput, hist: Seq<ForecastRow>, fcst: Seq<ForecastRow>, cum: Dec) -> bool {
    &&& Some(cum) == sum_opt(fcfs(row_figs(fcst)))
    &&& forall|k: int| 0 <= k < hist.len() ==> #[trigger] row_consistent(row_figs(hist)[k], i.drivers.tax_rate)
    &&& forall|k: int|
        0 <= k < fcst.len() ==> #[trigger] row_consistent(row_figs(fcst)[k], i.drivers.tax_rate)
            && Some(fcst[k].revenue) == omul(
            Some(
                if k == 0 {
                    i.historical_periods@.last().revenue
                } else {
                    fcst[k - 1].revenue
                },
            ),
            Dec::lit(1, 0).add_spec(i.revenue_growth_rate),
        )
}

proof fn lemma_forecast_output(i: RollingForecastInput, hist: Seq<ForecastRow>, fcst: Seq<ForecastRow>, cum: Dec)
    requires
        validation_error(i) is None,
        forecast_defined(i),
        row_figs(hist) == hist_seq(i.historical_periods@, i.drivers.tax_rate).unwrap(),
        row_figs(fcst) == forecast_seq(i, drivers_spec(i).unwrap(), i.forecast_periods as nat).unwrap(),
        summary_spec(row_figs(fcst)) matches Some(sm) && cum == sm.1,
    ensures
        forecast_output_consistent(i, hist, fcst, cum),
{
    lemma_forecast_consistency(i);
    let hs = hist_seq(i.historical_periods@, i.drivers.tax_rate)->Some_0;
    let fc = forecast_seq(i, drivers_spec(i)->Some_0, i.forecast_periods as nat)->Some_0;
    let g = Dec::lit(1, 0).add_spec(i.revenue_growth_rate);
    assert(row_figs(hist) == hs);
    assert(row_figs(fcst) == fc);
    assert(fcst.len() == fc.len());
    assert(Some(cum) == sum_opt(fcfs(row_figs(fcst))));
    assert forall|k: int| 0 <= k < hist.len() implies #[trigger] row_consistent(row_figs(hist)[k], i.drivers.tax_rate) by {
        assert(row_figs(hist)[k] == hs[k]);
        assert(row_consistent(hs[k], i.drivers.tax_rate));
    }
    assert forall|k: int|
        0 <= k < fcst.len() implies #[trigger] row_consistent(row_figs(fcst)[k], i.drivers.tax_rate)
            && Some(fcst[k].revenue) == omul(
            Some(
                if k == 0 {
                    i.historical_periods@.last().revenue
                } else {
                    fcst[k - 1].revenue
                },
            ),
            g,
        ) by {
        assert(row_figs(fcst)[k] == fc[k]);
        assert(row_consistent(fc[k], i.drivers.tax_rate));
        assert(fc[k].revenue == fcst[k].revenue);
        if k > 0 {
            assert(row_figs(fcst)[k - 1] == fc[k - 1]);
            assert(fc[k - 1].revenue == fcst[k - 1].revenue);
        }
    }
}

/// Every row of a rolling forecast, historical or forecast, hangs together
/// (`row_consistent`); the historical rows keep their revenue, and each forecast revenue
/// is the one before it (the last historical revenue for the first) times 1 + growth.
pub proof fn lemma_forecast_consistency(i: RollingForecastInput)
    requires
        validation_error(i) is None,
        forecast_defined(i),
    ensures
        ({
            let hs = hist_seq(i.historical_periods@, i.drivers.tax_rate)->Some_0;
            let fc = forecast_seq(i, drivers_spec(i)->Some_0, i.forecast_periods as nat)->Some_0;
            &&& hs.len() == i.historical_periods@.len()
            &&& forall|k: int| 0 <= k < hs.len() ==> #[trigger] row_consistent(hs[k], i.drivers.tax_rate)
                && hs[k].revenue == i.historical_periods@[k].revenue
            &&& fc.len() == i.forecast_periods
            &&& forall|k: int|
                0 <= k < fc.len() ==> #[trigger] row_consistent(fc[k], i.drivers.tax_rate)
                    && Some(fc[k].revenue) == omul(
                    Some(
                        if k == 0 {
                            i.historical_periods@.last().revenue
                        } else {
                            fc[k - 1].revenue
                        },
                    ),
                    Dec::lit(1, 0).add_spec(i.revenue_growth_rate),
                )
        }),
{
    lemma_hist_rows(i.historical_periods@, i.drivers.tax_rate);
    lemma_forecast_rows(i, drivers_spec(i)->Some_0, i.forecast_periods as nat);
}

} // verus!
