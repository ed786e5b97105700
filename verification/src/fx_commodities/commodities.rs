//! Commodity forwards under the discrete cost-of-carry model, and analysis of a futures
//! term structure: basis, implied convenience yields, calendar spreads and roll yield.
use vstd::prelude::*;

use crate::dec::{
    dzero, group_dec, lemma_sum_opt_none, lift, nat_digits, odiv, osub, sum_opt, u32_to_string,
    usize_to_string, Dec,
};
use crate::error::{
    err_view, insufficient_data, invalid_input, overflow, ErrView, FinError, FinResult,
};
use crate::dec::{aligned_fits, lemma_exact_diff_sign};
use crate::dec::omul;
use crate::error::{financial_impossibility, ov, res_view};
use crate::fx_commodities::decimal_math::{exp_decimal, exp_spec, ln_decimal, ln_spec};
use crate::types::{all_some, unwrap_all, ComputationOutput};

verus! {

broadcast use group_dec;

/// Type of commodity.
#[derive(Debug, Clone, Copy, PartialEq, Eq, Structural)]
pub enum CommodityType {
    /// Oil, natural gas, etc.
    Energy,
    /// Copper, aluminium, etc.
    Metals,
    /// Corn, wheat, soybeans, etc.
    Agriculture,
    /// Gold, silver, platinum, palladium.
    Precious,
}

/// Input for pricing a commodity forward.
pub struct CommodityForwardInput {
    pub spot_price: Dec,
    /// Annualised risk-free rate.
    pub risk_free_rate: Dec,
    /// Annual storage cost as a fraction of spot.
    pub storage_cost_rate: Dec,
    /// Annual convenience yield.
    pub convenience_yield: Dec,
    /// Time to expiry in years.
    pub time_to_expiry: Dec,
    pub commodity_type: CommodityType,
}

pub struct CommodityForwardOutput {
    /// S * (1 + r + c - y)^T
    pub forward_price: Dec,
    /// r + c - y
    pub cost_of_carry: Dec,
    /// F - S
    pub basis: Dec,
    /// (F - S) / S
    pub basis_pct: Dec,
    /// "Contango", "Backwardation" or "Flat".
    pub contango_backwardation: String,
    /// Implied convenience yield (none at inception).
    pub implied_convenience_yield: Option<Dec>,
    /// -(cost of carry)
    pub roll_yield: Dec,
}

/// A single futures contract in the term structure.
pub struct FuturesContract {
    /// Months until expiry.
    pub expiry_months: u32,
    /// Observed futures price.
    pub price: Dec,
    /// Open interest, where known.
    pub open_interest: Option<u64>,
}

/// Input for commodity term structure analysis.
pub struct CommodityCurveInput {
    /// Current spot price.
    pub spot_price: Dec,
    /// Futures term structure, sorted by expiry.
    pub futures_prices: Vec<FuturesContract>,
    /// Annualised risk-free rate.
    pub risk_free_rate: Dec,
    /// Annual storage cost as a fraction of spot.
    pub storage_cost_rate: Dec,
}

/// A single analysed point on the term structure.
pub struct TermStructurePoint {
    pub expiry_months: u32,
    pub futures_price: Dec,
    /// futures price - spot
    pub basis: Dec,
    /// ((F - S) / S) / T
    pub annualized_basis_pct: Dec,
    /// r + c - ln(F / S) / T
    pub implied_convenience_yield: Dec,
}

/// A calendar spread between two consecutive contracts.
pub struct CalendarSpread {
    pub near_month: u32,
    pub far_month: u32,
    /// far price - near price
    pub spread: Dec,
    pub annualized_spread_pct: Dec,
}

pub struct CommodityCurveOutput {
    pub term_structure: Vec<TermStructurePoint>,
    /// "Contango", "Backwardation", "Mixed" or "Flat".
    pub curve_shape: String,
    pub implied_convenience_yields: Vec<Dec>,
    pub calendar_spreads: Vec<CalendarSpread>,
    /// Average annualised roll yield over consecutive contracts.
    pub avg_roll_yield: Dec,
}

// ---------------------------------------------------------------------------
// Specification
// ---------------------------------------------------------------------------

pub open spec fn twelve() -> Dec {
    Dec::lit(12, 0)
}

/// Basis, annualised basis and implied convenience yield of one contract.
pub struct PointFigures {
    pub basis: Dec,
    pub annualized_basis_pct: Dec,
    pub implied_convenience_yield: Dec,
}

pub open spec fn point_figures(c: FuturesContract, s: Dec, r: Dec, cst: Dec) -> Option<PointFigures> {
    let t = Dec::lit(c.expiry_months as int, 0).div_spec(twelve());
    let basis = c.price.sub_spec(s);
    let ratio = c.price.div_spec(s);
    if t is Some && basis is Some && ratio is Some {
        let ty = t.unwrap();
        let abp = if ty.gt_spec(dzero()) {
            odiv(basis.unwrap().div_spec(s), t)
        } else {
            Some(dzero())
        };
        let icy = if ty.gt_spec(dzero()) {
            osub(r.add_spec(cst), odiv(ln_spec(ratio.unwrap()), t))
        } else {
            Some(dzero())
        };
        if abp is Some && icy is Some {
            Some(
                PointFigures {
                    basis: basis.unwrap(),
                    annualized_basis_pct: abp.unwrap(),
                    implied_convenience_yield: icy.unwrap(),
                },
            )
        } else {
            None
        }
    } else {
        None
    }
}

/// Where the price and spot, written at the larger of their scales, fit together with
/// their difference (so the basis is exact), the basis is positive exactly when the price
/// is above spot and negative exactly when it is below.
pub open spec fn basis_follows_price(c: FuturesContract, s: Dec, basis: Dec) -> bool {
    aligned_fits(c.price.m(), c.price.s(), s.m(), s.s(), true) ==> {
        &&& basis.gt_spec(dzero()) <==> s.lt_spec(c.price)
        &&& basis.lt_spec(dzero()) <==> c.price.lt_spec(s)
    }
}

/// Each point's basis against its contract's price (`basis_follows_price`).
pub open spec fn bases_follow_prices(i: CommodityCurveInput) -> bool {
    forall|k: int|
        0 <= k < i.futures_prices@.len() ==> basis_follows_price(
            #[trigger] i.futures_prices@[k],
            i.spot_price,
            point_seq(i)[k].basis,
        )
}

/// The error a contract raises, if any.
pub open spec fn point_error(c: FuturesContract, s: Dec, r: Dec, cst: Dec) -> Option<ErrView> {
    if c.expiry_months == 0 {
        Some(invalid_input("expiry_months"@, "Expiry months must be positive"@))
    } else if c.price.le_spec(dzero()) {
        Some(invalid_input("price"@, "Futures price must be positive"@))
    } else if point_figures(c, s, r, cst) is None {
        Some(overflow())
    } else {
        None
    }
}

/// The error of the first contract that raises one.
pub open spec fn points_error(cs: Seq<FuturesContract>, s: Dec, r: Dec, cst: Dec) -> Option<ErrView>
    decreases cs.len(),
{
    if cs.len() == 0 {
        None
    } else {
        match points_error(cs.drop_last(), s, r, cst) {
            Some(e) => Some(e),
            None => point_error(cs.last(), s, r, cst),
        }
    }
}

pub open spec fn point_seq(i: CommodityCurveInput) -> Seq<PointFigures> {
    i.futures_prices@.map_values(
        |c: FuturesContract|
            point_figures(c, i.spot_price, i.risk_free_rate, i.storage_cost_rate).unwrap(),
    )
}

/// Months between two expiries, zero when the far one is not later.
pub open spec fn delta_months(near: u32, far: u32) -> nat {
    if far >= near {
        (far - near) as nat
    } else {
        0
    }
}

/// Spread, annualised spread and annualised roll yield between two consecutive contracts.
pub open spec fn pair_figures(near: FuturesContract, far: FuturesContract) -> Option<(Dec, Dec, Dec)> {
    let spread = far.price.sub_spec(near.price);
    let dy = Dec::lit(delta_months(near.expiry_months, far.expiry_months) as int, 0).div_spec(
        twelve(),
    );
    if spread is Some && dy is Some {
        let d = dy.unwrap();
        let live = d.gt_spec(dzero()) && near.price.gt_spec(dzero());
        let asp = if live {
            odiv(spread.unwrap().div_spec(near.price), dy)
        } else {
            Some(dzero())
        };
        let roll = if live {
            odiv(odiv(near.price.sub_spec(far.price), Some(near.price)), dy)
        } else {
            Some(dzero())
        };
        if asp is Some && roll is Some {
            Some((spread.unwrap(), asp.unwrap(), roll.unwrap()))
        } else {
            None
        }
    } else {
        None
    }
}

/// The figures of each pair of consecutive contracts.
pub open spec fn pair_seq(cs: Seq<FuturesContract>) -> Seq<Option<(Dec, Dec, Dec)>> {
    Seq::new((if cs.len() > 0 { cs.len() - 1 } else { 0 }) as nat, |j: int| pair_figures(cs[j], cs[j + 1]))
}

pub open spec fn roll_seq(ps: Seq<Option<(Dec, Dec, Dec)>>) -> Seq<Option<Dec>> {
    ps.map_values(|p: Option<(Dec, Dec, Dec)>| Some(p.unwrap().2))
}

/// The average roll yield, zero without a pair.
pub open spec fn avg_roll(ps: Seq<Option<(Dec, Dec, Dec)>>) -> Option<Dec> {
    if ps.len() == 0 {
        Some(dzero())
    } else {
        odiv(sum_opt(roll_seq(ps)), Some(Dec::lit(ps.len() as int, 0)))
    }
}

pub open spec fn spreads_defined(cs: Seq<FuturesContract>) -> bool {
    all_some(pair_seq(cs)) && avg_roll(pair_seq(cs)) is Some
}

/// The error the analysis raises, if any, in the order the checks run.
pub open spec fn curve_error(i: CommodityCurveInput) -> Option<ErrView> {
    if i.spot_price.le_spec(dzero()) {
        Some(invalid_input("spot_price"@, "Spot price must be positive"@))
    } else if i.futures_prices@.len() == 0 {
        Some(insufficient_data("At least one futures contract is required"@))
    } else if i.storage_cost_rate.lt_spec(dzero()) {
        Some(invalid_input("storage_cost_rate"@, "Storage cost rate must be non-negative"@))
    } else {
        match points_error(i.futures_prices@, i.spot_price, i.risk_free_rate, i.storage_cost_rate) {
            Some(e) => Some(e),
            None => if spreads_defined(i.futures_prices@) {
                None
            } else {
                Some(overflow())
            },
        }
    }
}

/// Number of points in contango (positive basis).
pub open spec fn contango_count(ps: Seq<PointFigures>) -> nat
    decreases ps.len(),
{
    if ps.len() == 0 {
        0
    } else {
        contango_count(ps.drop_last()) + if ps.last().basis.gt_spec(dzero()) {
            1nat
        } else {
            0nat
        }
    }
}

/// Number of points in backwardation (negative basis).
pub open spec fn backwardation_count(ps: Seq<PointFigures>) -> nat
    decreases ps.len(),
{
    if ps.len() == 0 {
        0
    } else {
        backwardation_count(ps.drop_last()) + if ps.last().basis.lt_spec(dzero()) {
            1nat
        } else {
            0nat
        }
    }
}

pub open spec fn shape_text(contango: nat, backwardation: nat) -> Seq<char> {
    if contango > 0 && backwardation > 0 {
        "Mixed"@
    } else if contango > 0 {
        "Contango"@
    } else if backwardation > 0 {
        "Backwardation"@
    } else {
        "Flat"@
    }
}

pub open spec fn cy_message(k: nat, expiry: u32, cy: Dec, r: Dec) -> Seq<char> {
    "Contract "@ + nat_digits(k + 1) + " ("@ + nat_digits(expiry as nat) + "m): implied convenience yield "@
        + cy.display_prec_spec(4) + " exceeds risk-free rate "@ + r.display_prec_spec(4)
}

/// The warnings on implied convenience yields above the risk-free rate, for the first `n`
/// contracts.
pub open spec fn cy_warnings(cs: Seq<FuturesContract>, ps: Seq<PointFigures>, r: Dec, n: nat) -> Seq<Seq<char>>
    decreases n,
{
    if n == 0 {
        seq![]
    } else {
        let k = (n - 1) as nat;
        let cy = ps[k as int].implied_convenience_yield;
        cy_warnings(cs, ps, r, k) + if cy.gt_spec(r) && cy.gt_spec(dzero()) {
            seq![cy_message(k, cs[k as int].expiry_months, cy, r)]
        } else {
            seq![]
        }
    }
}

pub open spec fn curve_warnings(i: CommodityCurveInput) -> Seq<Seq<char>> {
    let ps = point_seq(i);
    (if contango_count(ps) > 0 && backwardation_count(ps) > 0 {
        seq!["Mixed term structure: some contracts in contango, some in backwardation"@]
    } else {
        seq![]
    }) + cy_warnings(i.futures_prices@, ps, i.risk_free_rate, ps.len())
}

pub open spec fn point_view(p: TermStructurePoint) -> (u32, Dec, PointFigures) {
    (
        p.expiry_months,
        p.futures_price,
        PointFigures {
            basis: p.basis,
            annualized_basis_pct: p.annualized_basis_pct,
            implied_convenience_yield: p.implied_convenience_yield,
        },
    )
}

pub open spec fn point_views(ps: Seq<TermStructurePoint>) -> Seq<(u32, Dec, PointFigures)> {
    ps.map_values(|p: TermStructurePoint| point_view(p))
}

pub open spec fn point_expected(i: CommodityCurveInput) -> Seq<(u32, Dec, PointFigures)> {
    Seq::new(
        i.futures_prices@.len(),
        |k: int| (i.futures_prices@[k].expiry_months, i.futures_prices@[k].price, point_seq(i)[k]),
    )
}

pub open spec fn spread_view(c: CalendarSpread) -> (u32, u32, Dec, Dec) {
    (c.near_month, c.far_month, c.spread, c.annualized_spread_pct)
}

pub open spec fn spread_views(cs: Seq<CalendarSpread>) -> Seq<(u32, u32, Dec, Dec)> {
    cs.map_values(|c: CalendarSpread| spread_view(c))
}

pub open spec fn spread_expected(cs: Seq<FuturesContract>) -> Seq<(u32, u32, Dec, Dec)> {
    Seq::new(
        pair_seq(cs).len(),
        |j: int|
            {
                let p = pair_seq(cs)[j].unwrap();
                (cs[j].expiry_months, cs[j + 1].expiry_months, p.0, p.1)
            },
    )
}

// ---------------------------------------------------------------------------
// Specification: forward pricing
// ---------------------------------------------------------------------------

/// `base` multiplied into `acc` `n` times.
pub open spec fn mul_times(acc: Dec, base: Dec, n: nat) -> Option<Dec>
    decreases n,
{
    if n == 0 {
        Some(acc)
    } else {
        match acc.mul_spec(base) {
            Some(a) => mul_times(a, base, (n - 1) as nat),
            None => None,
        }
    }
}

/// The integer value of a whole non-negative exponent, whatever its number of decimal places.
pub open spec fn exponent_count(e: Dec) -> nat {
    e.trunc_spec().m() as nat
}

/// A whole exponent from 0 to `u64::MAX`: the power is computed by repeated multiplication.
pub open spec fn whole_exponent(e: Dec) -> bool {
    e.eq_spec(e.trunc_spec()) && e.ge_spec(dzero()) && exponent_count(e) <= u64::MAX
}

/// base^e: one for a zero exponent, repeated multiplication for a positive whole exponent
/// (whatever its number of decimal places), exp(e * ln base) otherwise.
pub open spec fn power_spec(base: Dec, e: Dec) -> Option<Dec> {
    if e.eq_spec(dzero()) {
        Some(Dec::lit(1, 0))
    } else if whole_exponent(e) {
        mul_times(Dec::lit(1, 0), base, exponent_count(e))
    } else {
        match ln_spec(base) {
            Some(l) => match e.mul_spec(l) {
                Some(p) => exp_spec(p),
                None => None,
            },
            None => None,
        }
    }
}

pub open spec fn forward_validation(i: CommodityForwardInput) -> Option<ErrView> {
    if i.spot_price.le_spec(dzero()) {
        Some(invalid_input("spot_price"@, "Spot price must be positive"@))
    } else if i.storage_cost_rate.lt_spec(dzero()) {
        Some(invalid_input("storage_cost_rate"@, "Storage cost rate must be non-negative"@))
    } else if i.convenience_yield.lt_spec(dzero()) {
        Some(invalid_input("convenience_yield"@, "Convenience yield must be non-negative"@))
    } else if i.time_to_expiry.le_spec(dzero()) {
        Some(invalid_input("time_to_expiry"@, "Time to expiry must be positive"@))
    } else {
        None
    }
}

pub open spec fn carry_base_message(base: Dec) -> Seq<char> {
    "Cost of carry base (1 + r + c - y) = "@ + base.display_spec()
        + " is non-positive; cannot compute discrete compounding"@
}

pub open spec fn market_structure(basis: Dec) -> Seq<char> {
    if basis.gt_spec(dzero()) {
        "Contango"@
    } else if basis.lt_spec(dzero()) {
        "Backwardation"@
    } else {
        "Flat"@
    }
}

/// Cost of carry, forward price, basis, basis percentage and annualised basis.
pub open spec fn forward_figures(i: CommodityForwardInput) -> Result<(Dec, Dec, Dec, Dec, Dec), ErrView> {
    match forward_validation(i) {
        Some(e) => Err(e),
        None => match osub(i.risk_free_rate.add_spec(i.storage_cost_rate), Some(i.convenience_yield)) {
            None => Err(overflow()),
            Some(coc) => match Dec::lit(1, 0).add_spec(coc) {
                None => Err(overflow()),
                Some(base) => if base.le_spec(dzero()) {
                    Err(financial_impossibility(carry_base_message(base)))
                } else {
                    let f = omul(Some(i.spot_price), power_spec(base, i.time_to_expiry));
                    let basis = osub(f, Some(i.spot_price));
                    let pct = odiv(basis, Some(i.spot_price));
                    let ab = if i.time_to_expiry.gt_spec(dzero()) {
                        odiv(pct, Some(i.time_to_expiry))
                    } else {
                        Some(dzero())
                    };
                    if f is Some && basis is Some && pct is Some && ab is Some {
                        Ok((coc, f.unwrap(), basis.unwrap(), pct.unwrap(), ab.unwrap()))
                    } else {
                        Err(overflow())
                    }
                },
            },
        },
    }
}

pub open spec fn forward_warnings(i: CommodityForwardInput, annualised_basis: Dec) -> Seq<Seq<char>> {
    (if i.convenience_yield.gt_spec(i.risk_free_rate) {
        seq![
            "Convenience yield ("@ + i.convenience_yield.display_spec() + ") exceeds risk-free rate ("@
                + i.risk_free_rate.display_spec() + "): strong backwardation signal"@,
        ]
    } else {
        seq![]
    }) + (if annualised_basis.abs_spec().gt_spec(Dec::lit(20, 2)) {
        seq!["Annualised basis of "@ + annualised_basis.display_prec_spec(4) + " exceeds 20%"@]
    } else {
        seq![]
    })
}

// ---------------------------------------------------------------------------
// Implementation
// ---------------------------------------------------------------------------

fn str_of(s: &str) -> (r: String)
    ensures
        r@ == s@,
{
    String::from_str(s)
}

fn invalid(field: &str, reason: &str) -> (e: FinError)
    ensures
        err_view(e) == invalid_input(field@, reason@),
{
    FinError::InvalidInput { field: str_of(field), reason: str_of(reason) }
}

/// base^e: repeated multiplication for a positive whole exponent (read from its text),
/// exp(e * ln base) otherwise.
pub fn decimal_power(base: Dec, exponent: Dec) -> (r: FinResult<Dec>)
    ensures
        r == lift(power_spec(base, exponent)),
{
    let zero = Dec::zero();
    if exponent.eq(&zero) {
        return Ok(Dec::one());
    }
    let t = exponent.trunc();
    let whole = exponent.eq(&t) && exponent.ge(&zero);
    if whole && t.mantissa() <= 0xFFFF_FFFF_FFFF_FFFF {
        proof {
            Dec::lemma_nonneg(exponent);
        }
        let n: u64 = t.mantissa() as u64;
        let mut result = Dec::one();
        let mut k: u64 = 0;
        while k < n
            invariant
                k <= n,
                power_spec(base, exponent) == mul_times(Dec::lit(1, 0), base, n as nat),
                mul_times(Dec::lit(1, 0), base, n as nat) == mul_times(result, base, (n - k) as nat),
            decreases n - k,
        {
            result = result.mul(&base)?;
            k = k + 1;
        }
        Ok(result)
    } else {
        let l = ln_decimal(base)?;
        exp_decimal(exponent.mul(&l)?)
    }
}

/// Price a commodity forward by the discrete cost-of-carry model F = S * (1 + r + c - y)^T,
/// with basis, market structure and roll yield.
pub fn price_commodity_forward(input: &CommodityForwardInput) -> (r: FinResult<ComputationOutput<CommodityForwardOutput>>)
    ensures
        r is Err <==> forward_figures(*input) is Err,
        r matches Err(e) ==> forward_figures(*input) == Err::<(Dec, Dec, Dec, Dec, Dec), ErrView>(err_view(e)),
        r matches Ok(o) ==> {
            let f = forward_figures(*input)->Ok_0;
            &&& o.methodology@ == "Commodity Forward Pricing via Discrete Cost-of-Carry Model"@
            &&& o.warnings@.map_values(|w: String| w@) == forward_warnings(*input, f.4)
            &&& o.result.cost_of_carry == f.0
            &&& o.result.forward_price == f.1
            &&& o.result.basis == f.2
            &&& o.result.basis_pct == f.3
            &&& o.result.contango_backwardation@ == market_structure(f.2)
            &&& o.result.implied_convenience_yield is None
            &&& o.result.roll_yield == f.0.neg_spec()
        },
{
    let zero = Dec::zero();
    if input.spot_price.le(&zero) {
        return Err(invalid("spot_price", "Spot price must be positive"));
    }
    if input.storage_cost_rate.lt(&zero) {
        return Err(invalid("storage_cost_rate", "Storage cost rate must be non-negative"));
    }
    if input.convenience_yield.lt(&zero) {
        return Err(invalid("convenience_yield", "Convenience yield must be non-negative"));
    }
    if input.time_to_expiry.le(&zero) {
        return Err(invalid("time_to_expiry", "Time to expiry must be positive"));
    }
    let s = input.spot_price;
    let t = input.time_to_expiry;
    let coc = input.risk_free_rate.add(&input.storage_cost_rate)?.sub(&input.convenience_yield)?;
    let base = Dec::one().add(&coc)?;
    if base.le(&zero) {
        let m = str_of("Cost of carry base (1 + r + c - y) = ").concat(base.to_string().as_str()).concat(
            " is non-positive; cannot compute discrete compounding",
        );
        proof {
            assert(m@ =~= carry_base_message(base));
        }
        return Err(FinError::FinancialImpossibility(m));
    }
    let forward_price = s.mul(&decimal_power(base, t)?)?;
    let basis = forward_price.sub(&s)?;
    let basis_pct = basis.div(&s)?;
    let structure = if basis.gt(&zero) {
        str_of("Contango")
    } else if basis.lt(&zero) {
        str_of("Backwardation")
    } else {
        str_of("Flat")
    };
    let annualised = if t.gt(&zero) {
        basis_pct.div(&t)?
    } else {
        Dec::zero()
    };
    let mut warnings: Vec<String> = Vec::new();
    let y = input.convenience_yield;
    let rf = input.risk_free_rate;
    if y.gt(&rf) {
        let w = str_of("Convenience yield (").concat(y.to_string().as_str()).concat(
            ") exceeds risk-free rate (",
        ).concat(rf.to_string().as_str()).concat("): strong backwardation signal");
        warnings.push(w);
    }
    if annualised.abs().gt(&Dec::new(20, 2)) {
        let w = str_of("Annualised basis of ").concat(annualised.to_string_prec(4).as_str()).concat(
            " exceeds 20%",
        );
        warnings.push(w);
    }
    proof {
        assert(warnings@.map_values(|w: String| w@) =~= forward_warnings(*input, annualised));
    }
    Ok(
        ComputationOutput {
            methodology: str_of("Commodity Forward Pricing via Discrete Cost-of-Carry Model"),
            warnings,
            result: CommodityForwardOutput {
                forward_price,
                cost_of_carry: coc,
                basis,
                basis_pct,
                contango_backwardation: structure,
                implied_convenience_yield: None,
                roll_yield: coc.neg(),
            },
        },
    )
}

fn compute_point(c: &FuturesContract, s: Dec, r: Dec, cst: Dec) -> (res: FinResult<PointFigures>)
    ensures
        res is Err <==> point_figures(*c, s, r, cst) is None,
        res is Err ==> res == Err::<PointFigures, FinError>(FinError::ArithmeticOverflow),
        res matches Ok(p) ==> point_figures(*c, s, r, cst) == Some(p),
        res matches Ok(p) ==> basis_follows_price(*c, s, p.basis),
{
    let twelve = Dec::new(12, 0);
    let zero = Dec::zero();
    let t_years = Dec::from_u64(c.expiry_months as u64).div(&twelve)?;
    let basis = c.price.sub(&s)?;
    proof {
        if aligned_fits(c.price.m(), c.price.s(), s.m(), s.s(), true) {
            lemma_exact_diff_sign(basis, c.price, s);
        }
    }
    let annualized_basis_pct = if t_years.gt(&zero) {
        basis.div(&s)?.div(&t_years)?
    } else {
        Dec::zero()
    };
    let ratio = c.price.div(&s)?;
    let implied_cy = if t_years.gt(&zero) {
        r.add(&cst)?.sub(&ln_decimal(ratio)?.div(&t_years)?)?
    } else {
        Dec::zero()
    };
    Ok(PointFigures { basis, annualized_basis_pct, implied_convenience_yield: implied_cy })
}

proof fn lemma_points_error_first(cs: Seq<FuturesContract>, s: Dec, r: Dec, cst: Dec, k: int)
    requires
        0 <= k < cs.len(),
        points_error(cs.take(k), s, r, cst) is None,
        point_error(cs[k], s, r, cst) is Some,
    ensures
        points_error(cs, s, r, cst) == point_error(cs[k], s, r, cst),
{
    assert(cs.take(k + 1).drop_last() =~= cs.take(k));
    lemma_points_error_some(cs, s, r, cst, k + 1);
}

proof fn lemma_points_error_some(cs: Seq<FuturesContract>, s: Dec, r: Dec, cst: Dec, k: int)
    requires
        0 <= k <= cs.len(),
        points_error(cs.take(k), s, r, cst) is Some,
    ensures
        points_error(cs, s, r, cst) == points_error(cs.take(k), s, r, cst),
    decreases cs.len() - k,
{
    if k == cs.len() {
        assert(cs.take(k) =~= cs);
    } else {
        assert(cs.take(k + 1).drop_last() =~= cs.take(k));
        lemma_points_error_some(cs, s, r, cst, k + 1);
    }
}

proof fn lemma_points_ok(cs: Seq<FuturesContract>, s: Dec, r: Dec, cst: Dec)
    requires
        points_error(cs, s, r, cst) is None,
    ensures
        forall|k: int| 0 <= k < cs.len() ==> point_error(#[trigger] cs[k], s, r, cst) is None,
    decreases cs.len(),
{
    if cs.len() > 0 {
        lemma_points_ok(cs.drop_last(), s, r, cst);
        assert forall|k: int| 0 <= k < cs.len() implies point_error(#[trigger] cs[k], s, r, cst)
            is None by {
            if k < cs.len() - 1 {
                assert(cs.drop_last()[k] == cs[k]);
            }
        }
    }
}

proof fn lemma_counts_step(ps: Seq<PointFigures>, j: int)
    requires
        0 <= j < ps.len(),
    ensures
        contango_count(ps.take(j + 1)) == contango_count(ps.take(j)) + if ps[j].basis.gt_spec(
            dzero(),
        ) {
            1nat
        } else {
            0nat
        },
        backwardation_count(ps.take(j + 1)) == backwardation_count(ps.take(j)) + if ps[j].basis.lt_spec(
            dzero(),
        ) {
            1nat
        } else {
            0nat
        },
{
    assert(ps.take(j + 1).drop_last() =~= ps.take(j));
}

proof fn lemma_count_le(ps: Seq<PointFigures>)
    ensures
        contango_count(ps) <= ps.len(),
        backwardation_count(ps) <= ps.len(),
    decreases ps.len(),
{
    if ps.len() > 0 {
        lemma_count_le(ps.drop_last());
    }
}

/// Per-contract validation and figures, in order; the first failing contract decides the
/// error.
fn analyze_points(input: &CommodityCurveInput) -> (r: FinResult<(Vec<TermStructurePoint>, Vec<Dec>, usize, usize)>)
    ensures
        r is Err <==> points_error(
            input.futures_prices@,
            input.spot_price,
            input.risk_free_rate,
            input.storage_cost_rate,
        ) is Some,
        r matches Err(e) ==> Some(err_view(e)) == points_error(
            input.futures_prices@,
            input.spot_price,
            input.risk_free_rate,
            input.storage_cost_rate,
        ),
        r matches Ok(t) ==> {
            &&& point_views(t.0@) == point_expected(*input)
            &&& t.1@ == point_seq(*input).map_values(|p: PointFigures| p.implied_convenience_yield)
            &&& t.2 == contango_count(point_seq(*input))
            &&& t.3 == backwardation_count(point_seq(*input))
            &&& bases_follow_prices(*input)
        },
{
    let cs = &input.futures_prices;
    let s = input.spot_price;
    let rf = input.risk_free_rate;
    let cst = input.storage_cost_rate;
    let ghost ps = point_seq(*input);
    let ghost pe = point_expected(*input);
    let mut ts: Vec<TermStructurePoint> = Vec::new();
    let mut icys: Vec<Dec> = Vec::new();
    let mut contango: usize = 0;
    let mut backwardation: usize = 0;
    let zero = Dec::zero();
    let mut j: usize = 0;
    while j < cs.len()
        invariant
            j <= cs@.len(),
            cs@ == input.futures_prices@,
            s == input.spot_price,
            rf == input.risk_free_rate,
            cst == input.storage_cost_rate,
            zero == dzero(),
            ps == point_seq(*input),
            pe == point_expected(*input),
            points_error(cs@.take(j as int), s, rf, cst) is None,
            forall|k: int| 0 <= k < j ==> point_error(#[trigger] cs@[k], s, rf, cst) is None,
            point_views(ts@) == pe.take(j as int),
            icys@ == ps.take(j as int).map_values(|p: PointFigures| p.implied_convenience_yield),
            contango == contango_count(ps.take(j as int)),
            backwardation == backwardation_count(ps.take(j as int)),
            forall|k: int| 0 <= k < j ==> basis_follows_price(#[trigger] cs@[k], s, ps[k].basis),
        decreases cs@.len() - j,
    {
        let c = &cs[j];
        proof {
            assert(cs@.take(j + 1).drop_last() =~= cs@.take(j as int));
            assert(cs@.take(j + 1).last() == cs@[j as int]);
        }
        if c.expiry_months == 0 {
            proof {
                lemma_points_error_first(cs@, s, rf, cst, j as int);
            }
            return Err(invalid("expiry_months", "Expiry months must be positive"));
        }
        if c.price.le(&zero) {
            proof {
                lemma_points_error_first(cs@, s, rf, cst, j as int);
            }
            return Err(invalid("price", "Futures price must be positive"));
        }
        let p = match compute_point(c, s, rf, cst) {
            Ok(p) => p,
            Err(e) => {
                proof {
                    lemma_points_error_first(cs@, s, rf, cst, j as int);
                }
                return Err(e);
            },
        };
        proof {
            assert(ps[j as int] == p);
            lemma_counts_step(ps, j as int);
            lemma_count_le(ps.take(j as int));
        }
        if p.basis.gt(&zero) {
            contango = contango + 1;
        } else if p.basis.lt(&zero) {
            backwardation = backwardation + 1;
        }
        let ghost ts0 = ts@;
        let pt = TermStructurePoint {
            expiry_months: c.expiry_months,
            futures_price: c.price,
            basis: p.basis,
            annualized_basis_pct: p.annualized_basis_pct,
            implied_convenience_yield: p.implied_convenience_yield,
        };
        ts.push(pt);
        icys.push(p.implied_convenience_yield);
        proof {
            assert(point_views(ts@) =~= point_views(ts0).push(point_view(pt)));
            assert(pe.take(j + 1) =~= pe.take(j as int).push(pe[j as int]));
            assert(icys@ =~= ps.take(j + 1).map_values(|q: PointFigures| q.implied_convenience_yield));
        }
        j = j + 1;
    }
    proof {
        assert(cs@.take(cs@.len() as int) =~= cs@);
        assert(ps.take(ps.len() as int) =~= ps);
        assert(pe.take(pe.len() as int) =~= pe);
    }
    Ok((ts, icys, contango, backwardation))
}

fn compute_pair(near: &FuturesContract, far: &FuturesContract) -> (r: FinResult<(Dec, Dec, Dec)>)
    ensures
        r is Err <==> pair_figures(*near, *far) is None,
        r is Err ==> r == Err::<(Dec, Dec, Dec), FinError>(FinError::ArithmeticOverflow),
        r matches Ok(t) ==> pair_figures(*near, *far) == Some(t),
{
    let twelve = Dec::new(12, 0);
    let zero = Dec::zero();
    let spread = far.price.sub(&near.price)?;
    let delta: u32 = if far.expiry_months >= near.expiry_months {
        far.expiry_months - near.expiry_months
    } else {
        0
    };
    let dy = Dec::from_u64(delta as u64).div(&twelve)?;
    let live = dy.gt(&zero) && near.price.gt(&zero);
    let asp = if live {
        spread.div(&near.price)?.div(&dy)?
    } else {
        Dec::zero()
    };
    let roll = if live {
        near.price.sub(&far.price)?.div(&near.price)?.div(&dy)?
    } else {
        Dec::zero()
    };
    Ok((spread, asp, roll))
}

/// Calendar spreads between consecutive contracts and the average roll yield.
fn analyze_spreads(cs: &Vec<FuturesContract>) -> (r: FinResult<(Vec<CalendarSpread>, Dec)>)
    requires
        cs@.len() <= u32::MAX,
    ensures
        r is Err <==> !spreads_defined(cs@),
        r is Err ==> r == Err::<(Vec<CalendarSpread>, Dec), FinError>(FinError::ArithmeticOverflow),
        r matches Ok(t) ==> spread_views(t.0@) == spread_expected(cs@) && Some(t.1) == avg_roll(
            pair_seq(cs@),
        ),
{
    let ghost pairs = pair_seq(cs@);
    let ghost rolls = roll_seq(pairs);
    let ghost se = spread_expected(cs@);
    let n_pairs: usize = if cs.len() > 0 {
        cs.len() - 1
    } else {
        0
    };
    let mut out: Vec<CalendarSpread> = Vec::new();
    let mut roll_sum = Dec::zero();
    let mut j: usize = 0;
    while j < n_pairs
        invariant
            j <= n_pairs,
            n_pairs == pairs.len(),
            n_pairs < cs@.len() || n_pairs == 0,
            pairs == pair_seq(cs@),
            rolls == roll_seq(pairs),
            se == spread_expected(cs@),
            forall|k: int| 0 <= k < j ==> (#[trigger] pairs[k]) is Some,
            sum_opt(rolls.take(j as int)) == Some(roll_sum),
            spread_views(out@) == se.take(j as int),
        decreases n_pairs - j,
    {
        let near = &cs[j];
        let far = &cs[j + 1];
        let t = match compute_pair(near, far) {
            Ok(t) => t,
            Err(e) => {
                proof {
                    assert(pairs[j as int] == pair_figures(cs@[j as int], cs@[j + 1]));
                    assert(!all_some(pairs));
                }
                return Err(e);
            },
        };
        proof {
            assert(rolls.take(j + 1).drop_last() =~= rolls.take(j as int));
        }
        roll_sum = match roll_sum.add(&t.2) {
            Ok(x) => x,
            Err(e) => {
                proof {
                    assert forall|k: int| 0 <= k <= j implies (#[trigger] pairs[k]) is Some by {}
                    if all_some(pairs) {
                        lemma_sum_opt_none(rolls, j as int);
                    }
                }
                return Err(e);
            },
        };
        let ghost o0 = out@;
        let sp = CalendarSpread {
            near_month: near.expiry_months,
            far_month: far.expiry_months,
            spread: t.0,
            annualized_spread_pct: t.1,
        };
        out.push(sp);
        proof {
            assert(spread_views(out@) =~= spread_views(o0).push(spread_view(sp)));
            assert(se.take(j + 1) =~= se.take(j as int).push(se[j as int]));
        }
        j = j + 1;
    }
    proof {
        assert(rolls.take(rolls.len() as int) =~= rolls);
        assert(se.take(se.len() as int) =~= se);
    }
    let avg = if n_pairs > 0 {
        roll_sum.div(&Dec::from_u64(n_pairs as u64))?
    } else {
        Dec::zero()
    };
    Ok((out, avg))
}

fn cy_message_exec(k: usize, expiry: u32, cy: Dec, r: Dec) -> (m: String)
    requires
        k < usize::MAX,
    ensures
        m@ == cy_message(k as nat, expiry, cy, r),
{
    let n = usize_to_string(k + 1);
    let m = str_of("Contract ").concat(n.as_str()).concat(" (").concat(
        u32_to_string(expiry).as_str(),
    ).concat("m): implied convenience yield ").concat(cy.to_string_prec(4).as_str()).concat(
        " exceeds risk-free rate ",
    ).concat(r.to_string_prec(4).as_str());
    proof {
        assert(m@ =~= cy_message(k as nat, expiry, cy, r));
    }
    m
}

/// Analyse a commodity futures term structure: basis and implied convenience yield of
/// each contract, calendar spreads and roll yield between consecutive contracts, and
/// whether the curve is in contango, backwardation or mixed.
pub fn analyze_commodity_curve(input: &CommodityCurveInput) -> (r: FinResult<
    ComputationOutput<CommodityCurveOutput>,
>)
    requires
        input.futures_prices@.len() <= u32::MAX,
    ensures
        r is Err <==> curve_error(*input) is Some,
        r matches Err(e) ==> Some(err_view(e)) == curve_error(*input),
        r matches Ok(o) ==> {
            let out = o.result;
            let ps = point_seq(*input);
            &&& o.methodology@ == "Commodity Futures Term Structure Analysis"@
            &&& o.warnings@.map_values(|w: String| w@) == curve_warnings(*input)
            &&& point_views(out.term_structure@) == point_expected(*input)
            &&& out.implied_convenience_yields@ == ps.map_values(
                |p: PointFigures| p.implied_convenience_yield,
            )
            &&& spread_views(out.calendar_spreads@) == spread_expected(input.futures_prices@)
            &&& Some(out.avg_roll_yield) == avg_roll(pair_seq(input.futures_prices@))
            &&& out.curve_shape@ == shape_text(contango_count(ps), backwardation_count(ps))
            &&& curve_structure(*input)
            &&& bases_follow_prices(*input)
        },
{
    let zero = Dec::zero();
    if input.spot_price.le(&zero) {
        return Err(invalid("spot_price", "Spot price must be positive"));
    }
    if input.futures_prices.len() == 0 {
        return Err(FinError::InsufficientData(str_of("At least one futures contract is required")));
    }
    if input.storage_cost_rate.lt(&zero) {
        return Err(invalid("storage_cost_rate", "Storage cost rate must be non-negative"));
    }
    let (term_structure, icys, contango, backwardation) = analyze_points(input)?;
    let (calendar_spreads, avg_roll_yield) = analyze_spreads(&input.futures_prices)?;
    let curve_shape = if contango > 0 && backwardation > 0 {
        str_of("Mixed")
    } else if contango > 0 {
        str_of("Contango")
    } else if backwardation > 0 {
        str_of("Backwardation")
    } else {
        str_of("Flat")
    };
    let mut warnings: Vec<String> = Vec::new();
    if contango > 0 && backwardation > 0 {
        warnings.push(str_of("Mixed term structure: some contracts in contango, some in backwardation"));
    }
    let ghost ps = point_seq(*input);
    let ghost w0 = warnings@.map_values(|w: String| w@);
    let rf = input.risk_free_rate;
    let mut k: usize = 0;
    while k < icys.len()
        invariant
            k <= icys@.len(),
            icys@ == ps.map_values(|p: PointFigures| p.implied_convenience_yield),
            ps == point_seq(*input),
            ps.len() == input.futures_prices@.len(),
            rf == input.risk_free_rate,
            zero == dzero(),
            warnings@.map_values(|w: String| w@) == w0 + cy_warnings(
                input.futures_prices@,
                ps,
                rf,
                k as nat,
            ),
        decreases icys@.len() - k,
    {
        let cy = icys[k];
        let ghost before = warnings@;
        proof {
            assert(cy == ps[k as int].implied_convenience_yield);
            assert(cy_warnings(input.futures_prices@, ps, rf, (k + 1) as nat) == cy_warnings(
                input.futures_prices@,
                ps,
                rf,
                k as nat,
            ) + if cy.gt_spec(rf) && cy.gt_spec(dzero()) {
                seq![cy_message(k as nat, input.futures_prices@[k as int].expiry_months, cy, rf)]
            } else {
                Seq::<Seq<char>>::empty()
            });
        }
        if cy.gt(&rf) && cy.gt(&zero) {
            let m = cy_message_exec(k, input.futures_prices[k].expiry_months, cy, rf);
            warnings.push(m);
            proof {
                assert(warnings@.map_values(|w: String| w@) =~= before.map_values(|w: String| w@).push(m@));
            }
        }
        proof {
            assert(warnings@.map_values(|w: String| w@) =~= w0 + cy_warnings(
                input.futures_prices@,
                ps,
                rf,
                (k + 1) as nat,
            ));
        }
        k = k + 1;
    }
    proof {
        assert(warnings@.map_values(|w: String| w@) =~= curve_warnings(*input));
        lemma_curve_structure(*input);
    }
    Ok(
        ComputationOutput {
            methodology: str_of("Commodity Futures Term Structure Analysis"),
            warnings,
            result: CommodityCurveOutput {
                term_structure,
                curve_shape,
                implied_convenience_yields: icys,
                calendar_spreads,
                avg_roll_yield,
            },
        },
    )
}

/// A contract the analysis refuses: one that expires now or has no positive price.
pub open spec fn refused_contract(c: FuturesContract) -> bool {
    c.expiry_months == 0 || c.price.le_spec(dzero())
}

/// The inputs the analysis refuses by its own checks.
pub open spec fn curve_refused(i: CommodityCurveInput) -> bool {
    ||| i.spot_price.le_spec(dzero())
    ||| i.futures_prices@.len() == 0
    ||| i.storage_cost_rate.lt_spec(dzero())
    ||| exists|k: int| 0 <= k < i.futures_prices@.len() && refused_contract(#[trigger] i.futures_prices@[k])
}

proof fn lemma_points_error_refusals(cs: Seq<FuturesContract>, s: Dec, r: Dec, cst: Dec)
    ensures
        (exists|k: int| 0 <= k < cs.len() && refused_contract(#[trigger] cs[k])) ==> points_error(cs, s, r, cst) is Some,
        points_error(cs, s, r, cst) matches Some(e) ==> e == overflow() || (e.0 == 0 && exists|k: int|
            0 <= k < cs.len() && refused_contract(#[trigger] cs[k])),
    decreases cs.len(),
{
    if cs.len() > 0 {
        let init = cs.drop_last();
        lemma_points_error_refusals(init, s, r, cst);
        if exists|k: int| 0 <= k < cs.len() && refused_contract(#[trigger] cs[k]) {
            let k = choose|k: int| 0 <= k < cs.len() && refused_contract(#[trigger] cs[k]);
            if k < cs.len() - 1 {
                assert(init[k] == cs[k]);
            }
        }
        match points_error(init, s, r, cst) {
            Some(e) => {
                if e != overflow() {
                    let k = choose|k: int| 0 <= k < init.len() && refused_contract(#[trigger] init[k]);
                    assert(cs[k] == init[k]);
                }
            },
            None => {
                if point_error(cs.last(), s, r, cst) is Some && point_error(cs.last(), s, r, cst)
                    != Some(overflow()) {
                    assert(refused_contract(cs[cs.len() - 1]));
                }
            },
        }
    }
}

/// The analysis refuses a non-positive spot price, an empty list of contracts, a negative
/// storage cost and any contract with no months to expiry or no positive price; every
/// error it gives is one of these or an arithmetic overflow. Only an empty list of
/// contracts (with a positive spot price) is answered as missing data; the other refusals
/// are invalid input.
pub proof fn lemma_curve_refusals(i: CommodityCurveInput)
    ensures
        curve_refused(i) ==> curve_error(i) is Some,
        curve_error(i) matches Some(e) ==> e == overflow() || curve_refused(i),
        curve_error(i) matches Some(e) ==> (e.0 == 2 <==> (!i.spot_price.le_spec(dzero())
            && i.futures_prices@.len() == 0)),
        curve_error(i) matches Some(e) ==> (e == overflow() || e.0 == 0 || e.0 == 2),
{
    lemma_points_error_refusals(
        i.futures_prices@,
        i.spot_price,
        i.risk_free_rate,
        i.storage_cost_rate,
    );
}

proof fn lemma_counts(ps: Seq<PointFigures>)
    ensures
        contango_count(ps) > 0 <==> exists|k: int| 0 <= k < ps.len() && (#[trigger] ps[k]).basis.gt_spec(dzero()),
        backwardation_count(ps) > 0 <==> exists|k: int|
            0 <= k < ps.len() && (#[trigger] ps[k]).basis.lt_spec(dzero()),
    decreases ps.len(),
{
    if ps.len() > 0 {
        let init = ps.drop_last();
        lemma_counts(init);
        let last = ps.len() - 1;
        assert(ps[last] == ps.last());
        if exists|k: int| 0 <= k < init.len() && (#[trigger] init[k]).basis.gt_spec(dzero()) {
            let k = choose|k: int| 0 <= k < init.len() && (#[trigger] init[k]).basis.gt_spec(dzero());
            assert(ps[k] == init[k]);
        }
        if exists|k: int| 0 <= k < init.len() && (#[trigger] init[k]).basis.lt_spec(dzero()) {
            let k = choose|k: int| 0 <= k < init.len() && (#[trigger] init[k]).basis.lt_spec(dzero());
            assert(ps[k] == init[k]);
        }
        if exists|k: int| 0 <= k < ps.len() && (#[trigger] ps[k]).basis.gt_spec(dzero()) {
            let k = choose|k: int| 0 <= k < ps.len() && (#[trigger] ps[k]).basis.gt_spec(dzero());
            if k < last {
                assert(ps[k] == init[k]);
            }
        }
        if exists|k: int| 0 <= k < ps.len() && (#[trigger] ps[k]).basis.lt_spec(dzero()) {
            let k = choose|k: int| 0 <= k < ps.len() && (#[trigger] ps[k]).basis.lt_spec(dzero());
            if k < last {
                assert(ps[k] == init[k]);
            }
        }
    }
}

/// On an accepted curve: one term-structure point per contract, whose basis is the
/// contract's price less spot; one calendar spread per consecutive pair, from the near to
/// the far expiry, whose spread is the far price less the near one; a zero average roll
/// yield for a single contract; and a shape that is "Mixed" when some basis is positive
/// and some negative, "Contango" when only positive ones occur, "Backwardation" when only
/// negative ones occur and "Flat" otherwise.
pub proof fn lemma_curve_structure(i: CommodityCurveInput)
    requires
        curve_error(i) is None,
    ensures
        curve_structure(i),
{
    let cs = i.futures_prices@;
    lemma_points_ok(cs, i.spot_price, i.risk_free_rate, i.storage_cost_rate);
    lemma_counts(point_seq(i));
    let sp = spread_expected(cs);
    assert forall|j: int| 0 <= j < sp.len() implies Some((#[trigger] sp[j]).2) == cs[j + 1].price.sub_spec(
        cs[j].price,
    ) by {
        assert(pair_seq(cs)[j] == pair_figures(cs[j], cs[j + 1]));
        assert(all_some(pair_seq(cs)));
        assert(pair_seq(cs)[j] is Some);
    }
}

/// How the points, spreads, roll yield and shape of a curve relate to its contracts.
pub open spec fn curve_structure(i: CommodityCurveInput) -> bool {
        ({
            let cs = i.futures_prices@;
            let ps = point_seq(i);
            let sp = spread_expected(cs);
            let up = exists|k: int| 0 <= k < ps.len() && (#[trigger] ps[k]).basis.gt_spec(dzero());
            let down = exists|k: int| 0 <= k < ps.len() && (#[trigger] ps[k]).basis.lt_spec(dzero());
            &&& ps.len() == cs.len()
            &&& forall|k: int| 0 <= k < cs.len() ==> Some((#[trigger] ps[k]).basis) == cs[k].price.sub_spec(
                i.spot_price,
            )
            &&& sp.len() == cs.len() - 1
            &&& forall|j: int|
                0 <= j < sp.len() ==> {
                    &&& (#[trigger] sp[j]).0 == cs[j].expiry_months
                    &&& sp[j].1 == cs[j + 1].expiry_months
                    &&& Some(sp[j].2) == cs[j + 1].price.sub_spec(cs[j].price)
                }
            &&& cs.len() == 1 ==> avg_roll(pair_seq(cs)) == Some(dzero())
            &&& shape_text(contango_count(ps), backwardation_count(ps)) == if up && down {
                "Mixed"@
            } else if up {
                "Contango"@
            } else if down {
                "Backwardation"@
            } else {
                "Flat"@
            }
        })
}

} // verus!
