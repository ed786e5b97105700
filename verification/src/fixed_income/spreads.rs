//! Credit spreads of a fixed-rate bond over a benchmark spot curve: yield to maturity,
//! I-spread and G-spread, Z-spread, spread duration, a CDS spread estimate and a credit
//! quality bucket.
use vstd::prelude::*;

use crate::dec::{dzero, group_dec, lift, oadd, odiv, omul, osub, Dec};
use crate::error::{
    convergence_failure, division_by_zero, err_view, insufficient_data, invalid_input, overflow, ErrView, FinError,
    FinResult,
};
use crate::fixed_income::yields::{mul_times, one, valid_frequency};
use crate::types::ComputationOutput;

verus! {

broadcast use group_dec;

/// Upper bound (exclusive) of an investment-grade spread: 200 bps.
pub open spec fn ig_ceiling() -> Dec {
    Dec::lit(200, 4)
}

/// Upper bound (inclusive) of a high-yield spread: 1000 bps.
pub open spec fn hy_ceiling() -> Dec {
    Dec::lit(1000, 4)
}

pub open spec fn credit_quality_spec(z_spread: Dec) -> Seq<char> {
    if z_spread.lt_spec(ig_ceiling()) {
        "investment_grade"@
    } else if z_spread.le_spec(hy_ceiling()) {
        "high_yield"@
    } else {
        "distressed"@
    }
}

/// Credit quality from the Z-spread: below 200 bps investment grade, 200 to 1000 bps
/// high yield, above 1000 bps distressed.
pub fn classify_credit_quality(z_spread: Dec) -> (r: String)
    ensures
        r@ == credit_quality_spec(z_spread),
{
    if z_spread.lt(&Dec::new(200, 4)) {
        String::from_str("investment_grade")
    } else if z_spread.le(&Dec::new(1000, 4)) {
        String::from_str("high_yield")
    } else {
        String::from_str("distressed")
    }
}


/// A point of the risk-free spot curve.
pub struct BenchmarkPoint {
    /// Years to maturity.
    pub maturity: Dec,
    /// Annual spot rate.
    pub rate: Dec,
}

pub struct CreditSpreadInput {
    pub face_value: Dec,
    /// Annual coupon rate (0.05 = 5%).
    pub coupon_rate: Dec,
    /// Coupons per year: 1, 2, 4 or 12.
    pub coupon_frequency: u8,
    /// Dirty market price.
    pub market_price: Dec,
    pub years_to_maturity: Dec,
    /// At least two points, ascending by maturity.
    pub benchmark_curve: Vec<BenchmarkPoint>,
    /// Recovery rate for the CDS estimate; 0.40 when absent.
    pub recovery_rate: Option<Dec>,
    /// Annual default probability for the CDS estimate.
    pub default_probability: Option<Dec>,
}

pub struct CreditSpreadOutput {
    /// YTM minus the benchmark yield at the bond's maturity.
    pub i_spread: Dec,
    /// The I-spread, the benchmark being a government curve.
    pub g_spread: Dec,
    /// Constant spread over the spot curve that reprices the bond.
    pub z_spread: Dec,
    /// Always absent: no option-adjusted spread for callable bonds.
    pub oas_estimate: Option<Dec>,
    pub ytm: Dec,
    /// Benchmark yield interpolated at the bond's maturity.
    pub benchmark_yield: Dec,
    /// Price sensitivity to a 1 bp shift of the Z-spread.
    pub spread_duration: Dec,
    /// (1 - recovery) * default probability, when a probability is given.
    pub cds_spread: Option<Dec>,
    pub credit_quality_indicator: String,
}

/// The analysis as values.
pub struct SpreadFigures {
    pub ytm: Dec,
    pub benchmark: Dec,
    pub i_spread: Dec,
    pub z_spread: Dec,
    pub spread_duration: Dec,
    pub cds: Option<Dec>,
}

/// An error, with the iteration count and last residual when a solver gave up.
pub type SpreadError = (ErrView, u32, Dec);

pub open spec fn plain(e: ErrView) -> SpreadError {
    (e, 0, dzero())
}

/// A library error with its solver detail.
pub open spec fn spread_error(e: FinError) -> SpreadError {
    match e {
        FinError::ConvergenceFailure { iterations, last_delta, .. } => (err_view(e), iterations, last_delta),
        _ => plain(err_view(e)),
    }
}

// ---------------------------------------------------------------------------
// Specification
// ---------------------------------------------------------------------------

/// An integer-valued decimal as a `u32`; `default` when negative or too large.
pub open spec fn u32_or(x: Dec, default: u32) -> u32 {
    if x.m() < 0 || x.m() > u32::MAX {
        default
    } else {
        x.m() as u32
    }
}

/// The number of coupon periods: the rounded period count, at least one.
pub open spec fn periods_spec(total: Dec) -> u32 {
    let r = u32_or(total.round_dp_spec(0), 1);
    if r == 0 {
        1
    } else {
        r
    }
}

/// Cash flows of periods `1..=k` of `n`: (time in years, amount).
pub open spec fn spread_flows(c: Dec, face: Dec, freq: Dec, n: nat, k: nat) -> Option<Seq<(Dec, Dec)>>
    decreases k,
{
    if k == 0 {
        Some(Seq::empty())
    } else {
        match spread_flows(c, face, freq, n, (k - 1) as nat) {
            None => None,
            Some(acc) => {
                let cf = if k == n {
                    c.add_spec(face)
                } else {
                    Some(c)
                };
                match (Dec::lit(k as int, 0).div_spec(freq), cf) {
                    (Some(t), Some(cf)) => Some(acc.push((t, cf))),
                    _ => None,
                }
            },
        }
    }
}

/// Flows `k..` of the price at 1 + y/freq = `opy`.
pub open spec fn yield_price_loop(flows: Seq<(Dec, Dec)>, freq: Dec, opy: Dec, k: nat, price: Dec) -> Option<Dec>
    decreases flows.len() - k,
{
    if k >= flows.len() {
        Some(price)
    } else {
        let (t, cf) = flows[k as int];
        match t.mul_spec(freq) {
            None => None,
            Some(p) => match mul_times(one(), opy, u32_or(p.round_dp_spec(0), 1) as nat) {
                None => None,
                Some(d) => if d.is_zero_spec() {
                    yield_price_loop(flows, freq, opy, k + 1, price)
                } else {
                    match oadd(Some(price), cf.div_spec(d)) {
                        None => None,
                        Some(p2) => yield_price_loop(flows, freq, opy, k + 1, p2),
                    }
                },
            },
        }
    }
}

/// Flows `k..` of the derivative of the price in the annual yield.
pub open spec fn yield_deriv_loop(flows: Seq<(Dec, Dec)>, freq: Dec, opy: Dec, k: nat, deriv: Dec) -> Option<Dec>
    decreases flows.len() - k,
{
    if k >= flows.len() {
        Some(deriv)
    } else {
        let (t, cf) = flows[k as int];
        match t.mul_spec(freq) {
            None => None,
            Some(p) => {
                let n = u32_or(p.round_dp_spec(0), 1);
                match mul_times(one(), opy, n as nat + 1) {
                    None => None,
                    Some(d) => if d.is_zero_spec() {
                        yield_deriv_loop(flows, freq, opy, k + 1, deriv)
                    } else {
                        match osub(Some(deriv), odiv(omul(Dec::lit(n as int, 0).div_spec(freq), Some(cf)), Some(d))) {
                            None => None,
                            Some(d2) => yield_deriv_loop(flows, freq, opy, k + 1, d2),
                        }
                    },
                }
            },
        }
    }
}

/// The price at annual yield `y` (`deriv` false) or its derivative in `y` (`deriv` true).
pub open spec fn yield_price(flows: Seq<(Dec, Dec)>, y: Dec, f: u8, deriv: bool) -> Option<Dec> {
    let freq = Dec::lit(f as int, 0);
    match oadd(Some(one()), y.div_spec(freq)) {
        None => None,
        Some(opy) => if deriv {
            yield_deriv_loop(flows, freq, opy, 0, dzero())
        } else {
            yield_price_loop(flows, freq, opy, 0, dzero())
        },
    }
}

/// `x` kept within [lo, hi].
pub open spec fn clamp(x: Dec, lo: Dec, hi: Dec) -> Dec {
    if x.lt_spec(lo) {
        lo
    } else if x.gt_spec(hi) {
        hi
    } else {
        x
    }
}

/// Newton iterations `it..50` for the yield to maturity from `y`: `Ok` with the yield once
/// the pricing error is below 1e-7, `Err` with the iteration and residual when the
/// derivative vanishes or the iterations run out.
pub open spec fn spread_ytm_newton(flows: Seq<(Dec, Dec)>, f: u8, market: Dec, y: Dec, it: nat) -> Option<Result<Dec, (u32, Dec)>>
    decreases 50 - it,
{
    if it >= 50 {
        match osub(yield_price(flows, y, f, false), Some(market)) {
            None => None,
            Some(d) => Some(Err((50, d))),
        }
    } else {
        match osub(yield_price(flows, y, f, false), Some(market)) {
            None => None,
            Some(res) => if res.abs_spec().lt_spec(Dec::lit(1, 7)) {
                Some(Ok(y))
            } else {
                match yield_price(flows, y, f, true) {
                    None => None,
                    Some(dp) => if dp.is_zero_spec() {
                        Some(Err((it as u32, res)))
                    } else {
                        match osub(Some(y), res.div_spec(dp)) {
                            None => None,
                            Some(y2) => spread_ytm_newton(
                                flows,
                                f,
                                market,
                                clamp(y2, Dec::lit(-99, 2), Dec::lit(50, 1)),
                                it + 1,
                            ),
                        }
                    },
                }
            },
        }
    }
}

/// coupon + (face - price) / (face * years): the yield guess.
pub open spec fn yield_guess(i: CreditSpreadInput) -> Option<Dec> {
    oadd(Some(i.coupon_rate), odiv(i.face_value.sub_spec(i.market_price), i.face_value.mul_spec(i.years_to_maturity)))
}

/// The index of the first point not below `t`, from `k` on.
pub open spec fn first_not_below(c: Seq<BenchmarkPoint>, t: Dec, k: nat) -> nat
    decreases c.len() - k,
{
    if k >= c.len() {
        c.len()
    } else if !c[k as int].maturity.lt_spec(t) {
        k
    } else {
        first_not_below(c, t, k + 1)
    }
}

/// The benchmark rate at `t`: linear between the bracketing points, extended from the
/// first or last two beyond the ends.
pub open spec fn interp_spec(c: Seq<BenchmarkPoint>, t: Dec) -> Result<Dec, ErrView> {
    if c.len() < 2 {
        Err(insufficient_data("Need at least 2 benchmark points for interpolation"@))
    } else {
        let idx = first_not_below(c, t, 0);
        let (l, r) = if idx == 0 {
            (c[0], c[1])
        } else if idx >= c.len() {
            (c[c.len() - 2], c[c.len() - 1])
        } else {
            (c[idx - 1], c[idx as int])
        };
        match r.maturity.sub_spec(l.maturity) {
            None => Err(overflow()),
            Some(span) => if span.is_zero_spec() {
                Ok(l.rate)
            } else {
                match oadd(Some(l.rate), omul(odiv(t.sub_spec(l.maturity), Some(span)), r.rate.sub_spec(l.rate))) {
                    None => Err(overflow()),
                    Some(x) => Ok(x),
                }
            },
        }
    }
}

/// (1 + r)^t: repeated multiplication for the whole years, times 1 + frac * r for the rest.
pub open spec fn idisc_spec(r: Dec, t: Dec) -> Option<Dec> {
    match one().add_spec(r) {
        None => None,
        Some(opr) => {
            let whole = t.floor_spec();
            match mul_times(one(), opr, u32_or(whole, 0) as nat) {
                None => None,
                Some(fct) => match t.sub_spec(whole) {
                    None => None,
                    Some(frac) => if frac.gt_spec(dzero()) {
                        omul(Some(fct), oadd(Some(one()), frac.mul_spec(r)))
                    } else {
                        Some(fct)
                    },
                },
            }
        },
    }
}

/// Flows `k..` of the price over the spot curve plus `z` (`deriv` false), or of its
/// derivative in `z` (`deriv` true).
pub open spec fn z_loop(flows: Seq<(Dec, Dec)>, c: Seq<BenchmarkPoint>, z: Dec, deriv: bool, k: nat, acc: Dec) -> Result<Dec, ErrView>
    decreases flows.len() - k,
{
    if k >= flows.len() {
        Ok(acc)
    } else {
        let (t, cf) = flows[k as int];
        match interp_spec(c, t) {
            Err(e) => Err(e),
            Ok(spot) => match spot.add_spec(z) {
                None => Err(overflow()),
                Some(ar) => {
                    let d = if deriv {
                        omul(idisc_spec(ar, t), one().add_spec(ar))
                    } else {
                        idisc_spec(ar, t)
                    };
                    match d {
                        None => Err(overflow()),
                        Some(d) => if d.is_zero_spec() {
                            z_loop(flows, c, z, deriv, k + 1, acc)
                        } else {
                            let next = if deriv {
                                osub(Some(acc), odiv(t.mul_spec(cf), Some(d)))
                            } else {
                                oadd(Some(acc), cf.div_spec(d))
                            };
                            match next {
                                None => Err(overflow()),
                                Some(a2) => z_loop(flows, c, z, deriv, k + 1, a2),
                            }
                        },
                    }
                },
            },
        }
    }
}

/// Newton iterations `it..50` for the Z-spread from `z`.
pub open spec fn z_newton(flows: Seq<(Dec, Dec)>, c: Seq<BenchmarkPoint>, market: Dec, z: Dec, it: nat) -> Result<Result<Dec, (u32, Dec)>, ErrView>
    decreases 50 - it,
{
    match z_loop(flows, c, z, false, 0, dzero()) {
        Err(e) => Err(e),
        Ok(price) => match price.sub_spec(market) {
            None => Err(overflow()),
            Some(res) => if it >= 50 {
                Ok(Err((50, res)))
            } else if res.abs_spec().lt_spec(Dec::lit(1, 7)) {
                Ok(Ok(z))
            } else {
                match z_loop(flows, c, z, true, 0, dzero()) {
                    Err(e) => Err(e),
                    Ok(dz) => if dz.is_zero_spec() {
                        Ok(Err((it as u32, res)))
                    } else {
                        match osub(Some(z), res.div_spec(dz)) {
                            None => Err(overflow()),
                            Some(z2) => z_newton(flows, c, market, clamp(z2, Dec::lit(-99, 2), Dec::lit(50, 1)), it + 1),
                        }
                    },
                }
            },
        },
    }
}

/// (P(z - 1bp) - P(z + 1bp)) / (2 * market price * 1bp).
pub open spec fn spread_duration_spec(flows: Seq<(Dec, Dec)>, c: Seq<BenchmarkPoint>, market: Dec, z: Dec) -> Result<Dec, ErrView> {
    let bp = Dec::lit(1, 4);
    match (z.sub_spec(bp), z.add_spec(bp)) {
        (Some(zd), Some(zu)) => match z_loop(flows, c, zd, false, 0, dzero()) {
            Err(e) => Err(e),
            Ok(pd) => match z_loop(flows, c, zu, false, 0, dzero()) {
                Err(e) => Err(e),
                Ok(pu) => if market.is_zero_spec() {
                    Err(division_by_zero("spread duration denominator (market_price)"@))
                } else {
                    match omul(Dec::lit(2, 0).mul_spec(market), Some(bp)) {
                        None => Err(overflow()),
                        Some(den) => if den.is_zero_spec() {
                            Err(division_by_zero("spread duration denominator"@))
                        } else {
                            match odiv(pd.sub_spec(pu), Some(den)) {
                                None => Err(overflow()),
                                Some(x) => Ok(x),
                            }
                        },
                    }
                },
            },
        },
        _ => Err(overflow()),
    }
}

/// Index of the first point not after its predecessor.
pub open spec fn curve_unsorted(c: Seq<BenchmarkPoint>, k: nat) -> bool
    decreases c.len() - k,
{
    if k + 1 >= c.len() {
        false
    } else {
        c[(k + 1) as int].maturity.le_spec(c[k as int].maturity) || curve_unsorted(c, k + 1)
    }
}

pub open spec fn unit_interval(x: Dec) -> bool {
    !(x.lt_spec(dzero()) || x.gt_spec(one()))
}

pub open spec fn spread_validation(i: CreditSpreadInput) -> Option<ErrView> {
    if i.face_value.le_spec(dzero()) {
        Some(invalid_input("face_value"@, "Face value must be positive"@))
    } else if i.market_price.le_spec(dzero()) {
        Some(invalid_input("market_price"@, "Market price must be positive"@))
    } else if !valid_frequency(i.coupon_frequency) {
        Some(invalid_input("coupon_frequency"@, "Coupon frequency must be 1, 2, 4, or 12"@))
    } else if i.years_to_maturity.le_spec(dzero()) {
        Some(invalid_input("years_to_maturity"@, "Years to maturity must be positive"@))
    } else if i.benchmark_curve@.len() < 2 {
        Some(insufficient_data("Benchmark curve must contain at least 2 points"@))
    } else if curve_unsorted(i.benchmark_curve@, 0) {
        Some(invalid_input("benchmark_curve"@, "Benchmark curve must be sorted ascending by maturity"@))
    } else if i.recovery_rate matches Some(rr) && !unit_interval(rr) {
        Some(invalid_input("recovery_rate"@, "Recovery rate must be between 0 and 1"@))
    } else if i.default_probability matches Some(pd) && !unit_interval(pd) {
        Some(invalid_input("default_probability"@, "Default probability must be between 0 and 1"@))
    } else {
        None
    }
}

/// The cash flows of the bond: (time in years, amount) per coupon period.
pub open spec fn bond_flows(i: CreditSpreadInput) -> Option<Seq<(Dec, Dec)>> {
    let freq = Dec::lit(i.coupon_frequency as int, 0);
    match (odiv(i.face_value.mul_spec(i.coupon_rate), Some(freq)), i.years_to_maturity.mul_spec(freq)) {
        (Some(c), Some(total)) => {
            let n = periods_spec(total) as nat;
            spread_flows(c, i.face_value, freq, n, n)
        },
        _ => None,
    }
}

/// (1 - recovery) * default probability, recovery 0.40 by default.
pub open spec fn cds_spec(i: CreditSpreadInput) -> Option<Option<Dec>> {
    match i.default_probability {
        None => Some(None),
        Some(pd) => {
            let rec = match i.recovery_rate {
                Some(r) => r,
                None => Dec::lit(40, 2),
            };
            match omul(one().sub_spec(rec), Some(pd)) {
                None => None,
                Some(x) => Some(Some(x)),
            }
        },
    }
}

pub open spec fn spreads_spec(i: CreditSpreadInput) -> Result<SpreadFigures, SpreadError> {
    match spread_validation(i) {
        Some(e) => Err(plain(e)),
        None => match bond_flows(i) {
            None => Err(plain(overflow())),
            Some(flows) => {
                let c = i.benchmark_curve@;
                let f = i.coupon_frequency;
                match yield_guess(i) {
                    None => Err(plain(overflow())),
                    Some(g) => match spread_ytm_newton(flows, f, i.market_price, clamp(g, Dec::lit(-50, 2), Dec::lit(20, 1)), 0) {
                        None => Err(plain(overflow())),
                        Some(Err((it, d))) => Err((convergence_failure("YTM solver"@, it, d), it, d)),
                        Some(Ok(ytm)) => match interp_spec(c, i.years_to_maturity) {
                            Err(e) => Err(plain(e)),
                            Ok(by) => match ytm.sub_spec(by) {
                                None => Err(plain(overflow())),
                                Some(isp) => match osub(yield_guess(i), Some(by)) {
                                    None => Err(plain(overflow())),
                                    Some(z0) => match z_newton(flows, c, i.market_price, clamp(z0, Dec::lit(-50, 2), Dec::lit(20, 1)), 0) {
                                        Err(e) => Err(plain(e)),
                                        Ok(Err((it, d))) => Err((convergence_failure("Z-spread solver"@, it, d), it, d)),
                                        Ok(Ok(z)) => match spread_duration_spec(flows, c, i.market_price, z) {
                                            Err(e) => Err(plain(e)),
                                            Ok(sd) => match cds_spec(i) {
                                                None => Err(plain(overflow())),
                                                Some(cds) => Ok(
                                                    SpreadFigures {
                                                        ytm,
                                                        benchmark: by,
                                                        i_spread: isp,
                                                        z_spread: z,
                                                        spread_duration: sd,
                                                        cds,
                                                    },
                                                ),
                                            },
                                        },
                                    },
                                },
                            },
                        },
                    },
                }
            },
        },
    }
}


// ---------------------------------------------------------------------------
// Implementation
// ---------------------------------------------------------------------------

fn str_of(s: &str) -> (r: String)
    ensures
        r@ == s@,
{
    String::from_str(s)
}

fn validate_input(input: &CreditSpreadInput) -> (r: FinResult<()>)
    ensures
        r is Err <==> spread_validation(*input) is Some,
        r matches Err(e) ==> spread_validation(*input) == Some(err_view(e)),
{
    let zero = Dec::zero();
    let one = Dec::one();
    if input.face_value.le(&zero) {
        return Err(FinError::InvalidInput { field: str_of("face_value"), reason: str_of("Face value must be positive") });
    }
    if input.market_price.le(&zero) {
        return Err(
            FinError::InvalidInput { field: str_of("market_price"), reason: str_of("Market price must be positive") },
        );
    }
    let f = input.coupon_frequency;
    if !(f == 1 || f == 2 || f == 4 || f == 12) {
        return Err(
            FinError::InvalidInput {
                field: str_of("coupon_frequency"),
                reason: str_of("Coupon frequency must be 1, 2, 4, or 12"),
            },
        );
    }
    if input.years_to_maturity.le(&zero) {
        return Err(
            FinError::InvalidInput {
                field: str_of("years_to_maturity"),
                reason: str_of("Years to maturity must be positive"),
            },
        );
    }
    let c = &input.benchmark_curve;
    if c.len() < 2 {
        return Err(FinError::InsufficientData(str_of("Benchmark curve must contain at least 2 points")));
    }
    let mut k: usize = 0;
    while k < c.len() - 1
        invariant
            k + 1 <= c@.len(),
            c@.len() >= 2,
            c@ == input.benchmark_curve@,
            !input.face_value.le_spec(dzero()),
            !input.market_price.le_spec(dzero()),
            valid_frequency(input.coupon_frequency),
            !input.years_to_maturity.le_spec(dzero()),
            curve_unsorted(c@, 0) == curve_unsorted(c@, k as nat),
        decreases c@.len() - k,
    {
        if c[k + 1].maturity.le(&c[k].maturity) {
            assert(curve_unsorted(c@, k as nat));
            return Err(
                FinError::InvalidInput {
                    field: str_of("benchmark_curve"),
                    reason: str_of("Benchmark curve must be sorted ascending by maturity"),
                },
            );
        }
        k = k + 1;
    }
    match input.recovery_rate {
        Some(rr) => {
            if rr.lt(&zero) || rr.gt(&one) {
                return Err(
                    FinError::InvalidInput {
                        field: str_of("recovery_rate"),
                        reason: str_of("Recovery rate must be between 0 and 1"),
                    },
                );
            }
        },
        None => {},
    }
    match input.default_probability {
        Some(pd) => {
            if pd.lt(&zero) || pd.gt(&one) {
                return Err(
                    FinError::InvalidInput {
                        field: str_of("default_probability"),
                        reason: str_of("Default probability must be between 0 and 1"),
                    },
                );
            }
        },
        None => {},
    }
    Ok(())
}

/// `x` rounded to an integer as a `u32`; `default` when negative or too large.
fn round_u32_or(x: Dec, default: u32) -> (r: u32)
    ensures
        r == u32_or(x.round_dp_spec(0), default),
{
    let m = x.round_dp(0).mantissa();
    if m < 0 || m > 0xFFFF_FFFF {
        default
    } else {
        m as u32
    }
}

/// `base` to the power `n`, by repeated multiplication.
fn pow_times(base: Dec, n: u64) -> (r: FinResult<Dec>)
    ensures
        r == lift(mul_times(one(), base, n as nat)),
{
    let mut acc = Dec::one();
    let mut j: u64 = 0;
    while j < n
        invariant
            j <= n,
            mul_times(one(), base, n as nat) == mul_times(acc, base, (n - j) as nat),
        decreases n - j,
    {
        acc = acc.mul(&base)?;
        j = j + 1;
    }
    Ok(acc)
}

proof fn lemma_flows_len(c: Dec, face: Dec, freq: Dec, n: nat, k: nat)
    requires
        spread_flows(c, face, freq, n, k) is Some,
    ensures
        spread_flows(c, face, freq, n, k)->Some_0.len() == k,
    decreases k,
{
    if k > 0 {
        lemma_flows_len(c, face, freq, n, (k - 1) as nat);
    }
}

proof fn lemma_flows_none(c: Dec, face: Dec, freq: Dec, n: nat, k: nat, m: nat)
    requires
        k <= m,
        spread_flows(c, face, freq, n, k) is None,
    ensures
        spread_flows(c, face, freq, n, m) is None,
    decreases m - k,
{
    if k < m {
        lemma_flows_none(c, face, freq, n, k, (m - 1) as nat);
    }
}

/// The coupon and redemption cash flows: (time in years, amount) per period.
fn build_cashflow_schedule(c: Dec, face: Dec, freq: Dec, n: u32) -> (r: FinResult<Vec<(Dec, Dec)>>)
    ensures
        r is Err <==> spread_flows(c, face, freq, n as nat, n as nat) is None,
        r is Err ==> r == Err::<Vec<(Dec, Dec)>, FinError>(FinError::ArithmeticOverflow),
        r matches Ok(v) ==> spread_flows(c, face, freq, n as nat, n as nat) == Some(v@),
{
    let mut out: Vec<(Dec, Dec)> = Vec::new();
    let mut i: u64 = 1;
    while i <= n as u64
        invariant
            1 <= i <= n as u64 + 1,
            spread_flows(c, face, freq, n as nat, (i - 1) as nat) == Some(out@),
        decreases n as u64 + 1 - i,
    {
        let step = match Dec::from_u64(i).div(&freq) {
            Ok(t) => if i == n as u64 {
                match c.add(&face) {
                    Ok(cf) => Ok((t, cf)),
                    Err(e) => Err(e),
                }
            } else {
                Ok((t, c))
            },
            Err(e) => Err(e),
        };
        match step {
            Ok(p) => {
                out.push(p);
            },
            Err(e) => {
                proof {
                    lemma_flows_none(c, face, freq, n as nat, i as nat, n as nat);
                }
                return Err(e);
            },
        }
        i = i + 1;
    }
    Ok(out)
}

/// The price at annual yield `y` (`deriv` false), or its derivative in `y` (`deriv` true),
/// each flow discounted over its rounded number of periods.
fn yield_price_exec(flows: &Vec<(Dec, Dec)>, y: Dec, f: u8, deriv: bool) -> (r: FinResult<Dec>)
    ensures
        r == lift(yield_price(flows@, y, f, deriv)),
{
    let freq = Dec::from_u64(f as u64);
    let opy = Dec::one().add(&y.div(&freq)?)?;
    let mut acc = Dec::zero();
    let mut k: usize = 0;
    while k < flows.len()
        invariant
            k <= flows@.len(),
            freq == Dec::lit(f as int, 0),
            oadd(Some(one()), y.div_spec(freq)) == Some(opy),
            deriv ==> yield_price(flows@, y, f, deriv) == yield_deriv_loop(flows@, freq, opy, k as nat, acc),
            !deriv ==> yield_price(flows@, y, f, deriv) == yield_price_loop(flows@, freq, opy, k as nat, acc),
        decreases flows@.len() - k,
    {
        let (t, cf) = flows[k];
        let p = t.mul(&freq)?;
        let n = round_u32_or(p, 1);
        if deriv {
            let d = pow_times(opy, n as u64 + 1)?;
            if !d.is_zero() {
                acc = acc.sub(&Dec::from_u64(n as u64).div(&freq)?.mul(&cf)?.div(&d)?)?;
            }
        } else {
            let d = pow_times(opy, n as u64)?;
            if !d.is_zero() {
                acc = acc.add(&cf.div(&d)?)?;
            }
        }
        k = k + 1;
    }
    Ok(acc)
}

/// `x` kept within [lo, hi].
fn clamp_exec(x: Dec, lo: Dec, hi: Dec) -> (r: Dec)
    ensures
        r == clamp(x, lo, hi),
{
    if x.lt(&lo) {
        lo
    } else if x.gt(&hi) {
        hi
    } else {
        x
    }
}

/// The yield to maturity by Newton-Raphson from the guess `y0`.
fn solve_ytm(flows: &Vec<(Dec, Dec)>, f: u8, market: Dec, y0: Dec) -> (r: FinResult<Dec>)
    ensures
        match spread_ytm_newton(flows@, f, market, y0, 0) {
            None => r == Err::<Dec, FinError>(FinError::ArithmeticOverflow),
            Some(Ok(y)) => r == Ok::<Dec, FinError>(y),
            Some(Err(t)) => r matches Err(e) && spread_error(e) == (convergence_failure("YTM solver"@, t.0, t.1), t.0, t.1),
        },
{
    let eps = Dec::new(1, 7);
    let lo = Dec::new(-99, 2);
    let hi = Dec::new(50, 1);
    let mut y = y0;
    let mut it: u32 = 0;
    while it < 50
        invariant
            it <= 50,
            eps == Dec::lit(1, 7),
            lo == Dec::lit(-99, 2),
            hi == Dec::lit(50, 1),
            spread_ytm_newton(flows@, f, market, y0, 0) == spread_ytm_newton(flows@, f, market, y, it as nat),
        decreases 50 - it,
    {
        let res = yield_price_exec(flows, y, f, false)?.sub(&market)?;
        if res.abs().lt(&eps) {
            return Ok(y);
        }
        let dp = yield_price_exec(flows, y, f, true)?;
        if dp.is_zero() {
            return Err(
                FinError::ConvergenceFailure { function: str_of("YTM solver"), iterations: it, last_delta: res },
            );
        }
        y = clamp_exec(y.sub(&res.div(&dp)?)?, lo, hi);
        it = it + 1;
    }
    let d = yield_price_exec(flows, y, f, false)?.sub(&market)?;
    Err(FinError::ConvergenceFailure { function: str_of("YTM solver"), iterations: 50, last_delta: d })
}

/// The benchmark rate at `t`, linear between the bracketing points and extended from the
/// first or last two beyond the ends.
pub fn interpolate_rate(c: &Vec<BenchmarkPoint>, t: Dec) -> (r: FinResult<Dec>)
    ensures
        r is Err <==> interp_spec(c@, t) is Err,
        r matches Err(e) ==> interp_spec(c@, t) == Err::<Dec, ErrView>(err_view(e)),
        r matches Err(e) ==> !(e is ConvergenceFailure),
        r matches Ok(x) ==> interp_spec(c@, t) == Ok::<Dec, ErrView>(x),
{
    if c.len() < 2 {
        return Err(FinError::InsufficientData(str_of("Need at least 2 benchmark points for interpolation")));
    }
    let mut idx: usize = 0;
    while idx < c.len() && c[idx].maturity.lt(&t)
        invariant
            idx <= c@.len(),
            first_not_below(c@, t, 0) == first_not_below(c@, t, idx as nat),
        decreases c@.len() - idx,
    {
        idx = idx + 1;
    }
    let n = c.len();
    let (l, r) = if idx == 0 {
        (&c[0], &c[1])
    } else if idx >= n {
        (&c[n - 2], &c[n - 1])
    } else {
        (&c[idx - 1], &c[idx])
    };
    let span = r.maturity.sub(&l.maturity)?;
    if span.is_zero() {
        return Ok(l.rate);
    }
    let w = t.sub(&l.maturity)?.div(&span)?;
    l.rate.add(&w.mul(&r.rate.sub(&l.rate)?)?)
}

/// (1 + r)^t: repeated multiplication for the whole years, times 1 + frac * r for the rest.
fn iterative_discount(r: Dec, t: Dec) -> (res: FinResult<Dec>)
    ensures
        res == lift(idisc_spec(r, t)),
{
    let opr = Dec::one().add(&r)?;
    let whole = t.floor();
    let wm = whole.mantissa();
    let n: u32 = if wm < 0 || wm > 0xFFFF_FFFF {
        0
    } else {
        wm as u32
    };
    let fct = pow_times(opr, n as u64)?;
    let frac = t.sub(&whole)?;
    if frac.gt(&Dec::zero()) {
        fct.mul(&Dec::one().add(&frac.mul(&r)?)?)
    } else {
        Ok(fct)
    }
}

/// The price over the spot curve plus `z` (`deriv` false), or its derivative in `z`.
fn z_price_exec(flows: &Vec<(Dec, Dec)>, c: &Vec<BenchmarkPoint>, z: Dec, deriv: bool) -> (r: FinResult<Dec>)
    ensures
        r is Err <==> z_loop(flows@, c@, z, deriv, 0, dzero()) is Err,
        r matches Err(e) ==> z_loop(flows@, c@, z, deriv, 0, dzero()) == Err::<Dec, ErrView>(err_view(e)),
        r matches Err(e) ==> !(e is ConvergenceFailure),
        r matches Ok(x) ==> z_loop(flows@, c@, z, deriv, 0, dzero()) == Ok::<Dec, ErrView>(x),
{
    let mut acc = Dec::zero();
    let mut k: usize = 0;
    while k < flows.len()
        invariant
            k <= flows@.len(),
            z_loop(flows@, c@, z, deriv, 0, dzero()) == z_loop(flows@, c@, z, deriv, k as nat, acc),
        decreases flows@.len() - k,
    {
        let (t, cf) = flows[k];
        let spot = interpolate_rate(c, t)?;
        let ar = spot.add(&z)?;
        let d = if deriv {
            iterative_discount(ar, t)?.mul(&Dec::one().add(&ar)?)?
        } else {
            iterative_discount(ar, t)?
        };
        if !d.is_zero() {
            acc = if deriv {
                acc.sub(&t.mul(&cf)?.div(&d)?)?
            } else {
                acc.add(&cf.div(&d)?)?
            };
        }
        k = k + 1;
    }
    Ok(acc)
}

/// The Z-spread by Newton-Raphson from `z0`.
fn solve_z_spread(flows: &Vec<(Dec, Dec)>, c: &Vec<BenchmarkPoint>, market: Dec, z0: Dec) -> (r: FinResult<Dec>)
    ensures
        match z_newton(flows@, c@, market, z0, 0) {
            Err(e) => r matches Err(x) && err_view(x) == e && spread_error(x) == plain(e),
            Ok(Ok(z)) => r == Ok::<Dec, FinError>(z),
            Ok(Err(t)) => r matches Err(e) && spread_error(e) == (convergence_failure("Z-spread solver"@, t.0, t.1), t.0, t.1),
        },
{
    let eps = Dec::new(1, 7);
    let lo = Dec::new(-99, 2);
    let hi = Dec::new(50, 1);
    let mut z = z0;
    let mut it: u32 = 0;
    while it < 50
        invariant
            it <= 50,
            eps == Dec::lit(1, 7),
            lo == Dec::lit(-99, 2),
            hi == Dec::lit(50, 1),
            z_newton(flows@, c@, market, z0, 0) == z_newton(flows@, c@, market, z, it as nat),
        decreases 50 - it,
    {
        let res = z_price_exec(flows, c, z, false)?.sub(&market)?;
        if res.abs().lt(&eps) {
            return Ok(z);
        }
        let dz = z_price_exec(flows, c, z, true)?;
        if dz.is_zero() {
            return Err(
                FinError::ConvergenceFailure { function: str_of("Z-spread solver"), iterations: it, last_delta: res },
            );
        }
        z = clamp_exec(z.sub(&res.div(&dz)?)?, lo, hi);
        it = it + 1;
    }
    let d = z_price_exec(flows, c, z, false)?.sub(&market)?;
    Err(FinError::ConvergenceFailure { function: str_of("Z-spread solver"), iterations: 50, last_delta: d })
}

/// Spread duration: (P(z - 1bp) - P(z + 1bp)) / (2 * market price * 1bp).
fn compute_spread_duration(flows: &Vec<(Dec, Dec)>, c: &Vec<BenchmarkPoint>, market: Dec, z: Dec) -> (r: FinResult<Dec>)
    ensures
        r is Err <==> spread_duration_spec(flows@, c@, market, z) is Err,
        r matches Err(e) ==> spread_duration_spec(flows@, c@, market, z) == Err::<Dec, ErrView>(err_view(e)),
        r matches Err(e) ==> !(e is ConvergenceFailure),
        r matches Ok(x) ==> spread_duration_spec(flows@, c@, market, z) == Ok::<Dec, ErrView>(x),
{
    let bp = Dec::new(1, 4);
    let zd = z.sub(&bp)?;
    let zu = z.add(&bp)?;
    let pd = z_price_exec(flows, c, zd, false)?;
    let pu = z_price_exec(flows, c, zu, false)?;
    if market.is_zero() {
        return Err(FinError::DivisionByZero { context: str_of("spread duration denominator (market_price)") });
    }
    let den = Dec::new(2, 0).mul(&market)?.mul(&bp)?;
    if den.is_zero() {
        return Err(FinError::DivisionByZero { context: str_of("spread duration denominator") });
    }
    pd.sub(&pu)?.div(&den)
}

/// I-spread and G-spread over the interpolated benchmark, Z-spread over the spot curve,
/// spread duration, a CDS spread estimate and a credit quality bucket for a fixed-rate bond.
pub fn calculate_credit_spreads(input: &CreditSpreadInput) -> (r: FinResult<ComputationOutput<CreditSpreadOutput>>)
    ensures
        r is Err <==> spreads_spec(*input) is Err,
        r matches Err(e) ==> spreads_spec(*input) == Err::<SpreadFigures, SpreadError>(spread_error(e)),
        r matches Ok(o) ==> {
            let f = spreads_spec(*input)->Ok_0;
            &&& o.methodology@ == "Credit Spreads (I-spread, G-spread, Z-spread, CDS)"@
            &&& o.warnings@.len() == 0
            &&& o.result.ytm == f.ytm
            &&& o.result.benchmark_yield == f.benchmark
            &&& o.result.i_spread == f.i_spread
            &&& o.result.g_spread == f.i_spread
            &&& o.result.z_spread == f.z_spread
            &&& o.result.oas_estimate is None
            &&& o.result.spread_duration == f.spread_duration
            &&& o.result.cds_spread == f.cds
            &&& o.result.credit_quality_indicator@ == credit_quality_spec(f.z_spread)
        },
{
    match validate_input(input) {
        Ok(()) => {},
        Err(e) => {
            return Err(e);
        },
    }
    let freq = Dec::from_u64(input.coupon_frequency as u64);
    let c = input.face_value.mul(&input.coupon_rate)?.div(&freq)?;
    let total = input.years_to_maturity.mul(&freq)?;
    let r0 = round_u32_or(total, 1);
    let n: u32 = if r0 == 0 {
        1
    } else {
        r0
    };
    let flows = build_cashflow_schedule(c, input.face_value, freq, n)?;
    let guess = input.coupon_rate.add(
        &input.face_value.sub(&input.market_price)?.div(&input.face_value.mul(&input.years_to_maturity)?)?,
    )?;
    let ytm = solve_ytm(&flows, input.coupon_frequency, input.market_price, clamp_exec(guess, Dec::new(-50, 2), Dec::new(20, 1)))?;
    let curve = &input.benchmark_curve;
    let by = interpolate_rate(curve, input.years_to_maturity)?;
    let isp = ytm.sub(&by)?;
    let z0 = guess.sub(&by)?;
    let z = solve_z_spread(&flows, curve, input.market_price, clamp_exec(z0, Dec::new(-50, 2), Dec::new(20, 1)))?;
    let sd = compute_spread_duration(&flows, curve, input.market_price, z)?;
    let cds = match input.default_probability {
        Some(pd) => {
            let rec = match input.recovery_rate {
                Some(rr) => rr,
                None => Dec::new(40, 2),
            };
            Some(Dec::one().sub(&rec)?.mul(&pd)?)
        },
        None => None,
    };
    Ok(
        ComputationOutput {
            methodology: str_of("Credit Spreads (I-spread, G-spread, Z-spread, CDS)"),
            warnings: Vec::new(),
            result: CreditSpreadOutput {
                i_spread: isp,
                g_spread: isp,
                z_spread: z,
                oas_estimate: None,
                ytm,
                benchmark_yield: by,
                spread_duration: sd,
                cds_spread: cds,
                credit_quality_indicator: classify_credit_quality(z),
            },
        },
    )
}

} // verus!
