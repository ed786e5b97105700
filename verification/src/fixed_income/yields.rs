//! Yield analytics: a spot curve bootstrapped from par instruments, with forward rates and
//! discount factors, on decimal power, exponential and logarithm routines.
use vstd::prelude::*;

use crate::dec::{dzero, group_dec, lift, nat_digits, oadd, odiv, omul, osub, Dec};
use crate::error::{
    convergence_failure, division_by_zero, err_view, financial_impossibility, insufficient_data, invalid_input, ov,
    overflow, res_view, ErrView, FinError, FinResult,
};
use crate::types::ComputationOutput;

verus! {

broadcast use group_dec;

/// Output of bond yield calculation.
pub struct BondYieldOutput {
    /// Yield to maturity (annualized).
    pub ytm: Dec,
    /// Annual coupon / market price.
    pub current_yield: Dec,
    /// Bond equivalent yield = 2 * semi-annual rate.
    pub bey: Dec,
    /// (1 + periodic)^freq - 1.
    pub effective_annual_yield: Dec,
    /// Whether the bond trades at premium, discount, or par.
    pub discount_or_premium: String,
}

/// Input for bond yield calculation.
pub struct BondYieldInput {
    /// Face (par) value of the bond.
    pub face_value: Dec,
    /// Annual coupon rate (0.05 = 5%).
    pub coupon_rate: Dec,
    /// Coupon payments per year (1, 2, 4 or 12).
    pub coupon_frequency: u8,
    /// Market (dirty) price of the bond.
    pub market_price: Dec,
    /// Years remaining until maturity.
    pub years_to_maturity: Dec,
    /// Only compute the current yield and skip the Newton-Raphson solve.
    pub current_yield_only: bool,
}

/// A par-rate instrument for bootstrapping.
pub struct ParInstrument {
    pub maturity_years: Dec,
    /// Par (coupon) rate.
    pub par_rate: Dec,
    /// Coupon payments per year.
    pub coupon_frequency: u8,
}

pub struct BootstrapInput {
    /// Par instruments sorted ascending by maturity; at least two.
    pub par_instruments: Vec<ParInstrument>,
}

pub struct SpotRate {
    pub maturity: Dec,
    pub rate: Dec,
}

pub struct ForwardRate {
    pub start: Dec,
    pub end: Dec,
    pub rate: Dec,
}

pub struct DiscountFactor {
    pub maturity: Dec,
    pub factor: Dec,
}

pub struct SpotCurveOutput {
    pub spot_rates: Vec<SpotRate>,
    pub forward_rates: Vec<ForwardRate>,
    pub discount_factors: Vec<DiscountFactor>,
}

/// An observed market rate at a tenor.
pub struct ObservedRate {
    pub maturity: Dec,
    pub rate: Dec,
}

/// Input for Nelson-Siegel curve fitting.
pub struct NelsonSiegelInput {
    /// Observed market rates; at least three.
    pub observed_rates: Vec<ObservedRate>,
    /// Decay parameter lambda; one when absent.
    pub initial_lambda: Option<Dec>,
}

/// A fitted rate with its residual.
pub struct FittedRate {
    pub maturity: Dec,
    pub fitted: Dec,
    pub observed: Dec,
    pub error: Dec,
}

/// Output of Nelson-Siegel curve fitting.
pub struct NelsonSiegelOutput {
    /// Long-term level.
    pub beta0: Dec,
    /// Short-term component.
    pub beta1: Dec,
    /// Medium-term hump.
    pub beta2: Dec,
    /// Decay factor.
    pub lambda: Dec,
    pub fitted_rates: Vec<FittedRate>,
    /// Root mean square error of the fit.
    pub rmse: Dec,
}

/// The normal equations (X^T X) beta = X^T y of the three-factor least-squares fit.
pub struct NsNormal {
    pub a11: Dec,
    pub a12: Dec,
    pub a13: Dec,
    pub a22: Dec,
    pub a23: Dec,
    pub a33: Dec,
    pub b1: Dec,
    pub b2: Dec,
    pub b3: Dec,
}

// ---------------------------------------------------------------------------
// Specification: decimal routines
// ---------------------------------------------------------------------------

/// Most halvings (or doublings) of the logarithm's range reduction; no representable value
/// needs this many.
pub const REDUCTION_CAP: u32 = 256;

pub open spec fn one() -> Dec {
    Dec::lit(1, 0)
}

/// `d` rounded half to even to an integer, as a `u32`; zero when negative or too large.
pub open spec fn to_u32_spec(d: Dec) -> u32 {
    let r = d.round_dp_spec(0);
    if r.lt_spec(dzero()) || r.m() > u32::MAX {
        0
    } else {
        r.m() as u32
    }
}

/// Taylor terms `k` to 14 of exp(x): `term *= x / k; sum += term`.
pub open spec fn exp_terms(x: Dec, k: nat, term: Dec, sum: Dec) -> Option<Dec>
    decreases 15 - k,
{
    if k >= 15 {
        Some(sum)
    } else {
        match omul(Some(term), x.div_spec(Dec::lit(k as int, 0))) {
            Some(t) => match sum.add_spec(t) {
                Some(s) => exp_terms(x, k + 1, t, s),
                None => None,
            },
            None => None,
        }
    }
}

/// exp(x) by fifteen Taylor terms, floored at zero.
pub open spec fn exp_spec(x: Dec) -> Option<Dec> {
    match exp_terms(x, 1, one(), one()) {
        Some(s) => if s.lt_spec(dzero()) {
            Some(dzero())
        } else {
            Some(s)
        },
        None => None,
    }
}

/// Halve `val` while it exceeds 2 (at most `fuel` times), counting the halvings.
pub open spec fn ln_halve(val: Dec, k: int, fuel: nat) -> Option<(Dec, int)>
    decreases fuel,
{
    if fuel == 0 || !val.gt_spec(Dec::lit(20, 1)) {
        Some((val, k))
    } else {
        match val.div_spec(Dec::lit(2, 0)) {
            Some(v) => ln_halve(v, k + 1, (fuel - 1) as nat),
            None => None,
        }
    }
}

/// Double `val` while it is below 0.5 (at most `fuel` times), counting down.
pub open spec fn ln_double(val: Dec, k: int, fuel: nat) -> Option<(Dec, int)>
    decreases fuel,
{
    if fuel == 0 || !val.lt_spec(Dec::lit(5, 1)) {
        Some((val, k))
    } else {
        match val.mul_spec(Dec::lit(2, 0)) {
            Some(v) => ln_double(v, k - 1, (fuel - 1) as nat),
            None => None,
        }
    }
}

/// Series terms `n` to 19 of ln: `term *= u^2; result += term / (2n + 1)`.
pub open spec fn ln_series(u_sq: Dec, n: nat, term: Dec, result: Dec) -> Option<Dec>
    decreases 20 - n,
{
    if n >= 20 {
        Some(result)
    } else {
        match term.mul_spec(u_sq) {
            Some(t) => match oadd(
                Some(result),
                omul(one().div_spec(Dec::lit((2 * n + 1) as int, 0)), Some(t)),
            ) {
                Some(r) => ln_series(u_sq, n + 1, t, r),
                None => None,
            },
            None => None,
        }
    }
}

/// `2 * series + k * ln 2`.
pub open spec fn ln_combine(series: Option<Dec>, k: int) -> Option<Dec> {
    match series {
        None => None,
        Some(s) => oadd(s.mul_spec(Dec::lit(2, 0)), Dec::lit(k, 0).mul_spec(Dec::lit(6931471805599453, 16))),
    }
}

/// ln(val * 2^k) for `val` in [0.5, 2]: the series in u = (val - 1) / (val + 1).
pub open spec fn ln_finish(val: Dec, k: int) -> Option<Dec> {
    match odiv(val.sub_spec(one()), val.add_spec(one())) {
        None => None,
        Some(u) => match u.mul_spec(u) {
            None => None,
            Some(u_sq) => ln_combine(ln_series(u_sq, 1, u, u), k),
        },
    }
}

pub open spec fn ln_after_double(d: Option<(Dec, int)>) -> Option<Dec> {
    match d {
        None => None,
        Some(d) => ln_finish(d.0, d.1),
    }
}

pub open spec fn ln_after_halve(h: Option<(Dec, int)>) -> Option<Dec> {
    match h {
        None => None,
        Some(h) => ln_after_double(ln_double(h.0, h.1, REDUCTION_CAP as nat)),
    }
}

/// ln(x) by the series 2 * sum u^(2n+1) / (2n+1), u = (v - 1) / (v + 1), after bringing
/// x into [0.5, 2] by powers of two; zero for x <= 0 and for x == 1.
pub open spec fn ln_spec(x: Dec) -> Option<Dec> {
    if x.le_spec(dzero()) || x.eq_spec(one()) {
        Some(dzero())
    } else {
        ln_after_halve(ln_halve(x, 0, REDUCTION_CAP as nat))
    }
}

/// `base` multiplied into `acc` `n` times.
pub open spec fn mul_times(acc: Dec, base: Dec, n: nat) -> Option<Dec>
    decreases n,
{
    if n == 0 {
        Some(acc)
    } else {
        match acc.mul_spec(base) {
            Some(a) => mul_times(a, base, (n - 1) as nat),
            None => None,
        }
    }
}

/// `r` times exp(frac * ln base) when `frac` is positive.
pub open spec fn ipow_rest(r: Option<Dec>, frac: Dec, base: Dec) -> Option<Dec> {
    match r {
        None => None,
        Some(r) => if frac.gt_spec(dzero()) {
            match ln_spec(base) {
                None => None,
                Some(l) => match frac.mul_spec(l) {
                    None => None,
                    Some(p) => match exp_spec(p) {
                        None => None,
                        Some(fp) => r.mul_spec(fp),
                    },
                },
            }
        } else {
            Some(r)
        },
    }
}

/// base^e: repeated multiplication for the rounded integer part, times exp(f * ln base)
/// for a positive remainder f; one for e == 0 or base == 1, zero for base == 0.
pub open spec fn ipow_spec(base: Dec, e: Dec) -> Option<Dec> {
    if e.is_zero_spec() {
        Some(one())
    } else if base.is_zero_spec() {
        Some(dzero())
    } else if base.eq_spec(one()) {
        Some(one())
    } else {
        let n = to_u32_spec(e);
        match e.sub_spec(Dec::lit(n as int, 0)) {
            None => None,
            Some(frac) => ipow_rest(mul_times(one(), base, n as nat), frac, base),
        }
    }
}

/// base^e as exp(e * ln base); one for e == 0 or base == 1, zero for base <= 0.
pub open spec fn fpow_spec(base: Dec, e: Dec) -> Option<Dec> {
    if e.is_zero_spec() {
        Some(one())
    } else if base.is_zero_spec() {
        Some(dzero())
    } else if base.eq_spec(one()) {
        Some(one())
    } else if base.le_spec(dzero()) {
        Some(dzero())
    } else {
        match ln_spec(base) {
            None => None,
            Some(l) => match e.mul_spec(l) {
                None => None,
                Some(p) => exp_spec(p),
            },
        }
    }
}

// ---------------------------------------------------------------------------
// Specification: bootstrap
// ---------------------------------------------------------------------------

/// The spot rate at `t`: flat beyond the ends, linear between the first bracketing pair.
pub open spec fn interp_rate(t: Dec, spots: Seq<SpotRate>) -> Option<Dec> {
    if t.le_spec(spots[0].maturity) {
        Some(spots[0].rate)
    } else if t.ge_spec(spots.last().maturity) {
        Some(spots.last().rate)
    } else {
        let k = bracket(t, spots, 0);
        let (lo, hi) = if k < spots.len() - 1 {
            (spots[k as int], spots[(k + 1) as int])
        } else {
            (spots[0], spots[0])
        };
        match hi.maturity.sub_spec(lo.maturity) {
            None => None,
            Some(dt) => if dt.is_zero_spec() {
                Some(lo.rate)
            } else {
                let w = odiv(t.sub_spec(lo.maturity), Some(dt));
                oadd(Some(lo.rate), omul(w, hi.rate.sub_spec(lo.rate)))
            },
        }
    }
}

/// Index of the first pair `(spots[k], spots[k+1])` with `spots[k] <= t <= spots[k+1]`
/// from `k` on (`spots.len() - 1` when there is none).
pub open spec fn bracket(t: Dec, spots: Seq<SpotRate>, k: nat) -> nat
    decreases spots.len() - k,
{
    if k + 1 >= spots.len() {
        if spots.len() > 0 {
            (spots.len() - 1) as nat
        } else {
            0
        }
    } else if spots[k as int].maturity.le_spec(t) && spots[(k + 1) as int].maturity.ge_spec(t) {
        k
    } else {
        bracket(t, spots, k + 1)
    }
}

/// The discount factor at `t` from the spot curve so far.
pub open spec fn interp_df(t: Dec, spots: Seq<SpotRate>, freq: Dec) -> Result<Dec, ErrView> {
    if spots.len() == 0 {
        Err(insufficient_data("No spot rates available for interpolation"@))
    } else {
        match interp_rate(t, spots) {
            None => Err(overflow()),
            Some(spot) => match (t.mul_spec(freq), oadd(Some(one()), spot.div_spec(freq))) {
                (Some(n), Some(base)) => match ipow_spec(base, n) {
                    None => Err(overflow()),
                    Some(c) => if c.is_zero_spec() {
                        Err(division_by_zero("interpolated discount factor"@))
                    } else {
                        ov(one().div_spec(c))
                    },
                },
                _ => Err(overflow()),
            },
        }
    }
}

/// Newton steps on `(1 + s)^n = target` from step `it` of 50; a non-positive `1 + s`
/// restarts from 0.001, `s` is clamped to [-0.5, 2]. The annualised rate `s * freq`.
pub open spec fn spot_iter(s: Dec, n: Dec, target: Dec, freq: Dec, it: nat) -> Option<Dec>
    decreases 50 - it,
{
    if it >= 50 {
        s.mul_spec(freq)
    } else {
        match one().add_spec(s) {
            None => None,
            Some(base) => if base.le_spec(dzero()) {
                spot_iter(Dec::lit(1, 3), n, target, freq, it + 1)
            } else {
                let f = osub(ipow_spec(base, n), Some(target));
                let d = match n.sub_spec(one()) {
                    Some(n1) => omul(Some(n), ipow_spec(base, n1)),
                    None => None,
                };
                match (f, d) {
                    (Some(f), Some(d)) => if f.abs_spec().lt_spec(Dec::lit(1, 7)) {
                        s.mul_spec(freq)
                    } else if d.is_zero_spec() {
                        s.mul_spec(freq)
                    } else {
                        match osub(Some(s), f.div_spec(d)) {
                            None => None,
                            Some(s2) => {
                                let s3 = if s2.lt_spec(Dec::lit(-5, 1)) {
                                    Dec::lit(-5, 1)
                                } else if s2.gt_spec(Dec::lit(20, 1)) {
                                    Dec::lit(20, 1)
                                } else {
                                    s2
                                };
                                spot_iter(s3, n, target, freq, it + 1)
                            },
                        }
                    },
                    _ => None,
                }
            },
        }
    }
}

/// The spot rate whose compounding over `n` periods gives the discount factor `df`.
pub open spec fn spot_from_df(df: Dec, n: Dec, freq: Dec) -> Option<Dec> {
    match one().div_spec(df) {
        None => None,
        Some(inv) => {
            let k = to_u32_spec(n);
            let init = if k > 0 {
                odiv(inv.sub_spec(one()), Some(Dec::lit(k as int, 0)))
            } else {
                Some(Dec::lit(2, 2))
            };
            match init {
                Some(s) => spot_iter(s, n, inv, freq, 0),
                None => None,
            }
        },
    }
}

/// Present value of the intermediate coupons at the known spot rates: periods `p` to
/// `count` of length `len`, the time of period `p` being `time`.
pub open spec fn known_coupons(spots: Seq<SpotRate>, freq: Dec, periodic: Dec, len: Dec, p: nat, count: nat, time: Dec, pv: Dec) -> Result<Dec, ErrView>
    decreases count - p,
{
    if p >= count {
        Ok(pv)
    } else {
        match interp_df(time, spots, freq) {
            Err(e) => Err(e),
            Ok(df) => match (oadd(Some(pv), periodic.mul_spec(df)), time.add_spec(len)) {
                (Some(pv2), Some(t2)) => known_coupons(spots, freq, periodic, len, p + 1, count, t2, pv2),
                _ => Err(overflow()),
            },
        }
    }
}

pub open spec fn negative_df_message(m: Dec) -> Seq<char> {
    "Negative discount factor at maturity "@ + m.display_spec() + " years"@
}

/// The spot rate and discount factor of instrument `idx`, from the curve so far.
pub open spec fn instrument_spec(inst: ParInstrument, idx: nat, spots: Seq<SpotRate>) -> Result<(Dec, Dec), ErrView> {
    let freq = Dec::lit(inst.coupon_frequency as int, 0);
    match (inst.par_rate.div_spec(freq), inst.maturity_years.mul_spec(freq)) {
        (Some(periodic), Some(n)) => if idx == 0 {
            let spot = inst.par_rate;
            match oadd(Some(one()), spot.div_spec(freq)) {
                None => Err(overflow()),
                Some(base) => match ipow_spec(base, n) {
                    None => Err(overflow()),
                    Some(c) => match one().div_spec(c) {
                        None => Err(overflow()),
                        Some(df) => Ok((spot, df)),
                    },
                },
            }
        } else {
            match one().div_spec(freq) {
                None => Err(overflow()),
                Some(len) => {
                    let k = to_u32_spec(n);
                    if k == 0 {
                        Err(overflow())
                    } else {
                        match known_coupons(spots, freq, periodic, len, 0, (k - 1) as nat, len, dzero()) {
                            Err(e) => Err(e),
                            Ok(pv) => match periodic.add_spec(one()) {
                                None => Err(overflow()),
                                Some(fp) => if fp.is_zero_spec() {
                                    Err(division_by_zero("bootstrap final payment"@))
                                } else {
                                    match odiv(one().sub_spec(pv), Some(fp)) {
                                        None => Err(overflow()),
                                        Some(df) => if df.le_spec(dzero()) {
                                            Err(financial_impossibility(negative_df_message(inst.maturity_years)))
                                        } else {
                                            match spot_from_df(df, n, freq) {
                                                None => Err(overflow()),
                                                Some(spot) => Ok((spot, df)),
                                            }
                                        },
                                    }
                                },
                            },
                        }
                    }
                },
            }
        },
        _ => Err(overflow()),
    }
}

/// Spot rates and discount factors of the first `k` instruments.
pub open spec fn curve_spec(insts: Seq<ParInstrument>, k: nat) -> Result<(Seq<SpotRate>, Seq<DiscountFactor>), ErrView>
    decreases k,
{
    if k == 0 {
        Ok((Seq::empty(), Seq::empty()))
    } else {
        match curve_spec(insts, (k - 1) as nat) {
            Err(e) => Err(e),
            Ok(c) => {
                let inst = insts[k - 1];
                match instrument_spec(inst, (k - 1) as nat, c.0) {
                    Err(e) => Err(e),
                    Ok(r) => Ok(
                        (
                            c.0.push(SpotRate { maturity: inst.maturity_years, rate: r.0 }),
                            c.1.push(DiscountFactor { maturity: inst.maturity_years, factor: r.1 }),
                        ),
                    ),
                }
            },
        }
    }
}

pub open spec fn forward_message(t: Dec) -> Seq<char> {
    "forward rate compound factor at t="@ + t.display_spec()
}

/// The forward rate between spot rates `s1` and `s2`; `Ok(None)` when `s2` is not later.
pub open spec fn forward_spec(s1: SpotRate, s2: SpotRate) -> Result<Option<Dec>, ErrView> {
    match s2.maturity.sub_spec(s1.maturity) {
        None => Err(overflow()),
        Some(dt) => if dt.le_spec(dzero()) {
            Ok(None)
        } else {
            let c2 = match one().add_spec(s2.rate) {
                Some(b) => fpow_spec(b, s2.maturity),
                None => None,
            };
            let c1 = match one().add_spec(s1.rate) {
                Some(b) => fpow_spec(b, s1.maturity),
                None => None,
            };
            match (c2, c1) {
                (Some(c2), Some(c1)) => if c1.is_zero_spec() {
                    Err(division_by_zero(forward_message(s1.maturity)))
                } else {
                    match (c2.div_spec(c1), one().div_spec(dt)) {
                        (Some(ratio), Some(inv)) => match fpow_spec(ratio, inv) {
                            Some(p) => match p.sub_spec(one()) {
                                Some(f) => Ok(Some(f)),
                                None => Err(overflow()),
                            },
                            None => Err(overflow()),
                        },
                        _ => Err(overflow()),
                    }
                },
                _ => Err(overflow()),
            }
        },
    }
}

/// Forward rates between consecutive spot rates up to index `k`.
pub open spec fn forwards_spec(spots: Seq<SpotRate>, k: nat) -> Result<Seq<ForwardRate>, ErrView>
    decreases k,
{
    if k <= 1 {
        Ok(Seq::empty())
    } else {
        match forwards_spec(spots, (k - 1) as nat) {
            Err(e) => Err(e),
            Ok(fs) => {
                let s1 = spots[k - 2];
                let s2 = spots[k - 1];
                match forward_spec(s1, s2) {
                    Err(e) => Err(e),
                    Ok(None) => Ok(fs),
                    Ok(Some(f)) => Ok(fs.push(ForwardRate { start: s1.maturity, end: s2.maturity, rate: f })),
                }
            },
        }
    }
}

pub open spec fn valid_frequency(f: u8) -> bool {
    f == 1 || f == 2 || f == 4 || f == 12
}

/// Index of the first instrument not after its predecessor.
pub open spec fn first_unsorted(s: Seq<ParInstrument>, k: nat) -> Option<nat>
    decreases s.len() - k,
{
    if k + 1 >= s.len() {
        None
    } else if s[(k + 1) as int].maturity_years.le_spec(s[k as int].maturity_years) {
        Some(k)
    } else {
        first_unsorted(s, k + 1)
    }
}

pub open spec fn instrument_error(inst: ParInstrument) -> Option<ErrView> {
    if inst.maturity_years.le_spec(dzero()) {
        Some(invalid_input("maturity_years"@, "Maturity must be positive"@))
    } else if !valid_frequency(inst.coupon_frequency) {
        Some(invalid_input("coupon_frequency"@, "Coupon frequency must be 1, 2, 4, or 12"@))
    } else {
        None
    }
}

/// The error of the first instrument that raises one, from index `k` on.
pub open spec fn instruments_error(s: Seq<ParInstrument>, k: nat) -> Option<ErrView>
    decreases s.len() - k,
{
    if k >= s.len() {
        None
    } else if instrument_error(s[k as int]) is Some {
        instrument_error(s[k as int])
    } else {
        instruments_error(s, k + 1)
    }
}

pub open spec fn bootstrap_validation(i: BootstrapInput) -> Option<ErrView> {
    let s = i.par_instruments@;
    if s.len() < 2 {
        Some(insufficient_data("Bootstrap requires at least 2 par instruments"@))
    } else if first_unsorted(s, 0) is Some {
        Some(invalid_input("par_instruments"@, "Par instruments must be sorted ascending by maturity"@))
    } else {
        instruments_error(s, 0)
    }
}

/// The bootstrapped curve: spot rates, forward rates and discount factors.
pub open spec fn bootstrap_spec(i: BootstrapInput) -> Result<(Seq<SpotRate>, Seq<ForwardRate>, Seq<DiscountFactor>), ErrView> {
    match bootstrap_validation(i) {
        Some(e) => Err(e),
        None => match curve_spec(i.par_instruments@, i.par_instruments@.len()) {
            Err(e) => Err(e),
            Ok(c) => match forwards_spec(c.0, c.0.len()) {
                Err(e) => Err(e),
                Ok(fs) => Ok((c.0, fs, c.1)),
            },
        },
    }
}

// ---------------------------------------------------------------------------
// Implementation: decimal routines
// ---------------------------------------------------------------------------

/// `d` rounded half to even to an integer, as a `u32`; zero when negative or too large.
pub fn decimal_to_u32(d: Dec) -> (r: u32)
    ensures
        r == to_u32_spec(d),
{
    let rounded = d.round_dp(0);
    if rounded.lt(&Dec::zero()) {
        return 0;
    }
    let m = rounded.mantissa();
    if m > 0xFFFF_FFFF {
        0
    } else {
        m as u32
    }
}

/// exp(x) by fifteen Taylor terms, floored at zero.
pub fn exp_decimal(x: Dec) -> (r: FinResult<Dec>)
    ensures
        r == lift(exp_spec(x)),
{
    let mut result = Dec::one();
    let mut term = Dec::one();
    let mut k: u64 = 1;
    while k < 15
        invariant
            1 <= k <= 15,
            exp_terms(x, 1, one(), one()) == exp_terms(x, k as nat, term, result),
        decreases 15 - k,
    {
        term = term.mul(&x.div(&Dec::from_u64(k))?)?;
        result = result.add(&term)?;
        k = k + 1;
    }
    if result.lt(&Dec::zero()) {
        Ok(Dec::zero())
    } else {
        Ok(result)
    }
}

/// ln(x) by an odd-power series after range reduction by powers of two; zero for x <= 0
/// and for x == 1.
pub fn ln_decimal(x: Dec) -> (r: FinResult<Dec>)
    ensures
        r == lift(ln_spec(x)),
{
    let one = Dec::one();
    let two = Dec::new(2, 0);
    if x.le(&Dec::zero()) || x.eq(&one) {
        return Ok(Dec::zero());
    }
    let mut val = x;
    let mut k: i64 = 0;
    let mut c: u32 = 0;
    let hi = Dec::new(20, 1);
    let lo = Dec::new(5, 1);
    while c < REDUCTION_CAP && val.gt(&hi)
        invariant
            c <= REDUCTION_CAP,
            k == c,
            two == Dec::lit(2, 0),
            hi == Dec::lit(20, 1),
            ln_spec(x) == ln_after_halve(ln_halve(val, k as int, (REDUCTION_CAP - c) as nat)),
        decreases REDUCTION_CAP - c,
    {
        val = val.div(&two)?;
        k = k + 1;
        c = c + 1;
    }
    let mut d: u32 = 0;
    while d < REDUCTION_CAP && val.lt(&lo)
        invariant
            d <= REDUCTION_CAP,
            -(d as int) <= k,
            k <= REDUCTION_CAP - d,
            two == Dec::lit(2, 0),
            lo == Dec::lit(5, 1),
            ln_spec(x) == ln_after_double(ln_double(val, k as int, (REDUCTION_CAP - d) as nat)),
        decreases REDUCTION_CAP - d,
    {
        val = val.mul(&two)?;
        k = k - 1;
        d = d + 1;
    }
    let u = val.sub(&one)?.div(&val.add(&one)?)?;
    let u_sq = u.mul(&u)?;
    let mut term = u;
    let mut result = u;
    let mut n: u64 = 1;
    while n < 20
        invariant
            1 <= n <= 20,
            one == Dec::lit(1, 0),
            -256 <= k <= 256,
            ln_spec(x) == ln_combine(ln_series(u_sq, n as nat, term, result), k as int),
        decreases 20 - n,
    {
        term = term.mul(&u_sq)?;
        let coeff = one.div(&Dec::from_u64(2 * n + 1))?;
        result = result.add(&coeff.mul(&term)?)?;
        n = n + 1;
    }
    let kd = Dec::from_int(k);
    result.mul(&two)?.add(&kd.mul(&Dec::new(6931471805599453, 16))?)
}

/// base^e: repeated multiplication for the rounded integer part of e, times
/// exp(remainder * ln base) when the remainder is positive.
pub fn iterative_pow(base: Dec, exponent: Dec) -> (r: FinResult<Dec>)
    ensures
        r == lift(ipow_spec(base, exponent)),
{
    if exponent.is_zero() {
        return Ok(Dec::one());
    }
    if base.is_zero() {
        return Ok(Dec::zero());
    }
    if base.eq(&Dec::one()) {
        return Ok(Dec::one());
    }
    let n = decimal_to_u32(exponent);
    let frac = exponent.sub(&Dec::from_u64(n as u64))?;
    let mut result = Dec::one();
    let mut j: u32 = 0;
    while j < n
        invariant
            j <= n,
            ipow_spec(base, exponent) == ipow_rest(mul_times(result, base, (n - j) as nat), frac, base),
        decreases n - j,
    {
        result = result.mul(&base)?;
        j = j + 1;
    }
    if frac.gt(&Dec::zero()) {
        let l = ln_decimal(base)?;
        let fp = exp_decimal(frac.mul(&l)?)?;
        result = result.mul(&fp)?;
    }
    Ok(result)
}

/// base^e as exp(e * ln base); zero for a non-positive base.
pub fn iterative_pow_fractional(base: Dec, exponent: Dec) -> (r: FinResult<Dec>)
    ensures
        r == lift(fpow_spec(base, exponent)),
{
    if exponent.is_zero() {
        return Ok(Dec::one());
    }
    if base.is_zero() {
        return Ok(Dec::zero());
    }
    if base.eq(&Dec::one()) {
        return Ok(Dec::one());
    }
    if base.le(&Dec::zero()) {
        return Ok(Dec::zero());
    }
    let l = ln_decimal(base)?;
    exp_decimal(exponent.mul(&l)?)
}

// ---------------------------------------------------------------------------
// Implementation: bootstrap
// ---------------------------------------------------------------------------

fn str_of(s: &str) -> (r: String)
    ensures
        r@ == s@,
{
    String::from_str(s)
}

proof fn lemma_bracket(t: Dec, spots: Seq<SpotRate>, k: nat, j: nat)
    requires
        k <= j,
        j + 1 <= spots.len(),
        forall|q: int|
            k <= q < j ==> !((#[trigger] spots[q]).maturity.le_spec(t) && spots[q + 1].maturity.ge_spec(t)),
    ensures
        j + 1 < spots.len() && spots[j as int].maturity.le_spec(t) && spots[(j + 1) as int].maturity.ge_spec(t)
            ==> bracket(t, spots, k) == j,
        j + 1 == spots.len() ==> bracket(t, spots, k) == spots.len() - 1,
    decreases j - k,
{
    if k < j {
        lemma_bracket(t, spots, k + 1, j);
    }
}

fn interp_rate_exec(t: Dec, spots: &Vec<SpotRate>) -> (r: FinResult<Dec>)
    requires
        spots@.len() > 0,
    ensures
        r == lift(interp_rate(t, spots@)),
{
    let n = spots.len();
    if t.le(&spots[0].maturity) {
        return Ok(spots[0].rate);
    }
    if t.ge(&spots[n - 1].maturity) {
        return Ok(spots[n - 1].rate);
    }
    let mut k: usize = 0;
    while k + 1 < n && !(spots[k].maturity.le(&t) && spots[k + 1].maturity.ge(&t))
        invariant
            k + 1 <= n,
            n == spots@.len(),
            forall|q: int|
                0 <= q < k ==> !((#[trigger] spots@[q]).maturity.le_spec(t) && spots@[q + 1].maturity.ge_spec(t)),
        decreases n - k,
    {
        k = k + 1;
    }
    proof {
        lemma_bracket(t, spots@, 0, k as nat);
    }
    let (lo_m, lo_r, hi_m, hi_r) = if k + 1 < n {
        (spots[k].maturity, spots[k].rate, spots[k + 1].maturity, spots[k + 1].rate)
    } else {
        (spots[0].maturity, spots[0].rate, spots[0].maturity, spots[0].rate)
    };
    let dt = hi_m.sub(&lo_m)?;
    if dt.is_zero() {
        Ok(lo_r)
    } else {
        let w = t.sub(&lo_m)?.div(&dt)?;
        lo_r.add(&w.mul(&hi_r.sub(&lo_r)?)?)
    }
}

fn interpolate_discount_factor(t: Dec, spots: &Vec<SpotRate>, freq: Dec) -> (r: FinResult<Dec>)
    ensures
        res_view(r) == interp_df(t, spots@, freq),
{
    if spots.len() == 0 {
        return Err(FinError::InsufficientData(str_of("No spot rates available for interpolation")));
    }
    let spot = interp_rate_exec(t, spots)?;
    let n = t.mul(&freq)?;
    let base = Dec::one().add(&spot.div(&freq)?)?;
    let c = iterative_pow(base, n)?;
    if c.is_zero() {
        return Err(FinError::DivisionByZero { context: str_of("interpolated discount factor") });
    }
    Dec::one().div(&c)
}

fn solve_spot_from_df(df: Dec, n: Dec, freq: Dec) -> (r: FinResult<Dec>)
    ensures
        r == lift(spot_from_df(df, n, freq)),
{
    let one = Dec::one();
    let inv = one.div(&df)?;
    let k = decimal_to_u32(n);
    let mut s = if k > 0 {
        inv.sub(&one)?.div(&Dec::from_u64(k as u64))?
    } else {
        Dec::new(2, 2)
    };
    let mut it: u32 = 0;
    while it < 50
        invariant
            it <= 50,
            one == Dec::lit(1, 0),
            spot_from_df(df, n, freq) == spot_iter(s, n, inv, freq, it as nat),
        decreases 50 - it,
    {
        let base = one.add(&s)?;
        if base.le(&Dec::zero()) {
            s = Dec::new(1, 3);
        } else {
            let f = iterative_pow(base, n)?.sub(&inv)?;
            let d = n.mul(&iterative_pow(base, n.sub(&one)?)?)?;
            if f.abs().lt(&Dec::new(1, 7)) {
                return s.mul(&freq);
            }
            if d.is_zero() {
                return s.mul(&freq);
            }
            let s2 = s.sub(&f.div(&d)?)?;
            s = if s2.lt(&Dec::new(-5, 1)) {
                Dec::new(-5, 1)
            } else if s2.gt(&Dec::new(20, 1)) {
                Dec::new(20, 1)
            } else {
                s2
            };
        }
        it = it + 1;
    }
    s.mul(&freq)
}

fn known_coupons_exec(spots: &Vec<SpotRate>, freq: Dec, periodic: Dec, len: Dec, count: u32) -> (r: FinResult<Dec>)
    ensures
        res_view(r) == known_coupons(spots@, freq, periodic, len, 0, count as nat, len, dzero()),
{
    let mut pv = Dec::zero();
    let mut time = len;
    let mut p: u32 = 0;
    while p < count
        invariant
            p <= count,
            known_coupons(spots@, freq, periodic, len, 0, count as nat, len, dzero())
                == known_coupons(spots@, freq, periodic, len, p as nat, count as nat, time, pv),
        decreases count - p,
    {
        let df = interpolate_discount_factor(time, spots, freq)?;
        pv = pv.add(&periodic.mul(&df)?)?;
        time = time.add(&len)?;
        p = p + 1;
    }
    Ok(pv)
}

fn instrument_exec(inst: &ParInstrument, idx: usize, spots: &Vec<SpotRate>) -> (r: FinResult<(Dec, Dec)>)
    ensures
        res_view(r) == instrument_spec(*inst, idx as nat, spots@),
{
    let one = Dec::one();
    let freq = Dec::from_u64(inst.coupon_frequency as u64);
    let periodic = inst.par_rate.div(&freq)?;
    let n = inst.maturity_years.mul(&freq)?;
    if idx == 0 {
        let spot = inst.par_rate;
        let base = one.add(&spot.div(&freq)?)?;
        let c = iterative_pow(base, n)?;
        let df = one.div(&c)?;
        return Ok((spot, df));
    }
    let len = one.div(&freq)?;
    let k = decimal_to_u32(n);
    if k == 0 {
        return Err(FinError::ArithmeticOverflow);
    }
    let pv = known_coupons_exec(spots, freq, periodic, len, k - 1)?;
    let fp = periodic.add(&one)?;
    if fp.is_zero() {
        return Err(FinError::DivisionByZero { context: str_of("bootstrap final payment") });
    }
    let df = one.sub(&pv)?.div(&fp)?;
    if df.le(&Dec::zero()) {
        let m = str_of("Negative discount factor at maturity ").concat(
            inst.maturity_years.to_string().as_str(),
        ).concat(" years");
        proof {
            assert(m@ =~= negative_df_message(inst.maturity_years));
        }
        return Err(FinError::FinancialImpossibility(m));
    }
    let spot = solve_spot_from_df(df, n, freq)?;
    Ok((spot, df))
}

fn forward_exec(s1: &SpotRate, s2: &SpotRate) -> (r: FinResult<Option<Dec>>)
    ensures
        res_view(r) == forward_spec(*s1, *s2),
{
    let one = Dec::one();
    let dt = s2.maturity.sub(&s1.maturity)?;
    if dt.le(&Dec::zero()) {
        return Ok(None);
    }
    let c2 = iterative_pow_fractional(one.add(&s2.rate)?, s2.maturity)?;
    let c1 = iterative_pow_fractional(one.add(&s1.rate)?, s1.maturity)?;
    if c1.is_zero() {
        let m = str_of("forward rate compound factor at t=").concat(s1.maturity.to_string().as_str());
        proof {
            assert(m@ =~= forward_message(s1.maturity));
        }
        return Err(FinError::DivisionByZero { context: m });
    }
    let ratio = c2.div(&c1)?;
    let inv = one.div(&dt)?;
    let p = iterative_pow_fractional(ratio, inv)?;
    Ok(Some(p.sub(&one)?))
}

fn validate_bootstrap_input(input: &BootstrapInput) -> (r: FinResult<()>)
    ensures
        r is Err <==> bootstrap_validation(*input) is Some,
        r matches Err(e) ==> Some(err_view(e)) == bootstrap_validation(*input),
{
    let s = &input.par_instruments;
    if s.len() < 2 {
        return Err(
            FinError::InsufficientData(str_of("Bootstrap requires at least 2 par instruments")),
        );
    }
    let mut k: usize = 0;
    while k < s.len() - 1
        invariant
            k + 1 <= s@.len(),
            s@.len() >= 2,
            s@ == input.par_instruments@,
            first_unsorted(s@, 0) == first_unsorted(s@, k as nat),
        decreases s@.len() - k,
    {
        if s[k + 1].maturity_years.le(&s[k].maturity_years) {
            return Err(
                FinError::InvalidInput {
                    field: str_of("par_instruments"),
                    reason: str_of("Par instruments must be sorted ascending by maturity"),
                },
            );
        }
        k = k + 1;
    }
    let mut j: usize = 0;
    while j < s.len()
        invariant
            j <= s@.len(),
            s@ == input.par_instruments@,
            s@.len() >= 2,
            first_unsorted(s@, 0) is None,
            instruments_error(s@, 0) == instruments_error(s@, j as nat),
        decreases s@.len() - j,
    {
        let inst = &s[j];
        if inst.maturity_years.le(&Dec::zero()) {
            return Err(
                FinError::InvalidInput {
                    field: str_of("maturity_years"),
                    reason: str_of("Maturity must be positive"),
                },
            );
        }
        let f = inst.coupon_frequency;
        if !(f == 1 || f == 2 || f == 4 || f == 12) {
            return Err(
                FinError::InvalidInput {
                    field: str_of("coupon_frequency"),
                    reason: str_of("Coupon frequency must be 1, 2, 4, or 12"),
                },
            );
        }
        j = j + 1;
    }
    Ok(())
}

proof fn lemma_curve_err(insts: Seq<ParInstrument>, k: nat, n: nat)
    requires
        k <= n,
        curve_spec(insts, k) is Err,
    ensures
        curve_spec(insts, n) == curve_spec(insts, k),
    decreases n - k,
{
    if k < n {
        lemma_curve_err(insts, k + 1, n);
    }
}

proof fn lemma_forwards_err(spots: Seq<SpotRate>, k: nat, n: nat)
    requires
        k <= n,
        forwards_spec(spots, k) is Err,
    ensures
        forwards_spec(spots, n) == forwards_spec(spots, k),
    decreases n - k,
{
    if k < n {
        lemma_forwards_err(spots, k + 1, n);
    }
}

/// Bootstrap a spot curve from par instruments (the first instrument's spot rate is its
/// par rate; each later one solves for the discount factor that prices it at par), then
/// derive forward rates between consecutive maturities and the discount factors.
pub fn bootstrap_spot_curve(input: &BootstrapInput) -> (r: FinResult<ComputationOutput<SpotCurveOutput>>)
    requires
        input.par_instruments@.len() < usize::MAX,
    ensures
        r is Err <==> bootstrap_spec(*input) is Err,
        r matches Err(e) ==> bootstrap_spec(*input) == Err::<
            (Seq<SpotRate>, Seq<ForwardRate>, Seq<DiscountFactor>),
            ErrView,
        >(err_view(e)),
        r matches Ok(o) ==> {
            let c = bootstrap_spec(*input)->Ok_0;
            &&& o.methodology@ == "Spot Curve Bootstrap (CFA Level II term structure)"@
            &&& o.warnings@.len() == 0
            &&& o.result.spot_rates@ == c.0
            &&& o.result.forward_rates@ == c.1
            &&& o.result.discount_factors@ == c.2
            &&& bootstrap_structure(*input, c)
        },
{
    match validate_bootstrap_input(input) {
        Ok(()) => {},
        Err(e) => {
            return Err(e);
        },
    }
    let insts = &input.par_instruments;
    let mut spots: Vec<SpotRate> = Vec::new();
    let mut dfs: Vec<DiscountFactor> = Vec::new();
    let mut idx: usize = 0;
    while idx < insts.len()
        invariant
            idx <= insts@.len(),
            insts@ == input.par_instruments@,
            bootstrap_validation(*input) is None,
            curve_spec(insts@, idx as nat) == Ok::<(Seq<SpotRate>, Seq<DiscountFactor>), ErrView>(
                (spots@, dfs@),
            ),
        decreases insts@.len() - idx,
    {
        let inst = &insts[idx];
        match instrument_exec(inst, idx, &spots) {
            Ok(t) => {
                spots.push(SpotRate { maturity: inst.maturity_years, rate: t.0 });
                dfs.push(DiscountFactor { maturity: inst.maturity_years, factor: t.1 });
            },
            Err(e) => {
                proof {
                    lemma_curve_err(insts@, (idx + 1) as nat, insts@.len() as nat);
                }
                return Err(e);
            },
        }
        idx = idx + 1;
    }
    let mut fwds: Vec<ForwardRate> = Vec::new();
    let mut i: usize = 1;
    while i < spots.len()
        invariant
            1 <= i <= spots@.len() || (i == 1 && spots@.len() == 0),
            bootstrap_validation(*input) is None,
            curve_spec(insts@, insts@.len() as nat) == Ok::<(Seq<SpotRate>, Seq<DiscountFactor>), ErrView>(
                (spots@, dfs@),
            ),
            insts@ == input.par_instruments@,
            forwards_spec(spots@, i as nat) == Ok::<Seq<ForwardRate>, ErrView>(fwds@),
        decreases spots@.len() - i,
    {
        let s1 = &spots[i - 1];
        let s2 = &spots[i];
        match forward_exec(s1, s2) {
            Ok(Some(f)) => {
                fwds.push(ForwardRate { start: s1.maturity, end: s2.maturity, rate: f });
            },
            Ok(None) => {},
            Err(e) => {
                proof {
                    lemma_forwards_err(spots@, (i + 1) as nat, spots@.len() as nat);
                }
                return Err(e);
            },
        }
        i = i + 1;
    }
    proof {
        if spots@.len() <= 1 {
            assert(forwards_spec(spots@, spots@.len() as nat) == Ok::<Seq<ForwardRate>, ErrView>(fwds@));
        }
        lemma_bootstrap_structure(*input);
    }
    Ok(
        ComputationOutput {
            methodology: str_of("Spot Curve Bootstrap (CFA Level II term structure)"),
            warnings: Vec::new(),
            result: SpotCurveOutput { spot_rates: spots, forward_rates: fwds, discount_factors: dfs },
        },
    )
}


// ---------------------------------------------------------------------------
// Specification: bond yield
// ---------------------------------------------------------------------------

/// Newton-Raphson stops once the pricing error is below 1e-7.
pub open spec fn ytm_eps() -> Dec {
    Dec::lit(1, 7)
}

/// How the Newton-Raphson iterations for the periodic yield end.
pub enum YtmOutcome {
    /// The pricing error fell below the tolerance at this rate.
    Converged(Dec),
    /// The derivative vanished at this iteration, with this pricing error.
    Stalled(u32, Dec),
    /// All fifty iterations ran; the last rate.
    Exhausted(Dec),
}

/// Periods `i..=n` of one pricing pass at 1 + r = `opr`: the running discount, the present
/// value of the coupons and its derivative; the pass stops early once the discount is zero.
pub open spec fn ytm_pass(c: Dec, opr: Dec, i: nat, n: nat, disc: Dec, pv: Dec, dpv: Dec) -> Option<(Dec, Dec, Dec)>
    decreases n + 1 - i,
{
    if i > n {
        Some((disc, pv, dpv))
    } else {
        match disc.mul_spec(opr) {
            None => None,
            Some(d) => if d.is_zero_spec() {
                Some((d, pv, dpv))
            } else {
                match (
                    oadd(Some(pv), c.div_spec(d)),
                    oadd(Some(dpv), odiv(Dec::lit(i as int, 0).mul_spec(c), d.mul_spec(opr))),
                ) {
                    (Some(pv2), Some(dpv2)) => ytm_pass(c, opr, i + 1, n, d, pv2, dpv2),
                    _ => None,
                }
            },
        }
    }
}

/// A Newton step's rate kept within [-0.5, 2.0].
pub open spec fn ytm_clamp(r: Dec) -> Dec {
    if r.lt_spec(Dec::lit(-5, 1)) {
        Dec::lit(-5, 1)
    } else if r.gt_spec(Dec::lit(20, 1)) {
        Dec::lit(20, 1)
    } else {
        r
    }
}

/// Newton-Raphson iterations `it..50` on price = sum c/(1+r)^i + face/(1+r)^n, from rate `r`.
pub open spec fn ytm_newton(c: Dec, face: Dec, price: Dec, n: nat, r: Dec, it: nat) -> Option<YtmOutcome>
    decreases 50 - it,
{
    if it >= 50 {
        Some(YtmOutcome::Exhausted(r))
    } else {
        match one().add_spec(r) {
            None => None,
            Some(opr) => if opr.le_spec(dzero()) {
                ytm_newton(c, face, price, n, Dec::lit(1, 3), it + 1)
            } else {
                match ytm_pass(c, opr, 1, n, one(), dzero(), dzero()) {
                    None => None,
                    Some(p) => {
                        let f = osub(osub(Some(price), Some(p.1)), face.div_spec(p.0));
                        let df = oadd(Some(p.2), odiv(Dec::lit(n as int, 0).mul_spec(face), p.0.mul_spec(opr)));
                        match (f, df) {
                            (Some(f), Some(df)) => if f.abs_spec().lt_spec(ytm_eps()) {
                                Some(YtmOutcome::Converged(r))
                            } else if df.is_zero_spec() {
                                Some(YtmOutcome::Stalled(it as u32, f))
                            } else {
                                match osub(Some(r), f.div_spec(df)) {
                                    None => None,
                                    Some(r2) => ytm_newton(c, face, price, n, ytm_clamp(r2), it + 1),
                                }
                            },
                            _ => None,
                        }
                    },
                }
            },
        }
    }
}

/// Periods `i..=n` of the final pricing check: the running discount and the coupons' value.
pub open spec fn relaxed_pv(c: Dec, opr: Dec, i: nat, n: nat, disc: Dec, pv: Dec) -> Option<(Dec, Dec)>
    decreases n + 1 - i,
{
    if i > n {
        Some((disc, pv))
    } else {
        match disc.mul_spec(opr) {
            None => None,
            Some(d) => match oadd(Some(pv), c.div_spec(d)) {
                None => None,
                Some(p) => relaxed_pv(c, opr, i + 1, n, d, p),
            },
        }
    }
}

/// |price - value of the bond at rate r|.
pub open spec fn relaxed_residual(c: Dec, face: Dec, price: Dec, n: nat, r: Dec) -> Option<Dec> {
    match one().add_spec(r) {
        None => None,
        Some(opr) => match relaxed_pv(c, opr, 1, n, one(), dzero()) {
            None => None,
            Some(q) => match osub(Some(price), oadd(Some(q.1), face.div_spec(q.0))) {
                None => None,
                Some(x) => Some(x.abs_spec()),
            },
        },
    }
}

/// The first guess: periodic coupon over price.
pub open spec fn ytm_start(c: Dec, price: Dec) -> Option<Dec> {
    if price.gt_spec(dzero()) {
        c.div_spec(price)
    } else {
        Some(Dec::lit(5, 2))
    }
}

pub open spec fn relaxed_message(res: Dec) -> Seq<char> {
    "YTM converged with relaxed tolerance (residual: "@ + res.display_spec() + ")"@
}

/// The iterations of a solve that ends without meeting a tolerance.
pub open spec fn ytm_outcome(c: Dec, face: Dec, price: Dec, n_periods: Dec) -> Option<YtmOutcome> {
    match ytm_start(c, price) {
        None => None,
        Some(r0) => ytm_newton(c, face, price, to_u32_spec(n_periods) as nat, r0, 0),
    }
}

/// The periodic yield to maturity and the warning raised on the way, or the error.
pub open spec fn solve_ytm_spec(c: Dec, face: Dec, price: Dec, n_periods: Dec) -> Result<(Dec, Option<Seq<char>>), ErrView> {
    let n = to_u32_spec(n_periods);
    if n == 0 {
        Err(invalid_input("years_to_maturity"@, "Computed number of periods is zero"@))
    } else {
        match ytm_outcome(c, face, price, n_periods) {
            None => Err(overflow()),
            Some(YtmOutcome::Converged(x)) => Ok((x, None)),
            Some(YtmOutcome::Stalled(it, f)) => Err(convergence_failure("YTM Newton-Raphson"@, it, f)),
            Some(YtmOutcome::Exhausted(x)) => match relaxed_residual(c, face, price, n as nat, x) {
                None => Err(overflow()),
                Some(res) => if res.lt_spec(Dec::lit(1, 2)) {
                    Ok((x, Some(relaxed_message(res))))
                } else {
                    Err(convergence_failure("YTM Newton-Raphson"@, 50, res))
                },
            },
        }
    }
}

/// Iterations run and last pricing error of a solve that fails to converge.
pub open spec fn ytm_failure(c: Dec, face: Dec, price: Dec, n_periods: Dec) -> Option<(u32, Dec)> {
    let n = to_u32_spec(n_periods);
    if n == 0 {
        None
    } else {
        match ytm_outcome(c, face, price, n_periods) {
            Some(YtmOutcome::Stalled(it, f)) => Some((it, f)),
            Some(YtmOutcome::Exhausted(x)) => match relaxed_residual(c, face, price, n as nat, x) {
                Some(res) => if res.lt_spec(Dec::lit(1, 2)) {
                    None
                } else {
                    Some((50, res))
                },
                None => None,
            },
            _ => None,
        }
    }
}

pub open spec fn bond_yield_validation(i: BondYieldInput) -> Option<ErrView> {
    if i.face_value.le_spec(dzero()) {
        Some(invalid_input("face_value"@, "Face value must be positive"@))
    } else if i.market_price.le_spec(dzero()) {
        Some(invalid_input("market_price"@, "Market price must be positive"@))
    } else if i.years_to_maturity.le_spec(dzero()) {
        Some(invalid_input("years_to_maturity"@, "Years to maturity must be positive"@))
    } else if !valid_frequency(i.coupon_frequency) {
        Some(invalid_input("coupon_frequency"@, "Coupon frequency must be 1, 2, 4, or 12"@))
    } else {
        None
    }
}

/// "premium", "discount" or "par": the price against the face value.
pub open spec fn premium_label(price: Dec, face: Dec) -> Seq<char> {
    if price.gt_spec(face) {
        "premium"@
    } else if price.lt_spec(face) {
        "discount"@
    } else {
        "par"@
    }
}

/// Yield to maturity, bond equivalent yield and effective annual yield from the periodic
/// yield: ytm = p * f; bey = ytm for semi-annual coupons, else 2 * ((1 + p)^(f/2) - 1);
/// eay = (1 + p)^f - 1.
pub open spec fn yields_from_periodic(p: Dec, f: u8) -> Option<(Dec, Dec, Dec)> {
    let freq = Dec::lit(f as int, 0);
    match (p.mul_spec(freq), one().add_spec(p)) {
        (Some(ytm), Some(base)) => {
            let bey = if f == 2 {
                Some(ytm)
            } else {
                match freq.div_spec(Dec::lit(2, 0)) {
                    None => None,
                    Some(h) => omul(Some(Dec::lit(2, 0)), osub(ipow_spec(base, h), Some(one()))),
                }
            };
            match (bey, osub(ipow_spec(base, freq), Some(one()))) {
                (Some(b), Some(e)) => Some((ytm, b, e)),
                _ => None,
            }
        },
        _ => None,
    }
}

/// The bond's yields: (ytm, current yield, bey, effective annual yield, warning).
pub open spec fn bond_yield_spec(i: BondYieldInput) -> Result<(Dec, Dec, Dec, Dec, Option<Seq<char>>), ErrView> {
    match bond_yield_validation(i) {
        Some(e) => Err(e),
        None => {
            let freq = Dec::lit(i.coupon_frequency as int, 0);
            match i.face_value.mul_spec(i.coupon_rate) {
                None => Err(overflow()),
                Some(annual) => match (
                    annual.div_spec(freq),
                    i.years_to_maturity.mul_spec(freq),
                    annual.div_spec(i.market_price),
                ) {
                    (Some(periodic), Some(n), Some(cy)) => {
                        let solved = if i.current_yield_only {
                            match cy.div_spec(freq) {
                                None => Err(overflow()),
                                Some(p) => Ok((p, None)),
                            }
                        } else {
                            solve_ytm_spec(periodic, i.face_value, i.market_price, n)
                        };
                        match solved {
                            Err(e) => Err(e),
                            Ok(s) => match yields_from_periodic(s.0, i.coupon_frequency) {
                                None => Err(overflow()),
                                Some(y) => Ok((y.0, cy, y.1, y.2, s.1)),
                            },
                        }
                    },
                    _ => Err(overflow()),
                }
            }
        },
    }
}

/// The arguments the solve is called with: (periodic coupon, number of periods).
pub open spec fn bond_solve_args(i: BondYieldInput) -> Option<(Dec, Dec)> {
    let freq = Dec::lit(i.coupon_frequency as int, 0);
    match i.face_value.mul_spec(i.coupon_rate) {
        None => None,
        Some(annual) => match (annual.div_spec(freq), i.years_to_maturity.mul_spec(freq)) {
            (Some(p), Some(n)) => Some((p, n)),
            _ => None,
        },
    }
}

// ---------------------------------------------------------------------------
// Implementation: bond yield
// ---------------------------------------------------------------------------

fn ytm_pass_exec(c: Dec, opr: Dec, n: u32) -> (r: FinResult<(Dec, Dec, Dec)>)
    ensures
        match ytm_pass(c, opr, 1, n as nat, one(), dzero(), dzero()) {
            Some(t) => r == Ok::<(Dec, Dec, Dec), FinError>(t),
            None => r == Err::<(Dec, Dec, Dec), FinError>(FinError::ArithmeticOverflow),
        },
{
    let mut disc = Dec::one();
    let mut pv = Dec::zero();
    let mut dpv = Dec::zero();
    let mut i: u64 = 1;
    while i <= n as u64
        invariant
            1 <= i <= n as u64 + 1,
            ytm_pass(c, opr, 1, n as nat, one(), dzero(), dzero()) == ytm_pass(
                c,
                opr,
                i as nat,
                n as nat,
                disc,
                pv,
                dpv,
            ),
        decreases n as u64 + 1 - i,
    {
        let d = disc.mul(&opr)?;
        if d.is_zero() {
            return Ok((d, pv, dpv));
        }
        let pv2 = pv.add(&c.div(&d)?)?;
        let num = Dec::from_u64(i).mul(&c)?;
        let den = d.mul(&opr)?;
        let dpv2 = dpv.add(&num.div(&den)?)?;
        disc = d;
        pv = pv2;
        dpv = dpv2;
        i = i + 1;
    }
    Ok((disc, pv, dpv))
}

fn ytm_newton_exec(c: Dec, face: Dec, price: Dec, n: u32, r0: Dec) -> (r: FinResult<YtmOutcome>)
    ensures
        match ytm_newton(c, face, price, n as nat, r0, 0) {
            Some(o) => r == Ok::<YtmOutcome, FinError>(o),
            None => r == Err::<YtmOutcome, FinError>(FinError::ArithmeticOverflow),
        },
{
    let one = Dec::one();
    let eps = Dec::new(1, 7);
    let mut rate = r0;
    let mut it: u32 = 0;
    while it < 50
        invariant
            it <= 50,
            one == Dec::lit(1, 0),
            eps == ytm_eps(),
            ytm_newton(c, face, price, n as nat, r0, 0) == ytm_newton(c, face, price, n as nat, rate, it as nat),
        decreases 50 - it,
    {
        let opr = one.add(&rate)?;
        if opr.le(&Dec::zero()) {
            rate = Dec::new(1, 3);
            it = it + 1;
            continue;
        }
        let p = ytm_pass_exec(c, opr, n)?;
        let pv_principal = face.div(&p.0)?;
        let dpv_principal = Dec::from_u64(n as u64).mul(&face)?.div(&p.0.mul(&opr)?)?;
        let f = price.sub(&p.1)?.sub(&pv_principal)?;
        let df = p.2.add(&dpv_principal)?;
        if f.abs().lt(&eps) {
            return Ok(YtmOutcome::Converged(rate));
        }
        if df.is_zero() {
            return Ok(YtmOutcome::Stalled(it, f));
        }
        let r2 = rate.sub(&f.div(&df)?)?;
        let lo = Dec::new(-5, 1);
        let hi = Dec::new(20, 1);
        rate = if r2.lt(&lo) {
            lo
        } else if r2.gt(&hi) {
            hi
        } else {
            r2
        };
        it = it + 1;
    }
    Ok(YtmOutcome::Exhausted(rate))
}

fn relaxed_residual_exec(c: Dec, face: Dec, price: Dec, n: u32, r: Dec) -> (res: FinResult<Dec>)
    ensures
        res == lift(relaxed_residual(c, face, price, n as nat, r)),
{
    let opr = Dec::one().add(&r)?;
    let mut disc = Dec::one();
    let mut pv = Dec::zero();
    let mut i: u64 = 1;
    while i <= n as u64
        invariant
            1 <= i <= n as u64 + 1,
            one().add_spec(r) == Some(opr),
            relaxed_pv(c, opr, 1, n as nat, one(), dzero()) == relaxed_pv(c, opr, i as nat, n as nat, disc, pv),
        decreases n as u64 + 1 - i,
    {
        disc = disc.mul(&opr)?;
        pv = pv.add(&c.div(&disc)?)?;
        i = i + 1;
    }
    pv = pv.add(&face.div(&disc)?)?;
    Ok(price.sub(&pv)?.abs())
}

/// The periodic yield to maturity by Newton-Raphson on the bond pricing equation, with the
/// warning raised when only the relaxed tolerance (0.01) is met.
fn solve_ytm_newton_raphson(c: Dec, face: Dec, price: Dec, n_periods: Dec) -> (r: FinResult<(Dec, Option<String>)>)
    ensures
        r matches Ok(v) ==> solve_ytm_spec(c, face, price, n_periods) matches Ok(s) && v.0 == s.0 && (
        v.1 is None <==> s.1 is None) && (v.1 matches Some(w) ==> s.1 == Some(w@)),
        r matches Err(e) ==> solve_ytm_spec(c, face, price, n_periods) == Err::<(Dec, Option<Seq<char>>), ErrView>(
            err_view(e),
        ),
        r matches Err(FinError::ConvergenceFailure { iterations, last_delta, .. }) ==> ytm_failure(
            c,
            face,
            price,
            n_periods,
        ) == Some((iterations, last_delta)),
{
    let n = decimal_to_u32(n_periods);
    if n == 0 {
        return Err(
            FinError::InvalidInput {
                field: str_of("years_to_maturity"),
                reason: str_of("Computed number of periods is zero"),
            },
        );
    }
    let r0 = if price.gt(&Dec::zero()) {
        c.div(&price)?
    } else {
        Dec::new(5, 2)
    };
    match ytm_newton_exec(c, face, price, n, r0)? {
        YtmOutcome::Converged(x) => Ok((x, None)),
        YtmOutcome::Stalled(it, f) => Err(
            FinError::ConvergenceFailure { function: str_of("YTM Newton-Raphson"), iterations: it, last_delta: f },
        ),
        YtmOutcome::Exhausted(x) => {
            let res = relaxed_residual_exec(c, face, price, n, x)?;
            if res.lt(&Dec::new(1, 2)) {
                let m = str_of("YTM converged with relaxed tolerance (residual: ").concat(
                    res.to_string().as_str(),
                ).concat(")");
                proof {
                    assert(m@ =~= relaxed_message(res));
                }
                Ok((x, Some(m)))
            } else {
                Err(
                    FinError::ConvergenceFailure {
                        function: str_of("YTM Newton-Raphson"),
                        iterations: 50,
                        last_delta: res,
                    },
                )
            }
        },
    }
}

fn validate_bond_yield_input(input: &BondYieldInput) -> (r: FinResult<()>)
    ensures
        r is Err <==> bond_yield_validation(*input) is Some,
        r matches Err(e) ==> bond_yield_validation(*input) == Some(err_view(e)),
{
    let zero = Dec::zero();
    if input.face_value.le(&zero) {
        return Err(
            FinError::InvalidInput { field: str_of("face_value"), reason: str_of("Face value must be positive") },
        );
    }
    if input.market_price.le(&zero) {
        return Err(
            FinError::InvalidInput {
                field: str_of("market_price"),
                reason: str_of("Market price must be positive"),
            },
        );
    }
    if input.years_to_maturity.le(&zero) {
        return Err(
            FinError::InvalidInput {
                field: str_of("years_to_maturity"),
                reason: str_of("Years to maturity must be positive"),
            },
        );
    }
    let f = input.coupon_frequency;
    if !(f == 1 || f == 2 || f == 4 || f == 12) {
        return Err(
            FinError::InvalidInput {
                field: str_of("coupon_frequency"),
                reason: str_of("Coupon frequency must be 1, 2, 4, or 12"),
            },
        );
    }
    Ok(())
}

fn yields_from_periodic_exec(p: Dec, f: u8) -> (r: FinResult<(Dec, Dec, Dec)>)
    ensures
        match yields_from_periodic(p, f) {
            Some(t) => r == Ok::<(Dec, Dec, Dec), FinError>(t),
            None => r == Err::<(Dec, Dec, Dec), FinError>(FinError::ArithmeticOverflow),
        },
{
    let one = Dec::one();
    let two = Dec::new(2, 0);
    let freq = Dec::from_u64(f as u64);
    let ytm = p.mul(&freq)?;
    let base = one.add(&p)?;
    let bey = if f == 2 {
        ytm
    } else {
        let h = freq.div(&two)?;
        two.mul(&iterative_pow(base, h)?.sub(&one)?)?
    };
    let eay = iterative_pow(base, freq)?.sub(&one)?;
    Ok((ytm, bey, eay))
}

/// Bond yield metrics: yield to maturity (Newton-Raphson), current yield, bond equivalent
/// yield and effective annual yield, with whether the bond trades at a premium, a discount
/// or par.
pub fn calculate_bond_yield(input: &BondYieldInput) -> (r: FinResult<ComputationOutput<BondYieldOutput>>)
    ensures
        r is Err <==> bond_yield_spec(*input) is Err,
        r matches Err(e) ==> bond_yield_spec(*input) == Err::<(Dec, Dec, Dec, Dec, Option<Seq<char>>), ErrView>(
            err_view(e),
        ),
        r matches Err(FinError::ConvergenceFailure { iterations, last_delta, .. }) ==> bond_solve_args(*input) matches Some(a)
            && ytm_failure(a.0, input.face_value, input.market_price, a.1) == Some((iterations, last_delta)),
        r matches Ok(o) ==> {
            let y = bond_yield_spec(*input)->Ok_0;
            &&& o.methodology@ == "Bond Yield Analysis (CFA Level I/II methodology)"@
            &&& o.result.ytm == y.0
            &&& o.result.current_yield == y.1
            &&& o.result.bey == y.2
            &&& o.result.effective_annual_yield == y.3
            &&& o.result.discount_or_premium@ == premium_label(input.market_price, input.face_value)
            &&& (y.4 is None ==> o.warnings@.len() == 0)
            &&& (y.4 matches Some(w) ==> o.warnings@.len() == 1 && o.warnings@[0]@ == w)
            &&& input.face_value.mul_spec(input.coupon_rate) matches Some(annual) && Some(o.result.current_yield)
                == annual.div_spec(input.market_price)
            &&& (!input.current_yield_only && o.warnings@.len() == 0) ==> (bond_solve_args(*input) matches Some(a)
                && exists|x: Dec|
                #![trigger prices_bond(a.0, input.face_value, input.market_price, to_u32_spec(a.1) as nat, x)]
                prices_bond(a.0, input.face_value, input.market_price, to_u32_spec(a.1) as nat, x)
                    && Some(o.result.ytm) == x.mul_spec(Dec::lit(input.coupon_frequency as int, 0)))
        },
{
    validate_bond_yield_input(input)?;
    let freq = Dec::from_u64(input.coupon_frequency as u64);
    let annual = input.face_value.mul(&input.coupon_rate)?;
    let periodic = annual.div(&freq)?;
    let n_periods = input.years_to_maturity.mul(&freq)?;
    let current_yield = annual.div(&input.market_price)?;
    let label = if input.market_price.gt(&input.face_value) {
        str_of("premium")
    } else if input.market_price.lt(&input.face_value) {
        str_of("discount")
    } else {
        str_of("par")
    };
    let solved = if input.current_yield_only {
        (current_yield.div(&freq)?, None)
    } else {
        solve_ytm_newton_raphson(periodic, input.face_value, input.market_price, n_periods)?
    };
    let y = yields_from_periodic_exec(solved.0, input.coupon_frequency)?;
    let mut warnings: Vec<String> = Vec::new();
    match solved.1 {
        Some(w) => warnings.push(w),
        None => {},
    }
    proof {
        if !input.current_yield_only {
            lemma_ytm_prices_bond(periodic, input.face_value, input.market_price, n_periods);
            let n = to_u32_spec(n_periods) as nat;
            if solved.1 is None {
                assert(prices_bond(periodic, input.face_value, input.market_price, n, solved.0));
            }
        }
    }
    Ok(
        ComputationOutput {
            methodology: str_of("Bond Yield Analysis (CFA Level I/II methodology)"),
            warnings,
            result: BondYieldOutput {
                ytm: y.0,
                current_yield,
                bey: y.1,
                effective_annual_yield: y.2,
                discount_or_premium: label,
            },
        },
    )
}


// ---------------------------------------------------------------------------
// Specification: square root and Nelson-Siegel
// ---------------------------------------------------------------------------

/// Newton iterations `it..20` for the square root of `x` from `guess`, stopping once a step
/// moves less than 1e-10.
pub open spec fn sqrt_iter(x: Dec, guess: Dec, it: nat) -> Option<Dec>
    decreases 20 - it,
{
    if it >= 20 {
        Some(guess)
    } else {
        match odiv(oadd(Some(guess), x.div_spec(guess)), Some(Dec::lit(2, 0))) {
            None => None,
            Some(ng) => match ng.sub_spec(guess) {
                None => None,
                Some(step) => if step.abs_spec().lt_spec(Dec::lit(1, 10)) {
                    Some(ng)
                } else {
                    sqrt_iter(x, ng, it + 1)
                },
            },
        }
    }
}

/// Square root by Newton's method from x / 2; zero for x <= 0 and one for x == 1.
pub open spec fn sqrt_spec(x: Dec) -> Option<Dec> {
    if x.le_spec(dzero()) {
        Some(dzero())
    } else if x.eq_spec(one()) {
        Some(one())
    } else {
        match x.div_spec(Dec::lit(2, 0)) {
            None => None,
            Some(g) => sqrt_iter(
                x,
                if g.is_zero_spec() {
                    Dec::lit(1, 7)
                } else {
                    g
                },
                0,
            ),
        }
    }
}

/// The Nelson-Siegel loadings at maturity t: f1 = (1 - e^(-t/l)) / (t/l) (one when t/l is
/// zero) and f2 = f1 - e^(-t/l).
pub open spec fn ns_loadings(t: Dec, lambda: Dec) -> Option<(Dec, Dec)> {
    match t.div_spec(lambda) {
        None => None,
        Some(tl) => match exp_spec(tl.neg_spec()) {
            None => None,
            Some(e) => {
                let f1 = if tl.is_zero_spec() {
                    Some(one())
                } else {
                    odiv(one().sub_spec(e), Some(tl))
                };
                match f1 {
                    None => None,
                    Some(f1) => match f1.sub_spec(e) {
                        None => None,
                        Some(f2) => Some((f1, f2)),
                    },
                }
            },
        }
    }
}

/// The Nelson-Siegel rate b0 + b1 f1(t) + b2 f2(t); b0 + b1 when t or lambda is zero.
pub open spec fn ns_rate_spec(t: Dec, b0: Dec, b1: Dec, b2: Dec, lambda: Dec) -> Option<Dec> {
    if t.is_zero_spec() || lambda.is_zero_spec() {
        b0.add_spec(b1)
    } else {
        match ns_loadings(t, lambda) {
            None => None,
            Some(f) => oadd(oadd(Some(b0), b1.mul_spec(f.0)), b2.mul_spec(f.1)),
        }
    }
}

/// The columns of the first `k` observations: ones, f1, f2 and the observed rates.
pub open spec fn ns_columns(obs: Seq<ObservedRate>, lambda: Dec, k: nat) -> Option<(Seq<Dec>, Seq<Dec>, Seq<Dec>, Seq<Dec>)>
    decreases k,
{
    if k == 0 {
        Some((Seq::empty(), Seq::empty(), Seq::empty(), Seq::empty()))
    } else {
        match ns_columns(obs, lambda, (k - 1) as nat) {
            None => None,
            Some(c) => match ns_loadings(obs[k - 1].maturity, lambda) {
                None => None,
                Some(f) => Some((c.0.push(one()), c.1.push(f.0), c.2.push(f.1), c.3.push(obs[k - 1].rate))),
            },
        }
    }
}

/// sum of a[i] * b[i] over the first `k` entries, added from the left starting at zero.
pub open spec fn dot_spec(a: Seq<Dec>, b: Seq<Dec>, k: nat) -> Option<Dec>
    decreases k,
{
    if k == 0 {
        Some(dzero())
    } else {
        oadd(dot_spec(a, b, (k - 1) as nat), a[k - 1].mul_spec(b[k - 1]))
    }
}

/// The normal equations of the columns.
pub open spec fn ns_normal(x1: Seq<Dec>, x2: Seq<Dec>, x3: Seq<Dec>, y: Seq<Dec>) -> Option<NsNormal> {
    let n = x1.len();
    match (dot_spec(x1, x1, n), dot_spec(x1, x2, n), dot_spec(x1, x3, n), dot_spec(x2, x2, n), dot_spec(x2, x3, n)) {
        (Some(a11), Some(a12), Some(a13), Some(a22), Some(a23)) => match (
            dot_spec(x3, x3, n),
            dot_spec(x1, y, n),
            dot_spec(x2, y, n),
            dot_spec(x3, y, n),
        ) {
            (Some(a33), Some(b1), Some(b2), Some(b3)) => Some(NsNormal { a11, a12, a13, a22, a23, a33, b1, b2, b3 }),
            _ => None,
        },
        _ => None,
    }
}

/// a * b - c * d.
pub open spec fn minor(a: Dec, b: Dec, c: Dec, d: Dec) -> Option<Dec> {
    osub(a.mul_spec(b), c.mul_spec(d))
}

/// u * x - v * y + w * z.
pub open spec fn expand(u: Dec, x: Option<Dec>, v: Dec, y: Option<Dec>, w: Dec, z: Option<Dec>) -> Option<Dec> {
    oadd(osub(omul(Some(u), x), omul(Some(v), y)), omul(Some(w), z))
}

/// The determinant of X^T X.
pub open spec fn ns_det(e: NsNormal) -> Option<Dec> {
    expand(
        e.a11,
        minor(e.a22, e.a33, e.a23, e.a23),
        e.a12,
        minor(e.a12, e.a33, e.a23, e.a13),
        e.a13,
        minor(e.a12, e.a23, e.a22, e.a13),
    )
}

/// The betas by Cramer's rule; a convergence failure for a singular system.
pub open spec fn cramer_spec(e: NsNormal) -> Result<(Dec, Dec, Dec), ErrView> {
    match ns_det(e) {
        None => Err(overflow()),
        Some(det) => if det.is_zero_spec() {
            Err(convergence_failure("Nelson-Siegel OLS"@, 0, dzero()))
        } else {
            let d0 = expand(
                e.b1,
                minor(e.a22, e.a33, e.a23, e.a23),
                e.a12,
                minor(e.b2, e.a33, e.a23, e.b3),
                e.a13,
                minor(e.b2, e.a23, e.a22, e.b3),
            );
            let d1 = expand(
                e.a11,
                minor(e.b2, e.a33, e.a23, e.b3),
                e.b1,
                minor(e.a12, e.a33, e.a23, e.a13),
                e.a13,
                minor(e.a12, e.b3, e.b2, e.a13),
            );
            let d2 = expand(
                e.a11,
                minor(e.a22, e.b3, e.b2, e.a23),
                e.a12,
                minor(e.a12, e.b3, e.b2, e.a13),
                e.b1,
                minor(e.a12, e.a23, e.a22, e.a13),
            );
            match (odiv(d0, Some(det)), odiv(d1, Some(det)), odiv(d2, Some(det))) {
                (Some(b0), Some(b1), Some(b2)) => Ok((b0, b1, b2)),
                _ => Err(overflow()),
            }
        },
    }
}

/// The least-squares betas of the observations at decay `lambda`.
pub open spec fn ns_ols_spec(obs: Seq<ObservedRate>, lambda: Dec) -> Result<(Dec, Dec, Dec), ErrView> {
    match ns_columns(obs, lambda, obs.len()) {
        None => Err(overflow()),
        Some(c) => match ns_normal(c.0, c.1, c.2, c.3) {
            None => Err(overflow()),
            Some(e) => cramer_spec(e),
        },
    }
}

/// Fitted rates of the first `k` observations and their sum of squared errors.
pub open spec fn ns_fit(obs: Seq<ObservedRate>, b: (Dec, Dec, Dec), lambda: Dec, k: nat) -> Option<(Seq<FittedRate>, Dec)>
    decreases k,
{
    if k == 0 {
        Some((Seq::empty(), dzero()))
    } else {
        match ns_fit(obs, b, lambda, (k - 1) as nat) {
            None => None,
            Some(acc) => {
                let o = obs[k - 1];
                match ns_rate_spec(o.maturity, b.0, b.1, b.2, lambda) {
                    None => None,
                    Some(f) => match f.sub_spec(o.rate) {
                        None => None,
                        Some(err) => match oadd(Some(acc.1), err.mul_spec(err)) {
                            None => None,
                            Some(sse) => Some(
                                (
                                    acc.0.push(FittedRate { maturity: o.maturity, fitted: f, observed: o.rate, error: err }),
                                    sse,
                                ),
                            ),
                        },
                    },
                }
            },
        }
    }
}

/// The first observation with a maturity that is not positive, from index `k` on.
pub open spec fn first_bad_maturity(obs: Seq<ObservedRate>, k: nat) -> bool
    decreases obs.len() - k,
{
    if k >= obs.len() {
        false
    } else {
        obs[k as int].maturity.le_spec(dzero()) || first_bad_maturity(obs, k + 1)
    }
}

pub open spec fn ns_validation(i: NelsonSiegelInput) -> Option<ErrView> {
    if i.observed_rates@.len() < 3 {
        Some(insufficient_data("Nelson-Siegel requires at least 3 observed rates"@))
    } else if first_bad_maturity(i.observed_rates@, 0) {
        Some(invalid_input("maturity"@, "Observed rate maturity must be positive"@))
    } else {
        None
    }
}

pub open spec fn ns_lambda(i: NelsonSiegelInput) -> Dec {
    match i.initial_lambda {
        Some(l) => l,
        None => one(),
    }
}

/// The fit: (beta0, beta1, beta2, fitted rates, rmse), or the error.
pub open spec fn ns_spec(i: NelsonSiegelInput) -> Result<(Dec, Dec, Dec, Seq<FittedRate>, Dec), ErrView> {
    match ns_validation(i) {
        Some(e) => Err(e),
        None => {
            let obs = i.observed_rates@;
            let lambda = ns_lambda(i);
            match ns_ols_spec(obs, lambda) {
                Err(e) => Err(e),
                Ok(b) => match ns_fit(obs, b, lambda, obs.len()) {
                    None => Err(overflow()),
                    Some(f) => match f.1.div_spec(Dec::lit((obs.len() as u32) as int, 0)) {
                        None => Err(overflow()),
                        Some(mse) => match sqrt_spec(mse) {
                            None => Err(overflow()),
                            Some(rmse) => Ok((b.0, b.1, b.2, f.0, rmse)),
                        },
                    },
                },
            }
        },
    }
}

// ---------------------------------------------------------------------------
// Implementation: square root and Nelson-Siegel
// ---------------------------------------------------------------------------

/// Square root by Newton's method (at most twenty steps, stopping once a step moves less
/// than 1e-10); zero for x <= 0.
pub fn sqrt_decimal(x: Dec) -> (r: FinResult<Dec>)
    ensures
        r == lift(sqrt_spec(x)),
{
    let one = Dec::one();
    let two = Dec::new(2, 0);
    if x.le(&Dec::zero()) {
        return Ok(Dec::zero());
    }
    if x.eq(&one) {
        return Ok(one);
    }
    let mut guess = x.div(&two)?;
    if guess.is_zero() {
        guess = Dec::new(1, 7);
    }
    let tol = Dec::new(1, 10);
    let mut it: u32 = 0;
    while it < 20
        invariant
            it <= 20,
            two == Dec::lit(2, 0),
            tol == Dec::lit(1, 10),
            sqrt_spec(x) == sqrt_iter(x, guess, it as nat),
        decreases 20 - it,
    {
        let ng = guess.add(&x.div(&guess)?)?.div(&two)?;
        if ng.sub(&guess)?.abs().lt(&tol) {
            return Ok(ng);
        }
        guess = ng;
        it = it + 1;
    }
    Ok(guess)
}

fn ns_loadings_exec(t: Dec, lambda: Dec) -> (r: FinResult<(Dec, Dec)>)
    ensures
        match ns_loadings(t, lambda) {
            Some(f) => r == Ok::<(Dec, Dec), FinError>(f),
            None => r == Err::<(Dec, Dec), FinError>(FinError::ArithmeticOverflow),
        },
{
    let tl = t.div(&lambda)?;
    let e = exp_decimal(tl.neg())?;
    let f1 = if tl.is_zero() {
        Dec::one()
    } else {
        Dec::one().sub(&e)?.div(&tl)?
    };
    let f2 = f1.sub(&e)?;
    Ok((f1, f2))
}

/// The Nelson-Siegel rate b0 + b1 f1(t) + b2 f2(t) at maturity t.
pub fn nelson_siegel_rate(t: Dec, b0: Dec, b1: Dec, b2: Dec, lambda: Dec) -> (r: FinResult<Dec>)
    ensures
        r == lift(ns_rate_spec(t, b0, b1, b2, lambda)),
{
    if t.is_zero() || lambda.is_zero() {
        return b0.add(&b1);
    }
    let f = ns_loadings_exec(t, lambda)?;
    b0.add(&b1.mul(&f.0)?)?.add(&b2.mul(&f.1)?)
}

/// sum of a[i] * b[i].
fn dot(a: &Vec<Dec>, b: &Vec<Dec>) -> (r: FinResult<Dec>)
    requires
        a@.len() == b@.len(),
    ensures
        r == lift(dot_spec(a@, b@, a@.len())),
{
    let mut acc = Dec::zero();
    let mut k: usize = 0;
    while k < a.len()
        invariant
            k <= a@.len(),
            a@.len() == b@.len(),
            dot_spec(a@, b@, k as nat) == Some(acc),
        decreases a@.len() - k,
    {
        let p = match a[k].mul(&b[k]) {
            Ok(p) => p,
            Err(e) => {
                proof {
                    lemma_dot_none(a@, b@, (k + 1) as nat, a@.len());
                }
                return Err(e);
            },
        };
        acc = match acc.add(&p) {
            Ok(v) => v,
            Err(e) => {
                proof {
                    lemma_dot_none(a@, b@, (k + 1) as nat, a@.len());
                }
                return Err(e);
            },
        };
        k = k + 1;
    }
    Ok(acc)
}

proof fn lemma_dot_none(a: Seq<Dec>, b: Seq<Dec>, k: nat, n: nat)
    requires
        k <= n,
        dot_spec(a, b, k) is None,
    ensures
        dot_spec(a, b, n) is None,
    decreases n - k,
{
    if k < n {
        lemma_dot_none(a, b, k + 1, n);
    }
}

proof fn lemma_columns_none(obs: Seq<ObservedRate>, lambda: Dec, k: nat, n: nat)
    requires
        k <= n,
        ns_columns(obs, lambda, k) is None,
    ensures
        ns_columns(obs, lambda, n) is None,
    decreases n - k,
{
    if k < n {
        lemma_columns_none(obs, lambda, k + 1, n);
    }
}

proof fn lemma_columns_len(obs: Seq<ObservedRate>, lambda: Dec, k: nat)
    requires
        ns_columns(obs, lambda, k) is Some,
    ensures
        ({
            let c = ns_columns(obs, lambda, k)->Some_0;
            c.0.len() == k && c.1.len() == k && c.2.len() == k && c.3.len() == k
        }),
    decreases k,
{
    if k > 0 {
        lemma_columns_len(obs, lambda, (k - 1) as nat);
    }
}

proof fn lemma_fit_none(obs: Seq<ObservedRate>, b: (Dec, Dec, Dec), lambda: Dec, k: nat, n: nat)
    requires
        k <= n,
        ns_fit(obs, b, lambda, k) is None,
    ensures
        ns_fit(obs, b, lambda, n) is None,
    decreases n - k,
{
    if k < n {
        lemma_fit_none(obs, b, lambda, k + 1, n);
    }
}

fn ns_normal_exec(x1: &Vec<Dec>, x2: &Vec<Dec>, x3: &Vec<Dec>, y: &Vec<Dec>) -> (r: FinResult<NsNormal>)
    requires
        x1@.len() == x2@.len(),
        x1@.len() == x3@.len(),
        x1@.len() == y@.len(),
    ensures
        match ns_normal(x1@, x2@, x3@, y@) {
            Some(e) => r == Ok::<NsNormal, FinError>(e),
            None => r == Err::<NsNormal, FinError>(FinError::ArithmeticOverflow),
        },
{
    let a11 = dot(x1, x1)?;
    let a12 = dot(x1, x2)?;
    let a13 = dot(x1, x3)?;
    let a22 = dot(x2, x2)?;
    let a23 = dot(x2, x3)?;
    let a33 = dot(x3, x3)?;
    let b1 = dot(x1, y)?;
    let b2 = dot(x2, y)?;
    let b3 = dot(x3, y)?;
    Ok(NsNormal { a11, a12, a13, a22, a23, a33, b1, b2, b3 })
}

fn minor_exec(a: Dec, b: Dec, c: Dec, d: Dec) -> (r: FinResult<Dec>)
    ensures
        r == lift(minor(a, b, c, d)),
{
    a.mul(&b)?.sub(&c.mul(&d)?)
}

fn expand_exec(u: Dec, x: Dec, v: Dec, y: Dec, w: Dec, z: Dec) -> (r: FinResult<Dec>)
    ensures
        r == lift(expand(u, Some(x), v, Some(y), w, Some(z))),
{
    u.mul(&x)?.sub(&v.mul(&y)?)?.add(&w.mul(&z)?)
}

fn cramer_exec(e: &NsNormal) -> (r: FinResult<(Dec, Dec, Dec)>)
    ensures
        res_view(r) == cramer_spec(*e),
{
    let det = expand_exec(
        e.a11,
        minor_exec(e.a22, e.a33, e.a23, e.a23)?,
        e.a12,
        minor_exec(e.a12, e.a33, e.a23, e.a13)?,
        e.a13,
        minor_exec(e.a12, e.a23, e.a22, e.a13)?,
    )?;
    if det.is_zero() {
        return Err(
            FinError::ConvergenceFailure {
                function: str_of("Nelson-Siegel OLS"),
                iterations: 0,
                last_delta: Dec::zero(),
            },
        );
    }
    let d0 = expand_exec(
        e.b1,
        minor_exec(e.a22, e.a33, e.a23, e.a23)?,
        e.a12,
        minor_exec(e.b2, e.a33, e.a23, e.b3)?,
        e.a13,
        minor_exec(e.b2, e.a23, e.a22, e.b3)?,
    )?;
    let d1 = expand_exec(
        e.a11,
        minor_exec(e.b2, e.a33, e.a23, e.b3)?,
        e.b1,
        minor_exec(e.a12, e.a33, e.a23, e.a13)?,
        e.a13,
        minor_exec(e.a12, e.b3, e.b2, e.a13)?,
    )?;
    let d2 = expand_exec(
        e.a11,
        minor_exec(e.a22, e.b3, e.b2, e.a23)?,
        e.a12,
        minor_exec(e.a12, e.b3, e.b2, e.a13)?,
        e.b1,
        minor_exec(e.a12, e.a23, e.a22, e.a13)?,
    )?;
    Ok((d0.div(&det)?, d1.div(&det)?, d2.div(&det)?))
}

/// The least-squares betas at a fixed decay, by Cramer's rule on the normal equations.
fn solve_ns_ols(obs: &Vec<ObservedRate>, lambda: Dec) -> (r: FinResult<(Dec, Dec, Dec)>)
    ensures
        res_view(r) == ns_ols_spec(obs@, lambda),
{
    let mut x1: Vec<Dec> = Vec::new();
    let mut x2: Vec<Dec> = Vec::new();
    let mut x3: Vec<Dec> = Vec::new();
    let mut y: Vec<Dec> = Vec::new();
    let mut k: usize = 0;
    while k < obs.len()
        invariant
            k <= obs@.len(),
            ns_columns(obs@, lambda, k as nat) == Some((x1@, x2@, x3@, y@)),
        decreases obs@.len() - k,
    {
        let o = &obs[k];
        let f = match ns_loadings_exec(o.maturity, lambda) {
            Ok(f) => f,
            Err(e) => {
                proof {
                    lemma_columns_none(obs@, lambda, (k + 1) as nat, obs@.len());
                }
                return Err(e);
            },
        };
        x1.push(Dec::one());
        x2.push(f.0);
        x3.push(f.1);
        y.push(o.rate);
        k = k + 1;
    }
    proof {
        lemma_columns_len(obs@, lambda, obs@.len());
    }
    let e = ns_normal_exec(&x1, &x2, &x3, &y)?;
    cramer_exec(&e)
}

fn validate_nelson_siegel_input(input: &NelsonSiegelInput) -> (r: FinResult<()>)
    ensures
        r is Err <==> ns_validation(*input) is Some,
        r matches Err(e) ==> ns_validation(*input) == Some(err_view(e)),
{
    let obs = &input.observed_rates;
    if obs.len() < 3 {
        return Err(FinError::InsufficientData(str_of("Nelson-Siegel requires at least 3 observed rates")));
    }
    let mut k: usize = 0;
    while k < obs.len()
        invariant
            k <= obs@.len(),
            obs@ == input.observed_rates@,
            obs@.len() >= 3,
            first_bad_maturity(obs@, 0) == first_bad_maturity(obs@, k as nat),
        decreases obs@.len() - k,
    {
        if obs[k].maturity.le(&Dec::zero()) {
            assert(first_bad_maturity(obs@, k as nat));
            return Err(
                FinError::InvalidInput {
                    field: str_of("maturity"),
                    reason: str_of("Observed rate maturity must be positive"),
                },
            );
        }
        k = k + 1;
    }
    Ok(())
}

/// Fit a Nelson-Siegel curve to observed rates at a fixed decay (one unless given): the
/// betas by least squares, the fitted rates with their residuals, and the root mean square
/// error.
pub fn fit_nelson_siegel(input: &NelsonSiegelInput) -> (r: FinResult<ComputationOutput<NelsonSiegelOutput>>)
    ensures
        r is Err <==> ns_spec(*input) is Err,
        r matches Err(e) ==> ns_spec(*input) == Err::<(Dec, Dec, Dec, Seq<FittedRate>, Dec), ErrView>(err_view(e)),
        r matches Ok(o) ==> {
            let f = ns_spec(*input)->Ok_0;
            &&& o.methodology@ == "Nelson-Siegel Yield Curve Fit"@
            &&& o.warnings@.len() == 0
            &&& o.result.beta0 == f.0
            &&& o.result.beta1 == f.1
            &&& o.result.beta2 == f.2
            &&& o.result.lambda == ns_lambda(*input)
            &&& o.result.fitted_rates@ == f.3
            &&& o.result.rmse == f.4
        },
{
    validate_nelson_siegel_input(input)?;
    let lambda = match input.initial_lambda {
        Some(l) => l,
        None => Dec::one(),
    };
    let obs = &input.observed_rates;
    let b = solve_ns_ols(obs, lambda)?;
    let mut fitted: Vec<FittedRate> = Vec::new();
    let mut sse = Dec::zero();
    let mut k: usize = 0;
    while k < obs.len()
        invariant
            k <= obs@.len(),
            obs@ == input.observed_rates@,
            ns_validation(*input) is None,
            lambda == ns_lambda(*input),
            ns_ols_spec(obs@, lambda) == Ok::<(Dec, Dec, Dec), ErrView>(b),
            ns_fit(obs@, b, lambda, k as nat) == Some((fitted@, sse)),
        decreases obs@.len() - k,
    {
        let o = &obs[k];
        let step = match nelson_siegel_rate(o.maturity, b.0, b.1, b.2, lambda) {
            Ok(f) => match f.sub(&o.rate) {
                Ok(err) => match err.mul(&err) {
                    Ok(sq) => match sse.add(&sq) {
                        Ok(s2) => Ok((f, err, s2)),
                        Err(e) => Err(e),
                    },
                    Err(e) => Err(e),
                },
                Err(e) => Err(e),
            },
            Err(e) => Err(e),
        };
        match step {
            Ok(t) => {
                fitted.push(FittedRate { maturity: o.maturity, fitted: t.0, observed: o.rate, error: t.1 });
                sse = t.2;
            },
            Err(e) => {
                proof {
                    lemma_fit_none(obs@, b, lambda, (k + 1) as nat, obs@.len());
                }
                return Err(e);
            },
        }
        k = k + 1;
    }
    let count: u32 = #[verifier::truncate] (obs.len() as u32);
    let n = Dec::from_u64(count as u64);
    let mse = sse.div(&n)?;
    let rmse = sqrt_decimal(mse)?;
    Ok(
        ComputationOutput {
            methodology: str_of("Nelson-Siegel Yield Curve Fit"),
            warnings: Vec::new(),
            result: NelsonSiegelOutput { beta0: b.0, beta1: b.1, beta2: b.2, lambda, fitted_rates: fitted, rmse },
        },
    )
}

proof fn lemma_instrument_spec(inst: ParInstrument, idx: nat, spots: Seq<SpotRate>)
    requires
        instrument_spec(inst, idx, spots) is Ok,
    ensures
        idx == 0 ==> instrument_spec(inst, idx, spots)->Ok_0.0 == inst.par_rate,
        idx > 0 ==> instrument_spec(inst, idx, spots)->Ok_0.1.gt_spec(dzero()),
{
    if idx > 0 {
        Dec::lemma_not_lt(dzero(), instrument_spec(inst, idx, spots)->Ok_0.1);
    }
}

proof fn lemma_curve_spec(insts: Seq<ParInstrument>, k: nat)
    requires
        k <= insts.len(),
        curve_spec(insts, k) is Ok,
    ensures
        ({
            let c = curve_spec(insts, k)->Ok_0;
            &&& c.0.len() == k
            &&& c.1.len() == k
            &&& forall|j: int|
                0 <= j < k ==> (#[trigger] c.0[j]).maturity == insts[j].maturity_years
                    && c.1[j].maturity == insts[j].maturity_years
            &&& k > 0 ==> c.0[0].rate == insts[0].par_rate
            &&& forall|j: int| 1 <= j < k ==> (#[trigger] c.1[j]).factor.gt_spec(dzero())
        }),
    decreases k,
{
    if k > 0 {
        let k1 = (k - 1) as nat;
        lemma_curve_spec(insts, k1);
        let c0 = curve_spec(insts, k1)->Ok_0;
        lemma_instrument_spec(insts[k1 as int], k1, c0.0);
        let c = curve_spec(insts, k)->Ok_0;
        assert forall|j: int| 0 <= j < k1 implies c.0[j] == c0.0[j] && c.1[j] == c0.1[j] by {}
    }
}

/// The forward rate implied between two spot rates: with growth factors
/// (1 + s1)^t1 and (1 + s2)^t2, the rate f with (1 + s1)^t1 (1 + f)^(t2 - t1) = (1 + s2)^t2,
/// that is 1 + f = ((1 + s2)^t2 / (1 + s1)^t1)^(1 / (t2 - t1)), each power taken as
/// exp(e ln b) (`fpow_spec`).
pub open spec fn implied_forward(s1: SpotRate, s2: SpotRate) -> Option<Dec> {
    let g1 = match Dec::lit(1, 0).add_spec(s1.rate) {
        Some(b) => fpow_spec(b, s1.maturity),
        None => None,
    };
    let g2 = match Dec::lit(1, 0).add_spec(s2.rate) {
        Some(b) => fpow_spec(b, s2.maturity),
        None => None,
    };
    match (g1, g2, s2.maturity.sub_spec(s1.maturity)) {
        (Some(g1), Some(g2), Some(gap)) => match (g2.div_spec(g1), Dec::lit(1, 0).div_spec(gap)) {
            (Some(growth), Some(per_year)) => match fpow_spec(growth, per_year) {
                Some(annual) => annual.sub_spec(Dec::lit(1, 0)),
                None => None,
            },
            _ => None,
        },
        _ => None,
    }
}

/// Each forward rate runs between two consecutive spot rates and is the rate they imply
/// (`implied_forward`).
pub open spec fn forwards_follow_spots(spots: Seq<SpotRate>, fs: Seq<ForwardRate>) -> bool {
    forall|e: int|
        0 <= e < fs.len() ==> exists|j: int|
            1 <= j < spots.len() && (#[trigger] fs[e]).start == spots[j - 1].maturity && fs[e].end
                == #[trigger] spots[j].maturity && implied_forward(spots[j - 1], spots[j]) == Some(
                fs[e].rate,
            )
}

proof fn lemma_forward_spec(s1: SpotRate, s2: SpotRate)
    requires
        forward_spec(s1, s2) matches Ok(Some(_)),
    ensures
        implied_forward(s1, s2) == Some(forward_spec(s1, s2)->Ok_0.unwrap()),
{
}

proof fn lemma_forwards_spec(spots: Seq<SpotRate>, k: nat)
    requires
        k <= spots.len(),
        forwards_spec(spots, k) is Ok,
    ensures
        ({
            let fs = forwards_spec(spots, k)->Ok_0;
            &&& k >= 1 ==> fs.len() <= k - 1
            &&& k == 0 ==> fs.len() == 0
            &&& forall|e: int|
                0 <= e < fs.len() ==> exists|j: int|
                    1 <= j < k && (#[trigger] fs[e]).start == spots[j - 1].maturity && fs[e].end
                        == #[trigger] spots[j].maturity && implied_forward(spots[j - 1], spots[j])
                        == Some(fs[e].rate)
        }),
    decreases k,
{
    if k > 1 {
        let k1 = (k - 1) as nat;
        lemma_forwards_spec(spots, k1);
        let f0 = forwards_spec(spots, k1)->Ok_0;
        let fs = forwards_spec(spots, k)->Ok_0;
        if forward_spec(spots[k - 2], spots[k - 1]) matches Ok(Some(_)) {
            lemma_forward_spec(spots[k - 2], spots[k - 1]);
        }
        assert forall|e: int| 0 <= e < fs.len() implies exists|j: int|
            1 <= j < k && (#[trigger] fs[e]).start == spots[j - 1].maturity && fs[e].end
                == #[trigger] spots[j].maturity && implied_forward(spots[j - 1], spots[j]) == Some(
                fs[e].rate,
            ) by {
            if e < f0.len() {
                assert(fs[e] == f0[e]);
                let j = choose|j: int|
                    1 <= j < k1 && (#[trigger] f0[e]).start == spots[j - 1].maturity && f0[e].end
                        == #[trigger] spots[j].maturity && implied_forward(spots[j - 1], spots[j])
                        == Some(f0[e].rate);
                assert(spots[j] == spots[j]);
            } else {
                assert(spots[k1 as int] == spots[k1 as int]);
            }
        }
    }
}

/// What a bootstrapped curve holds: one spot rate and one discount factor per instrument,
/// at its maturity; the first spot rate is the first par rate; every discount factor after
/// the first is positive; and at most one forward rate per consecutive pair of spot
/// rates, each from the earlier maturity to the later one.
pub open spec fn bootstrap_structure(i: BootstrapInput, c: (Seq<SpotRate>, Seq<ForwardRate>, Seq<DiscountFactor>)) -> bool {
    let ins = i.par_instruments@;
    let n = ins.len();
    &&& c.0.len() == n
    &&& c.2.len() == n
    &&& forall|j: int|
        0 <= j < n ==> (#[trigger] c.0[j]).maturity == ins[j].maturity_years && c.2[j].maturity
            == ins[j].maturity_years
    &&& c.0[0].rate == ins[0].par_rate
    &&& forall|j: int| 1 <= j < n ==> (#[trigger] c.2[j]).factor.gt_spec(dzero())
    &&& c.1.len() <= n - 1
    &&& forwards_follow_spots(c.0, c.1)
    &&& forall|e: int|
        0 <= e < c.1.len() ==> exists|j: int|
            1 <= j < n && (#[trigger] c.1[e]).start == ins[j - 1].maturity_years && c.1[e].end
                == #[trigger] ins[j].maturity_years
}

/// The structure of every curve the bootstrap gives back (`bootstrap_structure`).
pub proof fn lemma_bootstrap_structure(i: BootstrapInput)
    requires
        bootstrap_spec(i) is Ok,
    ensures
        bootstrap_structure(i, bootstrap_spec(i)->Ok_0),
{
    let ins = i.par_instruments@;
    lemma_curve_spec(ins, ins.len());
    let c = curve_spec(ins, ins.len())->Ok_0;
    lemma_forwards_spec(c.0, c.0.len());
    let fs = forwards_spec(c.0, c.0.len())->Ok_0;
    assert forall|e: int| 0 <= e < fs.len() implies exists|j: int|
        1 <= j < ins.len() && (#[trigger] fs[e]).start == ins[j - 1].maturity_years && fs[e].end
            == #[trigger] ins[j].maturity_years by {
        let j = choose|j: int|
            1 <= j < c.0.len() && (#[trigger] fs[e]).start == c.0[j - 1].maturity && fs[e].end
                == #[trigger] c.0[j].maturity;
        assert(c.0[j - 1].maturity == ins[j - 1].maturity_years);
        assert(c.0[j].maturity == ins[j].maturity_years);
    }
}

/// The pricing error of a periodic yield `r`: the market price less the present value of
/// `n` coupons `c` and of the face value at 1 + r per period; `None` when 1 + r is not
/// positive or a figure overflows.
pub open spec fn pricing_error(c: Dec, face: Dec, price: Dec, n: nat, r: Dec) -> Option<Dec> {
    match one().add_spec(r) {
        Some(opr) => if opr.le_spec(dzero()) {
            None
        } else {
            match ytm_pass(c, opr, 1, n, one(), dzero(), dzero()) {
                Some(p) => osub(osub(Some(price), Some(p.1)), face.div_spec(p.0)),
                None => None,
            }
        },
        None => None,
    }
}

/// A yield that prices the bond: its pricing error is below 1e-7 in size.
pub open spec fn prices_bond(c: Dec, face: Dec, price: Dec, n: nat, r: Dec) -> bool {
    pricing_error(c, face, price, n, r) matches Some(e) && e.abs_spec().lt_spec(Dec::lit(1, 7))
}

proof fn lemma_newton_converged(c: Dec, face: Dec, price: Dec, n: nat, r: Dec, it: nat)
    requires
        ytm_newton(c, face, price, n, r, it) matches Some(YtmOutcome::Converged(_)),
    ensures
        ytm_newton(c, face, price, n, r, it) matches Some(YtmOutcome::Converged(x)) && prices_bond(
            c,
            face,
            price,
            n,
            x,
        ),
    decreases 50 - it,
{
    if it < 50 {
        let opr = one().add_spec(r).unwrap();
        if opr.le_spec(dzero()) {
            lemma_newton_converged(c, face, price, n, Dec::lit(1, 3), it + 1);
        } else {
            let p = ytm_pass(c, opr, 1, n, one(), dzero(), dzero()).unwrap();
            let f = osub(osub(Some(price), Some(p.1)), face.div_spec(p.0)).unwrap();
            if !f.abs_spec().lt_spec(ytm_eps()) {
                let df = oadd(Some(p.2), odiv(Dec::lit(n as int, 0).mul_spec(face), p.0.mul_spec(opr))).unwrap();
                if !df.is_zero_spec() {
                    let r2 = osub(Some(r), f.div_spec(df)).unwrap();
                    lemma_newton_converged(c, face, price, n, ytm_clamp(r2), it + 1);
                }
            }
        }
    }
}

/// The yield to maturity solves the bond's price: the periodic yield it is taken from
/// prices the bond to within 1e-7 when the solve converges, and to within 0.01 of price
/// (the relaxed tolerance, with a warning) when it runs out of iterations.
pub proof fn lemma_ytm_prices_bond(c: Dec, face: Dec, price: Dec, n_periods: Dec)
    requires
        solve_ytm_spec(c, face, price, n_periods) is Ok,
    ensures
        ({
            let (x, w) = solve_ytm_spec(c, face, price, n_periods)->Ok_0;
            let n = to_u32_spec(n_periods) as nat;
            &&& w is None ==> prices_bond(c, face, price, n, x)
            &&& w is Some ==> (relaxed_residual(c, face, price, n, x) matches Some(res) && res.lt_spec(
                Dec::lit(1, 2),
            ))
        }),
{
    match ytm_start(c, price) {
        Some(r0) => {
            if ytm_outcome(c, face, price, n_periods) matches Some(YtmOutcome::Converged(_)) {
                lemma_newton_converged(c, face, price, to_u32_spec(n_periods) as nat, r0, 0);
            }
        },
        None => {},
    }
}

} // verus!
