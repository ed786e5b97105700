//! Duration, convexity, DV01 and key rate durations of a fixed-rate bullet bond, priced by
//! period-by-period discounting.
use vstd::prelude::*;

use crate::dec::{dzero, group_dec, lift, nat_digits, oadd, odiv, omul, osub, sum_seq, sum_vec, u32_to_string, Dec};
use crate::error::{division_by_zero, err_view, invalid_input, ov, overflow, res_view, ErrView, FinError, FinResult};
use crate::fixed_income::yields::{decimal_to_u32, one, to_u32_spec, valid_frequency};
use crate::types::ComputationOutput;

verus! {

broadcast use group_dec;

pub struct DurationInput {
    /// Par value of the bond.
    pub face_value: Dec,
    /// Annual coupon rate (0.05 = 5%).
    pub coupon_rate: Dec,
    /// Coupon payments per year: 1, 2, 4 or 12.
    pub coupon_frequency: u8,
    /// Yield to maturity.
    pub ytm: Dec,
    pub years_to_maturity: Dec,
    /// Yield shift in basis points for effective duration; 10 when absent.
    pub yield_shift_bps: Option<Dec>,
    /// Tenors for key rate durations.
    pub key_rate_tenors: Option<Vec<Dec>>,
}

pub struct DurationOutput {
    /// Weighted-average time of the cash flows, in years.
    pub macaulay_duration: Dec,
    /// Macaulay duration / (1 + y/freq).
    pub modified_duration: Dec,
    /// (P_down - P_up) / (2 * P * shift).
    pub effective_duration: Dec,
    pub convexity: Dec,
    /// modified duration * price * 0.0001.
    pub dv01: Dec,
    pub price: Dec,
    pub price_up: Dec,
    pub price_down: Dec,
    /// Price change (fraction) for a 100 bp rise: -D * 0.01 + 0.5 * C * 0.01^2.
    pub price_change_estimate: Dec,
    pub key_rate_durations: Option<Vec<KeyRateDuration>>,
}

pub struct KeyRateDuration {
    pub tenor: Dec,
    /// Partial duration at this tenor.
    pub duration: Dec,
    /// Share of the total key rate duration (zero when the total is zero).
    pub contribution_pct: Dec,
}

/// The yield curve bumped at one tenor: the shift tapers linearly to zero at the
/// neighbouring tenors.
pub struct KrdBump {
    pub ytm: Dec,
    pub freq: Dec,
    pub target: Dec,
    pub lower: Dec,
    pub upper: Dec,
    pub shift: Dec,
}

/// The analysis as values.
pub struct DurationFigures {
    pub macaulay: Dec,
    pub modified: Dec,
    pub effective: Dec,
    pub convexity: Dec,
    pub dv01: Dec,
    pub price: Dec,
    pub price_up: Dec,
    pub price_down: Dec,
    pub change: Dec,
    pub krd: Option<Seq<KeyRateDuration>>,
}

// ---------------------------------------------------------------------------
// Specification
// ---------------------------------------------------------------------------

pub open spec fn duration_validation(i: DurationInput) -> Option<ErrView> {
    if i.face_value.le_spec(dzero()) {
        Some(invalid_input("face_value"@, "Face value must be positive."@))
    } else if i.coupon_rate.lt_spec(dzero()) {
        Some(invalid_input("coupon_rate"@, "Coupon rate must be non-negative."@))
    } else if !valid_frequency(i.coupon_frequency) {
        Some(invalid_input("coupon_frequency"@, "Coupon frequency must be 1, 2, 4, or 12."@))
    } else if i.ytm.le_spec(Dec::lit(-1, 0)) {
        Some(invalid_input("ytm"@, "YTM must be greater than -1 (i.e. > -100%)."@))
    } else if i.years_to_maturity.le_spec(dzero()) {
        Some(invalid_input("years_to_maturity"@, "Years to maturity must be positive."@))
    } else {
        None
    }
}

/// The cash flow of period `t` of `n`: the coupon, plus the face value at maturity.
pub open spec fn cash_flow(c: Dec, face: Dec, t: nat, n: nat) -> Option<Dec> {
    if t == n {
        c.add_spec(face)
    } else {
        Some(c)
    }
}

/// Periods `t..=n` of the price at 1 + y = `opy`, from discount `df` and value `p`.
pub open spec fn price_loop(c: Dec, face: Dec, opy: Dec, t: nat, n: nat, df: Dec, p: Dec) -> Option<Dec>
    decreases n + 1 - t,
{
    if t > n {
        Some(p)
    } else {
        match df.mul_spec(opy) {
            None => None,
            Some(d) => match oadd(Some(p), odiv(cash_flow(c, face, t, n), Some(d))) {
                None => None,
                Some(p2) => price_loop(c, face, opy, t + 1, n, d, p2),
            },
        }
    }
}

/// The price: sum over periods of cash flow / (1 + y)^t.
pub open spec fn price_spec(c: Dec, face: Dec, y: Dec, n: nat) -> Result<Dec, ErrView> {
    match one().add_spec(y) {
        None => Err(overflow()),
        Some(opy) => if opy.is_zero_spec() {
            Err(division_by_zero("bond pricing: (1 + yield_per_period) is zero"@))
        } else {
            ov(price_loop(c, face, opy, 1, n, one(), dzero()))
        },
    }
}

/// Periods `t..=n` of sum (t / freq) * PV(cash flow).
pub open spec fn mac_loop(c: Dec, face: Dec, opy: Dec, freq: Dec, t: nat, n: nat, df: Dec, ws: Dec) -> Option<Dec>
    decreases n + 1 - t,
{
    if t > n {
        Some(ws)
    } else {
        match df.mul_spec(opy) {
            None => None,
            Some(d) => match (Dec::lit(t as int, 0).div_spec(freq), odiv(cash_flow(c, face, t, n), Some(d))) {
                (Some(ty), Some(pv)) => match oadd(Some(ws), ty.mul_spec(pv)) {
                    None => None,
                    Some(w2) => mac_loop(c, face, opy, freq, t + 1, n, d, w2),
                },
                _ => None,
            },
        }
    }
}

/// Macaulay duration: sum of (t / freq) * PV(cash flow), over the price.
pub open spec fn macaulay_spec(c: Dec, face: Dec, y: Dec, n: nat, freq: Dec, price: Dec) -> Result<Dec, ErrView> {
    if price.is_zero_spec() {
        Err(division_by_zero("Macaulay duration: bond price is zero"@))
    } else {
        match one().add_spec(y) {
            None => Err(overflow()),
            Some(opy) => match mac_loop(c, face, opy, freq, 1, n, one(), dzero()) {
                None => Err(overflow()),
                Some(ws) => ov(ws.div_spec(price)),
            },
        }
    }
}

/// Periods `t..=n` of sum (t / freq) * (t / freq + 1 / freq) * PV(cash flow).
pub open spec fn conv_loop(c: Dec, face: Dec, opy: Dec, freq: Dec, t: nat, n: nat, df: Dec, num: Dec) -> Option<Dec>
    decreases n + 1 - t,
{
    if t > n {
        Some(num)
    } else {
        match df.mul_spec(opy) {
            None => None,
            Some(d) => match Dec::lit(t as int, 0).div_spec(freq) {
                None => None,
                Some(ty) => match (oadd(Some(ty), one().div_spec(freq)), odiv(cash_flow(c, face, t, n), Some(d))) {
                    (Some(tn), Some(pv)) => match oadd(Some(num), omul(ty.mul_spec(tn), Some(pv))) {
                        None => None,
                        Some(n2) => conv_loop(c, face, opy, freq, t + 1, n, d, n2),
                    },
                    _ => None,
                },
            },
        }
    }
}

/// Convexity: the weighted sum over price * (1 + y)^2.
pub open spec fn convexity_spec(c: Dec, face: Dec, y: Dec, n: nat, freq: Dec, price: Dec) -> Result<Dec, ErrView> {
    if price.is_zero_spec() {
        Err(division_by_zero("convexity: bond price is zero"@))
    } else {
        match one().add_spec(y) {
            None => Err(overflow()),
            Some(opy) => match (conv_loop(c, face, opy, freq, 1, n, one(), dzero()), omul(Some(price), opy.mul_spec(opy))) {
                (Some(num), Some(den)) => if den.is_zero_spec() {
                    Err(division_by_zero("convexity: denominator is zero"@))
                } else {
                    ov(num.div_spec(den))
                },
                _ => Err(overflow()),
            },
        }
    }
}

/// Weight of the bump at time `t`: one at the target, linear down to zero at the
/// neighbouring tenors, zero outside them.
pub open spec fn krd_weight(t: Dec, target: Dec, lower: Dec, upper: Dec) -> Option<Dec> {
    if t.eq_spec(target) {
        Some(one())
    } else if t.gt_spec(lower) && t.lt_spec(target) {
        match target.sub_spec(lower) {
            None => None,
            Some(span) => if span.is_zero_spec() {
                Some(one())
            } else {
                odiv(t.sub_spec(lower), Some(span))
            },
        }
    } else if t.gt_spec(target) && t.lt_spec(upper) {
        match upper.sub_spec(target) {
            None => None,
            Some(span) => if span.is_zero_spec() {
                Some(one())
            } else {
                odiv(upper.sub_spec(t), Some(span))
            },
        }
    } else {
        Some(dzero())
    }
}

/// The last tenor below `target` among the first `k`, or zero.
pub open spec fn lower_tenor(ts: Seq<Dec>, target: Dec, k: nat) -> Dec
    decreases k,
{
    if k == 0 {
        dzero()
    } else if ts[k - 1].lt_spec(target) {
        ts[k - 1]
    } else {
        lower_tenor(ts, target, (k - 1) as nat)
    }
}

/// The first tenor above `target` from index `k` on, or `fallback`.
pub open spec fn upper_tenor(ts: Seq<Dec>, target: Dec, fallback: Dec, k: nat) -> Dec
    decreases ts.len() - k,
{
    if k >= ts.len() {
        fallback
    } else if ts[k as int].gt_spec(target) {
        ts[k as int]
    } else {
        upper_tenor(ts, target, fallback, k + 1)
    }
}

/// Periods `s..=t` of the bumped discount factor: df * prod (1 + ytm/freq + shift*w(s/freq)/freq).
pub open spec fn bump_df(b: KrdBump, s: nat, t: nat, df: Dec) -> Option<Dec>
    decreases t + 1 - s,
{
    if s > t {
        Some(df)
    } else {
        match Dec::lit(s as int, 0).div_spec(b.freq) {
            None => None,
            Some(sy) => match krd_weight(sy, b.target, b.lower, b.upper) {
                None => None,
                Some(w) => match oadd(b.ytm.div_spec(b.freq), odiv(b.shift.mul_spec(w), Some(b.freq))) {
                    None => None,
                    Some(syield) => match omul(Some(df), one().add_spec(syield)) {
                        None => None,
                        Some(d2) => bump_df(b, s + 1, t, d2),
                    },
                },
            },
        }
    }
}

pub open spec fn zero_df_message(t: nat) -> Seq<char> {
    "key rate shift: discount factor is zero at period "@ + nat_digits(t)
}

/// Periods `t..=n` of the price under the bumped curve.
pub open spec fn bump_price_loop(b: KrdBump, c: Dec, face: Dec, t: nat, n: nat, p: Dec) -> Result<Dec, ErrView>
    decreases n + 1 - t,
{
    if t > n {
        Ok(p)
    } else {
        match bump_df(b, 1, t, one()) {
            None => Err(overflow()),
            Some(df) => if df.is_zero_spec() {
                Err(division_by_zero(zero_df_message(t)))
            } else {
                match oadd(Some(p), odiv(cash_flow(c, face, t, n), Some(df))) {
                    None => Err(overflow()),
                    Some(p2) => bump_price_loop(b, c, face, t + 1, n, p2),
                }
            },
        }
    }
}

/// The bond's price with the curve bumped by `shift` at `target`.
pub open spec fn bump_price(i: DurationInput, c: Dec, n: nat, freq: Dec, target: Dec, shift: Dec, ts: Seq<Dec>) -> Result<Dec, ErrView> {
    match oadd(Some(one()), i.ytm.div_spec(freq)) {
        None => Err(overflow()),
        Some(base) => if base.is_zero_spec() {
            Err(division_by_zero("key rate shift: (1 + ytm/freq) is zero"@))
        } else {
            let b = KrdBump {
                ytm: i.ytm,
                freq,
                target,
                lower: lower_tenor(ts, target, ts.len()),
                upper: upper_tenor(ts, target, i.years_to_maturity, 0),
                shift,
            };
            bump_price_loop(b, c, i.face_value, 1, n, dzero())
        },
    }
}

/// Partial durations (P_down - P_up) / (2 * P * shift) of the first `k` tenors.
pub open spec fn partials(i: DurationInput, c: Dec, n: nat, freq: Dec, base: Dec, shift: Dec, ts: Seq<Dec>, k: nat) -> Result<Seq<Dec>, ErrView>
    decreases k,
{
    if k == 0 {
        Ok(Seq::empty())
    } else {
        match partials(i, c, n, freq, base, shift, ts, (k - 1) as nat) {
            Err(e) => Err(e),
            Ok(acc) => match bump_price(i, c, n, freq, ts[k - 1], shift, ts) {
                Err(e) => Err(e),
                Ok(pu) => match bump_price(i, c, n, freq, ts[k - 1], shift.neg_spec(), ts) {
                    Err(e) => Err(e),
                    Ok(pd) => match odiv(pd.sub_spec(pu), omul(Dec::lit(2, 0).mul_spec(base), Some(shift))) {
                        None => Err(overflow()),
                        Some(p) => Ok(acc.push(p)),
                    },
                },
            },
        }
    }
}

/// Each partial duration's share of their total (all zero when the total is zero).
pub open spec fn contributions(ds: Seq<Dec>, total: Dec, k: nat) -> Option<Seq<Dec>>
    decreases k,
{
    if k == 0 {
        Some(Seq::empty())
    } else {
        match contributions(ds, total, (k - 1) as nat) {
            None => None,
            Some(acc) => if total.is_zero_spec() {
                Some(acc.push(dzero()))
            } else {
                match ds[k - 1].div_spec(total) {
                    None => None,
                    Some(x) => Some(acc.push(x)),
                }
            },
        }
    }
}

/// Key rate durations at the tenors.
pub open spec fn krd_spec(i: DurationInput, c: Dec, n: nat, freq: Dec, base: Dec, shift: Dec, ts: Seq<Dec>) -> Result<Seq<KeyRateDuration>, ErrView> {
    if base.is_zero_spec() {
        Err(division_by_zero("key rate durations: base price is zero"@))
    } else {
        match partials(i, c, n, freq, base, shift, ts, ts.len()) {
            Err(e) => Err(e),
            Ok(ds) => match sum_seq(ds) {
                None => Err(overflow()),
                Some(total) => match contributions(ds, total, ds.len()) {
                    None => Err(overflow()),
                    Some(cs) => Ok(
                        Seq::new(
                            ds.len(),
                            |q: int| KeyRateDuration { tenor: ts[q], duration: ds[q], contribution_pct: cs[q] },
                        ),
                    ),
                },
            },
        }
    }
}

/// The yield shift as a decimal: basis points (ten by default) times 0.0001.
pub open spec fn shift_spec(i: DurationInput) -> Option<Dec> {
    let bps = match i.yield_shift_bps {
        Some(b) => b,
        None => Dec::lit(10, 0),
    };
    bps.mul_spec(Dec::lit(1, 4))
}

/// -D * 0.01 + 0.5 * C * 0.01 * 0.01.
pub open spec fn change_spec(modified: Dec, conv: Dec) -> Option<Dec> {
    let dy = Dec::lit(1, 2);
    oadd(modified.neg_spec().mul_spec(dy), omul(omul(Dec::lit(5, 1).mul_spec(conv), Some(dy)), Some(dy)))
}

/// The analysis once the inputs are valid, from the per-period coupon `c`, the per-period
/// yield `y`, the number of periods `n` and the shift.
pub open spec fn duration_after(i: DurationInput, c: Dec, y: Dec, n: nat, shift: Dec) -> Result<DurationFigures, ErrView> {
    let freq = Dec::lit(i.coupon_frequency as int, 0);
    match price_spec(c, i.face_value, y, n) {
        Err(e) => Err(e),
        Ok(price) => match macaulay_spec(c, i.face_value, y, n, freq, price) {
            Err(e) => Err(e),
            Ok(mac) => match (
                odiv(Some(mac), one().add_spec(y)),
                odiv(i.ytm.add_spec(shift), Some(freq)),
                odiv(i.ytm.sub_spec(shift), Some(freq)),
            ) {
                (Some(modified), Some(yu), Some(yd)) => match price_spec(c, i.face_value, yu, n) {
                    Err(e) => Err(e),
                    Ok(pu) => match price_spec(c, i.face_value, yd, n) {
                        Err(e) => Err(e),
                        Ok(pd) => if price.is_zero_spec() {
                            Err(division_by_zero("effective duration: base price is zero"@))
                        } else {
                            match odiv(pd.sub_spec(pu), omul(Dec::lit(2, 0).mul_spec(price), Some(shift))) {
                                None => Err(overflow()),
                                Some(eff) => match convexity_spec(c, i.face_value, y, n, freq, price) {
                                    Err(e) => Err(e),
                                    Ok(conv) => match (
                                        omul(modified.mul_spec(price), Some(Dec::lit(1, 4))),
                                        change_spec(modified, conv),
                                    ) {
                                        (Some(dv01), Some(change)) => {
                                            let krd = match i.key_rate_tenors {
                                                None => Ok(None),
                                                Some(ts) => match krd_spec(i, c, n, freq, price, shift, ts@) {
                                                    Err(e) => Err(e),
                                                    Ok(k) => Ok(Some(k)),
                                                },
                                            };
                                            match krd {
                                                Err(e) => Err(e),
                                                Ok(krd) => Ok(
                                                    DurationFigures {
                                                        macaulay: mac,
                                                        modified,
                                                        effective: eff,
                                                        convexity: conv,
                                                        dv01,
                                                        price,
                                                        price_up: pu,
                                                        price_down: pd,
                                                        change,
                                                        krd,
                                                    },
                                                ),
                                            }
                                        },
                                        _ => Err(overflow()),
                                    },
                                },
                            }
                        },
                    },
                },
                _ => Err(overflow()),
            },
        },
    }
}

/// The inputs the pricing works from: (coupon per period, yield per period, periods, shift).
pub open spec fn duration_setup(i: DurationInput) -> Option<(Dec, Dec, nat, Dec)> {
    let freq = Dec::lit(i.coupon_frequency as int, 0);
    match i.years_to_maturity.mul_spec(freq) {
        None => None,
        Some(p) => match (odiv(i.face_value.mul_spec(i.coupon_rate), Some(freq)), i.ytm.div_spec(freq), shift_spec(i)) {
            (Some(c), Some(y), Some(s)) => Some((c, y, to_u32_spec(p) as nat, s)),
            _ => None,
        },
    }
}

pub open spec fn duration_spec(i: DurationInput) -> Result<DurationFigures, ErrView> {
    match duration_validation(i) {
        Some(e) => Err(e),
        None => match duration_setup(i) {
            None => Err(overflow()),
            Some(s) => duration_after(i, s.0, s.1, s.2, s.3),
        },
    }
}

// ---------------------------------------------------------------------------
// Implementation
// ---------------------------------------------------------------------------

fn str_of(s: &str) -> (r: String)
    ensures
        r@ == s@,
{
    String::from_str(s)
}

fn validate_input(input: &DurationInput) -> (r: FinResult<()>)
    ensures
        r is Err <==> duration_validation(*input) is Some,
        r matches Err(e) ==> duration_validation(*input) == Some(err_view(e)),
{
    let zero = Dec::zero();
    if input.face_value.le(&zero) {
        return Err(FinError::InvalidInput { field: str_of("face_value"), reason: str_of("Face value must be positive.") });
    }
    if input.coupon_rate.lt(&zero) {
        return Err(
            FinError::InvalidInput { field: str_of("coupon_rate"), reason: str_of("Coupon rate must be non-negative.") },
        );
    }
    let f = input.coupon_frequency;
    if !(f == 1 || f == 2 || f == 4 || f == 12) {
        return Err(
            FinError::InvalidInput {
                field: str_of("coupon_frequency"),
                reason: str_of("Coupon frequency must be 1, 2, 4, or 12."),
            },
        );
    }
    if input.ytm.le(&Dec::from_int(-1)) {
        return Err(
            FinError::InvalidInput {
                field: str_of("ytm"),
                reason: str_of("YTM must be greater than -1 (i.e. > -100%)."),
            },
        );
    }
    if input.years_to_maturity.le(&zero) {
        return Err(
            FinError::InvalidInput {
                field: str_of("years_to_maturity"),
                reason: str_of("Years to maturity must be positive."),
            },
        );
    }
    Ok(())
}

fn cash_flow_exec(c: Dec, face: Dec, t: u64, n: u32) -> (r: FinResult<Dec>)
    ensures
        r == lift(cash_flow(c, face, t as nat, n as nat)),
{
    if t == n as u64 {
        c.add(&face)
    } else {
        Ok(c)
    }
}

/// The price of a bullet bond: sum over periods of cash flow / (1 + y)^t.
fn price_bond(c: Dec, face: Dec, y: Dec, n: u32) -> (r: FinResult<Dec>)
    ensures
        res_view(r) == price_spec(c, face, y, n as nat),
{
    let opy = Dec::one().add(&y)?;
    if opy.is_zero() {
        return Err(FinError::DivisionByZero { context: str_of("bond pricing: (1 + yield_per_period) is zero") });
    }
    let mut price = Dec::zero();
    let mut df = Dec::one();
    let mut t: u64 = 1;
    while t <= n as u64
        invariant
            1 <= t <= n as u64 + 1,
            one().add_spec(y) == Some(opy),
            !opy.is_zero_spec(),
            price_loop(c, face, opy, 1, n as nat, one(), dzero()) == price_loop(c, face, opy, t as nat, n as nat, df, price),
        decreases n as u64 + 1 - t,
    {
        df = df.mul(&opy)?;
        let cf = cash_flow_exec(c, face, t, n)?;
        price = price.add(&cf.div(&df)?)?;
        t = t + 1;
    }
    Ok(price)
}

/// Macaulay duration: sum of (t / freq) * PV(cash flow), over the price.
fn compute_macaulay(c: Dec, face: Dec, y: Dec, n: u32, freq: Dec, price: Dec) -> (r: FinResult<Dec>)
    ensures
        res_view(r) == macaulay_spec(c, face, y, n as nat, freq, price),
{
    if price.is_zero() {
        return Err(FinError::DivisionByZero { context: str_of("Macaulay duration: bond price is zero") });
    }
    let opy = Dec::one().add(&y)?;
    let mut ws = Dec::zero();
    let mut df = Dec::one();
    let mut t: u64 = 1;
    while t <= n as u64
        invariant
            1 <= t <= n as u64 + 1,
            one().add_spec(y) == Some(opy),
            !price.is_zero_spec(),
            mac_loop(c, face, opy, freq, 1, n as nat, one(), dzero()) == mac_loop(
                c,
                face,
                opy,
                freq,
                t as nat,
                n as nat,
                df,
                ws,
            ),
        decreases n as u64 + 1 - t,
    {
        df = df.mul(&opy)?;
        let ty = Dec::from_u64(t).div(&freq)?;
        let pv = cash_flow_exec(c, face, t, n)?.div(&df)?;
        ws = ws.add(&ty.mul(&pv)?)?;
        t = t + 1;
    }
    ws.div(&price)
}

/// Convexity: sum of (t/f) * (t/f + 1/f) * PV(cash flow), over price * (1 + y)^2.
fn compute_convexity(c: Dec, face: Dec, y: Dec, n: u32, freq: Dec, price: Dec) -> (r: FinResult<Dec>)
    ensures
        res_view(r) == convexity_spec(c, face, y, n as nat, freq, price),
{
    if price.is_zero() {
        return Err(FinError::DivisionByZero { context: str_of("convexity: bond price is zero") });
    }
    let one = Dec::one();
    let opy = one.add(&y)?;
    let mut num = Dec::zero();
    let mut df = Dec::one();
    let mut t: u64 = 1;
    while t <= n as u64
        invariant
            1 <= t <= n as u64 + 1,
            one == Dec::lit(1, 0),
            !price.is_zero_spec(),
            Dec::lit(1, 0).add_spec(y) == Some(opy),
            conv_loop(c, face, opy, freq, 1, n as nat, Dec::lit(1, 0), dzero()) == conv_loop(
                c,
                face,
                opy,
                freq,
                t as nat,
                n as nat,
                df,
                num,
            ),
        decreases n as u64 + 1 - t,
    {
        df = df.mul(&opy)?;
        let ty = Dec::from_u64(t).div(&freq)?;
        let tn = ty.add(&one.div(&freq)?)?;
        let pv = cash_flow_exec(c, face, t, n)?.div(&df)?;
        num = num.add(&ty.mul(&tn)?.mul(&pv)?)?;
        t = t + 1;
    }
    let den = price.mul(&opy.mul(&opy)?)?;
    if den.is_zero() {
        return Err(FinError::DivisionByZero { context: str_of("convexity: denominator is zero") });
    }
    num.div(&den)
}

/// Weight of a key-rate bump at time `t`.
fn key_rate_weight(t: Dec, target: Dec, lower: Dec, upper: Dec) -> (r: FinResult<Dec>)
    ensures
        r == lift(krd_weight(t, target, lower, upper)),
{
    if t.eq(&target) {
        Ok(Dec::one())
    } else if t.gt(&lower) && t.lt(&target) {
        let span = target.sub(&lower)?;
        if span.is_zero() {
            Ok(Dec::one())
        } else {
            t.sub(&lower)?.div(&span)
        }
    } else if t.gt(&target) && t.lt(&upper) {
        let span = upper.sub(&target)?;
        if span.is_zero() {
            Ok(Dec::one())
        } else {
            upper.sub(&t)?.div(&span)
        }
    } else {
        Ok(Dec::zero())
    }
}

fn bump_df_exec(b: &KrdBump, t: u64) -> (r: FinResult<Dec>)
    requires
        t <= u32::MAX,
    ensures
        r == lift(bump_df(*b, 1, t as nat, one())),
{
    let one = Dec::one();
    let mut df = Dec::one();
    let mut s: u64 = 1;
    while s <= t
        invariant
            1 <= s <= t + 1,
            one == Dec::lit(1, 0),
            t <= u32::MAX,
            bump_df(*b, 1, t as nat, Dec::lit(1, 0)) == bump_df(*b, s as nat, t as nat, df),
        decreases t + 1 - s,
    {
        let sy = Dec::from_u64(s).div(&b.freq)?;
        let w = key_rate_weight(sy, b.target, b.lower, b.upper)?;
        let syield = b.ytm.div(&b.freq)?.add(&b.shift.mul(&w)?.div(&b.freq)?)?;
        df = df.mul(&one.add(&syield)?)?;
        s = s + 1;
    }
    Ok(df)
}

fn lower_tenor_exec(ts: &Vec<Dec>, target: Dec) -> (r: Dec)
    ensures
        r == lower_tenor(ts@, target, ts@.len()),
{
    let mut k: usize = ts.len();
    while k > 0 && !ts[k - 1].lt(&target)
        invariant
            k <= ts@.len(),
            lower_tenor(ts@, target, ts@.len()) == lower_tenor(ts@, target, k as nat),
        decreases k,
    {
        k = k - 1;
    }
    if k == 0 {
        Dec::zero()
    } else {
        ts[k - 1]
    }
}

fn upper_tenor_exec(ts: &Vec<Dec>, target: Dec, fallback: Dec) -> (r: Dec)
    ensures
        r == upper_tenor(ts@, target, fallback, 0),
{
    let mut k: usize = 0;
    while k < ts.len() && !ts[k].gt(&target)
        invariant
            k <= ts@.len(),
            upper_tenor(ts@, target, fallback, 0) == upper_tenor(ts@, target, fallback, k as nat),
        decreases ts@.len() - k,
    {
        k = k + 1;
    }
    if k == ts.len() {
        fallback
    } else {
        ts[k]
    }
}

/// The bond's price with the curve bumped by `shift` at `target`, the bump tapering linearly
/// to the neighbouring tenors.
fn price_with_key_rate_shift(input: &DurationInput, c: Dec, n: u32, freq: Dec, target: Dec, shift: Dec, ts: &Vec<Dec>) -> (r: FinResult<Dec>)
    ensures
        res_view(r) == bump_price(*input, c, n as nat, freq, target, shift, ts@),
{
    let base = Dec::one().add(&input.ytm.div(&freq)?)?;
    if base.is_zero() {
        return Err(FinError::DivisionByZero { context: str_of("key rate shift: (1 + ytm/freq) is zero") });
    }
    let b = KrdBump {
        ytm: input.ytm,
        freq,
        target,
        lower: lower_tenor_exec(ts, target),
        upper: upper_tenor_exec(ts, target, input.years_to_maturity),
        shift,
    };
    let mut price = Dec::zero();
    let mut t: u64 = 1;
    while t <= n as u64
        invariant
            1 <= t <= n as u64 + 1,
            bump_price(*input, c, n as nat, freq, target, shift, ts@) == bump_price_loop(
                b,
                c,
                input.face_value,
                t as nat,
                n as nat,
                price,
            ),
        decreases n as u64 + 1 - t,
    {
        let df = bump_df_exec(&b, t)?;
        if df.is_zero() {
            let m = str_of("key rate shift: discount factor is zero at period ").concat(
                u32_to_string(t as u32).as_str(),
            );
            proof {
                assert(m@ =~= zero_df_message(t as nat));
            }
            return Err(FinError::DivisionByZero { context: m });
        }
        let cf = cash_flow_exec(c, input.face_value, t, n)?;
        price = price.add(&cf.div(&df)?)?;
        t = t + 1;
    }
    Ok(price)
}

proof fn lemma_partials_err(i: DurationInput, c: Dec, n: nat, freq: Dec, base: Dec, shift: Dec, ts: Seq<Dec>, k: nat, m: nat)
    requires
        k <= m,
        partials(i, c, n, freq, base, shift, ts, k) is Err,
    ensures
        partials(i, c, n, freq, base, shift, ts, m) == partials(i, c, n, freq, base, shift, ts, k),
    decreases m - k,
{
    if k < m {
        lemma_partials_err(i, c, n, freq, base, shift, ts, k, (m - 1) as nat);
    }
}

proof fn lemma_contrib_none(ds: Seq<Dec>, total: Dec, k: nat, m: nat)
    requires
        k <= m,
        contributions(ds, total, k) is None,
    ensures
        contributions(ds, total, m) is None,
    decreases m - k,
{
    if k < m {
        lemma_contrib_none(ds, total, k, (m - 1) as nat);
    }
}

proof fn lemma_partials_len(i: DurationInput, c: Dec, n: nat, freq: Dec, base: Dec, shift: Dec, ts: Seq<Dec>, k: nat)
    requires
        partials(i, c, n, freq, base, shift, ts, k) is Ok,
    ensures
        partials(i, c, n, freq, base, shift, ts, k)->Ok_0.len() == k,
    decreases k,
{
    if k > 0 {
        lemma_partials_len(i, c, n, freq, base, shift, ts, (k - 1) as nat);
    }
}

proof fn lemma_contrib_len(ds: Seq<Dec>, total: Dec, k: nat)
    requires
        contributions(ds, total, k) is Some,
    ensures
        contributions(ds, total, k)->Some_0.len() == k,
    decreases k,
{
    if k > 0 {
        lemma_contrib_len(ds, total, (k - 1) as nat);
    }
}

/// Key rate durations: the partial duration at each tenor and its share of the total.
fn compute_key_rate_durations(input: &DurationInput, c: Dec, n: u32, freq: Dec, base: Dec, shift: Dec, ts: &Vec<Dec>) -> (r: FinResult<Vec<KeyRateDuration>>)
    ensures
        r is Err <==> krd_spec(*input, c, n as nat, freq, base, shift, ts@) is Err,
        r matches Err(e) ==> krd_spec(*input, c, n as nat, freq, base, shift, ts@) == Err::<Seq<KeyRateDuration>, ErrView>(
            err_view(e),
        ),
        r matches Ok(v) ==> krd_spec(*input, c, n as nat, freq, base, shift, ts@) == Ok::<Seq<KeyRateDuration>, ErrView>(
            v@,
        ),
{
    if base.is_zero() {
        return Err(FinError::DivisionByZero { context: str_of("key rate durations: base price is zero") });
    }
    let two = Dec::new(2, 0);
    let mut ds: Vec<Dec> = Vec::new();
    let mut k: usize = 0;
    while k < ts.len()
        invariant
            k <= ts@.len(),
            two == Dec::lit(2, 0),
            !base.is_zero_spec(),
            partials(*input, c, n as nat, freq, base, shift, ts@, k as nat) == Ok::<Seq<Dec>, ErrView>(ds@),
        decreases ts@.len() - k,
    {
        let tenor = ts[k];
        let step = match price_with_key_rate_shift(input, c, n, freq, tenor, shift, ts) {
            Ok(pu) => match price_with_key_rate_shift(input, c, n, freq, tenor, shift.neg(), ts) {
                Ok(pd) => match pd.sub(&pu) {
                    Ok(diff) => match two.mul(&base) {
                        Ok(tb) => match tb.mul(&shift) {
                            Ok(den) => diff.div(&den),
                            Err(e) => Err(e),
                        },
                        Err(e) => Err(e),
                    },
                    Err(e) => Err(e),
                },
                Err(e) => Err(e),
            },
            Err(e) => Err(e),
        };
        match step {
            Ok(p) => {
                ds.push(p);
            },
            Err(e) => {
                proof {
                    lemma_partials_err(*input, c, n as nat, freq, base, shift, ts@, (k + 1) as nat, ts@.len() as nat);
                }
                return Err(e);
            },
        }
        k = k + 1;
    }
    proof {
        lemma_partials_len(*input, c, n as nat, freq, base, shift, ts@, ts@.len() as nat);
    }
    let total = sum_vec(&ds)?;
    let mut out: Vec<KeyRateDuration> = Vec::new();
    let mut j: usize = 0;
    while j < ds.len()
        invariant
            j <= ds@.len(),
            ds@.len() == ts@.len(),
            !base.is_zero_spec(),
            partials(*input, c, n as nat, freq, base, shift, ts@, ts@.len() as nat) == Ok::<Seq<Dec>, ErrView>(ds@),
            sum_seq(ds@) == Some(total),
            contributions(ds@, total, j as nat) == Some(out@.map_values(|x: KeyRateDuration| x.contribution_pct)),
            out@.len() == j,
            forall|q: int| 0 <= q < j ==> (#[trigger] out@[q]).tenor == ts@[q] && out@[q].duration == ds@[q],
        decreases ds@.len() - j,
    {
        let cp = if total.is_zero() {
            Dec::zero()
        } else {
            match ds[j].div(&total) {
                Ok(x) => x,
                Err(e) => {
                    proof {
                        lemma_contrib_none(ds@, total, (j + 1) as nat, ds@.len() as nat);
                    }
                    return Err(e);
                },
            }
        };
        let ghost before = out@.map_values(|x: KeyRateDuration| x.contribution_pct);
        out.push(KeyRateDuration { tenor: ts[j], duration: ds[j], contribution_pct: cp });
        proof {
            assert(out@.map_values(|x: KeyRateDuration| x.contribution_pct) =~= before.push(cp));
        }
        j = j + 1;
    }
    proof {
        let cs = out@.map_values(|x: KeyRateDuration| x.contribution_pct);
        assert(out@ =~= Seq::new(
            ds@.len(),
            |q: int| KeyRateDuration { tenor: ts@[q], duration: ds@[q], contribution_pct: cs[q] },
        ));
    }
    Ok(out)
}

/// Duration, convexity, DV01, prices under a parallel shift, a price-change estimate and,
/// when tenors are given, key rate durations of a fixed-rate bullet bond.
pub fn calculate_duration(input: &DurationInput) -> (r: FinResult<ComputationOutput<DurationOutput>>)
    ensures
        r is Err <==> duration_spec(*input) is Err,
        r matches Err(e) ==> duration_spec(*input) == Err::<DurationFigures, ErrView>(err_view(e)),
        r matches Ok(o) ==> {
            let f = duration_spec(*input)->Ok_0;
            &&& o.methodology@ == "Bond Duration & Convexity (CFA Fixed Income Analytics)"@
            &&& o.warnings@.len() == 0
            &&& o.result.macaulay_duration == f.macaulay
            &&& o.result.modified_duration == f.modified
            &&& o.result.effective_duration == f.effective
            &&& o.result.convexity == f.convexity
            &&& o.result.dv01 == f.dv01
            &&& o.result.price == f.price
            &&& o.result.price_up == f.price_up
            &&& o.result.price_down == f.price_down
            &&& o.result.price_change_estimate == f.change
            &&& (o.result.key_rate_durations is None <==> f.krd is None)
            &&& (o.result.key_rate_durations matches Some(v) ==> f.krd == Some(v@))
        },
{
    validate_input(input)?;
    let freq = Dec::from_u64(input.coupon_frequency as u64);
    let n = decimal_to_u32(input.years_to_maturity.mul(&freq)?);
    let c = input.face_value.mul(&input.coupon_rate)?.div(&freq)?;
    let y = input.ytm.div(&freq)?;
    let bps = match input.yield_shift_bps {
        Some(b) => b,
        None => Dec::new(10, 0),
    };
    let shift = bps.mul(&Dec::new(1, 4))?;
    let price = price_bond(c, input.face_value, y, n)?;
    let mac = compute_macaulay(c, input.face_value, y, n, freq, price)?;
    let modified = mac.div(&Dec::one().add(&y)?)?;
    let yu = input.ytm.add(&shift)?.div(&freq)?;
    let yd = input.ytm.sub(&shift)?.div(&freq)?;
    let pu = price_bond(c, input.face_value, yu, n)?;
    let pd = price_bond(c, input.face_value, yd, n)?;
    if price.is_zero() {
        return Err(FinError::DivisionByZero { context: str_of("effective duration: base price is zero") });
    }
    let eff = pd.sub(&pu)?.div(&Dec::new(2, 0).mul(&price)?.mul(&shift)?)?;
    let conv = compute_convexity(c, input.face_value, y, n, freq, price)?;
    let dv01 = modified.mul(&price)?.mul(&Dec::new(1, 4))?;
    let dy = Dec::new(1, 2);
    let change = modified.neg().mul(&dy)?.add(&Dec::new(5, 1).mul(&conv)?.mul(&dy)?.mul(&dy)?)?;
    let krd = match &input.key_rate_tenors {
        Some(ts) => Some(compute_key_rate_durations(input, c, n, freq, price, shift, ts)?),
        None => None,
    };
    Ok(
        ComputationOutput {
            methodology: str_of("Bond Duration & Convexity (CFA Fixed Income Analytics)"),
            warnings: Vec::new(),
            result: DurationOutput {
                macaulay_duration: mac,
                modified_duration: modified,
                effective_duration: eff,
                convexity: conv,
                dv01,
                price,
                price_up: pu,
                price_down: pd,
                price_change_estimate: change,
                key_rate_durations: krd,
            },
        },
    )
}

} // verus!
