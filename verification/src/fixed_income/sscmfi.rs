//! Bond calculations after the SSCMFI conventions: security and payment types, day counts,
//! end-of-month rules and coupon frequencies.
use vstd::prelude::*;

use crate::dec::{dzero, group_dec, lift, oadd, odiv, omul, osub, parse_u32, u32_from_text, Dec};
use crate::error::{err_view, invalid_input, overflow, ErrView, FinError, FinResult};
use crate::types::ComputationOutput;
use crate::fixed_income::yields::{decimal_to_u32, fpow_spec, ipow_spec, iterative_pow, iterative_pow_fractional, to_u32_spec};

verus! {

broadcast use group_dec;

#[derive(Debug, Clone, Copy, PartialEq, Eq, Structural)]
pub enum SscmfiSecurityType {
    Treasury,
    Agency,
    Corporate,
    Municipal,
    CD,
}

#[derive(Debug, Clone, Copy, PartialEq, Eq, Structural)]
pub enum SscmfiPaymentType {
    Periodic,
    Discount,
    IAM,
    Stepped,
    Multistep,
    PIK,
    PartPIK,
}

impl Default for SscmfiPaymentType {
    fn default() -> (r: Self)
        ensures
            r == SscmfiPaymentType::Periodic,
    {
        SscmfiPaymentType::Periodic
    }
}

#[allow(non_camel_case_types)]
#[derive(Debug, Clone, Copy, PartialEq, Eq, Structural)]
pub enum SscmfiDayCount {
    SSCM30_360,
    ActualActual,
    Actual360,
    Actual365,
}

#[derive(Debug, Clone, Copy, PartialEq, Eq, Structural)]
pub enum SscmfiEomRule {
    Adjust,
    NoAdjust,
}

impl Default for SscmfiEomRule {
    fn default() -> (r: Self)
        ensures
            r == SscmfiEomRule::Adjust,
    {
        SscmfiEomRule::Adjust
    }
}

#[derive(Debug, Clone, Copy, PartialEq, Eq, Structural)]
pub enum SscmfiFrequency {
    Annual,
    Semiannual,
    Quarterly,
    Monthly,
}

impl SscmfiFrequency {
    /// Coupon payments per year.
    pub open spec fn per_year(self) -> u8 {
        match self {
            SscmfiFrequency::Annual => 1,
            SscmfiFrequency::Semiannual => 2,
            SscmfiFrequency::Quarterly => 4,
            SscmfiFrequency::Monthly => 12,
        }
    }

    /// Coupon payments per year.
    pub fn to_u8(&self) -> (r: u8)
        ensures
            r == self.per_year(),
    {
        match self {
            SscmfiFrequency::Annual => 1,
            SscmfiFrequency::Semiannual => 2,
            SscmfiFrequency::Quarterly => 4,
            SscmfiFrequency::Monthly => 12,
        }
    }
}

pub struct CallRedemption {
    pub date: String,
    pub price: Dec,
}

pub struct StepSchedule {
    pub date: String,
    pub coupon_rate: Dec,
}

pub struct SscmfiBondInput {
    pub security_type: SscmfiSecurityType,
    pub payment_type: SscmfiPaymentType,
    pub maturity_date: String,
    pub coupon_rate: Dec,
    pub given_type: String,
    pub given_value: Dec,
    pub settlement_date: Option<String>,
    pub redemption_value: Option<Dec>,
    pub day_count: Option<SscmfiDayCount>,
    pub eom_rule: Option<SscmfiEomRule>,
    pub frequency: Option<SscmfiFrequency>,
    pub call_schedule: Option<Vec<CallRedemption>>,
    pub step_schedule: Option<Vec<StepSchedule>>,
    pub pik_rate: Option<Dec>,
    pub cash_rate: Option<Dec>,
    pub calc_analytics: Option<bool>,
    pub calc_cashflows: Option<bool>,
}

#[derive(Debug, Clone, Copy)]
pub struct SscmfiAnalytics {
    pub macaulay_duration: Dec,
    pub modified_duration: Dec,
    pub convexity: Dec,
    pub pv01: Dec,
    pub yv32: Dec,
}

pub struct SscmfiCashflow {
    pub period: u32,
    pub amount: Dec,
    pub cashflow_type: String,
}

pub struct SscmfiRedemptionInfo {
    pub redemption_type: String,
    pub redemption_date: String,
    pub redemption_price: Dec,
    pub worst_yield: Option<Dec>,
}

pub struct SscmfiConventions {
    pub day_count: String,
    pub frequency: String,
    pub eom_rule: String,
    pub settlement_date: String,
}

pub struct SscmfiBondOutput {
    pub price: Dec,
    pub yield_value: Dec,
    pub accrued_interest: Dec,
    pub trading_price: Dec,
    pub analytics: Option<SscmfiAnalytics>,
    pub cashflow_schedule: Option<Vec<SscmfiCashflow>>,
    pub redemption_info: SscmfiRedemptionInfo,
    pub conventions: SscmfiConventions,
}

// ---------------------------------------------------------------------------
// Dates written MM/DD/YYYY
// ---------------------------------------------------------------------------

/// Position of the first '/' at or after `i` (the length when there is none).
pub open spec fn slash_from(s: Seq<char>, i: nat) -> nat
    decreases s.len() - i,
{
    if i >= s.len() {
        s.len()
    } else if s[i as int] == '/' {
        i
    } else {
        slash_from(s, i + 1)
    }
}

/// How many '/' a text holds.
pub open spec fn count_slashes(s: Seq<char>) -> nat
    decreases s.len(),
{
    if s.len() == 0 {
        0
    } else {
        count_slashes(s.drop_last()) + if s.last() == '/' {
            1nat
        } else {
            0nat
        }
    }
}

/// The three pieces of a text with two '/': before the first, between, after the second.
pub open spec fn date_pieces(s: Seq<char>) -> (Seq<char>, Seq<char>, Seq<char>) {
    let p1 = slash_from(s, 0);
    let p2 = slash_from(s, p1 + 1);
    (s.subrange(0, p1 as int), s.subrange(p1 + 1int, p2 as int), s.subrange(p2 + 1int, s.len() as int))
}

/// `prefix` + the date + "'".
pub open spec fn quoted(prefix: Seq<char>, date: Seq<char>) -> Seq<char> {
    prefix + date + "'"@
}

/// A date read as (year, month, day), or the error naming what is wrong with it.
pub open spec fn date_parts_spec(date: Seq<char>) -> Result<(u32, u32, u32), ErrView> {
    if count_slashes(date) != 2 {
        Err(invalid_input("date"@, quoted("Date must be in MM/DD/YYYY format, got '"@, date)))
    } else {
        let (a, b, c) = date_pieces(date);
        match (u32_from_text(a), u32_from_text(b), u32_from_text(c)) {
            (None, _, _) => Err(invalid_input("date"@, quoted("Invalid month in date '"@, date))),
            (Some(_), None, _) => Err(invalid_input("date"@, quoted("Invalid day in date '"@, date))),
            (Some(_), Some(_), None) => Err(invalid_input("date"@, quoted("Invalid year in date '"@, date))),
            (Some(month), Some(day), Some(year)) => if month == 0 || month > 12 || day == 0 || day > 31 {
                Err(invalid_input("date"@, quoted("Invalid date values in '"@, date)))
            } else {
                Ok((year, month, day))
            },
        }
    }
}

/// An approximate day number: year * 365.25 + month * 30.4375 + day.
pub open spec fn day_number(p: (u32, u32, u32)) -> Option<Dec> {
    oadd(
        oadd(
            Dec::lit(p.0 as int, 0).mul_spec(Dec::lit(36525, 2)),
            Dec::lit(p.1 as int, 0).mul_spec(Dec::lit(304375, 4)),
        ),
        Some(Dec::lit(p.2 as int, 0)),
    )
}

/// Approximate years from one date to another: the difference of their day numbers over
/// 365.25.
pub open spec fn years_spec(from: Seq<char>, to: Seq<char>) -> Result<Dec, ErrView> {
    match date_parts_spec(from) {
        Err(e) => Err(e),
        Ok(f) => match date_parts_spec(to) {
            Err(e) => Err(e),
            Ok(t) => match odiv(osub(day_number(t), day_number(f)), Some(Dec::lit(36525, 2))) {
                None => Err(overflow()),
                Some(y) => Ok(y),
            },
        },
    }
}

proof fn lemma_count_slashes_step(s: Seq<char>, j: int)
    requires
        0 <= j < s.len(),
    ensures
        count_slashes(s.take(j + 1)) == count_slashes(s.take(j)) + if s[j] == '/' {
            1nat
        } else {
            0nat
        },
{
    assert(s.take(j + 1).drop_last() =~= s.take(j));
}

fn quoted_exec(prefix: &str, date: &str) -> (r: String)
    ensures
        r@ == quoted(prefix@, date@),
{
    let r = String::from_str(prefix).concat(date).concat("'");
    proof {
        assert(r@ =~= quoted(prefix@, date@));
    }
    r
}

/// Reads a date written MM/DD/YYYY as (year, month, day).
pub fn parse_date_parts(date: &str) -> (r: FinResult<(u32, u32, u32)>)
    ensures
        r is Err <==> date_parts_spec(date@) is Err,
        r matches Ok(p) ==> date_parts_spec(date@) == Ok::<(u32, u32, u32), ErrView>(p),
        r matches Err(e) ==> date_parts_spec(date@) == Err::<(u32, u32, u32), ErrView>(err_view(e)),
{
    let n = date.unicode_len();
    let mut count: usize = 0;
    let mut p1: usize = n;
    let mut p2: usize = n;
    let mut j: usize = 0;
    while j < n
        invariant
            j <= n,
            n == date@.len(),
            count == count_slashes(date@.take(j as int)),
            count <= j,
            count == 0 ==> p1 == n && p2 == n && slash_from(date@, 0) == slash_from(date@, j as nat),
            count >= 1 ==> p1 < j && slash_from(date@, 0) == p1,
            count == 1 ==> p2 == n && slash_from(date@, p1 as nat + 1) == slash_from(date@, j as nat),
            count >= 2 ==> p2 < j && p1 < p2 && slash_from(date@, p1 as nat + 1) == p2,
        decreases n - j,
    {
        proof {
            lemma_count_slashes_step(date@, j as int);
        }
        let c = date.get_char(j);
        proof {
            if c != '/' {
                assert(slash_from(date@, j as nat) == slash_from(date@, j as nat + 1));
            }
        }
        if c == '/' {
            if count == 0 {
                p1 = j;
            } else if count == 1 {
                p2 = j;
            }
            count = count + 1;
        }
        j = j + 1;
    }
    proof {
        assert(date@.take(n as int) =~= date@);
    }
    if count != 2 {
        return Err(
            FinError::InvalidInput {
                field: String::from_str("date"),
                reason: quoted_exec("Date must be in MM/DD/YYYY format, got '", date),
            },
        );
    }
    let a = date.substring_char(0, p1);
    let b = date.substring_char(p1 + 1, p2);
    let c = date.substring_char(p2 + 1, n);
    let month = match parse_u32(a) {
        Some(v) => v,
        None => {
            return Err(
                FinError::InvalidInput {
                    field: String::from_str("date"),
                    reason: quoted_exec("Invalid month in date '", date),
                },
            );
        },
    };
    let day = match parse_u32(b) {
        Some(v) => v,
        None => {
            return Err(
                FinError::InvalidInput {
                    field: String::from_str("date"),
                    reason: quoted_exec("Invalid day in date '", date),
                },
            );
        },
    };
    let year = match parse_u32(c) {
        Some(v) => v,
        None => {
            return Err(
                FinError::InvalidInput {
                    field: String::from_str("date"),
                    reason: quoted_exec("Invalid year in date '", date),
                },
            );
        },
    };
    if month == 0 || month > 12 || day == 0 || day > 31 {
        return Err(
            FinError::InvalidInput {
                field: String::from_str("date"),
                reason: quoted_exec("Invalid date values in '", date),
            },
        );
    }
    Ok((year, month, day))
}

fn day_number_exec(p: (u32, u32, u32)) -> (r: FinResult<Dec>)
    ensures
        r == lift(day_number(p)),
{
    Dec::from_u64(p.0 as u64).mul(&Dec::new(36525, 2))?.add(
        &Dec::from_u64(p.1 as u64).mul(&Dec::new(304375, 4))?,
    )?.add(&Dec::from_u64(p.2 as u64))
}

/// Approximate years between two dates written MM/DD/YYYY.
pub fn estimate_years(from_date: &str, to_date: &str) -> (r: FinResult<Dec>)
    ensures
        r is Err <==> years_spec(from_date@, to_date@) is Err,
        r matches Ok(y) ==> years_spec(from_date@, to_date@) == Ok::<Dec, ErrView>(y),
        r matches Err(e) ==> years_spec(from_date@, to_date@) == Err::<Dec, ErrView>(err_view(e)),
{
    let from = parse_date_parts(from_date)?;
    let to = parse_date_parts(to_date)?;
    let from_days = day_number_exec(from)?;
    let to_days = day_number_exec(to)?;
    to_days.sub(&from_days)?.div(&Dec::new(36525, 2))
}

// ---------------------------------------------------------------------------
// Prices from a yield
// ---------------------------------------------------------------------------

/// One.
pub open spec fn one() -> Dec {
    Dec::lit(1, 0)
}

/// Periods `i..=n` of a level coupon: `disc *= 1 + y; pv += c / disc`, stopping early when the
/// discount factor reaches zero. Gives the final discount factor and present value.
pub open spec fn level_pv(c: Dec, opy: Dec, i: nat, n: nat, disc: Dec, pv: Dec) -> Option<(Dec, Dec)>
    decreases n + 1 - i,
{
    if i > n {
        Some((disc, pv))
    } else {
        match disc.mul_spec(opy) {
            None => None,
            Some(d2) => if d2.is_zero_spec() {
                Some((d2, pv))
            } else {
                match oadd(Some(pv), c.div_spec(d2)) {
                    None => None,
                    Some(p2) => level_pv(c, opy, i + 1, n, d2, p2),
                }
            },
        }
    }
}

/// The present value of the coupons plus the redemption over the final discount factor.
pub open spec fn close_pv(o: Option<(Dec, Dec)>, red: Dec) -> Option<Dec> {
    match o {
        None => None,
        Some(a) => oadd(Some(a.1), red.div_spec(a.0)),
    }
}

/// Price of a level-coupon bond with `n` periods at periodic yield `y`; coupon plus
/// redemption when there is no period.
pub open spec fn price_periodic_spec(c: Dec, red: Dec, y: Dec, n: u32) -> Option<Dec> {
    if n == 0 {
        red.add_spec(c)
    } else {
        match one().add_spec(y) {
            None => None,
            Some(opy) => close_pv(level_pv(c, opy, 1, n as nat, one(), dzero()), red),
        }
    }
}

/// `k` more periods of coupon `c`: `disc *= 1 + y; pv += c / disc`.
pub open spec fn run_pv(c: Dec, opy: Dec, k: nat, disc: Dec, pv: Dec) -> Option<(Dec, Dec)>
    decreases k,
{
    if k == 0 {
        Some((disc, pv))
    } else {
        match disc.mul_spec(opy) {
            None => None,
            Some(d2) => match oadd(Some(pv), c.div_spec(d2)) {
                None => None,
                Some(p2) => run_pv(c, opy, (k - 1) as nat, d2, p2),
            },
        }
    }
}

/// Price of a bond whose coupon steps once: `pb` periods of `cb`, then `pa` of `ca`.
pub open spec fn price_stepped_spec(cb: Dec, ca: Dec, red: Dec, y: Dec, pb: u32, pa: u32) -> Option<Dec> {
    match one().add_spec(y) {
        None => None,
        Some(opy) => match run_pv(cb, opy, pb as nat, one(), dzero()) {
            None => None,
            Some(a) => match run_pv(ca, opy, pa as nat, a.0, a.1) {
                None => None,
                Some(b) => oadd(Some(b.1), red.div_spec(b.0)),
            },
        },
    }
}

/// The segments from `j` on, each a number of periods and its coupon.
pub open spec fn segments_pv(segs: Seq<(u32, Dec)>, opy: Dec, j: nat, disc: Dec, pv: Dec) -> Option<(Dec, Dec)>
    decreases segs.len() - j,
{
    if j >= segs.len() {
        Some((disc, pv))
    } else {
        match run_pv(segs[j as int].1, opy, segs[j as int].0 as nat, disc, pv) {
            None => None,
            Some(a) => segments_pv(segs, opy, j + 1, a.0, a.1),
        }
    }
}

/// Price of a bond whose coupon follows a schedule of segments.
pub open spec fn price_multistep_spec(segs: Seq<(u32, Dec)>, red: Dec, y: Dec) -> Option<Dec> {
    match one().add_spec(y) {
        None => None,
        Some(opy) => close_pv(segments_pv(segs, opy, 0, one(), dzero()), red),
    }
}

/// `k` more periods of a partly paid-in-kind bond: cash coupon discounted, principal accreted
/// by 1 + pik.
pub open spec fn partpik_pv(cash: Dec, pik: Dec, opy: Dec, k: nat, disc: Dec, pv: Dec, acc: Dec) -> Option<(Dec, Dec, Dec)>
    decreases k,
{
    if k == 0 {
        Some((disc, pv, acc))
    } else {
        match disc.mul_spec(opy) {
            None => None,
            Some(d2) => match (oadd(Some(pv), cash.div_spec(d2)), omul(Some(acc), one().add_spec(pik))) {
                (Some(p2), Some(a2)) => partpik_pv(cash, pik, opy, (k - 1) as nat, d2, p2, a2),
                _ => None,
            },
        }
    }
}

/// The present value of the cash coupons plus the accreted principal over the final
/// discount factor.
pub open spec fn close_accreted(o: Option<(Dec, Dec, Dec)>) -> Option<Dec> {
    match o {
        None => None,
        Some(a) => oadd(Some(a.1), a.2.div_spec(a.0)),
    }
}

/// Price of a partly paid-in-kind bond: cash coupons plus the accreted principal, discounted.
pub open spec fn price_partpik_spec(cash: Dec, pik: Dec, red: Dec, y: Dec, n: u32) -> Option<Dec> {
    match one().add_spec(y) {
        None => None,
        Some(opy) => close_accreted(partpik_pv(cash, pik, opy, n as nat, one(), dzero(), red)),
    }
}

fn level_pv_exec(c: Dec, opy: Dec, n: u32) -> (r: FinResult<(Dec, Dec)>)
    ensures
        r == match level_pv(c, opy, 1, n as nat, one(), dzero()) {
            Some(v) => Ok::<(Dec, Dec), FinError>(v),
            None => Err(FinError::ArithmeticOverflow),
        },
{
    let mut disc = Dec::one();
    let mut pv = Dec::zero();
    let mut i: u32 = 1;
    while i <= n
        invariant
            1 <= i,
            i <= n + 1,
            level_pv(c, opy, 1, n as nat, one(), dzero()) == level_pv(c, opy, i as nat, n as nat, disc, pv),
        decreases n + 1 - i,
    {
        disc = disc.mul(&opy)?;
        if disc.is_zero() {
            return Ok((disc, pv));
        }
        pv = pv.add(&c.div(&disc)?)?;
        if i == n {
            assert(level_pv(c, opy, i as nat + 1, n as nat, disc, pv) == Some((disc, pv)));
            return Ok((disc, pv));
        }
        i = i + 1;
    }
    Ok((disc, pv))
}

/// Price of a level-coupon bond with `n` periods at periodic yield `y`.
pub fn price_from_yield_periodic(c: Dec, red: Dec, y: Dec, n: u32) -> (r: FinResult<Dec>)
    ensures
        r == lift(price_periodic_spec(c, red, y, n)),
{
    if n == 0 {
        return red.add(&c);
    }
    let opy = Dec::one().add(&y)?;
    let (disc, pv) = level_pv_exec(c, opy, n)?;
    pv.add(&red.div(&disc)?)
}

fn run_pv_exec(c: Dec, opy: Dec, k: u32, disc0: Dec, pv0: Dec) -> (r: FinResult<(Dec, Dec)>)
    ensures
        r == match run_pv(c, opy, k as nat, disc0, pv0) {
            Some(v) => Ok::<(Dec, Dec), FinError>(v),
            None => Err(FinError::ArithmeticOverflow),
        },
{
    let mut disc = disc0;
    let mut pv = pv0;
    let mut left: u32 = k;
    while left > 0
        invariant
            run_pv(c, opy, k as nat, disc0, pv0) == run_pv(c, opy, left as nat, disc, pv),
        decreases left,
    {
        disc = disc.mul(&opy)?;
        pv = pv.add(&c.div(&disc)?)?;
        left = left - 1;
    }
    Ok((disc, pv))
}

/// Price of a bond whose coupon steps once.
pub fn price_stepped(cb: Dec, ca: Dec, red: Dec, y: Dec, pb: u32, pa: u32) -> (r: FinResult<Dec>)
    ensures
        r == lift(price_stepped_spec(cb, ca, red, y, pb, pa)),
{
    let opy = Dec::one().add(&y)?;
    let (d1, p1) = run_pv_exec(cb, opy, pb, Dec::one(), Dec::zero())?;
    let (d2, p2) = run_pv_exec(ca, opy, pa, d1, p1)?;
    p2.add(&red.div(&d2)?)
}

/// Price of a bond whose coupon follows a schedule of (periods, coupon) segments.
pub fn price_multistep(segs: &Vec<(u32, Dec)>, red: Dec, y: Dec) -> (r: FinResult<Dec>)
    ensures
        r == lift(price_multistep_spec(segs@, red, y)),
{
    let opy = Dec::one().add(&y)?;
    let mut disc = Dec::one();
    let mut pv = Dec::zero();
    let mut j: usize = 0;
    while j < segs.len()
        invariant
            j <= segs@.len(),
            price_multistep_spec(segs@, red, y) == close_pv(segments_pv(segs@, opy, j as nat, disc, pv), red),
        decreases segs@.len() - j,
    {
        let (k, c) = segs[j];
        let (d2, p2) = run_pv_exec(c, opy, k, disc, pv)?;
        disc = d2;
        pv = p2;
        j = j + 1;
    }
    pv.add(&red.div(&disc)?)
}

/// Price of a partly paid-in-kind bond.
pub fn price_partpik(cash: Dec, pik: Dec, red: Dec, y: Dec, n: u32) -> (r: FinResult<Dec>)
    ensures
        r == lift(price_partpik_spec(cash, pik, red, y, n)),
{
    let opy = Dec::one().add(&y)?;
    let mut disc = Dec::one();
    let mut pv = Dec::zero();
    let mut acc = red;
    let mut left: u32 = n;
    while left > 0
        invariant
            price_partpik_spec(cash, pik, red, y, n) == close_accreted(partpik_pv(cash, pik, opy, left as nat, disc, pv, acc)),
        decreases left,
    {
        disc = disc.mul(&opy)?;
        pv = pv.add(&cash.div(&disc)?)?;
        acc = acc.mul(&Dec::one().add(&pik)?)?;
        left = left - 1;
    }
    pv.add(&acc.div(&disc)?)
}

// ---------------------------------------------------------------------------
// Yield solvers
// ---------------------------------------------------------------------------

/// How a Newton search ended.
#[derive(Debug, Clone, Copy)]
pub enum SolveEnd {
    /// The price error fell below 1e-7 at this yield.
    Converged(Dec),
    /// The derivative vanished at this yield.
    ZeroDerivative(Dec),
    /// A hundred steps ended at this yield.
    Exhausted(Dec),
}

/// Tolerance of the solvers: 1e-7.
pub open spec fn eps() -> Dec {
    Dec::lit(1, 7)
}

/// A yield kept within [-0.5, 5].
pub open spec fn clamp_yield(y: Dec) -> Dec {
    if y.lt_spec(Dec::lit(-5, 1)) {
        Dec::lit(-5, 1)
    } else if y.gt_spec(Dec::lit(50, 1)) {
        Dec::lit(50, 1)
    } else {
        y
    }
}

/// The text views of a list of strings.
pub open spec fn views(s: Seq<String>) -> Seq<Seq<char>> {
    s.map_values(|w: String| w@)
}

/// Periods `i..=n`: discount factor, price and price derivative sums, stopping early when the
/// discount factor reaches zero.
pub open spec fn yield_sums(c: Dec, opy: Dec, i: nat, n: nat, disc: Dec, pv: Dec, dpv: Dec) -> Option<(Dec, Dec, Dec)>
    decreases n + 1 - i,
{
    if i > n {
        Some((disc, pv, dpv))
    } else {
        match disc.mul_spec(opy) {
            None => None,
            Some(d2) => if d2.is_zero_spec() {
                Some((d2, pv, dpv))
            } else {
                match (
                    oadd(Some(pv), c.div_spec(d2)),
                    oadd(Some(dpv), odiv(Dec::lit(i as int, 0).mul_spec(c), d2.mul_spec(opy))),
                ) {
                    (Some(p2), Some(q2)) => yield_sums(c, opy, i + 1, n, d2, p2, q2),
                    _ => None,
                }
            },
        }
    }
}

/// One Newton step of the level-coupon yield search from `y`: the end of the search, or
/// the next yield (`Err`); `None` on overflow.
pub open spec fn yield_step(c: Dec, red: Dec, target: Dec, n: u32, y: Dec) -> Option<Result<SolveEnd, Dec>> {
    match one().add_spec(y) {
        None => None,
        Some(opy) => if opy.le_spec(dzero()) {
            Some(Err(Dec::lit(1, 3)))
        } else {
            match yield_sums(c, opy, 1, n as nat, one(), dzero(), dzero()) {
                None => None,
                Some(t) => match (
                    oadd(Some(t.1), red.div_spec(t.0)),
                    oadd(Some(t.2), odiv(Dec::lit(n as int, 0).mul_spec(red), t.0.mul_spec(opy))),
                ) {
                    (Some(pv), Some(dpv)) => match target.sub_spec(pv) {
                        None => None,
                        Some(f) => if f.abs_spec().lt_spec(eps()) {
                            Some(Ok(SolveEnd::Converged(y)))
                        } else if dpv.is_zero_spec() {
                            Some(Ok(SolveEnd::ZeroDerivative(y)))
                        } else {
                            match osub(Some(y), f.div_spec(dpv)) {
                                None => None,
                                Some(y2) => Some(Err(clamp_yield(y2))),
                            }
                        },
                    },
                    _ => None,
                },
            }
        },
    }
}

/// Newton steps `it..100` of the level-coupon yield search.
pub open spec fn yield_newton(c: Dec, red: Dec, target: Dec, n: u32, y: Dec, it: nat) -> Option<SolveEnd>
    decreases 100 - it,
{
    if it >= 100 {
        Some(SolveEnd::Exhausted(y))
    } else {
        match yield_step(c, red, target, n, y) {
            None => None,
            Some(Ok(e)) => Some(e),
            Some(Err(y2)) => yield_newton(c, red, target, n, y2, it + 1),
        }
    }
}

/// The warning of a yield accepted at a looser tolerance.
pub open spec fn relaxed_message(residual: Dec) -> Seq<char> {
    "Yield converged with relaxed tolerance (residual: "@ + residual.display_spec() + ")"@
}

/// The yield is accepted when the price it gives is within 0.01 of the target (with a
/// warning); otherwise the search failed with that residual (`Err`).
pub open spec fn relaxed_check(c: Dec, red: Dec, target: Dec, n: u32, y: Dec, w: Seq<Seq<char>>) -> Option<(Result<Dec, Dec>, Seq<Seq<char>>)> {
    match price_periodic_spec(c, red, y, n) {
        None => None,
        Some(pc) => match target.sub_spec(pc) {
            None => None,
            Some(d) => {
                let res = d.abs_spec();
                if res.lt_spec(Dec::lit(1, 2)) {
                    Some((Ok(y), w.push(relaxed_message(res))))
                } else {
                    Some((Err(res), w))
                }
            },
        },
    }
}

/// The periodic yield of a level-coupon bond priced at `target`, with the warnings raised;
/// `Err` holds the residual of a failed search, `None` an overflow.
pub open spec fn solve_yield_spec(c: Dec, red: Dec, target: Dec, n: u32) -> Option<(Result<Dec, Dec>, Seq<Seq<char>>)> {
    let y0 = if target.gt_spec(dzero()) {
        c.div_spec(target)
    } else {
        Some(Dec::lit(25, 3))
    };
    match y0 {
        None => None,
        Some(y0) => match yield_newton(c, red, target, n, y0, 0) {
            None => None,
            Some(SolveEnd::Converged(y)) => Some((Ok(y), Seq::empty())),
            Some(SolveEnd::ZeroDerivative(y)) => relaxed_check(
                c,
                red,
                target,
                n,
                y,
                seq!["Yield solver: derivative is zero"@],
            ),
            Some(SolveEnd::Exhausted(y)) => relaxed_check(c, red, target, n, y, Seq::empty()),
        },
    }
}

fn yield_sums_exec(c: Dec, opy: Dec, n: u32) -> (r: FinResult<(Dec, Dec, Dec)>)
    ensures
        r == match yield_sums(c, opy, 1, n as nat, one(), dzero(), dzero()) {
            Some(v) => Ok::<(Dec, Dec, Dec), FinError>(v),
            None => Err(FinError::ArithmeticOverflow),
        },
{
    let mut disc = Dec::one();
    let mut pv = Dec::zero();
    let mut dpv = Dec::zero();
    let mut i: u32 = 1;
    while i <= n
        invariant
            1 <= i,
            i <= n + 1,
            yield_sums(c, opy, 1, n as nat, one(), dzero(), dzero()) == yield_sums(c, opy, i as nat, n as nat, disc, pv, dpv),
        decreases n + 1 - i,
    {
        disc = disc.mul(&opy)?;
        if disc.is_zero() {
            return Ok((disc, pv, dpv));
        }
        pv = pv.add(&c.div(&disc)?)?;
        dpv = dpv.add(&Dec::from_u64(i as u64).mul(&c)?.div(&disc.mul(&opy)?)?)?;
        if i == n {
            assert(yield_sums(c, opy, i as nat + 1, n as nat, disc, pv, dpv) == Some((disc, pv, dpv)));
            return Ok((disc, pv, dpv));
        }
        i = i + 1;
    }
    Ok((disc, pv, dpv))
}

fn yield_step_exec(c: Dec, red: Dec, target: Dec, n: u32, y: Dec) -> (r: FinResult<Result<SolveEnd, Dec>>)
    ensures
        r == match yield_step(c, red, target, n, y) {
            Some(v) => Ok::<Result<SolveEnd, Dec>, FinError>(v),
            None => Err(FinError::ArithmeticOverflow),
        },
{
    let opy = Dec::one().add(&y)?;
    if opy.le(&Dec::zero()) {
        return Ok(Err(Dec::new(1, 3)));
    }
    let (disc, pv0, dpv0) = yield_sums_exec(c, opy, n)?;
    let pv = pv0.add(&red.div(&disc)?)?;
    let dpv = dpv0.add(&Dec::from_u64(n as u64).mul(&red)?.div(&disc.mul(&opy)?)?)?;
    let f = target.sub(&pv)?;
    if f.abs().lt(&Dec::new(1, 7)) {
        return Ok(Ok(SolveEnd::Converged(y)));
    }
    if dpv.is_zero() {
        return Ok(Ok(SolveEnd::ZeroDerivative(y)));
    }
    let y2 = y.sub(&f.div(&dpv)?)?;
    Ok(Err(clamp_yield_exec(y2)))
}

fn clamp_yield_exec(y: Dec) -> (r: Dec)
    ensures
        r == clamp_yield(y),
{
    if y.lt(&Dec::new(-5, 1)) {
        Dec::new(-5, 1)
    } else if y.gt(&Dec::new(50, 1)) {
        Dec::new(50, 1)
    } else {
        y
    }
}

fn push_warning(warnings: &mut Vec<String>, w: String)
    ensures
        views(final(warnings)@) == views(old(warnings)@).push(w@),
{
    warnings.push(w);
    proof {
        assert(views(warnings@) =~= views(old(warnings)@).push(w@));
    }
}

fn yield_newton_exec(c: Dec, red: Dec, target: Dec, n: u32, y0: Dec) -> (r: FinResult<SolveEnd>)
    ensures
        r == match yield_newton(c, red, target, n, y0, 0) {
            Some(v) => Ok::<SolveEnd, FinError>(v),
            None => Err(FinError::ArithmeticOverflow),
        },
{
    let mut y = y0;
    let mut it: u32 = 0;
    while it < 100
        invariant
            it <= 100,
            yield_newton(c, red, target, n, y0, 0) == yield_newton(c, red, target, n, y, it as nat),
        decreases 100 - it,
    {
        match yield_step_exec(c, red, target, n, y)? {
            Ok(e) => {
                return Ok(e);
            },
            Err(y2) => {
                y = y2;
            },
        }
        it = it + 1;
    }
    Ok(SolveEnd::Exhausted(y))
}

fn relaxed_message_exec(residual: Dec) -> (r: String)
    ensures
        r@ == relaxed_message(residual),
{
    let r = String::from_str("Yield converged with relaxed tolerance (residual: ").concat(
        residual.to_string().as_str(),
    ).concat(")");
    proof {
        assert(r@ =~= relaxed_message(residual));
    }
    r
}

fn relaxed_check_exec(c: Dec, red: Dec, target: Dec, n: u32, y: Dec, warnings: &mut Vec<String>) -> (r: FinResult<Dec>)
    ensures
        match relaxed_check(c, red, target, n, y, Seq::empty()) {
            None => r == Err::<Dec, FinError>(FinError::ArithmeticOverflow),
            Some(o) => views(final(warnings)@) == views(old(warnings)@) + o.1 && match o.0 {
                Ok(y) => r == Ok::<Dec, FinError>(y),
                Err(res) => r matches Err(FinError::ConvergenceFailure { function, iterations, last_delta })
                    && function@ == "SSCMFI yield solver"@ && iterations == 100 && last_delta == res,
            },
        },
{
    let pc = price_from_yield_periodic(c, red, y, n)?;
    let residual = target.sub(&pc)?.abs();
    if residual.lt(&Dec::new(1, 2)) {
        let ghost before = views(warnings@);
        push_warning(warnings, relaxed_message_exec(residual));
        proof {
            assert(views(warnings@) =~= before + Seq::<Seq<char>>::empty().push(relaxed_message(residual)));
        }
        return Ok(y);
    }
    proof {
        assert(views(warnings@) =~= views(old(warnings)@) + Seq::<Seq<char>>::empty());
    }
    Err(
        FinError::ConvergenceFailure {
            function: String::from_str("SSCMFI yield solver"),
            iterations: 100,
            last_delta: residual,
        },
    )
}

/// The periodic yield at which a level-coupon bond of `n` periods is worth `target`: Newton's
/// method from the current yield, accepted at a looser tolerance after a hundred steps or a
/// vanishing derivative, a convergence failure otherwise.
pub fn solve_yield(c: Dec, red: Dec, target: Dec, n: u32, warnings: &mut Vec<String>) -> (r: FinResult<Dec>)
    ensures
        match solve_yield_spec(c, red, target, n) {
            None => r == Err::<Dec, FinError>(FinError::ArithmeticOverflow),
            Some(o) => views(final(warnings)@) == views(old(warnings)@) + o.1 && match o.0 {
                Ok(y) => r == Ok::<Dec, FinError>(y),
                Err(res) => r matches Err(FinError::ConvergenceFailure { function, iterations, last_delta })
                    && function@ == "SSCMFI yield solver"@ && iterations == 100 && last_delta == res,
            },
        },
{
    let y0 = if target.gt(&Dec::zero()) {
        c.div(&target)?
    } else {
        Dec::new(25, 3)
    };
    match yield_newton_exec(c, red, target, n, y0)? {
        SolveEnd::Converged(y) => {
            proof {
                assert(views(warnings@) =~= views(old(warnings)@) + Seq::<Seq<char>>::empty());
            }
            Ok(y)
        },
        SolveEnd::ZeroDerivative(y) => {
            let ghost before = views(warnings@);
            push_warning(warnings, String::from_str("Yield solver: derivative is zero"));
            let r = relaxed_check_exec(c, red, target, n, y, warnings);
            proof {
                let w1: Seq<Seq<char>> = seq!["Yield solver: derivative is zero"@];
                match relaxed_check(c, red, target, n, y, Seq::empty()) {
                    None => {},
                    Some(o) => {
                        assert(relaxed_check(c, red, target, n, y, w1) is Some);
                        let o1 = relaxed_check(c, red, target, n, y, w1)->Some_0;
                        assert(o1.0 == o.0);
                        assert(o1.1 =~= w1 + o.1);
                        assert(views(warnings@) =~= before + o1.1);
                    },
                }
            }
            r
        },
        SolveEnd::Exhausted(y) => relaxed_check_exec(c, red, target, n, y, warnings),
    }
}

/// One Newton step of (1 + y)^t = ratio from `y`: `Ok(true)` when converged, `Ok(false)`
/// when the derivative vanished, the next yield (`Err`) otherwise; `None` on overflow.
pub open spec fn discount_step(ratio: Dec, years: Dec, y: Dec) -> Option<Result<bool, Dec>> {
    match one().add_spec(y) {
        None => None,
        Some(base) => if base.le_spec(dzero()) {
            Some(Err(Dec::lit(1, 3)))
        } else {
            match (osub(fpow_spec(base, years), Some(ratio)), years.sub_spec(one())) {
                (Some(f), Some(ym1)) => match omul(Some(years), fpow_spec(base, ym1)) {
                    None => None,
                    Some(df) => if f.abs_spec().lt_spec(eps()) {
                        Some(Ok(true))
                    } else if df.is_zero_spec() {
                        Some(Ok(false))
                    } else {
                        match osub(Some(y), f.div_spec(df)) {
                            None => None,
                            Some(y2) => Some(Err(clamp_yield(y2))),
                        }
                    },
                },
                _ => None,
            }
        },
    }
}

/// Newton steps `it..100` of (1 + y)^t = ratio: the last yield and whether it converged.
pub open spec fn discount_newton(ratio: Dec, years: Dec, y: Dec, it: nat) -> Option<(Dec, bool)>
    decreases 100 - it,
{
    if it >= 100 {
        Some((y, false))
    } else {
        match discount_step(ratio, years, y) {
            None => None,
            Some(Ok(done)) => Some((y, done)),
            Some(Err(y2)) => discount_newton(ratio, years, y2, it + 1),
        }
    }
}

/// The annual yield at which `maturity_value` due in `years` is worth `price`, with the
/// warnings raised.
pub open spec fn solve_discount_spec(mv: Dec, price: Dec, years: Dec) -> Result<(Dec, Seq<Seq<char>>), ErrView> {
    if price.le_spec(dzero()) || years.le_spec(dzero()) {
        Err(invalid_input("price/years"@, "Price and years must be positive"@))
    } else {
        match mv.div_spec(price) {
            None => Err(overflow()),
            Some(ratio) => match odiv(ratio.sub_spec(one()), Some(years)) {
                None => Err(overflow()),
                Some(y0) => match discount_newton(ratio, years, y0, 0) {
                    None => Err(overflow()),
                    Some((y, true)) => Ok((y, Seq::empty())),
                    Some((y, false)) => Ok((y, seq!["Discount yield solver used relaxed convergence"@])),
                },
            },
        }
    }
}

fn discount_step_exec(ratio: Dec, years: Dec, y: Dec) -> (r: FinResult<Result<bool, Dec>>)
    ensures
        r == match discount_step(ratio, years, y) {
            Some(v) => Ok::<Result<bool, Dec>, FinError>(v),
            None => Err(FinError::ArithmeticOverflow),
        },
{
    let base = Dec::one().add(&y)?;
    if base.le(&Dec::zero()) {
        return Ok(Err(Dec::new(1, 3)));
    }
    let f = iterative_pow_fractional(base, years)?.sub(&ratio)?;
    let df = years.mul(&iterative_pow_fractional(base, years.sub(&Dec::one())?)?)?;
    if f.abs().lt(&Dec::new(1, 7)) {
        return Ok(Ok(true));
    }
    if df.is_zero() {
        return Ok(Ok(false));
    }
    let y2 = y.sub(&f.div(&df)?)?;
    Ok(Err(clamp_yield_exec(y2)))
}

/// The annual yield at which `maturity_value` due in `years` is worth `price`: Newton's
/// method on (1 + y)^t = maturity_value / price from the linear estimate; after a hundred
/// steps (or a vanishing derivative) the last yield stands, with a warning.
pub fn solve_discount_yield(mv: Dec, price: Dec, years: Dec, warnings: &mut Vec<String>) -> (r: FinResult<Dec>)
    ensures
        r is Err <==> solve_discount_spec(mv, price, years) is Err,
        r matches Err(e) ==> solve_discount_spec(mv, price, years) == Err::<(Dec, Seq<Seq<char>>), ErrView>(err_view(e)),
        r matches Ok(y) ==> {
            let o = solve_discount_spec(mv, price, years)->Ok_0;
            &&& y == o.0
            &&& views(final(warnings)@) == views(old(warnings)@) + o.1
        },
{
    if price.le(&Dec::zero()) || years.le(&Dec::zero()) {
        return Err(
            FinError::InvalidInput {
                field: String::from_str("price/years"),
                reason: String::from_str("Price and years must be positive"),
            },
        );
    }
    let ratio = mv.div(&price)?;
    let y0 = ratio.sub(&Dec::one())?.div(&years)?;
    let (y, done) = discount_newton_exec(ratio, years, y0)?;
    if done {
        proof {
            assert(views(warnings@) =~= views(old(warnings)@) + Seq::<Seq<char>>::empty());
        }
        return Ok(y);
    }
    let ghost before = views(warnings@);
    push_warning(warnings, String::from_str("Discount yield solver used relaxed convergence"));
    proof {
        assert(views(warnings@) =~= before + seq!["Discount yield solver used relaxed convergence"@]);
    }
    Ok(y)
}

fn discount_newton_exec(ratio: Dec, years: Dec, y0: Dec) -> (r: FinResult<(Dec, bool)>)
    ensures
        r == match discount_newton(ratio, years, y0, 0) {
            Some(v) => Ok::<(Dec, bool), FinError>(v),
            None => Err(FinError::ArithmeticOverflow),
        },
{
    let mut y = y0;
    let mut it: u32 = 0;
    while it < 100
        invariant
            it <= 100,
            discount_newton(ratio, years, y0, 0) == discount_newton(ratio, years, y, it as nat),
        decreases 100 - it,
    {
        match discount_step_exec(ratio, years, y)? {
            Ok(done) => {
                return Ok((y, done));
            },
            Err(y2) => {
                y = y2;
            },
        }
        it = it + 1;
    }
    Ok((y, false))
}

/// A bond priced by a cash-flow model whose yield is found by finite differences.
pub enum FdModel {
    /// One coupon step: `periods_before` periods of one coupon, then `periods_after` of another.
    Stepped { coupon_before: Dec, coupon_after: Dec, redemption: Dec, periods_before: u32, periods_after: u32 },
    /// A schedule of (periods, coupon) segments.
    Multistep { segments: Vec<(u32, Dec)>, redemption: Dec },
    /// A cash coupon with the principal accreting in kind.
    PartPik { cash_coupon: Dec, periodic_pik: Dec, redemption: Dec, n: u32 },
}

/// A cash-flow model as values.
pub enum FdModelView {
    Stepped { coupon_before: Dec, coupon_after: Dec, redemption: Dec, periods_before: u32, periods_after: u32 },
    Multistep { segments: Seq<(u32, Dec)>, redemption: Dec },
    PartPik { cash_coupon: Dec, periodic_pik: Dec, redemption: Dec, n: u32 },
}

pub open spec fn model_view(m: FdModel) -> FdModelView {
    match m {
        FdModel::Stepped { coupon_before, coupon_after, redemption, periods_before, periods_after } => FdModelView::Stepped {
            coupon_before,
            coupon_after,
            redemption,
            periods_before,
            periods_after,
        },
        FdModel::Multistep { segments, redemption } => FdModelView::Multistep { segments: segments@, redemption },
        FdModel::PartPik { cash_coupon, periodic_pik, redemption, n } => FdModelView::PartPik {
            cash_coupon,
            periodic_pik,
            redemption,
            n,
        },
    }
}

/// The model's price at periodic yield `y`.
pub open spec fn fd_price(m: FdModelView, y: Dec) -> Option<Dec> {
    match m {
        FdModelView::Stepped { coupon_before, coupon_after, redemption, periods_before, periods_after } =>
            price_stepped_spec(coupon_before, coupon_after, redemption, y, periods_before, periods_after),
        FdModelView::Multistep { segments, redemption } => price_multistep_spec(segments, redemption, y),
        FdModelView::PartPik { cash_coupon, periodic_pik, redemption, n } => price_partpik_spec(
            cash_coupon,
            periodic_pik,
            redemption,
            y,
            n,
        ),
    }
}

/// One step of the finite-difference search: `Ok(true)` when converged, `Ok(false)` when the
/// slope is below 1e-8, the next yield (`Err`) otherwise; `None` on overflow.
pub open spec fn fd_step(m: FdModelView, target: Dec, y: Dec) -> Option<Result<bool, Dec>> {
    match (fd_price(m, y), y.add_spec(eps())) {
        (Some(p), Some(ye)) => match fd_price(m, ye) {
            None => None,
            Some(pu) => match (target.sub_spec(p), pu.sub_spec(p)) {
                (Some(f), Some(dp)) => match dp.neg_spec().div_spec(eps()) {
                    None => None,
                    Some(df) => if f.abs_spec().lt_spec(eps()) {
                        Some(Ok(true))
                    } else if df.abs_spec().lt_spec(Dec::lit(1, 8)) {
                        Some(Ok(false))
                    } else {
                        match oadd(Some(y), f.div_spec(df)) {
                            None => None,
                            Some(y2) => Some(Err(clamp_yield(y2))),
                        }
                    },
                },
                _ => None,
            },
        },
        _ => None,
    }
}

/// Steps `it..100` of the finite-difference search: the last yield and whether it converged.
pub open spec fn fd_newton(m: FdModelView, target: Dec, y: Dec, it: nat) -> Option<(Dec, bool)>
    decreases 100 - it,
{
    if it >= 100 {
        Some((y, false))
    } else {
        match fd_step(m, target, y) {
            None => None,
            Some(Ok(done)) => Some((y, done)),
            Some(Err(y2)) => fd_newton(m, target, y2, it + 1),
        }
    }
}

fn fd_price_exec(m: &FdModel, y: Dec) -> (r: FinResult<Dec>)
    ensures
        r == lift(fd_price(model_view(*m), y)),
{
    match m {
        FdModel::Stepped { coupon_before, coupon_after, redemption, periods_before, periods_after } =>
            price_stepped(*coupon_before, *coupon_after, *redemption, y, *periods_before, *periods_after),
        FdModel::Multistep { segments, redemption } => price_multistep(segments, *redemption, y),
        FdModel::PartPik { cash_coupon, periodic_pik, redemption, n } => price_partpik(
            *cash_coupon,
            *periodic_pik,
            *redemption,
            y,
            *n,
        ),
    }
}

fn fd_step_exec(m: &FdModel, target: Dec, y: Dec) -> (r: FinResult<Result<bool, Dec>>)
    ensures
        r == match fd_step(model_view(*m), target, y) {
            Some(v) => Ok::<Result<bool, Dec>, FinError>(v),
            None => Err(FinError::ArithmeticOverflow),
        },
{
    let eps = Dec::new(1, 7);
    let p = fd_price_exec(m, y)?;
    let p_up = fd_price_exec(m, y.add(&eps)?)?;
    let f = target.sub(&p)?;
    let df = p_up.sub(&p)?.neg().div(&eps)?;
    if f.abs().lt(&eps) {
        return Ok(Ok(true));
    }
    if df.abs().lt(&Dec::new(1, 8)) {
        return Ok(Ok(false));
    }
    let y2 = y.add(&f.div(&df)?)?;
    Ok(Err(clamp_yield_exec(y2)))
}

/// The periodic yield at which the model is worth `target`, by Newton steps on a
/// finite-difference slope from `y0`; after a hundred steps (or a flat slope) the last yield
/// stands, with the warning `relaxed`.
fn solve_fd_yield(m: &FdModel, target: Dec, y0: Dec, relaxed: &str, warnings: &mut Vec<String>) -> (r: FinResult<Dec>)
    ensures
        match fd_newton(model_view(*m), target, y0, 0) {
            None => r == Err::<Dec, FinError>(FinError::ArithmeticOverflow),
            Some((y, done)) => r == Ok::<Dec, FinError>(y) && views(final(warnings)@) == if done {
                views(old(warnings)@)
            } else {
                views(old(warnings)@).push(relaxed@)
            },
        },
{
    let (y, done) = fd_newton_exec(m, target, y0)?;
    if !done {
        push_warning(warnings, String::from_str(relaxed));
    }
    Ok(y)
}

fn fd_newton_exec(m: &FdModel, target: Dec, y0: Dec) -> (r: FinResult<(Dec, bool)>)
    ensures
        r == match fd_newton(model_view(*m), target, y0, 0) {
            Some(v) => Ok::<(Dec, bool), FinError>(v),
            None => Err(FinError::ArithmeticOverflow),
        },
{
    let mut y = y0;
    let mut it: u32 = 0;
    while it < 100
        invariant
            it <= 100,
            fd_newton(model_view(*m), target, y0, 0) == fd_newton(model_view(*m), target, y, it as nat),
        decreases 100 - it,
    {
        match fd_step_exec(m, target, y)? {
            Ok(done) => {
                return Ok((y, done));
            },
            Err(y2) => {
                y = y2;
            },
        }
        it = it + 1;
    }
    Ok((y, false))
}

// ---------------------------------------------------------------------------
// Analytics
// ---------------------------------------------------------------------------

/// One hundred.
pub open spec fn hundred() -> Dec {
    Dec::lit(100, 0)
}

/// Analytics that are all zero.
pub open spec fn zero_analytics() -> SscmfiAnalytics {
    SscmfiAnalytics {
        macaulay_duration: dzero(),
        modified_duration: dzero(),
        convexity: dzero(),
        pv01: dzero(),
        yv32: dzero(),
    }
}

/// Analytics of a single payment `mac` years away, discounted per period at 1 + `step`:
/// modified duration mac / (1 + step), convexity mac (mac + gap) / (1 + step)^2, PV01 and the
/// yield value of a 32nd.
pub open spec fn bullet_analytics(mac: Dec, step: Dec, gap: Dec, clean: Dec) -> Option<SscmfiAnalytics> {
    match one().add_spec(step) {
        None => None,
        Some(b) => match (mac.div_spec(b), mac.add_spec(gap), ipow_spec(b, Dec::lit(2, 0))) {
            (Some(md), Some(mg), Some(b2)) => match (
                odiv(mac.mul_spec(mg), Some(b2)),
                odiv(md.mul_spec(clean), Some(Dec::lit(10000, 0))),
            ) {
                (Some(conv), Some(pv01)) => match (if md.gt_spec(dzero()) {
                    odiv(Some(one()), odiv(omul(Dec::lit(32, 0).mul_spec(md), Some(clean)), Some(hundred())))
                } else {
                    Some(dzero())
                }) {
                    None => None,
                    Some(yv32) => Some(
                        SscmfiAnalytics {
                            macaulay_duration: mac,
                            modified_duration: md,
                            convexity: conv,
                            pv01,
                            yv32,
                        },
                    ),
                },
                _ => None,
            },
            _ => None,
        },
    }
}

fn bullet_analytics_exec(mac: Dec, step: Dec, gap: Dec, clean: Dec) -> (r: FinResult<SscmfiAnalytics>)
    ensures
        r == match bullet_analytics(mac, step, gap, clean) {
            Some(a) => Ok::<SscmfiAnalytics, FinError>(a),
            None => Err(FinError::ArithmeticOverflow),
        },
{
    let b = Dec::one().add(&step)?;
    let md = mac.div(&b)?;
    let conv = mac.mul(&mac.add(&gap)?)?.div(&iterative_pow(b, Dec::new(2, 0))?)?;
    let pv01 = md.mul(&clean)?.div(&Dec::new(10000, 0))?;
    let yv32 = if md.gt(&Dec::zero()) {
        Dec::one().div(&Dec::new(32, 0).mul(&md)?.mul(&clean)?.div(&Dec::new(100, 0))?)?
    } else {
        Dec::zero()
    };
    Ok(SscmfiAnalytics { macaulay_duration: mac, modified_duration: md, convexity: conv, pv01, yv32 })
}

/// Periods `i..=n` of a level-coupon bond: the sums of discounted cash flows, of time-weighted
/// and of convexity-weighted discounted cash flows, stopping when the discount factor is zero.
pub open spec fn periodic_sums(c: Dec, red: Dec, opy: Dec, freq: Dec, i: nat, n: nat, disc: Dec, ps: Dec, mn: Dec, cn: Dec) -> Option<(Dec, Dec, Dec)>
    decreases n + 1 - i,
{
    if i > n {
        Some((ps, mn, cn))
    } else {
        match disc.mul_spec(opy) {
            None => None,
            Some(d2) => if d2.is_zero_spec() {
                Some((ps, mn, cn))
            } else {
                match (Dec::lit(i as int, 0).div_spec(freq), if i == n {
                    c.add_spec(red)
                } else {
                    Some(c)
                }) {
                    (Some(t), Some(cf)) => match cf.div_spec(d2) {
                        None => None,
                        Some(pvcf) => match (
                            ps.add_spec(pvcf),
                            oadd(Some(mn), t.mul_spec(pvcf)),
                            oadd(Some(cn), omul(oadd(t.mul_spec(t), t.div_spec(freq)), Some(pvcf))),
                        ) {
                            (Some(a), Some(b), Some(cc)) => periodic_sums(c, red, opy, freq, i + 1, n, d2, a, b, cc),
                            _ => None,
                        },
                    },
                    _ => None,
                }
            },
        }
    }
}

/// PV01 and the yield value of a 32nd from the modified duration and price.
pub open spec fn sensitivity(md: Dec, clean: Dec) -> Option<(Dec, Dec)> {
    match md.mul_spec(clean) {
        None => None,
        Some(mc) => match (mc.div_spec(Dec::lit(10000, 0)), if mc.gt_spec(dzero()) {
            odiv(one().div_spec(Dec::lit(32, 0)), mc.div_spec(hundred()))
        } else {
            Some(dzero())
        }) {
            (Some(pv01), Some(yv32)) => Some((pv01, yv32)),
            _ => None,
        },
    }
}

/// Duration, convexity, PV01 and yield value of a 32nd of a level-coupon bond at periodic
/// yield `y`; all zero when 1 + y or the price is not positive.
pub open spec fn analytics_from_yield_spec(c: Dec, red: Dec, y: Dec, n: u32, freq: Dec, clean: Dec) -> Option<SscmfiAnalytics> {
    match one().add_spec(y) {
        None => None,
        Some(opy) => if opy.le_spec(dzero()) || clean.le_spec(dzero()) {
            Some(zero_analytics())
        } else {
            match periodic_sums(c, red, opy, freq, 1, n as nat, one(), dzero(), dzero(), dzero()) {
                None => None,
                Some(t) => {
                    let (ps, mn, cn) = t;
                    match (if ps.gt_spec(dzero()) {
                        mn.div_spec(ps)
                    } else {
                        Some(dzero())
                    }) {
                        None => None,
                        Some(mac) => match (mac.div_spec(opy), if ps.gt_spec(dzero()) {
                            odiv(Some(cn), omul(ps.mul_spec(opy), Some(opy)))
                        } else {
                            Some(dzero())
                        }) {
                            (Some(md), Some(conv)) => match sensitivity(md, clean) {
                                None => None,
                                Some(sv) => Some(
                                    SscmfiAnalytics {
                                        macaulay_duration: mac,
                                        modified_duration: md,
                                        convexity: conv,
                                        pv01: sv.0,
                                        yv32: sv.1,
                                    },
                                ),
                            },
                            _ => None,
                        },
                    }
                },
            }
        },
    }
}

fn sensitivity_exec(md: Dec, clean: Dec) -> (r: FinResult<(Dec, Dec)>)
    ensures
        r == match sensitivity(md, clean) {
            Some(v) => Ok::<(Dec, Dec), FinError>(v),
            None => Err(FinError::ArithmeticOverflow),
        },
{
    let mc = md.mul(&clean)?;
    let pv01 = mc.div(&Dec::new(10000, 0))?;
    let yv32 = if mc.gt(&Dec::zero()) {
        Dec::one().div(&Dec::new(32, 0))?.div(&mc.div(&Dec::new(100, 0))?)?
    } else {
        Dec::zero()
    };
    Ok((pv01, yv32))
}

fn periodic_sums_exec(c: Dec, red: Dec, opy: Dec, freq: Dec, n: u32) -> (r: FinResult<(Dec, Dec, Dec)>)
    ensures
        r == match periodic_sums(c, red, opy, freq, 1, n as nat, one(), dzero(), dzero(), dzero()) {
            Some(v) => Ok::<(Dec, Dec, Dec), FinError>(v),
            None => Err(FinError::ArithmeticOverflow),
        },
{
    let mut disc = Dec::one();
    let mut ps = Dec::zero();
    let mut mn = Dec::zero();
    let mut cn = Dec::zero();
    let mut i: u32 = 1;
    while i <= n
        invariant
            1 <= i,
            i <= n + 1,
            periodic_sums(c, red, opy, freq, 1, n as nat, one(), dzero(), dzero(), dzero()) == periodic_sums(
                c,
                red,
                opy,
                freq,
                i as nat,
                n as nat,
                disc,
                ps,
                mn,
                cn,
            ),
        decreases n + 1 - i,
    {
        disc = disc.mul(&opy)?;
        if disc.is_zero() {
            return Ok((ps, mn, cn));
        }
        let t = Dec::from_u64(i as u64).div(&freq)?;
        let cf = if i == n {
            c.add(&red)?
        } else {
            c
        };
        let pvcf = cf.div(&disc)?;
        ps = ps.add(&pvcf)?;
        mn = mn.add(&t.mul(&pvcf)?)?;
        cn = cn.add(&t.mul(&t)?.add(&t.div(&freq)?)?.mul(&pvcf)?)?;
        if i == n {
            assert(periodic_sums(c, red, opy, freq, i as nat + 1, n as nat, disc, ps, mn, cn) == Some((ps, mn, cn)));
            return Ok((ps, mn, cn));
        }
        i = i + 1;
    }
    Ok((ps, mn, cn))
}

/// Duration, convexity, PV01 and yield value of a 32nd of a level-coupon bond.
pub fn compute_analytics_from_yield(c: Dec, red: Dec, y: Dec, n: u32, freq: Dec, clean: Dec) -> (r: FinResult<SscmfiAnalytics>)
    ensures
        r == match analytics_from_yield_spec(c, red, y, n, freq, clean) {
            Some(a) => Ok::<SscmfiAnalytics, FinError>(a),
            None => Err(FinError::ArithmeticOverflow),
        },
{
    let opy = Dec::one().add(&y)?;
    if opy.le(&Dec::zero()) || clean.le(&Dec::zero()) {
        return Ok(
            SscmfiAnalytics {
                macaulay_duration: Dec::zero(),
                modified_duration: Dec::zero(),
                convexity: Dec::zero(),
                pv01: Dec::zero(),
                yv32: Dec::zero(),
            },
        );
    }
    let (ps, mn, cn) = periodic_sums_exec(c, red, opy, freq, n)?;
    let positive = ps.gt(&Dec::zero());
    let mac = if positive {
        mn.div(&ps)?
    } else {
        Dec::zero()
    };
    let md = mac.div(&opy)?;
    let conv = if positive {
        cn.div(&ps.mul(&opy)?.mul(&opy)?)?
    } else {
        Dec::zero()
    };
    let (pv01, yv32) = sensitivity_exec(md, clean)?;
    Ok(SscmfiAnalytics { macaulay_duration: mac, modified_duration: md, convexity: conv, pv01, yv32 })
}

/// Periods `i..=total` of a stepped bond: the sums of discounted and of time-weighted
/// discounted cash flows.
pub open spec fn stepped_sums(cb: Dec, ca: Dec, red: Dec, opy: Dec, freq: Dec, pb: nat, i: nat, total: nat, disc: Dec, ps: Dec, mn: Dec) -> Option<(Dec, Dec)>
    decreases total + 1 - i,
{
    if i > total {
        Some((ps, mn))
    } else {
        let c = if i <= pb {
            cb
        } else {
            ca
        };
        match (disc.mul_spec(opy), Dec::lit(i as int, 0).div_spec(freq), if i == total {
            c.add_spec(red)
        } else {
            Some(c)
        }) {
            (Some(d2), Some(t), Some(cf)) => match cf.div_spec(d2) {
                None => None,
                Some(pvcf) => match (ps.add_spec(pvcf), oadd(Some(mn), t.mul_spec(pvcf))) {
                    (Some(a), Some(b)) => stepped_sums(cb, ca, red, opy, freq, pb, i + 1, total, d2, a, b),
                    _ => None,
                },
            },
            _ => None,
        }
    }
}

/// Duration, PV01 and yield value of a 32nd of a stepped bond (convexity is left at zero).
pub open spec fn analytics_stepped_spec(cb: Dec, ca: Dec, red: Dec, y: Dec, pb: u32, pa: u32, freq: Dec, clean: Dec) -> Option<SscmfiAnalytics> {
    if pb as nat + pa as nat > u32::MAX {
        None
    } else {
        match one().add_spec(y) {
            None => None,
            Some(opy) => match stepped_sums(cb, ca, red, opy, freq, pb as nat, 1, pb as nat + pa as nat, one(), dzero(), dzero()) {
                None => None,
                Some(t) => match (if t.0.gt_spec(dzero()) {
                    t.1.div_spec(t.0)
                } else {
                    Some(dzero())
                }) {
                    None => None,
                    Some(mac) => match mac.div_spec(opy) {
                        None => None,
                        Some(md) => match sensitivity(md, clean) {
                            None => None,
                            Some(sv) => Some(
                                SscmfiAnalytics {
                                    macaulay_duration: mac,
                                    modified_duration: md,
                                    convexity: dzero(),
                                    pv01: sv.0,
                                    yv32: sv.1,
                                },
                            ),
                        },
                    },
                },
            },
        }
    }
}

/// Duration, PV01 and yield value of a 32nd of a stepped bond.
pub fn compute_analytics_stepped(cb: Dec, ca: Dec, red: Dec, y: Dec, pb: u32, pa: u32, freq: Dec, clean: Dec) -> (r: FinResult<SscmfiAnalytics>)
    ensures
        r == match analytics_stepped_spec(cb, ca, red, y, pb, pa, freq, clean) {
            Some(a) => Ok::<SscmfiAnalytics, FinError>(a),
            None => Err(FinError::ArithmeticOverflow),
        },
{
    let opy = Dec::one().add(&y)?;
    let total = match pb.checked_add(pa) {
        Some(t) => t,
        None => {
            return Err(FinError::ArithmeticOverflow);
        },
    };
    let (ps, mn) = stepped_sums_exec(cb, ca, red, opy, freq, pb, total)?;
    let mac = if ps.gt(&Dec::zero()) {
        mn.div(&ps)?
    } else {
        Dec::zero()
    };
    let md = mac.div(&opy)?;
    let (pv01, yv32) = sensitivity_exec(md, clean)?;
    Ok(SscmfiAnalytics { macaulay_duration: mac, modified_duration: md, convexity: Dec::zero(), pv01, yv32 })
}

fn stepped_sums_exec(cb: Dec, ca: Dec, red: Dec, opy: Dec, freq: Dec, pb: u32, total: u32) -> (r: FinResult<(Dec, Dec)>)
    ensures
        r == match stepped_sums(cb, ca, red, opy, freq, pb as nat, 1, total as nat, one(), dzero(), dzero()) {
            Some(v) => Ok::<(Dec, Dec), FinError>(v),
            None => Err(FinError::ArithmeticOverflow),
        },
{
    let mut disc = Dec::one();
    let mut ps = Dec::zero();
    let mut mn = Dec::zero();
    let mut i: u32 = 1;
    while i <= total
        invariant
            1 <= i,
            i <= total + 1,
            stepped_sums(cb, ca, red, opy, freq, pb as nat, 1, total as nat, one(), dzero(), dzero())
                == stepped_sums(cb, ca, red, opy, freq, pb as nat, i as nat, total as nat, disc, ps, mn),
        decreases total + 1 - i,
    {
        let c = if i <= pb {
            cb
        } else {
            ca
        };
        disc = disc.mul(&opy)?;
        let t = Dec::from_u64(i as u64).div(&freq)?;
        let cf = if i == total {
            c.add(&red)?
        } else {
            c
        };
        let pvcf = cf.div(&disc)?;
        ps = ps.add(&pvcf)?;
        mn = mn.add(&t.mul(&pvcf)?)?;
        if i == total {
            assert(stepped_sums(cb, ca, red, opy, freq, pb as nat, i as nat + 1, total as nat, disc, ps, mn) == Some((ps, mn)));
            return Ok((ps, mn));
        }
        i = i + 1;
    }
    Ok((ps, mn))
}

// ---------------------------------------------------------------------------
// Accrued interest, cash flows, conventions
// ---------------------------------------------------------------------------

/// Accrued interest taken at mid-period: half of face * coupon / frequency.
pub open spec fn accrued_spec(coupon: Dec, face: Dec, freq: u8) -> Option<Dec> {
    omul(odiv(face.mul_spec(coupon), Some(Dec::lit(freq as int, 0))), Some(Dec::lit(5, 1)))
}

/// Accrued interest taken at mid-period (the day count is not consulted).
pub fn compute_accrued(coupon: Dec, face: Dec, freq: u8) -> (r: FinResult<Dec>)
    ensures
        r == lift(accrued_spec(coupon, face, freq)),
{
    face.mul(&coupon)?.div(&Dec::from_u64(freq as u64))?.mul(&Dec::new(5, 1))
}

/// A cash flow as (period, amount, kind).
pub open spec fn cashflow_view(c: SscmfiCashflow) -> (u32, Dec, Seq<char>) {
    (c.period, c.amount, c.cashflow_type@)
}

/// The cash flows of a level-coupon bond: a coupon each period, coupon plus redemption in
/// the last.
pub open spec fn cashflows_spec(c: Dec, red: Dec, n: u32) -> Option<Seq<(u32, Dec, Seq<char>)>> {
    if n == 0 {
        Some(Seq::empty())
    } else {
        match c.add_spec(red) {
            None => None,
            Some(last) => Some(
                Seq::new(
                    n as nat,
                    |k: int|
                        if k + 1 < n {
                            ((k + 1) as u32, c, "Coupon"@)
                        } else {
                            (n, last, "Coupon + Redemption"@)
                        },
                ),
            ),
        }
    }
}

/// The cash flows of a level-coupon bond of `n` periods.
pub fn generate_cashflows(c: Dec, red: Dec, n: u32) -> (r: FinResult<Vec<SscmfiCashflow>>)
    ensures
        match cashflows_spec(c, red, n) {
            None => r == Err::<Vec<SscmfiCashflow>, FinError>(FinError::ArithmeticOverflow),
            Some(s) => r matches Ok(v) && v@.map_values(|x: SscmfiCashflow| cashflow_view(x)) == s,
        },
{
    let mut out: Vec<SscmfiCashflow> = Vec::new();
    if n == 0 {
        proof {
            assert(out@.map_values(|x: SscmfiCashflow| cashflow_view(x)) =~= Seq::<(u32, Dec, Seq<char>)>::empty());
        }
        return Ok(out);
    }
    let last = c.add(&red)?;
    let ghost want = cashflows_spec(c, red, n)->Some_0;
    let mut i: u32 = 1;
    while i < n
        invariant
            1 <= i <= n,
            want == cashflows_spec(c, red, n)->Some_0,
            cashflows_spec(c, red, n) is Some,
            c.add_spec(red) == Some(last),
            out@.len() == i - 1,
            forall|k: int| 0 <= k < out@.len() ==> cashflow_view(#[trigger] out@[k]) == want[k],
        decreases n - i,
    {
        out.push(SscmfiCashflow { period: i, amount: c, cashflow_type: String::from_str("Coupon") });
        i = i + 1;
    }
    out.push(SscmfiCashflow { period: n, amount: last, cashflow_type: String::from_str("Coupon + Redemption") });
    proof {
        assert(out@.map_values(|x: SscmfiCashflow| cashflow_view(x)) =~= want);
    }
    Ok(out)
}

/// How `Debug` writes a day count.
pub open spec fn day_count_name(d: SscmfiDayCount) -> Seq<char> {
    match d {
        SscmfiDayCount::SSCM30_360 => "SSCM30_360"@,
        SscmfiDayCount::ActualActual => "ActualActual"@,
        SscmfiDayCount::Actual360 => "Actual360"@,
        SscmfiDayCount::Actual365 => "Actual365"@,
    }
}

/// How `Debug` writes a frequency.
pub open spec fn frequency_name(f: SscmfiFrequency) -> Seq<char> {
    match f {
        SscmfiFrequency::Annual => "Annual"@,
        SscmfiFrequency::Semiannual => "Semiannual"@,
        SscmfiFrequency::Quarterly => "Quarterly"@,
        SscmfiFrequency::Monthly => "Monthly"@,
    }
}

/// How `Debug` writes an end-of-month rule.
pub open spec fn eom_name(e: SscmfiEomRule) -> Seq<char> {
    match e {
        SscmfiEomRule::Adjust => "Adjust"@,
        SscmfiEomRule::NoAdjust => "NoAdjust"@,
    }
}

fn day_count_name_exec(d: SscmfiDayCount) -> (r: String)
    ensures
        r@ == day_count_name(d),
{
    match d {
        SscmfiDayCount::SSCM30_360 => String::from_str("SSCM30_360"),
        SscmfiDayCount::ActualActual => String::from_str("ActualActual"),
        SscmfiDayCount::Actual360 => String::from_str("Actual360"),
        SscmfiDayCount::Actual365 => String::from_str("Actual365"),
    }
}

fn frequency_name_exec(f: SscmfiFrequency) -> (r: String)
    ensures
        r@ == frequency_name(f),
{
    match f {
        SscmfiFrequency::Annual => String::from_str("Annual"),
        SscmfiFrequency::Semiannual => String::from_str("Semiannual"),
        SscmfiFrequency::Quarterly => String::from_str("Quarterly"),
        SscmfiFrequency::Monthly => String::from_str("Monthly"),
    }
}

fn eom_name_exec(e: SscmfiEomRule) -> (r: String)
    ensures
        r@ == eom_name(e),
{
    match e {
        SscmfiEomRule::Adjust => String::from_str("Adjust"),
        SscmfiEomRule::NoAdjust => String::from_str("NoAdjust"),
    }
}

/// A non-negative value rounded half to even, as a `u32`; `default` when the rounded value
/// is negative or does not fit (as reading its text as a `u32` fails).
pub open spec fn rounded_u32_or(x: Dec, default: u32) -> u32 {
    let r = x.round_dp_spec(0);
    if r.lt_spec(dzero()) || r.m() > u32::MAX {
        default
    } else {
        r.m() as u32
    }
}

fn rounded_u32_or_exec(x: Dec, default: u32) -> (r: u32)
    ensures
        r == rounded_u32_or(x, default),
{
    let rounded = x.round_dp(0);
    if rounded.lt(&Dec::zero()) {
        return default;
    }
    let m = rounded.mantissa();
    if m > 0xFFFF_FFFF {
        default
    } else {
        m as u32
    }
}

// ---------------------------------------------------------------------------
// Yield to worst over the call schedule
// ---------------------------------------------------------------------------

/// The running worst case over the call schedule.
pub struct CallScan {
    pub worst_yield: Dec,
    pub worst_date: Seq<char>,
    pub worst_price: Dec,
    pub worst_type: Seq<char>,
    pub warnings: Seq<Seq<char>>,
}

/// Years from settlement to a date; an unreadable date counts as zero years, an overflow is
/// `None`.
pub open spec fn years_or_zero(from: Seq<char>, to: Seq<char>) -> Option<Dec> {
    match years_spec(from, to) {
        Ok(y) => Some(y),
        Err(e) => if e == overflow() {
            None
        } else {
            Some(dzero())
        },
    }
}

/// The warning of a call date whose yield could not be solved.
pub open spec fn call_warning(date: Seq<char>) -> Seq<char> {
    "Could not solve yield-to-call for date "@ + date
}

/// The worst case after one call: its yield to call replaces the worst when lower.
pub open spec fn call_step(settle: Seq<char>, freq: Dec, coupon: Dec, clean: Dec, call: CallRedemption, st: CallScan) -> Option<CallScan> {
    match years_or_zero(settle, call.date@) {
        None => None,
        Some(cy) => if cy.le_spec(dzero()) {
            Some(st)
        } else {
            match cy.mul_spec(freq) {
                None => None,
                Some(x) => {
                    let cp = rounded_u32_or(x, 0);
                    if cp == 0 {
                        Some(st)
                    } else {
                        match solve_yield_spec(coupon, call.price, clean, cp) {
                            None => None,
                            Some((Ok(yp), w)) => match omul(yp.mul_spec(freq), Some(hundred())) {
                                None => None,
                                Some(ytc) => if ytc.lt_spec(st.worst_yield) {
                                    Some(
                                        CallScan {
                                            worst_yield: ytc,
                                            worst_date: call.date@,
                                            worst_price: call.price,
                                            worst_type: "Call"@,
                                            warnings: st.warnings + w,
                                        },
                                    )
                                } else {
                                    Some(CallScan { warnings: st.warnings + w, ..st })
                                },
                            },
                            Some((Err(_), w)) => Some(
                                CallScan { warnings: st.warnings + w + seq![call_warning(call.date@)], ..st },
                            ),
                        }
                    }
                },
            }
        },
    }
}

/// The worst case over the calls from `j` on.
pub open spec fn calls_scan(settle: Seq<char>, freq: Dec, coupon: Dec, clean: Dec, calls: Seq<CallRedemption>, j: nat, st: CallScan) -> Option<CallScan>
    decreases calls.len() - j,
{
    if j >= calls.len() {
        Some(st)
    } else {
        match call_step(settle, freq, coupon, clean, calls[j as int], st) {
            None => None,
            Some(s2) => calls_scan(settle, freq, coupon, clean, calls, j + 1, s2),
        }
    }
}

fn years_or_zero_exec(from: &str, to: &str) -> (r: FinResult<Dec>)
    ensures
        r == lift(years_or_zero(from@, to@)),
{
    match estimate_years(from, to) {
        Ok(y) => Ok(y),
        Err(FinError::ArithmeticOverflow) => Err(FinError::ArithmeticOverflow),
        Err(_) => Ok(Dec::zero()),
    }
}

fn call_warning_exec(date: &str) -> (r: String)
    ensures
        r@ == call_warning(date@),
{
    String::from_str("Could not solve yield-to-call for date ").concat(date)
}

/// The scan state as values.
pub open spec fn scan_of(y: Dec, date: String, price: Dec, kind: String, w: Seq<String>) -> CallScan {
    CallScan { worst_yield: y, worst_date: date@, worst_price: price, worst_type: kind@, warnings: views(w) }
}

fn call_step_exec(
    settle: &str,
    freq: Dec,
    coupon: Dec,
    clean: Dec,
    call: &CallRedemption,
    st: (Dec, String, Dec, String),
    warnings: &mut Vec<String>,
) -> (r: FinResult<(Dec, String, Dec, String)>)
    ensures
        match call_step(settle@, freq, coupon, clean, *call, scan_of(st.0, st.1, st.2, st.3, old(warnings)@)) {
            None => r == Err::<(Dec, String, Dec, String), FinError>(FinError::ArithmeticOverflow),
            Some(s2) => r matches Ok(t) && scan_of(t.0, t.1, t.2, t.3, final(warnings)@) == s2,
        },
{
    let cy = years_or_zero_exec(settle, call.date.as_str())?;
    if cy.le(&Dec::zero()) {
        return Ok(st);
    }
    let cp = rounded_u32_or_exec(cy.mul(&freq)?, 0);
    if cp == 0 {
        return Ok(st);
    }
    let ghost w0 = views(warnings@);
    match solve_yield(coupon, call.price, clean, cp, warnings) {
        Ok(yp) => {
            let ytc = yp.mul(&freq)?.mul(&Dec::new(100, 0))?;
            if ytc.lt(&st.0) {
                Ok((ytc, call.date.clone(), call.price, String::from_str("Call")))
            } else {
                Ok(st)
            }
        },
        Err(FinError::ArithmeticOverflow) => Err(FinError::ArithmeticOverflow),
        Err(_) => {
            push_warning(warnings, call_warning_exec(call.date.as_str()));
            proof {
                let o = solve_yield_spec(coupon, call.price, clean, cp)->Some_0;
                assert(views(warnings@) =~= w0 + o.1 + seq![call_warning(call.date@)]);
            }
            Ok(st)
        },
    }
}

/// The redemption as (type, date, price, worst yield).
pub type RedemptionView = (Seq<char>, Seq<char>, Dec, Option<Dec>);

/// The redemption view of an output.
pub open spec fn redemption_view(r: SscmfiRedemptionInfo) -> RedemptionView {
    (r.redemption_type@, r.redemption_date@, r.redemption_price, r.worst_yield)
}

/// Yield to worst over the call schedule, with the warnings so far `w0` extended: the
/// redemption that gives the lowest yield (maturity, unless a call gives a lower one) and
/// that yield; maturity and no worst yield without a call schedule.
pub open spec fn callable_spec(
    settle: Seq<char>,
    maturity: Seq<char>,
    calls: Option<Seq<CallRedemption>>,
    freq: Dec,
    red: Dec,
    coupon: Dec,
    clean: Dec,
    ytm: Dec,
    w0: Seq<Seq<char>>,
) -> Option<(RedemptionView, Seq<Seq<char>>)> {
    match calls {
        Some(cs) if cs.len() > 0 => match calls_scan(
            settle,
            freq,
            coupon,
            clean,
            cs,
            0,
            CallScan { worst_yield: ytm, worst_date: maturity, worst_price: red, worst_type: "Maturity"@, warnings: w0 },
        ) {
            None => None,
            Some(st) => Some(((st.worst_type, st.worst_date, st.worst_price, Some(st.worst_yield)), st.warnings)),
        },
        _ => Some((("Maturity"@, maturity, red, None), w0)),
    }
}

/// Yield to worst over the call schedule of a level-coupon bond.
pub fn compute_callable_analytics(
    settle: &str,
    maturity: &str,
    calls: &Option<Vec<CallRedemption>>,
    freq: Dec,
    red: Dec,
    coupon: Dec,
    clean: Dec,
    ytm: Dec,
    warnings: &mut Vec<String>,
) -> (r: FinResult<SscmfiRedemptionInfo>)
    ensures
        match callable_spec(
            settle@,
            maturity@,
            match calls {
                Some(v) => Some(v@),
                None => None,
            },
            freq,
            red,
            coupon,
            clean,
            ytm,
            views(old(warnings)@),
        ) {
            None => r == Err::<SscmfiRedemptionInfo, FinError>(FinError::ArithmeticOverflow),
            Some(o) => r matches Ok(info) && redemption_view(info) == o.0 && views(final(warnings)@) == o.1,
        },
{
    let cs = match calls {
        Some(v) => {
            if v.len() == 0 {
                return Ok(
                    SscmfiRedemptionInfo {
                        redemption_type: String::from_str("Maturity"),
                        redemption_date: String::from_str(maturity),
                        redemption_price: red,
                        worst_yield: None,
                    },
                );
            }
            v
        },
        None => {
            return Ok(
                SscmfiRedemptionInfo {
                    redemption_type: String::from_str("Maturity"),
                    redemption_date: String::from_str(maturity),
                    redemption_price: red,
                    worst_yield: None,
                },
            );
        },
    };
    let mut st: (Dec, String, Dec, String) = (ytm, String::from_str(maturity), red, String::from_str("Maturity"));
    let ghost start = scan_of(st.0, st.1, st.2, st.3, warnings@);
    let mut j: usize = 0;
    while j < cs.len()
        invariant
            j <= cs@.len(),
            cs@.len() > 0,
            calls matches Some(v) && v@ == cs@,
            start == (CallScan {
                worst_yield: ytm,
                worst_date: maturity@,
                worst_price: red,
                worst_type: "Maturity"@,
                warnings: views(old(warnings)@),
            }),
            calls_scan(settle@, freq, coupon, clean, cs@, 0, start) == calls_scan(
                settle@,
                freq,
                coupon,
                clean,
                cs@,
                j as nat,
                scan_of(st.0, st.1, st.2, st.3, warnings@),
            ),
        decreases cs@.len() - j,
    {
        st = call_step_exec(settle, freq, coupon, clean, &cs[j], st, warnings)?;
        j = j + 1;
    }
    let worst = st.0;
    Ok(
        SscmfiRedemptionInfo {
            redemption_type: st.3,
            redemption_date: st.1,
            redemption_price: st.2,
            worst_yield: Some(worst),
        },
    )
}

// ---------------------------------------------------------------------------
// Validation and defaults
// ---------------------------------------------------------------------------

/// The first rule of the input that fails, if any.
pub open spec fn validation_spec(i: SscmfiBondInput) -> Option<ErrView> {
    if i.given_type@ != "Price"@ && i.given_type@ != "Yield"@ {
        Some(invalid_input("given_type"@, "Must be 'Price' or 'Yield'"@))
    } else if i.given_type@ == "Price"@ && i.given_value.le_spec(dzero()) {
        Some(invalid_input("given_value"@, "Price must be positive"@))
    } else if (i.payment_type == SscmfiPaymentType::Stepped || i.payment_type == SscmfiPaymentType::Multistep)
        && match i.step_schedule {
        None => true,
        Some(v) => v@.len() == 0,
    } {
        Some(invalid_input("step_schedule"@, "Stepped/Multistep payment type requires step_schedule"@))
    } else if i.payment_type == SscmfiPaymentType::PIK && i.pik_rate is None {
        Some(invalid_input("pik_rate"@, "PIK payment type requires pik_rate"@))
    } else if i.payment_type == SscmfiPaymentType::PartPIK && (i.pik_rate is None || i.cash_rate is None) {
        Some(invalid_input("pik_rate/cash_rate"@, "PartPIK payment type requires both pik_rate and cash_rate"@))
    } else {
        None
    }
}

fn validate_input(input: &SscmfiBondInput) -> (r: FinResult<()>)
    ensures
        r is Err <==> validation_spec(*input) is Some,
        r matches Err(e) ==> validation_spec(*input) == Some(err_view(e)),
{
    let is_price = input.given_type == String::from_str("Price");
    let is_yield = input.given_type == String::from_str("Yield");
    if !is_price && !is_yield {
        return Err(
            FinError::InvalidInput {
                field: String::from_str("given_type"),
                reason: String::from_str("Must be 'Price' or 'Yield'"),
            },
        );
    }
    if is_price && input.given_value.le(&Dec::zero()) {
        return Err(
            FinError::InvalidInput {
                field: String::from_str("given_value"),
                reason: String::from_str("Price must be positive"),
            },
        );
    }
    let stepped = match input.payment_type {
        SscmfiPaymentType::Stepped | SscmfiPaymentType::Multistep => true,
        _ => false,
    };
    if stepped {
        let missing = match &input.step_schedule {
            None => true,
            Some(v) => v.len() == 0,
        };
        if missing {
            return Err(
                FinError::InvalidInput {
                    field: String::from_str("step_schedule"),
                    reason: String::from_str("Stepped/Multistep payment type requires step_schedule"),
                },
            );
        }
    }
    let pik = match input.payment_type {
        SscmfiPaymentType::PIK => true,
        _ => false,
    };
    if pik && input.pik_rate.is_none() {
        return Err(
            FinError::InvalidInput {
                field: String::from_str("pik_rate"),
                reason: String::from_str("PIK payment type requires pik_rate"),
            },
        );
    }
    let part = match input.payment_type {
        SscmfiPaymentType::PartPIK => true,
        _ => false,
    };
    if part && (input.pik_rate.is_none() || input.cash_rate.is_none()) {
        return Err(
            FinError::InvalidInput {
                field: String::from_str("pik_rate/cash_rate"),
                reason: String::from_str("PartPIK payment type requires both pik_rate and cash_rate"),
            },
        );
    }
    Ok(())
}

/// The inputs after applying the defaults of the security type.
pub struct ResolvedInput {
    pub coupon_decimal: Dec,
    pub yield_decimal: Dec,
    pub price: Dec,
    pub given_is_price: bool,
    pub redemption: Dec,
    pub freq: u8,
    pub freq_dec: Dec,
    pub n_periods: u32,
    pub years_to_maturity: Dec,
    pub day_count: SscmfiDayCount,
    pub eom_rule: SscmfiEomRule,
    pub frequency: SscmfiFrequency,
    pub calc_analytics: bool,
    pub calc_cashflows: bool,
    pub settlement_date: String,
}

/// The resolved inputs as values.
pub struct ResolvedView {
    pub coupon_decimal: Dec,
    pub yield_decimal: Dec,
    pub price: Dec,
    pub given_is_price: bool,
    pub redemption: Dec,
    pub freq: u8,
    pub freq_dec: Dec,
    pub n_periods: u32,
    pub years_to_maturity: Dec,
    pub day_count: SscmfiDayCount,
    pub eom_rule: SscmfiEomRule,
    pub frequency: SscmfiFrequency,
    pub calc_analytics: bool,
    pub calc_cashflows: bool,
    pub settlement_date: Seq<char>,
}

pub open spec fn resolved_view(r: ResolvedInput) -> ResolvedView {
    ResolvedView {
        coupon_decimal: r.coupon_decimal,
        yield_decimal: r.yield_decimal,
        price: r.price,
        given_is_price: r.given_is_price,
        redemption: r.redemption,
        freq: r.freq,
        freq_dec: r.freq_dec,
        n_periods: r.n_periods,
        years_to_maturity: r.years_to_maturity,
        day_count: r.day_count,
        eom_rule: r.eom_rule,
        frequency: r.frequency,
        calc_analytics: r.calc_analytics,
        calc_cashflows: r.calc_cashflows,
        settlement_date: r.settlement_date@,
    }
}

/// The day count and frequency a security type uses unless told otherwise.
pub open spec fn type_defaults(t: SscmfiSecurityType) -> (SscmfiDayCount, SscmfiFrequency) {
    match t {
        SscmfiSecurityType::Treasury => (SscmfiDayCount::ActualActual, SscmfiFrequency::Semiannual),
        SscmfiSecurityType::CD => (SscmfiDayCount::Actual360, SscmfiFrequency::Monthly),
        _ => (SscmfiDayCount::SSCM30_360, SscmfiFrequency::Semiannual),
    }
}

/// The settlement date used when none is given.
pub open spec fn default_settlement() -> Seq<char> {
    "02/22/2026"@
}

/// The inputs resolved, with the warnings raised.
pub open spec fn resolve_spec(i: SscmfiBondInput) -> Result<(ResolvedView, Seq<Seq<char>>), ErrView> {
    let (ddc, dfreq) = type_defaults(i.security_type);
    let day_count = match i.day_count {
        Some(d) => d,
        None => ddc,
    };
    let frequency = match i.frequency {
        Some(f) => f,
        None => dfreq,
    };
    let eom_rule = match i.eom_rule {
        Some(e) => e,
        None => SscmfiEomRule::Adjust,
    };
    let redemption = match i.redemption_value {
        Some(v) => v,
        None => hundred(),
    };
    let settle = match i.settlement_date {
        Some(s) => s@,
        None => default_settlement(),
    };
    let freq = frequency.per_year();
    let freq_dec = Dec::lit(freq as int, 0);
    match i.coupon_rate.div_spec(hundred()) {
        None => Err(overflow()),
        Some(coupon) => match years_spec(settle, i.maturity_date@) {
            Err(e) => Err(e),
            Ok(years) => if years.le_spec(dzero()) {
                Err(invalid_input("maturity_date"@, "Maturity date must be after settlement date"@))
            } else {
                match years.mul_spec(freq_dec) {
                    None => Err(overflow()),
                    Some(yf) => {
                        let n0 = to_u32_spec(yf);
                        let gip = i.given_type@ == "Price"@;
                        match (if gip {
                            Some(dzero())
                        } else {
                            i.given_value.div_spec(hundred())
                        }) {
                            None => Err(overflow()),
                            Some(yd) => Ok(
                                (
                                    ResolvedView {
                                        coupon_decimal: coupon,
                                        yield_decimal: yd,
                                        price: if gip {
                                            i.given_value
                                        } else {
                                            dzero()
                                        },
                                        given_is_price: gip,
                                        redemption,
                                        freq,
                                        freq_dec,
                                        n_periods: if n0 == 0 {
                                            1
                                        } else {
                                            n0
                                        },
                                        years_to_maturity: years,
                                        day_count,
                                        eom_rule,
                                        frequency,
                                        calc_analytics: match i.calc_analytics {
                                            Some(b) => b,
                                            None => true,
                                        },
                                        calc_cashflows: match i.calc_cashflows {
                                            Some(b) => b,
                                            None => false,
                                        },
                                        settlement_date: settle,
                                    },
                                    if n0 == 0 {
                                        seq!["Very short-dated bond: computing as single period"@]
                                    } else {
                                        Seq::empty()
                                    },
                                ),
                            ),
                        }
                    },
                }
            },
        },
    }
}

fn resolve_input(input: &SscmfiBondInput, warnings: &mut Vec<String>) -> (r: FinResult<ResolvedInput>)
    ensures
        r is Err <==> resolve_spec(*input) is Err,
        r matches Err(e) ==> resolve_spec(*input) == Err::<(ResolvedView, Seq<Seq<char>>), ErrView>(err_view(e)),
        r matches Ok(rv) ==> {
            let o = resolve_spec(*input)->Ok_0;
            &&& resolved_view(rv) == o.0
            &&& views(final(warnings)@) == views(old(warnings)@) + o.1
        },
{
    let (default_dc, default_freq) = match input.security_type {
        SscmfiSecurityType::Treasury => (SscmfiDayCount::ActualActual, SscmfiFrequency::Semiannual),
        SscmfiSecurityType::CD => (SscmfiDayCount::Actual360, SscmfiFrequency::Monthly),
        _ => (SscmfiDayCount::SSCM30_360, SscmfiFrequency::Semiannual),
    };
    let day_count = match input.day_count {
        Some(d) => d,
        None => default_dc,
    };
    let frequency = match input.frequency {
        Some(f) => f,
        None => default_freq,
    };
    let eom_rule = match input.eom_rule {
        Some(e) => e,
        None => SscmfiEomRule::default(),
    };
    let redemption = match input.redemption_value {
        Some(v) => v,
        None => Dec::new(100, 0),
    };
    let calc_analytics = match input.calc_analytics {
        Some(b) => b,
        None => true,
    };
    let calc_cashflows = match input.calc_cashflows {
        Some(b) => b,
        None => false,
    };
    let settlement_date = match &input.settlement_date {
        Some(s) => s.clone(),
        None => String::from_str("02/22/2026"),
    };
    let coupon_decimal = input.coupon_rate.div(&Dec::new(100, 0))?;
    let freq = frequency.to_u8();
    let freq_dec = Dec::from_u64(freq as u64);
    let years = estimate_years(settlement_date.as_str(), input.maturity_date.as_str())?;
    if years.le(&Dec::zero()) {
        return Err(
            FinError::InvalidInput {
                field: String::from_str("maturity_date"),
                reason: String::from_str("Maturity date must be after settlement date"),
            },
        );
    }
    let n0 = decimal_to_u32(years.mul(&freq_dec)?);
    let given_is_price = input.given_type == String::from_str("Price");
    let (price, yield_decimal) = if given_is_price {
        (input.given_value, Dec::zero())
    } else {
        (Dec::zero(), input.given_value.div(&Dec::new(100, 0))?)
    };
    let ghost before = views(warnings@);
    if n0 == 0 {
        push_warning(warnings, String::from_str("Very short-dated bond: computing as single period"));
        proof {
            assert(views(warnings@) =~= before + seq!["Very short-dated bond: computing as single period"@]);
        }
    } else {
        proof {
            assert(views(warnings@) =~= before + Seq::<Seq<char>>::empty());
        }
    }
    let n_periods = if n0 == 0 {
        1
    } else {
        n0
    };
    Ok(
        ResolvedInput {
            coupon_decimal,
            yield_decimal,
            price,
            given_is_price,
            redemption,
            freq,
            freq_dec,
            n_periods,
            years_to_maturity: years,
            day_count,
            eom_rule,
            frequency,
            calc_analytics,
            calc_cashflows,
            settlement_date,
        },
    )
}

// ---------------------------------------------------------------------------
// Calculators by payment type
// ---------------------------------------------------------------------------

/// A bond calculation as values; `warnings` are all warnings raised so far.
pub struct BondFigures {
    pub price: Dec,
    pub yield_value: Dec,
    pub accrued: Dec,
    pub trading: Dec,
    pub analytics: Option<SscmfiAnalytics>,
    pub cashflows: Option<Seq<(u32, Dec, Seq<char>)>>,
    pub redemption: RedemptionView,
    pub warnings: Seq<Seq<char>>,
}

/// The conventions as (day count, frequency, end-of-month rule, settlement date).
pub open spec fn conventions_view(c: SscmfiConventions) -> (Seq<char>, Seq<char>, Seq<char>, Seq<char>) {
    (c.day_count@, c.frequency@, c.eom_rule@, c.settlement_date@)
}

/// The conventions the resolved inputs name.
pub open spec fn conventions_of(rv: ResolvedView) -> (Seq<char>, Seq<char>, Seq<char>, Seq<char>) {
    (day_count_name(rv.day_count), frequency_name(rv.frequency), eom_name(rv.eom_rule), rv.settlement_date)
}

/// An output holds the figures of a calculation under the resolved conventions.
pub open spec fn bond_output_matches(o: SscmfiBondOutput, f: BondFigures, rv: ResolvedView) -> bool {
    &&& o.price == f.price
    &&& o.yield_value == f.yield_value
    &&& o.accrued_interest == f.accrued
    &&& o.trading_price == f.trading
    &&& o.analytics == f.analytics
    &&& match (o.cashflow_schedule, f.cashflows) {
        (None, None) => true,
        (Some(v), Some(s)) => v@.map_values(|x: SscmfiCashflow| cashflow_view(x)) == s,
        _ => false,
    }
    &&& redemption_view(o.redemption_info) == f.redemption
    &&& conventions_view(o.conventions) == conventions_of(rv)
}

/// A calculator's outcome against its specification.
pub open spec fn calc_meets(res: FinResult<SscmfiBondOutput>, spec: Result<BondFigures, ErrView>, rv: ResolvedView, w: Seq<String>) -> bool {
    match spec {
        Err(e) => res matches Err(x) && err_view(x) == e,
        Ok(f) => res matches Ok(o) && bond_output_matches(o, f, rv) && views(w) == f.warnings,
    }
}

fn build_conventions(r: &ResolvedInput) -> (c: SscmfiConventions)
    ensures
        conventions_view(c) == conventions_of(resolved_view(*r)),
{
    SscmfiConventions {
        day_count: day_count_name_exec(r.day_count),
        frequency: frequency_name_exec(r.frequency),
        eom_rule: eom_name_exec(r.eom_rule),
        settlement_date: r.settlement_date.clone(),
    }
}

/// `x * freq * 100`: a periodic rate as an annual percentage.
pub open spec fn annual_pct(x: Dec, freq: Dec) -> Option<Dec> {
    omul(x.mul_spec(freq), Some(hundred()))
}

/// The yield and warnings of the level-coupon solver, as an outcome.
pub open spec fn solved(o: Option<(Result<Dec, Dec>, Seq<Seq<char>>)>) -> Result<(Dec, Seq<Seq<char>>), ErrView> {
    match o {
        None => Err(overflow()),
        Some((Err(res), _)) => Err(crate::error::convergence_failure("SSCMFI yield solver"@, 100, res)),
        Some((Ok(y), w)) => Ok((y, w)),
    }
}

/// The coupon per period: redemption * coupon rate / frequency.
pub open spec fn periodic_coupon(rv: ResolvedView) -> Option<Dec> {
    odiv(rv.redemption.mul_spec(rv.coupon_decimal), Some(rv.freq_dec))
}

/// The clean price and the yield to maturity in percent of a level-coupon bond, from the
/// given price (solving for the yield) or from the given yield; with the warnings so far.
pub open spec fn periodic_price_yield(i: SscmfiBondInput, rv: ResolvedView, pc: Dec, w0: Seq<Seq<char>>) -> Result<(Dec, Dec, Seq<Seq<char>>), ErrView> {
    if rv.given_is_price {
        match solved(solve_yield_spec(pc, rv.redemption, rv.price, rv.n_periods)) {
            Err(e) => Err(e),
            Ok((y, w)) => match annual_pct(y, rv.freq_dec) {
                None => Err(overflow()),
                Some(yp) => Ok((rv.price, yp, w0 + w)),
            },
        }
    } else {
        match rv.yield_decimal.div_spec(rv.freq_dec) {
            None => Err(overflow()),
            Some(yp) => match price_periodic_spec(pc, rv.redemption, yp, rv.n_periods) {
                None => Err(overflow()),
                Some(p) => Ok((p, i.given_value, w0)),
            },
        }
    }
}

/// The periodic-coupon calculation.
pub open spec fn periodic_spec(i: SscmfiBondInput, rv: ResolvedView, w0: Seq<Seq<char>>) -> Result<BondFigures, ErrView> {
    let red = rv.redemption;
    let fq = rv.freq_dec;
    let n = rv.n_periods;
    match periodic_coupon(rv) {
        None => Err(overflow()),
        Some(pc) => match periodic_price_yield(i, rv, pc, w0) {
            Err(e) => Err(e),
            Ok((clean, ypct, w1)) => match (accrued_spec(rv.coupon_decimal, red, rv.freq), ypct.div_spec(hundred())) {
                (Some(acc), Some(yd)) => match (
                    clean.add_spec(acc),
                    callable_spec(
                        rv.settlement_date,
                        i.maturity_date@,
                        match i.call_schedule {
                            Some(v) => Some(v@),
                            None => None,
                        },
                        fq,
                        red,
                        pc,
                        clean,
                        ypct,
                        w1,
                    ),
                ) {
                    (Some(dirty), Some((info, w2))) => match (
                        if rv.calc_analytics {
                            match yd.div_spec(fq) {
                                None => None,
                                Some(yq) => match analytics_from_yield_spec(pc, red, yq, n, fq, clean) {
                                    None => None,
                                    Some(a) => Some(Some(a)),
                                },
                            }
                        } else {
                            Some(None)
                        },
                        if rv.calc_cashflows {
                            match cashflows_spec(pc, red, n) {
                                None => None,
                                Some(c) => Some(Some(c)),
                            }
                        } else {
                            Some(None)
                        },
                    ) {
                        (Some(an), Some(cfs)) => Ok(
                            BondFigures {
                                price: clean,
                                yield_value: match info.3 {
                                    Some(wy) => wy,
                                    None => ypct,
                                },
                                accrued: acc,
                                trading: dirty,
                                analytics: an,
                                cashflows: cfs,
                                redemption: info,
                                warnings: w2,
                            },
                        ),
                        _ => Err(overflow()),
                    },
                    _ => Err(overflow()),
                },
                _ => Err(overflow()),
            },
        },
    }
}

fn calculate_periodic(input: &SscmfiBondInput, r: &ResolvedInput, warnings: &mut Vec<String>) -> (res: FinResult<SscmfiBondOutput>)
    ensures
        calc_meets(res, periodic_spec(*input, resolved_view(*r), views(old(warnings)@)), resolved_view(*r), final(warnings)@),
{
    let pc = r.redemption.mul(&r.coupon_decimal)?.div(&r.freq_dec)?;
    let (clean, ypct) = if r.given_is_price {
        let y = solve_yield(pc, r.redemption, r.price, r.n_periods, warnings)?;
        (r.price, y.mul(&r.freq_dec)?.mul(&Dec::new(100, 0))?)
    } else {
        let p = price_from_yield_periodic(pc, r.redemption, r.yield_decimal.div(&r.freq_dec)?, r.n_periods)?;
        (p, input.given_value)
    };
    let accrued = compute_accrued(r.coupon_decimal, r.redemption, r.freq)?;
    let dirty = clean.add(&accrued)?;
    let yd = ypct.div(&Dec::new(100, 0))?;
    let info = compute_callable_analytics(
        r.settlement_date.as_str(),
        input.maturity_date.as_str(),
        &input.call_schedule,
        r.freq_dec,
        r.redemption,
        pc,
        clean,
        ypct,
        warnings,
    )?;
    let analytics = if r.calc_analytics {
        Some(compute_analytics_from_yield(pc, r.redemption, yd.div(&r.freq_dec)?, r.n_periods, r.freq_dec, clean)?)
    } else {
        None
    };
    let cashflows = if r.calc_cashflows {
        Some(generate_cashflows(pc, r.redemption, r.n_periods)?)
    } else {
        None
    };
    let yield_value = match info.worst_yield {
        Some(w) => w,
        None => ypct,
    };
    Ok(
        SscmfiBondOutput {
            price: clean,
            yield_value,
            accrued_interest: accrued,
            trading_price: dirty,
            analytics,
            cashflow_schedule: cashflows,
            redemption_info: info,
            conventions: build_conventions(r),
        },
    )
}

/// The price and annual yield in percent of a single payment `mv` due in `years`, from the
/// given price (solving for the yield) or from the given yield; with the warnings so far.
pub open spec fn bullet_price_yield(mv: Dec, rv: ResolvedView, given: Dec, w0: Seq<Seq<char>>, per_period: bool) -> Result<(Dec, Dec, Seq<Seq<char>>), ErrView> {
    if rv.given_is_price {
        match solve_discount_spec(mv, rv.price, rv.years_to_maturity) {
            Err(e) => Err(e),
            Ok((y, w)) => match y.mul_spec(hundred()) {
                None => Err(overflow()),
                Some(yp) => Ok((rv.price, yp, w0 + w)),
            },
        }
    } else {
        let base = if per_period {
            match rv.yield_decimal.div_spec(rv.freq_dec) {
                None => None,
                Some(yq) => one().add_spec(yq),
            }
        } else {
            one().add_spec(rv.yield_decimal)
        };
        let e = if per_period {
            Dec::lit(rv.n_periods as int, 0)
        } else {
            rv.years_to_maturity
        };
        match base {
            None => Err(overflow()),
            Some(b) => match odiv(Some(mv), ipow_spec(b, e)) {
                None => Err(overflow()),
                Some(p) => Ok((p, given, w0)),
            },
        }
    }
}

/// Analytics of a single payment at maturity when asked for: the yield per period and the
/// convexity gap are y / frequency and 1 / frequency (`per_period`), or y and 1.
pub open spec fn bullet_analytics_opt(rv: ResolvedView, ypct: Dec, clean: Dec, per_period: bool) -> Option<Option<SscmfiAnalytics>> {
    if !rv.calc_analytics {
        Some(None)
    } else {
        match ypct.div_spec(hundred()) {
            None => None,
            Some(yd) => match (if per_period {
                (yd.div_spec(rv.freq_dec), one().div_spec(rv.freq_dec))
            } else {
                (Some(yd), Some(one()))
            }) {
                (Some(step), Some(gap)) => match bullet_analytics(rv.years_to_maturity, step, gap, clean) {
                    None => None,
                    Some(a) => Some(Some(a)),
                },
                _ => None,
            },
        }
    }
}

/// The zero-coupon calculation.
pub open spec fn discount_spec(i: SscmfiBondInput, rv: ResolvedView, w0: Seq<Seq<char>>) -> Result<BondFigures, ErrView> {
    match bullet_price_yield(rv.redemption, rv, i.given_value, w0, true) {
        Err(e) => Err(e),
        Ok((clean, ypct, w1)) => match bullet_analytics_opt(rv, ypct, clean, true) {
            None => Err(overflow()),
            Some(an) => Ok(
                BondFigures {
                    price: clean,
                    yield_value: ypct,
                    accrued: dzero(),
                    trading: clean,
                    analytics: an,
                    cashflows: if rv.calc_cashflows {
                        Some(seq![(rv.n_periods, rv.redemption, "Redemption"@)])
                    } else {
                        None
                    },
                    redemption: ("Maturity"@, i.maturity_date@, rv.redemption, None),
                    warnings: w1,
                },
            ),
        },
    }
}

/// The interest-at-maturity calculation: simple interest for the whole term paid with the
/// principal.
pub open spec fn iam_spec(i: SscmfiBondInput, rv: ResolvedView, w0: Seq<Seq<char>>) -> Result<BondFigures, ErrView> {
    let red = rv.redemption;
    match oadd(Some(red), omul(red.mul_spec(rv.coupon_decimal), Some(rv.years_to_maturity))) {
        None => Err(overflow()),
        Some(mp) => match bullet_price_yield(mp, rv, i.given_value, w0, false) {
            Err(e) => Err(e),
            Ok((clean, ypct, w1)) => match (omul(red.mul_spec(rv.coupon_decimal), Some(Dec::lit(5, 1))), bullet_analytics_opt(rv, ypct, clean, false)) {
                (Some(acc), Some(an)) => match clean.add_spec(acc) {
                    None => Err(overflow()),
                    Some(trading) => Ok(
                        BondFigures {
                            price: clean,
                            yield_value: ypct,
                            accrued: acc,
                            trading,
                            analytics: an,
                            cashflows: if rv.calc_cashflows {
                                Some(seq![(1u32, mp, "Interest + Redemption"@)])
                            } else {
                                None
                            },
                            redemption: ("Maturity"@, i.maturity_date@, red, None),
                            warnings: w1,
                        },
                    ),
                },
                _ => Err(overflow()),
            },
        },
    }
}

/// The face value accreted in kind over `n` periods: redemption * (1 + pik / frequency)^n.
pub open spec fn accreted_face(red: Dec, pik: Dec, rv: ResolvedView) -> Option<Dec> {
    match odiv(Some(pik), Some(rv.freq_dec)) {
        None => None,
        Some(pp) => match one().add_spec(pp) {
            None => None,
            Some(b) => omul(Some(red), ipow_spec(b, Dec::lit(rv.n_periods as int, 0))),
        },
    }
}

/// The paid-in-kind calculation: all interest accretes to the principal.
pub open spec fn pik_spec(i: SscmfiBondInput, rv: ResolvedView, w0: Seq<Seq<char>>) -> Result<BondFigures, ErrView> {
    let rate = match i.pik_rate {
        Some(p) => p,
        None => i.coupon_rate,
    };
    match rate.div_spec(hundred()) {
        None => Err(overflow()),
        Some(pik) => match accreted_face(rv.redemption, pik, rv) {
            None => Err(overflow()),
            Some(af) => match bullet_price_yield(af, rv, i.given_value, w0, false) {
                Err(e) => Err(e),
                Ok((clean, ypct, w1)) => match bullet_analytics_opt(rv, ypct, clean, true) {
                    None => Err(overflow()),
                    Some(an) => Ok(
                        BondFigures {
                            price: clean,
                            yield_value: ypct,
                            accrued: dzero(),
                            trading: clean,
                            analytics: an,
                            cashflows: if rv.calc_cashflows {
                                Some(seq![(rv.n_periods, af, "Accreted Redemption (PIK)"@)])
                            } else {
                                None
                            },
                            redemption: ("Maturity"@, i.maturity_date@, af, None),
                            warnings: w1,
                        },
                    ),
                },
            },
        },
    }
}

fn bullet_price_yield_exec(mv: Dec, r: &ResolvedInput, given: Dec, per_period: bool, warnings: &mut Vec<String>) -> (res: FinResult<(Dec, Dec)>)
    ensures
        match bullet_price_yield(mv, resolved_view(*r), given, views(old(warnings)@), per_period) {
            Err(e) => res matches Err(x) && err_view(x) == e,
            Ok(t) => res == Ok::<(Dec, Dec), FinError>((t.0, t.1)) && views(final(warnings)@) == t.2,
        },
{
    if r.given_is_price {
        let y = solve_discount_yield(mv, r.price, r.years_to_maturity, warnings)?;
        Ok((r.price, y.mul(&Dec::new(100, 0))?))
    } else {
        let b = if per_period {
            Dec::one().add(&r.yield_decimal.div(&r.freq_dec)?)?
        } else {
            Dec::one().add(&r.yield_decimal)?
        };
        let e = if per_period {
            Dec::from_u64(r.n_periods as u64)
        } else {
            r.years_to_maturity
        };
        let p = mv.div(&iterative_pow(b, e)?)?;
        Ok((p, given))
    }
}

fn bullet_analytics_opt_exec(r: &ResolvedInput, ypct: Dec, clean: Dec, per_period: bool) -> (res: FinResult<Option<SscmfiAnalytics>>)
    ensures
        res == match bullet_analytics_opt(resolved_view(*r), ypct, clean, per_period) {
            Some(a) => Ok::<Option<SscmfiAnalytics>, FinError>(a),
            None => Err(FinError::ArithmeticOverflow),
        },
{
    if !r.calc_analytics {
        return Ok(None);
    }
    let yd = ypct.div(&Dec::new(100, 0))?;
    let (step, gap) = if per_period {
        (yd.div(&r.freq_dec)?, Dec::one().div(&r.freq_dec)?)
    } else {
        (yd, Dec::one())
    };
    Ok(Some(bullet_analytics_exec(r.years_to_maturity, step, gap, clean)?))
}

fn maturity_info(maturity: &str, price: Dec) -> (info: SscmfiRedemptionInfo)
    ensures
        redemption_view(info) == ("Maturity"@, maturity@, price, None::<Dec>),
{
    SscmfiRedemptionInfo {
        redemption_type: String::from_str("Maturity"),
        redemption_date: String::from_str(maturity),
        redemption_price: price,
        worst_yield: None,
    }
}

fn single_cashflow(period: u32, amount: Dec, kind: &str) -> (r: Vec<SscmfiCashflow>)
    ensures
        r@.map_values(|x: SscmfiCashflow| cashflow_view(x)) == seq![(period, amount, kind@)],
{
    let r = vec![SscmfiCashflow { period, amount, cashflow_type: String::from_str(kind) }];
    proof {
        assert(r@.map_values(|x: SscmfiCashflow| cashflow_view(x)) =~= seq![(period, amount, kind@)]);
    }
    r
}

fn calculate_discount(input: &SscmfiBondInput, r: &ResolvedInput, warnings: &mut Vec<String>) -> (res: FinResult<SscmfiBondOutput>)
    ensures
        calc_meets(res, discount_spec(*input, resolved_view(*r), views(old(warnings)@)), resolved_view(*r), final(warnings)@),
{
    let (clean, ypct) = bullet_price_yield_exec(r.redemption, r, input.given_value, true, warnings)?;
    let analytics = bullet_analytics_opt_exec(r, ypct, clean, true)?;
    Ok(
        SscmfiBondOutput {
            price: clean,
            yield_value: ypct,
            accrued_interest: Dec::zero(),
            trading_price: clean,
            analytics,
            cashflow_schedule: if r.calc_cashflows {
                Some(single_cashflow(r.n_periods, r.redemption, "Redemption"))
            } else {
                None
            },
            redemption_info: maturity_info(input.maturity_date.as_str(), r.redemption),
            conventions: build_conventions(r),
        },
    )
}

fn calculate_iam(input: &SscmfiBondInput, r: &ResolvedInput, warnings: &mut Vec<String>) -> (res: FinResult<SscmfiBondOutput>)
    ensures
        calc_meets(res, iam_spec(*input, resolved_view(*r), views(old(warnings)@)), resolved_view(*r), final(warnings)@),
{
    let total_interest = r.redemption.mul(&r.coupon_decimal)?.mul(&r.years_to_maturity)?;
    let mp = r.redemption.add(&total_interest)?;
    let (clean, ypct) = bullet_price_yield_exec(mp, r, input.given_value, false, warnings)?;
    let accrued = r.redemption.mul(&r.coupon_decimal)?.mul(&Dec::new(5, 1))?;
    let analytics = bullet_analytics_opt_exec(r, ypct, clean, false)?;
    Ok(
        SscmfiBondOutput {
            price: clean,
            yield_value: ypct,
            accrued_interest: accrued,
            trading_price: clean.add(&accrued)?,
            analytics,
            cashflow_schedule: if r.calc_cashflows {
                Some(single_cashflow(1, mp, "Interest + Redemption"))
            } else {
                None
            },
            redemption_info: maturity_info(input.maturity_date.as_str(), r.redemption),
            conventions: build_conventions(r),
        },
    )
}

fn calculate_pik(input: &SscmfiBondInput, r: &ResolvedInput, warnings: &mut Vec<String>) -> (res: FinResult<SscmfiBondOutput>)
    ensures
        calc_meets(res, pik_spec(*input, resolved_view(*r), views(old(warnings)@)), resolved_view(*r), final(warnings)@),
{
    let rate = match input.pik_rate {
        Some(p) => p,
        None => input.coupon_rate,
    };
    let pik = rate.div(&Dec::new(100, 0))?;
    let pp = pik.div(&r.freq_dec)?;
    let af = r.redemption.mul(&iterative_pow(Dec::one().add(&pp)?, Dec::from_u64(r.n_periods as u64))?)?;
    let (clean, ypct) = bullet_price_yield_exec(af, r, input.given_value, false, warnings)?;
    let analytics = bullet_analytics_opt_exec(r, ypct, clean, true)?;
    Ok(
        SscmfiBondOutput {
            price: clean,
            yield_value: ypct,
            accrued_interest: Dec::zero(),
            trading_price: clean,
            analytics,
            cashflow_schedule: if r.calc_cashflows {
                Some(single_cashflow(r.n_periods, af, "Accreted Redemption (PIK)"))
            } else {
                None
            },
            redemption_info: maturity_info(input.maturity_date.as_str(), af),
            conventions: build_conventions(r),
        },
    )
}

/// Years between two dates, `fallback` when a date cannot be read; `None` on overflow.
pub open spec fn years_or(from: Seq<char>, to: Seq<char>, fallback: Dec) -> Option<Dec> {
    match years_spec(from, to) {
        Ok(y) => Some(y),
        Err(e) => if e == overflow() {
            None
        } else {
            Some(fallback)
        },
    }
}

fn years_or_exec(from: &str, to: &str, fallback: Dec) -> (r: FinResult<Dec>)
    ensures
        r == lift(years_or(from@, to@, fallback)),
{
    match estimate_years(from, to) {
        Ok(y) => Ok(y),
        Err(FinError::ArithmeticOverflow) => Err(FinError::ArithmeticOverflow),
        Err(_) => Ok(fallback),
    }
}

/// The price and annual yield in percent of a model priced by finite differences, from the
/// given price (solving from `y0`, with the warning `relaxed` when the search does not
/// converge) or from the given yield.
pub open spec fn fd_price_yield(m: FdModelView, rv: ResolvedView, given: Dec, y0: Dec, relaxed: Seq<char>, w0: Seq<Seq<char>>) -> Result<(Dec, Dec, Seq<Seq<char>>), ErrView> {
    if rv.given_is_price {
        match fd_newton(m, rv.price, y0, 0) {
            None => Err(overflow()),
            Some((y, done)) => match annual_pct(y, rv.freq_dec) {
                None => Err(overflow()),
                Some(yp) => Ok((rv.price, yp, if done { w0 } else { w0.push(relaxed) })),
            },
        }
    } else {
        match rv.yield_decimal.div_spec(rv.freq_dec) {
            None => Err(overflow()),
            Some(yq) => match fd_price(m, yq) {
                None => Err(overflow()),
                Some(p) => Ok((p, given, w0)),
            },
        }
    }
}

fn fd_price_yield_exec(m: &FdModel, r: &ResolvedInput, given: Dec, y0: Dec, relaxed: &str, warnings: &mut Vec<String>) -> (res: FinResult<(Dec, Dec)>)
    ensures
        match fd_price_yield(model_view(*m), resolved_view(*r), given, y0, relaxed@, views(old(warnings)@)) {
            Err(e) => res matches Err(x) && err_view(x) == e,
            Ok(t) => res == Ok::<(Dec, Dec), FinError>((t.0, t.1)) && views(final(warnings)@) == t.2,
        },
{
    if r.given_is_price {
        let y = solve_fd_yield(m, r.price, y0, relaxed, warnings)?;
        Ok((r.price, y.mul(&r.freq_dec)?.mul(&Dec::new(100, 0))?))
    } else {
        let p = fd_price_exec(m, r.yield_decimal.div(&r.freq_dec)?)?;
        Ok((p, given))
    }
}

/// The periods before and after the single coupon step.
pub open spec fn step_periods(i: SscmfiBondInput, rv: ResolvedView, step: StepSchedule) -> Option<(u32, u32)> {
    match rv.years_to_maturity.div_spec(Dec::lit(2, 0)) {
        None => None,
        Some(half) => match years_or(rv.settlement_date, step.date@, half) {
            None => None,
            Some(sy) => match sy.mul_spec(rv.freq_dec) {
                None => None,
                Some(x) => {
                    let pb0 = rounded_u32_or(x, rv.n_periods / 2);
                    let pb = if pb0 == 0 { 1 } else { pb0 };
                    let rest = if rv.n_periods > pb { (rv.n_periods - pb) as u32 } else { 0u32 };
                    Some((pb, if rest == 0 { 1 } else { rest }))
                },
            },
        },
    }
}

/// The calculation of a bond whose coupon steps once, at the first date of the step schedule.
pub open spec fn stepped_spec(i: SscmfiBondInput, rv: ResolvedView, w0: Seq<Seq<char>>) -> Result<BondFigures, ErrView> {
    let red = rv.redemption;
    let fq = rv.freq_dec;
    match i.step_schedule {
        None => Err(overflow()),
        Some(v) => if v@.len() == 0 {
            Err(overflow())
        } else {
            let step = v@[0];
            match (step.coupon_rate.div_spec(hundred()), step_periods(i, rv, step)) {
                (Some(rate), Some((pb, pa))) => match (odiv(red.mul_spec(rv.coupon_decimal), Some(fq)), odiv(red.mul_spec(rate), Some(fq))) {
                    (Some(cb), Some(ca)) => {
                        let m = FdModelView::Stepped { coupon_before: cb, coupon_after: ca, redemption: red, periods_before: pb, periods_after: pa };
                        match fd_price_yield(m, rv, i.given_value, Dec::lit(25, 3), "Stepped yield solver used relaxed convergence"@, w0) {
                            Err(e) => Err(e),
                            Ok((clean, ypct, w1)) => match (
                                accrued_spec(rv.coupon_decimal, red, rv.freq),
                                if rv.calc_analytics {
                                    match odiv(ypct.div_spec(hundred()), Some(fq)) {
                                        None => None,
                                        Some(yq) => match analytics_stepped_spec(cb, ca, red, yq, pb, pa, fq, clean) {
                                            None => None,
                                            Some(a) => Some(Some(a)),
                                        },
                                    }
                                } else {
                                    Some(None)
                                },
                            ) {
                                (Some(acc), Some(an)) => match clean.add_spec(acc) {
                                    None => Err(overflow()),
                                    Some(trading) => Ok(
                                        BondFigures {
                                            price: clean,
                                            yield_value: ypct,
                                            accrued: acc,
                                            trading,
                                            analytics: an,
                                            cashflows: None,
                                            redemption: ("Maturity"@, i.maturity_date@, red, None),
                                            warnings: w1,
                                        },
                                    ),
                                },
                                _ => Err(overflow()),
                            },
                        }
                    },
                    _ => Err(overflow()),
                },
                _ => Err(overflow()),
            }
        },
    }
}

fn calculate_stepped(input: &SscmfiBondInput, r: &ResolvedInput, warnings: &mut Vec<String>) -> (res: FinResult<SscmfiBondOutput>)
    requires
        input.step_schedule matches Some(v) && v@.len() > 0,
    ensures
        calc_meets(res, stepped_spec(*input, resolved_view(*r), views(old(warnings)@)), resolved_view(*r), final(warnings)@),
{
    let schedule = match &input.step_schedule {
        Some(v) => v,
        None => {
            return Err(FinError::ArithmeticOverflow);
        },
    };
    let step = &schedule[0];
    let step_rate = step.coupon_rate.div(&Dec::new(100, 0))?;
    let half = r.years_to_maturity.div(&Dec::new(2, 0))?;
    let step_years = years_or_exec(r.settlement_date.as_str(), step.date.as_str(), half)?;
    let pb0 = rounded_u32_or_exec(step_years.mul(&r.freq_dec)?, r.n_periods / 2);
    let pb = if pb0 == 0 {
        1
    } else {
        pb0
    };
    let rest = r.n_periods.saturating_sub(pb);
    let pa = if rest == 0 {
        1
    } else {
        rest
    };
    let cb = r.redemption.mul(&r.coupon_decimal)?.div(&r.freq_dec)?;
    let ca = r.redemption.mul(&step_rate)?.div(&r.freq_dec)?;
    let m = FdModel::Stepped { coupon_before: cb, coupon_after: ca, redemption: r.redemption, periods_before: pb, periods_after: pa };
    let (clean, ypct) = fd_price_yield_exec(
        &m,
        r,
        input.given_value,
        Dec::new(25, 3),
        "Stepped yield solver used relaxed convergence",
        warnings,
    )?;
    let accrued = compute_accrued(r.coupon_decimal, r.redemption, r.freq)?;
    let analytics = if r.calc_analytics {
        let yq = ypct.div(&Dec::new(100, 0))?.div(&r.freq_dec)?;
        Some(compute_analytics_stepped(cb, ca, r.redemption, yq, pb, pa, r.freq_dec, clean)?)
    } else {
        None
    };
    Ok(
        SscmfiBondOutput {
            price: clean,
            yield_value: ypct,
            accrued_interest: accrued,
            trading_price: clean.add(&accrued)?,
            analytics,
            cashflow_schedule: None,
            redemption_info: maturity_info(input.maturity_date.as_str(), r.redemption),
            conventions: build_conventions(r),
        },
    )
}

/// The running state of the segment schedule: previous date, previous rate, periods so far,
/// segments so far.
pub type SegState = (Seq<char>, Dec, u32, Seq<(u32, Dec)>);

/// One step date closes the segment since the previous date: its periods (at least one, one
/// when a date cannot be read) at the previous rate.
pub open spec fn segment_step(rv: ResolvedView, step: StepSchedule, st: SegState) -> Option<SegState> {
    match years_or(st.0, step.date@, one()) {
        None => None,
        Some(sy) => match (sy.mul_spec(rv.freq_dec), odiv(rv.redemption.mul_spec(st.1), Some(rv.freq_dec))) {
            (Some(x), Some(c)) => {
                let k0 = rounded_u32_or(x, 1);
                let k = if k0 == 0 { 1 } else { k0 };
                if st.2 as nat + k as nat > u32::MAX {
                    None
                } else {
                    match step.coupon_rate.div_spec(hundred()) {
                        None => None,
                        Some(rate) => Some((step.date@, rate, (st.2 + k) as u32, st.3.push((k, c)))),
                    }
                }
            },
            _ => None,
        },
    }
}

/// The segments of the step dates from `j` on.
pub open spec fn segments_scan(rv: ResolvedView, steps: Seq<StepSchedule>, j: nat, st: SegState) -> Option<SegState>
    decreases steps.len() - j,
{
    if j >= steps.len() {
        Some(st)
    } else {
        match segment_step(rv, steps[j as int], st) {
            None => None,
            Some(s2) => segments_scan(rv, steps, j + 1, s2),
        }
    }
}

/// The coupon segments of a multistep bond: one per step date, then the rest of the term
/// (at least one period) at the last rate.
pub open spec fn segments_spec(rv: ResolvedView, steps: Seq<StepSchedule>) -> Option<Seq<(u32, Dec)>> {
    match segments_scan(rv, steps, 0, (rv.settlement_date, rv.coupon_decimal, 0u32, Seq::empty())) {
        None => None,
        Some(st) => {
            let remaining = if st.2 < rv.n_periods { (rv.n_periods - st.2) as u32 } else { 1u32 };
            match odiv(rv.redemption.mul_spec(st.1), Some(rv.freq_dec)) {
                None => None,
                Some(c) => Some(st.3.push((remaining, c))),
            }
        },
    }
}

/// The calculation of a bond whose coupon follows the step schedule.
pub open spec fn multistep_spec(i: SscmfiBondInput, rv: ResolvedView, w0: Seq<Seq<char>>) -> Result<BondFigures, ErrView> {
    let steps = match i.step_schedule {
        Some(v) => v@,
        None => Seq::empty(),
    };
    match segments_spec(rv, steps) {
        None => Err(overflow()),
        Some(segs) => {
            let m = FdModelView::Multistep { segments: segs, redemption: rv.redemption };
            match fd_price_yield(m, rv, i.given_value, Dec::lit(25, 3), "Multistep yield solver used relaxed convergence"@, w0) {
                Err(e) => Err(e),
                Ok((clean, ypct, w1)) => match accrued_spec(rv.coupon_decimal, rv.redemption, rv.freq) {
                    None => Err(overflow()),
                    Some(acc) => match clean.add_spec(acc) {
                        None => Err(overflow()),
                        Some(trading) => Ok(
                            BondFigures {
                                price: clean,
                                yield_value: ypct,
                                accrued: acc,
                                trading,
                                analytics: None,
                                cashflows: None,
                                redemption: ("Maturity"@, i.maturity_date@, rv.redemption, None),
                                warnings: w1,
                            },
                        ),
                    },
                },
            }
        },
    }
}

fn segments_exec(r: &ResolvedInput, steps: &Vec<StepSchedule>) -> (res: FinResult<Vec<(u32, Dec)>>)
    ensures
        match segments_spec(resolved_view(*r), steps@) {
            None => res == Err::<Vec<(u32, Dec)>, FinError>(FinError::ArithmeticOverflow),
            Some(s) => res matches Ok(v) && v@ == s,
        },
{
    let ghost rv = resolved_view(*r);
    let mut segs: Vec<(u32, Dec)> = Vec::new();
    let mut prev_date = r.settlement_date.clone();
    let mut prev_rate = r.coupon_decimal;
    let mut total: u32 = 0;
    let mut j: usize = 0;
    while j < steps.len()
        invariant
            j <= steps@.len(),
            rv == resolved_view(*r),
            segments_scan(rv, steps@, 0, (rv.settlement_date, rv.coupon_decimal, 0u32, Seq::empty()))
                == segments_scan(rv, steps@, j as nat, (prev_date@, prev_rate, total, segs@)),
        decreases steps@.len() - j,
    {
        let step = &steps[j];
        let sy = years_or_exec(prev_date.as_str(), step.date.as_str(), Dec::one())?;
        let x = sy.mul(&r.freq_dec)?;
        let k0 = rounded_u32_or_exec(x, 1);
        let k = if k0 == 0 {
            1
        } else {
            k0
        };
        let c = r.redemption.mul(&prev_rate)?.div(&r.freq_dec)?;
        segs.push((k, c));
        total = match total.checked_add(k) {
            Some(t) => t,
            None => {
                return Err(FinError::ArithmeticOverflow);
            },
        };
        prev_rate = step.coupon_rate.div(&Dec::new(100, 0))?;
        prev_date = step.date.clone();
        j = j + 1;
    }
    let remaining = if total < r.n_periods {
        r.n_periods - total
    } else {
        1
    };
    let c = r.redemption.mul(&prev_rate)?.div(&r.freq_dec)?;
    segs.push((remaining, c));
    Ok(segs)
}

fn calculate_multistep(input: &SscmfiBondInput, r: &ResolvedInput, warnings: &mut Vec<String>) -> (res: FinResult<SscmfiBondOutput>)
    ensures
        calc_meets(res, multistep_spec(*input, resolved_view(*r), views(old(warnings)@)), resolved_view(*r), final(warnings)@),
{
    let empty: Vec<StepSchedule> = Vec::new();
    let steps = match &input.step_schedule {
        Some(v) => v,
        None => &empty,
    };
    let segs = segments_exec(r, steps)?;
    let m = FdModel::Multistep { segments: segs, redemption: r.redemption };
    let (clean, ypct) = fd_price_yield_exec(
        &m,
        r,
        input.given_value,
        Dec::new(25, 3),
        "Multistep yield solver used relaxed convergence",
        warnings,
    )?;
    let accrued = compute_accrued(r.coupon_decimal, r.redemption, r.freq)?;
    Ok(
        SscmfiBondOutput {
            price: clean,
            yield_value: ypct,
            accrued_interest: accrued,
            trading_price: clean.add(&accrued)?,
            analytics: None,
            cashflow_schedule: None,
            redemption_info: maturity_info(input.maturity_date.as_str(), r.redemption),
            conventions: build_conventions(r),
        },
    )
}

/// The calculation of a bond paying part of its coupon in cash and part in kind.
pub open spec fn partpik_spec(i: SscmfiBondInput, rv: ResolvedView, w0: Seq<Seq<char>>) -> Result<BondFigures, ErrView> {
    let red = rv.redemption;
    let fq = rv.freq_dec;
    match (i.cash_rate, i.pik_rate) {
        (Some(cr), Some(pr)) => match (cr.div_spec(hundred()), pr.div_spec(hundred())) {
            (Some(cash), Some(pik)) => match (odiv(red.mul_spec(cash), Some(fq)), pik.div_spec(fq), accreted_face(red, pik, rv)) {
                (Some(pc), Some(pp), Some(af)) => {
                    let m = FdModelView::PartPik { cash_coupon: pc, periodic_pik: pp, redemption: red, n: rv.n_periods };
                    match fd_price_yield(m, rv, i.given_value, Dec::lit(4, 2), "PartPIK yield solver used relaxed convergence"@, w0) {
                        Err(e) => Err(e),
                        Ok((clean, ypct, w1)) => match accrued_spec(cash, red, rv.freq) {
                            None => Err(overflow()),
                            Some(acc) => match clean.add_spec(acc) {
                                None => Err(overflow()),
                                Some(trading) => Ok(
                                    BondFigures {
                                        price: clean,
                                        yield_value: ypct,
                                        accrued: acc,
                                        trading,
                                        analytics: None,
                                        cashflows: None,
                                        redemption: ("Maturity"@, i.maturity_date@, af, None),
                                        warnings: w1,
                                    },
                                ),
                            },
                        },
                    }
                },
                _ => Err(overflow()),
            },
            _ => Err(overflow()),
        },
        _ => Err(overflow()),
    }
}

fn calculate_partpik(input: &SscmfiBondInput, r: &ResolvedInput, warnings: &mut Vec<String>) -> (res: FinResult<SscmfiBondOutput>)
    requires
        input.cash_rate is Some,
        input.pik_rate is Some,
    ensures
        calc_meets(res, partpik_spec(*input, resolved_view(*r), views(old(warnings)@)), resolved_view(*r), final(warnings)@),
{
    let (cr, pr) = match (input.cash_rate, input.pik_rate) {
        (Some(c), Some(p)) => (c, p),
        _ => {
            return Err(FinError::ArithmeticOverflow);
        },
    };
    let cash = cr.div(&Dec::new(100, 0))?;
    let pik = pr.div(&Dec::new(100, 0))?;
    let pc = r.redemption.mul(&cash)?.div(&r.freq_dec)?;
    let pp = pik.div(&r.freq_dec)?;
    let af = r.redemption.mul(&iterative_pow(Dec::one().add(&pp)?, Dec::from_u64(r.n_periods as u64))?)?;
    let m = FdModel::PartPik { cash_coupon: pc, periodic_pik: pp, redemption: r.redemption, n: r.n_periods };
    let (clean, ypct) = fd_price_yield_exec(
        &m,
        r,
        input.given_value,
        Dec::new(4, 2),
        "PartPIK yield solver used relaxed convergence",
        warnings,
    )?;
    let accrued = compute_accrued(cash, r.redemption, r.freq)?;
    Ok(
        SscmfiBondOutput {
            price: clean,
            yield_value: ypct,
            accrued_interest: accrued,
            trading_price: clean.add(&accrued)?,
            analytics: None,
            cashflow_schedule: None,
            redemption_info: maturity_info(input.maturity_date.as_str(), af),
            conventions: build_conventions(r),
        },
    )
}

// ---------------------------------------------------------------------------
// Entry point
// ---------------------------------------------------------------------------

/// The calculation of the input's payment type.
pub open spec fn calc_by_type(i: SscmfiBondInput, rv: ResolvedView, w: Seq<Seq<char>>) -> Result<BondFigures, ErrView> {
    match i.payment_type {
        SscmfiPaymentType::Periodic => periodic_spec(i, rv, w),
        SscmfiPaymentType::Discount => discount_spec(i, rv, w),
        SscmfiPaymentType::IAM => iam_spec(i, rv, w),
        SscmfiPaymentType::Stepped => stepped_spec(i, rv, w),
        SscmfiPaymentType::Multistep => multistep_spec(i, rv, w),
        SscmfiPaymentType::PIK => pik_spec(i, rv, w),
        SscmfiPaymentType::PartPIK => partpik_spec(i, rv, w),
    }
}

/// A bond calculation: validation, defaults of the security type, then the calculator of
/// the payment type.
pub open spec fn sscmfi_spec(i: SscmfiBondInput) -> Result<(ResolvedView, BondFigures), ErrView> {
    match validation_spec(i) {
        Some(e) => Err(e),
        None => match resolve_spec(i) {
            Err(e) => Err(e),
            Ok((rv, w)) => match calc_by_type(i, rv, w) {
                Err(e) => Err(e),
                Ok(f) => Ok((rv, f)),
            },
        },
    }
}

/// Price or yield of a bond under the SSCMFI conventions, with accrued interest, analytics,
/// cash flows and yield to worst as its payment type allows.
pub fn calculate_sscmfi_bond(input: &SscmfiBondInput) -> (r: FinResult<ComputationOutput<SscmfiBondOutput>>)
    ensures
        r is Err <==> sscmfi_spec(*input) is Err,
        r matches Err(e) ==> sscmfi_spec(*input) == Err::<(ResolvedView, BondFigures), ErrView>(err_view(e)),
        r matches Ok(o) ==> {
            let (rv, f) = sscmfi_spec(*input)->Ok_0;
            &&& bond_output_matches(o.result, f, rv)
            &&& views(o.warnings@) == f.warnings
            &&& o.methodology@ == "SSCMFI Bond Math (native Rust, 128-bit decimal)"@
        },
{
    let mut warnings: Vec<String> = Vec::new();
    proof {
        assert(views(warnings@) =~= Seq::<Seq<char>>::empty());
    }
    validate_input(input)?;
    let resolved = resolve_input(input, &mut warnings)?;
    let output = match input.payment_type {
        SscmfiPaymentType::Periodic => calculate_periodic(input, &resolved, &mut warnings),
        SscmfiPaymentType::Discount => calculate_discount(input, &resolved, &mut warnings),
        SscmfiPaymentType::IAM => calculate_iam(input, &resolved, &mut warnings),
        SscmfiPaymentType::Stepped => calculate_stepped(input, &resolved, &mut warnings),
        SscmfiPaymentType::Multistep => calculate_multistep(input, &resolved, &mut warnings),
        SscmfiPaymentType::PIK => calculate_pik(input, &resolved, &mut warnings),
        SscmfiPaymentType::PartPIK => calculate_partpik(input, &resolved, &mut warnings),
    };
    let result = match output {
        Ok(o) => o,
        Err(e) => {
            return Err(e);
        },
    };
    Ok(
        ComputationOutput {
            methodology: String::from_str("SSCMFI Bond Math (native Rust, 128-bit decimal)"),
            warnings,
            result,
        },
    )
}

// ---------------------------------------------------------------------------
// Properties
// ---------------------------------------------------------------------------

proof fn lemma_calls_scan_worst(settle: Seq<char>, freq: Dec, coupon: Dec, clean: Dec, calls: Seq<CallRedemption>, j: nat, st: CallScan, ytm: Dec)
    requires
        calls_scan(settle, freq, coupon, clean, calls, j, st) is Some,
        !ytm.lt_spec(st.worst_yield),
    ensures
        !ytm.lt_spec(calls_scan(settle, freq, coupon, clean, calls, j, st)->Some_0.worst_yield),
    decreases calls.len() - j,
{
    if j < calls.len() {
        let s2 = call_step(settle, freq, coupon, clean, calls[j as int], st)->Some_0;
        if ytm.lt_spec(s2.worst_yield) && s2.worst_yield != st.worst_yield {
            Dec::lemma_lt_trans(ytm, s2.worst_yield, st.worst_yield);
        }
        lemma_calls_scan_worst(settle, freq, coupon, clean, calls, j + 1, s2, ytm);
    }
}

/// Yield to worst never exceeds the yield to maturity: for a periodic bond the reported
/// yield is the lowest of the yield to maturity and the yields to call, so when a call
/// schedule is given the reported yield is that worst yield and is not above the yield to
/// maturity.
pub proof fn lemma_worst_yield_not_above_maturity(i: SscmfiBondInput)
    requires
        sscmfi_spec(i) is Ok,
        i.payment_type == SscmfiPaymentType::Periodic,
    ensures
        ({
            let (rv, f) = sscmfi_spec(i)->Ok_0;
            let w0 = resolve_spec(i)->Ok_0.1;
            let ytm = periodic_price_yield(i, rv, periodic_coupon(rv)->Some_0, w0)->Ok_0.1;
            &&& f.redemption.3 is None ==> f.yield_value == ytm
            &&& f.redemption.3 matches Some(w) ==> f.yield_value == w && !ytm.lt_spec(w)
        }),
{
    let (rv, w0) = resolve_spec(i)->Ok_0;
    let pc = periodic_coupon(rv)->Some_0;
    let py = periodic_price_yield(i, rv, pc, w0)->Ok_0;
    let f = periodic_spec(i, rv, w0)->Ok_0;
    if f.redemption.3 is Some {
        let cs = i.call_schedule->Some_0@;
        let st0 = CallScan {
            worst_yield: py.1,
            worst_date: i.maturity_date@,
            worst_price: rv.redemption,
            worst_type: "Maturity"@,
            warnings: py.2,
        };
        lemma_calls_scan_worst(rv.settlement_date, rv.freq_dec, pc, py.0, cs, 0, st0, py.1);
    }
}

/// The trading (dirty) price is the clean price plus accrued interest for every payment
/// type that accrues interest (all but zero-coupon and paid-in-kind bonds, whose trading
/// price is the clean price and whose accrued interest is zero).
pub proof fn lemma_trading_price(i: SscmfiBondInput)
    requires
        sscmfi_spec(i) is Ok,
    ensures
        ({
            let f = sscmfi_spec(i)->Ok_0.1;
            if i.payment_type == SscmfiPaymentType::Discount || i.payment_type == SscmfiPaymentType::PIK {
                f.trading == f.price && f.accrued == dzero()
            } else {
                f.price.add_spec(f.accrued) == Some(f.trading)
            }
        }),
{
}

} // verus!
