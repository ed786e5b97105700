//! Bankruptcy prediction scores: Altman Z (public), Z' (private), Z'' (non-manufacturing),
//! Springate S and Zmijewski X, with a composite risk level.
use vstd::prelude::*;

use crate::dec::{dzero, group_dec, lift, oadd, odiv, omul, osub, Dec};
use crate::error::{division_by_zero, err_view, invalid_input, overflow, ErrView, FinError, FinResult};

verus! {

broadcast use group_dec;

pub struct ZScoreModelsInput {
    pub working_capital: Dec,
    pub total_assets: Dec,
    pub retained_earnings: Dec,
    pub ebit: Dec,
    pub market_cap: Dec,
    pub book_equity: Dec,
    pub total_liabilities: Dec,
    pub revenue: Dec,
    pub net_income: Dec,
    pub total_debt: Dec,
    pub current_assets: Dec,
    pub current_liabilities: Dec,
    pub cash_flow_operations: Dec,
    pub is_public: bool,
    pub is_manufacturing: bool,
}

/// Result of one Altman model.
pub struct AltmanResult {
    pub z_score: Dec,
    /// "Safe", "Grey" or "Distress".
    pub zone: String,
    pub x1: Dec,
    pub x2: Dec,
    pub x3: Dec,
    pub x4: Dec,
    pub x5: Option<Dec>,
}

pub struct SpringateResult {
    pub s_score: Dec,
    /// s_score < 0.862
    pub bankrupt: bool,
    pub a: Dec,
    pub b: Dec,
    pub c: Dec,
    pub d: Dec,
}

pub struct ZmijewskiResult {
    pub x_score: Dec,
    /// 1 / (1 + exp(-x))
    pub probability: Dec,
    /// probability > 0.5
    pub bankrupt: bool,
}

pub struct ZScoreModelsOutput {
    pub altman_z: AltmanResult,
    pub altman_z_prime: AltmanResult,
    pub altman_z_double_prime: AltmanResult,
    pub springate_s: SpringateResult,
    pub zmijewski_x: ZmijewskiResult,
    /// "Low", "Moderate", "High" or "Critical".
    pub composite_risk: String,
}

// ---------------------------------------------------------------------------
// Specification
// ---------------------------------------------------------------------------

/// The Taylor sum of exp(x) from term `k`: `term *= x / k; sum += term`, for `k` up to
/// 50, stopping after a term below 1e-11 in magnitude.
pub open spec fn zexp_from(x: Dec, k: nat, term: Dec, sum: Dec) -> Option<Dec>
    decreases 51 - k,
{
    if k > 50 {
        Some(sum)
    } else {
        match omul(Some(term), x.div_spec(Dec::lit(k as int, 0))) {
            Some(t) => match sum.add_spec(t) {
                Some(s) => if t.abs_spec().lt_spec(Dec::lit(1, 11)) {
                    Some(s)
                } else {
                    zexp_from(x, k + 1, t, s)
                },
                None => None,
            },
            None => None,
        }
    }
}

/// exp(x) as computed by a Taylor series of at most 50 terms.
pub open spec fn zexp_spec(x: Dec) -> Option<Dec> {
    zexp_from(x, 1, Dec::lit(1, 0), Dec::lit(1, 0))
}

/// `c1 * a + c2 * b`, adding left to right.
pub open spec fn lin2(c1: Dec, a: Dec, c2: Dec, b: Dec) -> Option<Dec> {
    oadd(c1.mul_spec(a), c2.mul_spec(b))
}

/// `acc + c * a`.
pub open spec fn plus(acc: Option<Dec>, c: Dec, a: Dec) -> Option<Dec> {
    oadd(acc, c.mul_spec(a))
}

pub open spec fn zone_spec(z: Dec, safe_above: Dec, grey_from: Dec) -> Seq<char> {
    if z.gt_spec(safe_above) {
        "Safe"@
    } else if z.ge_spec(grey_from) {
        "Grey"@
    } else {
        "Distress"@
    }
}

/// WC/TA, RE/TA and EBIT/TA.
pub struct ZRatios {
    pub x1: Dec,
    pub x2: Dec,
    pub x3: Dec,
}

pub open spec fn ratios_spec(i: ZScoreModelsInput) -> Option<ZRatios> {
    let ta = i.total_assets;
    match (i.working_capital.div_spec(ta), i.retained_earnings.div_spec(ta), i.ebit.div_spec(ta)) {
        (Some(x1), Some(x2), Some(x3)) => Some(ZRatios { x1, x2, x3 }),
        _ => None,
    }
}

/// Every figure after the common ratios, up to the denominator of the Zmijewski
/// probability.
pub struct ZFigures {
    pub x4_public: Dec,
    pub x5: Dec,
    pub z: Dec,
    pub x4_private: Dec,
    pub z_prime: Dec,
    pub z_double_prime: Dec,
    pub s_c: Dec,
    pub s_score: Dec,
    pub x_score: Dec,
    /// 1 + exp(-x_score)
    pub denominator: Dec,
}

pub open spec fn figures_spec(i: ZScoreModelsInput, r: ZRatios) -> Option<ZFigures> {
    let ta = i.total_assets;
    let tl = i.total_liabilities;
    let x4p = i.market_cap.div_spec(tl);
    let x5 = i.revenue.div_spec(ta);
    let x4v = i.book_equity.div_spec(tl);
    if x4p is Some && x5 is Some && x4v is Some {
        let (x4p, x5, x4v) = (x4p.unwrap(), x5.unwrap(), x4v.unwrap());
        let z = oadd(
            plus(plus(lin2(Dec::lit(12, 1), r.x1, Dec::lit(14, 1), r.x2), Dec::lit(33, 1), r.x3), Dec::lit(6, 1), x4p),
            Some(x5),
        );
        let zp = plus(
            plus(plus(lin2(Dec::lit(717, 3), r.x1, Dec::lit(847, 3), r.x2), Dec::lit(3107, 3), r.x3), Dec::lit(420, 3), x4v),
            Dec::lit(998, 3),
            x5,
        );
        let zdp = plus(
            plus(lin2(Dec::lit(656, 2), r.x1, Dec::lit(326, 2), r.x2), Dec::lit(672, 2), r.x3),
            Dec::lit(105, 2),
            x4v,
        );
        let sc = if i.current_liabilities.eq_spec(dzero()) {
            Some(dzero())
        } else {
            i.ebit.div_spec(i.current_liabilities)
        };
        let ni_ta = i.net_income.div_spec(ta);
        let tl_ta = tl.div_spec(ta);
        let ca_cl = if i.current_liabilities.eq_spec(dzero()) {
            Some(Dec::lit(999, 0))
        } else {
            i.current_assets.div_spec(i.current_liabilities)
        };
        if z is Some && zp is Some && zdp is Some && sc is Some && ni_ta is Some && tl_ta is Some
            && ca_cl is Some {
            let ss = plus(
                plus(lin2(Dec::lit(103, 2), r.x1, Dec::lit(307, 2), r.x3), Dec::lit(66, 2), sc.unwrap()),
                Dec::lit(40, 2),
                x5,
            );
            let xs = plus(
                plus(
                    osub(Some(Dec::lit(-4336, 3)), Dec::lit(4513, 3).mul_spec(ni_ta.unwrap())),
                    Dec::lit(5679, 3),
                    tl_ta.unwrap(),
                ),
                Dec::lit(4, 3),
                ca_cl.unwrap(),
            );
            match (ss, xs) {
                (Some(ss), Some(xs)) => match zexp_spec(xs.neg_spec()) {
                    Some(e) => match Dec::lit(1, 0).add_spec(e) {
                        Some(den) => Some(
                            ZFigures {
                                x4_public: x4p,
                                x5,
                                z: z.unwrap(),
                                x4_private: x4v,
                                z_prime: zp.unwrap(),
                                z_double_prime: zdp.unwrap(),
                                s_c: sc.unwrap(),
                                s_score: ss,
                                x_score: xs,
                                denominator: den,
                            },
                        ),
                        None => None,
                    },
                    None => None,
                },
                _ => None,
            }
        } else {
            None
        }
    } else {
        None
    }
}

/// The error the models raise, if any, in the order the computation meets it.
pub open spec fn zscore_error(i: ZScoreModelsInput) -> Option<ErrView> {
    if i.total_assets.le_spec(dzero()) {
        Some(invalid_input("total_assets"@, "Must be positive."@))
    } else if i.total_liabilities.lt_spec(dzero()) {
        Some(invalid_input("total_liabilities"@, "Cannot be negative."@))
    } else if i.current_liabilities.lt_spec(dzero()) {
        Some(invalid_input("current_liabilities"@, "Cannot be negative."@))
    } else {
        match ratios_spec(i) {
            None => Some(overflow()),
            Some(r) => if i.total_liabilities.eq_spec(dzero()) {
                Some(division_by_zero("X4 MV/TL"@))
            } else {
                match figures_spec(i, r) {
                    None => Some(overflow()),
                    Some(f) => if f.denominator.eq_spec(dzero()) {
                        Some(division_by_zero("Zmijewski probability"@))
                    } else if Dec::lit(1, 0).div_spec(f.denominator) is None {
                        Some(overflow())
                    } else {
                        None
                    },
                }
            },
        }
    }
}

pub open spec fn distress_count(z: Dec, zp: Dec, zdp: Dec, ss: Dec, prob: Dec) -> nat {
    (if zone_spec(z, Dec::lit(299, 2), Dec::lit(181, 2)) == "Distress"@ { 1nat } else { 0nat })
        + (if zone_spec(zp, Dec::lit(290, 2), Dec::lit(123, 2)) == "Distress"@ { 1nat } else { 0nat })
        + (if zone_spec(zdp, Dec::lit(260, 2), Dec::lit(110, 2)) == "Distress"@ { 1nat } else { 0nat })
        + (if ss.lt_spec(Dec::lit(862, 3)) { 1nat } else { 0nat })
        + (if prob.gt_spec(Dec::lit(5, 1)) { 1nat } else { 0nat })
}

pub open spec fn composite_spec(n: nat) -> Seq<char> {
    if n == 0 {
        "Low"@
    } else if n == 1 {
        "Moderate"@
    } else if n <= 3 {
        "High"@
    } else {
        "Critical"@
    }
}

// ---------------------------------------------------------------------------
// Implementation
// ---------------------------------------------------------------------------

fn str_of(s: &str) -> (r: String)
    ensures
        r@ == s@,
{
    String::from_str(s)
}

/// exp(x) by a Taylor series of at most 50 terms, stopping after a term below 1e-11.
pub fn decimal_exp(x: Dec) -> (r: FinResult<Dec>)
    ensures
        r == lift(zexp_spec(x)),
{
    let tiny = Dec::new(1, 11);
    let mut term = Dec::one();
    let mut sum = Dec::one();
    let mut k: u32 = 1;
    while k <= 50
        invariant
            1 <= k <= 51,
            tiny == Dec::lit(1, 11),
            zexp_spec(x) == zexp_from(x, k as nat, term, sum),
        decreases 51 - k,
    {
        term = term.mul(&x.div(&Dec::from_u64(k as u64))?)?;
        sum = sum.add(&term)?;
        if term.abs().lt(&tiny) {
            return Ok(sum);
        }
        k = k + 1;
    }
    Ok(sum)
}

fn zone(z: Dec, safe_above: Dec, grey_from: Dec) -> (r: String)
    ensures
        r@ == zone_spec(z, safe_above, grey_from),
{
    if z.gt(&safe_above) {
        str_of("Safe")
    } else if z.ge(&grey_from) {
        str_of("Grey")
    } else {
        str_of("Distress")
    }
}

fn ratios_exec(i: &ZScoreModelsInput) -> (r: FinResult<ZRatios>)
    ensures
        r is Err <==> ratios_spec(*i) is None,
        r is Err ==> r == Err::<ZRatios, FinError>(FinError::ArithmeticOverflow),
        r matches Ok(v) ==> ratios_spec(*i) == Some(v),
{
    let ta = i.total_assets;
    let x1 = i.working_capital.div(&ta)?;
    let x2 = i.retained_earnings.div(&ta)?;
    let x3 = i.ebit.div(&ta)?;
    Ok(ZRatios { x1, x2, x3 })
}

fn c(m: i128, s: u32) -> (r: Dec)
    requires
        -10000 <= m <= 10000,
        s <= 3,
    ensures
        r == Dec::lit(m as int, s as nat),
{
    Dec::new(m, s)
}

fn figures_exec(i: &ZScoreModelsInput, r: &ZRatios) -> (res: FinResult<ZFigures>)
    ensures
        res is Err <==> figures_spec(*i, *r) is None,
        res is Err ==> res == Err::<ZFigures, FinError>(FinError::ArithmeticOverflow),
        res matches Ok(v) ==> figures_spec(*i, *r) == Some(v),
{
    let ta = i.total_assets;
    let tl = i.total_liabilities;
    let zero = Dec::zero();
    let x4p = i.market_cap.div(&tl)?;
    let x5 = i.revenue.div(&ta)?;
    let z = c(12, 1).mul(&r.x1)?.add(&c(14, 1).mul(&r.x2)?)?.add(&c(33, 1).mul(&r.x3)?)?.add(
        &c(6, 1).mul(&x4p)?,
    )?.add(&x5)?;
    let x4v = i.book_equity.div(&tl)?;
    let zp = c(717, 3).mul(&r.x1)?.add(&c(847, 3).mul(&r.x2)?)?.add(&c(3107, 3).mul(&r.x3)?)?.add(
        &c(420, 3).mul(&x4v)?,
    )?.add(&c(998, 3).mul(&x5)?)?;
    let zdp = c(656, 2).mul(&r.x1)?.add(&c(326, 2).mul(&r.x2)?)?.add(&c(672, 2).mul(&r.x3)?)?.add(
        &c(105, 2).mul(&x4v)?,
    )?;
    let sc = if i.current_liabilities.eq(&zero) {
        Dec::zero()
    } else {
        i.ebit.div(&i.current_liabilities)?
    };
    let ss = c(103, 2).mul(&r.x1)?.add(&c(307, 2).mul(&r.x3)?)?.add(&c(66, 2).mul(&sc)?)?.add(
        &c(40, 2).mul(&x5)?,
    )?;
    let ni_ta = i.net_income.div(&ta)?;
    let tl_ta = tl.div(&ta)?;
    let ca_cl = if i.current_liabilities.eq(&zero) {
        c(999, 0)
    } else {
        i.current_assets.div(&i.current_liabilities)?
    };
    let xs = c(-4336, 3).sub(&c(4513, 3).mul(&ni_ta)?)?.add(&c(5679, 3).mul(&tl_ta)?)?.add(
        &c(4, 3).mul(&ca_cl)?,
    )?;
    let e = decimal_exp(xs.neg())?;
    let den = Dec::one().add(&e)?;
    Ok(
        ZFigures {
            x4_public: x4p,
            x5,
            z,
            x4_private: x4v,
            z_prime: zp,
            z_double_prime: zdp,
            s_c: sc,
            s_score: ss,
            x_score: xs,
            denominator: den,
        },
    )
}

/// All five bankruptcy prediction models and the composite risk: the number of models
/// that signal distress (0 Low, 1 Moderate, 2-3 High, more Critical).
pub fn calculate_zscore_models(input: &ZScoreModelsInput) -> (r: FinResult<ZScoreModelsOutput>)
    ensures
        r is Err <==> zscore_error(*input) is Some,
        r matches Err(e) ==> Some(err_view(e)) == zscore_error(*input),
        r matches Ok(out) ==> {
            let rt = ratios_spec(*input).unwrap();
            let f = figures_spec(*input, rt).unwrap();
            let prob = Dec::lit(1, 0).div_spec(f.denominator).unwrap();
            &&& out.altman_z.z_score == f.z
            &&& out.altman_z.zone@ == zone_spec(f.z, Dec::lit(299, 2), Dec::lit(181, 2))
            &&& out.altman_z.x1 == rt.x1 && out.altman_z.x2 == rt.x2 && out.altman_z.x3 == rt.x3
            &&& out.altman_z.x4 == f.x4_public && out.altman_z.x5 == Some(f.x5)
            &&& out.altman_z_prime.z_score == f.z_prime
            &&& out.altman_z_prime.zone@ == zone_spec(f.z_prime, Dec::lit(290, 2), Dec::lit(123, 2))
            &&& out.altman_z_prime.x1 == rt.x1 && out.altman_z_prime.x2 == rt.x2
                && out.altman_z_prime.x3 == rt.x3
            &&& out.altman_z_prime.x4 == f.x4_private && out.altman_z_prime.x5 == Some(f.x5)
            &&& out.altman_z_double_prime.z_score == f.z_double_prime
            &&& out.altman_z_double_prime.zone@ == zone_spec(
                f.z_double_prime,
                Dec::lit(260, 2),
                Dec::lit(110, 2),
            )
            &&& out.altman_z_double_prime.x1 == rt.x1 && out.altman_z_double_prime.x2 == rt.x2
                && out.altman_z_double_prime.x3 == rt.x3
            &&& out.altman_z_double_prime.x4 == f.x4_private
            &&& out.altman_z_double_prime.x5 is None
            &&& out.springate_s.s_score == f.s_score
            &&& out.springate_s.bankrupt == f.s_score.lt_spec(Dec::lit(862, 3))
            &&& out.springate_s.a == rt.x1 && out.springate_s.b == rt.x3
            &&& out.springate_s.c == f.s_c && out.springate_s.d == f.x5
            &&& out.zmijewski_x.x_score == f.x_score
            &&& out.zmijewski_x.probability == prob
            &&& out.zmijewski_x.bankrupt == prob.gt_spec(Dec::lit(5, 1))
            &&& out.composite_risk@ == composite_spec(
                distress_count(f.z, f.z_prime, f.z_double_prime, f.s_score, prob),
            )
            &&& altman_consistent(*input, out.altman_z, out.altman_z_prime, out.altman_z_double_prime)
            &&& models_read_inputs(*input, out)
        },
{
    let zero = Dec::zero();
    if input.total_assets.le(&zero) {
        return Err(
            FinError::InvalidInput { field: str_of("total_assets"), reason: str_of("Must be positive.") },
        );
    }
    if input.total_liabilities.lt(&zero) {
        return Err(
            FinError::InvalidInput {
                field: str_of("total_liabilities"),
                reason: str_of("Cannot be negative."),
            },
        );
    }
    if input.current_liabilities.lt(&zero) {
        return Err(
            FinError::InvalidInput {
                field: str_of("current_liabilities"),
                reason: str_of("Cannot be negative."),
            },
        );
    }
    let rt = ratios_exec(input)?;
    if input.total_liabilities.eq(&zero) {
        return Err(FinError::DivisionByZero { context: str_of("X4 MV/TL") });
    }
    let f = figures_exec(input, &rt)?;
    if f.denominator.eq(&zero) {
        return Err(FinError::DivisionByZero { context: str_of("Zmijewski probability") });
    }
    let prob = Dec::one().div(&f.denominator)?;
    let zone_z = zone(f.z, c(299, 2), c(181, 2));
    let zone_zp = zone(f.z_prime, c(290, 2), c(123, 2));
    let zone_zdp = zone(f.z_double_prime, c(260, 2), c(110, 2));
    let s_bankrupt = f.s_score.lt(&c(862, 3));
    let x_bankrupt = prob.gt(&c(5, 1));
    let mut count: u32 = 0;
    if !f.z.gt(&c(299, 2)) && !f.z.ge(&c(181, 2)) {
        count = count + 1;
    }
    if !f.z_prime.gt(&c(290, 2)) && !f.z_prime.ge(&c(123, 2)) {
        count = count + 1;
    }
    if !f.z_double_prime.gt(&c(260, 2)) && !f.z_double_prime.ge(&c(110, 2)) {
        count = count + 1;
    }
    if s_bankrupt {
        count = count + 1;
    }
    if x_bankrupt {
        count = count + 1;
    }
    proof {
        reveal_strlit("Distress");
        reveal_strlit("Safe");
        reveal_strlit("Grey");
        assert("Safe"@.len() != "Distress"@.len());
        assert("Grey"@.len() != "Distress"@.len());
        assert(count == distress_count(f.z, f.z_prime, f.z_double_prime, f.s_score, prob));
        lemma_altman_components(*input);
        lemma_zone_reads(f.z, Dec::lit(299, 2), Dec::lit(181, 2));
        lemma_zone_reads(f.z_prime, Dec::lit(290, 2), Dec::lit(123, 2));
        lemma_zone_reads(f.z_double_prime, Dec::lit(260, 2), Dec::lit(110, 2));
    }
    let composite_risk = if count == 0 {
        str_of("Low")
    } else if count == 1 {
        str_of("Moderate")
    } else if count <= 3 {
        str_of("High")
    } else {
        str_of("Critical")
    };
    Ok(
        ZScoreModelsOutput {
            altman_z: AltmanResult {
                z_score: f.z,
                zone: zone_z,
                x1: rt.x1,
                x2: rt.x2,
                x3: rt.x3,
                x4: f.x4_public,
                x5: Some(f.x5),
            },
            altman_z_prime: AltmanResult {
                z_score: f.z_prime,
                zone: zone_zp,
                x1: rt.x1,
                x2: rt.x2,
                x3: rt.x3,
                x4: f.x4_private,
                x5: Some(f.x5),
            },
            altman_z_double_prime: AltmanResult {
                z_score: f.z_double_prime,
                zone: zone_zdp,
                x1: rt.x1,
                x2: rt.x2,
                x3: rt.x3,
                x4: f.x4_private,
                x5: None,
            },
            springate_s: SpringateResult {
                s_score: f.s_score,
                bankrupt: s_bankrupt,
                a: rt.x1,
                b: rt.x3,
                c: f.s_c,
                d: f.x5,
            },
            zmijewski_x: ZmijewskiResult { x_score: f.x_score, probability: prob, bankrupt: x_bankrupt },
            composite_risk,
        },
    )
}

/// Altman Z: 1.2 X1 + 1.4 X2 + 3.3 X3 + 0.6 X4 + X5, summed left to right.
pub open spec fn altman_z_of(x1: Dec, x2: Dec, x3: Dec, x4: Dec, x5: Dec) -> Option<Dec> {
    oadd(
        oadd(
            oadd(oadd(Dec::lit(12, 1).mul_spec(x1), Dec::lit(14, 1).mul_spec(x2)), Dec::lit(33, 1).mul_spec(x3)),
            Dec::lit(6, 1).mul_spec(x4),
        ),
        Some(x5),
    )
}

/// Altman Z': 0.717 X1 + 0.847 X2 + 3.107 X3 + 0.420 X4 + 0.998 X5, summed left to right.
pub open spec fn altman_z_prime_of(x1: Dec, x2: Dec, x3: Dec, x4: Dec, x5: Dec) -> Option<Dec> {
    oadd(
        oadd(
            oadd(
                oadd(Dec::lit(717, 3).mul_spec(x1), Dec::lit(847, 3).mul_spec(x2)),
                Dec::lit(3107, 3).mul_spec(x3),
            ),
            Dec::lit(420, 3).mul_spec(x4),
        ),
        Dec::lit(998, 3).mul_spec(x5),
    )
}

/// Altman Z'': 6.56 X1 + 3.26 X2 + 6.72 X3 + 1.05 X4, summed left to right.
pub open spec fn altman_z_double_prime_of(x1: Dec, x2: Dec, x3: Dec, x4: Dec) -> Option<Dec> {
    oadd(
        oadd(oadd(Dec::lit(656, 2).mul_spec(x1), Dec::lit(326, 2).mul_spec(x2)), Dec::lit(672, 2).mul_spec(x3)),
        Dec::lit(105, 2).mul_spec(x4),
    )
}

/// What the three Altman models report, read off their own components: X1 to X3 are
/// working capital, retained earnings and EBIT over total assets; X5 is revenue over total
/// assets; X4 is market capitalisation over total liabilities for Z and book equity over
/// total liabilities for Z' and Z''; each score is its weighted sum of those components.
pub open spec fn altman_consistent(i: ZScoreModelsInput, z: AltmanResult, zp: AltmanResult, zdp: AltmanResult) -> bool {
    let ta = i.total_assets;
    let tl = i.total_liabilities;
    &&& Some(z.x1) == i.working_capital.div_spec(ta)
    &&& Some(z.x2) == i.retained_earnings.div_spec(ta)
    &&& Some(z.x3) == i.ebit.div_spec(ta)
    &&& Some(z.x4) == i.market_cap.div_spec(tl)
    &&& z.x5 matches Some(x5) && Some(x5) == i.revenue.div_spec(ta)
    &&& Some(z.z_score) == altman_z_of(z.x1, z.x2, z.x3, z.x4, z.x5.unwrap())
    &&& zp.x1 == z.x1 && zp.x2 == z.x2 && zp.x3 == z.x3 && zp.x5 == z.x5
    &&& Some(zp.x4) == i.book_equity.div_spec(tl)
    &&& Some(zp.z_score) == altman_z_prime_of(zp.x1, zp.x2, zp.x3, zp.x4, zp.x5.unwrap())
    &&& zdp.x1 == z.x1 && zdp.x2 == z.x2 && zdp.x3 == z.x3 && zdp.x5 is None
    &&& Some(zdp.x4) == i.book_equity.div_spec(tl)
    &&& Some(zdp.z_score) == altman_z_double_prime_of(zdp.x1, zdp.x2, zdp.x3, zdp.x4)
}

/// The figures behind the three Altman scores: each score is the weighted sum of its
/// reported components, with X4 market value over liabilities for Z and book equity over
/// liabilities for Z' and Z''.
pub proof fn lemma_altman_components(i: ZScoreModelsInput)
    requires
        ratios_spec(i) is Some,
        figures_spec(i, ratios_spec(i).unwrap()) is Some,
    ensures
        ({
            let r = ratios_spec(i).unwrap();
            let f = figures_spec(i, r).unwrap();
            &&& Some(r.x1) == i.working_capital.div_spec(i.total_assets)
            &&& Some(r.x2) == i.retained_earnings.div_spec(i.total_assets)
            &&& Some(r.x3) == i.ebit.div_spec(i.total_assets)
            &&& Some(f.x4_public) == i.market_cap.div_spec(i.total_liabilities)
            &&& Some(f.x4_private) == i.book_equity.div_spec(i.total_liabilities)
            &&& Some(f.x5) == i.revenue.div_spec(i.total_assets)
            &&& Some(f.z) == altman_z_of(r.x1, r.x2, r.x3, f.x4_public, f.x5)
            &&& Some(f.z_prime) == altman_z_prime_of(r.x1, r.x2, r.x3, f.x4_private, f.x5)
            &&& Some(f.z_double_prime) == altman_z_double_prime_of(r.x1, r.x2, r.x3, f.x4_private)
        }),
{
}

/// Z' and Z'' are models for private firms: two inputs that differ only in market
/// capitalisation get the same Z' and Z'' scores.
pub proof fn lemma_private_scores_ignore_market_cap(i: ZScoreModelsInput, j: ZScoreModelsInput)
    requires
        j == (ZScoreModelsInput { market_cap: j.market_cap, ..i }),
        ratios_spec(i) is Some,
        figures_spec(i, ratios_spec(i).unwrap()) is Some,
        figures_spec(j, ratios_spec(j).unwrap()) is Some,
    ensures
        ratios_spec(j) == ratios_spec(i),
        figures_spec(j, ratios_spec(j).unwrap())->Some_0.z_prime == figures_spec(
            i,
            ratios_spec(i).unwrap(),
        )->Some_0.z_prime,
        figures_spec(j, ratios_spec(j).unwrap())->Some_0.z_double_prime == figures_spec(
            i,
            ratios_spec(i).unwrap(),
        )->Some_0.z_double_prime,
{
    lemma_altman_components(i);
    lemma_altman_components(j);
}

/// A zone label read off a score: "Safe" above the safe bound, "Distress" below the grey
/// bound, "Grey" from the grey bound up to the safe bound.
pub open spec fn zone_reads(z: Dec, safe_above: Dec, grey_from: Dec, zone: Seq<char>) -> bool {
    &&& zone == "Safe"@ || zone == "Grey"@ || zone == "Distress"@
    &&& zone == "Safe"@ <==> safe_above.lt_spec(z)
    &&& zone == "Distress"@ <==> z.lt_spec(grey_from) && !safe_above.lt_spec(z)
}

/// Springate S: 1.03 A + 3.07 B + 0.66 C + 0.40 D, summed left to right.
pub open spec fn springate_of(a: Dec, b: Dec, c: Dec, d: Dec) -> Option<Dec> {
    oadd(
        oadd(oadd(Dec::lit(103, 2).mul_spec(a), Dec::lit(307, 2).mul_spec(b)), Dec::lit(66, 2).mul_spec(c)),
        Dec::lit(40, 2).mul_spec(d),
    )
}

/// Zmijewski X: -4.336 - 4.513 NI/TA + 5.679 TL/TA + 0.004 CA/CL, summed left to right.
pub open spec fn zmijewski_of(ni_ta: Dec, tl_ta: Dec, ca_cl: Dec) -> Option<Dec> {
    oadd(
        oadd(osub(Some(Dec::lit(-4336, 3)), Dec::lit(4513, 3).mul_spec(ni_ta)), Dec::lit(5679, 3).mul_spec(tl_ta)),
        Dec::lit(4, 3).mul_spec(ca_cl),
    )
}

/// The other models and the composite, read off the inputs and the reported figures:
/// each Altman zone against its bounds (2.99 and 1.81 for Z, 2.90 and 1.23 for Z', 2.60
/// and 1.10 for Z''); Springate's A, B, C, D are WC/TA, EBIT/TA, EBIT/CL (zero without
/// current liabilities) and revenue/TA, its score their weighted sum, and it signals
/// bankruptcy below 0.862; Zmijewski's score is its weighted sum of NI/TA, TL/TA and CA/CL
/// (999 without current liabilities), its probability 1 / (1 + e^-X), and it signals
/// bankruptcy above 0.5; the composite counts the models in distress: none Low, one
/// Moderate, two or three High, more Critical.
pub open spec fn models_read_inputs(i: ZScoreModelsInput, o: ZScoreModelsOutput) -> bool {
    let ta = i.total_assets;
    let cl = i.current_liabilities;
    let s = o.springate_s;
    let x = o.zmijewski_x;
    let ca_cl = if cl.eq_spec(dzero()) {
        Some(Dec::lit(999, 0))
    } else {
        i.current_assets.div_spec(cl)
    };
    let n = (if o.altman_z.zone@ == "Distress"@ { 1nat } else { 0nat })
        + (if o.altman_z_prime.zone@ == "Distress"@ { 1nat } else { 0nat })
        + (if o.altman_z_double_prime.zone@ == "Distress"@ { 1nat } else { 0nat })
        + (if s.bankrupt { 1nat } else { 0nat }) + (if x.bankrupt { 1nat } else { 0nat });
    &&& zone_reads(o.altman_z.z_score, Dec::lit(299, 2), Dec::lit(181, 2), o.altman_z.zone@)
    &&& zone_reads(o.altman_z_prime.z_score, Dec::lit(290, 2), Dec::lit(123, 2), o.altman_z_prime.zone@)
    &&& zone_reads(
        o.altman_z_double_prime.z_score,
        Dec::lit(260, 2),
        Dec::lit(110, 2),
        o.altman_z_double_prime.zone@,
    )
    &&& Some(s.a) == i.working_capital.div_spec(ta)
    &&& Some(s.b) == i.ebit.div_spec(ta)
    &&& Some(s.c) == (if cl.eq_spec(dzero()) {
        Some(dzero())
    } else {
        i.ebit.div_spec(cl)
    })
    &&& Some(s.d) == i.revenue.div_spec(ta)
    &&& Some(s.s_score) == springate_of(s.a, s.b, s.c, s.d)
    &&& s.bankrupt == s.s_score.lt_spec(Dec::lit(862, 3))
    &&& i.net_income.div_spec(ta) is Some && i.total_liabilities.div_spec(ta) is Some && ca_cl is Some
    &&& Some(x.x_score) == zmijewski_of(
        i.net_income.div_spec(ta).unwrap(),
        i.total_liabilities.div_spec(ta).unwrap(),
        ca_cl.unwrap(),
    )
    &&& (match zexp_spec(x.x_score.neg_spec()) {
        Some(e) => match Dec::lit(1, 0).add_spec(e) {
            Some(den) => Some(x.probability) == Dec::lit(1, 0).div_spec(den),
            None => false,
        },
        None => false,
    })
    &&& x.bankrupt == x.probability.gt_spec(Dec::lit(5, 1))
    &&& o.composite_risk@ == if n == 0 {
        "Low"@
    } else if n == 1 {
        "Moderate"@
    } else if n <= 3 {
        "High"@
    } else {
        "Critical"@
    }
}

/// A zone label is "Safe" above the safe bound, "Distress" below the grey bound and
/// "Grey" between them.
pub proof fn lemma_zone_reads(z: Dec, safe_above: Dec, grey_from: Dec)
    ensures
        zone_reads(z, safe_above, grey_from, zone_spec(z, safe_above, grey_from)),
{
    reveal_strlit("Safe");
    reveal_strlit("Grey");
    reveal_strlit("Distress");
    assert("Safe"@ != "Grey"@) by {
        assert("Safe"@[0] != "Grey"@[0]);
    }
    assert("Safe"@.len() != "Distress"@.len() && "Grey"@.len() != "Distress"@.len());
    Dec::lemma_not_lt(z, grey_from);
}

} // verus!
