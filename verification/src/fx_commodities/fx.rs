//! FX forwards under covered interest rate parity, and cross rates derived from two
//! currency pairs that share a currency.
use vstd::prelude::*;

use crate::dec::{dzero, group_dec, lift, odiv, omul, osub, Dec};
use crate::error::{err_view, invalid_input, overflow, ErrView, FinError, FinResult};
use crate::fx_commodities::commodities::{exponent_count, mul_times, whole_exponent};
use crate::fx_commodities::decimal_math::{exp_decimal, exp_spec, ln_decimal, ln_spec};
use crate::types::ComputationOutput;

verus! {

broadcast use group_dec;

/// Type of FX forward: deliverable or non-deliverable (NDF).
#[derive(Debug, Clone, Copy, PartialEq, Eq, Structural)]
pub enum FxForwardType {
    /// Physical exchange at maturity.
    Deliverable,
    /// Cash settlement against a fixing rate.
    NonDeliverable,
}

pub struct FxForwardInput {
    /// Spot rate (domestic per foreign).
    pub spot_rate: Dec,
    pub domestic_rate: Dec,
    pub foreign_rate: Dec,
    /// Time to delivery in years.
    pub time_to_expiry: Dec,
    /// Notional in foreign currency.
    pub notional_foreign: Dec,
    pub forward_type: FxForwardType,
}

pub struct FxForwardOutput {
    /// S * ((1 + r_d) / (1 + r_f))^T
    pub forward_rate: Dec,
    /// F - S
    pub forward_points: Dec,
    /// (F - S) * 10000
    pub forward_points_pips: Dec,
    /// ((F - S) / S) / T
    pub forward_premium_discount: Dec,
    /// notional * F
    pub notional_domestic: Dec,
    /// Zero at inception.
    pub present_value: Dec,
    /// ln(F / S) / T
    pub implied_rate_differential: Dec,
    /// |F / S - ((1 + r_d) / (1 + r_f))^T| < 0.0001
    pub covered_interest_parity_check: bool,
}

pub struct CrossRateInput {
    pub rate1: Dec,
    /// First pair, e.g. "USD/EUR".
    pub rate1_pair: String,
    pub rate2: Dec,
    pub rate2_pair: String,
    /// Target pair, e.g. "EUR/JPY".
    pub target_pair: String,
}

pub struct CrossRateOutput {
    pub cross_rate: Dec,
    /// Not computed from spot rates alone.
    pub bid_ask_spread: Option<Dec>,
    /// How the cross rate was derived.
    pub derivation: String,
}

// ---------------------------------------------------------------------------
// Specification: forwards
// ---------------------------------------------------------------------------

/// base^e: repeated multiplication for a non-negative whole exponent (whatever its number
/// of decimal places; one for zero), exp(e * ln base) otherwise.
pub open spec fn compound_spec(base: Dec, e: Dec) -> Option<Dec> {
    if whole_exponent(e) {
        mul_times(Dec::lit(1, 0), base, exponent_count(e))
    } else {
        match ln_spec(base) {
            Some(l) => match e.mul_spec(l) {
                Some(p) => exp_spec(p),
                None => None,
            },
            None => None,
        }
    }
}

/// The figures of an FX forward: forward rate, points, pips, annualised premium,
/// domestic notional, implied rate differential, the parity check and the compounding
/// factor.
pub struct FxFigures {
    pub forward_rate: Dec,
    pub points: Dec,
    pub pips: Dec,
    pub premium: Dec,
    pub notional_domestic: Dec,
    pub implied_differential: Dec,
    pub parity_holds: bool,
}

pub open spec fn fx_figures(i: FxForwardInput) -> Result<FxFigures, ErrView> {
    let one = Dec::lit(1, 0);
    if i.spot_rate.le_spec(dzero()) {
        Err(invalid_input("spot_rate"@, "Spot rate must be positive"@))
    } else if i.time_to_expiry.le_spec(dzero()) {
        Err(invalid_input("time_to_expiry"@, "Time to expiry must be positive"@))
    } else {
        match one.add_spec(i.foreign_rate) {
            None => Err(overflow()),
            Some(rf1) => if rf1.le_spec(dzero()) {
                Err(invalid_input("foreign_rate"@, "(1 + foreign_rate) must be positive for compound interest"@))
            } else {
                match one.add_spec(i.domestic_rate) {
                    None => Err(overflow()),
                    Some(rd1) => if rd1.le_spec(dzero()) {
                        Err(invalid_input("domestic_rate"@, "(1 + domestic_rate) must be positive for compound interest"@))
                    } else {
                        let s = i.spot_rate;
                        let t = i.time_to_expiry;
                        let power = match rd1.div_spec(rf1) {
                            Some(ratio) => compound_spec(ratio, t),
                            None => None,
                        };
                        let f = omul(Some(s), power);
                        let points = osub(f, Some(s));
                        let pips = omul(points, Some(Dec::lit(10000, 0)));
                        let premium = odiv(odiv(points, Some(s)), Some(t));
                        let notional = omul(Some(i.notional_foreign), f);
                        let fs = odiv(f, Some(s));
                        let ird = if t.gt_spec(dzero()) {
                            match fs {
                                Some(q) => odiv(ln_spec(q), Some(t)),
                                None => None,
                            }
                        } else {
                            Some(dzero())
                        };
                        let diff = osub(fs, power);
                        if power is Some && f is Some && points is Some && pips is Some && premium is Some
                            && notional is Some && fs is Some && ird is Some && diff is Some {
                            Ok(
                                FxFigures {
                                    forward_rate: f.unwrap(),
                                    points: points.unwrap(),
                                    pips: pips.unwrap(),
                                    premium: premium.unwrap(),
                                    notional_domestic: notional.unwrap(),
                                    implied_differential: ird.unwrap(),
                                    parity_holds: diff.unwrap().abs_spec().lt_spec(Dec::lit(1, 4)),
                                },
                            )
                        } else {
                            Err(overflow())
                        }
                    },
                }
            },
        }
    }
}

pub open spec fn fx_warnings(i: FxForwardInput, premium: Dec) -> Option<Seq<Seq<char>>> {
    match osub(Some(i.domestic_rate), Some(i.foreign_rate)) {
        None => None,
        Some(d) => match d.abs_spec().mul_spec(Dec::lit(10000, 0)) {
            None => None,
            Some(bps) => Some(
                (if premium.abs_spec().gt_spec(Dec::lit(10, 2)) {
                    seq![
                        "Annualised forward premium/discount of "@ + premium.display_prec_spec(4)
                            + " exceeds 10%"@,
                    ]
                } else {
                    seq![]
                }) + (if bps.gt_spec(Dec::lit(500, 0)) {
                    seq!["Rate differential of "@ + bps.display_prec_spec(0) + " bps exceeds 500 bps"@]
                } else {
                    seq![]
                }),
            ),
        },
    }
}

// ---------------------------------------------------------------------------
// Specification: cross rates
// ---------------------------------------------------------------------------

/// X per 1 Y from the pair base/quote = rate: the rate, its inverse, or nothing when the
/// pair does not link X and Y (the outer `None` on overflow).
pub open spec fn rate_from_pair(x: Seq<char>, y: Seq<char>, base: Seq<char>, quote: Seq<char>, rate: Dec) -> Option<Option<Dec>> {
    if x == base && y == quote {
        Some(Some(rate))
    } else if x == quote && y == base {
        match Dec::lit(1, 0).div_spec(rate) {
            Some(v) => Some(Some(v)),
            None => None,
        }
    } else {
        Some(None)
    }
}

/// The currencies of a derivation: the two pairs and the target.
pub struct Currencies {
    pub b1: Seq<char>,
    pub q1: Seq<char>,
    pub b2: Seq<char>,
    pub q2: Seq<char>,
    pub tb: Seq<char>,
    pub tq: Seq<char>,
}

pub open spec fn direct_message(tb: Seq<char>, tq: Seq<char>, b: Seq<char>, q: Seq<char>, r: Dec) -> Seq<char> {
    tb + "/"@ + tq + " obtained directly from "@ + b + "/"@ + q + " = "@ + r.display_spec()
}

pub open spec fn chain_message(
    k: Currencies,
    c: Seq<char>,
    pb: Seq<char>,
    pq: Seq<char>,
    x: Dec,
    ob: Seq<char>,
    oq: Seq<char>,
    y: Dec,
    cross: Dec,
) -> Seq<char> {
    k.tb + "/"@ + k.tq + " = ("@ + k.tb + "/"@ + c + ") * ("@ + c + "/"@ + k.tq + ") = ("@ + pb + "/"@
        + pq + " derived "@ + x.display_spec() + ") * ("@ + ob + "/"@ + oq + " derived "@
        + y.display_spec() + ") = "@ + cross.display_spec()
}

pub open spec fn no_path_message(k: Currencies) -> Seq<char> {
    "Cannot derive "@ + k.tb + "/"@ + k.tq + " from "@ + k.b1 + "/"@ + k.q1 + " and "@ + k.b2 + "/"@
        + k.q2 + ": no common currency path found"@
}

/// Chaining through `c`: TB per C from the pair (pb, pq, pr) times C per TQ from the pair
/// (ob, oq, or); `Ok(None)` when either link is missing.
pub open spec fn chain(k: Currencies, c: Seq<char>, pb: Seq<char>, pq: Seq<char>, pr: Dec, ob: Seq<char>, oq: Seq<char>, or: Dec) -> Result<Option<(Dec, Seq<char>)>, ErrView> {
    match (rate_from_pair(k.tb, c, pb, pq, pr), rate_from_pair(c, k.tq, ob, oq, or)) {
        (Some(a), Some(b)) => match (a, b) {
            (Some(x), Some(y)) => match x.mul_spec(y) {
                Some(cross) => Ok(Some((cross, chain_message(k, c, pb, pq, x, ob, oq, y, cross)))),
                None => Err(overflow()),
            },
            _ => Ok(None),
        },
        _ => Err(overflow()),
    }
}

/// The search through the intermediary currencies from index `j` (of b1, q1, b2, q2).
pub open spec fn search(k: Currencies, r1: Dec, r2: Dec, j: nat) -> Result<(Dec, Seq<char>), ErrView>
    decreases 4 - j,
{
    if j >= 4 {
        Err(invalid_input("target_pair"@, no_path_message(k)))
    } else {
        let c = seq![k.b1, k.q1, k.b2, k.q2][j as int];
        match chain(k, c, k.b1, k.q1, r1, k.b2, k.q2, r2) {
            Err(e) => Err(e),
            Ok(Some(v)) => Ok(v),
            Ok(None) => match chain(k, c, k.b2, k.q2, r2, k.b1, k.q1, r1) {
                Err(e) => Err(e),
                Ok(Some(v)) => Ok(v),
                Ok(None) => search(k, r1, r2, j + 1),
            },
        }
    }
}

/// The cross rate TB/TQ and its derivation: directly from one pair, or chained through a
/// currency common to both.
pub open spec fn derive_spec(k: Currencies, r1: Dec, r2: Dec) -> Result<(Dec, Seq<char>), ErrView> {
    match rate_from_pair(k.tb, k.tq, k.b1, k.q1, r1) {
        None => Err(overflow()),
        Some(Some(r)) => Ok((r, direct_message(k.tb, k.tq, k.b1, k.q1, r1))),
        Some(None) => match rate_from_pair(k.tb, k.tq, k.b2, k.q2, r2) {
            None => Err(overflow()),
            Some(Some(r)) => Ok((r, direct_message(k.tb, k.tq, k.b2, k.q2, r2))),
            Some(None) => search(k, r1, r2, 0),
        },
    }
}

pub open spec fn currencies(i: CrossRateInput) -> Currencies {
    let k1 = first_slash(i.rate1_pair@) as int;
    let k2 = first_slash(i.rate2_pair@) as int;
    let kt = first_slash(i.target_pair@) as int;
    Currencies {
        b1: pair_part(i.rate1_pair@.take(k1)),
        q1: pair_part(i.rate1_pair@.skip(k1 + 1)),
        b2: pair_part(i.rate2_pair@.take(k2)),
        q2: pair_part(i.rate2_pair@.skip(k2 + 1)),
        tb: pair_part(i.target_pair@.take(kt)),
        tq: pair_part(i.target_pair@.skip(kt + 1)),
    }
}

pub open spec fn cross_spec(i: CrossRateInput) -> Result<(Dec, Seq<char>), ErrView> {
    if i.rate1.le_spec(dzero()) {
        Err(invalid_input("rate1"@, "Exchange rate must be positive"@))
    } else if i.rate2.le_spec(dzero()) {
        Err(invalid_input("rate2"@, "Exchange rate must be positive"@))
    } else if slash_count(i.rate1_pair@) != 1 {
        Err(invalid_input("currency_pair"@, pair_format_message(i.rate1_pair@)))
    } else if slash_count(i.rate2_pair@) != 1 {
        Err(invalid_input("currency_pair"@, pair_format_message(i.rate2_pair@)))
    } else if slash_count(i.target_pair@) != 1 {
        Err(invalid_input("currency_pair"@, pair_format_message(i.target_pair@)))
    } else {
        derive_spec(currencies(i), i.rate1, i.rate2)
    }
}

// ---------------------------------------------------------------------------
// Currency pairs
// ---------------------------------------------------------------------------

/// White space as `char::is_whitespace` reads it: the Unicode `White_Space` property.
pub open spec fn is_white_space(c: char) -> bool {
    ||| '\u{9}' <= c <= '\u{D}'
    ||| c == ' '
    ||| c == '\u{85}'
    ||| c == '\u{A0}'
    ||| c == '\u{1680}'
    ||| '\u{2000}' <= c <= '\u{200A}'
    ||| c == '\u{2028}'
    ||| c == '\u{2029}'
    ||| c == '\u{202F}'
    ||| c == '\u{205F}'
    ||| c == '\u{3000}'
}

/// The text without its leading white space.
pub open spec fn trim_start_spec(s: Seq<char>) -> Seq<char>
    decreases s.len(),
{
    if s.len() > 0 && is_white_space(s[0]) {
        trim_start_spec(s.drop_first())
    } else {
        s
    }
}

/// The text without its trailing white space.
pub open spec fn trim_end_spec(s: Seq<char>) -> Seq<char>
    decreases s.len(),
{
    if s.len() > 0 && is_white_space(s.last()) {
        trim_end_spec(s.drop_last())
    } else {
        s
    }
}

/// The text without leading and trailing white space, as `str::trim` gives it back.
pub open spec fn trim_spec(s: Seq<char>) -> Seq<char> {
    trim_end_spec(trim_start_spec(s))
}

/// What `str::to_uppercase` gives back.
pub uninterp spec fn std_to_uppercase(s: Seq<char>) -> Seq<char>;

/// `str::trim` on `s`: the text with the leading and trailing characters that
/// `char::is_whitespace` accepts removed.
#[verifier::external_body]
fn str_trim(s: &str) -> (r: &str)
    ensures
        r@ == trim_spec(s@),
{
    s.trim()
}

/// `str::to_uppercase` on `s`.
#[verifier::external_body]
fn str_to_uppercase(s: &str) -> (r: String)
    ensures
        r@ == std_to_uppercase(s@),
{
    s.to_uppercase()
}

/// Number of '/' in the text.
pub open spec fn slash_count(s: Seq<char>) -> nat
    decreases s.len(),
{
    if s.len() == 0 {
        0
    } else {
        slash_count(s.drop_last()) + if s.last() == '/' {
            1nat
        } else {
            0nat
        }
    }
}

/// Position of the first '/' (the length when there is none).
pub open spec fn first_slash(s: Seq<char>) -> nat
    decreases s.len(),
{
    if s.len() == 0 {
        0
    } else if s[0] == '/' {
        0
    } else {
        1 + first_slash(s.drop_first())
    }
}

/// A part of a pair as it is compared: trimmed and upper-cased.
pub open spec fn pair_part(s: Seq<char>) -> Seq<char> {
    std_to_uppercase(trim_spec(s))
}

/// The message for a pair that is not of the form `CCY1/CCY2`.
pub open spec fn pair_format_message(pair: Seq<char>) -> Seq<char> {
    "Expected format 'CCY1/CCY2', got '"@ + pair + "'"@
}

proof fn lemma_slash_step(s: Seq<char>, j: int)
    requires
        0 <= j < s.len(),
    ensures
        slash_count(s.take(j + 1)) == slash_count(s.take(j)) + if s[j] == '/' {
            1nat
        } else {
            0nat
        },
{
    assert(s.take(j + 1).drop_last() =~= s.take(j));
}

/// Without a '/' among the first `k` characters, the first one lies at `k` or later.
proof fn lemma_first_slash(s: Seq<char>, k: int)
    requires
        0 <= k <= s.len(),
        forall|q: int| 0 <= q < k ==> s[q] != '/',
    ensures
        first_slash(s) >= k,
        k < s.len() && s[k] == '/' ==> first_slash(s) == k,
        first_slash(s) <= s.len(),
    decreases k,
{
    if s.len() > 0 && k > 0 {
        assert forall|q: int| 0 <= q < k - 1 implies s.drop_first()[q] != '/' by {
            assert(s.drop_first()[q] == s[q + 1]);
        }
        lemma_first_slash(s.drop_first(), k - 1);
    } else {
        lemma_first_slash_le(s);
    }
}

proof fn lemma_first_slash_le(s: Seq<char>)
    ensures
        first_slash(s) <= s.len(),
        first_slash(s) < s.len() ==> s[first_slash(s) as int] == '/',
    decreases s.len(),
{
    if s.len() > 0 && s[0] != '/' {
        lemma_first_slash_le(s.drop_first());
    }
}

/// Split a currency pair such as "USD/EUR" into its two currencies, each trimmed and
/// upper-cased. A pair without exactly one '/' is refused.
pub fn parse_pair(pair: &str) -> (r: FinResult<(String, String)>)
    ensures
        r is Ok <==> slash_count(pair@) == 1,
        r matches Err(e) ==> err_view(e) == invalid_input(
            "currency_pair"@,
            pair_format_message(pair@),
        ),
        r matches Ok(p) ==> {
            let k = first_slash(pair@) as int;
            &&& p.0@ == pair_part(pair@.take(k))
            &&& p.1@ == pair_part(pair@.skip(k + 1))
        },
{
    let n = pair.unicode_len();
    let mut count: usize = 0;
    let mut first: usize = n;
    let mut j: usize = 0;
    while j < n
        invariant
            j <= n,
            n == pair@.len(),
            count == slash_count(pair@.take(j as int)),
            count <= j,
            first <= n,
            first == n ==> forall|q: int| 0 <= q < j ==> pair@[q] != '/',
            first < n ==> first < j && pair@[first as int] == '/' && forall|q: int|
                0 <= q < first ==> pair@[q] != '/',
        decreases n - j,
    {
        let c = pair.get_char(j);
        proof {
            lemma_slash_step(pair@, j as int);
        }
        if c == '/' {
            count = count + 1;
            if first == n {
                first = j;
            }
        }
        j = j + 1;
    }
    proof {
        assert(pair@.take(n as int) =~= pair@);
    }
    if count != 1 {
        let reason = String::from_str("Expected format 'CCY1/CCY2', got '").concat(pair).concat("'");
        proof {
            assert(reason@ =~= pair_format_message(pair@));
        }
        return Err(
            FinError::InvalidInput { field: String::from_str("currency_pair"), reason },
        );
    }
    proof {
        assert(count == slash_count(pair@));
        if first == n {
            lemma_no_slash(pair@);
            assert(false);
        }
        assert(first < n);
        lemma_first_slash(pair@, first as int);
    }
    let base = pair.substring_char(0, first);
    let quote = pair.substring_char(first + 1, n);
    let b = str_to_uppercase(str_trim(base));
    let q = str_to_uppercase(str_trim(quote));
    proof {
        assert(pair@.subrange(0, first as int) =~= pair@.take(first as int));
        assert(pair@.subrange(first + 1, n as int) =~= pair@.skip(first + 1));
    }
    Ok((b, q))
}

// ---------------------------------------------------------------------------
// Implementation: forwards
// ---------------------------------------------------------------------------

fn str_of(s: &str) -> (r: String)
    ensures
        r@ == s@,
{
    String::from_str(s)
}

/// base^e: repeated multiplication for a non-negative whole exponent (read from its
/// text), exp(e * ln base) otherwise.
pub fn compound_power(base: Dec, exponent: Dec) -> (r: FinResult<Dec>)
    ensures
        r == lift(compound_spec(base, exponent)),
{
    let zero = Dec::zero();
    let t = exponent.trunc();
    let whole = exponent.eq(&t) && exponent.ge(&zero);
    if whole && t.mantissa() <= 0xFFFF_FFFF_FFFF_FFFF {
        proof {
            Dec::lemma_nonneg(exponent);
        }
        let n: u64 = t.mantissa() as u64;
        let mut result = Dec::one();
        let mut k: u64 = 0;
        while k < n
            invariant
                k <= n,
                compound_spec(base, exponent) == mul_times(Dec::lit(1, 0), base, n as nat),
                mul_times(Dec::lit(1, 0), base, n as nat) == mul_times(result, base, (n - k) as nat),
            decreases n - k,
        {
            result = result.mul(&base)?;
            k = k + 1;
        }
        Ok(result)
    } else {
        let l = ln_decimal(base)?;
        exp_decimal(exponent.mul(&l)?)
    }
}

fn invalid(field: &str, reason: &str) -> (e: FinError)
    ensures
        err_view(e) == invalid_input(field@, reason@),
{
    FinError::InvalidInput { field: str_of(field), reason: str_of(reason) }
}

fn fx_figures_exec(input: &FxForwardInput) -> (r: FinResult<FxFigures>)
    ensures
        r is Err <==> fx_figures(*input) is Err,
        r matches Err(e) ==> fx_figures(*input) == Err::<FxFigures, ErrView>(err_view(e)),
        r matches Ok(f) ==> fx_figures(*input) == Ok::<FxFigures, ErrView>(f),
{
    let zero = Dec::zero();
    let one = Dec::one();
    if input.spot_rate.le(&zero) {
        return Err(invalid("spot_rate", "Spot rate must be positive"));
    }
    if input.time_to_expiry.le(&zero) {
        return Err(invalid("time_to_expiry", "Time to expiry must be positive"));
    }
    let rf1 = one.add(&input.foreign_rate)?;
    if rf1.le(&zero) {
        return Err(invalid("foreign_rate", "(1 + foreign_rate) must be positive for compound interest"));
    }
    let rd1 = one.add(&input.domestic_rate)?;
    if rd1.le(&zero) {
        return Err(invalid("domestic_rate", "(1 + domestic_rate) must be positive for compound interest"));
    }
    let s = input.spot_rate;
    let t = input.time_to_expiry;
    let power = compound_power(rd1.div(&rf1)?, t)?;
    let f = s.mul(&power)?;
    let points = f.sub(&s)?;
    let pips = points.mul(&Dec::new(10000, 0))?;
    let premium = points.div(&s)?.div(&t)?;
    let notional = input.notional_foreign.mul(&f)?;
    let fs = f.div(&s)?;
    let ird = if t.gt(&zero) {
        ln_decimal(fs)?.div(&t)?
    } else {
        Dec::zero()
    };
    let diff = fs.sub(&power)?;
    Ok(
        FxFigures {
            forward_rate: f,
            points,
            pips,
            premium,
            notional_domestic: notional,
            implied_differential: ird,
            parity_holds: diff.abs().lt(&Dec::new(1, 4)),
        },
    )
}

/// Price an FX forward by compound interest rate parity F = S * ((1 + r_d) / (1 + r_f))^T,
/// with forward points, annualised premium, domestic notional, implied rate differential
/// and a check of covered interest parity.
pub fn price_fx_forward(input: &FxForwardInput) -> (r: FinResult<ComputationOutput<FxForwardOutput>>)
    ensures
        fx_figures(*input) is Err ==> (r matches Err(e) && fx_figures(*input) == Err::<FxFigures, ErrView>(err_view(e))),
        fx_figures(*input) is Ok ==> (r is Ok <==> fx_warnings(*input, fx_figures(*input)->Ok_0.premium) is Some),
        fx_figures(*input) is Ok && fx_warnings(*input, fx_figures(*input)->Ok_0.premium) is None ==> r == Err::<
            ComputationOutput<FxForwardOutput>,
            FinError,
        >(FinError::ArithmeticOverflow),
        r matches Ok(o) ==> {
            let f = fx_figures(*input)->Ok_0;
            &&& o.methodology@ == "FX Forward Pricing via Covered Interest Rate Parity (Compound)"@
            &&& Some(o.warnings@.map_values(|w: String| w@)) == fx_warnings(*input, f.premium)
            &&& o.result.forward_rate == f.forward_rate
            &&& o.result.forward_points == f.points
            &&& o.result.forward_points_pips == f.pips
            &&& o.result.forward_premium_discount == f.premium
            &&& o.result.notional_domestic == f.notional_domestic
            &&& o.result.present_value == dzero()
            &&& o.result.implied_rate_differential == f.implied_differential
            &&& o.result.covered_interest_parity_check == f.parity_holds
        },
{
    let f = fx_figures_exec(input)?;
    let mut warnings: Vec<String> = Vec::new();
    if f.premium.abs().gt(&Dec::new(10, 2)) {
        warnings.push(
            str_of("Annualised forward premium/discount of ").concat(f.premium.to_string_prec(4).as_str()).concat(
                " exceeds 10%",
            ),
        );
    }
    let bps = input.domestic_rate.sub(&input.foreign_rate)?.abs().mul(&Dec::new(10000, 0))?;
    if bps.gt(&Dec::new(500, 0)) {
        warnings.push(
            str_of("Rate differential of ").concat(bps.to_string_prec(0).as_str()).concat(" bps exceeds 500 bps"),
        );
    }
    proof {
        assert(warnings@.map_values(|w: String| w@) =~= fx_warnings(*input, f.premium).unwrap());
    }
    Ok(
        ComputationOutput {
            methodology: str_of("FX Forward Pricing via Covered Interest Rate Parity (Compound)"),
            warnings,
            result: FxForwardOutput {
                forward_rate: f.forward_rate,
                forward_points: f.points,
                forward_points_pips: f.pips,
                forward_premium_discount: f.premium,
                notional_domestic: f.notional_domestic,
                present_value: Dec::zero(),
                implied_rate_differential: f.implied_differential,
                covered_interest_parity_check: f.parity_holds,
            },
        },
    )
}

// ---------------------------------------------------------------------------
// Implementation: cross rates
// ---------------------------------------------------------------------------

fn rate_from_pair_exec(x: &String, y: &String, base: &String, quote: &String, rate: Dec) -> (r: FinResult<Option<Dec>>)
    ensures
        r is Err <==> rate_from_pair(x@, y@, base@, quote@, rate) is None,
        r is Err ==> r == Err::<Option<Dec>, FinError>(FinError::ArithmeticOverflow),
        r matches Ok(v) ==> rate_from_pair(x@, y@, base@, quote@, rate) == Some(v),
{
    if *x == *base && *y == *quote {
        Ok(Some(rate))
    } else if *x == *quote && *y == *base {
        Ok(Some(Dec::one().div(&rate)?))
    } else {
        Ok(None)
    }
}

/// The pairs and target of a derivation, as currency codes.
struct CurrencyCodes {
    b1: String,
    q1: String,
    b2: String,
    q2: String,
    tb: String,
    tq: String,
}

spec fn codes_view(k: CurrencyCodes) -> Currencies {
    Currencies { b1: k.b1@, q1: k.q1@, b2: k.b2@, q2: k.q2@, tb: k.tb@, tq: k.tq@ }
}

fn concat_all(parts: &Vec<String>) -> (r: String)
    ensures
        r@ == join(parts@.map_values(|p: String| p@)),
{
    let mut r = String::new();
    let mut j: usize = 0;
    while j < parts.len()
        invariant
            j <= parts@.len(),
            r@ == join(parts@.map_values(|p: String| p@).take(j as int)),
        decreases parts@.len() - j,
    {
        r = r.concat(parts[j].as_str());
        proof {
            let ps = parts@.map_values(|p: String| p@);
            assert(ps.take(j + 1).drop_last() =~= ps.take(j as int));
        }
        j = j + 1;
    }
    proof {
        let ps = parts@.map_values(|p: String| p@);
        assert(ps.take(ps.len() as int) =~= ps);
    }
    r
}

/// The texts one after another.
pub open spec fn join(ps: Seq<Seq<char>>) -> Seq<char>
    decreases ps.len(),
{
    if ps.len() == 0 {
        Seq::empty()
    } else {
        join(ps.drop_last()) + ps.last()
    }
}

fn chain_exec(k: &CurrencyCodes, c: &String, pb: &String, pq: &String, pr: Dec, ob: &String, oq: &String, or: Dec) -> (r: FinResult<Option<(Dec, String)>>)
    ensures
        r is Err <==> chain(codes_view(*k), c@, pb@, pq@, pr, ob@, oq@, or) is Err,
        r matches Err(e) ==> chain(codes_view(*k), c@, pb@, pq@, pr, ob@, oq@, or) == Err::<Option<(Dec, Seq<char>)>, ErrView>(err_view(e)),
        r matches Ok(v) ==> chain(codes_view(*k), c@, pb@, pq@, pr, ob@, oq@, or) == Ok::<Option<(Dec, Seq<char>)>, ErrView>(
            match v {
                Some(t) => Some((t.0, t.1@)),
                None => None,
            },
        ),
{
    let a = rate_from_pair_exec(&k.tb, c, pb, pq, pr);
    let b = rate_from_pair_exec(c, &k.tq, ob, oq, or);
    let (a, b) = match (a, b) {
        (Ok(a), Ok(b)) => (a, b),
        (Err(e), _) => {
            return Err(e);
        },
        (_, Err(e)) => {
            return Err(e);
        },
    };
    match (a, b) {
        (Some(x), Some(y)) => {
            let cross = x.mul(&y)?;
            let parts = vec![
                k.tb.clone(), str_of("/"), k.tq.clone(), str_of(" = ("), k.tb.clone(), str_of("/"), c.clone(),
                str_of(") * ("), c.clone(), str_of("/"), k.tq.clone(), str_of(") = ("), pb.clone(), str_of("/"),
                pq.clone(), str_of(" derived "), x.to_string(), str_of(") * ("), ob.clone(), str_of("/"),
                oq.clone(), str_of(" derived "), y.to_string(), str_of(") = "), cross.to_string(),
            ];
            let m = concat_all(&parts);
            proof {
                reveal_with_fuel(join, 26);
                assert(m@ =~= chain_message(codes_view(*k), c@, pb@, pq@, x, ob@, oq@, y, cross));
            }
            Ok(Some((cross, m)))
        },
        _ => Ok(None),
    }
}

proof fn lemma_search_step(k: Currencies, r1: Dec, r2: Dec, j: nat)
    requires
        j < 4,
    ensures
        search(k, r1, r2, j) == ({
            let c = seq![k.b1, k.q1, k.b2, k.q2][j as int];
            match chain(k, c, k.b1, k.q1, r1, k.b2, k.q2, r2) {
                Err(e) => Err(e),
                Ok(Some(v)) => Ok(v),
                Ok(None) => match chain(k, c, k.b2, k.q2, r2, k.b1, k.q1, r1) {
                    Err(e) => Err(e),
                    Ok(Some(v)) => Ok(v),
                    Ok(None) => search(k, r1, r2, j + 1),
                },
            }
        }),
{
}

fn derive_cross_rate(k: &CurrencyCodes, r1: Dec, r2: Dec) -> (r: FinResult<(Dec, String)>)
    ensures
        r is Err <==> derive_spec(codes_view(*k), r1, r2) is Err,
        r matches Err(e) ==> derive_spec(codes_view(*k), r1, r2) == Err::<(Dec, Seq<char>), ErrView>(err_view(e)),
        r matches Ok(v) ==> derive_spec(codes_view(*k), r1, r2) == Ok::<(Dec, Seq<char>), ErrView>((v.0, v.1@)),
{
    let ghost kv = codes_view(*k);
    match rate_from_pair_exec(&k.tb, &k.tq, &k.b1, &k.q1, r1)? {
        Some(r) => {
            let m = k.tb.clone().concat("/").concat(k.tq.as_str()).concat(" obtained directly from ").concat(
                k.b1.as_str(),
            ).concat("/").concat(k.q1.as_str()).concat(" = ").concat(r1.to_string().as_str());
            proof {
                assert(m@ =~= direct_message(kv.tb, kv.tq, kv.b1, kv.q1, r1));
            }
            return Ok((r, m));
        },
        None => {},
    }
    match rate_from_pair_exec(&k.tb, &k.tq, &k.b2, &k.q2, r2)? {
        Some(r) => {
            let m = k.tb.clone().concat("/").concat(k.tq.as_str()).concat(" obtained directly from ").concat(
                k.b2.as_str(),
            ).concat("/").concat(k.q2.as_str()).concat(" = ").concat(r2.to_string().as_str());
            proof {
                assert(m@ =~= direct_message(kv.tb, kv.tq, kv.b2, kv.q2, r2));
            }
            return Ok((r, m));
        },
        None => {},
    }
    let all = vec![k.b1.clone(), k.q1.clone(), k.b2.clone(), k.q2.clone()];
    let mut j: usize = 0;
    while j < 4
        invariant
            j <= 4,
            all@.len() == 4,
            kv == codes_view(*k),
            all@[0]@ == kv.b1 && all@[1]@ == kv.q1 && all@[2]@ == kv.b2 && all@[3]@ == kv.q2,
            derive_spec(kv, r1, r2) == search(kv, r1, r2, j as nat),
        decreases 4 - j,
    {
        let c = &all[j];
        proof {
            lemma_search_step(kv, r1, r2, j as nat);
            assert(seq![kv.b1, kv.q1, kv.b2, kv.q2][j as int] == c@);
        }
        match chain_exec(k, c, &k.b1, &k.q1, r1, &k.b2, &k.q2, r2)? {
            Some(v) => {
                return Ok(v);
            },
            None => {},
        }
        match chain_exec(k, c, &k.b2, &k.q2, r2, &k.b1, &k.q1, r1)? {
            Some(v) => {
                return Ok(v);
            },
            None => {},
        }
        j = j + 1;
    }
    let reason = str_of("Cannot derive ").concat(k.tb.as_str()).concat("/").concat(k.tq.as_str()).concat(
        " from ",
    ).concat(k.b1.as_str()).concat("/").concat(k.q1.as_str()).concat(" and ").concat(k.b2.as_str()).concat(
        "/",
    ).concat(k.q2.as_str()).concat(": no common currency path found");
    proof {
        assert(reason@ =~= no_path_message(kv));
    }
    Err(FinError::InvalidInput { field: str_of("target_pair"), reason })
}

/// A cross rate from two currency pairs that share a currency (or that quote the target
/// pair directly), with a description of the derivation.
pub fn calculate_cross_rate(input: &CrossRateInput) -> (r: FinResult<ComputationOutput<CrossRateOutput>>)
    ensures
        r is Err <==> cross_spec(*input) is Err,
        r matches Err(e) ==> cross_spec(*input) == Err::<(Dec, Seq<char>), ErrView>(err_view(e)),
        r matches Ok(o) ==> {
            let c = cross_spec(*input)->Ok_0;
            &&& o.methodology@ == "Cross Rate Derivation from Two Currency Pairs"@
            &&& o.warnings@.len() == 0
            &&& o.result.cross_rate == c.0
            &&& o.result.derivation@ == c.1
            &&& o.result.bid_ask_spread is None
        },
{
    let zero = Dec::zero();
    if input.rate1.le(&zero) {
        return Err(invalid("rate1", "Exchange rate must be positive"));
    }
    if input.rate2.le(&zero) {
        return Err(invalid("rate2", "Exchange rate must be positive"));
    }
    let (b1, q1) = parse_pair(input.rate1_pair.as_str())?;
    let (b2, q2) = parse_pair(input.rate2_pair.as_str())?;
    let (tb, tq) = parse_pair(input.target_pair.as_str())?;
    let k = CurrencyCodes { b1, q1, b2, q2, tb, tq };
    proof {
        assert(codes_view(k) == currencies(*input));
    }
    let (cross_rate, derivation) = derive_cross_rate(&k, input.rate1, input.rate2)?;
    Ok(
        ComputationOutput {
            methodology: str_of("Cross Rate Derivation from Two Currency Pairs"),
            warnings: Vec::new(),
            result: CrossRateOutput { cross_rate, bid_ask_spread: None, derivation },
        },
    )
}

proof fn lemma_no_slash(s: Seq<char>)
    requires
        forall|q: int| 0 <= q < s.len() ==> s[q] != '/',
    ensures
        slash_count(s) == 0,
    decreases s.len(),
{
    if s.len() > 0 {
        assert forall|q: int| 0 <= q < s.drop_last().len() implies s.drop_last()[q] != '/' by {
            assert(s.drop_last()[q] == s[q]);
        }
        lemma_no_slash(s.drop_last());
    }
}

} // verus!
