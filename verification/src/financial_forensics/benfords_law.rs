//! Benford's Law digit analysis: whether the leading digits of a set of financial figures
//! follow the frequencies Benford's Law predicts, judged by a chi-squared goodness-of-fit test.
use vstd::prelude::*;

use crate::dec::{dzero, group_dec, lift, oadd, odiv, omul, sum_opt, Dec};
use crate::error::{err_view, insufficient_data, invalid_input, overflow, ErrView, FinError, FinResult};

verus! {

broadcast use group_dec;

/// How many times the logarithm halves or doubles its argument at most to bring it into
/// [0.5, 2]; a `Decimal` needs fewer than a hundred.
pub const RANGE_STEPS: u32 = 256;

/// Input for Benford's Law analysis.
pub struct BenfordsLawInput {
    pub data_points: Vec<Dec>,
    /// "first_digit", "second_digit" or "first_two_digits".
    pub test_type: String,
    /// Significance level of the chi-squared test, strictly between 0 and 1.
    pub significance_level: Dec,
}

/// Observed and expected frequency of one digit (or pair of digits).
#[derive(Debug, Clone, Copy)]
pub struct DigitFrequency {
    pub digit: u32,
    pub observed_count: u32,
    pub observed_pct: Dec,
    pub expected_pct: Dec,
    /// observed_pct - expected_pct.
    pub deviation: Dec,
}

/// Result of a Benford's Law analysis.
pub struct BenfordsLawOutput {
    pub digit_frequencies: Vec<DigitFrequency>,
    pub chi_squared: Dec,
    pub degrees_of_freedom: u32,
    pub critical_value: Dec,
    /// The chi-squared statistic is below the critical value.
    pub conforms: bool,
    pub max_deviation_digit: u32,
    pub max_deviation: Dec,
    pub mean_absolute_deviation: Dec,
    /// Digits whose deviation exceeds two standard errors.
    pub suspect_digits: Vec<u32>,
}

/// Which digits a test looks at.
#[derive(Debug, Clone, Copy, PartialEq, Eq, Structural)]
pub enum DigitTest {
    FirstDigit,
    SecondDigit,
    FirstTwoDigits,
}

// ---------------------------------------------------------------------------
// Specification: logarithm and square root
// ---------------------------------------------------------------------------

/// ln 2 to sixteen places.
pub open spec fn ln2() -> Dec {
    Dec::lit(6931471805599453, 16)
}

/// ln 10 to fifteen places.
pub open spec fn ln10() -> Dec {
    Dec::lit(2302585092994046, 15)
}

/// Halve `val` while it exceeds 2 (at most `fuel` times), adding ln 2 to `adjust` each time.
pub open spec fn ln_halve(val: Dec, adjust: Dec, fuel: nat) -> Option<(Dec, Dec)>
    decreases fuel,
{
    if fuel == 0 || !val.gt_spec(Dec::lit(20, 1)) {
        Some((val, adjust))
    } else {
        match (val.div_spec(Dec::lit(2, 0)), adjust.add_spec(ln2())) {
            (Some(v), Some(a)) => ln_halve(v, a, (fuel - 1) as nat),
            _ => None,
        }
    }
}

/// Double `val` while it is below 0.5 (at most `fuel` times), taking ln 2 from `adjust`
/// each time.
pub open spec fn ln_double(val: Dec, adjust: Dec, fuel: nat) -> Option<(Dec, Dec)>
    decreases fuel,
{
    if fuel == 0 || !val.lt_spec(Dec::lit(5, 1)) {
        Some((val, adjust))
    } else {
        match (val.mul_spec(Dec::lit(2, 0)), adjust.sub_spec(ln2())) {
            (Some(v), Some(a)) => ln_double(v, a, (fuel - 1) as nat),
            _ => None,
        }
    }
}

/// Series terms `k` to 39: `term *= z^2; sum += term / (2k + 1)`.
pub open spec fn ln_series(z2: Dec, k: nat, term: Dec, sum: Dec) -> Option<Dec>
    decreases 40 - k,
{
    if k >= 40 {
        Some(sum)
    } else {
        match term.mul_spec(z2) {
            None => None,
            Some(t) => match oadd(Some(sum), t.div_spec(Dec::lit((2 * k + 1) as int, 0))) {
                None => None,
                Some(s) => ln_series(z2, k + 1, t, s),
            },
        }
    }
}

/// `2 * series + adjust`.
pub open spec fn ln_combine(series: Option<Dec>, adjust: Dec) -> Option<Dec> {
    match series {
        None => None,
        Some(s) => oadd(Dec::lit(2, 0).mul_spec(s), Some(adjust)),
    }
}

/// `2 * sum z^(2k+1) / (2k+1) + adjust`, with z = (val - 1) / (val + 1).
pub open spec fn ln_finish(val: Dec, adjust: Dec) -> Option<Dec> {
    match odiv(val.sub_spec(Dec::lit(1, 0)), val.add_spec(Dec::lit(1, 0))) {
        None => None,
        Some(z) => match z.mul_spec(z) {
            None => None,
            Some(z2) => ln_combine(ln_series(z2, 1, z, z), adjust),
        },
    }
}

pub open spec fn ln_after_double(d: Option<(Dec, Dec)>) -> Option<Dec> {
    match d {
        None => None,
        Some(d) => ln_finish(d.0, d.1),
    }
}

pub open spec fn ln_after_halve(h: Option<(Dec, Dec)>) -> Option<Dec> {
    match h {
        None => None,
        Some(h) => ln_after_double(ln_double(h.0, h.1, RANGE_STEPS as nat)),
    }
}

/// ln(x) after bringing x into [0.5, 2] by powers of two; zero for x <= 0.
pub open spec fn ln_spec(x: Dec) -> Option<Dec> {
    if x.le_spec(dzero()) {
        Some(dzero())
    } else {
        ln_after_halve(ln_halve(x, dzero(), RANGE_STEPS as nat))
    }
}

/// log10(x) = ln(x) / ln 10.
pub open spec fn log10_spec(x: Dec) -> Option<Dec> {
    odiv(ln_spec(x), Some(ln10()))
}

/// Newton steps `k` to 29 for the square root of `x`: `g = (g + x / g) / 2`.
pub open spec fn sqrt_steps(x: Dec, g: Dec, k: nat) -> Option<Dec>
    decreases 30 - k,
{
    if k >= 30 {
        Some(g)
    } else {
        match odiv(oadd(Some(g), x.div_spec(g)), Some(Dec::lit(2, 0))) {
            None => None,
            Some(ng) => sqrt_steps(x, ng, k + 1),
        }
    }
}

/// Square root by thirty Newton steps from x / 2 (from 1 when x <= 1); zero for x <= 0.
pub open spec fn sqrt_spec(x: Dec) -> Option<Dec> {
    if x.le_spec(dzero()) {
        Some(dzero())
    } else if x.gt_spec(Dec::lit(1, 0)) {
        match x.div_spec(Dec::lit(2, 0)) {
            None => None,
            Some(g) => sqrt_steps(x, g, 0),
        }
    } else {
        sqrt_steps(x, Dec::lit(1, 0), 0)
    }
}

// ---------------------------------------------------------------------------
// Logarithm and square root
// ---------------------------------------------------------------------------

/// Natural logarithm by the odd-power series in (v - 1) / (v + 1) after range reduction by
/// powers of two; zero for x <= 0.
pub fn decimal_ln(x: Dec) -> (r: FinResult<Dec>)
    ensures
        r == lift(ln_spec(x)),
{
    if x.le(&Dec::zero()) {
        return Ok(Dec::zero());
    }
    let l2 = Dec::new(6931471805599453, 16);
    let two = Dec::new(2, 0);
    let hi = Dec::new(20, 1);
    let lo = Dec::new(5, 1);
    let one = Dec::one();
    let mut val = x;
    let mut adjust = Dec::zero();
    let mut c: u32 = 0;
    while c < RANGE_STEPS && val.gt(&hi)
        invariant
            c <= RANGE_STEPS,
            two == Dec::lit(2, 0),
            hi == Dec::lit(20, 1),
            l2 == ln2(),
            ln_spec(x) == ln_after_halve(ln_halve(val, adjust, (RANGE_STEPS - c) as nat)),
        decreases RANGE_STEPS - c,
    {
        val = val.div(&two)?;
        adjust = adjust.add(&l2)?;
        c = c + 1;
    }
    let mut e: u32 = 0;
    while e < RANGE_STEPS && val.lt(&lo)
        invariant
            e <= RANGE_STEPS,
            two == Dec::lit(2, 0),
            lo == Dec::lit(5, 1),
            l2 == ln2(),
            ln_spec(x) == ln_after_double(ln_double(val, adjust, (RANGE_STEPS - e) as nat)),
        decreases RANGE_STEPS - e,
    {
        val = val.mul(&two)?;
        adjust = adjust.sub(&l2)?;
        e = e + 1;
    }
    let z = val.sub(&one)?.div(&val.add(&one)?)?;
    let z2 = z.mul(&z)?;
    let mut term = z;
    let mut sum = z;
    let mut k: u64 = 1;
    while k < 40
        invariant
            1 <= k <= 40,
            two == Dec::lit(2, 0),
            ln_spec(x) == ln_combine(ln_series(z2, k as nat, term, sum), adjust),
        decreases 40 - k,
    {
        term = term.mul(&z2)?;
        sum = sum.add(&term.div(&Dec::from_u64(2 * k + 1))?)?;
        k = k + 1;
    }
    two.mul(&sum)?.add(&adjust)
}

/// Base-10 logarithm: ln(x) / ln 10.
pub fn decimal_log10(x: Dec) -> (r: FinResult<Dec>)
    ensures
        r == lift(log10_spec(x)),
{
    decimal_ln(x)?.div(&Dec::new(2302585092994046, 15))
}

/// Square root by thirty Newton steps; zero for x <= 0.
pub fn decimal_sqrt(x: Dec) -> (r: FinResult<Dec>)
    ensures
        r == lift(sqrt_spec(x)),
{
    if x.le(&Dec::zero()) {
        return Ok(Dec::zero());
    }
    let two = Dec::new(2, 0);
    let mut g = if x.gt(&Dec::one()) {
        x.div(&two)?
    } else {
        Dec::one()
    };
    let mut k: u32 = 0;
    while k < 30
        invariant
            k <= 30,
            two == Dec::lit(2, 0),
            sqrt_spec(x) == sqrt_steps(x, g, k as nat),
        decreases 30 - k,
    {
        g = g.add(&x.div(&g)?)?.div(&two)?;
        k = k + 1;
    }
    Ok(g)
}

// ---------------------------------------------------------------------------
// Digits of a figure
// ---------------------------------------------------------------------------

/// An ASCII decimal digit.
pub open spec fn is_digit(c: char) -> bool {
    '0' <= c && c <= '9'
}

/// An ASCII decimal digit other than zero.
pub open spec fn is_nonzero_digit(c: char) -> bool {
    '1' <= c && c <= '9'
}

/// The value of an ASCII decimal digit.
pub open spec fn digit_value(c: char) -> u32 {
    (c as u32 - '0' as u32) as u32
}

/// The first non-zero digit of `s` at or after position `i`.
pub open spec fn first_nonzero_from(s: Seq<char>, i: nat) -> Option<u32>
    decreases s.len() - i,
{
    if i >= s.len() {
        None
    } else if is_nonzero_digit(s[i as int]) {
        Some(digit_value(s[i as int]))
    } else {
        first_nonzero_from(s, i + 1)
    }
}

/// The digit after the first non-zero digit of `s`, read from position `i` with `found`
/// telling whether that first digit lies before `i`; decimal points are skipped, and a text
/// that ends right after its first non-zero digit gives zero.
pub open spec fn digit_after_first_from(s: Seq<char>, i: nat, found: bool) -> Option<u32>
    decreases s.len() - i,
{
    if i >= s.len() {
        if found {
            Some(0)
        } else {
            None
        }
    } else if s[i as int] == '.' {
        digit_after_first_from(s, i + 1, found)
    } else if !found {
        digit_after_first_from(s, i + 1, is_nonzero_digit(s[i as int]))
    } else if is_digit(s[i as int]) {
        Some(digit_value(s[i as int]))
    } else {
        digit_after_first_from(s, i + 1, true)
    }
}

/// The first significant digit of a figure, read from the text of its absolute value; none
/// for zero.
pub open spec fn first_digit_spec(v: Dec) -> Option<u32> {
    if v.abs_spec().is_zero_spec() {
        None
    } else {
        first_nonzero_from(v.abs_spec().display_spec(), 0)
    }
}

/// The second significant digit of a figure, read from the text of its absolute value; none
/// for zero.
pub open spec fn second_digit_spec(v: Dec) -> Option<u32> {
    if v.abs_spec().is_zero_spec() {
        None
    } else {
        digit_after_first_from(v.abs_spec().display_spec(), 0, false)
    }
}

/// The first two significant digits as a number from 10 to 99.
pub open spec fn first_two_digits_spec(v: Dec) -> Option<u32> {
    match (first_digit_spec(v), second_digit_spec(v)) {
        (Some(a), Some(b)) => Some((a * 10 + b) as u32),
        _ => None,
    }
}

/// The first non-zero decimal digit of a text.
pub fn first_nonzero_digit(text: &str) -> (r: Option<u32>)
    ensures
        r == first_nonzero_from(text@, 0),
        r matches Some(d) ==> 1 <= d <= 9,
{
    let n = text.unicode_len();
    let mut i: usize = 0;
    while i < n
        invariant
            i <= n,
            n == text@.len(),
            first_nonzero_from(text@, 0) == first_nonzero_from(text@, i as nat),
        decreases n - i,
    {
        let c = text.get_char(i);
        if '1' <= c && c <= '9' {
            return Some((c as u32) - ('0' as u32));
        }
        i = i + 1;
    }
    None
}

/// The decimal digit that follows the first non-zero digit of a text, skipping decimal
/// points; zero when the text ends right after that digit, none when it has no non-zero
/// digit.
pub fn digit_after_first_nonzero(text: &str) -> (r: Option<u32>)
    ensures
        r == digit_after_first_from(text@, 0, false),
        r matches Some(d) ==> d <= 9,
{
    let n = text.unicode_len();
    let mut found = false;
    let mut i: usize = 0;
    while i < n
        invariant
            i <= n,
            n == text@.len(),
            digit_after_first_from(text@, 0, false) == digit_after_first_from(text@, i as nat, found),
        decreases n - i,
    {
        let c = text.get_char(i);
        if c == '.' {
        } else if !found {
            if '1' <= c && c <= '9' {
                found = true;
            }
        } else if '0' <= c && c <= '9' {
            return Some((c as u32) - ('0' as u32));
        }
        i = i + 1;
    }
    if found {
        Some(0)
    } else {
        None
    }
}

/// The first significant digit of a figure (1 to 9); none for zero.
pub fn first_digit(val: Dec) -> (r: Option<u32>)
    ensures
        r == first_digit_spec(val),
        r matches Some(d) ==> 1 <= d <= 9,
{
    let a = val.abs();
    if a.is_zero() {
        return None;
    }
    let text = a.to_string();
    first_nonzero_digit(text.as_str())
}

/// The second significant digit of a figure (0 to 9); none for zero.
pub fn second_digit(val: Dec) -> (r: Option<u32>)
    ensures
        r == second_digit_spec(val),
        r matches Some(d) ==> d <= 9,
{
    let a = val.abs();
    if a.is_zero() {
        return None;
    }
    let text = a.to_string();
    digit_after_first_nonzero(text.as_str())
}

/// The first two significant digits of a figure as a number from 10 to 99; none for zero.
pub fn first_two_digits(val: Dec) -> (r: Option<u32>)
    ensures
        r == first_two_digits_spec(val),
        r matches Some(d) ==> 10 <= d <= 99,
{
    let a = first_digit(val)?;
    let b = second_digit(val)?;
    Some(a * 10 + b)
}

// ---------------------------------------------------------------------------
// Expected frequencies and the critical value
// ---------------------------------------------------------------------------

/// log10(1 + 1/n): Benford's probability that a figure starts with the digits of `n`.
pub open spec fn benford_share(n: nat) -> Option<Dec> {
    match Dec::lit(1, 0).div_spec(Dec::lit(n as int, 0)) {
        None => None,
        Some(q) => match Dec::lit(1, 0).add_spec(q) {
            None => None,
            Some(a) => log10_spec(a),
        },
    }
}

/// Benford's probability that the second digit is `d`: the shares of 10k + d summed over
/// k = 1..9.
pub open spec fn second_digit_share(d: nat) -> Option<Dec> {
    sum_opt(Seq::new(9, |k: int| benford_share((10 * (k + 1) + d) as nat)))
}

/// log10(1 + 1/n) for `n` at least one.
fn benford_share_exec(n: u32) -> (r: FinResult<Dec>)
    requires
        n >= 1,
    ensures
        r == lift(benford_share(n as nat)),
{
    let one = Dec::one();
    decimal_log10(one.add(&one.div(&Dec::from_u64(n as u64))?)?)
}

/// Expected share of figures whose first digit is `d` (1 to 9).
pub fn benford_first_digit(d: u32) -> (r: FinResult<Dec>)
    requires
        d >= 1,
    ensures
        r == lift(benford_share(d as nat)),
{
    benford_share_exec(d)
}

/// Expected share of figures whose second digit is `d` (meaningful for 0 to 9): the shares
/// of 10k + d summed over k = 1..9.
pub fn benford_second_digit(d: u32) -> (r: FinResult<Dec>)
    requires
        d <= u32::MAX - 90,
    ensures
        r == lift(second_digit_share(d as nat)),
{
    let ghost terms = Seq::new(9, |k: int| benford_share((10 * (k + 1) + d) as nat));
    let mut total = Dec::zero();
    let mut k: u32 = 1;
    while k <= 9
        invariant
            1 <= k <= 10,
            d <= u32::MAX - 90,
            terms == Seq::new(9, |k: int| benford_share((10 * (k + 1) + d) as nat)),
            sum_opt(terms.take(k - 1)) == Some(total),
        decreases 10 - k,
    {
        proof {
            assert(terms.take(k as int).drop_last() =~= terms.take(k - 1));
        }
        let step = match benford_share_exec(10 * k + d) {
            Ok(share) => total.add(&share),
            Err(e) => Err(e),
        };
        match step {
            Ok(t) => {
                total = t;
            },
            Err(e) => {
                proof {
                    crate::dec::lemma_sum_opt_none(terms, k - 1);
                }
                return Err(e);
            },
        }
        k = k + 1;
    }
    proof {
        assert(terms.take(9) =~= terms);
    }
    Ok(total)
}

/// Expected share of figures whose first two digits are `dd` (10 to 99).
pub fn benford_first_two_digits(dd: u32) -> (r: FinResult<Dec>)
    requires
        dd >= 1,
    ensures
        r == lift(benford_share(dd as nat)),
{
    benford_share_exec(dd)
}

/// The normal quantile the Wilson-Hilferty approximation uses for a significance level.
pub open spec fn wh_quantile(alpha: Dec) -> Dec {
    if alpha.le_spec(Dec::lit(1, 2)) {
        Dec::lit(2326, 3)
    } else if alpha.le_spec(Dec::lit(5, 2)) {
        Dec::lit(1645, 3)
    } else if alpha.le_spec(Dec::lit(10, 2)) {
        Dec::lit(1282, 3)
    } else {
        Dec::lit(1036, 3)
    }
}

/// Tabulated critical value for 8, 9 or 89 degrees of freedom.
pub open spec fn table_critical(df: u32, alpha: Dec) -> Dec {
    if df == 8 {
        if alpha.le_spec(Dec::lit(1, 2)) {
            Dec::lit(20090, 3)
        } else if alpha.le_spec(Dec::lit(5, 2)) {
            Dec::lit(15507, 3)
        } else if alpha.le_spec(Dec::lit(10, 2)) {
            Dec::lit(13362, 3)
        } else {
            Dec::lit(11030, 3)
        }
    } else if df == 9 {
        if alpha.le_spec(Dec::lit(1, 2)) {
            Dec::lit(21666, 3)
        } else if alpha.le_spec(Dec::lit(5, 2)) {
            Dec::lit(16919, 3)
        } else if alpha.le_spec(Dec::lit(10, 2)) {
            Dec::lit(14684, 3)
        } else {
            Dec::lit(12242, 3)
        }
    } else if alpha.le_spec(Dec::lit(1, 2)) {
        Dec::lit(122942, 3)
    } else if alpha.le_spec(Dec::lit(5, 2)) {
        Dec::lit(112022, 3)
    } else if alpha.le_spec(Dec::lit(10, 2)) {
        Dec::lit(106469, 3)
    } else {
        Dec::lit(100535, 3)
    }
}

/// The Wilson-Hilferty approximation df * (1 - f + z sqrt(f))^3 with f = 2 / (9 df).
pub open spec fn wilson_hilferty(df: u32, alpha: Dec) -> Option<Dec> {
    let dfd = Dec::lit(df as int, 0);
    match odiv(Some(Dec::lit(2, 0)), Dec::lit(9, 0).mul_spec(dfd)) {
        None => None,
        Some(frac) => match (Dec::lit(1, 0).sub_spec(frac), sqrt_spec(frac)) {
            (Some(a), Some(sq)) => match oadd(Some(a), wh_quantile(alpha).mul_spec(sq)) {
                None => None,
                Some(base) => omul(omul(dfd.mul_spec(base), Some(base)), Some(base)),
            },
            _ => None,
        },
    }
}

/// Chi-squared critical value: tabulated for 8, 9 and 89 degrees of freedom, the
/// Wilson-Hilferty approximation otherwise.
pub open spec fn critical_spec(df: u32, alpha: Dec) -> Option<Dec> {
    if df == 8 || df == 9 || df == 89 {
        Some(table_critical(df, alpha))
    } else {
        wilson_hilferty(df, alpha)
    }
}

/// Critical value of the chi-squared distribution with `df` degrees of freedom at
/// significance `alpha`.
pub fn chi_squared_critical(df: u32, alpha: Dec) -> (r: FinResult<Dec>)
    requires
        df >= 1,
    ensures
        r == lift(critical_spec(df, alpha)),
{
    let a01 = alpha.le(&Dec::new(1, 2));
    let a05 = alpha.le(&Dec::new(5, 2));
    let a10 = alpha.le(&Dec::new(10, 2));
    if df == 8 {
        return Ok(
            if a01 {
                Dec::new(20090, 3)
            } else if a05 {
                Dec::new(15507, 3)
            } else if a10 {
                Dec::new(13362, 3)
            } else {
                Dec::new(11030, 3)
            },
        );
    }
    if df == 9 {
        return Ok(
            if a01 {
                Dec::new(21666, 3)
            } else if a05 {
                Dec::new(16919, 3)
            } else if a10 {
                Dec::new(14684, 3)
            } else {
                Dec::new(12242, 3)
            },
        );
    }
    if df == 89 {
        return Ok(
            if a01 {
                Dec::new(122942, 3)
            } else if a05 {
                Dec::new(112022, 3)
            } else if a10 {
                Dec::new(106469, 3)
            } else {
                Dec::new(100535, 3)
            },
        );
    }
    let z = if a01 {
        Dec::new(2326, 3)
    } else if a05 {
        Dec::new(1645, 3)
    } else if a10 {
        Dec::new(1282, 3)
    } else {
        Dec::new(1036, 3)
    };
    let df_d = Dec::from_u64(df as u64);
    let frac = Dec::new(2, 0).div(&Dec::new(9, 0).mul(&df_d)?)?;
    let base = Dec::one().sub(&frac)?.add(&z.mul(&decimal_sqrt(frac)?)?)?;
    df_d.mul(&base)?.mul(&base)?.mul(&base)
}

// ---------------------------------------------------------------------------
// Specification: the analysis
// ---------------------------------------------------------------------------

/// The digit test a text names.
pub open spec fn test_named(t: Seq<char>) -> Option<DigitTest> {
    if t == "first_digit"@ {
        Some(DigitTest::FirstDigit)
    } else if t == "second_digit"@ {
        Some(DigitTest::SecondDigit)
    } else if t == "first_two_digits"@ {
        Some(DigitTest::FirstTwoDigits)
    } else {
        None
    }
}

/// The smallest and largest digit (or pair of digits) a test counts.
pub open spec fn test_range(t: DigitTest) -> (u32, u32) {
    match t {
        DigitTest::FirstDigit => (1, 9),
        DigitTest::SecondDigit => (0, 9),
        DigitTest::FirstTwoDigits => (10, 99),
    }
}

/// The digit (or pair) a test reads from a figure.
pub open spec fn extract_spec(t: DigitTest, v: Dec) -> Option<u32> {
    match t {
        DigitTest::FirstDigit => first_digit_spec(v),
        DigitTest::SecondDigit => second_digit_spec(v),
        DigitTest::FirstTwoDigits => first_two_digits_spec(v),
    }
}

/// Benford's expected share of the digit (or pair) `d` under a test.
pub open spec fn expected_spec(t: DigitTest, d: nat) -> Option<Dec> {
    match t {
        DigitTest::SecondDigit => second_digit_share(d),
        _ => benford_share(d),
    }
}

/// The digits read from the figures, in order, leaving out the figures that give none.
pub open spec fn extracted(t: DigitTest, s: Seq<Dec>) -> Seq<u32>
    decreases s.len(),
{
    if s.len() == 0 {
        Seq::empty()
    } else {
        let prev = extracted(t, s.drop_last());
        match extract_spec(t, s.last()) {
            Some(x) => prev.push(x),
            None => prev,
        }
    }
}

/// How many entries of `s` equal `d`.
pub open spec fn count_of(s: Seq<u32>, d: u32) -> nat
    decreases s.len(),
{
    if s.len() == 0 {
        0
    } else {
        count_of(s.drop_last(), d) + if s.last() == d {
            1nat
        } else {
            0nat
        }
    }
}

/// One hundred.
pub open spec fn hundred() -> Dec {
    Dec::lit(100, 0)
}

/// The chi-squared total after adding (count - expected)^2 / expected, when the expected
/// count is positive.
pub open spec fn chi_next(chi: Dec, count: Dec, expected: Dec) -> Option<Dec> {
    if expected.gt_spec(dzero()) {
        match count.sub_spec(expected) {
            None => None,
            Some(diff) => match odiv(diff.mul_spec(diff), Some(expected)) {
                None => None,
                Some(c) => chi.add_spec(c),
            },
        }
    } else {
        Some(chi)
    }
}

/// The standard error of an observed share, in percent: sqrt(p (1 - p) / n) * 100.
pub open spec fn std_error(p: Dec, n: Dec) -> Option<Dec> {
    match odiv(omul(Some(p), Dec::lit(1, 0).sub_spec(p)), Some(n)) {
        None => None,
        Some(v) => omul(sqrt_spec(v), Some(hundred())),
    }
}

/// The running figures of the pass over the digits.
pub struct DigitScan {
    pub chi: Dec,
    pub max_dev: Dec,
    pub max_digit: u32,
    pub total_abs_dev: Dec,
    pub freqs: Seq<DigitFrequency>,
    pub suspects: Seq<u32>,
}

/// The pass over one digit `d`, given the digits read and their number `n`.
pub open spec fn scan_step(t: DigitTest, digits: Seq<u32>, n: Dec, d: nat, st: DigitScan) -> Option<DigitScan> {
    let count = count_of(digits, d as u32) as u32;
    let cd = Dec::lit(count as int, 0);
    match (omul(cd.div_spec(n), Some(hundred())), expected_spec(t, d)) {
        (Some(o), Some(p)) => match (p.mul_spec(hundred()), p.mul_spec(n)) {
            (Some(e), Some(ec)) => match (o.sub_spec(e), chi_next(st.chi, cd, ec), std_error(p, n)) {
                (Some(dv), Some(chi), Some(sd)) => match (
                    Dec::lit(2, 0).mul_spec(sd),
                    st.total_abs_dev.add_spec(dv.abs_spec()),
                ) {
                    (Some(two_sd), Some(total)) => {
                        let a = dv.abs_spec();
                        let bigger = a.gt_spec(st.max_dev);
                        Some(
                            DigitScan {
                                chi,
                                max_dev: if bigger { a } else { st.max_dev },
                                max_digit: if bigger { d as u32 } else { st.max_digit },
                                total_abs_dev: total,
                                freqs: st.freqs.push(
                                    DigitFrequency {
                                        digit: d as u32,
                                        observed_count: count,
                                        observed_pct: o,
                                        expected_pct: e,
                                        deviation: dv,
                                    },
                                ),
                                suspects: if a.gt_spec(two_sd) && sd.gt_spec(dzero()) {
                                    st.suspects.push(d as u32)
                                } else {
                                    st.suspects
                                },
                            },
                        )
                    },
                    _ => None,
                },
                _ => None,
            },
            _ => None,
        },
        _ => None,
    }
}

/// The pass over the digits `d` to `end`.
pub open spec fn scan(t: DigitTest, digits: Seq<u32>, n: Dec, d: nat, end: nat, st: DigitScan) -> Option<DigitScan>
    decreases end + 1 - d,
{
    if d > end {
        Some(st)
    } else {
        match scan_step(t, digits, n, d, st) {
            None => None,
            Some(s2) => scan(t, digits, n, d + 1, end, s2),
        }
    }
}

/// The analysis as values.
pub struct BenfordFigures {
    pub freqs: Seq<DigitFrequency>,
    pub chi: Dec,
    pub df: u32,
    pub critical: Dec,
    pub max_digit: u32,
    pub max_dev: Dec,
    pub mad: Dec,
    pub suspects: Seq<u32>,
}

/// The analysis of the figures under a test.
pub open spec fn analysis_spec(pts: Seq<Dec>, alpha: Dec, t: DigitTest) -> Result<BenfordFigures, ErrView> {
    let digits = extracted(t, pts);
    if digits.len() == 0 {
        Err(insufficient_data("No valid extractable digits."@))
    } else {
        let (start, end) = test_range(t);
        let n = Dec::lit(digits.len() as int, 0);
        let init = DigitScan {
            chi: dzero(),
            max_dev: dzero(),
            max_digit: start,
            total_abs_dev: dzero(),
            freqs: Seq::empty(),
            suspects: Seq::empty(),
        };
        match scan(t, digits, n, start as nat, end as nat, init) {
            None => Err(overflow()),
            Some(st) => match (
                critical_spec((end - start) as u32, alpha),
                st.total_abs_dev.div_spec(Dec::lit(end - start + 1, 0)),
            ) {
                (Some(c), Some(mad)) => Ok(
                    BenfordFigures {
                        freqs: st.freqs,
                        chi: st.chi,
                        df: (end - start) as u32,
                        critical: c,
                        max_digit: st.max_digit,
                        max_dev: st.max_dev,
                        mad,
                        suspects: st.suspects,
                    },
                ),
                _ => Err(overflow()),
            },
        }
    }
}

/// Benford's Law analysis of an input: its validation, then the analysis.
pub open spec fn benford_spec(i: BenfordsLawInput) -> Result<BenfordFigures, ErrView> {
    if i.data_points@.len() == 0 {
        Err(insufficient_data("At least one data point is required."@))
    } else if i.significance_level.le_spec(dzero()) || i.significance_level.ge_spec(Dec::lit(1, 0)) {
        Err(invalid_input("significance_level"@, "Must be between 0 and 1 exclusive."@))
    } else {
        match test_named(i.test_type@) {
            None => Err(
                invalid_input(
                    "test_type"@,
                    "Must be 'first_digit', 'second_digit', or 'first_two_digits'."@,
                ),
            ),
            Some(t) => analysis_spec(i.data_points@, i.significance_level, t),
        }
    }
}

// ---------------------------------------------------------------------------
// The analysis
// ---------------------------------------------------------------------------

fn extract_exec(t: DigitTest, v: Dec) -> (r: Option<u32>)
    ensures
        r == extract_spec(t, v),
{
    match t {
        DigitTest::FirstDigit => first_digit(v),
        DigitTest::SecondDigit => second_digit(v),
        DigitTest::FirstTwoDigits => first_two_digits(v),
    }
}

fn expected_exec(t: DigitTest, d: u32) -> (r: FinResult<Dec>)
    requires
        test_range(t).0 <= d <= test_range(t).1,
    ensures
        r == lift(expected_spec(t, d as nat)),
{
    match t {
        DigitTest::FirstDigit => benford_first_digit(d),
        DigitTest::SecondDigit => benford_second_digit(d),
        DigitTest::FirstTwoDigits => benford_first_two_digits(d),
    }
}

/// The digits a test reads from the figures, in order.
fn extract_digits(t: DigitTest, pts: &Vec<Dec>) -> (r: Vec<u32>)
    ensures
        r@ == extracted(t, pts@),
        r@.len() <= pts@.len(),
{
    let mut out: Vec<u32> = Vec::new();
    let mut j: usize = 0;
    while j < pts.len()
        invariant
            j <= pts@.len(),
            out@ == extracted(t, pts@.take(j as int)),
            out@.len() <= j,
        decreases pts@.len() - j,
    {
        proof {
            assert(pts@.take(j + 1).drop_last() =~= pts@.take(j as int));
        }
        if let Some(x) = extract_exec(t, pts[j]) {
            out.push(x);
        }
        j = j + 1;
    }
    proof {
        assert(pts@.take(pts@.len() as int) =~= pts@);
    }
    out
}

/// How many of the digits equal `d`.
fn count_digit(digits: &Vec<u32>, d: u32) -> (r: usize)
    ensures
        r == count_of(digits@, d),
{
    let mut c: usize = 0;
    let mut j: usize = 0;
    while j < digits.len()
        invariant
            j <= digits@.len(),
            c == count_of(digits@.take(j as int), d),
            c <= j,
        decreases digits@.len() - j,
    {
        proof {
            assert(digits@.take(j + 1).drop_last() =~= digits@.take(j as int));
        }
        if digits[j] == d {
            c = c + 1;
        }
        j = j + 1;
    }
    proof {
        assert(digits@.take(digits@.len() as int) =~= digits@);
    }
    c
}

/// The pass over one digit: its frequency row, its share of the chi-squared statistic and
/// of the deviations, and whether it is suspect.
fn scan_digit(
    t: DigitTest,
    digits: &Vec<u32>,
    n: Dec,
    d: u32,
    st: (Dec, Dec, u32, Dec),
    freqs: &mut Vec<DigitFrequency>,
    suspects: &mut Vec<u32>,
) -> (r: FinResult<(Dec, Dec, u32, Dec)>)
    requires
        test_range(t).0 <= d <= test_range(t).1,
    ensures
        ({
            let before = DigitScan {
                chi: st.0,
                max_dev: st.1,
                max_digit: st.2,
                total_abs_dev: st.3,
                freqs: old(freqs)@,
                suspects: old(suspects)@,
            };
            match scan_step(t, digits@, n, d as nat, before) {
                None => r == Err::<(Dec, Dec, u32, Dec), FinError>(FinError::ArithmeticOverflow),
                Some(after) => r == Ok::<(Dec, Dec, u32, Dec), FinError>(
                    (after.chi, after.max_dev, after.max_digit, after.total_abs_dev),
                ) && final(freqs)@ == after.freqs && final(suspects)@ == after.suspects,
            }
        }),
{
    let hundred = Dec::new(100, 0);
    let count = count_digit(digits, d) as u32;
    let cd = Dec::from_u64(count as u64);
    let observed_pct = cd.div(&n)?.mul(&hundred)?;
    let p = expected_exec(t, d)?;
    let expected_pct = p.mul(&hundred)?;
    let expected_count = p.mul(&n)?;
    let deviation = observed_pct.sub(&expected_pct)?;
    let chi = if expected_count.gt(&Dec::zero()) {
        let diff = cd.sub(&expected_count)?;
        st.0.add(&diff.mul(&diff)?.div(&expected_count)?)?
    } else {
        st.0
    };
    let sd = decimal_sqrt(p.mul(&Dec::one().sub(&p)?)?.div(&n)?)?.mul(&hundred)?;
    let a = deviation.abs();
    let two_sd = Dec::new(2, 0).mul(&sd)?;
    let total = st.3.add(&a)?;
    if a.gt(&two_sd) && sd.gt(&Dec::zero()) {
        suspects.push(d);
    }
    let (max_dev, max_digit) = if a.gt(&st.1) {
        (a, d)
    } else {
        (st.1, st.2)
    };
    freqs.push(
        DigitFrequency {
            digit: d,
            observed_count: count,
            observed_pct,
            expected_pct,
            deviation,
        },
    );
    Ok((chi, max_dev, max_digit, total))
}

// ---------------------------------------------------------------------------
// Properties of the pass
// ---------------------------------------------------------------------------

/// The pass over `d..=end` adds one row per digit, in order, keeps the earlier rows, and
/// picks its largest deviation among the digits seen.
pub proof fn lemma_scan_rows(t: DigitTest, digits: Seq<u32>, n: Dec, lo: nat, d: nat, end: nat, st: DigitScan)
    requires
        scan(t, digits, n, d, end, st) is Some,
        lo <= d <= end + 1,
        end <= u32::MAX,
        lo <= st.max_digit <= end,
    ensures
        ({
            let r = scan(t, digits, n, d, end, st)->Some_0;
            &&& r.freqs.len() == st.freqs.len() + (end + 1 - d)
            &&& forall|k: int| 0 <= k < st.freqs.len() ==> r.freqs[k] == st.freqs[k]
            &&& forall|k: int|
                st.freqs.len() <= k < r.freqs.len() ==> (#[trigger] r.freqs[k]).digit == d + (k - st.freqs.len())
                    && r.freqs[k].observed_count == count_of(digits, r.freqs[k].digit) as u32
            &&& lo <= r.max_digit <= end
        }),
    decreases end + 1 - d,
{
    if d <= end {
        let s2 = scan_step(t, digits, n, d, st)->Some_0;
        lemma_scan_rows(t, digits, n, lo, d + 1, end, s2);
        let r = scan(t, digits, n, d, end, st)->Some_0;
        assert(forall|k: int| 0 <= k < s2.freqs.len() ==> r.freqs[k] == s2.freqs[k]);
        assert(s2.freqs.len() == st.freqs.len() + 1);
        assert forall|k: int| 0 <= k < st.freqs.len() implies r.freqs[k] == st.freqs[k] by {
            assert(r.freqs[k] == s2.freqs[k]);
        }
        assert forall|k: int| st.freqs.len() <= k < r.freqs.len() implies (#[trigger] r.freqs[k]).digit == d + (k
            - st.freqs.len()) && r.freqs[k].observed_count == count_of(digits, r.freqs[k].digit) as u32 by {
            if k == st.freqs.len() {
                assert(r.freqs[k] == s2.freqs[k]);
            }
        }
    }
}

/// The observed counts of the rows, added up.
pub open spec fn counted(freqs: Seq<DigitFrequency>) -> nat
    decreases freqs.len(),
{
    if freqs.len() == 0 {
        0
    } else {
        counted(freqs.drop_last()) + freqs.last().observed_count as nat
    }
}

/// How many entries of `s` lie in `lo..=hi`, digit by digit.
pub open spec fn count_range(s: Seq<u32>, lo: nat, hi: nat) -> nat
    decreases hi + 1 - lo,
{
    if lo > hi {
        0
    } else {
        count_of(s, lo as u32) + count_range(s, lo + 1, hi)
    }
}

proof fn lemma_count_of_le(s: Seq<u32>, d: u32)
    ensures
        count_of(s, d) <= s.len(),
    decreases s.len(),
{
    if s.len() > 0 {
        lemma_count_of_le(s.drop_last(), d);
    }
}

proof fn lemma_count_range_step(s: Seq<u32>, lo: nat, hi: nat)
    requires
        s.len() > 0,
        hi <= u32::MAX,
    ensures
        count_range(s, lo, hi) == count_range(s.drop_last(), lo, hi) + if lo <= s.last() <= hi {
            1nat
        } else {
            0nat
        },
    decreases hi + 1 - lo,
{
    if lo <= hi {
        lemma_count_range_step(s, lo + 1, hi);
    }
}

/// When every entry lies in `lo..=hi`, counting digit by digit counts every entry once.
proof fn lemma_count_range_all(s: Seq<u32>, lo: nat, hi: nat)
    requires
        hi <= u32::MAX,
        forall|k: int| 0 <= k < s.len() ==> lo <= #[trigger] s[k] <= hi,
    ensures
        count_range(s, lo, hi) == s.len(),
    decreases s.len(),
{
    if s.len() == 0 {
        assert(count_range(s, lo, hi) == 0) by {
            lemma_count_range_empty(s, lo, hi);
        }
    } else {
        let p = s.drop_last();
        assert(forall|k: int| 0 <= k < p.len() ==> p[k] == s[k]);
        lemma_count_range_all(p, lo, hi);
        lemma_count_range_step(s, lo, hi);
        assert(lo <= s[s.len() - 1] <= hi);
    }
}

proof fn lemma_count_range_empty(s: Seq<u32>, lo: nat, hi: nat)
    requires
        s.len() == 0,
    ensures
        count_range(s, lo, hi) == 0,
    decreases hi + 1 - lo,
{
    if lo <= hi {
        lemma_count_range_empty(s, lo + 1, hi);
    }
}

/// The rows the pass adds count, together, the digits that lie in `d..=end`.
proof fn lemma_scan_counted(t: DigitTest, digits: Seq<u32>, n: Dec, d: nat, end: nat, st: DigitScan)
    requires
        scan(t, digits, n, d, end, st) is Some,
        d <= end + 1,
        end <= u32::MAX,
        digits.len() <= u32::MAX,
    ensures
        counted(scan(t, digits, n, d, end, st)->Some_0.freqs) == counted(st.freqs) + count_range(digits, d, end),
    decreases end + 1 - d,
{
    if d <= end {
        let s2 = scan_step(t, digits, n, d, st)->Some_0;
        lemma_scan_counted(t, digits, n, d + 1, end, s2);
        lemma_count_of_le(digits, d as u32);
        assert(s2.freqs.drop_last() =~= st.freqs);
    }
}

/// The first non-zero digit of a text is between 1 and 9.
proof fn lemma_first_nonzero_range(s: Seq<char>, i: nat)
    ensures
        first_nonzero_from(s, i) matches Some(x) ==> 1 <= x <= 9,
    decreases s.len() - i,
{
    if i < s.len() && !is_nonzero_digit(s[i as int]) {
        lemma_first_nonzero_range(s, i + 1);
    }
}

/// The digit after the first non-zero one is between 0 and 9.
proof fn lemma_digit_after_range(s: Seq<char>, i: nat, found: bool)
    ensures
        digit_after_first_from(s, i, found) matches Some(x) ==> x <= 9,
    decreases s.len() - i,
{
    if i < s.len() {
        if s[i as int] == '.' {
            lemma_digit_after_range(s, i + 1, found);
        } else if !found {
            lemma_digit_after_range(s, i + 1, is_nonzero_digit(s[i as int]));
        } else if !is_digit(s[i as int]) {
            lemma_digit_after_range(s, i + 1, true);
        }
    }
}

/// Every digit a test reads lies in the test's range.
proof fn lemma_extracted_range(t: DigitTest, s: Seq<Dec>)
    ensures
        forall|k: int|
            0 <= k < extracted(t, s).len() ==> test_range(t).0 <= #[trigger] extracted(t, s)[k] <= test_range(t).1,
        extracted(t, s).len() <= s.len(),
    decreases s.len(),
{
    if s.len() > 0 {
        lemma_extracted_range(t, s.drop_last());
        let v = s.last();
        let a = v.abs_spec();
        lemma_first_nonzero_range(a.display_spec(), 0);
        lemma_digit_after_range(a.display_spec(), 0, false);
    }
}

/// The output fields match the analysis figures.
pub open spec fn output_matches(o: BenfordsLawOutput, f: BenfordFigures) -> bool {
    &&& o.digit_frequencies@ == f.freqs
    &&& o.chi_squared == f.chi
    &&& o.degrees_of_freedom == f.df
    &&& o.critical_value == f.critical
    &&& o.conforms == f.chi.lt_spec(f.critical)
    &&& o.max_deviation_digit == f.max_digit
    &&& o.max_deviation == f.max_dev
    &&& o.mean_absolute_deviation == f.mad
    &&& o.suspect_digits@ == f.suspects
}

/// The table has one row per digit (or pair) of the test, in increasing order, its degrees
/// of freedom are one less than its rows, and the largest deviation belongs to one of them.
pub open spec fn rows_in_order(o: BenfordsLawOutput, t: DigitTest) -> bool {
    let (start, end) = test_range(t);
    &&& o.digit_frequencies@.len() == end - start + 1
    &&& o.degrees_of_freedom == end - start
    &&& forall|k: int| 0 <= k < o.digit_frequencies@.len() ==> (#[trigger] o.digit_frequencies@[k]).digit == start + k
    &&& start <= o.max_deviation_digit <= end
}

/// The shared pass of every test: count each digit (or pair) from `start` to `end`, compare
/// with Benford's shares, and test the fit.
fn run_analysis(pts: &Vec<Dec>, alpha: Dec, t: DigitTest) -> (r: FinResult<BenfordsLawOutput>)
    ensures
        r is Err <==> analysis_spec(pts@, alpha, t) is Err,
        r matches Err(e) ==> analysis_spec(pts@, alpha, t) == Err::<BenfordFigures, ErrView>(err_view(e)),
        r matches Ok(o) ==> output_matches(o, analysis_spec(pts@, alpha, t)->Ok_0),
        r matches Ok(o) ==> rows_in_order(o, t),
{
    let digits = extract_digits(t, pts);
    if digits.len() == 0 {
        let e = FinError::InsufficientData(String::from_str("No valid extractable digits."));
        return Err(e);
    }
    let (start, end): (u32, u32) = match t {
        DigitTest::FirstDigit => (1, 9),
        DigitTest::SecondDigit => (0, 9),
        DigitTest::FirstTwoDigits => (10, 99),
    };
    let n = Dec::from_u64(digits.len() as u64);
    let ghost init = DigitScan {
        chi: dzero(),
        max_dev: dzero(),
        max_digit: start,
        total_abs_dev: dzero(),
        freqs: Seq::empty(),
        suspects: Seq::empty(),
    };
    let mut freqs: Vec<DigitFrequency> = Vec::new();
    let mut suspects: Vec<u32> = Vec::new();
    let mut st: (Dec, Dec, u32, Dec) = (Dec::zero(), Dec::zero(), start, Dec::zero());
    let mut d: u32 = start;
    while d <= end
        invariant
            (start, end) == test_range(t),
            start <= d <= end + 1,
            digits@.len() > 0,
            n == Dec::lit(digits@.len() as int, 0),
            init == (DigitScan {
                chi: dzero(),
                max_dev: dzero(),
                max_digit: start,
                total_abs_dev: dzero(),
                freqs: Seq::empty(),
                suspects: Seq::empty(),
            }),
            digits@ == extracted(t, pts@),
            scan(t, digits@, n, start as nat, end as nat, init) == scan(
                t,
                digits@,
                n,
                d as nat,
                end as nat,
                DigitScan {
                    chi: st.0,
                    max_dev: st.1,
                    max_digit: st.2,
                    total_abs_dev: st.3,
                    freqs: freqs@,
                    suspects: suspects@,
                },
            ),
        decreases end + 1 - d,
    {
        st = scan_digit(t, &digits, n, d, st, &mut freqs, &mut suspects)?;
        d = d + 1;
    }
    proof {
        lemma_scan_rows(t, digits@, n, start as nat, start as nat, end as nat, init);
    }
    let df = end - start;
    let critical = chi_squared_critical(df, alpha)?;
    let mad = st.3.div(&Dec::from_u64((end - start + 1) as u64))?;
    let conforms = st.0.lt(&critical);
    Ok(
        BenfordsLawOutput {
            digit_frequencies: freqs,
            chi_squared: st.0,
            degrees_of_freedom: df,
            critical_value: critical,
            conforms,
            max_deviation_digit: st.2,
            max_deviation: st.1,
            mean_absolute_deviation: mad,
            suspect_digits: suspects,
        },
    )
}

/// Benford's Law digit analysis of financial figures: the observed against the expected
/// frequency of each first digit, second digit or pair of first digits, with a chi-squared
/// test of fit at the given significance level.
pub fn analyze_benfords_law(input: &BenfordsLawInput) -> (r: FinResult<BenfordsLawOutput>)
    ensures
        r is Err <==> benford_spec(*input) is Err,
        r matches Err(e) ==> benford_spec(*input) == Err::<BenfordFigures, ErrView>(err_view(e)),
        r matches Ok(o) ==> output_matches(o, benford_spec(*input)->Ok_0),
        r matches Ok(o) ==> rows_in_order(o, test_named(input.test_type@)->Some_0),
{
    if input.data_points.len() == 0 {
        return Err(FinError::InsufficientData(String::from_str("At least one data point is required.")));
    }
    let alpha = input.significance_level;
    if alpha.le(&Dec::zero()) || alpha.ge(&Dec::one()) {
        return Err(
            FinError::InvalidInput {
                field: String::from_str("significance_level"),
                reason: String::from_str("Must be between 0 and 1 exclusive."),
            },
        );
    }
    let t = if input.test_type == String::from_str("first_digit") {
        DigitTest::FirstDigit
    } else if input.test_type == String::from_str("second_digit") {
        DigitTest::SecondDigit
    } else if input.test_type == String::from_str("first_two_digits") {
        DigitTest::FirstTwoDigits
    } else {
        return Err(
            FinError::InvalidInput {
                field: String::from_str("test_type"),
                reason: String::from_str("Must be 'first_digit', 'second_digit', or 'first_two_digits'."),
            },
        );
    };
    run_analysis(&input.data_points, alpha, t)
}

/// Every figure with a readable digit is counted exactly once: the observed counts of the
/// table add up to the number of such figures.
pub proof fn lemma_counts_add_up(input: BenfordsLawInput)
    requires
        benford_spec(input) is Ok,
        input.data_points@.len() <= u32::MAX,
    ensures
        counted(benford_spec(input)->Ok_0.freqs) == extracted(test_named(input.test_type@)->Some_0, input.data_points@).len(),
{
    let t = test_named(input.test_type@)->Some_0;
    let digits = extracted(t, input.data_points@);
    let (start, end) = test_range(t);
    let n = Dec::lit(digits.len() as int, 0);
    let init = DigitScan {
        chi: dzero(),
        max_dev: dzero(),
        max_digit: start,
        total_abs_dev: dzero(),
        freqs: Seq::empty(),
        suspects: Seq::empty(),
    };
    lemma_extracted_range(t, input.data_points@);
    lemma_scan_counted(t, digits, n, start as nat, end as nat, init);
    lemma_count_range_all(digits, start as nat, end as nat);
}

} // verus!
