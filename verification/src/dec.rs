//! Exact decimal numbers: a mantissa of at most 96 bits and a power-of-ten scale of at
//! most 28, the representation of `rust_decimal::Decimal`. Arithmetic is delegated to
//! `rust_decimal` through the trusted wrappers of this module.
use rust_decimal::Decimal;
use vstd::prelude::*;

use crate::error::FinError;

verus! {

/// Largest mantissa magnitude of a decimal (2^96 - 1).
pub const MAX_MANTISSA: i128 = 79228162514264337593543950335i128;

/// Largest number of decimal places.
pub const MAX_SCALE: u32 = 28;

/// 10^n.
pub open spec fn pow10(n: nat) -> int
    decreases n,
{
    if n == 0 {
        1
    } else {
        10 * pow10((n - 1) as nat)
    }
}

/// A mantissa and scale that a decimal can hold.
pub open spec fn parts_valid(m: int, s: int) -> bool {
    &&& -MAX_MANTISSA <= m <= MAX_MANTISSA
    &&& 0 <= s <= MAX_SCALE
}

/// m1 / 10^s1 == m2 / 10^s2.
pub open spec fn rat_eq(m1: int, s1: nat, m2: int, s2: nat) -> bool {
    m1 * pow10(s2) == m2 * pow10(s1)
}

/// m1 / 10^s1 < m2 / 10^s2.
pub open spec fn rat_lt(m1: int, s1: nat, m2: int, s2: nat) -> bool {
    m1 * pow10(s2) < m2 * pow10(s1)
}

/// The mantissa of m / 10^s written at the scale t (at least s).
pub open spec fn at_scale(m: int, s: nat, t: nat) -> int {
    m * pow10((t - s) as nat)
}

/// Both operands, written at the larger of their scales, and their exact sum (with
/// `negate`, their exact difference) fit in a decimal mantissa.
pub open spec fn aligned_fits(am: int, a_scale: nat, bm: int, b_scale: nat, negate: bool) -> bool {
    let t = max_nat(a_scale, b_scale);
    let a = at_scale(am, a_scale, t);
    let b = at_scale(bm, b_scale, t);
    &&& parts_valid(a, t as int)
    &&& parts_valid(b, t as int)
    &&& parts_valid(if negate { a - b } else { a + b }, t as int)
}

/// The result `p` is the exact sum (with `negate`, difference) of the operands, at a scale
/// no larger than theirs.
pub open spec fn exact_result(am: int, a_scale: nat, bm: int, b_scale: nat, negate: bool, p: DecParts) -> bool {
    let t = max_nat(a_scale, b_scale);
    let a = at_scale(am, a_scale, t);
    let b = at_scale(bm, b_scale, t);
    &&& p.1 <= t
    &&& at_scale(p.0 as int, p.1 as nat, t) == if negate { a - b } else { a + b }
}

pub open spec fn max_nat(a: nat, b: nat) -> nat {
    if a >= b {
        a
    } else {
        b
    }
}

pub open spec fn abs_int(x: int) -> int {
    if x < 0 {
        -x
    } else {
        x
    }
}

pub proof fn lemma_pow10_bound(n: nat)
    requires
        n < 28,
    ensures
        pow10(n) * 10 <= pow10(28),
        pow10(28) < u128::MAX,
    decreases n,
{
    reveal_with_fuel(pow10, 29);
    if n > 0 {
        lemma_pow10_bound((n - 1) as nat);
        assert(pow10(n) == 10 * pow10((n - 1) as nat));
    } else {
        assert(pow10(28) == 10000000000000000000000000000);
    }
}

pub proof fn lemma_pow10_pos(n: nat)
    ensures
        pow10(n) > 0,
    decreases n,
{
    if n > 0 {
        lemma_pow10_pos((n - 1) as nat);
    }
}

/// 10^(a + b) = 10^a * 10^b.
pub proof fn lemma_pow10_add(a: nat, b: nat)
    ensures
        pow10(a + b) == pow10(a) * pow10(b),
    decreases a,
{
    if a > 0 {
        lemma_pow10_add((a - 1) as nat, b);
        assert(pow10(a + b) == 10 * pow10((a - 1 + b) as nat));
        assert(10 * (pow10((a - 1) as nat) * pow10(b)) == (10 * pow10((a - 1) as nat)) * pow10(b))
            by (nonlinear_arith);
    }
}

/// Writing a mantissa at a larger scale multiplies it by the power of ten between the
/// scales, and never makes it smaller in size.
pub proof fn lemma_at_scale_lift(m: int, s: nat, u: nat, t: nat)
    requires
        s <= u <= t,
    ensures
        at_scale(m, s, t) == at_scale(m, s, u) * pow10((t - u) as nat),
        abs_int(at_scale(m, s, u)) <= abs_int(at_scale(m, s, t)),
{
    lemma_pow10_add((u - s) as nat, (t - u) as nat);
    assert((t - s) as nat == ((u - s) as nat + (t - u) as nat));
    lemma_pow10_pos((t - u) as nat);
    let x = at_scale(m, s, u);
    let p = pow10((t - u) as nat);
    assert(m * pow10((t - s) as nat) == m * (pow10((u - s) as nat) * p));
    assert(m * (pow10((u - s) as nat) * p) == (m * pow10((u - s) as nat)) * p) by (nonlinear_arith);
    assert(abs_int(x) <= abs_int(x * p)) by (nonlinear_arith)
        requires
            p >= 1,
    ;
}

/// A difference that is exact at the larger scale of its operands is positive exactly
/// when the first operand is the larger, and negative exactly when it is the smaller.
pub proof fn lemma_exact_diff_sign(r: Dec, a: Dec, b: Dec)
    requires
        r.s() <= max_nat(a.s(), b.s()),
        r.at(max_nat(a.s(), b.s())) == a.at(max_nat(a.s(), b.s())) - b.at(max_nat(a.s(), b.s())),
    ensures
        r.gt_spec(Dec::lit(0, 0)) <==> b.lt_spec(a),
        r.lt_spec(Dec::lit(0, 0)) <==> a.lt_spec(b),
{
    let u = max_nat(a.s(), b.s());
    Dec::lemma_nonneg(r);
    assert(Dec::lit(0, 0).m() == 0 && Dec::lit(0, 0).s() == 0);
    lemma_pow10_pos(0);
    assert(r.lt_spec(Dec::lit(0, 0)) <==> r.m() * pow10(0) < 0 * pow10(r.s()));
    lemma_pow10_pos(r.s());
    assert(pow10(0) == 1);
    assert(r.lt_spec(Dec::lit(0, 0)) <==> r.m() < 0) by (nonlinear_arith)
        requires
            r.lt_spec(Dec::lit(0, 0)) <==> r.m() * pow10(0) < 0 * pow10(r.s()),
            pow10(0) == 1,
    ;
    let q = pow10((u - r.s()) as nat);
    lemma_pow10_pos((u - r.s()) as nat);
    assert(r.m() > 0 <==> r.m() * q > 0) by (nonlinear_arith)
        requires
            q > 0,
    ;
    assert(r.m() < 0 <==> r.m() * q < 0) by (nonlinear_arith)
        requires
            q > 0,
    ;
    let (pa, pb) = (pow10(a.s()), pow10(b.s()));
    let (x, y) = (pow10((u - a.s()) as nat), pow10((u - b.s()) as nat));
    lemma_pow10_add((u - a.s()) as nat, a.s());
    lemma_pow10_add((u - b.s()) as nat, b.s());
    assert(((u - a.s()) as nat + a.s()) == u && ((u - b.s()) as nat + b.s()) == u);
    lemma_pow10_pos(a.s());
    lemma_pow10_pos(b.s());
    lemma_pow10_pos(u);
    let pu = pow10(u);
    let (am, bm) = (a.m(), b.m());
    assert(am * x < bm * y <==> am * pb < bm * pa) by (nonlinear_arith)
        requires
            x * pa == pu,
            y * pb == pu,
            pa > 0,
            pb > 0,
            pu > 0,
    {
        assert(am * x * pa * pb == am * pb * pu);
        assert(bm * y * pa * pb == bm * pa * pu);
        if am * x < bm * y {
            assert(am * x * (pa * pb) < bm * y * (pa * pb));
        }
        if am * pb < bm * pa {
            assert(am * pb * pu < bm * pa * pu);
        }
    }
    assert(bm * y < am * x <==> bm * pa < am * pb) by (nonlinear_arith)
        requires
            x * pa == pu,
            y * pb == pu,
            pa > 0,
            pb > 0,
            pu > 0,
    {
        assert(am * x * pa * pb == am * pb * pu);
        assert(bm * y * pa * pb == bm * pa * pu);
        if bm * y < am * x {
            assert(bm * y * (pa * pb) < am * x * (pa * pb));
        }
        if bm * pa < am * pb {
            assert(bm * pa * pu < am * pb * pu);
        }
    }
}

/// `<` on the values of decimals is transitive.
pub proof fn lemma_rat_lt_trans(m1: int, s1: nat, m2: int, s2: nat, m3: int, s3: nat)
    requires
        rat_lt(m1, s1, m2, s2),
        rat_lt(m2, s2, m3, s3),
    ensures
        rat_lt(m1, s1, m3, s3),
{
    lemma_pow10_pos(s1);
    lemma_pow10_pos(s2);
    lemma_pow10_pos(s3);
    let p1 = pow10(s1);
    let p2 = pow10(s2);
    let p3 = pow10(s3);
    assert(m1 * p2 * p3 < m2 * p1 * p3) by (nonlinear_arith)
        requires
            m1 * p2 < m2 * p1,
            p3 > 0,
    ;
    assert(m2 * p3 * p1 < m3 * p2 * p1) by (nonlinear_arith)
        requires
            m2 * p3 < m3 * p2,
            p1 > 0,
    ;
    assert(m1 * p3 < m3 * p1) by (nonlinear_arith)
        requires
            m1 * p2 * p3 < m2 * p1 * p3,
            m2 * p3 * p1 < m3 * p2 * p1,
            p2 > 0,
    ;
}

/// A mantissa and a scale.
pub type DecParts = (i128, u32);

// ---------------------------------------------------------------------------
// Names of what rust_decimal computes
// ---------------------------------------------------------------------------

/// The mantissa and scale that `Decimal::checked_add` gives back.
pub uninterp spec fn decimal_checked_add(a_mantissa: i128, a_scale: u32, b_mantissa: i128, b_scale: u32) -> Option<DecParts>;

/// The mantissa and scale that `Decimal::checked_sub` gives back.
pub uninterp spec fn decimal_checked_sub(a_mantissa: i128, a_scale: u32, b_mantissa: i128, b_scale: u32) -> Option<DecParts>;

/// The mantissa and scale that `Decimal::checked_mul` gives back.
pub uninterp spec fn decimal_checked_mul(a_mantissa: i128, a_scale: u32, b_mantissa: i128, b_scale: u32) -> Option<DecParts>;

/// The mantissa and scale that `Decimal::checked_div` gives back.
pub uninterp spec fn decimal_checked_div(a_mantissa: i128, a_scale: u32, b_mantissa: i128, b_scale: u32) -> Option<DecParts>;

/// The mantissa and scale that `Decimal::round_dp` gives back.
pub uninterp spec fn decimal_round_dp(mantissa: i128, scale: u32, dp: u32) -> DecParts;

/// The text that `Decimal`'s `Display` writes.
pub uninterp spec fn decimal_display(mantissa: i128, scale: u32) -> Seq<char>;

/// The text that `Decimal`'s `Display` writes when given a precision of `prec` places.
pub uninterp spec fn decimal_display_prec(mantissa: i128, scale: u32, prec: u32) -> Seq<char>;

// ---------------------------------------------------------------------------
// Trusted wrappers
// ---------------------------------------------------------------------------

/// `Decimal::checked_add` on the decimals with the given parts. It gives `None` only on
/// overflow; operands that, aligned to the larger scale, fit together with their exact
/// sum give that sum at most at that scale (a zero operand gives the other back). Two
/// operands of one sign add their magnitudes under that sign, so non-negative operands
/// give a non-negative sum, positive when one of them is positive.
#[verifier::external_body]
fn rd_checked_add(am: i128, a_scale: u32, bm: i128, b_scale: u32) -> (r: Option<DecParts>)
    requires
        parts_valid(am as int, a_scale as int),
        parts_valid(bm as int, b_scale as int),
    ensures
        r == decimal_checked_add(am, a_scale, bm, b_scale),
        r matches Some(p) ==> parts_valid(p.0 as int, p.1 as int),
        a_scale == b_scale && parts_valid(am + bm, a_scale as int) ==> r == Some(
            ((am + bm) as i128, a_scale),
        ),
        am >= 0 && bm >= 0 ==> (r matches Some(p) ==> p.0 >= 0),
        am > 0 && bm >= 0 ==> (r matches Some(p) ==> p.0 > 0),
        r is None ==> !aligned_fits(am as int, a_scale as nat, bm as int, b_scale as nat, false),
        r matches Some(p) ==> (aligned_fits(am as int, a_scale as nat, bm as int, b_scale as nat, false)
            ==> exact_result(am as int, a_scale as nat, bm as int, b_scale as nat, false, p)),
{
    let a = Decimal::from_i128_with_scale(am, a_scale);
    let b = Decimal::from_i128_with_scale(bm, b_scale);
    match a.checked_add(b) {
        Some(d) => Some((d.mantissa(), d.scale())),
        None => None,
    }
}

/// `Decimal::checked_sub` on the decimals with the given parts. It gives `None` only on
/// overflow; operands of one scale whose exact difference fits give it at that scale. The
/// sign comes from the exact difference (a rounded magnitude keeps it or becomes zero), so
/// a value not below the other gives a non-negative difference. Operands that, aligned to
/// the larger scale, fit together with their exact difference give that difference at
/// most at that scale (a zero operand gives the other, or its negation, back).
#[verifier::external_body]
fn rd_checked_sub(am: i128, a_scale: u32, bm: i128, b_scale: u32) -> (r: Option<DecParts>)
    requires
        parts_valid(am as int, a_scale as int),
        parts_valid(bm as int, b_scale as int),
    ensures
        r == decimal_checked_sub(am, a_scale, bm, b_scale),
        r matches Some(p) ==> parts_valid(p.0 as int, p.1 as int),
        a_scale == b_scale && parts_valid(am - bm, a_scale as int) ==> r == Some(
            ((am - bm) as i128, a_scale),
        ),
        !rat_lt(am as int, a_scale as nat, bm as int, b_scale as nat) ==> (r matches Some(p) ==> p.0 >= 0),
        r is None ==> !aligned_fits(am as int, a_scale as nat, bm as int, b_scale as nat, true),
        r matches Some(p) ==> (aligned_fits(am as int, a_scale as nat, bm as int, b_scale as nat, true)
            ==> exact_result(am as int, a_scale as nat, bm as int, b_scale as nat, true, p)),
{
    let a = Decimal::from_i128_with_scale(am, a_scale);
    let b = Decimal::from_i128_with_scale(bm, b_scale);
    match a.checked_sub(b) {
        Some(d) => Some((d.mantissa(), d.scale())),
        None => None,
    }
}

/// `Decimal::checked_mul` on the decimals with the given parts. It gives `None` only on
/// overflow; a zero operand gives zero, a product whose exact mantissa and scale fit is
/// exact, and the sign is the product of the signs (so non-negative operands give a
/// non-negative result).
#[verifier::external_body]
fn rd_checked_mul(am: i128, a_scale: u32, bm: i128, b_scale: u32) -> (r: Option<DecParts>)
    requires
        parts_valid(am as int, a_scale as int),
        parts_valid(bm as int, b_scale as int),
    ensures
        r == decimal_checked_mul(am, a_scale, bm, b_scale),
        r matches Some(p) ==> parts_valid(p.0 as int, p.1 as int),
        am == 0 || bm == 0 ==> r == Some((0i128, 0u32)),
        am >= 0 && bm >= 0 ==> (r matches Some(p) ==> p.0 >= 0),
        am != 0 && bm != 0 && parts_valid(am * bm, a_scale + b_scale) ==> r == Some(
            ((am * bm) as i128, (a_scale + b_scale) as u32),
        ),
{
    let a = Decimal::from_i128_with_scale(am, a_scale);
    let b = Decimal::from_i128_with_scale(bm, b_scale);
    match a.checked_mul(b) {
        Some(d) => Some((d.mantissa(), d.scale())),
        None => None,
    }
}

/// `Decimal::checked_div` on the decimals with the given parts. It gives `None` when the
/// divisor is zero or the quotient overflows; a zero dividend over a non-zero divisor
/// gives zero, and the sign is the product of the signs (so a non-negative dividend over a
/// positive divisor gives a non-negative quotient).
#[verifier::external_body]
fn rd_checked_div(am: i128, a_scale: u32, bm: i128, b_scale: u32) -> (r: Option<DecParts>)
    requires
        parts_valid(am as int, a_scale as int),
        parts_valid(bm as int, b_scale as int),
    ensures
        r == decimal_checked_div(am, a_scale, bm, b_scale),
        r matches Some(p) ==> parts_valid(p.0 as int, p.1 as int),
        bm == 0 ==> r is None,
        bm != 0 && am == 0 ==> r == Some((0i128, 0u32)),
        am >= 0 && bm > 0 ==> (r matches Some(p) ==> p.0 >= 0),
{
    let a = Decimal::from_i128_with_scale(am, a_scale);
    let b = Decimal::from_i128_with_scale(bm, b_scale);
    match a.checked_div(b) {
        Some(d) => Some((d.mantissa(), d.scale())),
        None => None,
    }
}

/// `Decimal`'s `<`, which compares the two values exactly.
#[verifier::external_body]
fn rd_lt(am: i128, a_scale: u32, bm: i128, b_scale: u32) -> (r: bool)
    requires
        parts_valid(am as int, a_scale as int),
        parts_valid(bm as int, b_scale as int),
    ensures
        r == rat_lt(am as int, a_scale as nat, bm as int, b_scale as nat),
{
    Decimal::from_i128_with_scale(am, a_scale) < Decimal::from_i128_with_scale(bm, b_scale)
}

/// `Decimal`'s `==`, which compares the two values exactly.
#[verifier::external_body]
fn rd_eq(am: i128, a_scale: u32, bm: i128, b_scale: u32) -> (r: bool)
    requires
        parts_valid(am as int, a_scale as int),
        parts_valid(bm as int, b_scale as int),
    ensures
        r == rat_eq(am as int, a_scale as nat, bm as int, b_scale as nat),
{
    Decimal::from_i128_with_scale(am, a_scale) == Decimal::from_i128_with_scale(bm, b_scale)
}

/// `Decimal::round_dp`: rounds to `dp` places, half to even. A value that already has at
/// most `dp` places comes back unchanged; any other comes back with `dp` places.
#[verifier::external_body]
fn rd_round_dp(m: i128, scale: u32, dp: u32) -> (r: DecParts)
    requires
        parts_valid(m as int, scale as int),
    ensures
        r == decimal_round_dp(m, scale, dp),
        parts_valid(r.0 as int, r.1 as int),
        scale <= dp ==> r == (m, scale),
        scale > dp ==> r.1 == dp,
{
    let d = Decimal::from_i128_with_scale(m, scale).round_dp(dp);
    (d.mantissa(), d.scale())
}

/// The text of the decimal with the given parts, as `Decimal`'s `Display` writes it: the
/// digits of a non-negative whole number without a scale, and a text with a decimal point
/// whenever the scale is positive.
#[verifier::external_body]
fn rd_display(m: i128, scale: u32) -> (r: String)
    requires
        parts_valid(m as int, scale as int),
    ensures
        r@ == decimal_display(m, scale),
        scale == 0 && m >= 0 ==> r@ == nat_digits(m as nat),
        scale > 0 ==> r@.contains('.'),
{
    Decimal::from_i128_with_scale(m, scale).to_string()
}

/// The text of the decimal with the given parts, as `Decimal`'s `Display` writes it with
/// a precision of `prec` places (as `{:.prec$}` does).
#[verifier::external_body]
fn rd_display_prec(m: i128, scale: u32, prec: u32) -> (r: String)
    requires
        parts_valid(m as int, scale as int),
    ensures
        r@ == decimal_display_prec(m, scale, prec),
{
    format!("{:.*}", prec as usize, Decimal::from_i128_with_scale(m, scale))
}

// ---------------------------------------------------------------------------
// The decimal type
// ---------------------------------------------------------------------------

/// An exact decimal number `mantissa / 10^scale`.
#[derive(Clone, Copy, Debug)]
pub struct Dec {
    pub(crate) mantissa: i128,
    pub(crate) scale: u32,
}

impl Dec {
    #[verifier::type_invariant]
    pub(crate) closed spec fn inv(self) -> bool {
        parts_valid(self.mantissa as int, self.scale as int)
    }

    /// The mantissa.
    pub closed spec fn m(self) -> int {
        self.mantissa as int
    }

    /// The number of decimal places.
    pub closed spec fn s(self) -> nat {
        self.scale as nat
    }

    /// A decimal's parts are within their limits.
    pub(crate) proof fn lemma_bounds(d: Dec)
        requires
            d.inv(),
        ensures
            parts_valid(d.m(), d.s() as int),
    {
    }

    /// The mantissa of the value written at the scale `t` (at least its own).
    pub open spec fn at(self, t: nat) -> int {
        at_scale(self.m(), self.s(), t)
    }

    /// The decimal with the given parts.
    pub closed spec fn lit(m: int, s: nat) -> Dec {
        Dec { mantissa: m as i128, scale: s as u32 }
    }

    pub broadcast proof fn lemma_lit(m: int, s: nat)
        requires
            parts_valid(m, s as int),
        ensures
            #[trigger] Dec::lit(m, s).m() == m,
    {
    }

    pub broadcast proof fn lemma_lit_scale(m: int, s: nat)
        requires
            parts_valid(m, s as int),
        ensures
            #[trigger] Dec::lit(m, s).s() == s,
    {
    }

    /// A value is not below zero exactly when its mantissa is not negative.
    pub proof fn lemma_nonneg(d: Dec)
        ensures
            d.ge_spec(Dec::lit(0, 0)) <==> d.m() >= 0,
            d.gt_spec(Dec::lit(0, 0)) <==> d.m() > 0,
    {
        lemma_pow10_pos(d.s());
        assert(Dec::lit(0, 0).m() == 0 && Dec::lit(0, 0).s() == 0);
        assert(pow10(0) == 1);
        assert(0 * pow10(d.s()) == 0);
        assert(d.m() * pow10(0) == d.m());
    }

    /// Two decimals of one scale compare as their mantissas.
    pub proof fn lemma_order_same_scale(a: Dec, b: Dec)
        requires
            a.s() == b.s(),
        ensures
            a.lt_spec(b) <==> a.m() < b.m(),
            a.eq_spec(b) <==> a.m() == b.m(),
    {
        lemma_pow10_pos(a.s());
        assert(a.m() * pow10(a.s()) < b.m() * pow10(a.s()) <==> a.m() < b.m()) by (nonlinear_arith)
            requires
                pow10(a.s()) > 0,
        ;
        assert(a.m() * pow10(a.s()) == b.m() * pow10(a.s()) <==> a.m() == b.m()) by (nonlinear_arith)
            requires
                pow10(a.s()) > 0,
        ;
    }

    pub proof fn lemma_parts(d: Dec)
        ensures
            d == Dec::lit(d.m(), d.s()),
    {
    }

    pub proof fn lemma_eq(a: Dec, b: Dec)
        requires
            a.m() == b.m(),
            a.s() == b.s(),
        ensures
            a == b,
    {
    }

    /// A value not below another is at least it.
    pub proof fn lemma_not_lt(a: Dec, b: Dec)
        ensures
            !a.lt_spec(b) <==> b.le_spec(a),
    {
    }

    /// `<=` on decimals is transitive.
    pub proof fn lemma_le_trans(a: Dec, b: Dec, c: Dec)
        requires
            a.le_spec(b),
            b.le_spec(c),
        ensures
            a.le_spec(c),
    {
        lemma_pow10_pos(a.s());
        lemma_pow10_pos(b.s());
        lemma_pow10_pos(c.s());
        let (m1, m2, m3) = (a.m(), b.m(), c.m());
        let (p1, p2, p3) = (pow10(a.s()), pow10(b.s()), pow10(c.s()));
        assert(m1 * p2 <= m2 * p1);
        assert(m2 * p3 <= m3 * p2);
        assert(m1 * p2 * p3 <= m2 * p1 * p3) by (nonlinear_arith)
            requires
                m1 * p2 <= m2 * p1,
                p3 > 0,
        ;
        assert(m2 * p3 * p1 <= m3 * p2 * p1) by (nonlinear_arith)
            requires
                m2 * p3 <= m3 * p2,
                p1 > 0,
        ;
        assert(m1 * p3 <= m3 * p1) by (nonlinear_arith)
            requires
                m1 * p2 * p3 <= m2 * p1 * p3,
                m2 * p3 * p1 <= m3 * p2 * p1,
                p2 > 0,
        ;
    }

    /// A value below another is below all that are at least that other.
    pub proof fn lemma_lt_le_trans(a: Dec, b: Dec, c: Dec)
        requires
            a.lt_spec(b),
            b.le_spec(c),
        ensures
            a.lt_spec(c),
    {
        if b.lt_spec(c) {
            Dec::lemma_lt_trans(a, b, c);
        } else {
            lemma_pow10_pos(a.s());
            lemma_pow10_pos(b.s());
            lemma_pow10_pos(c.s());
            let (m1, m2, m3) = (a.m(), b.m(), c.m());
            let (p1, p2, p3) = (pow10(a.s()), pow10(b.s()), pow10(c.s()));
            assert(m1 * p2 * p3 < m2 * p1 * p3) by (nonlinear_arith)
                requires
                    m1 * p2 < m2 * p1,
                    p3 > 0,
            ;
            assert(m2 * p3 * p1 == m3 * p2 * p1) by (nonlinear_arith)
                requires
                    m2 * p3 == m3 * p2,
            ;
            assert(m1 * p3 < m3 * p1) by (nonlinear_arith)
                requires
                    m1 * p2 * p3 < m2 * p1 * p3,
                    m2 * p3 * p1 == m3 * p2 * p1,
                    p2 > 0,
            ;
        }
    }

    /// `<` on decimals is transitive.
    pub proof fn lemma_lt_trans(a: Dec, b: Dec, c: Dec)
        requires
            a.lt_spec(b),
            b.lt_spec(c),
        ensures
            a.lt_spec(c),
    {
        lemma_rat_lt_trans(a.m(), a.s(), b.m(), b.s(), c.m(), c.s());
    }

    /// The decimal with the given mantissa and scale.
    pub fn new(mantissa: i128, scale: u32) -> (r: Dec)
        requires
            parts_valid(mantissa as int, scale as int),
        ensures
            r == Dec::lit(mantissa as int, scale as nat),
    {
        Dec { mantissa, scale }
    }

    /// The decimal with the given mantissa and scale, if a decimal can hold them.
    pub fn try_new(mantissa: i128, scale: u32) -> (r: Option<Dec>)
        ensures
            r is Some <==> parts_valid(mantissa as int, scale as int),
            r matches Some(d) ==> d == Dec::lit(mantissa as int, scale as nat),
    {
        if -MAX_MANTISSA <= mantissa && mantissa <= MAX_MANTISSA && scale <= MAX_SCALE {
            Some(Dec { mantissa, scale })
        } else {
            None
        }
    }

    /// The decimal holding the integer `n`.
    pub fn from_int(n: i64) -> (r: Dec)
        ensures
            r == Dec::lit(n as int, 0),
            r.m() == n,
            r.s() == 0,
    {
        Dec { mantissa: n as i128, scale: 0 }
    }

    /// The decimal holding the count `n`.
    pub fn from_u64(n: u64) -> (r: Dec)
        ensures
            r == Dec::lit(n as int, 0),
            r.m() == n,
            r.s() == 0,
    {
        Dec { mantissa: n as i128, scale: 0 }
    }

    pub fn zero() -> (r: Dec)
        ensures
            r == Dec::lit(0, 0),
            r.m() == 0,
    {
        Dec { mantissa: 0, scale: 0 }
    }

    pub fn one() -> (r: Dec)
        ensures
            r == Dec::lit(1, 0),
            r.m() == 1,
            r.s() == 0,
    {
        Dec { mantissa: 1, scale: 0 }
    }

    /// The mantissa.
    pub fn mantissa(&self) -> (r: i128)
        ensures
            r == self.m(),
            parts_valid(r as int, self.s() as int),
    {
        proof {
            use_type_invariant(self);
        }
        self.mantissa
    }

    /// The number of decimal places.
    pub fn scale(&self) -> (r: u32)
        ensures
            r == self.s(),
            r <= MAX_SCALE,
    {
        proof {
            use_type_invariant(self);
        }
        self.scale
    }

    /// Whether the value is zero.
    pub open spec fn is_zero_spec(self) -> bool {
        self.m() == 0
    }

    pub fn is_zero(&self) -> (r: bool)
        ensures
            r == self.is_zero_spec(),
    {
        self.mantissa == 0
    }

    /// `self < other`, comparing values.
    pub open spec fn lt_spec(self, other: Dec) -> bool {
        rat_lt(self.m(), self.s(), other.m(), other.s())
    }

    /// `self == other`, comparing values.
    pub open spec fn eq_spec(self, other: Dec) -> bool {
        rat_eq(self.m(), self.s(), other.m(), other.s())
    }

    pub open spec fn le_spec(self, other: Dec) -> bool {
        self.lt_spec(other) || self.eq_spec(other)
    }

    pub open spec fn gt_spec(self, other: Dec) -> bool {
        other.lt_spec(self)
    }

    pub open spec fn ge_spec(self, other: Dec) -> bool {
        other.le_spec(self)
    }

    pub fn lt(&self, other: &Dec) -> (r: bool)
        ensures
            r == self.lt_spec(*other),
    {
        proof {
            use_type_invariant(self);
            use_type_invariant(other);
        }
        rd_lt(self.mantissa, self.scale, other.mantissa, other.scale)
    }

    pub fn eq(&self, other: &Dec) -> (r: bool)
        ensures
            r == self.eq_spec(*other),
    {
        proof {
            use_type_invariant(self);
            use_type_invariant(other);
        }
        rd_eq(self.mantissa, self.scale, other.mantissa, other.scale)
    }

    pub fn le(&self, other: &Dec) -> (r: bool)
        ensures
            r == self.le_spec(*other),
    {
        self.lt(other) || self.eq(other)
    }

    pub fn gt(&self, other: &Dec) -> (r: bool)
        ensures
            r == self.gt_spec(*other),
    {
        other.lt(self)
    }

    pub fn ge(&self, other: &Dec) -> (r: bool)
        ensures
            r == self.ge_spec(*other),
    {
        other.le(self)
    }

    /// `-self`.
    pub closed spec fn neg_spec(self) -> Dec {
        Dec { mantissa: (-self.mantissa) as i128, scale: self.scale }
    }

    pub proof fn lemma_neg(d: Dec)
        requires
            parts_valid(d.m(), d.s() as int),
        ensures
            d.neg_spec().m() == -d.m(),
            d.neg_spec().s() == d.s(),
    {
    }

    pub fn neg(&self) -> (r: Dec)
        ensures
            r == self.neg_spec(),
    {
        proof {
            use_type_invariant(self);
        }
        Dec { mantissa: -self.mantissa, scale: self.scale }
    }

    /// `|self|`.
    pub open spec fn abs_spec(self) -> Dec {
        if self.m() < 0 {
            self.neg_spec()
        } else {
            self
        }
    }

    pub fn abs(&self) -> (r: Dec)
        ensures
            r == self.abs_spec(),
    {
        if self.mantissa < 0 {
            self.neg()
        } else {
            *self
        }
    }

    /// The smaller of the two values (the first on a tie).
    pub open spec fn min_spec(self, other: Dec) -> Dec {
        if other.lt_spec(self) {
            other
        } else {
            self
        }
    }

    /// The larger of the two values (the second on a tie, as `Ord::max` picks).
    pub open spec fn max_spec(self, other: Dec) -> Dec {
        if other.lt_spec(self) {
            self
        } else {
            other
        }
    }

    pub fn min(&self, other: &Dec) -> (r: Dec)
        ensures
            r == self.min_spec(*other),
    {
        if other.lt(self) {
            *other
        } else {
            *self
        }
    }

    pub fn max(&self, other: &Dec) -> (r: Dec)
        ensures
            r == self.max_spec(*other),
    {
        if other.lt(self) {
            *self
        } else {
            *other
        }
    }

    /// What `rust_decimal` gives back for `self + other`, `None` on overflow.
    pub closed spec fn add_spec(self, other: Dec) -> Option<Dec> {
        match decimal_checked_add(self.mantissa, self.scale, other.mantissa, other.scale) {
            Some(p) => Some(Dec { mantissa: p.0, scale: p.1 }),
            None => None,
        }
    }

    /// What `rust_decimal` gives back for `self - other`, `None` on overflow.
    pub closed spec fn sub_spec(self, other: Dec) -> Option<Dec> {
        match decimal_checked_sub(self.mantissa, self.scale, other.mantissa, other.scale) {
            Some(p) => Some(Dec { mantissa: p.0, scale: p.1 }),
            None => None,
        }
    }

    /// What `rust_decimal` gives back for `self * other`, `None` on overflow.
    pub closed spec fn mul_spec(self, other: Dec) -> Option<Dec> {
        match decimal_checked_mul(self.mantissa, self.scale, other.mantissa, other.scale) {
            Some(p) => Some(Dec { mantissa: p.0, scale: p.1 }),
            None => None,
        }
    }

    /// What `rust_decimal` gives back for `self / other`, `None` on a zero divisor or overflow.
    pub closed spec fn div_spec(self, other: Dec) -> Option<Dec> {
        match decimal_checked_div(self.mantissa, self.scale, other.mantissa, other.scale) {
            Some(p) => Some(Dec { mantissa: p.0, scale: p.1 }),
            None => None,
        }
    }

    /// What `rust_decimal` gives back for `self.round_dp(dp)`.
    pub closed spec fn round_dp_spec(self, dp: u32) -> Dec {
        let p = decimal_round_dp(self.mantissa, self.scale, dp);
        Dec { mantissa: p.0, scale: p.1 }
    }

    /// The text `rust_decimal` writes for the value.
    pub closed spec fn display_spec(self) -> Seq<char> {
        decimal_display(self.mantissa, self.scale)
    }

    pub fn add(&self, other: &Dec) -> (r: Result<Dec, FinError>)
        ensures
            r == lift(self.add_spec(*other)),
            self.s() == other.s() && parts_valid(self.m() + other.m(), self.s() as int) ==> r
                == Ok::<Dec, FinError>(Dec::lit(self.m() + other.m(), self.s())),
            self.m() >= 0 && other.m() >= 0 ==> (r matches Ok(p) ==> p.m() >= 0),
            self.m() > 0 && other.m() >= 0 ==> (r matches Ok(p) ==> p.m() > 0),
            aligned_fits(self.m(), self.s(), other.m(), other.s(), false) ==> (r matches Ok(p) && p.s()
                <= max_nat(self.s(), other.s()) && p.at(max_nat(self.s(), other.s())) == self.at(
                max_nat(self.s(), other.s()),
            ) + other.at(max_nat(self.s(), other.s()))),
    {
        proof {
            use_type_invariant(self);
            use_type_invariant(other);
        }
        match rd_checked_add(self.mantissa, self.scale, other.mantissa, other.scale) {
            Some(p) => Ok(Dec { mantissa: p.0, scale: p.1 }),
            None => Err(FinError::ArithmeticOverflow),
        }
    }

    pub fn sub(&self, other: &Dec) -> (r: Result<Dec, FinError>)
        ensures
            r == lift(self.sub_spec(*other)),
            self.s() == other.s() && parts_valid(self.m() - other.m(), self.s() as int) ==> r
                == Ok::<Dec, FinError>(Dec::lit(self.m() - other.m(), self.s())),
            !self.lt_spec(*other) ==> (r matches Ok(p) ==> p.m() >= 0),
            aligned_fits(self.m(), self.s(), other.m(), other.s(), true) ==> (r matches Ok(p) && p.s()
                <= max_nat(self.s(), other.s()) && p.at(max_nat(self.s(), other.s())) == self.at(
                max_nat(self.s(), other.s()),
            ) - other.at(max_nat(self.s(), other.s()))),
    {
        proof {
            use_type_invariant(self);
            use_type_invariant(other);
        }
        match rd_checked_sub(self.mantissa, self.scale, other.mantissa, other.scale) {
            Some(p) => Ok(Dec { mantissa: p.0, scale: p.1 }),
            None => Err(FinError::ArithmeticOverflow),
        }
    }

    pub fn mul(&self, other: &Dec) -> (r: Result<Dec, FinError>)
        ensures
            r == lift(self.mul_spec(*other)),
            self.m() == 0 || other.m() == 0 ==> r == Ok::<Dec, FinError>(Dec::lit(0, 0)),
            self.m() >= 0 && other.m() >= 0 ==> (r matches Ok(p) ==> p.m() >= 0),
            self.m() != 0 && other.m() != 0 && parts_valid(
                self.m() * other.m(),
                (self.s() + other.s()) as int,
            ) ==> r == Ok::<Dec, FinError>(Dec::lit(self.m() * other.m(), self.s() + other.s())),
    {
        proof {
            use_type_invariant(self);
            use_type_invariant(other);
        }
        match rd_checked_mul(self.mantissa, self.scale, other.mantissa, other.scale) {
            Some(p) => Ok(Dec { mantissa: p.0, scale: p.1 }),
            None => Err(FinError::ArithmeticOverflow),
        }
    }

    /// `self / other`; callers rule out a zero divisor first, so an error is an overflow.
    pub fn div(&self, other: &Dec) -> (r: Result<Dec, FinError>)
        ensures
            r == lift(self.div_spec(*other)),
            other.m() == 0 ==> r is Err,
            self.m() == 0 && other.m() != 0 ==> r == Ok::<Dec, FinError>(Dec::lit(0, 0)),
            self.m() >= 0 && other.m() > 0 ==> (r matches Ok(p) ==> p.m() >= 0),
    {
        proof {
            use_type_invariant(self);
            use_type_invariant(other);
        }
        match rd_checked_div(self.mantissa, self.scale, other.mantissa, other.scale) {
            Some(p) => Ok(Dec { mantissa: p.0, scale: p.1 }),
            None => Err(FinError::ArithmeticOverflow),
        }
    }

    /// The integer part, rounded toward zero, without decimal places (`Decimal::trunc`).
    pub open spec fn trunc_spec(self) -> Dec {
        Dec::lit(
            if self.m() >= 0 {
                self.m() / pow10(self.s())
            } else {
                -((-self.m()) / pow10(self.s()))
            },
            0,
        )
    }

    /// The integer part, rounded toward zero, without decimal places.
    pub fn trunc(&self) -> (r: Dec)
        ensures
            r == self.trunc_spec(),
            self.m() >= 0 ==> 0 <= r.m() <= self.m(),
    {
        proof {
            use_type_invariant(self);
            lemma_pow10_pos(self.scale as nat);
        }
        let mut p: u128 = 1;
        let mut k: u32 = 0;
        while k < self.scale
            invariant
                k <= self.scale <= MAX_SCALE,
                p == pow10(k as nat),
            decreases self.scale - k,
        {
            proof {
                lemma_pow10_bound(k as nat);
            }
            p = p * 10;
            k = k + 1;
        }
        let a: u128 = if self.mantissa < 0 {
            (-self.mantissa) as u128
        } else {
            self.mantissa as u128
        };
        let q = a / p;
        proof {
            lemma_pow10_pos(self.scale as nat);
            assert(q <= a) by (nonlinear_arith)
                requires
                    q == a / p,
                    p > 0,
            ;
        }
        let qi = q as i128;
        if self.mantissa < 0 {
            Dec { mantissa: -qi, scale: 0 }
        } else {
            Dec { mantissa: qi, scale: 0 }
        }
    }

    /// The largest integer not above the value, without decimal places (`Decimal::floor`; a
    /// value without decimal places is kept as it is).
    pub open spec fn floor_spec(self) -> Dec {
        if self.s() == 0 {
            self
        } else if self.m() < 0 && (-self.m()) % pow10(self.s()) != 0 {
            Dec::lit(self.trunc_spec().m() - 1, 0)
        } else {
            self.trunc_spec()
        }
    }

    pub fn floor(&self) -> (r: Dec)
        ensures
            r == self.floor_spec(),
    {
        proof {
            use_type_invariant(self);
            lemma_pow10_pos(self.scale as nat);
        }
        if self.scale == 0 {
            return *self;
        }
        let t = self.trunc();
        if self.mantissa < 0 {
            let mut p: u128 = 1;
            let mut k: u32 = 0;
            while k < self.scale
                invariant
                    k <= self.scale <= MAX_SCALE,
                    p == pow10(k as nat),
                decreases self.scale - k,
            {
                proof {
                    lemma_pow10_bound(k as nat);
                }
                p = p * 10;
                k = k + 1;
            }
            let a: u128 = (-self.mantissa) as u128;
            if a % p != 0 {
                proof {
                    assert(pow10(self.scale as nat) == 10 * pow10((self.scale - 1) as nat));
                    lemma_pow10_pos((self.scale - 1) as nat);
                    assert(p >= 10);
                    let q = a / p;
                    assert(q + 1 <= a) by (nonlinear_arith)
                        requires
                            q == a / p,
                            p >= 10,
                            a % p != 0,
                    ;
                }
                return Dec { mantissa: t.mantissa - 1, scale: 0 };
            }
        }
        t
    }

    /// The text `rust_decimal` writes for the value with `prec` places.
    pub closed spec fn display_prec_spec(self, prec: u32) -> Seq<char> {
        decimal_display_prec(self.mantissa, self.scale, prec)
    }

    pub fn to_string_prec(&self, prec: u32) -> (r: String)
        ensures
            r@ == self.display_prec_spec(prec),
    {
        proof {
            use_type_invariant(self);
        }
        rd_display_prec(self.mantissa, self.scale, prec)
    }

    pub fn round_dp(&self, dp: u32) -> (r: Dec)
        ensures
            r == self.round_dp_spec(dp),
            r.s() == if self.s() <= dp {
                self.s()
            } else {
                dp as nat
            },
    {
        proof {
            use_type_invariant(self);
        }
        let p = rd_round_dp(self.mantissa, self.scale, dp);
        Dec { mantissa: p.0, scale: p.1 }
    }

    pub fn to_string(&self) -> (r: String)
        ensures
            r@ == self.display_spec(),
            self.s() == 0 && self.m() >= 0 ==> r@ == nat_digits(self.m() as nat),
            self.s() > 0 ==> r@.contains('.'),
    {
        proof {
            use_type_invariant(self);
        }
        rd_display(self.mantissa, self.scale)
    }
}

pub broadcast group group_dec {
    Dec::lemma_lit,
    Dec::lemma_lit_scale,
}

/// The decimal digits of `n`, as `Display` writes an unsigned integer.
pub open spec fn nat_digits(n: nat) -> Seq<char>
    decreases n,
{
    if n < 10 {
        seq![digit_char(n)]
    } else {
        nat_digits(n / 10) + seq![digit_char(n % 10)]
    }
}

pub open spec fn digit_char(d: nat) -> char {
    if d == 0 {
        '0'
    } else if d == 1 {
        '1'
    } else if d == 2 {
        '2'
    } else if d == 3 {
        '3'
    } else if d == 4 {
        '4'
    } else if d == 5 {
        '5'
    } else if d == 6 {
        '6'
    } else if d == 7 {
        '7'
    } else if d == 8 {
        '8'
    } else {
        '9'
    }
}

/// `u32`'s `to_string`: its decimal digits without leading zeros.
#[verifier::external_body]
pub(crate) fn u32_to_string(v: u32) -> (r: String)
    ensures
        r@ == nat_digits(v as nat),
{
    v.to_string()
}

/// The value `str::parse::<u32>` reads from a text, `None` when it reads none.
pub uninterp spec fn u32_from_text(s: Seq<char>) -> Option<u32>;

/// `str::parse::<u32>`: the value of a text of decimal digits (leading zeros allowed), `None`
/// past `u32::MAX`, for an empty text and for a text with a decimal point.
#[verifier::external_body]
pub(crate) fn parse_u32(s: &str) -> (r: Option<u32>)
    ensures
        r == u32_from_text(s@),
        forall|n: nat|
            #![trigger nat_digits(n)]
            s@ == nat_digits(n) ==> r == if n <= u32::MAX {
                Some(n as u32)
            } else {
                None
            },
        s@.len() == 0 ==> r is None,
        s@.contains('.') ==> r is None,
{
    s.parse::<u32>().ok()
}

/// `usize`'s `to_string`: its decimal digits without leading zeros.
#[verifier::external_body]
pub(crate) fn usize_to_string(v: usize) -> (r: String)
    ensures
        r@ == nat_digits(v as nat),
{
    v.to_string()
}

/// An arithmetic result as a library result: overflow becomes `ArithmeticOverflow`.
pub open spec fn lift(o: Option<Dec>) -> Result<Dec, FinError> {
    match o {
        Some(v) => Ok(v),
        None => Err(FinError::ArithmeticOverflow),
    }
}

// ---------------------------------------------------------------------------
// Arithmetic on possibly-undefined results, for contracts
// ---------------------------------------------------------------------------

pub open spec fn oadd(a: Option<Dec>, b: Option<Dec>) -> Option<Dec> {
    match (a, b) {
        (Some(x), Some(y)) => x.add_spec(y),
        _ => None,
    }
}

pub open spec fn osub(a: Option<Dec>, b: Option<Dec>) -> Option<Dec> {
    match (a, b) {
        (Some(x), Some(y)) => x.sub_spec(y),
        _ => None,
    }
}

pub open spec fn omul(a: Option<Dec>, b: Option<Dec>) -> Option<Dec> {
    match (a, b) {
        (Some(x), Some(y)) => x.mul_spec(y),
        _ => None,
    }
}

pub open spec fn odiv(a: Option<Dec>, b: Option<Dec>) -> Option<Dec> {
    match (a, b) {
        (Some(x), Some(y)) => x.div_spec(y),
        _ => None,
    }
}

/// Zero.
pub open spec fn dzero() -> Dec {
    Dec::lit(0, 0)
}

/// `num / den`, or zero when `den` is zero.
pub open spec fn ratio_or_zero(num: Dec, den: Dec) -> Option<Dec> {
    if den.is_zero_spec() {
        Some(dzero())
    } else {
        num.div_spec(den)
    }
}

/// `num / den`, or zero when `den` is zero.
pub fn ratio_or_zero_exec(num: &Dec, den: &Dec) -> (r: Result<Dec, FinError>)
    ensures
        r == lift(ratio_or_zero(*num, *den)),
{
    if den.is_zero() {
        Ok(Dec::zero())
    } else {
        num.div(den)
    }
}

/// The running total `((0 + s[0]) + s[1]) + ...`, as `Decimal`'s `Sum` folds; `None` once a
/// term or a partial sum is undefined.
pub open spec fn sum_opt(s: Seq<Option<Dec>>) -> Option<Dec>
    decreases s.len(),
{
    if s.len() == 0 {
        Some(dzero())
    } else {
        oadd(sum_opt(s.drop_last()), s.last())
    }
}

/// The running total of the values.
pub open spec fn sum_seq(s: Seq<Dec>) -> Option<Dec> {
    sum_opt(s.map_values(|d: Dec| Some(d)))
}

/// The sum of the values, as `Decimal`'s `Sum` folds them.
pub fn sum_vec(v: &Vec<Dec>) -> (r: Result<Dec, FinError>)
    ensures
        r == lift(sum_seq(v@)),
{
    let ghost s = v@.map_values(|d: Dec| Some(d));
    let mut acc = Dec::zero();
    let mut k: usize = 0;
    while k < v.len()
        invariant
            k <= v@.len(),
            s == v@.map_values(|d: Dec| Some(d)),
            sum_opt(s.take(k as int)) == Some(acc),
        decreases v@.len() - k,
    {
        proof {
            assert(s.take(k + 1).drop_last() =~= s.take(k as int));
        }
        acc = match acc.add(&v[k]) {
            Ok(x) => x,
            Err(e) => {
                proof {
                    lemma_sum_opt_none(s, k as int);
                    assert(s.take(v@.len() as int) =~= s);
                }
                return Err(e);
            },
        };
        k = k + 1;
    }
    proof {
        assert(s.take(v@.len() as int) =~= s);
    }
    Ok(acc)
}

/// `((base + s[0]) + s[1]) + ...`, adding in order; `None` once a term or a partial sum
/// is undefined.
pub open spec fn fold_from(base: Option<Dec>, s: Seq<Option<Dec>>) -> Option<Dec>
    decreases s.len(),
{
    if s.len() == 0 {
        base
    } else {
        oadd(fold_from(base, s.drop_last()), s.last())
    }
}

pub proof fn lemma_fold_step(base: Option<Dec>, s: Seq<Option<Dec>>, j: int)
    requires
        0 <= j < s.len(),
    ensures
        fold_from(base, s.take(j + 1)) == oadd(fold_from(base, s.take(j)), s[j]),
{
    assert(s.take(j + 1).drop_last() =~= s.take(j));
}

pub proof fn lemma_fold_full(base: Option<Dec>, s: Seq<Option<Dec>>)
    ensures
        fold_from(base, s.take(s.len() as int)) == fold_from(base, s),
{
    assert(s.take(s.len() as int) =~= s);
}

/// Once a prefix fold is undefined, so is every longer one.
pub proof fn lemma_fold_from_none(base: Option<Dec>, s: Seq<Option<Dec>>, k: int)
    requires
        0 <= k <= s.len(),
        fold_from(base, s.take(k)) is None,
    ensures
        fold_from(base, s) is None,
    decreases s.len() - k,
{
    if k < s.len() {
        assert(s.take(k + 1).drop_last() =~= s.take(k));
        lemma_fold_from_none(base, s, k + 1);
    } else {
        assert(s.take(k) =~= s);
    }
}

/// Once a prefix sum is undefined, so is every longer one.
pub proof fn lemma_sum_opt_none(s: Seq<Option<Dec>>, k: int)
    requires
        0 <= k < s.len(),
        sum_opt(s.take(k + 1)) is None,
    ensures
        sum_opt(s) is None,
    decreases s.len() - k,
{
    if k + 1 < s.len() {
        assert(s.take(k + 2).drop_last() =~= s.take(k + 1));
        lemma_sum_opt_none(s, k + 1);
    } else {
        assert(s.take(k + 1) =~= s);
    }
}

} // verus!
