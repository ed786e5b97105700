//! Exponential and natural logarithm computed with decimal arithmetic only: a Taylor
//! series after halving the argument, and Newton's method on that exponential.
use vstd::prelude::*;

use crate::dec::{dzero, group_dec, lift, oadd, Dec};
use crate::error::FinResult;

verus! {

broadcast use group_dec;

/// Most halvings (or doublings) of a range reduction. A decimal's magnitude lies between
/// 10^-28 and 2^96, so no reduction of a representable value comes near this bound.
pub const REDUCTION_CAP: u32 = 256;

/// Terms of the Taylor series after the constant one.
pub const TAYLOR_TERMS: u64 = 25;

/// Newton steps of the logarithm.
pub const NEWTON_STEPS: u32 = 20;

pub open spec fn dec_two() -> Dec {
    Dec::lit(2, 0)
}

pub open spec fn dec_one() -> Dec {
    Dec::lit(1, 0)
}

/// ln 2 to sixteen places.
pub open spec fn dec_ln2() -> Dec {
    Dec::lit(6931471805599453, 16)
}

/// Halve `r` while `|r| > 2`, at most `fuel` more times; the reduced value and the
/// number of halvings made in all.
pub open spec fn exp_reduce(r: Dec, k: nat, fuel: nat) -> Option<(Dec, nat)>
    decreases fuel,
{
    if fuel == 0 || !r.abs_spec().gt_spec(dec_two()) {
        Some((r, k))
    } else {
        match r.div_spec(dec_two()) {
            Some(h) => exp_reduce(h, k + 1, (fuel - 1) as nat),
            None => None,
        }
    }
}

/// The Taylor sum from term `n` on: `term *= red / n; sum += term` for `n` up to 25.
pub open spec fn taylor(red: Dec, n: nat, term: Dec, sum: Dec) -> Option<Dec>
    decreases 26 - n,
{
    if n > TAYLOR_TERMS {
        Some(sum)
    } else {
        match omul_div(term, red, n) {
            Some(t) => match sum.add_spec(t) {
                Some(s) => taylor(red, n + 1, t, s),
                None => None,
            },
            None => None,
        }
    }
}

/// `term * (red / n)`.
pub open spec fn omul_div(term: Dec, red: Dec, n: nat) -> Option<Dec> {
    match red.div_spec(Dec::lit(n as int, 0)) {
        Some(q) => term.mul_spec(q),
        None => None,
    }
}

/// `s` squared `k` times.
pub open spec fn square_times(s: Dec, k: nat) -> Option<Dec>
    decreases k,
{
    if k == 0 {
        Some(s)
    } else {
        match s.mul_spec(s) {
            Some(s2) => square_times(s2, (k - 1) as nat),
            None => None,
        }
    }
}

/// The exponential as computed: reduce, sum the series, square back.
pub open spec fn exp_spec(x: Dec) -> Option<Dec> {
    match exp_reduce(x, 0, REDUCTION_CAP as nat) {
        Some(p) => match taylor(p.0, 1, dec_one(), dec_one()) {
            Some(s) => square_times(s, p.1),
            None => None,
        },
        None => None,
    }
}

/// Halve `temp` while it exceeds 2, adding ln 2 to `guess` each time.
pub open spec fn ln_up(temp: Dec, guess: Dec, fuel: nat) -> Option<Dec>
    decreases fuel,
{
    if fuel == 0 || !temp.gt_spec(dec_two()) {
        Some(guess)
    } else {
        match (temp.div_spec(dec_two()), guess.add_spec(dec_ln2())) {
            (Some(t), Some(g)) => ln_up(t, g, (fuel - 1) as nat),
            _ => None,
        }
    }
}

/// Double `temp` while it is below 1, taking ln 2 from `guess` each time.
pub open spec fn ln_down(temp: Dec, guess: Dec, fuel: nat) -> Option<Dec>
    decreases fuel,
{
    if fuel == 0 || !temp.lt_spec(dec_one()) {
        Some(guess)
    } else {
        match (temp.mul_spec(dec_two()), guess.sub_spec(dec_ln2())) {
            (Some(t), Some(g)) => ln_down(t, g, (fuel - 1) as nat),
            _ => None,
        }
    }
}

/// Newton steps `guess := guess - 1 + x / exp(guess)` from step `n` to the last, stopping
/// early when the exponential is zero.
pub open spec fn newton(x: Dec, guess: Dec, n: nat) -> Option<Dec>
    decreases 20 - n,
{
    if n >= NEWTON_STEPS {
        Some(guess)
    } else {
        match exp_spec(guess) {
            None => None,
            Some(ey) => if ey.is_zero_spec() {
                Some(guess)
            } else {
                match oadd(guess.sub_spec(dec_one()), x.div_spec(ey)) {
                    Some(g) => newton(x, g, n + 1),
                    None => None,
                }
            },
        }
    }
}

/// The natural logarithm as computed: zero for `x <= 0` and for `x == 1`; otherwise a
/// first guess from powers of two refined by Newton's method.
pub open spec fn ln_spec(x: Dec) -> Option<Dec> {
    if x.le_spec(dzero()) || x.eq_spec(dec_one()) {
        Some(dzero())
    } else {
        let g0 = if x.gt_spec(dec_one()) {
            ln_up(x, dzero(), REDUCTION_CAP as nat)
        } else {
            ln_down(x, dzero(), REDUCTION_CAP as nat)
        };
        match g0 {
            Some(g) => newton(x, g, 0),
            None => None,
        }
    }
}

/// exp(x) by a 25-term Taylor series with range reduction for `|x| > 2`.
pub fn exp_decimal(x: Dec) -> (r: FinResult<Dec>)
    ensures
        r == lift(exp_spec(x)),
{
    let two = Dec::new(2, 0);
    let mut k: u32 = 0;
    let mut reduced = x;
    while k < REDUCTION_CAP && reduced.abs().gt(&two)
        invariant
            k <= REDUCTION_CAP,
            two == dec_two(),
            exp_reduce(x, 0, REDUCTION_CAP as nat) == exp_reduce(
                reduced,
                k as nat,
                (REDUCTION_CAP - k) as nat,
            ),
        decreases REDUCTION_CAP - k,
    {
        reduced = reduced.div(&two)?;
        k = k + 1;
    }
    let mut sum = Dec::one();
    let mut term = Dec::one();
    let mut n: u64 = 1;
    while n <= TAYLOR_TERMS
        invariant
            1 <= n <= TAYLOR_TERMS + 1,
            exp_reduce(x, 0, REDUCTION_CAP as nat) == Some((reduced, k as nat)),
            taylor(reduced, 1, dec_one(), dec_one()) == taylor(reduced, n as nat, term, sum),
        decreases TAYLOR_TERMS + 1 - n,
    {
        term = term.mul(&reduced.div(&Dec::from_u64(n))?)?;
        sum = sum.add(&term)?;
        n = n + 1;
    }
    let ghost s0 = sum;
    let mut j: u32 = 0;
    while j < k
        invariant
            j <= k,
            exp_reduce(x, 0, REDUCTION_CAP as nat) == Some((reduced, k as nat)),
            taylor(reduced, 1, dec_one(), dec_one()) == Some(s0),
            square_times(s0, k as nat) == square_times(sum, (k - j) as nat),
        decreases k - j,
    {
        sum = sum.mul(&sum)?;
        j = j + 1;
    }
    Ok(sum)
}

/// ln(x) by Newton's method on `exp_decimal`; zero for `x <= 0` and for `x == 1`.
pub fn ln_decimal(x: Dec) -> (r: FinResult<Dec>)
    ensures
        r == lift(ln_spec(x)),
{
    let zero = Dec::zero();
    let one = Dec::one();
    if x.le(&zero) || x.eq(&one) {
        return Ok(Dec::zero());
    }
    let two = Dec::new(2, 0);
    let ln2 = Dec::new(6931471805599453, 16);
    let mut guess = Dec::zero();
    let mut temp = x;
    let mut k: u32 = 0;
    let ghost g0: Option<Dec>;
    if temp.gt(&one) {
        proof {
            g0 = ln_up(x, dzero(), REDUCTION_CAP as nat);
        }
        while k < REDUCTION_CAP && temp.gt(&two)
            invariant
                k <= REDUCTION_CAP,
                two == dec_two(),
                ln2 == dec_ln2(),
                g0 == ln_up(x, dzero(), REDUCTION_CAP as nat),
                ln_spec(x) == match g0 {
                    Some(g) => newton(x, g, 0),
                    None => None,
                },
                g0 == ln_up(temp, guess, (REDUCTION_CAP - k) as nat),
            decreases REDUCTION_CAP - k,
        {
            temp = temp.div(&two)?;
            guess = guess.add(&ln2)?;
            k = k + 1;
        }
    } else {
        proof {
            g0 = ln_down(x, dzero(), REDUCTION_CAP as nat);
        }
        while k < REDUCTION_CAP && temp.lt(&one)
            invariant
                k <= REDUCTION_CAP,
                two == dec_two(),
                one == dec_one(),
                ln2 == dec_ln2(),
                g0 == ln_down(x, dzero(), REDUCTION_CAP as nat),
                ln_spec(x) == match g0 {
                    Some(g) => newton(x, g, 0),
                    None => None,
                },
                g0 == ln_down(temp, guess, (REDUCTION_CAP - k) as nat),
            decreases REDUCTION_CAP - k,
        {
            temp = temp.mul(&two)?;
            guess = guess.sub(&ln2)?;
            k = k + 1;
        }
    }
    let ghost start = guess;
    let mut n: u32 = 0;
    while n < NEWTON_STEPS
        invariant
            n <= NEWTON_STEPS,
            ln_spec(x) == newton(x, start, 0),
            newton(x, start, 0) == newton(x, guess, n as nat),
            one == Dec::lit(1, 0),
        decreases NEWTON_STEPS - n,
    {
        let ey = exp_decimal(guess)?;
        if ey.is_zero() {
            return Ok(guess);
        }
        guess = guess.sub(&one)?.add(&x.div(&ey)?)?;
        n = n + 1;
    }
    Ok(guess)
}

} // verus!
