//! Commitment pacing for a fund-of-funds programme: projects drawdowns, distributions and
//! NAV of existing funds and of a yearly new commitment, against a target allocation.
use vstd::prelude::*;

use crate::dec::{
    dzero, fold_from, group_dec, lemma_fold_from_none, lemma_fold_full, lemma_fold_step,
    lemma_sum_opt_none, lift, nat_digits, oadd, odiv, omul, osub, sum_opt, usize_to_string, Dec,
};
use crate::error::{err_view, insufficient_data, invalid_input, ErrView, FinError, FinResult};

verus! {

broadcast use group_dec;

/// An existing fund in the portfolio.
pub struct ExistingFund {
    pub vintage: u32,
    pub commitment: Dec,
    /// Remaining unfunded commitment.
    pub unfunded: Dec,
    /// Current net asset value.
    pub nav: Dec,
    /// Expected annual drawdown rate on unfunded.
    pub drawdown_rate: Dec,
    /// Expected annual distribution rate on NAV.
    pub distribution_rate: Dec,
}

pub struct CommitmentPacingInput {
    pub existing_funds: Vec<ExistingFund>,
    /// Target allocation to private equity (e.g. 0.15).
    pub target_allocation_pct: Dec,
    /// Total portfolio value (all asset classes).
    pub total_portfolio_value: Dec,
    /// Number of years to project.
    pub planning_years: u32,
    /// New commitment made each year.
    pub new_commitment_per_year: Dec,
    /// Fraction of a new commitment drawn in each year of its life.
    pub drawdown_curve: Vec<Dec>,
    /// Fraction of a new commitment's NAV distributed in each year of its life.
    pub distribution_curve: Vec<Dec>,
}

/// One projected year.
pub struct PacingYearProjection {
    /// Projection year, from 1.
    pub year: u32,
    pub new_commitments: Dec,
    pub projected_drawdowns: Dec,
    pub projected_distributions: Dec,
    pub projected_nav: Dec,
    /// projected NAV / total portfolio value
    pub allocation_pct: Dec,
    /// (NAV + unfunded) / target NAV
    pub over_commitment_ratio: Dec,
    /// distributions - drawdowns
    pub net_cash_flow: Dec,
}

pub struct CommitmentPacingOutput {
    pub yearly_projections: Vec<PacingYearProjection>,
    /// Commitment per year that would close the NAV gap, over-committed by 1.4.
    pub recommended_pace: Dec,
    /// First year whose allocation reaches the target (the horizon if none does).
    pub years_to_target: u32,
    /// Largest over-commitment ratio of the projection (zero at least).
    pub peak_over_commitment: Dec,
}

// ---------------------------------------------------------------------------
// Specification: validation
// ---------------------------------------------------------------------------

pub open spec fn out_of_unit(d: Dec) -> bool {
    d.lt_spec(dzero()) || Dec::lit(1, 0).lt_spec(d)
}

/// Index of the first curve value outside [0, 1].
pub open spec fn first_out_of_unit(s: Seq<Dec>) -> Option<nat>
    decreases s.len(),
{
    if s.len() == 0 {
        None
    } else {
        match first_out_of_unit(s.drop_last()) {
            Some(k) => Some(k),
            None => if out_of_unit(s.last()) {
                Some((s.len() - 1) as nat)
            } else {
                None
            },
        }
    }
}

pub open spec fn fund_error(f: ExistingFund) -> Option<ErrView> {
    if f.commitment.lt_spec(dzero()) {
        Some(invalid_input("existing_funds.commitment"@, "Fund commitment cannot be negative."@))
    } else if f.unfunded.lt_spec(dzero()) {
        Some(invalid_input("existing_funds.unfunded"@, "Unfunded commitment cannot be negative."@))
    } else if f.nav.lt_spec(dzero()) {
        Some(invalid_input("existing_funds.nav"@, "NAV cannot be negative."@))
    } else {
        None
    }
}

/// The error of the first fund that raises one.
pub open spec fn funds_error(fs: Seq<ExistingFund>) -> Option<ErrView>
    decreases fs.len(),
{
    if fs.len() == 0 {
        None
    } else {
        match funds_error(fs.drop_last()) {
            Some(e) => Some(e),
            None => fund_error(fs.last()),
        }
    }
}

pub open spec fn indexed_field(name: Seq<char>, k: nat) -> Seq<char> {
    name + "["@ + nat_digits(k) + "]"@
}

/// The error validation raises, if any, in the order the checks run.
pub open spec fn pacing_validation(i: CommitmentPacingInput) -> Option<ErrView> {
    let one = Dec::lit(1, 0);
    if i.total_portfolio_value.le_spec(dzero()) {
        Some(invalid_input("total_portfolio_value"@, "Total portfolio value must be positive."@))
    } else if i.target_allocation_pct.le_spec(dzero()) || one.lt_spec(i.target_allocation_pct) {
        Some(invalid_input("target_allocation_pct"@, "Target allocation must be in (0, 1]."@))
    } else if i.planning_years == 0 {
        Some(invalid_input("planning_years"@, "Planning years must be at least 1."@))
    } else if i.new_commitment_per_year.lt_spec(dzero()) {
        Some(
            invalid_input(
                "new_commitment_per_year"@,
                "New commitment per year cannot be negative."@,
            ),
        )
    } else if i.drawdown_curve@.len() == 0 {
        Some(insufficient_data("Drawdown curve must have at least one entry."@))
    } else if i.distribution_curve@.len() == 0 {
        Some(insufficient_data("Distribution curve must have at least one entry."@))
    } else if first_out_of_unit(i.drawdown_curve@) is Some {
        Some(
            invalid_input(
                indexed_field("drawdown_curve"@, first_out_of_unit(i.drawdown_curve@).unwrap()),
                "Drawdown curve values must be in [0, 1]."@,
            ),
        )
    } else if first_out_of_unit(i.distribution_curve@) is Some {
        Some(
            invalid_input(
                indexed_field(
                    "distribution_curve"@,
                    first_out_of_unit(i.distribution_curve@).unwrap(),
                ),
                "Distribution curve values must be in [0, 1]."@,
            ),
        )
    } else {
        funds_error(i.existing_funds@)
    }
}

// ---------------------------------------------------------------------------
// Specification: projection
// ---------------------------------------------------------------------------

pub open spec fn min_nat(a: nat, b: nat) -> nat {
    if a <= b {
        a
    } else {
        b
    }
}

/// Each existing fund's own (drawdown rate, distribution rate), in input order.
pub open spec fn rates_of(fs: Seq<ExistingFund>) -> Seq<(Dec, Dec)> {
    fs.map_values(|f: ExistingFund| (f.drawdown_rate, f.distribution_rate))
}

/// One year of an existing fund: the drawdown `min(unfunded * rate, unfunded)` moves from
/// unfunded to NAV, then a fraction of NAV is distributed. The new unfunded and NAV, the
/// drawdown and the distribution.
pub open spec fn fund_step(u: Dec, nav: Dec, rdd: Dec, rdist: Dec) -> Option<(Dec, Dec, Dec, Dec)> {
    match u.mul_spec(rdd) {
        Some(d0) => {
            let dd = d0.min_spec(u);
            match (u.sub_spec(dd), nav.add_spec(dd)) {
                (Some(u2), Some(n1)) => match n1.mul_spec(rdist) {
                    Some(dist) => match n1.sub_spec(dist) {
                        Some(n2) => Some((u2, n2, dd, dist)),
                        None => None,
                    },
                    None => None,
                },
                _ => None,
            }
        },
        None => None,
    }
}

/// One year of all existing funds, each at its own rates (`rates[k]` for the fund in
/// state `st[k]`): their new states and the drawdown and distribution totals.
pub open spec fn funds_step(st: Seq<(Dec, Dec)>, rates: Seq<(Dec, Dec)>) -> Option<(Seq<(Dec, Dec)>, Dec, Dec)>
    decreases st.len(),
{
    if st.len() == 0 {
        Some((Seq::empty(), dzero(), dzero()))
    } else {
        let r = rates[st.len() - 1];
        match funds_step(st.drop_last(), rates) {
            Some(prev) => match fund_step(st.last().0, st.last().1, r.0, r.1) {
                Some(f) => match (prev.1.add_spec(f.2), prev.2.add_spec(f.3)) {
                    (Some(a), Some(b)) => Some((prev.0.push((f.0, f.1)), a, b)),
                    _ => None,
                },
                None => None,
            },
            None => None,
        }
    }
}

/// Sum of the first `k` curve values (all of them when the curve is shorter).
pub open spec fn cumsum(curve: Seq<Dec>, k: nat) -> Option<Dec> {
    sum_opt(Seq::new(min_nat(k, curve.len()), |b: int| Some(curve[b])))
}

/// First commitment year whose age is below `len` in projection year `yr`.
pub open spec fn first_live(yr: nat, len: nat) -> nat {
    if yr + 1 > len {
        (yr + 1 - len) as nat
    } else {
        0
    }
}

/// Drawdowns of the new commitments still on the drawdown curve in year `yr`, oldest first.
pub open spec fn new_dd_terms(i: CommitmentPacingInput, yr: nat) -> Seq<Option<Dec>> {
    let lo = first_live(yr, i.drawdown_curve@.len());
    Seq::new(
        (yr + 1 - lo) as nat,
        |j: int| i.new_commitment_per_year.mul_spec(i.drawdown_curve@[yr - (lo + j)]),
    )
}

/// Distribution of a commitment of age `age`: cumulative drawdowns times the commitment
/// times the distribution rate of that age.
pub open spec fn dist_term(i: CommitmentPacingInput, age: nat) -> Option<Dec> {
    omul(
        omul(cumsum(i.drawdown_curve@, age + 1), Some(i.new_commitment_per_year)),
        Some(i.distribution_curve@[age as int]),
    )
}

/// Distributions of the new commitments still on the distribution curve, oldest first.
pub open spec fn new_dist_terms(i: CommitmentPacingInput, yr: nat) -> Seq<Option<Dec>> {
    let lo = first_live(yr, i.distribution_curve@.len());
    Seq::new((yr + 1 - lo) as nat, |j: int| dist_term(i, (yr - (lo + j)) as nat))
}

/// Cumulative distributions of a commitment of age `age`.
pub open spec fn cum_dist(i: CommitmentPacingInput, age: nat) -> Option<Dec> {
    sum_opt(
        Seq::new(
            min_nat(age + 1, i.distribution_curve@.len()),
            |a: int| dist_term(i, a as nat),
        ),
    )
}

/// NAV of a commitment of age `age`: cumulative drawdowns less cumulative distributions,
/// floored at zero.
pub open spec fn nav_term(i: CommitmentPacingInput, age: nat) -> Option<Dec> {
    match (omul(cumsum(i.drawdown_curve@, age + 1), Some(i.new_commitment_per_year)), cum_dist(i, age)) {
        (Some(x), Some(y)) => if x.gt_spec(y) {
            x.sub_spec(y)
        } else {
            Some(dzero())
        },
        _ => None,
    }
}

/// Unfunded part of a commitment of age `age`: the commitment times the undrawn fraction,
/// floored at zero.
pub open spec fn unf_term(i: CommitmentPacingInput, age: nat) -> Option<Dec> {
    match cumsum(i.drawdown_curve@, age + 1) {
        Some(drawn) => match Dec::lit(1, 0).sub_spec(drawn) {
            Some(rem) => if rem.gt_spec(dzero()) {
                i.new_commitment_per_year.mul_spec(rem)
            } else {
                Some(dzero())
            },
            None => None,
        },
        None => None,
    }
}

pub open spec fn navs(st: Seq<(Dec, Dec)>) -> Seq<Option<Dec>> {
    st.map_values(|p: (Dec, Dec)| Some(p.1))
}

pub open spec fn unfundeds(st: Seq<(Dec, Dec)>) -> Seq<Option<Dec>> {
    st.map_values(|p: (Dec, Dec)| Some(p.0))
}

pub open spec fn new_navs(i: CommitmentPacingInput, yr: nat) -> Seq<Option<Dec>> {
    Seq::new(yr + 1, |cy: int| nav_term(i, (yr - cy) as nat))
}

pub open spec fn new_unfs(i: CommitmentPacingInput, yr: nat) -> Seq<Option<Dec>> {
    Seq::new(yr + 1, |cy: int| unf_term(i, (yr - cy) as nat))
}

/// The year `yr` (from 0) of the projection, from the existing funds' states: their new
/// states and the year's figures.
pub open spec fn year_spec(i: CommitmentPacingInput, st: Seq<(Dec, Dec)>, yr: nat, target_nav: Dec) -> Option<(Seq<(Dec, Dec)>, PacingYearProjection)> {
    match funds_step(st, rates_of(i.existing_funds@)) {
        Some(fs) => {
            let ns = fs.0;
            let tdd = fold_from(Some(fs.1), new_dd_terms(i, yr));
            let tdist = fold_from(Some(fs.2), new_dist_terms(i, yr));
            let pnav = oadd(sum_opt(navs(ns)), sum_opt(new_navs(i, yr)));
            let alloc = if i.total_portfolio_value.is_zero_spec() {
                Some(dzero())
            } else {
                odiv(pnav, Some(i.total_portfolio_value))
            };
            let tun = oadd(sum_opt(unfundeds(ns)), sum_opt(new_unfs(i, yr)));
            let tc = oadd(pnav, tun);
            let oc = if target_nav.is_zero_spec() {
                Some(dzero())
            } else {
                odiv(tc, Some(target_nav))
            };
            let net = osub(tdist, tdd);
            if tdd is Some && tdist is Some && pnav is Some && alloc is Some && tun is Some && tc
                is Some && oc is Some && net is Some {
                Some(
                    (
                        ns,
                        PacingYearProjection {
                            year: (yr + 1) as u32,
                            new_commitments: i.new_commitment_per_year,
                            projected_drawdowns: tdd.unwrap(),
                            projected_distributions: tdist.unwrap(),
                            projected_nav: pnav.unwrap(),
                            allocation_pct: alloc.unwrap(),
                            over_commitment_ratio: oc.unwrap(),
                            net_cash_flow: net.unwrap(),
                        },
                    ),
                )
            } else {
                None
            }
        },
        None => None,
    }
}

pub open spec fn initial_states(i: CommitmentPacingInput) -> Seq<(Dec, Dec)> {
    i.existing_funds@.map_values(|f: ExistingFund| (f.unfunded, f.nav))
}

/// The first `k` years of the projection and the funds' states after them.
pub open spec fn run(i: CommitmentPacingInput, target_nav: Dec, k: nat) -> Option<(Seq<(Dec, Dec)>, Seq<PacingYearProjection>)>
    decreases k,
{
    if k == 0 {
        Some((initial_states(i), Seq::empty()))
    } else {
        match run(i, target_nav, (k - 1) as nat) {
            Some(prev) => match year_spec(i, prev.0, (k - 1) as nat, target_nav) {
                Some(y) => Some((y.0, prev.1.push(y.1))),
                None => None,
            },
            None => None,
        }
    }
}

/// The largest over-commitment ratio, starting from zero.
pub open spec fn peak_of(ps: Seq<PacingYearProjection>) -> Dec
    decreases ps.len(),
{
    if ps.len() == 0 {
        dzero()
    } else {
        let p = peak_of(ps.drop_last());
        if ps.last().over_commitment_ratio.gt_spec(p) {
            ps.last().over_commitment_ratio
        } else {
            p
        }
    }
}

/// The year number of the first projection whose allocation reaches the target.
pub open spec fn first_reach(ps: Seq<PacingYearProjection>, target: Dec) -> Option<u32>
    decreases ps.len(),
{
    if ps.len() == 0 {
        None
    } else {
        match first_reach(ps.drop_last(), target) {
            Some(y) => Some(y),
            None => if ps.last().allocation_pct.ge_spec(target) {
                Some(ps.last().year)
            } else {
                None
            },
        }
    }
}

pub open spec fn fund_navs(fs: Seq<ExistingFund>) -> Seq<Option<Dec>> {
    fs.map_values(|f: ExistingFund| Some(f.nav))
}

/// (target NAV - current NAV) * 1.4 / planning years, or zero without a gap.
pub open spec fn pace_spec(i: CommitmentPacingInput, target_nav: Dec) -> Option<Dec> {
    match osub(Some(target_nav), sum_opt(fund_navs(i.existing_funds@))) {
        Some(gap) => if i.planning_years == 0 || gap.le_spec(dzero()) {
            Some(dzero())
        } else {
            odiv(gap.mul_spec(Dec::lit(14, 1)), Some(Dec::lit(i.planning_years as int, 0)))
        },
        None => None,
    }
}

pub open spec fn target_nav_spec(i: CommitmentPacingInput) -> Option<Dec> {
    i.total_portfolio_value.mul_spec(i.target_allocation_pct)
}

pub open spec fn pacing_defined(i: CommitmentPacingInput) -> bool {
    &&& target_nav_spec(i) is Some
    &&& run(i, target_nav_spec(i).unwrap(), i.planning_years as nat) is Some
    &&& pace_spec(i, target_nav_spec(i).unwrap()) is Some
}

// ---------------------------------------------------------------------------
// Implementation
// ---------------------------------------------------------------------------

fn str_of(s: &str) -> (r: String)
    ensures
        r@ == s@,
{
    String::from_str(s)
}

fn invalid(field: &str, reason: &str) -> (e: FinError)
    ensures
        err_view(e) == invalid_input(field@, reason@),
{
    FinError::InvalidInput { field: str_of(field), reason: str_of(reason) }
}

proof fn lemma_first_out_prefix(s: Seq<Dec>, j: int)
    requires
        0 <= j < s.len(),
    ensures
        first_out_of_unit(s.take(j + 1)) == match first_out_of_unit(s.take(j)) {
            Some(k) => Some(k),
            None => if out_of_unit(s[j]) {
                Some(j as nat)
            } else {
                None
            },
        },
{
    assert(s.take(j + 1).drop_last() =~= s.take(j));
}

/// The index of the first value outside [0, 1].
fn find_out_of_unit(v: &Vec<Dec>) -> (r: Option<usize>)
    ensures
        r matches Some(k) ==> first_out_of_unit(v@) == Some(k as nat),
        r is None ==> first_out_of_unit(v@) is None,
{
    let zero = Dec::zero();
    let one = Dec::one();
    let mut j: usize = 0;
    while j < v.len()
        invariant
            j <= v@.len(),
            zero == dzero(),
            one == Dec::lit(1, 0),
            first_out_of_unit(v@.take(j as int)) is None,
        decreases v@.len() - j,
    {
        proof {
            lemma_first_out_prefix(v@, j as int);
        }
        if v[j].lt(&zero) || one.lt(&v[j]) {
            proof {
                lemma_first_out_some(v@, j as int + 1);
            }
            return Some(j);
        }
        j = j + 1;
    }
    proof {
        assert(v@.take(v@.len() as int) =~= v@);
    }
    None
}

proof fn lemma_first_out_some(s: Seq<Dec>, k: int)
    requires
        0 <= k <= s.len(),
        first_out_of_unit(s.take(k)) is Some,
    ensures
        first_out_of_unit(s) == first_out_of_unit(s.take(k)),
    decreases s.len() - k,
{
    if k == s.len() {
        assert(s.take(k) =~= s);
    } else {
        assert(s.take(k + 1).drop_last() =~= s.take(k));
        lemma_first_out_some(s, k + 1);
    }
}

proof fn lemma_funds_error_some(fs: Seq<ExistingFund>, k: int)
    requires
        0 <= k <= fs.len(),
        funds_error(fs.take(k)) is Some,
    ensures
        funds_error(fs) == funds_error(fs.take(k)),
    decreases fs.len() - k,
{
    if k == fs.len() {
        assert(fs.take(k) =~= fs);
    } else {
        assert(fs.take(k + 1).drop_last() =~= fs.take(k));
        lemma_funds_error_some(fs, k + 1);
    }
}

fn indexed(name: &str, k: usize) -> (r: String)
    ensures
        r@ == indexed_field(name@, k as nat),
{
    let r = str_of(name).concat("[").concat(usize_to_string(k).as_str()).concat("]");
    proof {
        assert(r@ =~= indexed_field(name@, k as nat));
    }
    r
}

fn validate_pacing_input(input: &CommitmentPacingInput) -> (r: FinResult<()>)
    ensures
        r is Err <==> pacing_validation(*input) is Some,
        r matches Err(e) ==> Some(err_view(e)) == pacing_validation(*input),
{
    let zero = Dec::zero();
    let one = Dec::one();
    if input.total_portfolio_value.le(&zero) {
        return Err(invalid("total_portfolio_value", "Total portfolio value must be positive."));
    }
    if input.target_allocation_pct.le(&zero) || one.lt(&input.target_allocation_pct) {
        return Err(invalid("target_allocation_pct", "Target allocation must be in (0, 1]."));
    }
    if input.planning_years == 0 {
        return Err(invalid("planning_years", "Planning years must be at least 1."));
    }
    if input.new_commitment_per_year.lt(&zero) {
        return Err(
            invalid("new_commitment_per_year", "New commitment per year cannot be negative."),
        );
    }
    if input.drawdown_curve.len() == 0 {
        return Err(
            FinError::InsufficientData(str_of("Drawdown curve must have at least one entry.")),
        );
    }
    if input.distribution_curve.len() == 0 {
        return Err(
            FinError::InsufficientData(str_of("Distribution curve must have at least one entry.")),
        );
    }
    match find_out_of_unit(&input.drawdown_curve) {
        Some(k) => {
            return Err(
                FinError::InvalidInput {
                    field: indexed("drawdown_curve", k),
                    reason: str_of("Drawdown curve values must be in [0, 1]."),
                },
            );
        },
        None => {},
    }
    match find_out_of_unit(&input.distribution_curve) {
        Some(k) => {
            return Err(
                FinError::InvalidInput {
                    field: indexed("distribution_curve", k),
                    reason: str_of("Distribution curve values must be in [0, 1]."),
                },
            );
        },
        None => {},
    }
    let fs = &input.existing_funds;
    proof {
        assert(pacing_validation(*input) == funds_error(input.existing_funds@));
    }
    let mut j: usize = 0;
    while j < fs.len()
        invariant
            j <= fs@.len(),
            fs@ == input.existing_funds@,
            zero == dzero(),
            pacing_validation(*input) == funds_error(input.existing_funds@),
            funds_error(fs@.take(j as int)) is None,
        decreases fs@.len() - j,
    {
        let f = &fs[j];
        proof {
            assert(fs@.take(j + 1).drop_last() =~= fs@.take(j as int));
            assert(fs@.take(j + 1).last() == fs@[j as int]);
            if fund_error(*f) is Some {
                lemma_funds_error_some(fs@, j + 1);
            }
        }
        if f.commitment.lt(&zero) {
            return Err(invalid("existing_funds.commitment", "Fund commitment cannot be negative."));
        }
        if f.unfunded.lt(&zero) {
            return Err(
                invalid("existing_funds.unfunded", "Unfunded commitment cannot be negative."),
            );
        }
        if f.nav.lt(&zero) {
            return Err(invalid("existing_funds.nav", "NAV cannot be negative."));
        }
        j = j + 1;
    }
    proof {
        assert(fs@.take(fs@.len() as int) =~= fs@);
    }
    Ok(())
}

fn fund_step_exec(u: Dec, nav: Dec, rdd: Dec, rdist: Dec) -> (r: FinResult<(Dec, Dec, Dec, Dec)>)
    ensures
        r is Err <==> fund_step(u, nav, rdd, rdist) is None,
        r is Err ==> r == Err::<(Dec, Dec, Dec, Dec), FinError>(FinError::ArithmeticOverflow),
        r matches Ok(t) ==> fund_step(u, nav, rdd, rdist) == Some(t),
{
    let d0 = u.mul(&rdd)?;
    let dd = d0.min(&u);
    let u2 = u.sub(&dd)?;
    let n1 = nav.add(&dd)?;
    let dist = n1.mul(&rdist)?;
    let n2 = n1.sub(&dist)?;
    Ok((u2, n2, dd, dist))
}

proof fn lemma_funds_step_prefix(st: Seq<(Dec, Dec)>, rates: Seq<(Dec, Dec)>, j: int)
    requires
        0 <= j < st.len(),
    ensures
        funds_step(st.take(j + 1), rates) == match funds_step(st.take(j), rates) {
            Some(prev) => match fund_step(st[j].0, st[j].1, rates[j].0, rates[j].1) {
                Some(f) => match (prev.1.add_spec(f.2), prev.2.add_spec(f.3)) {
                    (Some(a), Some(b)) => Some((prev.0.push((f.0, f.1)), a, b)),
                    _ => None,
                },
                None => None,
            },
            None => None,
        },
{
    assert(st.take(j + 1).drop_last() =~= st.take(j));
}

proof fn lemma_funds_step_none(st: Seq<(Dec, Dec)>, rates: Seq<(Dec, Dec)>, k: int)
    requires
        0 <= k <= st.len(),
        funds_step(st.take(k), rates) is None,
    ensures
        funds_step(st, rates) is None,
    decreases st.len() - k,
{
    if k == st.len() {
        assert(st.take(k) =~= st);
    } else {
        assert(st.take(k + 1).drop_last() =~= st.take(k));
        lemma_funds_step_none(st, rates, k + 1);
    }
}

/// A year keeps one state per fund.
proof fn lemma_funds_step_len(st: Seq<(Dec, Dec)>, rates: Seq<(Dec, Dec)>)
    requires
        funds_step(st, rates) is Some,
    ensures
        funds_step(st, rates)->Some_0.0.len() == st.len(),
    decreases st.len(),
{
    if st.len() > 0 {
        lemma_funds_step_len(st.drop_last(), rates);
    }
}

fn funds_step_exec(st: &Vec<(Dec, Dec)>, funds: &Vec<ExistingFund>) -> (r: FinResult<(Vec<(Dec, Dec)>, Dec, Dec)>)
    requires
        st@.len() <= funds@.len(),
    ensures
        r is Err <==> funds_step(st@, rates_of(funds@)) is None,
        r is Err ==> r == Err::<(Vec<(Dec, Dec)>, Dec, Dec), FinError>(FinError::ArithmeticOverflow),
        r matches Ok(t) ==> funds_step(st@, rates_of(funds@)) == Some((t.0@, t.1, t.2)),
        r matches Ok(t) ==> t.0@.len() == st@.len(),
{
    let ghost rates = rates_of(funds@);
    let mut ns: Vec<(Dec, Dec)> = Vec::new();
    let mut tdd = Dec::zero();
    let mut tdist = Dec::zero();
    let mut j: usize = 0;
    while j < st.len()
        invariant
            j <= st@.len(),
            st@.len() <= funds@.len(),
            rates == rates_of(funds@),
            funds_step(st@.take(j as int), rates) == Some((ns@, tdd, tdist)),
            ns@.len() == j,
        decreases st@.len() - j,
    {
        proof {
            lemma_funds_step_prefix(st@, rates, j as int);
        }
        let (u, nav) = st[j];
        let rdd = funds[j].drawdown_rate;
        let rdist = funds[j].distribution_rate;
        let step: FinResult<((Dec, Dec), Dec, Dec)> = (|| -> (rr: FinResult<((Dec, Dec), Dec, Dec)>)
            ensures
                rr is Err <==> funds_step(st@.take(j + 1), rates) is None,
                rr is Err ==> rr == Err::<((Dec, Dec), Dec, Dec), FinError>(
                    FinError::ArithmeticOverflow,
                ),
                rr matches Ok(t) ==> funds_step(st@.take(j + 1), rates) == Some(
                    (ns@.push(t.0), t.1, t.2),
                ),
            {
                let f = fund_step_exec(u, nav, rdd, rdist)?;
                let a = tdd.add(&f.2)?;
                let b = tdist.add(&f.3)?;
                Ok(((f.0, f.1), a, b))
            })();
        match step {
            Ok(t) => {
                ns.push(t.0);
                tdd = t.1;
                tdist = t.2;
            },
            Err(e) => {
                proof {
                    lemma_funds_step_none(st@, rates, j + 1);
                }
                return Err(e);
            },
        }
        j = j + 1;
    }
    proof {
        assert(st@.take(st@.len() as int) =~= st@);
    }
    Ok((ns, tdd, tdist))
}

/// Sum of the first `k` curve values (all of them when the curve is shorter).
fn cumsum_exec(curve: &Vec<Dec>, k: usize) -> (r: FinResult<Dec>)
    ensures
        r == lift(cumsum(curve@, k as nat)),
{
    let m: usize = if k <= curve.len() {
        k
    } else {
        curve.len()
    };
    let ghost terms = Seq::new(m as nat, |b: int| Some(curve@[b]));
    let mut acc = Dec::zero();
    let mut b: usize = 0;
    while b < m
        invariant
            b <= m,
            m <= curve@.len(),
            m == min_nat(k as nat, curve@.len()),
            terms == Seq::new(m as nat, |q: int| Some(curve@[q])),
            sum_opt(terms.take(b as int)) == Some(acc),
        decreases m - b,
    {
        proof {
            assert(terms.take(b + 1).drop_last() =~= terms.take(b as int));
        }
        acc = match acc.add(&curve[b]) {
            Ok(x) => x,
            Err(e) => {
                proof {
                    lemma_sum_opt_none(terms, b as int);
                }
                return Err(e);
            },
        };
        b = b + 1;
    }
    proof {
        assert(terms.take(m as int) =~= terms);
    }
    Ok(acc)
}

fn dist_term_exec(input: &CommitmentPacingInput, age: usize) -> (r: FinResult<Dec>)
    requires
        age < input.distribution_curve@.len(),
        age < usize::MAX,
    ensures
        r == lift(dist_term(*input, age as nat)),
{
    let s = cumsum_exec(&input.drawdown_curve, age + 1)?;
    s.mul(&input.new_commitment_per_year)?.mul(&input.distribution_curve[age])
}

fn cum_dist_exec(input: &CommitmentPacingInput, age: usize) -> (r: FinResult<Dec>)
    requires
        age < usize::MAX,
    ensures
        r == lift(cum_dist(*input, age as nat)),
{
    let dl = input.distribution_curve.len();
    let m: usize = if age + 1 <= dl {
        age + 1
    } else {
        dl
    };
    let ghost terms = Seq::new(m as nat, |a: int| dist_term(*input, a as nat));
    let mut acc = Dec::zero();
    let mut a: usize = 0;
    while a < m
        invariant
            a <= m,
            m <= input.distribution_curve@.len(),
            m == min_nat((age + 1) as nat, input.distribution_curve@.len()),
            terms == Seq::new(m as nat, |q: int| dist_term(*input, q as nat)),
            sum_opt(terms.take(a as int)) == Some(acc),
        decreases m - a,
    {
        proof {
            assert(terms.take(a + 1).drop_last() =~= terms.take(a as int));
        }
        let t = match dist_term_exec(input, a) {
            Ok(t) => t,
            Err(e) => {
                proof {
                    lemma_sum_opt_none(terms, a as int);
                }
                return Err(e);
            },
        };
        acc = match acc.add(&t) {
            Ok(x) => x,
            Err(e) => {
                proof {
                    lemma_sum_opt_none(terms, a as int);
                }
                return Err(e);
            },
        };
        a = a + 1;
    }
    proof {
        assert(terms.take(m as int) =~= terms);
    }
    Ok(acc)
}

fn nav_term_exec(input: &CommitmentPacingInput, age: usize) -> (r: FinResult<Dec>)
    requires
        age < usize::MAX,
    ensures
        r == lift(nav_term(*input, age as nat)),
{
    let cum_dd = cumsum_exec(&input.drawdown_curve, age + 1)?.mul(&input.new_commitment_per_year)?;
    let cd = cum_dist_exec(input, age)?;
    if cum_dd.gt(&cd) {
        cum_dd.sub(&cd)
    } else {
        Ok(Dec::zero())
    }
}

fn unf_term_exec(input: &CommitmentPacingInput, age: usize) -> (r: FinResult<Dec>)
    requires
        age < usize::MAX,
    ensures
        r == lift(unf_term(*input, age as nat)),
{
    let drawn = cumsum_exec(&input.drawdown_curve, age + 1)?;
    let rem = Dec::one().sub(&drawn)?;
    if rem.gt(&Dec::zero()) {
        input.new_commitment_per_year.mul(&rem)
    } else {
        Ok(Dec::zero())
    }
}

/// Sum of the new commitments' NAV (`nav`) or unfunded amounts in year `yr`, oldest first.
fn new_commitment_sum(input: &CommitmentPacingInput, yr: usize, nav: bool) -> (r: FinResult<Dec>)
    requires
        yr < usize::MAX,
    ensures
        nav ==> r == lift(sum_opt(new_navs(*input, yr as nat))),
        !nav ==> r == lift(sum_opt(new_unfs(*input, yr as nat))),
{
    let ghost terms = if nav {
        new_navs(*input, yr as nat)
    } else {
        new_unfs(*input, yr as nat)
    };
    let mut acc = Dec::zero();
    let mut cy: usize = 0;
    while cy <= yr
        invariant
            cy <= yr + 1,
            yr < usize::MAX,
            terms.len() == yr + 1,
            terms == if nav {
                new_navs(*input, yr as nat)
            } else {
                new_unfs(*input, yr as nat)
            },
            sum_opt(terms.take(cy as int)) == Some(acc),
        decreases yr + 1 - cy,
    {
        proof {
            assert(terms.take(cy + 1).drop_last() =~= terms.take(cy as int));
        }
        let t = if nav {
            nav_term_exec(input, yr - cy)
        } else {
            unf_term_exec(input, yr - cy)
        };
        let t = match t {
            Ok(t) => t,
            Err(e) => {
                proof {
                    lemma_sum_opt_none(terms, cy as int);
                }
                return Err(e);
            },
        };
        acc = match acc.add(&t) {
            Ok(x) => x,
            Err(e) => {
                proof {
                    lemma_sum_opt_none(terms, cy as int);
                }
                return Err(e);
            },
        };
        cy = cy + 1;
    }
    proof {
        assert(terms.take(terms.len() as int) =~= terms);
    }
    Ok(acc)
}

/// Drawdown (`dd`) or distribution totals of the year: the existing funds' total, then the
/// new commitments still on the curve, oldest first.
fn new_commitment_flows(input: &CommitmentPacingInput, yr: usize, base: Dec, dd: bool) -> (r: FinResult<Dec>)
    requires
        yr < usize::MAX,
    ensures
        dd ==> r == lift(fold_from(Some(base), new_dd_terms(*input, yr as nat))),
        !dd ==> r == lift(fold_from(Some(base), new_dist_terms(*input, yr as nat))),
{
    let len = if dd {
        input.drawdown_curve.len()
    } else {
        input.distribution_curve.len()
    };
    let lo: usize = if yr + 1 > len {
        yr + 1 - len
    } else {
        0
    };
    let ghost terms = if dd {
        new_dd_terms(*input, yr as nat)
    } else {
        new_dist_terms(*input, yr as nat)
    };
    proof {
        assert(lo == first_live(yr as nat, len as nat));
    }
    let mut acc = base;
    let mut cy: usize = lo;
    while cy <= yr
        invariant
            lo <= cy <= yr + 1,
            yr < usize::MAX,
            lo == first_live(yr as nat, len as nat),
            len == if dd {
                input.drawdown_curve@.len()
            } else {
                input.distribution_curve@.len()
            },
            terms.len() == yr + 1 - lo,
            terms == if dd {
                new_dd_terms(*input, yr as nat)
            } else {
                new_dist_terms(*input, yr as nat)
            },
            fold_from(Some(base), terms.take(cy - lo)) == Some(acc),
        decreases yr + 1 - cy,
    {
        proof {
            lemma_fold_step(Some(base), terms, cy - lo);
        }
        let age = yr - cy;
        let t = if dd {
            input.new_commitment_per_year.mul(&input.drawdown_curve[age])
        } else {
            dist_term_exec(input, age)
        };
        let t = match t {
            Ok(t) => t,
            Err(e) => {
                proof {
                    lemma_fold_from_none(Some(base), terms, cy - lo + 1);
                }
                return Err(e);
            },
        };
        acc = match acc.add(&t) {
            Ok(x) => x,
            Err(e) => {
                proof {
                    lemma_fold_from_none(Some(base), terms, cy - lo + 1);
                }
                return Err(e);
            },
        };
        cy = cy + 1;
    }
    proof {
        lemma_fold_full(Some(base), terms);
    }
    Ok(acc)
}

fn sum_parts(st: &Vec<(Dec, Dec)>, nav: bool) -> (r: FinResult<Dec>)
    ensures
        nav ==> r == lift(sum_opt(navs(st@))),
        !nav ==> r == lift(sum_opt(unfundeds(st@))),
{
    let ghost terms = if nav {
        navs(st@)
    } else {
        unfundeds(st@)
    };
    let mut acc = Dec::zero();
    let mut j: usize = 0;
    while j < st.len()
        invariant
            j <= st@.len(),
            terms == if nav {
                navs(st@)
            } else {
                unfundeds(st@)
            },
            sum_opt(terms.take(j as int)) == Some(acc),
        decreases st@.len() - j,
    {
        proof {
            assert(terms.take(j + 1).drop_last() =~= terms.take(j as int));
        }
        let x = if nav {
            st[j].1
        } else {
            st[j].0
        };
        acc = match acc.add(&x) {
            Ok(v) => v,
            Err(e) => {
                proof {
                    lemma_sum_opt_none(terms, j as int);
                }
                return Err(e);
            },
        };
        j = j + 1;
    }
    proof {
        assert(terms.take(terms.len() as int) =~= terms);
    }
    Ok(acc)
}

fn year_exec(input: &CommitmentPacingInput, st: &Vec<(Dec, Dec)>, yr: usize, target_nav: Dec) -> (r: FinResult<(Vec<(Dec, Dec)>, PacingYearProjection)>)
    requires
        yr < input.planning_years,
        st@.len() == input.existing_funds@.len(),
    ensures
        r is Err <==> year_spec(*input, st@, yr as nat, target_nav) is None,
        r is Err ==> r == Err::<(Vec<(Dec, Dec)>, PacingYearProjection), FinError>(
            FinError::ArithmeticOverflow,
        ),
        r matches Ok(t) ==> year_spec(*input, st@, yr as nat, target_nav) == Some((t.0@, t.1)),
        r matches Ok(t) ==> t.0@.len() == st@.len(),
{
    let (ns, tdd0, tdist0) = funds_step_exec(st, &input.existing_funds)?;
    let ghost i = *input;
    let res: FinResult<PacingYearProjection> = (|| -> (rr: FinResult<PacingYearProjection>)
        ensures
            rr is Err <==> year_spec(i, st@, yr as nat, target_nav) is None,
            rr is Err ==> rr == Err::<PacingYearProjection, FinError>(FinError::ArithmeticOverflow),
            rr matches Ok(p) ==> year_spec(i, st@, yr as nat, target_nav) == Some((ns@, p)),
        {
            let tdd = new_commitment_flows(input, yr, tdd0, true)?;
            let tdist = new_commitment_flows(input, yr, tdist0, false)?;
            let pnav = sum_parts(&ns, true)?.add(&new_commitment_sum(input, yr, true)?)?;
            let alloc = if input.total_portfolio_value.is_zero() {
                Dec::zero()
            } else {
                pnav.div(&input.total_portfolio_value)?
            };
            let tun = sum_parts(&ns, false)?.add(&new_commitment_sum(input, yr, false)?)?;
            let tc = pnav.add(&tun)?;
            let oc = if target_nav.is_zero() {
                Dec::zero()
            } else {
                tc.div(&target_nav)?
            };
            let net = tdist.sub(&tdd)?;
            Ok(
                PacingYearProjection {
                    year: (yr + 1) as u32,
                    new_commitments: input.new_commitment_per_year,
                    projected_drawdowns: tdd,
                    projected_distributions: tdist,
                    projected_nav: pnav,
                    allocation_pct: alloc,
                    over_commitment_ratio: oc,
                    net_cash_flow: net,
                },
            )
        })();
    let p = res?;
    Ok((ns, p))
}

proof fn lemma_peak_step(ps: Seq<PacingYearProjection>, p: PacingYearProjection)
    ensures
        peak_of(ps.push(p)) == if p.over_commitment_ratio.gt_spec(peak_of(ps)) {
            p.over_commitment_ratio
        } else {
            peak_of(ps)
        },
{
    assert(ps.push(p).drop_last() =~= ps);
}

proof fn lemma_reach_step(ps: Seq<PacingYearProjection>, p: PacingYearProjection, t: Dec)
    ensures
        first_reach(ps.push(p), t) == match first_reach(ps, t) {
            Some(y) => Some(y),
            None => if p.allocation_pct.ge_spec(t) {
                Some(p.year)
            } else {
                None
            },
        },
{
    assert(ps.push(p).drop_last() =~= ps);
}

/// Project the commitment pacing of a fund-of-funds programme year by year: drawdowns,
/// distributions, NAV, allocation and over-commitment, with the pace that would close
/// the gap to the target NAV.
pub fn calculate_commitment_pacing(input: &CommitmentPacingInput) -> (r: FinResult<CommitmentPacingOutput>)
    ensures
        pacing_validation(*input) is Some ==> (r matches Err(e) && Some(err_view(e))
            == pacing_validation(*input)),
        pacing_validation(*input) is None ==> (r is Ok <==> pacing_defined(*input)),
        pacing_validation(*input) is None && !pacing_defined(*input) ==> r == Err::<
            CommitmentPacingOutput,
            FinError,
        >(FinError::ArithmeticOverflow),
        r matches Ok(out) ==> {
            let tn = target_nav_spec(*input).unwrap();
            let ps = run(*input, tn, input.planning_years as nat).unwrap().1;
            &&& out.yearly_projections@ == ps
            &&& out.peak_over_commitment == peak_of(ps)
            &&& out.years_to_target == match first_reach(ps, input.target_allocation_pct) {
                Some(y) => y,
                None => input.planning_years,
            }
            &&& Some(out.recommended_pace) == pace_spec(*input, tn)
            &&& out.recommended_pace.ge_spec(dzero())
            &&& rows_consistent(*input, out.yearly_projections@, input.planning_years as nat)
            &&& summary_consistent(
                *input,
                out.yearly_projections@,
                out.peak_over_commitment,
                out.years_to_target,
            )
        },
{
    validate_pacing_input(input)?;
    let target_nav = input.total_portfolio_value.mul(&input.target_allocation_pct)?;
    let n = input.planning_years as usize;
    let mut states: Vec<(Dec, Dec)> = Vec::new();
    let mut k: usize = 0;
    while k < input.existing_funds.len()
        invariant
            k <= input.existing_funds@.len(),
            states@ == initial_states(*input).take(k as int),
        decreases input.existing_funds@.len() - k,
    {
        states.push((input.existing_funds[k].unfunded, input.existing_funds[k].nav));
        proof {
            assert(states@ =~= initial_states(*input).take(k + 1));
        }
        k = k + 1;
    }
    proof {
        assert(states@ =~= initial_states(*input));
    }
    let mut projections: Vec<PacingYearProjection> = Vec::new();
    let mut peak = Dec::zero();
    let mut years_to_target: u32 = 0;
    let mut reached = false;
    let mut yr: usize = 0;
    while yr < n
        invariant
            yr <= n,
            n == input.planning_years,
            pacing_validation(*input) is None,
            target_nav_spec(*input) == Some(target_nav),
            run(*input, target_nav, yr as nat) == Some((states@, projections@)),
            states@.len() == input.existing_funds@.len(),
            peak == peak_of(projections@),
            reached <==> first_reach(projections@, input.target_allocation_pct) is Some,
            reached ==> first_reach(projections@, input.target_allocation_pct) == Some(
                years_to_target,
            ),
        decreases n - yr,
    {
        let (ns, p) = match year_exec(input, &states, yr, target_nav) {
            Ok(t) => t,
            Err(e) => {
                proof {
                    assert(run(*input, target_nav, (yr + 1) as nat) is None);
                    lemma_run_none(*input, target_nav, (yr + 1) as nat, input.planning_years as nat);
                }
                return Err(e);
            },
        };
        proof {
            lemma_peak_step(projections@, p);
            lemma_reach_step(projections@, p, input.target_allocation_pct);
        }
        if p.over_commitment_ratio.gt(&peak) {
            peak = p.over_commitment_ratio;
        }
        if !reached && p.allocation_pct.ge(&input.target_allocation_pct) {
            years_to_target = p.year;
            reached = true;
        }
        states = ns;
        projections.push(p);
        yr = yr + 1;
    }
    if !reached {
        years_to_target = input.planning_years;
    }
    let ghost i = *input;
    let pace: FinResult<Dec> = (|| -> (rr: FinResult<Dec>)
        ensures
            rr == lift(pace_spec(i, target_nav)),
            rr matches Ok(p) ==> p.ge_spec(dzero()),
        {
            let mut current_nav = Dec::zero();
            let ghost terms = fund_navs(i.existing_funds@);
            let mut j: usize = 0;
            while j < input.existing_funds.len()
                invariant
                    j <= input.existing_funds@.len(),
                    terms == fund_navs(i.existing_funds@),
                    i == *input,
                    sum_opt(terms.take(j as int)) == Some(current_nav),
                decreases input.existing_funds@.len() - j,
            {
                proof {
                    assert(terms.take(j + 1).drop_last() =~= terms.take(j as int));
                }
                current_nav = match current_nav.add(&input.existing_funds[j].nav) {
                    Ok(x) => x,
                    Err(e) => {
                        proof {
                            lemma_sum_opt_none(terms, j as int);
                        }
                        return Err(e);
                    },
                };
                j = j + 1;
            }
            proof {
                assert(terms.take(terms.len() as int) =~= terms);
            }
            let gap = target_nav.sub(&current_nav)?;
            if input.planning_years == 0 || gap.le(&Dec::zero()) {
                proof {
                    Dec::lemma_nonneg(dzero());
                }
                Ok(Dec::zero())
            } else {
                proof {
                    Dec::lemma_nonneg(gap);
                }
                let scaled = gap.mul(&Dec::new(14, 1))?;
                let pace = scaled.div(&Dec::from_u64(input.planning_years as u64))?;
                proof {
                    Dec::lemma_nonneg(pace);
                }
                Ok(pace)
            }
        })();
    let recommended_pace = pace?;
    proof {
        lemma_projection_rows(i);
        lemma_pacing_summary(i);
    }
    Ok(
        CommitmentPacingOutput {
            yearly_projections: projections,
            recommended_pace,
            years_to_target,
            peak_over_commitment: peak,
        },
    )
}

/// Once a prefix of the projection is undefined, so is every longer one.
proof fn lemma_run_none(i: CommitmentPacingInput, tn: Dec, k: nat, n: nat)
    requires
        k <= n,
        run(i, tn, k) is None,
    ensures
        run(i, tn, n) is None,
    decreases n - k,
{
    if k < n {
        lemma_run_none(i, tn, k + 1, n);
    }
}

/// The rows of a projection: one per year, numbered from 1, each with net cash flow
/// distributions - drawdowns and allocation NAV / portfolio value.
pub open spec fn rows_consistent(i: CommitmentPacingInput, ps: Seq<PacingYearProjection>, k: nat) -> bool {
    &&& ps.len() == k
    &&& forall|j: int|
        0 <= j < ps.len() ==> {
            let p = #[trigger] ps[j];
            &&& p.year == j + 1
            &&& p.new_commitments == i.new_commitment_per_year
            &&& Some(p.net_cash_flow) == p.projected_distributions.sub_spec(p.projected_drawdowns)
            &&& Some(p.allocation_pct) == if i.total_portfolio_value.is_zero_spec() {
                Some(dzero())
            } else {
                p.projected_nav.div_spec(i.total_portfolio_value)
            }
        }
}

proof fn lemma_run_rows(i: CommitmentPacingInput, tn: Dec, k: nat)
    requires
        run(i, tn, k) is Some,
        k <= u32::MAX,
    ensures
        rows_consistent(i, run(i, tn, k)->Some_0.1, k),
    decreases k,
{
    if k > 0 {
        lemma_run_rows(i, tn, (k - 1) as nat);
        let prev = run(i, tn, (k - 1) as nat)->Some_0;
        let ps = run(i, tn, k)->Some_0.1;
        assert forall|j: int| 0 <= j < ps.len() implies {
            let p = #[trigger] ps[j];
            &&& p.year == j + 1
            &&& p.new_commitments == i.new_commitment_per_year
            &&& Some(p.net_cash_flow) == p.projected_distributions.sub_spec(p.projected_drawdowns)
            &&& Some(p.allocation_pct) == if i.total_portfolio_value.is_zero_spec() {
                Some(dzero())
            } else {
                p.projected_nav.div_spec(i.total_portfolio_value)
            }
        } by {
            if j < prev.1.len() {
                assert(ps[j] == prev.1[j]);
            }
        }
    }
}

/// A projection has one row per planning year, numbered from 1, each row's net cash flow
/// is its distributions less its drawdowns and its allocation is its NAV over the
/// portfolio value (zero for a zero portfolio value).
pub proof fn lemma_projection_rows(i: CommitmentPacingInput)
    requires
        pacing_validation(i) is None,
        pacing_defined(i),
    ensures
        rows_consistent(i, run(i, target_nav_spec(i).unwrap(), i.planning_years as nat).unwrap().1, i.planning_years as nat),
{
    lemma_run_rows(i, target_nav_spec(i).unwrap(), i.planning_years as nat);
}

/// A fund the validation refuses: one with a negative commitment, unfunded amount or NAV.
pub open spec fn refused_fund(f: ExistingFund) -> bool {
    f.commitment.lt_spec(dzero()) || f.unfunded.lt_spec(dzero()) || f.nav.lt_spec(dzero())
}

/// The inputs whose settings the validation refuses outright, before it reads the curves.
pub open spec fn settings_refused(i: CommitmentPacingInput) -> bool {
    ||| i.total_portfolio_value.le_spec(dzero())
    ||| i.target_allocation_pct.le_spec(dzero())
    ||| Dec::lit(1, 0).lt_spec(i.target_allocation_pct)
    ||| i.planning_years == 0
    ||| i.new_commitment_per_year.lt_spec(dzero())
}

/// The inputs the validation refuses.
pub open spec fn pacing_refused(i: CommitmentPacingInput) -> bool {
    ||| settings_refused(i)
    ||| i.drawdown_curve@.len() == 0
    ||| i.distribution_curve@.len() == 0
    ||| exists|k: int| 0 <= k < i.drawdown_curve@.len() && out_of_unit(#[trigger] i.drawdown_curve@[k])
    ||| exists|k: int|
        0 <= k < i.distribution_curve@.len() && out_of_unit(#[trigger] i.distribution_curve@[k])
    ||| exists|k: int| 0 <= k < i.existing_funds@.len() && refused_fund(#[trigger] i.existing_funds@[k])
}

proof fn lemma_first_out_of_unit(s: Seq<Dec>)
    ensures
        first_out_of_unit(s) is Some <==> exists|k: int| 0 <= k < s.len() && out_of_unit(#[trigger] s[k]),
    decreases s.len(),
{
    if s.len() > 0 {
        let init = s.drop_last();
        lemma_first_out_of_unit(init);
        if first_out_of_unit(init) is Some {
            let k = choose|k: int| 0 <= k < init.len() && out_of_unit(#[trigger] init[k]);
            assert(s[k] == init[k]);
        } else if out_of_unit(s.last()) {
            assert(out_of_unit(s[s.len() - 1]));
        } else if exists|k: int| 0 <= k < s.len() && out_of_unit(#[trigger] s[k]) {
            let k = choose|k: int| 0 <= k < s.len() && out_of_unit(#[trigger] s[k]);
            assert(k < s.len() - 1);
            assert(init[k] == s[k]);
        }
    }
}

proof fn lemma_funds_error(fs: Seq<ExistingFund>)
    ensures
        funds_error(fs) is Some <==> exists|k: int| 0 <= k < fs.len() && refused_fund(#[trigger] fs[k]),
        funds_error(fs) matches Some(e) ==> e.0 == 0,
    decreases fs.len(),
{
    if fs.len() > 0 {
        let init = fs.drop_last();
        lemma_funds_error(init);
        if funds_error(init) is Some {
            let k = choose|k: int| 0 <= k < init.len() && refused_fund(#[trigger] init[k]);
            assert(fs[k] == init[k]);
        } else if refused_fund(fs.last()) {
            assert(refused_fund(fs[fs.len() - 1]));
        } else if exists|k: int| 0 <= k < fs.len() && refused_fund(#[trigger] fs[k]) {
            let k = choose|k: int| 0 <= k < fs.len() && refused_fund(#[trigger] fs[k]);
            assert(k < fs.len() - 1);
            assert(init[k] == fs[k]);
        }
    }
}

/// The pacing input is refused exactly when the portfolio value is not positive, the
/// target allocation lies outside (0, 1], there are no planning years, the yearly new
/// commitment is negative, a curve is empty or holds a value outside [0, 1], or a fund has
/// a negative commitment, unfunded amount or NAV. An empty curve (with acceptable
/// settings) is answered as missing data; every other refusal is invalid input.
pub proof fn lemma_pacing_refusals(i: CommitmentPacingInput)
    ensures
        pacing_validation(i) is Some <==> pacing_refused(i),
        pacing_validation(i) matches Some(e) ==> (e.0 == 2 <==> (!settings_refused(i) && (
        i.drawdown_curve@.len() == 0 || i.distribution_curve@.len() == 0))),
        pacing_validation(i) matches Some(e) ==> (e.0 == 0 || e.0 == 2),
{
    lemma_first_out_of_unit(i.drawdown_curve@);
    lemma_first_out_of_unit(i.distribution_curve@);
    lemma_funds_error(i.existing_funds@);
}

proof fn lemma_peak_of(ps: Seq<PacingYearProjection>)
    ensures
        peak_of(ps).ge_spec(dzero()),
        forall|j: int| 0 <= j < ps.len() ==> peak_of(ps).ge_spec(#[trigger] ps[j].over_commitment_ratio),
        peak_of(ps) == dzero() || exists|j: int|
            0 <= j < ps.len() && peak_of(ps) == #[trigger] ps[j].over_commitment_ratio,
    decreases ps.len(),
{
    if ps.len() == 0 {
        assert(dzero().le_spec(dzero()));
    } else {
        let init = ps.drop_last();
        lemma_peak_of(init);
        let p = peak_of(init);
        let last = ps.last().over_commitment_ratio;
        let top = peak_of(ps);
        Dec::lemma_not_lt(p, last);
        assert(p.le_spec(top)) by {
            if last.gt_spec(p) {
                assert(p.le_spec(last));
            } else {
                assert(p.le_spec(p));
            }
        }
        assert(last.le_spec(top));
        Dec::lemma_le_trans(dzero(), p, top);
        assert forall|j: int| 0 <= j < ps.len() implies top.ge_spec(
            #[trigger] ps[j].over_commitment_ratio,
        ) by {
            if j < ps.len() - 1 {
                assert(init[j] == ps[j]);
                Dec::lemma_le_trans(ps[j].over_commitment_ratio, p, top);
            }
        }
        if top != dzero() {
            if top == last {
                assert(ps[ps.len() - 1].over_commitment_ratio == top);
            } else {
                let j = choose|j: int| 0 <= j < init.len() && p == #[trigger] init[j].over_commitment_ratio;
                assert(ps[j] == init[j]);
            }
        }
    }
}

proof fn lemma_first_reach(ps: Seq<PacingYearProjection>, target: Dec)
    requires
        forall|j: int| 0 <= j < ps.len() ==> (#[trigger] ps[j]).year == j + 1,
    ensures
        first_reach(ps, target) matches Some(y) ==> {
            &&& 1 <= y <= ps.len()
            &&& ps[y - 1].allocation_pct.ge_spec(target)
            &&& forall|j: int| 0 <= j < y - 1 ==> !(#[trigger] ps[j]).allocation_pct.ge_spec(target)
        },
        first_reach(ps, target) is None ==> forall|j: int|
            0 <= j < ps.len() ==> !(#[trigger] ps[j]).allocation_pct.ge_spec(target),
    decreases ps.len(),
{
    if ps.len() > 0 {
        let init = ps.drop_last();
        assert forall|j: int| 0 <= j < init.len() implies (#[trigger] init[j]).year == j + 1 by {
            assert(init[j] == ps[j]);
        }
        lemma_first_reach(init, target);
        match first_reach(init, target) {
            Some(y) => {
                assert(ps[y - 1] == init[y - 1]);
                assert forall|j: int| 0 <= j < y - 1 implies !(#[trigger] ps[j]).allocation_pct.ge_spec(
                    target,
                ) by {
                    assert(init[j] == ps[j]);
                }
            },
            None => {
                assert forall|j: int| 0 <= j < ps.len() - 1 implies !(
                #[trigger] ps[j]).allocation_pct.ge_spec(target) by {
                    assert(init[j] == ps[j]);
                }
                assert(ps.last() == ps[ps.len() - 1]);
            },
        }
    }
}

/// The peak over-commitment is not negative, is at least every year's over-commitment
/// ratio and is zero or one of them; the years to target is the number of the first year
/// whose allocation reaches the target allocation, or the planning horizon when no year
/// does.
pub proof fn lemma_pacing_summary(i: CommitmentPacingInput)
    requires
        pacing_validation(i) is None,
        pacing_defined(i),
    ensures
        ({
            let ps = run(i, target_nav_spec(i).unwrap(), i.planning_years as nat).unwrap().1;
            summary_consistent(i, ps, peak_of(ps), match first_reach(ps, i.target_allocation_pct) {
                Some(y) => y,
                None => i.planning_years,
            })
        }),
{
    let ps = run(i, target_nav_spec(i).unwrap(), i.planning_years as nat).unwrap().1;
    lemma_projection_rows(i);
    lemma_peak_of(ps);
    lemma_first_reach(ps, i.target_allocation_pct);
}

/// The peak over-commitment is not negative, is at least every year's ratio and is zero
/// or one of them; the years to target is the number of the first year whose allocation
/// reaches the target, or the horizon when none does.
pub open spec fn summary_consistent(i: CommitmentPacingInput, ps: Seq<PacingYearProjection>, peak: Dec, years: u32) -> bool {
            &&& ps.len() == i.planning_years
            &&& peak.ge_spec(dzero())
            &&& forall|j: int| 0 <= j < ps.len() ==> peak.ge_spec(#[trigger] ps[j].over_commitment_ratio)
            &&& (peak == dzero() || exists|j: int|
                0 <= j < ps.len() && peak == #[trigger] ps[j].over_commitment_ratio)
            &&& 1 <= years <= i.planning_years
            &&& (forall|j: int|
                0 <= j < years - 1 ==> !(#[trigger] ps[j]).allocation_pct.ge_spec(
                    i.target_allocation_pct,
                ))
            &&& (first_reach(ps, i.target_allocation_pct) is Some ==> ps[years - 1].allocation_pct.ge_spec(
                i.target_allocation_pct,
            ))
            &&& (first_reach(ps, i.target_allocation_pct) is None ==> forall|j: int|
                0 <= j < ps.len() ==> !(#[trigger] ps[j]).allocation_pct.ge_spec(
                    i.target_allocation_pct,
                ))
}

} // verus!
